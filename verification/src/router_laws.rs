//! What holds of every route: the laws of the router.

use vstd::prelude::*;
use crate::capability::{spec_matches, CapabilityView};
use crate::instance_path::{InstancePath, PathView};
use crate::manifest::{GrantView, ImportDecl, ImportView, SourceView, SurfaceView};
use crate::namespace::namespace_offers;
use crate::router::{import_frame, spec_route, spec_route_traced, surface_frame, HopView};
use crate::selection::{
    grant_offered_at, grant_offers, select_grant, select_surface, surface_offered_at,
    surface_offers, SelectionView,
};
use crate::topology::{has_child, Topology, TopologyView};
use crate::verdict::{TerminalKind, Verdict, VerdictView};

verus! {

/// A question that routing asks of the tree.
pub enum FrameView {
    /// Who grants `wanted` to the instance at `at`?
    Import { at: PathView, wanted: CapabilityView },
    /// Who surfaces `wanted` out of the instance at `at`?
    Surface { at: PathView, wanted: CapabilityView },
}

/// Whether `hop` is a grant that the topology holds in the manifest of the
/// parent of `at`, and that offers `wanted` to `at` by kind and path.
pub open spec fn grant_hop_serves(t: TopologyView, hop: HopView, at: PathView, wanted: CapabilityView) -> bool {
    &&& hop is Grant
    &&& at.len() > 0
    &&& hop->granter == at.drop_last()
    &&& t.manifests.dom().contains(hop->granter)
    &&& grant_offered_at(t.manifests[hop->granter].grants, wanted, at.last(), hop->Grant_index)
}

/// Whether `hop` is a surface declaration that the topology holds in the
/// manifest of `at`, and that offers `wanted` to the parent by kind and path.
pub open spec fn surface_hop_serves(t: TopologyView, hop: HopView, at: PathView, wanted: CapabilityView) -> bool {
    &&& hop is Surface
    &&& hop->surfacer == at
    &&& t.manifests.dom().contains(at)
    &&& surface_offered_at(t.manifests[at].surfaces, wanted, hop->Surface_index)
}

/// The verdict that names the instance at `at` as the local source of
/// `capability`.
pub open spec fn allowed_locally(at: PathView, capability: CapabilityView) -> VerdictView {
    VerdictView::Allowed { terminal_path: at, terminal_kind: TerminalKind::LocalSource, capability }
}

/// The verdict that names the namespace as the source of `capability`.
pub open spec fn allowed_by_namespace(capability: CapabilityView) -> VerdictView {
    VerdictView::Allowed {
        terminal_path: Seq::empty(),
        terminal_kind: TerminalKind::NamespaceSource,
        capability,
    }
}

/// Whether `chain` answers `frame` and justifies `verdict`: each hop is a
/// declaration present in the topology that offers, by kind and path, what
/// the hop before it asked for; each child named as a source exists; and the
/// last hop ends in a local source that runs a program or in an entry of the
/// namespace table, which is what `verdict` names.
pub open spec fn chain_justifies(t: TopologyView, frame: FrameView, chain: Seq<HopView>, verdict: VerdictView) -> bool
    decreases chain.len(),
{
    chain.len() > 0 && match frame {
        FrameView::Import { at, wanted } => grant_hop_serves(t, chain[0], at, wanted) && {
            let granter = at.drop_last();
            let m = t.manifests[granter];
            let g = m.grants[chain[0]->Grant_index];
            match g.source {
                SourceView::Local => chain.len() == 1 && m.executable && verdict == allowed_locally(
                    granter,
                    g.capability,
                ),
                SourceView::Forwarded => if granter.len() == 0 {
                    chain.len() == 1 && namespace_offers(t.namespace, g.capability) && verdict
                        == allowed_by_namespace(g.capability)
                } else {
                    chain_justifies(
                        t,
                        FrameView::Import { at: granter, wanted: g.capability },
                        chain.skip(1),
                        verdict,
                    )
                },
                SourceView::FromChild(name) => has_child(m, name) && chain_justifies(
                    t,
                    FrameView::Surface { at: granter.push(name), wanted: g.capability },
                    chain.skip(1),
                    verdict,
                ),
            }
        },
        FrameView::Surface { at, wanted } => surface_hop_serves(t, chain[0], at, wanted) && {
            let m = t.manifests[at];
            let s = m.surfaces[chain[0]->Surface_index];
            match s.source {
                SourceView::Local => chain.len() == 1 && m.executable && verdict == allowed_locally(
                    at,
                    s.capability,
                ),
                SourceView::Forwarded => false,
                SourceView::FromChild(name) => has_child(m, name) && chain_justifies(
                    t,
                    FrameView::Surface { at: at.push(name), wanted: s.capability },
                    chain.skip(1),
                    verdict,
                ),
            }
        },
    }
}

/// A unique selection points at a grant that offers the capability.
proof fn lemma_unique_grant_offers(grants: Seq<GrantView>, wanted: CapabilityView, child: Seq<char>)
    requires
        select_grant(grants, wanted, child) is Unique,
    ensures
        grant_offered_at(grants, wanted, child, select_grant(grants, wanted, child)->Unique_0),
{
}

/// A unique selection points at a surface declaration that offers the
/// capability.
proof fn lemma_unique_surface_offers(surfaces: Seq<SurfaceView>, wanted: CapabilityView)
    requires
        select_surface(surfaces, wanted) is Unique,
    ensures
        surface_offered_at(surfaces, wanted, select_surface(surfaces, wanted)->Unique_0),
{
}

proof fn lemma_surface_frame_sound(t: TopologyView, at: PathView, wanted: CapabilityView)
    requires
        surface_frame(t, at, wanted).verdict is Allowed,
    ensures
        chain_justifies(
            t,
            FrameView::Surface { at, wanted },
            surface_frame(t, at, wanted).hops,
            surface_frame(t, at, wanted).verdict,
        ),
    decreases t.height + 1 - at.len(),
{
    let m = t.manifests[at];
    lemma_unique_surface_offers(m.surfaces, wanted);
    let i = select_surface(m.surfaces, wanted)->Unique_0;
    let s = m.surfaces[i];
    let r = surface_frame(t, at, wanted);
    assert(r.hops[0] == (HopView::Surface { surfacer: at, index: i }));
    match s.source {
        SourceView::Local => {
            assert(r.hops.len() == 1);
        },
        SourceView::Forwarded => {},
        SourceView::FromChild(name) => {
            let rest = surface_frame(t, at.push(name), s.capability);
            lemma_surface_frame_sound(t, at.push(name), s.capability);
            assert(r.hops.skip(1) =~= rest.hops);
        },
    }
}

proof fn lemma_import_frame_sound(t: TopologyView, at: PathView, wanted: CapabilityView)
    requires
        import_frame(t, at, wanted).verdict is Allowed,
    ensures
        chain_justifies(
            t,
            FrameView::Import { at, wanted },
            import_frame(t, at, wanted).hops,
            import_frame(t, at, wanted).verdict,
        ),
    decreases at.len(),
{
    let parent = at.drop_last();
    let m = t.manifests[parent];
    lemma_unique_grant_offers(m.grants, wanted, at.last());
    let i = select_grant(m.grants, wanted, at.last())->Unique_0;
    let g = m.grants[i];
    let r = import_frame(t, at, wanted);
    assert(r.hops[0] == (HopView::Grant { granter: parent, index: i }));
    match g.source {
        SourceView::Local => {
            assert(r.hops.len() == 1);
        },
        SourceView::Forwarded => {
            if parent.len() == 0 {
                assert(r.hops.len() == 1);
            } else {
                let rest = import_frame(t, parent, g.capability);
                lemma_import_frame_sound(t, parent, g.capability);
                assert(r.hops.skip(1) =~= rest.hops);
            }
        },
        SourceView::FromChild(name) => {
            let rest = surface_frame(t, parent.push(name), g.capability);
            lemma_surface_frame_sound(t, parent.push(name), g.capability);
            assert(r.hops.skip(1) =~= rest.hops);
        },
    }
}

/// Soundness. When an import is allowed, the hops of its route justify that:
/// every hop is a grant or surface declaration that the topology holds and
/// that matches by kind and path what was asked of it, and the chain ends in
/// a local source that runs a program or in an entry of the namespace table.
pub proof fn lemma_allowed_route_is_justified(t: TopologyView, importer: PathView, import: ImportView)
    requires
        spec_route(t, importer, import) is Allowed,
    ensures
        chain_justifies(
            t,
            FrameView::Import { at: importer, wanted: import.capability },
            spec_route_traced(t, importer, import).hops,
            spec_route(t, importer, import),
        ),
{
    lemma_import_frame_sound(t, importer, import.capability);
}

/// Fail-closed. When no chain of declarations leads from the import to a
/// local source that runs a program or to an entry of the namespace table,
/// the import is denied.
pub proof fn lemma_unreachable_import_is_denied(t: TopologyView, importer: PathView, import: ImportView)
    requires
        forall|chain: Seq<HopView>, verdict: VerdictView|
            !chain_justifies(
                t,
                FrameView::Import { at: importer, wanted: import.capability },
                chain,
                verdict,
            ),
    ensures
        spec_route(t, importer, import) is Denied,
{
    if spec_route(t, importer, import) is Allowed {
        lemma_allowed_route_is_justified(t, importer, import);
    }
}

/// Determinism. Two routings of the same import, from the same instance, over
/// the same topology, give the same verdict.
pub proof fn lemma_route_is_deterministic(
    t1: Topology,
    t2: Topology,
    importer1: InstancePath,
    importer2: InstancePath,
    import1: ImportDecl,
    import2: ImportDecl,
    v1: Verdict,
    v2: Verdict,
)
    requires
        t1@ == t2@,
        importer1@ == importer2@,
        import1@ == import2@,
        v1@ == spec_route(t1@, importer1@, import1@),
        v2@ == spec_route(t2@, importer2@, import2@),
    ensures
        v1@ == v2@,
{
}

/// The local path of an import plays no part in routing.
pub proof fn lemma_local_path_is_ignored(t: TopologyView, importer: PathView, a: ImportView, b: ImportView)
    requires
        a.capability == b.capability,
    ensures
        spec_route_traced(t, importer, a) == spec_route_traced(t, importer, b),
{
}

/// Exactness. Two capabilities match exactly when they are the same: a
/// different kind or a different path never matches.
pub proof fn lemma_matching_is_exact(wanted: CapabilityView, candidate: CapabilityView)
    ensures
        spec_matches(wanted, candidate) <==> wanted == candidate,
        wanted.kind != candidate.kind ==> !spec_matches(wanted, candidate),
        wanted.path != candidate.path ==> !spec_matches(wanted, candidate),
{
}

/// Exactness of grants. A grant offers a capability to a child only if it is
/// of the same kind and one of its fanout entries names that child under
/// exactly the wanted path.
pub proof fn lemma_grant_offer_is_exact(grant: GrantView, wanted: CapabilityView, child: Seq<char>)
    ensures
        grant_offers(grant, wanted, child) <==> grant.capability.kind == wanted.kind && exists|k: int|
            0 <= k < grant.fanout.len() && (#[trigger] grant.fanout[k]).target_path == wanted.path
                && grant.fanout[k].child_name == child,
{
    if grant_offers(grant, wanted, child) {
        let k = choose|k: int|
            0 <= k < grant.fanout.len() && crate::selection::fanout_offers(
                grant,
                #[trigger] grant.fanout[k],
                wanted,
                child,
            );
        assert(grant.fanout[k].target_path == wanted.path);
    }
    if grant.capability.kind == wanted.kind && exists|k: int|
        0 <= k < grant.fanout.len() && (#[trigger] grant.fanout[k]).target_path == wanted.path
            && grant.fanout[k].child_name == child {
        let k = choose|k: int|
            0 <= k < grant.fanout.len() && (#[trigger] grant.fanout[k]).target_path == wanted.path
                && grant.fanout[k].child_name == child;
        assert(crate::selection::fanout_offers(grant, grant.fanout[k], wanted, child));
    }
}

/// Exactness of surface declarations. A surface declaration offers a
/// capability exactly when it is of the same kind and its target path is
/// exactly the wanted path.
pub proof fn lemma_surface_offer_is_exact(surface: SurfaceView, wanted: CapabilityView)
    ensures
        surface_offers(surface, wanted) <==> surface.capability.kind == wanted.kind
            && surface.target_path == wanted.path,
{
}

/// The number of import frames that routing works through when it asks who
/// grants `wanted` to the instance at `at`: one for each instance on the way
/// toward the root whose parent is asked.
pub open spec fn import_frames_inspected(t: TopologyView, at: PathView, wanted: CapabilityView) -> nat
    decreases at.len(),
{
    if at.len() == 0 {
        0
    } else {
        let parent = at.drop_last();
        if !t.manifests.dom().contains(parent) {
            1
        } else {
            let m = t.manifests[parent];
            match select_grant(m.grants, wanted, at.last()) {
                SelectionView::Unique(i) => if m.grants[i].source is Forwarded && parent.len() > 0 {
                    1 + import_frames_inspected(t, parent, m.grants[i].capability)
                } else {
                    1
                },
                _ => 1,
            }
        }
    }
}

/// The number of surface frames that routing works through when it asks who
/// surfaces `wanted` out of the instance at `at`: one for each instance on
/// the way down whose manifest is consulted.
pub open spec fn surface_frames_inspected(t: TopologyView, at: PathView, wanted: CapabilityView) -> nat
    decreases t.height + 1 - at.len(),
{
    if at.len() > t.height || !t.manifests.dom().contains(at) {
        0
    } else {
        let m = t.manifests[at];
        match select_surface(m.surfaces, wanted) {
            SelectionView::Unique(i) => match m.surfaces[i].source {
                SourceView::FromChild(name) => if has_child(m, name) {
                    1 + surface_frames_inspected(t, at.push(name), m.surfaces[i].capability)
                } else {
                    1
                },
                _ => 1,
            },
            _ => 1,
        }
    }
}

/// The instances of the topology at or below `at`.
pub open spec fn subtree(t: TopologyView, at: PathView) -> Set<PathView> {
    t.manifests.dom().filter(|p: PathView| at.is_prefix_of(p))
}

/// Bounded work on the way up. An ancestor chain works through at most as
/// many frames as the importer lies below the root, and so, for an importer
/// of a well-formed topology, at most as many as the tree is high.
pub proof fn lemma_ancestor_frames_are_bounded(t: TopologyView, at: PathView, wanted: CapabilityView)
    ensures
        import_frames_inspected(t, at, wanted) <= at.len(),
        t.well_formed() && t.manifests.dom().contains(at) ==> import_frames_inspected(t, at, wanted)
            <= t.height,
    decreases at.len(),
{
    if at.len() > 0 {
        let parent = at.drop_last();
        if t.manifests.dom().contains(parent) {
            let m = t.manifests[parent];
            match select_grant(m.grants, wanted, at.last()) {
                SelectionView::Unique(i) => {
                    if m.grants[i].source is Forwarded && parent.len() > 0 {
                        lemma_ancestor_frames_are_bounded(t, parent, m.grants[i].capability);
                    }
                },
                _ => {},
            }
        }
    }
}

/// Bounded work on the way down. A descendant chain works through at most as
/// many frames as the subtree that it enters holds instances, and at most as
/// many as there are levels between its start and the height of the tree.
pub proof fn lemma_descendant_frames_are_bounded(t: TopologyView, at: PathView, wanted: CapabilityView)
    requires
        t.manifests.dom().finite(),
    ensures
        surface_frames_inspected(t, at, wanted) <= subtree(t, at).len(),
        at.len() <= t.height ==> surface_frames_inspected(t, at, wanted) <= t.height + 1 - at.len(),
        at.len() > t.height ==> surface_frames_inspected(t, at, wanted) == 0,
    decreases t.height + 1 - at.len(),
{
    if !(at.len() > t.height || !t.manifests.dom().contains(at)) {
        let m = t.manifests[at];
        assert(at.is_prefix_of(at));
        assert(subtree(t, at).contains(at));
        vstd::set_lib::lemma_len_subset(subtree(t, at), t.manifests.dom());
        vstd::set_lib::lemma_len_subset(set![at], subtree(t, at));
        match select_surface(m.surfaces, wanted) {
            SelectionView::Unique(i) => match m.surfaces[i].source {
                SourceView::FromChild(name) => {
                    if has_child(m, name) {
                        let below = at.push(name);
                        lemma_descendant_frames_are_bounded(t, below, m.surfaces[i].capability);
                        let inner = subtree(t, below);
                        vstd::set_lib::lemma_len_subset(inner, t.manifests.dom());
                        assert(!inner.contains(at)) by {
                            if below.is_prefix_of(at) {
                                assert(below.len() <= at.len());
                            }
                        }
                        assert(inner.insert(at).subset_of(subtree(t, at))) by {
                            assert forall|p: PathView| inner.contains(p) implies at.is_prefix_of(p) by {
                                assert(below.is_prefix_of(p));
                                assert(p.subrange(0, below.len() as int) == below);
                                assert(p.subrange(0, at.len() as int) =~= below.subrange(
                                    0,
                                    at.len() as int,
                                ));
                                assert(below.subrange(0, at.len() as int) =~= at);
                            }
                        }
                        vstd::set_lib::lemma_len_subset(inner.insert(at), subtree(t, at));
                    }
                },
                _ => {},
            },
            _ => {},
        }
    }
}

/// In a well-formed topology the descent needs no guard of its own: a path
/// longer than the tree is high names no instance, so that the test of the
/// length never changes who surfaces a capability.
pub proof fn lemma_depth_guard_is_implied(t: TopologyView, at: PathView)
    requires
        t.well_formed(),
        at.len() > t.height,
    ensures
        !t.manifests.dom().contains(at),
{
}

proof fn lemma_surface_hops_are_bounded(t: TopologyView, at: PathView, wanted: CapabilityView)
    ensures
        at.len() <= t.height ==> surface_frame(t, at, wanted).hops.len() <= t.height + 1 - at.len(),
        at.len() > t.height ==> surface_frame(t, at, wanted).hops.len() == 0,
    decreases t.height + 1 - at.len(),
{
    if !(at.len() > t.height || !t.manifests.dom().contains(at)) {
        let m = t.manifests[at];
        match select_surface(m.surfaces, wanted) {
            SelectionView::Unique(i) => match m.surfaces[i].source {
                SourceView::FromChild(name) => {
                    if has_child(m, name) {
                        lemma_surface_hops_are_bounded(t, at.push(name), m.surfaces[i].capability);
                    }
                },
                _ => {},
            },
            _ => {},
        }
    }
}

proof fn lemma_import_hops_are_bounded(t: TopologyView, at: PathView, wanted: CapabilityView)
    ensures
        import_frame(t, at, wanted).hops.len() <= at.len() + t.height,
    decreases at.len(),
{
    if at.len() > 0 {
        let parent = at.drop_last();
        if t.manifests.dom().contains(parent) {
            let m = t.manifests[parent];
            match select_grant(m.grants, wanted, at.last()) {
                SelectionView::Unique(i) => match m.grants[i].source {
                    SourceView::Forwarded => {
                        if parent.len() > 0 {
                            lemma_import_hops_are_bounded(t, parent, m.grants[i].capability);
                        }
                    },
                    SourceView::FromChild(name) => {
                        if has_child(m, name) {
                            lemma_surface_hops_are_bounded(
                                t,
                                parent.push(name),
                                m.grants[i].capability,
                            );
                        }
                    },
                    _ => {},
                },
                _ => {},
            }
        }
    }
}

/// Bounded work, as a route shows it. A route follows at most as many
/// declarations as the importer lies below the root and the tree is high,
/// taken together.
pub proof fn lemma_route_length_is_bounded(t: TopologyView, importer: PathView, import: ImportView)
    ensures
        spec_route_traced(t, importer, import).hops.len() <= importer.len() + t.height,
{
    lemma_import_hops_are_bounded(t, importer, import.capability);
}

} // verus!
