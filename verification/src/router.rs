//! The router: decides whether an import can be satisfied, and by whom.
//!
//! Routing walks the tree frame by frame. An import frame asks who grants a
//! capability to an instance, and looks at the parent; a surface frame asks
//! who surfaces a capability out of an instance, and looks at the instance
//! itself. Every declaration that is followed becomes one hop of the route.

use vstd::prelude::*;
use crate::capability::{Capability, CapabilityView};
use crate::instance_path::{InstancePath, PathView};
use crate::manifest::{ImportDecl, ImportView, Source, SourceView};
use crate::namespace::spec_resolve;
use crate::selection::{
    find_grant, find_surface, select_grant, select_surface, Selection, SelectionView,
};
use crate::topology::{find_child, has_child, Topology, TopologyView};
use crate::verdict::{denied, DenialReason, TerminalKind, Verdict, VerdictView};

verus! {

/// One declaration followed by a route.
#[derive(Debug, Clone, PartialEq, Eq)]
pub enum Hop {
    /// The grant at position `index` in the manifest of `granter`.
    Grant { granter: InstancePath, index: usize },
    /// The surface declaration at position `index` in the manifest of
    /// `surfacer`.
    Surface { surfacer: InstancePath, index: usize },
}

pub enum HopView {
    Grant { granter: PathView, index: int },
    Surface { surfacer: PathView, index: int },
}

impl View for Hop {
    type V = HopView;

    open spec fn view(&self) -> HopView {
        match self {
            Hop::Grant { granter, index } => HopView::Grant { granter: granter@, index: *index as int },
            Hop::Surface { surfacer, index } => HopView::Surface {
                surfacer: surfacer@,
                index: *index as int,
            },
        }
    }
}

/// A verdict together with the hops that led to it, in the order in which
/// they were followed.
#[derive(Debug, Clone, PartialEq, Eq)]
pub struct Route {
    pub verdict: Verdict,
    pub hops: Vec<Hop>,
}

pub struct RouteView {
    pub verdict: VerdictView,
    pub hops: Seq<HopView>,
}

impl View for Route {
    type V = RouteView;

    open spec fn view(&self) -> RouteView {
        RouteView { verdict: self.verdict@, hops: hops_view(self.hops@) }
    }
}

/// The model of a list of hops: the model of each, in order.
pub open spec fn hops_view(hops: Seq<Hop>) -> Seq<HopView> {
    Seq::new(hops.len(), |i: int| hops[i]@)
}

/// The route that ends at once with the given verdict.
pub open spec fn ends_with(verdict: VerdictView) -> RouteView {
    RouteView { verdict, hops: Seq::empty() }
}

/// The route that follows `hop` and then goes on as `rest`.
pub open spec fn via(hop: HopView, rest: RouteView) -> RouteView {
    RouteView { verdict: rest.verdict, hops: seq![hop] + rest.hops }
}

/// The verdict on a local source: allowed exactly when the instance runs a
/// program.
pub open spec fn local_verdict(executable: bool, at: PathView, capability: CapabilityView) -> VerdictView {
    if executable {
        VerdictView::Allowed {
            terminal_path: at,
            terminal_kind: TerminalKind::LocalSource,
            capability,
        }
    } else {
        denied(DenialReason::SourceNotExecutable)
    }
}

/// Who surfaces `wanted` out of the instance at `at`, toward its parent.
///
/// The instance must exist and hold exactly one surface declaration that
/// offers `wanted`. A local source ends the route there; a child as source
/// must exist, and is asked in turn under the declaration's own capability.
/// A forwarded source has no meaning in a surface declaration and surfaces
/// nothing. No instance lies below the height of the tree, so the descent
/// stops there at the latest.
pub open spec fn surface_frame(t: TopologyView, at: PathView, wanted: CapabilityView) -> RouteView
    decreases t.height + 1 - at.len(),
{
    if at.len() > t.height || !t.manifests.dom().contains(at) {
        ends_with(denied(DenialReason::InstanceNotFound))
    } else {
        let m = t.manifests[at];
        match select_surface(m.surfaces, wanted) {
            SelectionView::Missing => ends_with(denied(DenialReason::NotSurfaced)),
            SelectionView::Ambiguous => ends_with(denied(DenialReason::AmbiguousRoute)),
            SelectionView::Unique(i) => {
                let s = m.surfaces[i];
                let hop = HopView::Surface { surfacer: at, index: i };
                match s.source {
                    SourceView::Local => via(
                        hop,
                        ends_with(local_verdict(m.executable, at, s.capability)),
                    ),
                    SourceView::Forwarded => via(hop, ends_with(denied(DenialReason::NotSurfaced))),
                    SourceView::FromChild(name) => if !has_child(m, name) {
                        via(hop, ends_with(denied(DenialReason::ChildNotFound)))
                    } else {
                        via(hop, surface_frame(t, at.push(name), s.capability))
                    },
                }
            },
        }
    }
}

/// Who grants `wanted` to the instance at `at`.
///
/// The root is granted nothing. Otherwise the parent must exist and hold
/// exactly one grant that offers `wanted` to this child. A local source ends
/// the route at the parent; a forwarded source asks the namespace boundary
/// when the parent is the root, and else asks who grants the grant's own
/// capability to the parent; a child as source must exist, and is asked to
/// surface the grant's own capability.
pub open spec fn import_frame(t: TopologyView, at: PathView, wanted: CapabilityView) -> RouteView
    decreases at.len(),
{
    if at.len() == 0 {
        ends_with(denied(DenialReason::NotGranted))
    } else {
        let parent = at.drop_last();
        if !t.manifests.dom().contains(parent) {
            ends_with(denied(DenialReason::InstanceNotFound))
        } else {
            let m = t.manifests[parent];
            match select_grant(m.grants, wanted, at.last()) {
                SelectionView::Missing => ends_with(denied(DenialReason::NotGranted)),
                SelectionView::Ambiguous => ends_with(denied(DenialReason::AmbiguousRoute)),
                SelectionView::Unique(i) => {
                    let g = m.grants[i];
                    let hop = HopView::Grant { granter: parent, index: i };
                    match g.source {
                        SourceView::Local => via(
                            hop,
                            ends_with(local_verdict(m.executable, parent, g.capability)),
                        ),
                        SourceView::Forwarded => if parent.len() == 0 {
                            via(hop, ends_with(spec_resolve(t.namespace, g.capability)))
                        } else {
                            via(hop, import_frame(t, parent, g.capability))
                        },
                        SourceView::FromChild(name) => if !has_child(m, name) {
                            via(hop, ends_with(denied(DenialReason::ChildNotFound)))
                        } else {
                            via(hop, surface_frame(t, parent.push(name), g.capability))
                        },
                    }
                },
            }
        }
    }
}

/// The route of an import declared by the instance at `importer`: the verdict
/// and the hops that lead to it. Only the capability of the import takes
/// part; its local path does not.
pub open spec fn spec_route_traced(t: TopologyView, importer: PathView, import: ImportView) -> RouteView {
    import_frame(t, importer, import.capability)
}

/// The verdict on an import declared by the instance at `importer`.
pub open spec fn spec_route(t: TopologyView, importer: PathView, import: ImportView) -> VerdictView {
    spec_route_traced(t, importer, import).verdict
}

/// The route `rest`, reached after the hops of `prefix`.
pub open spec fn prefixed(prefix: Seq<HopView>, rest: RouteView) -> RouteView {
    RouteView { verdict: rest.verdict, hops: prefix + rest.hops }
}

proof fn lemma_prefixed_via(prefix: Seq<Hop>, hop: Hop, rest: RouteView)
    ensures
        prefixed(hops_view(prefix), via(hop@, rest)) == prefixed(hops_view(prefix.push(hop)), rest),
{
    assert(hops_view(prefix.push(hop)) =~= hops_view(prefix).push(hop@));
    assert(hops_view(prefix) + (seq![hop@] + rest.hops) =~= hops_view(prefix).push(hop@) + rest.hops);
}

proof fn lemma_prefixed_end(prefix: Seq<Hop>, verdict: VerdictView)
    ensures
        prefixed(hops_view(prefix), ends_with(verdict)) == (RouteView {
            verdict,
            hops: hops_view(prefix),
        }),
{
    assert(hops_view(prefix) + Seq::<HopView>::empty() =~= hops_view(prefix));
}

fn finish(verdict: Verdict, hops: Vec<Hop>) -> (r: Route)
    ensures
        r@ == prefixed(hops_view(hops@), ends_with(verdict@)),
{
    proof {
        lemma_prefixed_end(hops@, verdict@);
    }
    Route { verdict, hops }
}

fn deny(reason: DenialReason, hops: Vec<Hop>) -> (r: Route)
    ensures
        r@ == prefixed(hops_view(hops@), ends_with(denied(reason))),
{
    finish(Verdict::Denied { reason }, hops)
}

fn local_source(executable: bool, at: InstancePath, capability: &Capability) -> (v: Verdict)
    ensures
        v@ == local_verdict(executable, at@, capability@),
{
    if executable {
        Verdict::Allowed {
            terminal_path: at,
            terminal_kind: TerminalKind::LocalSource,
            capability: capability.duplicate(),
        }
    } else {
        Verdict::Denied { reason: DenialReason::SourceNotExecutable }
    }
}

/// Resolves who surfaces `wanted` out of the instance at `start`, having
/// followed `hops` so far.
pub fn resolve_surface(topology: &Topology, start: InstancePath, wanted: Capability, hops: Vec<Hop>) -> (r:
    Route)
    ensures
        r@ == prefixed(hops_view(hops@), surface_frame(topology@, start@, wanted@)),
{
    let ghost target = prefixed(hops_view(hops@), surface_frame(topology@, start@, wanted@));
    let mut at = start;
    let mut seeking = wanted;
    let mut trail = hops;
    loop
        invariant
            target == prefixed(hops_view(hops@), surface_frame(topology@, start@, wanted@)),
            prefixed(hops_view(trail@), surface_frame(topology@, at@, seeking@)) == target,
        decreases topology@.height + 1 - at@.len(),
    {
        if at.len() > topology.height() {
            return deny(DenialReason::InstanceNotFound, trail);
        }
        let m = match topology.manifest_of(&at) {
            Some(m) => m,
            None => {
                return deny(DenialReason::InstanceNotFound, trail);
            },
        };
        match find_surface(m, &seeking) {
            Selection::Missing => {
                return deny(DenialReason::NotSurfaced, trail);
            },
            Selection::Ambiguous => {
                return deny(DenialReason::AmbiguousRoute, trail);
            },
            Selection::Unique(i) => {
                let s = &m.surfaces[i];
                assert(s@ == m@.surfaces[i as int]);
                let hop = Hop::Surface { surfacer: at.duplicate(), index: i };
                let ghost before = trail@;
                proof {
                    lemma_prefixed_via(
                        before,
                        hop,
                        match s@.source {
                            SourceView::Local => ends_with(
                                local_verdict(m@.executable, at@, s@.capability),
                            ),
                            SourceView::Forwarded => ends_with(denied(DenialReason::NotSurfaced)),
                            SourceView::FromChild(name) => if !has_child(m@, name) {
                                ends_with(denied(DenialReason::ChildNotFound))
                            } else {
                                surface_frame(topology@, at@.push(name), s@.capability)
                            },
                        },
                    );
                }
                trail.push(hop);
                match &s.source {
                    Source::Local => {
                        let verdict = local_source(m.executable, at, &s.capability);
                        return finish(verdict, trail);
                    },
                    Source::Forwarded => {
                        return deny(DenialReason::NotSurfaced, trail);
                    },
                    Source::FromChild(name) => {
                        if find_child(m, name).is_none() {
                            return deny(DenialReason::ChildNotFound, trail);
                        }
                        let next = at.child(name);
                        seeking = s.capability.duplicate();
                        at = next;
                    },
                }
            },
        }
    }
}

/// Routes an import declared by the instance at `importer_path`, and reports
/// the hops followed along with the verdict.
pub fn route_traced(topology: &Topology, importer_path: &InstancePath, import: &ImportDecl) -> (r: Route)
    ensures
        r@ == spec_route_traced(topology@, importer_path@, import@),
{
    let ghost target = spec_route_traced(topology@, importer_path@, import@);
    let mut at = importer_path.duplicate();
    let mut seeking = import.capability.duplicate();
    let mut trail: Vec<Hop> = Vec::new();
    proof {
        assert(hops_view(trail@) + target.hops =~= target.hops);
    }
    loop
        invariant
            target == spec_route_traced(topology@, importer_path@, import@),
            prefixed(hops_view(trail@), import_frame(topology@, at@, seeking@)) == target,
        decreases at@.len(),
    {
        let parent = match at.parent() {
            Some(p) => p,
            None => {
                return deny(DenialReason::NotGranted, trail);
            },
        };
        let m = match topology.manifest_of(&parent) {
            Some(m) => m,
            None => {
                return deny(DenialReason::InstanceNotFound, trail);
            },
        };
        let selection = match at.leaf() {
            Some(leaf) => find_grant(m, &seeking, leaf),
            None => Selection::Missing,
        };
        match selection {
            Selection::Missing => {
                return deny(DenialReason::NotGranted, trail);
            },
            Selection::Ambiguous => {
                return deny(DenialReason::AmbiguousRoute, trail);
            },
            Selection::Unique(i) => {
                let g = &m.grants[i];
                assert(g@ == m@.grants[i as int]);
                let hop = Hop::Grant { granter: parent.duplicate(), index: i };
                let ghost before = trail@;
                proof {
                    lemma_prefixed_via(
                        before,
                        hop,
                        match g@.source {
                            SourceView::Local => ends_with(
                                local_verdict(m@.executable, parent@, g@.capability),
                            ),
                            SourceView::Forwarded => if parent@.len() == 0 {
                                ends_with(spec_resolve(topology@.namespace, g@.capability))
                            } else {
                                import_frame(topology@, parent@, g@.capability)
                            },
                            SourceView::FromChild(name) => if !has_child(m@, name) {
                                ends_with(denied(DenialReason::ChildNotFound))
                            } else {
                                surface_frame(topology@, parent@.push(name), g@.capability)
                            },
                        },
                    );
                }
                trail.push(hop);
                match &g.source {
                    Source::Local => {
                        let verdict = local_source(m.executable, parent, &g.capability);
                        return finish(verdict, trail);
                    },
                    Source::Forwarded => {
                        if parent.is_root() {
                            let verdict = topology.namespace().resolve(&g.capability);
                            return finish(verdict, trail);
                        }
                        seeking = g.capability.duplicate();
                        at = parent;
                    },
                    Source::FromChild(name) => {
                        if find_child(m, name).is_none() {
                            return deny(DenialReason::ChildNotFound, trail);
                        }
                        let start = parent.child(name);
                        return resolve_surface(topology, start, g.capability.duplicate(), trail);
                    },
                }
            },
        }
    }
}

/// Routes an import declared by the instance at `importer_path`: decides
/// whether the manifests authorize it, and names the authoritative source.
pub fn route(topology: &Topology, importer_path: &InstancePath, import: &ImportDecl) -> (v: Verdict)
    ensures
        v@ == spec_route(topology@, importer_path@, import@),
{
    route_traced(topology, importer_path, import).verdict
}

} // verus!
