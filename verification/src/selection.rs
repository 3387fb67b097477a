//! Finding the one declaration of a manifest that offers a wanted capability.

use vstd::prelude::*;
use crate::capability::{spec_matches, Capability, CapabilityView};
use crate::manifest::{
    advertised_by_grant, advertised_by_surface, FanoutView, GrantDecl, GrantView, InstanceManifest,
    SurfaceDecl, SurfaceView,
};

verus! {

/// The outcome of a search for the declaration that offers a capability.
#[derive(Debug, Clone, Copy, PartialEq, Eq)]
pub enum Selection {
    /// No declaration offers it.
    Missing,
    /// More than one declaration offers it.
    Ambiguous,
    /// Exactly one declaration offers it: the one at this position.
    Unique(usize),
}

pub enum SelectionView {
    Missing,
    Ambiguous,
    Unique(int),
}

impl View for Selection {
    type V = SelectionView;

    open spec fn view(&self) -> SelectionView {
        match self {
            Selection::Missing => SelectionView::Missing,
            Selection::Ambiguous => SelectionView::Ambiguous,
            Selection::Unique(i) => SelectionView::Unique(*i as int),
        }
    }
}

/// Whether one fanout entry of a grant offers `wanted` to the child `child`:
/// the entry names that child, and the capability it advertises matches.
pub open spec fn fanout_offers(
    grant: GrantView,
    entry: FanoutView,
    wanted: CapabilityView,
    child: Seq<char>,
) -> bool {
    entry.child_name == child && spec_matches(wanted, advertised_by_grant(grant, entry))
}

/// Whether a grant offers `wanted` to the child `child` through one of its
/// fanout entries.
pub open spec fn grant_offers(grant: GrantView, wanted: CapabilityView, child: Seq<char>) -> bool {
    exists|k: int|
        0 <= k < grant.fanout.len() && fanout_offers(grant, #[trigger] grant.fanout[k], wanted, child)
}

/// Whether a surface declaration offers `wanted` to the parent.
pub open spec fn surface_offers(surface: SurfaceView, wanted: CapabilityView) -> bool {
    spec_matches(wanted, advertised_by_surface(surface))
}

pub open spec fn grant_offered_at(
    grants: Seq<GrantView>,
    wanted: CapabilityView,
    child: Seq<char>,
    i: int,
) -> bool {
    0 <= i < grants.len() && grant_offers(grants[i], wanted, child)
}

pub open spec fn surface_offered_at(surfaces: Seq<SurfaceView>, wanted: CapabilityView, i: int) -> bool {
    0 <= i < surfaces.len() && surface_offers(surfaces[i], wanted)
}

/// The grant among `grants` that offers `wanted` to `child`: missing when none
/// does, ambiguous when two or more do, else the position of the only one.
pub open spec fn select_grant(
    grants: Seq<GrantView>,
    wanted: CapabilityView,
    child: Seq<char>,
) -> SelectionView {
    if forall|i: int| !grant_offered_at(grants, wanted, child, i) {
        SelectionView::Missing
    } else if exists|i: int, j: int|
        i != j && grant_offered_at(grants, wanted, child, i) && grant_offered_at(
            grants,
            wanted,
            child,
            j,
        ) {
        SelectionView::Ambiguous
    } else {
        SelectionView::Unique(choose|i: int| grant_offered_at(grants, wanted, child, i))
    }
}

/// The surface declaration among `surfaces` that offers `wanted`: missing
/// when none does, ambiguous when two or more do, else the position of the
/// only one.
pub open spec fn select_surface(surfaces: Seq<SurfaceView>, wanted: CapabilityView) -> SelectionView {
    if forall|i: int| !surface_offered_at(surfaces, wanted, i) {
        SelectionView::Missing
    } else if exists|i: int, j: int|
        i != j && surface_offered_at(surfaces, wanted, i) && surface_offered_at(surfaces, wanted, j) {
        SelectionView::Ambiguous
    } else {
        SelectionView::Unique(choose|i: int| surface_offered_at(surfaces, wanted, i))
    }
}

/// Whether the grant offers `wanted` to the child `child`.
pub fn grant_offers_to(grant: &GrantDecl, wanted: &Capability, child: &String) -> (b: bool)
    ensures
        b == grant_offers(grant@, wanted@, child@),
{
    if grant.capability.kind != wanted.kind {
        return false;
    }
    let n = grant.fanout.len();
    let mut k: usize = 0;
    while k < n
        invariant
            k <= n,
            n == grant.fanout@.len(),
            n == grant@.fanout.len(),
            grant@.capability.kind == wanted@.kind,
            forall|j: int| 0 <= j < k ==> !fanout_offers(grant@, #[trigger] grant@.fanout[j], wanted@, child@),
        decreases n - k,
    {
        let entry = &grant.fanout[k];
        if entry.child_name == *child && entry.target_path == wanted.path {
            assert(fanout_offers(grant@, grant@.fanout[k as int], wanted@, child@));
            return true;
        }
        k += 1;
    }
    false
}

/// Whether the surface declaration offers `wanted` to the parent.
pub fn surface_offers_up(surface: &SurfaceDecl, wanted: &Capability) -> (b: bool)
    ensures
        b == surface_offers(surface@, wanted@),
{
    surface.capability.kind == wanted.kind && surface.target_path == wanted.path
}

/// Searches the grants of a manifest for the one that offers `wanted` to the
/// child `child`.
pub fn find_grant(manifest: &InstanceManifest, wanted: &Capability, child: &String) -> (s: Selection)
    ensures
        s@ == select_grant(manifest@.grants, wanted@, child@),
{
    let n = manifest.grants.len();
    let ghost grants = manifest@.grants;
    let mut found: Option<usize> = None;
    let mut i: usize = 0;
    while i < n
        invariant
            i <= n,
            n == manifest.grants@.len(),
            grants == manifest@.grants,
            n == grants.len(),
            found is None ==> forall|k: int| 0 <= k < i ==> !grant_offered_at(grants, wanted@, child@, k),
            found is Some ==> found->0 < i && grant_offered_at(grants, wanted@, child@, found->0 as int),
            found is Some ==> forall|k: int|
                0 <= k < i && k != found->0 ==> !grant_offered_at(grants, wanted@, child@, k),
        decreases n - i,
    {
        if grant_offers_to(&manifest.grants[i], wanted, child) {
            assert(grant_offered_at(grants, wanted@, child@, i as int));
            match found {
                Some(first) => {
                    assert(first as int != i as int);
                    return Selection::Ambiguous;
                },
                None => {
                    found = Some(i);
                },
            }
        }
        i += 1;
    }
    match found {
        Some(first) => {
            proof {
                let c = choose|k: int| grant_offered_at(grants, wanted@, child@, k);
                assert(grant_offered_at(grants, wanted@, child@, c));
                assert(c == first);
            }
            Selection::Unique(first)
        },
        None => Selection::Missing,
    }
}

/// Searches the surface declarations of a manifest for the one that offers
/// `wanted` to the parent.
pub fn find_surface(manifest: &InstanceManifest, wanted: &Capability) -> (s: Selection)
    ensures
        s@ == select_surface(manifest@.surfaces, wanted@),
{
    let n = manifest.surfaces.len();
    let ghost surfaces = manifest@.surfaces;
    let mut found: Option<usize> = None;
    let mut i: usize = 0;
    while i < n
        invariant
            i <= n,
            n == manifest.surfaces@.len(),
            surfaces == manifest@.surfaces,
            n == surfaces.len(),
            found is None ==> forall|k: int| 0 <= k < i ==> !surface_offered_at(surfaces, wanted@, k),
            found is Some ==> found->0 < i && surface_offered_at(surfaces, wanted@, found->0 as int),
            found is Some ==> forall|k: int|
                0 <= k < i && k != found->0 ==> !surface_offered_at(surfaces, wanted@, k),
        decreases n - i,
    {
        if surface_offers_up(&manifest.surfaces[i], wanted) {
            assert(surface_offered_at(surfaces, wanted@, i as int));
            match found {
                Some(first) => {
                    assert(first as int != i as int);
                    return Selection::Ambiguous;
                },
                None => {
                    found = Some(i);
                },
            }
        }
        i += 1;
    }
    match found {
        Some(first) => {
            proof {
                let c = choose|k: int| surface_offered_at(surfaces, wanted@, k);
                assert(surface_offered_at(surfaces, wanted@, c));
                assert(c == first);
            }
            Selection::Unique(first)
        },
        None => Selection::Missing,
    }
}

} // verus!
