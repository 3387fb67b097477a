//! Capabilities and the exact matcher that compares them.

use vstd::prelude::*;

verus! {

/// The closed set of capability kinds.
#[derive(Clone, Copy, Debug, PartialEq, Eq, Structural)]
pub enum CapabilityKind {
    Directory,
    Service,
}

/// Mathematical model of a capability: its kind and the characters of its path.
pub struct CapabilityView {
    pub kind: CapabilityKind,
    pub path: Seq<char>,
}

/// A typed, path-addressed resource.
#[derive(Debug, Clone, PartialEq, Eq)]
pub struct Capability {
    pub kind: CapabilityKind,
    pub path: String,
}

impl View for Capability {
    type V = CapabilityView;

    open spec fn view(&self) -> CapabilityView {
        CapabilityView { kind: self.kind, path: self.path@ }
    }
}

/// Two capabilities match when their kinds are equal and their paths are the
/// same string, character for character.
pub open spec fn spec_matches(wanted: CapabilityView, candidate: CapabilityView) -> bool {
    wanted.kind == candidate.kind && wanted.path == candidate.path
}

impl Capability {
    pub fn new(kind: CapabilityKind, path: String) -> (c: Capability)
        ensures
            c@ == (CapabilityView { kind, path: path@ }),
    {
        Capability { kind, path }
    }

    pub fn duplicate(&self) -> (c: Capability)
        ensures
            c@ == self@,
    {
        Capability { kind: self.kind, path: self.path.clone() }
    }
}

/// Exact kind and path comparison between a wanted capability and a candidate.
pub fn matches(wanted: &Capability, candidate: &Capability) -> (b: bool)
    ensures
        b == spec_matches(wanted@, candidate@),
{
    wanted.kind == candidate.kind && wanted.path == candidate.path
}

} // verus!
