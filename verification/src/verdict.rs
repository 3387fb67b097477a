//! The outcome of routing one import.

use vstd::prelude::*;
use crate::capability::{Capability, CapabilityView};
use crate::instance_path::{InstancePath, PathView};

verus! {

/// Why a route was denied.
#[derive(Debug, Clone, Copy, PartialEq, Eq, Structural)]
pub enum DenialReason {
    /// No grant (or namespace entry) offers the capability to the importer.
    NotGranted,
    /// The child named as a source does not surface the capability.
    NotSurfaced,
    /// The topology holds no manifest for an instance on the route.
    InstanceNotFound,
    /// A declaration names a child that its instance does not have.
    ChildNotFound,
    /// The route ends at an instance that runs no program.
    SourceNotExecutable,
    /// More than one declaration offers the same capability to the same
    /// consumer.
    AmbiguousRoute,
}

/// What kind of source a route ends in.
#[derive(Debug, Clone, Copy, PartialEq, Eq, Structural)]
pub enum TerminalKind {
    /// An instance of the tree provides the capability itself.
    LocalSource,
    /// The capability comes from outside the tree, through the root.
    NamespaceSource,
}

/// The verdict on one import: either the authoritative source and the
/// capability as that source knows it, or the reason for denial.
#[derive(Debug, Clone, PartialEq, Eq)]
pub enum Verdict {
    Allowed { terminal_path: InstancePath, terminal_kind: TerminalKind, capability: Capability },
    Denied { reason: DenialReason },
}

pub enum VerdictView {
    Allowed { terminal_path: PathView, terminal_kind: TerminalKind, capability: CapabilityView },
    Denied { reason: DenialReason },
}

impl View for Verdict {
    type V = VerdictView;

    open spec fn view(&self) -> VerdictView {
        match self {
            Verdict::Allowed { terminal_path, terminal_kind, capability } => VerdictView::Allowed {
                terminal_path: terminal_path@,
                terminal_kind: *terminal_kind,
                capability: capability@,
            },
            Verdict::Denied { reason } => VerdictView::Denied { reason: *reason },
        }
    }
}

/// The verdict that denies for the given reason.
pub open spec fn denied(reason: DenialReason) -> VerdictView {
    VerdictView::Denied { reason }
}

impl Verdict {
    pub fn is_allowed(&self) -> (b: bool)
        ensures
            b == (self@ is Allowed),
    {
        match self {
            Verdict::Allowed { .. } => true,
            Verdict::Denied { .. } => false,
        }
    }

    /// The reason for denial, if the verdict is a denial.
    pub fn denial_reason(&self) -> (r: Option<DenialReason>)
        ensures
            r == (match self@ {
                VerdictView::Allowed { .. } => None::<DenialReason>,
                VerdictView::Denied { reason } => Some(reason),
            }),
    {
        match self {
            Verdict::Allowed { .. } => None,
            Verdict::Denied { reason } => Some(*reason),
        }
    }
}

} // verus!
