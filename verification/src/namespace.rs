//! The namespace boundary: capabilities that reach the root instance from
//! outside the tree.

use vstd::prelude::*;
use crate::capability::{spec_matches, Capability, CapabilityView};
use crate::instance_path::InstancePath;
use crate::verdict::{denied, DenialReason, TerminalKind, Verdict, VerdictView};

verus! {

/// The table of capabilities that the hosting environment offers to the root.
#[derive(Debug, Clone, PartialEq, Eq)]
pub struct NamespaceConnector {
    pub table: Vec<Capability>,
}

impl View for NamespaceConnector {
    type V = Seq<CapabilityView>;

    open spec fn view(&self) -> Seq<CapabilityView> {
        Seq::new(self.table@.len(), |i: int| self.table@[i]@)
    }
}

/// Whether the table offers exactly this capability.
pub open spec fn namespace_offers(table: Seq<CapabilityView>, capability: CapabilityView) -> bool {
    exists|i: int| 0 <= i < table.len() && spec_matches(capability, #[trigger] table[i])
}

/// The verdict of the namespace boundary on a capability: allowed, with the
/// namespace as terminal, exactly when the table offers it.
pub open spec fn spec_resolve(table: Seq<CapabilityView>, capability: CapabilityView) -> VerdictView {
    if namespace_offers(table, capability) {
        VerdictView::Allowed {
            terminal_path: Seq::empty(),
            terminal_kind: TerminalKind::NamespaceSource,
            capability,
        }
    } else {
        denied(DenialReason::NotGranted)
    }
}

impl NamespaceConnector {
    /// A connector over the given configuration table.
    pub fn new(table: Vec<Capability>) -> (n: NamespaceConnector)
        ensures
            n.table == table,
    {
        NamespaceConnector { table }
    }

    /// Whether the table offers exactly this capability.
    pub fn offers(&self, capability: &Capability) -> (b: bool)
        ensures
            b == namespace_offers(self@, capability@),
    {
        let n = self.table.len();
        let mut i: usize = 0;
        while i < n
            invariant
                i <= n,
                n == self.table@.len(),
                forall|k: int| 0 <= k < i ==> !spec_matches(capability@, #[trigger] self@[k]),
            decreases n - i,
        {
            if crate::capability::matches(capability, &self.table[i]) {
                assert(spec_matches(capability@, self@[i as int]));
                return true;
            }
            i += 1;
        }
        false
    }

    /// Looks the capability up in the table. The terminal of an allowed
    /// verdict is the namespace, reported under the root's path.
    pub fn resolve(&self, capability: &Capability) -> (v: Verdict)
        ensures
            v@ == spec_resolve(self@, capability@),
    {
        if self.offers(capability) {
            Verdict::Allowed {
                terminal_path: InstancePath::root(),
                terminal_kind: TerminalKind::NamespaceSource,
                capability: capability.duplicate(),
            }
        } else {
            Verdict::Denied { reason: DenialReason::NotGranted }
        }
    }
}

} // verus!
