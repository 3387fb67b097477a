//! The topology store: the manifests of all instances, keyed by instance
//! path, together with the namespace table of the root.

use vstd::prelude::*;
use crate::capability::CapabilityView;
use crate::instance_path::{InstancePath, PathView};
use crate::manifest::{ChildSpec, ChildView, InstanceManifest, ManifestView};
use crate::namespace::NamespaceConnector;

verus! {

/// Mathematical model of a topology: the manifest of each instance, the
/// height of the tree (the length of its longest instance path), and the
/// namespace table of the root.
pub struct TopologyView {
    pub manifests: Map<PathView, ManifestView>,
    pub height: nat,
    pub namespace: Seq<CapabilityView>,
}

impl TopologyView {
    /// The topology holds finitely many instances, and none lies deeper than
    /// the recorded height.
    pub open spec fn well_formed(self) -> bool {
        &&& self.manifests.dom().finite()
        &&& forall|p: PathView| #[trigger] self.manifests.dom().contains(p) ==> p.len() <= self.height
    }
}

/// Whether a manifest declares a child of the given name.
pub open spec fn has_child(manifest: ManifestView, name: Seq<char>) -> bool {
    exists|i: int| 0 <= i < manifest.children.len() && (#[trigger] manifest.children[i]).name == name
}

/// Whether `i` is the position of the first child that goes by `name`.
pub open spec fn is_first_child(children: Seq<ChildView>, name: Seq<char>, i: int) -> bool {
    &&& 0 <= i < children.len()
    &&& children[i].name == name
    &&& forall|j: int| 0 <= j < i ==> (#[trigger] children[j]).name != name
}

struct TopologyEntry {
    path: InstancePath,
    manifest: InstanceManifest,
}

/// The manifests of a tree of instances. Built once, then only read.
pub struct Topology {
    entries: Vec<TopologyEntry>,
    height: usize,
    namespace: NamespaceConnector,
}

spec fn entry_at(entries: Seq<TopologyEntry>, p: PathView, i: int) -> bool {
    0 <= i < entries.len() && entries[i].path@ == p
}

spec fn first_entry_at(entries: Seq<TopologyEntry>, p: PathView, i: int) -> bool {
    entry_at(entries, p, i) && forall|j: int| 0 <= j < i ==> !entry_at(entries, p, j)
}

spec fn entry_index(entries: Seq<TopologyEntry>, p: PathView) -> int {
    choose|i: int| first_entry_at(entries, p, i)
}

impl View for Topology {
    type V = TopologyView;

    closed spec fn view(&self) -> TopologyView {
        TopologyView {
            manifests: Map::new(
                |p: PathView| exists|i: int| entry_at(self.entries@, p, i),
                |p: PathView| self.entries@[entry_index(self.entries@, p)].manifest@,
            ),
            height: self.height as nat,
            namespace: self.namespace@,
        }
    }
}

/// Among the entries for a path there is a first one.
proof fn lemma_first_entry_exists(entries: Seq<TopologyEntry>, p: PathView, i: int)
    requires
        entry_at(entries, p, i),
    ensures
        exists|k: int| first_entry_at(entries, p, k),
    decreases i,
{
    if exists|j: int| 0 <= j < i && entry_at(entries, p, j) {
        let j = choose|j: int| 0 <= j < i && entry_at(entries, p, j);
        lemma_first_entry_exists(entries, p, j);
    } else {
        assert(first_entry_at(entries, p, i));
    }
}

/// The first child of the manifest that goes by `name`, if there is one.
pub fn find_child<'a>(manifest: &'a InstanceManifest, name: &String) -> (c: Option<&'a ChildSpec>)
    ensures
        c is None <==> !has_child(manifest@, name@),
        c is Some ==> exists|i: int|
            is_first_child(manifest@.children, name@, i) && c->0@ == manifest@.children[i],
{
    let n = manifest.children.len();
    let mut i: usize = 0;
    while i < n
        invariant
            i <= n,
            n == manifest.children@.len(),
            n == manifest@.children.len(),
            forall|k: int| 0 <= k < i ==> (#[trigger] manifest@.children[k]).name != name@,
        decreases n - i,
    {
        if manifest.children[i].name == *name {
            assert(manifest@.children[i as int].name == name@);
            assert(is_first_child(manifest@.children, name@, i as int));
            return Some(&manifest.children[i]);
        }
        i += 1;
    }
    None
}

impl Topology {
    /// A topology without instances, over the given namespace table.
    pub fn new(namespace: NamespaceConnector) -> (t: Topology)
        ensures
            t@.manifests == Map::<PathView, ManifestView>::empty(),
            t@.height == 0,
            t@.namespace == namespace@,
            t@.well_formed(),
    {
        let t = Topology { entries: Vec::new(), height: 0, namespace };
        assert(t@.manifests =~= Map::<PathView, ManifestView>::empty());
        t
    }

    /// The recorded height of the tree: no shorter than the longest instance
    /// path of a well-formed topology.
    pub fn height(&self) -> (h: usize)
        ensures
            h == self@.height,
    {
        self.height
    }

    /// The namespace table of the root.
    pub fn namespace(&self) -> (n: &NamespaceConnector)
        ensures
            n@ == self@.namespace,
    {
        &self.namespace
    }

    fn position_of(&self, path: &InstancePath) -> (r: Option<usize>)
        ensures
            r is None <==> !self@.manifests.dom().contains(path@),
            r is Some ==> first_entry_at(self.entries@, path@, r->0 as int)
                && self.entries@[r->0 as int].manifest@ == self@.manifests[path@],
    {
        let n = self.entries.len();
        let mut i: usize = 0;
        while i < n
            invariant
                i <= n,
                n == self.entries@.len(),
                forall|k: int| 0 <= k < i ==> !entry_at(self.entries@, path@, k),
            decreases n - i,
        {
            if self.entries[i].path.equals(path) {
                proof {
                    assert(first_entry_at(self.entries@, path@, i as int));
                    let c = entry_index(self.entries@, path@);
                    assert(first_entry_at(self.entries@, path@, c));
                    assert(c == i);
                }
                return Some(i);
            }
            i += 1;
        }
        None
    }

    /// The manifest of the instance at `path`, if the topology holds one.
    pub fn manifest_of(&self, path: &InstancePath) -> (m: Option<&InstanceManifest>)
        ensures
            m is Some <==> self@.manifests.dom().contains(path@),
            m is Some ==> m->0@ == self@.manifests[path@],
    {
        match self.position_of(path) {
            Some(i) => Some(&self.entries[i].manifest),
            None => None,
        }
    }

    /// The child of the instance at `path` that goes by `name`: present
    /// exactly when the instance exists and declares such a child.
    pub fn child_spec(&self, path: &InstancePath, name: &String) -> (c: Option<&ChildSpec>)
        ensures
            c is Some <==> self@.manifests.dom().contains(path@) && has_child(
                self@.manifests[path@],
                name@,
            ),
            c is Some ==> exists|i: int|
                is_first_child(self@.manifests[path@].children, name@, i) && c->0@
                    == self@.manifests[path@].children[i],
    {
        match self.manifest_of(path) {
            Some(m) => find_child(m, name),
            None => None,
        }
    }

    /// The path of the parent of `path`: the path without its last name, or
    /// `None` for the root.
    pub fn parent_of(&self, path: &InstancePath) -> (p: Option<InstancePath>)
        ensures
            path@.len() == 0 ==> p is None,
            path@.len() > 0 ==> p is Some && p->0@ == path@.drop_last(),
    {
        path.parent()
    }

    /// Adds the manifest of the instance at `path`. A path that the topology
    /// already holds keeps its manifest: the call then changes nothing and
    /// returns `false`.
    pub fn insert(&mut self, path: InstancePath, manifest: InstanceManifest) -> (added: bool)
        requires
            old(self)@.well_formed(),
        ensures
            final(self)@.well_formed(),
            added == !old(self)@.manifests.dom().contains(path@),
            !added ==> final(self)@ == old(self)@,
            added ==> final(self)@.manifests == old(self)@.manifests.insert(path@, manifest@),
            added ==> final(self)@.height == (if path@.len() > old(self)@.height {
                path@.len()
            } else {
                old(self)@.height
            }),
            final(self)@.namespace == old(self)@.namespace,
    {
        if self.position_of(&path).is_some() {
            return false;
        }
        let ghost before = self.entries@;
        let ghost before_view = self@;
        let ghost pv = path@;
        let ghost mv = manifest@;
        let depth = path.len();
        if depth > self.height {
            self.height = depth;
        }
        self.entries.push(TopologyEntry { path, manifest });
        proof {
            let after = self.entries@;
            assert(after == before.push(after[before.len() as int]));
            assert forall|p: PathView|
                self@.manifests.dom().contains(p) <==> before_view.manifests.insert(
                    pv,
                    mv,
                ).dom().contains(p) by {
                if exists|i: int| entry_at(after, p, i) {
                    let i = choose|i: int| entry_at(after, p, i);
                    if i < before.len() {
                        assert(entry_at(before, p, i));
                    }
                }
                if exists|i: int| entry_at(before, p, i) {
                    let i = choose|i: int| entry_at(before, p, i);
                    assert(entry_at(after, p, i));
                }
                if p == pv {
                    assert(entry_at(after, p, before.len() as int));
                }
            }
            assert forall|p: PathView| self@.manifests.dom().contains(p) implies self@.manifests[p]
                == before_view.manifests.insert(pv, mv)[p] by {
                let w = choose|i: int| entry_at(after, p, i);
                lemma_first_entry_exists(after, p, w);
                let i = entry_index(after, p);
                assert(first_entry_at(after, p, i));
                if p == pv {
                    if i < before.len() {
                        assert(entry_at(before, p, i));
                    }
                    assert(i == before.len());
                } else {
                    assert(i < before.len());
                    assert(entry_at(before, p, i));
                    lemma_first_entry_exists(before, p, i);
                    let j = entry_index(before, p);
                    assert(first_entry_at(before, p, j));
                    assert(entry_at(after, p, j));
                    assert(i == j);
                }
            }
            assert(self@.manifests =~= before_view.manifests.insert(pv, mv));
        }
        true
    }
}

} // verus!
