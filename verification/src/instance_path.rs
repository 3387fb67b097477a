//! Instance paths: the sequence of child names that leads from the root to
//! one component instance.

use vstd::prelude::*;

verus! {

/// Mathematical model of an instance path: the child names from the root,
/// each as its sequence of characters.
pub type PathView = Seq<Seq<char>>;

/// Identifies one instance by the child names that lead to it from the root.
/// The root itself is the empty path.
#[derive(Debug, Clone, PartialEq, Eq)]
pub struct InstancePath {
    pub segments: Vec<String>,
}

impl View for InstancePath {
    type V = PathView;

    open spec fn view(&self) -> PathView {
        Seq::new(self.segments@.len(), |i: int| self.segments@[i]@)
    }
}

/// The path of the parent: the path without its last name. Meaningful for
/// non-root paths only.
pub open spec fn spec_parent(path: PathView) -> PathView {
    path.drop_last()
}

impl InstancePath {
    /// The path of the root instance.
    pub fn root() -> (p: InstancePath)
        ensures
            p@ == Seq::<Seq<char>>::empty(),
    {
        let p = InstancePath { segments: Vec::new() };
        assert(p@ =~= Seq::<Seq<char>>::empty());
        p
    }

    /// The path made of the given child names, in order.
    pub fn new(segments: Vec<String>) -> (p: InstancePath)
        ensures
            p.segments == segments,
            p@.len() == segments@.len(),
            forall|i: int| 0 <= i < segments@.len() ==> p@[i] == segments@[i]@,
    {
        InstancePath { segments }
    }

    /// Number of names in the path: the depth of the instance below the root.
    pub fn len(&self) -> (n: usize)
        ensures
            n == self@.len(),
    {
        self.segments.len()
    }

    pub fn is_root(&self) -> (b: bool)
        ensures
            b == (self@.len() == 0),
    {
        self.segments.len() == 0
    }

    /// The last name of the path: the name under which the parent knows this
    /// instance. The root has none.
    pub fn leaf(&self) -> (name: Option<&String>)
        ensures
            self@.len() == 0 ==> name is None,
            self@.len() > 0 ==> name is Some && name->0@ == self@.last(),
    {
        let n = self.segments.len();
        if n == 0 {
            None
        } else {
            Some(&self.segments[n - 1])
        }
    }

    /// A copy of this path.
    pub fn duplicate(&self) -> (p: InstancePath)
        ensures
            p@ == self@,
    {
        let p = self.prefix(self.segments.len());
        assert(p@ =~= self@);
        p
    }

    /// The first `n` names of this path.
    pub fn prefix(&self, n: usize) -> (p: InstancePath)
        requires
            n <= self@.len(),
        ensures
            p@ == self@.subrange(0, n as int),
    {
        let mut segments: Vec<String> = Vec::new();
        let mut i: usize = 0;
        while i < n
            invariant
                i <= n <= self.segments@.len(),
                segments@.len() == i,
                forall|k: int| 0 <= k < i ==> segments@[k]@ == self.segments@[k]@,
            decreases n - i,
        {
            segments.push(self.segments[i].clone());
            i += 1;
        }
        let p = InstancePath { segments };
        assert(p@ =~= self@.subrange(0, n as int));
        p
    }

    /// The path of the parent instance, or `None` for the root.
    pub fn parent(&self) -> (p: Option<InstancePath>)
        ensures
            self@.len() == 0 ==> p is None,
            self@.len() > 0 ==> p is Some && p->0@ == spec_parent(self@),
    {
        let n = self.segments.len();
        if n == 0 {
            None
        } else {
            let p = self.prefix(n - 1);
            assert(self@.subrange(0, n - 1) =~= self@.drop_last());
            Some(p)
        }
    }

    /// The path of the child of this instance that goes by `name`.
    pub fn child(&self, name: &String) -> (p: InstancePath)
        ensures
            p@ == self@.push(name@),
    {
        let mut d = self.duplicate();
        let ghost before = d@;
        d.segments.push(name.clone());
        assert(d@ =~= before.push(name@));
        d
    }

    /// Whether two paths name the same instance: the same names in the same
    /// order.
    pub fn equals(&self, other: &InstancePath) -> (b: bool)
        ensures
            b == (self@ == other@),
    {
        if self.segments.len() != other.segments.len() {
            assert(self@.len() != other@.len());
            return false;
        }
        let n = self.segments.len();
        let mut i: usize = 0;
        while i < n
            invariant
                i <= n,
                n == self.segments@.len(),
                n == other.segments@.len(),
                forall|k: int| 0 <= k < i ==> self@[k] == other@[k],
            decreases n - i,
        {
            if self.segments[i] != other.segments[i] {
                assert(self@[i as int] != other@[i as int]);
                return false;
            }
            i += 1;
        }
        assert(self@ =~= other@);
        true
    }
}

} // verus!
