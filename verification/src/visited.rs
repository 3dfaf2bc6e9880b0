//! Cycle detection for link-following walks: the set of directories a walk
//! has already entered, keyed by device and inode numbers. A walk that
//! follows symlinks asks this set before entering a link's target and
//! refuses a target it has seen, so a cycle of links cannot recurse
//! forever.

use vstd::prelude::*;

verus! {

/// One directory's identity on its filesystem.
#[derive(Clone, Copy, Debug, PartialEq, Eq, Structural)]
pub struct NodeId {
    pub device: u64,
    pub inode: u64,
}

/// The directories a walk has entered so far.
#[derive(Debug)]
pub struct VisitedSet {
    pub ids: Vec<NodeId>,
}

impl VisitedSet {
    /// Whether the set holds the given identity.
    pub open spec fn contains(self, id: NodeId) -> bool {
        exists|k: int| 0 <= k < self.ids@.len() && self.ids@[k] == id
    }

    /// An empty set: no directory entered yet.
    pub fn new() -> (s: Self)
        ensures
            forall|id: NodeId| !s.contains(id),
    {
        VisitedSet { ids: Vec::new() }
    }

    /// Enter a directory: record its identity and say whether it was new.
    /// A walk recurses into the directory exactly when this returns true.
    pub fn insert(&mut self, id: NodeId) -> (fresh: bool)
        ensures
            fresh <==> !old(self).contains(id),
            final(self).contains(id),
            forall|other: NodeId|
                final(self).contains(other) <==> (old(self).contains(other) || other == id),
    {
        let mut k: usize = 0;
        while k < self.ids.len()
            invariant
                k <= self.ids@.len(),
                forall|j: int| 0 <= j < k ==> self.ids@[j] != id,
            decreases self.ids@.len() - k,
        {
            if self.ids[k] == id {
                assert(self.contains(id));
                return false;
            }
            k = k + 1;
        }
        assert(!self.contains(id));
        self.ids.push(id);
        assert(self.ids@.last() == id);
        assert forall|other: NodeId|
            self.contains(other) <==> (old(self).contains(other) || other == id) by {
            if self.contains(other) {
                let j = choose|j: int| 0 <= j < self.ids@.len() && self.ids@[j] == other;
                if j < self.ids@.len() - 1 {
                    assert(old(self).ids@[j] == other);
                }
            }
            if old(self).contains(other) {
                let j = choose|j: int| 0 <= j < old(self).ids@.len() && old(self).ids@[j] == other;
                assert(self.ids@[j] == other);
            }
        }
        true
    }

    /// How many directories have been entered.
    pub fn len(&self) -> (n: usize)
        ensures
            n == self.ids@.len(),
    {
        self.ids.len()
    }
}

} // verus!
