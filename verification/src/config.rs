//! Immutable cluster descriptor: the set of replica ids, the mapping from a
//! view number to its primary, and the quorum size.

use vstd::prelude::*;

verus! {

/// Cluster configuration. Replica ids are assigned densely from zero, so a
/// well-formed configuration holds exactly the ids `0 .. n` in order.
pub struct Config {
    /// IDs of all replicas (in sorted order).
    pub replicas: Vec<usize>,
}

impl Config {
    /// A configuration built through `add_replica` alone: slot `i` holds id `i`.
    pub open spec fn wf(&self) -> bool {
        forall|i: int| 0 <= i < self.replicas@.len() ==> self.replicas@[i] == i
    }

    /// Number of replicas in the cluster.
    pub open spec fn n(&self) -> nat {
        self.replicas@.len()
    }

    /// The primary of view `v` is replica `v mod n`.
    pub open spec fn spec_primary_id(&self, view_number: usize) -> usize
        recommends self.n() > 0,
    {
        (view_number as int % self.n() as int) as usize
    }

    /// A majority of the cluster.
    pub open spec fn spec_quorum(&self) -> nat {
        self.n() / 2 + 1
    }

    pub fn new() -> (c: Config)
        ensures
            c.wf(),
            c.n() == 0,
    {
        Config { replicas: Vec::new() }
    }

    /// Registers the next replica and returns its id.
    pub fn add_replica(&mut self) -> (id: usize)
        requires
            old(self).wf(),
            old(self).n() < usize::MAX,
        ensures
            final(self).wf(),
            id == old(self).n(),
            final(self).n() == old(self).n() + 1,
    {
        let id = self.replicas.len();
        self.replicas.push(id);
        id
    }

    /// The id of the primary for the given view.
    pub fn primary_id(&self, view_number: usize) -> (r: usize)
        requires
            self.wf(),
            self.n() > 0,
        ensures
            r == self.spec_primary_id(view_number),
            r < self.n(),
    {
        let idx = view_number % self.replicas.len();
        self.replicas[idx]
    }

    /// The number of replicas that must hold an operation before it commits.
    pub fn quorum(&self) -> (q: usize)
        requires
            self.n() > 0,
        ensures
            q == self.spec_quorum(),
            1 <= q <= self.n(),
    {
        self.replicas.len() / 2 + 1
    }
}

} // verus!
