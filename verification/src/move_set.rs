//! A set of moves, kept in a vector in which no move occurs twice.

use crate::coords::Move;
use vstd::prelude::*;

verus! {

/// Whether two moves are the same.
pub fn same_move(a: Move, b: Move) -> (same: bool)
    ensures
        same == (a == b),
{
    a.0.0 == b.0.0 && a.0.1 == b.0.1 && a.1.0 == b.1.0 && a.1.1 == b.1.1
}

/// A finite set of moves.
pub struct MoveSet {
    items: Vec<Move>,
}

impl MoveSet {
    /// The moves in the set.
    pub closed spec fn view(&self) -> Set<Move> {
        self.items@.to_set()
    }

    /// No move is stored twice.
    pub closed spec fn wf(&self) -> bool {
        self.items@.no_duplicates()
    }

    /// The empty set.
    pub fn new() -> (s: MoveSet)
        ensures
            s.wf(),
            s@ == Set::<Move>::empty(),
    {
        MoveSet { items: Vec::new() }
    }

    /// The number of moves in the set.
    pub fn len(&self) -> (n: usize)
        requires
            self.wf(),
        ensures
            self@.finite(),
            n == self@.len(),
    {
        proof {
            self.items@.unique_seq_to_set();
        }
        self.items.len()
    }

    /// The place of `m` in the vector, if it is there.
    fn position(&self, m: Move) -> (at: Option<usize>)
        ensures
            match at {
                Some(i) => i < self.items@.len() && self.items@[i as int] == m,
                None => !self@.contains(m),
            },
    {
        let mut i: usize = 0;
        while i < self.items.len()
            invariant
                i <= self.items@.len(),
                forall|j: int| 0 <= j < i ==> self.items@[j] != m,
            decreases self.items@.len() - i,
        {
            if same_move(self.items[i], m) {
                return Some(i);
            }
            i += 1;
        }
        None
    }

    /// Whether `m` is in the set.
    pub fn contains(&self, m: Move) -> (found: bool)
        ensures
            found == self@.contains(m),
    {
        match self.position(m) {
            Some(i) => {
                true
            },
            None => false,
        }
    }

    /// Adds `m` to the set; a move that is already there is not stored again.
    pub fn insert(&mut self, m: Move)
        requires
            old(self).wf(),
        ensures
            final(self).wf(),
            final(self)@ == old(self)@.insert(m),
    {
        if !self.contains(m) {
            proof {
                self.items@.lemma_push_to_set_commute(m);
            }
            self.items.push(m);
        }
    }

    /// Takes `m` out of the set; a move that is not there changes nothing.
    pub fn discard(&mut self, m: Move)
        requires
            old(self).wf(),
        ensures
            final(self).wf(),
            final(self)@ == old(self)@.remove(m),
    {
        if let Some(i) = self.position(m) {
            let ghost before = self.items@;
            self.items.swap_remove(i);
            proof {
                let after = self.items@;
                assert forall|x: Move| after.contains(x) <==> before.contains(x) && x != m by {
                    if before.contains(x) && x != m {
                        let j = choose|j: int| 0 <= j < before.len() && before[j] == x;
                        if j == before.len() - 1 {
                            assert(after[i as int] == x);
                        } else {
                            assert(after[j] == x);
                        }
                    }
                }
            }
        }
    }

    /// The moves of the set, each once, in no particular order.
    pub fn to_vec(&self) -> (v: Vec<Move>)
        requires
            self.wf(),
        ensures
            v@.no_duplicates(),
            v@.to_set() == self@,
    {
        let mut v: Vec<Move> = Vec::new();
        let mut i: usize = 0;
        while i < self.items.len()
            invariant
                i <= self.items@.len(),
                v@ == self.items@.take(i as int),
            decreases self.items@.len() - i,
        {
            v.push(self.items[i]);
            i += 1;
        }
        assert(v@ =~= self.items@);
        v
    }

    /// An independent copy of the set.
    pub fn copy(&self) -> (s: MoveSet)
        requires
            self.wf(),
        ensures
            s.wf(),
            s@ == self@,
    {
        MoveSet { items: self.to_vec() }
    }
}

} // verus!
