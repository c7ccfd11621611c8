//! The verified-humans index: the permanent record of which identities ever
//! completed verification, and when they first did.
//!
//! Deliberately separate from the token store: a token expires, this record
//! never does, and it is this record — not token validity — that blocks an
//! identity from ever starting a session again.

use vstd::prelude::*;
use crate::kv;

verus! {

/// Identity to first-verification timestamp, keyed by identity.
pub struct VerifiedIndex {
    humans: Vec<(String, u64)>,
}

impl VerifiedIndex {
    /// The pair-sequence reading of the index.
    closed spec fn pairs(self) -> Seq<(Seq<char>, u64)> {
        self.humans@.map_values(|p: (String, u64)| (p.0@, p.1))
    }

    /// Distinct identities: at most one record per identity.
    pub closed spec fn well_formed(self) -> bool {
        kv::unique_keys(self.pairs())
    }

    pub fn new() -> (s: Self)
        ensures
            s.well_formed(),
            s@ == Map::<Seq<char>, u64>::empty(),
    {
        let s = VerifiedIndex { humans: Vec::new() };
        proof {
            assert(s.pairs() =~= Seq::<(Seq<char>, u64)>::empty());
            kv::lemma_map_of_empty::<u64>();
        }
        s
    }

    /// The index holding `identity`, if any.
    fn find(&self, identity: &String) -> (r: Option<usize>)
        requires
            self.well_formed(),
        ensures
            match r {
                Some(i) => {
                    &&& i < self.humans@.len()
                    &&& self.humans@[i as int].0@ == identity@
                    &&& self@.contains_key(identity@)
                },
                None => !self@.contains_key(identity@),
            },
    {
        let mut i: usize = 0;
        while i < self.humans.len()
            invariant
                self.well_formed(),
                i <= self.humans@.len(),
                forall|j: int| 0 <= j < i ==> self.humans@[j].0@ != identity@,
            decreases self.humans@.len() - i,
        {
            if self.humans[i].0 == *identity {
                proof {
                    kv::lemma_found_index(self.pairs(), i as int);
                }
                return Some(i);
            }
            i += 1;
        }
        proof {
            assert forall|w: int|
                0 <= w < self.pairs().len() implies self.pairs()[w].0 != identity@ by {}
        }
        None
    }

    /// Whether the identity ever completed verification.
    pub fn contains(&self, identity: &String) -> (r: bool)
        requires
            self.well_formed(),
        ensures
            r == self@.contains_key(identity@),
    {
        self.find(identity).is_some()
    }

    /// Marks the identity as verified at time `now`, overwriting any earlier
    /// record.
    pub fn record(&mut self, identity: &String, now: u64)
        requires
            old(self).well_formed(),
        ensures
            final(self).well_formed(),
            final(self)@ == old(self)@.insert(identity@, now),
    {
        match self.find(identity) {
            Some(i) => {
                let ghost pre = self.pairs();
                let _replaced = self.humans.remove(i);
                self.humans.insert(i, (identity.clone(), now));
                proof {
                    assert(self.pairs() =~= pre.update(i as int, (identity@, now)));
                    kv::lemma_map_of_update(pre, i as int, now);
                }
            },
            None => {
                let ghost pre = self.pairs();
                self.humans.push((identity.clone(), now));
                proof {
                    assert(self.pairs() =~= pre.push((identity@, now)));
                    kv::lemma_map_of_push(pre, identity@, now);
                }
            },
        }
    }
}

impl View for VerifiedIndex {
    type V = Map<Seq<char>, u64>;

    closed spec fn view(&self) -> Map<Seq<char>, u64> {
        kv::map_of(self.pairs())
    }
}

} // verus!
