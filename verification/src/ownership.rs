//! The ownership index: for every owner a dense sequence of the kitties they
//! own, with the owner and the slot of every kitty kept beside it, so that a
//! kitty is found, appended and removed in constant time.

use crate::error::Error;
use std::collections::HashMap;
use vstd::prelude::*;

verus! {

broadcast use vstd::std_specs::hash::group_hash_axioms;

/// The mathematical content of an ownership index.
pub struct Ownership {
    /// The owner of each kitty that has one.
    pub owner_of: Map<u32, u64>,
    /// The position of each owned kitty in its owner's sequence.
    pub slot_of: Map<u32, nat>,
    /// For every owner the sequence of kitties they hold; empty for an owner
    /// who holds none.
    pub owned: Map<u64, Seq<u32>>,
}

impl Ownership {
    /// The index in which nobody owns anything.
    pub open spec fn empty() -> Ownership {
        Ownership {
            owner_of: Map::empty(),
            slot_of: Map::empty(),
            owned: Map::new(|o: u64| true, |o: u64| Seq::<u32>::empty()),
        }
    }

    /// The three parts agree: each owned kitty sits in its owner's sequence at
    /// the slot recorded for it, and each slot of each sequence holds a kitty
    /// whose owner and slot are recorded as just that.
    pub open spec fn wf(self) -> bool {
        &&& forall|o: u64| self.owned.contains_key(o)
        &&& self.slot_of.dom() == self.owner_of.dom()
        &&& forall|id: u32| #[trigger]
            self.owner_of.contains_key(id) ==> {
                &&& self.slot_of[id] < self.owned[self.owner_of[id]].len()
                &&& self.owned[self.owner_of[id]][self.slot_of[id] as int] == id
            }
        &&& forall|o: u64, s: int|
            0 <= s < self.owned[o].len() ==> {
                &&& self.owner_of.contains_key(#[trigger] self.owned[o][s])
                &&& self.owner_of[self.owned[o][s]] == o
                &&& self.slot_of[self.owned[o][s]] == s
            }
    }

    /// `owner` holds `id`.
    pub open spec fn owns(self, owner: u64, id: u32) -> bool {
        self.owner_of.contains_key(id) && self.owner_of[id] == owner
    }

    /// The index after `id`, which nobody owned, went to the end of `owner`'s
    /// sequence.
    pub open spec fn appended(self, owner: u64, id: u32) -> Ownership {
        Ownership {
            owner_of: self.owner_of.insert(id, owner),
            slot_of: self.slot_of.insert(id, self.owned[owner].len()),
            owned: self.owned.insert(owner, self.owned[owner].push(id)),
        }
    }

    /// The sequence `seq` after the element at `slot` left it: the last
    /// element takes the freed slot and the sequence loses its last slot.
    pub open spec fn swap_removed(seq: Seq<u32>, slot: int) -> Seq<u32> {
        seq.update(slot, seq.last()).drop_last()
    }

    /// The index after `id` left its owner's sequence: the kitty in the last
    /// slot of that sequence moved to the slot that `id` had.
    pub open spec fn removed(self, id: u32) -> Ownership {
        let owner = self.owner_of[id];
        let slot = self.slot_of[id];
        let seq = self.owned[owner];
        Ownership {
            owner_of: self.owner_of.remove(id),
            slot_of: self.slot_of.insert(seq.last(), slot).remove(id),
            owned: self.owned.insert(owner, Self::swap_removed(seq, slot as int)),
        }
    }

    /// The index after `id` passed from its owner to `to`.
    pub open spec fn transferred(self, to: u64, id: u32) -> Ownership {
        self.removed(id).appended(to, id)
    }

    /// Appending a kitty that nobody owns keeps the index consistent.
    pub proof fn lemma_appended_wf(self, owner: u64, id: u32)
        requires
            self.wf(),
            !self.owner_of.contains_key(id),
        ensures
            self.appended(owner, id).wf(),
    {
        let after = self.appended(owner, id);
        assert(after.slot_of.dom() =~= after.owner_of.dom());
        assert forall|o: u64, s: int| 0 <= s < after.owned[o].len() implies {
            &&& after.owner_of.contains_key(#[trigger] after.owned[o][s])
            &&& after.owner_of[after.owned[o][s]] == o
            &&& after.slot_of[after.owned[o][s]] == s
        } by {
            if o == owner && s == self.owned[owner].len() {
            } else {
                assert(after.owned[o][s] == self.owned[o][s]);
            }
        }
    }

    /// Removing an owned kitty keeps the index consistent.
    pub proof fn lemma_removed_wf(self, id: u32)
        requires
            self.wf(),
            self.owner_of.contains_key(id),
        ensures
            self.removed(id).wf(),
            !self.removed(id).owner_of.contains_key(id),
    {
        let after = self.removed(id);
        let owner = self.owner_of[id];
        let slot = self.slot_of[id] as int;
        let seq = self.owned[owner];
        let last = seq.last();
        assert(self.owner_of.contains_key(seq[seq.len() - 1]));
        assert(after.slot_of.dom() =~= after.owner_of.dom());
        assert forall|k: u32| #[trigger] after.owner_of.contains_key(k) implies {
            &&& after.slot_of[k] < after.owned[after.owner_of[k]].len()
            &&& after.owned[after.owner_of[k]][after.slot_of[k] as int] == k
        } by {
            assert(self.owner_of.contains_key(k));
        }
        assert forall|o: u64, s: int| 0 <= s < after.owned[o].len() implies {
            &&& after.owner_of.contains_key(#[trigger] after.owned[o][s])
            &&& after.owner_of[after.owned[o][s]] == o
            &&& after.slot_of[after.owned[o][s]] == s
        } by {
            if o == owner {
                if s == slot {
                    assert(after.owned[o][s] == last);
                } else {
                    assert(after.owned[o][s] == self.owned[o][s]);
                }
            } else {
                assert(after.owned[o][s] == self.owned[o][s]);
            }
        }
    }
}

/// The ownership index as it is held in memory.
pub struct OwnershipIndex {
    owner: HashMap<u32, u64>,
    slot: HashMap<u32, usize>,
    owned: HashMap<u64, Vec<u32>>,
}

impl View for OwnershipIndex {
    type V = Ownership;

    closed spec fn view(&self) -> Ownership {
        Ownership {
            owner_of: self.owner@,
            slot_of: Map::new(
                |id: u32| self.slot@.contains_key(id),
                |id: u32| self.slot@[id] as nat,
            ),
            owned: Map::new(
                |o: u64| true,
                |o: u64|
                    if self.owned@.contains_key(o) {
                        self.owned@[o]@
                    } else {
                        Seq::empty()
                    },
            ),
        }
    }
}

impl OwnershipIndex {
    /// The index is consistent.
    pub open spec fn wf(&self) -> bool {
        self@.wf()
    }

    /// An index in which nobody owns anything.
    pub fn new() -> (index: OwnershipIndex)
        ensures
            index@ == Ownership::empty(),
            index.wf(),
    {
        let index = OwnershipIndex {
            owner: HashMap::new(),
            slot: HashMap::new(),
            owned: HashMap::new(),
        };
        proof {
            assert(index@.slot_of =~= Ownership::empty().slot_of);
            assert(index@.owned =~= Ownership::empty().owned);
        }
        index
    }

    /// The owner of `id`, if it has one.
    pub fn owner_of(&self, id: u32) -> (owner: Option<u64>)
        ensures
            owner == (if self@.owner_of.contains_key(id) {
                Some(self@.owner_of[id])
            } else {
                None
            }),
    {
        match self.owner.get(&id) {
            Some(o) => Some(*o),
            None => None,
        }
    }

    /// The slot that `id` has in its owner's sequence, if it has an owner.
    pub fn slot_of(&self, id: u32) -> (slot: Option<usize>)
        ensures
            slot.is_some() == self@.slot_of.contains_key(id),
            slot.is_some() ==> slot.unwrap() == self@.slot_of[id],
    {
        match self.slot.get(&id) {
            Some(s) => Some(*s),
            None => None,
        }
    }

    /// How many kitties `owner` holds.
    pub fn count(&self, owner: u64) -> (n: usize)
        ensures
            n == self@.owned[owner].len(),
    {
        match self.owned.get(&owner) {
            Some(seq) => seq.len(),
            None => 0,
        }
    }

    /// The kitty in slot `slot` of `owner`'s sequence, if the sequence is that
    /// long.
    pub fn slot_at(&self, owner: u64, slot: usize) -> (id: Option<u32>)
        ensures
            id == (if slot < self@.owned[owner].len() {
                Some(self@.owned[owner][slot as int])
            } else {
                None
            }),
    {
        match self.owned.get(&owner) {
            Some(seq) => if slot < seq.len() {
                Some(seq[slot])
            } else {
                None
            },
            None => None,
        }
    }

    /// The kitties that `owner` holds, in slot order.
    pub fn slots(&self, owner: u64) -> (ids: Vec<u32>)
        ensures
            ids@ == self@.owned[owner],
    {
        let mut ids: Vec<u32> = Vec::new();
        let n = self.count(owner);
        let mut i: usize = 0;
        while i < n
            invariant
                n == self@.owned[owner].len(),
                i <= n,
                ids@ == self@.owned[owner].take(i as int),
            decreases n - i,
        {
            let next = self.slot_at(owner, i);
            ids.push(next.unwrap());
            i += 1;
            assert(self@.owned[owner].take(i as int) =~= self@.owned[owner].take(i - 1).push(
                self@.owned[owner][i - 1],
            ));
        }
        assert(self@.owned[owner].take(n as int) =~= self@.owned[owner]);
        ids
    }

    /// Puts `id`, which nobody owns, into the next free slot of `owner`.
    pub fn append(&mut self, owner: u64, id: u32)
        requires
            old(self).wf(),
            !old(self)@.owner_of.contains_key(id),
        ensures
            final(self)@ == old(self)@.appended(owner, id),
            final(self).wf(),
    {
        let mut seq = match self.owned.remove(&owner) {
            Some(seq) => seq,
            None => Vec::new(),
        };
        let slot = seq.len();
        seq.push(id);
        self.owned.insert(owner, seq);
        self.slot.insert(id, slot);
        self.owner.insert(id, owner);
        proof {
            let after = old(self)@.appended(owner, id);
            assert(self@.owner_of =~= after.owner_of);
            assert(self@.slot_of =~= after.slot_of);
            assert(self@.owned =~= after.owned);
            old(self)@.lemma_appended_wf(owner, id);
        }
    }

    /// Takes `id` out of `owner`'s sequence. Where `id` was not in the last
    /// slot, the kitty of the last slot moves into the slot that `id` leaves;
    /// no other kitty moves. Fails, and changes nothing, where `owner` does
    /// not hold `id`.
    pub fn remove(&mut self, owner: u64, id: u32) -> (done: Result<(), Error>)
        requires
            old(self).wf(),
        ensures
            final(self).wf(),
            done == (if old(self)@.owns(owner, id) {
                Ok::<(), Error>(())
            } else {
                Err::<(), Error>(Error::NotOwned)
            }),
            final(self)@ == (if old(self)@.owns(owner, id) {
                old(self)@.removed(id)
            } else {
                old(self)@
            }),
    {
        match self.owner.get(&id) {
            Some(o) => {
                if *o != owner {
                    return Err(Error::NotOwned);
                }
            },
            None => {
                return Err(Error::NotOwned);
            },
        }
        assert(old(self)@.slot_of.contains_key(id));
        let slot = *self.slot.get(&id).unwrap();
        assert(old(self)@.owned[owner].len() > 0);
        let mut seq = self.owned.remove(&owner).unwrap();
        let last = seq.len() - 1;
        if slot != last {
            let moved = seq[last];
            seq.set(slot, moved);
            self.slot.insert(moved, slot);
        }
        seq.pop();
        assert(seq@ =~= Ownership::swap_removed(old(self)@.owned[owner], slot as int));
        self.slot.remove(&id);
        self.owner.remove(&id);
        if seq.len() > 0 {
            self.owned.insert(owner, seq);
        }
        proof {
            let after = old(self)@.removed(id);
            assert(self@.owner_of =~= after.owner_of);
            assert(self@.slot_of =~= after.slot_of);
            assert(self@.owned[owner] =~= after.owned[owner]);
            assert(self@.owned =~= after.owned);
            old(self)@.lemma_removed_wf(id);
        }
        Ok(())
    }
}

} // verus!
