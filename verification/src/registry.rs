//! The registry: kitties are created, bred and handed from one owner to
//! another, and either an operation is carried out whole or nothing changes.

use crate::error::Error;
use crate::genome::{combine, combined, Kitty};
use crate::laws::law_owned_count_bounded;
use crate::ownership::{Ownership, OwnershipIndex};
use crate::random::{drawn, random_value, ChainContext};
use crate::store::{Entities, EntityStore};
use vstd::prelude::*;

verus! {

/// The mathematical content of a registry.
pub struct Registry {
    /// The kitties and the next identifier.
    pub entities: Entities,
    /// Who owns which kitty.
    pub ownership: Ownership,
}

impl Registry {
    /// The registry without kitties.
    pub open spec fn empty() -> Registry {
        Registry { entities: Entities::empty(), ownership: Ownership::empty() }
    }

    /// Store and index are each consistent, and the kitties that exist are
    /// the kitties that have an owner.
    pub open spec fn wf(self) -> bool {
        &&& self.entities.wf()
        &&& self.ownership.wf()
        &&& self.entities.genomes.dom() == self.ownership.owner_of.dom()
    }

    /// `id` may be given to a new kitty: it is not the largest identifier,
    /// and no identifier from it on is in use.
    pub open spec fn vacant(self, id: u32) -> bool {
        self.entities.next_id <= id < u32::MAX
    }

    /// The registry after a kitty with `genome` was stored under `id` for
    /// `owner`, and the counter set to follow `id`.
    pub open spec fn inserted(self, owner: u64, id: u32, genome: Seq<u8>) -> Registry {
        Registry {
            entities: self.entities.put(id, genome).committed(id),
            ownership: self.ownership.appended(owner, id),
        }
    }

    /// The registry after a kitty with `genome` was created for `owner` under
    /// the next identifier.
    pub open spec fn created(self, owner: u64, genome: Seq<u8>) -> Registry {
        self.inserted(owner, self.entities.next_id as u32, genome)
    }

    /// What an attempt to create a kitty returns: the next identifier, unless
    /// none is left.
    pub open spec fn creation(self) -> Result<u32, Error> {
        if self.entities.exhausted() {
            Err(Error::CounterOverflow)
        } else {
            Ok(self.entities.next_id as u32)
        }
    }

    /// What an attempt to breed `id1` with `id2` returns: the child's
    /// identifier where both parents exist, differ, and an identifier is
    /// left; else the first of these that fails.
    pub open spec fn breeding(self, id1: u32, id2: u32) -> Result<u32, Error> {
        if !self.entities.genomes.contains_key(id1) || !self.entities.genomes.contains_key(id2) {
            Err(Error::UnknownEntity)
        } else if id1 == id2 {
            Err(Error::IdenticalParents)
        } else {
            self.creation()
        }
    }

    /// The registry after `owner` bred `id1` with `id2` under `selector`.
    pub open spec fn bred(self, owner: u64, id1: u32, id2: u32, selector: Seq<u8>) -> Registry {
        self.created(
            owner,
            combined(self.entities.genomes[id1], self.entities.genomes[id2], selector),
        )
    }

    /// What an attempt by `from` to hand over `id` returns: success where
    /// `id` has an owner and the owner is `from`.
    pub open spec fn transfer(self, from: u64, id: u32) -> Result<(), Error> {
        if !self.ownership.owner_of.contains_key(id) {
            Err(Error::UnknownEntity)
        } else if self.ownership.owner_of[id] != from {
            Err(Error::NotOwner)
        } else {
            Ok(())
        }
    }

    /// The registry after `id` passed from its owner to `to`.
    pub open spec fn transferred(self, to: u64, id: u32) -> Registry {
        Registry { entities: self.entities, ownership: self.ownership.transferred(to, id) }
    }

    /// Storing a kitty under a vacant identifier keeps the registry
    /// consistent.
    pub proof fn lemma_inserted_wf(self, owner: u64, id: u32, genome: Seq<u8>)
        requires
            self.wf(),
            self.vacant(id),
            genome.len() == 16,
        ensures
            self.inserted(owner, id, genome).wf(),
    {
        let after = self.inserted(owner, id, genome);
        assert(!self.ownership.owner_of.contains_key(id)) by {
            if self.ownership.owner_of.contains_key(id) {
                assert(self.entities.genomes.dom().contains(id));
                assert(self.entities.genomes.contains_key(id));
            }
        }
        self.ownership.lemma_appended_wf(owner, id);
        assert(after.entities.genomes.dom() =~= after.ownership.owner_of.dom());
        assert forall|k: u32| #[trigger] after.entities.genomes.contains_key(k) implies k
            < after.entities.next_id by {
            if k != id {
                assert(self.entities.genomes.contains_key(k));
            }
        }
    }

    /// Handing an owned kitty to another owner keeps the registry consistent.
    pub proof fn lemma_transferred_wf(self, to: u64, id: u32)
        requires
            self.wf(),
            self.ownership.owner_of.contains_key(id),
        ensures
            self.transferred(to, id).wf(),
    {
        self.ownership.lemma_removed_wf(id);
        self.ownership.removed(id).lemma_appended_wf(to, id);
        assert(self.transferred(to, id).ownership.owner_of.dom()
            =~= self.ownership.owner_of.dom());
    }
}

/// The registry as it is held in memory.
pub struct Module {
    store: EntityStore,
    index: OwnershipIndex,
}

impl View for Module {
    type V = Registry;

    closed spec fn view(&self) -> Registry {
        Registry { entities: self.store@, ownership: self.index@ }
    }
}

impl Module {
    /// The registry is consistent.
    pub open spec fn wf(&self) -> bool {
        self@.wf()
    }

    /// A registry without kitties.
    pub fn new() -> (module: Module)
        ensures
            module@ == Registry::empty(),
            module.wf(),
    {
        Module { store: EntityStore::new(), index: OwnershipIndex::new() }
    }

    /// The kitty with identifier `id`, if there is one.
    pub fn kitty(&self, id: u32) -> (kitty: Option<Kitty>)
        ensures
            kitty.is_some() == self@.entities.genomes.contains_key(id),
            kitty.is_some() ==> kitty.unwrap()@ == self@.entities.genomes[id],
    {
        self.store.get(id)
    }

    /// The number of identifiers handed out so far, which is the identifier
    /// that the next kitty will get.
    pub fn kitties_count(&self) -> (count: u32)
        ensures
            count == self@.entities.next_id,
    {
        self.store.next_id()
    }

    /// The owner of kitty `id`, if it exists.
    pub fn owner_of(&self, id: u32) -> (owner: Option<u64>)
        ensures
            owner == (if self@.ownership.owner_of.contains_key(id) {
                Some(self@.ownership.owner_of[id])
            } else {
                None
            }),
    {
        self.index.owner_of(id)
    }

    /// The kitties that `owner` holds, in slot order.
    pub fn owned_by(&self, owner: u64) -> (ids: Vec<u32>)
        ensures
            ids@ == self@.ownership.owned[owner],
    {
        self.index.slots(owner)
    }

    /// The ownership index, to be read.
    pub fn ownership(&self) -> (index: &OwnershipIndex)
        ensures
            index@ == self@.ownership,
    {
        &self.index
    }

    /// The kitty in slot `index` of `owner`'s sequence, if the sequence is
    /// that long.
    pub fn owned_kitties(&self, owner: u64, index: u32) -> (id: Option<u32>)
        ensures
            id == (if index < self@.ownership.owned[owner].len() {
                Some(self@.ownership.owned[owner][index as int])
            } else {
                None
            }),
    {
        self.index.slot_at(owner, index as usize)
    }

    /// How many kitties `owner` holds.
    pub fn owned_kitties_count(&self, owner: u64) -> (count: u32)
        requires
            self.wf(),
        ensures
            count == self@.ownership.owned[owner].len(),
    {
        proof {
            law_owned_count_bounded(self@, owner);
        }
        self.index.count(owner) as u32
    }

    /// The identifier for a new kitty, which stays unused until a kitty is
    /// stored under it. Fails where all identifiers have been handed out.
    pub fn next_kitty_id(&self) -> (id: Result<u32, Error>)
        ensures
            id == self@.creation(),
    {
        self.store.allocate_id()
    }

    /// Stores `kitty` under the vacant identifier `kitty_id`, puts it into
    /// the next free slot of `owner`, and sets the counter to follow
    /// `kitty_id`.
    pub fn insert_kitty(&mut self, owner: u64, kitty_id: u32, kitty: Kitty)
        requires
            old(self).wf(),
            old(self)@.vacant(kitty_id),
        ensures
            final(self)@ == old(self)@.inserted(owner, kitty_id, kitty@),
            final(self).wf(),
    {
        proof {
            old(self)@.lemma_inserted_wf(owner, kitty_id, kitty@);
        }
        self.store.put(kitty_id, kitty);
        self.store.commit(kitty_id);
        self.index.append(owner, kitty_id);
    }

    /// Creates a kitty with genome `dna` for `owner` and returns its
    /// identifier. Fails, and changes nothing, where no identifier is left.
    pub fn create_kitty_with_dna(&mut self, owner: u64, dna: [u8; 16]) -> (id: Result<u32, Error>)
        requires
            old(self).wf(),
        ensures
            final(self).wf(),
            id == old(self)@.creation(),
            final(self)@ == (if id.is_ok() {
                old(self)@.created(owner, dna@)
            } else {
                old(self)@
            }),
    {
        let new_kitty_id = match self.next_kitty_id() {
            Ok(id) => id,
            Err(e) => {
                return Err(e);
            },
        };
        self.insert_kitty(owner, new_kitty_id, Kitty(dna));
        Ok(new_kitty_id)
    }

    /// Creates a kitty for `owner` with the genome that `owner` draws in
    /// `context`, and returns its identifier. Fails, and changes nothing,
    /// where no identifier is left.
    pub fn create_kitty(&mut self, owner: u64, context: &ChainContext) -> (id: Result<u32, Error>)
        requires
            old(self).wf(),
        ensures
            final(self).wf(),
            id == old(self)@.creation(),
            final(self)@ == (if id.is_ok() {
                old(self)@.created(owner, drawn(*context, owner))
            } else {
                old(self)@
            }),
    {
        let new_kitty_id = match self.next_kitty_id() {
            Ok(id) => id,
            Err(e) => {
                return Err(e);
            },
        };
        let dna = random_value(context, &owner);
        self.insert_kitty(owner, new_kitty_id, Kitty(dna));
        Ok(new_kitty_id)
    }

    /// Breeds kitties `kitty_id_1` and `kitty_id_2` under `selector`: the
    /// child takes each bit from the first parent where `selector` has a one
    /// and from the second where it has a zero, and belongs to `sender`.
    /// Returns the child's identifier. Fails, and changes nothing, where a
    /// parent does not exist, the two are one kitty, or no identifier is
    /// left.
    pub fn do_breed_with_selector(
        &mut self,
        sender: u64,
        kitty_id_1: u32,
        kitty_id_2: u32,
        selector: [u8; 16],
    ) -> (id: Result<u32, Error>)
        requires
            old(self).wf(),
        ensures
            final(self).wf(),
            id == old(self)@.breeding(kitty_id_1, kitty_id_2),
            final(self)@ == (if id.is_ok() {
                old(self)@.bred(sender, kitty_id_1, kitty_id_2, selector@)
            } else {
                old(self)@
            }),
    {
        let kitty1 = match self.kitty(kitty_id_1) {
            Some(kitty) => kitty,
            None => {
                return Err(Error::UnknownEntity);
            },
        };
        let kitty2 = match self.kitty(kitty_id_2) {
            Some(kitty) => kitty,
            None => {
                return Err(Error::UnknownEntity);
            },
        };
        if kitty_id_1 == kitty_id_2 {
            return Err(Error::IdenticalParents);
        }
        let kitty_id = match self.next_kitty_id() {
            Ok(id) => id,
            Err(e) => {
                return Err(e);
            },
        };
        let new_dna = combine(&kitty1.0, &kitty2.0, &selector);
        self.insert_kitty(sender, kitty_id, Kitty(new_dna));
        Ok(kitty_id)
    }

    /// Breeds kitties `kitty_id_1` and `kitty_id_2` under the selector that
    /// `sender` draws in `context`. Returns the child's identifier. Fails,
    /// and changes nothing, where a parent does not exist, the two are one
    /// kitty, or no identifier is left.
    pub fn do_breed(
        &mut self,
        sender: u64,
        kitty_id_1: u32,
        kitty_id_2: u32,
        context: &ChainContext,
    ) -> (id: Result<u32, Error>)
        requires
            old(self).wf(),
        ensures
            final(self).wf(),
            id == old(self)@.breeding(kitty_id_1, kitty_id_2),
            final(self)@ == (if id.is_ok() {
                old(self)@.bred(sender, kitty_id_1, kitty_id_2, drawn(*context, sender))
            } else {
                old(self)@
            }),
    {
        let kitty1 = match self.kitty(kitty_id_1) {
            Some(kitty) => kitty,
            None => {
                return Err(Error::UnknownEntity);
            },
        };
        let kitty2 = match self.kitty(kitty_id_2) {
            Some(kitty) => kitty,
            None => {
                return Err(Error::UnknownEntity);
            },
        };
        if kitty_id_1 == kitty_id_2 {
            return Err(Error::IdenticalParents);
        }
        let kitty_id = match self.next_kitty_id() {
            Ok(id) => id,
            Err(e) => {
                return Err(e);
            },
        };
        let selector = random_value(context, &sender);
        let new_dna = combine(&kitty1.0, &kitty2.0, &selector);
        self.insert_kitty(sender, kitty_id, Kitty(new_dna));
        Ok(kitty_id)
    }

    /// Hands kitty `kitty_id` from `from` to `to`: it leaves `from`'s
    /// sequence, the kitty of the last slot taking its place, and goes to the
    /// end of `to`'s. Fails, and changes nothing, where the kitty has no
    /// owner or its owner is not `from`.
    pub fn transfer_kitty(&mut self, from: u64, to: u64, kitty_id: u32) -> (done: Result<(), Error>)
        requires
            old(self).wf(),
        ensures
            final(self).wf(),
            done == old(self)@.transfer(from, kitty_id),
            final(self)@ == (if done.is_ok() {
                old(self)@.transferred(to, kitty_id)
            } else {
                old(self)@
            }),
    {
        let owner = match self.owner_of(kitty_id) {
            Some(owner) => owner,
            None => {
                return Err(Error::UnknownEntity);
            },
        };
        if owner != from {
            return Err(Error::NotOwner);
        }
        proof {
            old(self)@.lemma_transferred_wf(to, kitty_id);
            old(self)@.ownership.lemma_removed_wf(kitty_id);
        }
        match self.index.remove(from, kitty_id) {
            Ok(()) => {},
            Err(e) => {
                return Err(e);
            },
        }
        self.index.append(to, kitty_id);
        Ok(())
    }
}

} // verus!
