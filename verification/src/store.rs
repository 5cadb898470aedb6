//! The entity store: the genome of every kitty, and the identifier that the
//! next kitty will get.

use crate::error::Error;
use crate::genome::Kitty;
use std::collections::HashMap;
use vstd::prelude::*;

verus! {

broadcast use vstd::std_specs::hash::group_hash_axioms;

/// The mathematical content of an entity store.
pub struct Entities {
    /// The genome of each kitty that exists.
    pub genomes: Map<u32, Seq<u8>>,
    /// The identifier that the next kitty will get.
    pub next_id: nat,
}

impl Entities {
    /// The store that holds no kitty and hands out identifiers from zero.
    pub open spec fn empty() -> Entities {
        Entities { genomes: Map::empty(), next_id: 0 }
    }

    /// Every kitty has an identifier below the next one to be handed out,
    /// which is itself an identifier or one past the largest, and every
    /// genome has sixteen bytes.
    pub open spec fn wf(self) -> bool {
        &&& self.next_id <= u32::MAX
        &&& forall|id: u32| #[trigger] self.genomes.contains_key(id) ==> id < self.next_id
        &&& forall|id: u32| #[trigger] self.genomes.contains_key(id) ==> self.genomes[id].len() == 16
    }

    /// No identifier is left to hand out.
    pub open spec fn exhausted(self) -> bool {
        self.next_id == u32::MAX
    }

    /// The store after `genome` was recorded under `id`.
    pub open spec fn put(self, id: u32, genome: Seq<u8>) -> Entities {
        Entities { genomes: self.genomes.insert(id, genome), next_id: self.next_id }
    }

    /// The store after `id` was used up: the next identifier is the one
    /// after it.
    pub open spec fn committed(self, id: u32) -> Entities {
        Entities { genomes: self.genomes, next_id: (id + 1) as nat }
    }
}

/// The entity store as it is held in memory.
pub struct EntityStore {
    kitties: HashMap<u32, Kitty>,
    next_id: u32,
}

impl View for EntityStore {
    type V = Entities;

    closed spec fn view(&self) -> Entities {
        Entities {
            genomes: Map::new(
                |id: u32| self.kitties@.contains_key(id),
                |id: u32| self.kitties@[id]@,
            ),
            next_id: self.next_id as nat,
        }
    }
}

impl EntityStore {
    /// The store keeps its identifiers below the next one.
    pub open spec fn wf(&self) -> bool {
        self@.wf()
    }

    /// A store that holds no kitty and hands out identifiers from zero.
    pub fn new() -> (store: EntityStore)
        ensures
            store@ == Entities::empty(),
            store.wf(),
    {
        let store = EntityStore { kitties: HashMap::new(), next_id: 0 };
        assert(store@.genomes =~= Entities::empty().genomes);
        store
    }

    /// The identifier that the next kitty will get.
    pub fn next_id(&self) -> (id: u32)
        ensures
            id == self@.next_id,
    {
        self.next_id
    }

    /// The identifier for a new kitty. It is not used up by this call: that
    /// is done by `commit`, once the kitty is stored. Fails where the counter
    /// has reached the largest identifier.
    pub fn allocate_id(&self) -> (id: Result<u32, Error>)
        ensures
            id == (if self@.exhausted() {
                Err::<u32, Error>(Error::CounterOverflow)
            } else {
                Ok::<u32, Error>(self@.next_id as u32)
            }),
    {
        if self.next_id == u32::MAX {
            return Err(Error::CounterOverflow);
        }
        Ok(self.next_id)
    }

    /// Records `kitty` under `id`, in place of what was recorded there.
    pub fn put(&mut self, id: u32, kitty: Kitty)
        ensures
            final(self)@ == old(self)@.put(id, kitty@),
    {
        self.kitties.insert(id, kitty);
        assert(self@.genomes =~= old(self)@.put(id, kitty@).genomes);
    }

    /// Uses up `id`: the next identifier to be handed out is the one after
    /// it.
    pub fn commit(&mut self, id: u32)
        requires
            id < u32::MAX,
        ensures
            final(self)@ == old(self)@.committed(id),
    {
        self.next_id = id + 1;
    }

    /// The kitty recorded under `id`, if there is one.
    pub fn get(&self, id: u32) -> (kitty: Option<Kitty>)
        ensures
            kitty.is_some() == self@.genomes.contains_key(id),
            kitty.is_some() ==> kitty.unwrap()@ == self@.genomes[id],
    {
        match self.kitties.get(&id) {
            Some(kitty) => Some(*kitty),
            None => None,
        }
    }
}

} // verus!
