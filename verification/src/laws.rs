//! What holds of the registry whatever is done with it.

use crate::error::Error;
use crate::genome::{bit, combined, combined_byte, lemma_combined_byte_bits};
use crate::ownership::Ownership;
use crate::registry::Registry;
use vstd::multiset::group_multiset_axioms;
use vstd::prelude::*;
use vstd::seq_lib::{
    to_multiset_build, to_multiset_contains, to_multiset_remove, to_multiset_update,
};

verus! {

broadcast use group_multiset_axioms;

/// Every bit of a child's genome comes from the first parent where the
/// selector has a one at that position, and from the second where it has a
/// zero.
pub proof fn law_child_bits(
    parent1: Seq<u8>,
    parent2: Seq<u8>,
    selector: Seq<u8>,
    i: int,
    b: u8,
)
    requires
        0 <= i < 16,
        b < 8,
    ensures
        combined(parent1, parent2, selector).len() == 16,
        bit(combined(parent1, parent2, selector)[i], b) == (if bit(selector[i], b) {
            bit(parent1[i], b)
        } else {
            bit(parent2[i], b)
        }),
{
    lemma_combined_byte_bits(parent1[i], parent2[i], selector[i], b);
}

/// Two bytes that agree in every bit are one byte.
pub proof fn lemma_byte_by_bits(x: u8, y: u8)
    by (bit_vector)
    requires
        bit(x, 0) == bit(y, 0),
        bit(x, 1) == bit(y, 1),
        bit(x, 2) == bit(y, 2),
        bit(x, 3) == bit(y, 3),
        bit(x, 4) == bit(y, 4),
        bit(x, 5) == bit(y, 5),
        bit(x, 6) == bit(y, 6),
        bit(x, 7) == bit(y, 7),
    ensures
        x == y,
{
}

/// The rule for the bits leaves no choice: a byte that takes each bit from
/// `dna1` where `selector` has a one, and from `dna2` where it has a zero, is
/// the combined byte.
pub proof fn law_child_byte_unique(dna1: u8, dna2: u8, selector: u8, child: u8)
    requires
        forall|b: u8|
            b < 8 ==> #[trigger] bit(child, b) == (if bit(selector, b) {
                bit(dna1, b)
            } else {
                bit(dna2, b)
            }),
    ensures
        child == combined_byte(dna1, dna2, selector),
{
    let expected = combined_byte(dna1, dna2, selector);
    assert forall|b: u8| b < 8 implies bit(child, b) == bit(expected, b) by {
        lemma_combined_byte_bits(dna1, dna2, selector, b);
    }
    assert(bit(child, 0) == bit(expected, 0));
    assert(bit(child, 1) == bit(expected, 1));
    assert(bit(child, 2) == bit(expected, 2));
    assert(bit(child, 3) == bit(expected, 3));
    assert(bit(child, 4) == bit(expected, 4));
    assert(bit(child, 5) == bit(expected, 5));
    assert(bit(child, 6) == bit(expected, 6));
    assert(bit(child, 7) == bit(expected, 7));
    lemma_byte_by_bits(child, expected);
}

/// In a consistent index every slot of every owner holds a kitty whose
/// recorded slot is that slot, no kitty sits in two slots, and a kitty's
/// owner is `o` exactly if the kitty is in the sequence of `o`.
pub proof fn law_index_consistent(index: Ownership)
    requires
        index.wf(),
    ensures
        forall|o: u64, s: int|
            0 <= s < index.owned[o].len() ==> index.slot_of[#[trigger] index.owned[o][s]] == s,
        forall|o: u64| #[trigger] index.owned[o].no_duplicates(),
        forall|o: u64, id: u32| index.owns(o, id) <==> #[trigger] index.owned[o].contains(id),
{
    assert forall|o: u64| #[trigger] index.owned[o].no_duplicates() by {
        assert forall|s: int, t: int|
            0 <= s < index.owned[o].len() && 0 <= t < index.owned[o].len() && s
                != t implies index.owned[o][s] != index.owned[o][t] by {
            assert(index.slot_of[index.owned[o][s]] == s);
            assert(index.slot_of[index.owned[o][t]] == t);
        }
    }
    assert forall|o: u64, id: u32| index.owns(o, id) <==> #[trigger] index.owned[o].contains(
        id,
    ) by {
        if index.owns(o, id) {
            assert(index.owned[o][index.slot_of[id] as int] == id);
        }
        if index.owned[o].contains(id) {
            let s = choose|s: int| 0 <= s < index.owned[o].len() && index.owned[o][s] == id;
            assert(index.owner_of[index.owned[o][s]] == o);
        }
    }
}

/// Removing the kitty of an owner's last slot shortens that owner's sequence
/// by that slot and moves nothing: every other kitty keeps its owner and its
/// slot, and every other owner keeps their sequence.
pub proof fn law_remove_last(index: Ownership, id: u32)
    requires
        index.wf(),
        index.owner_of.contains_key(id),
        index.slot_of[id] == index.owned[index.owner_of[id]].len() - 1,
    ensures
        index.removed(id).owned[index.owner_of[id]] == index.owned[index.owner_of[id]].drop_last(),
        forall|o: u64| o != index.owner_of[id] ==> index.removed(id).owned[o] == index.owned[o],
        index.removed(id).slot_of == index.slot_of.remove(id),
        index.removed(id).owner_of == index.owner_of.remove(id),
{
    let owner = index.owner_of[id];
    let seq = index.owned[owner];
    assert(seq.last() == id);
    assert(Ownership::swap_removed(seq, index.slot_of[id] as int) =~= seq.drop_last());
    assert(index.removed(id).slot_of =~= index.slot_of.remove(id));
}

/// Removing a kitty from a slot that is not its owner's last moves exactly
/// one kitty, the one of the last slot, into the slot set free, and changes
/// the recorded slot of that kitty alone: every other kitty keeps its owner
/// and its slot, and every other owner keeps their sequence.
pub proof fn law_remove_inner(index: Ownership, id: u32)
    requires
        index.wf(),
        index.owner_of.contains_key(id),
        index.slot_of[id] != index.owned[index.owner_of[id]].len() - 1,
    ensures
        ({
            let owner = index.owner_of[id];
            let slot = index.slot_of[id] as int;
            let before = index.owned[owner];
            let after = index.removed(id).owned[owner];
            &&& after.len() == before.len() - 1
            &&& after[slot] == before.last()
            &&& before.last() != id
            &&& forall|s: int| 0 <= s < after.len() && s != slot ==> after[s] == before[s]
            &&& index.removed(id).slot_of == index.slot_of.remove(id).insert(
                before.last(),
                slot as nat,
            )
        }),
        forall|o: u64| o != index.owner_of[id] ==> index.removed(id).owned[o] == index.owned[o],
        index.removed(id).owner_of == index.owner_of.remove(id),
{
    let owner = index.owner_of[id];
    let seq = index.owned[owner];
    assert(index.slot_of[seq[seq.len() - 1]] == seq.len() - 1);
    assert(index.removed(id).slot_of =~= index.slot_of.remove(id).insert(
        seq.last(),
        index.slot_of[id],
    ));
}

/// An owner who hands a kitty to themselves succeeds, still owns it, and
/// holds the same kitties as before, though the kitty may have changed its
/// slot; nobody else's sequence changes, and no kitty's owner.
pub proof fn law_self_transfer(registry: Registry, owner: u64, id: u32)
    requires
        registry.wf(),
        registry.ownership.owns(owner, id),
    ensures
        registry.transfer(owner, id) == Ok::<(), Error>(()),
        registry.transferred(owner, id).wf(),
        registry.transferred(owner, id).entities == registry.entities,
        registry.transferred(owner, id).ownership.owner_of == registry.ownership.owner_of,
        registry.transferred(owner, id).ownership.owned[owner].to_multiset()
            == registry.ownership.owned[owner].to_multiset(),
        forall|o: u64|
            o != owner ==> registry.transferred(owner, id).ownership.owned[o]
                == registry.ownership.owned[o],
{
    let before = registry.ownership;
    let after = registry.transferred(owner, id).ownership;
    registry.lemma_transferred_wf(owner, id);
    assert(after.owner_of =~= before.owner_of);
    let seq = before.owned[owner];
    let slot = before.slot_of[id] as int;
    let rest = Ownership::swap_removed(seq, slot);
    assert(after.owned[owner] == rest.push(id));
    lemma_swap_removed_multiset(seq, slot);
    to_multiset_build(rest, id);
    to_multiset_contains(seq, id);
    assert(seq.to_multiset().remove(id).insert(id) =~= seq.to_multiset());
}

/// A sequence from which one element was taken by moving the last one into
/// its place holds what it held before, less that element.
pub proof fn lemma_swap_removed_multiset(seq: Seq<u32>, slot: int)
    requires
        0 <= slot < seq.len(),
    ensures
        Ownership::swap_removed(seq, slot).to_multiset() == seq.to_multiset().remove(seq[slot]),
{
    let last = seq.len() - 1;
    let moved = seq.update(slot, seq.last());
    assert(moved.drop_last() =~= moved.remove(last));
    to_multiset_remove(moved, last);
    if slot == last {
        assert(moved =~= seq);
    } else {
        to_multiset_update(seq, slot, seq.last());
        assert(seq.to_multiset().insert(seq.last()).remove(seq[slot]).remove(seq.last())
            =~= seq.to_multiset().remove(seq[slot]));
    }
}

/// One call on the registry, with the genome or the selector that it works
/// with.
pub enum Operation {
    /// A kitty with `genome` is created for `owner`.
    Create { owner: u64, genome: Seq<u8> },
    /// `sender` breeds `id1` with `id2` under `selector`.
    Breed { sender: u64, id1: u32, id2: u32, selector: Seq<u8> },
    /// `from` hands `id` to `to`.
    Transfer { from: u64, to: u64, id: u32 },
}

impl Operation {
    /// A genome to be stored has sixteen bytes.
    pub open spec fn valid(self) -> bool {
        match self {
            Operation::Create { owner, genome } => genome.len() == 16,
            _ => true,
        }
    }
}

/// The identifier that `op` hands out in `registry`: that of the kitty it
/// creates, where it creates one.
pub open spec fn issued(registry: Registry, op: Operation) -> Option<u32> {
    match op {
        Operation::Create { owner, genome } => match registry.creation() {
            Ok(id) => Some(id),
            Err(_) => None,
        },
        Operation::Breed { sender, id1, id2, selector } => match registry.breeding(id1, id2) {
            Ok(id) => Some(id),
            Err(_) => None,
        },
        Operation::Transfer { from, to, id } => None,
    }
}

/// The registry after `op`: changed as the operation says where it succeeds,
/// and as it was where it fails.
pub open spec fn applied(registry: Registry, op: Operation) -> Registry {
    match op {
        Operation::Create { owner, genome } => if registry.creation().is_ok() {
            registry.created(owner, genome)
        } else {
            registry
        },
        Operation::Breed { sender, id1, id2, selector } => if registry.breeding(id1, id2).is_ok() {
            registry.bred(sender, id1, id2, selector)
        } else {
            registry
        },
        Operation::Transfer { from, to, id } => if registry.transfer(from, id).is_ok() {
            registry.transferred(to, id)
        } else {
            registry
        },
    }
}

/// The registry that the operations `ops`, carried out in order on one
/// without kitties, lead to.
pub open spec fn reached(ops: Seq<Operation>) -> Registry
    decreases ops.len(),
{
    if ops.len() == 0 {
        Registry::empty()
    } else {
        applied(reached(ops.drop_last()), ops.last())
    }
}

/// An operation leaves a consistent registry consistent, whether it succeeds
/// or fails.
pub proof fn law_applied_wf(registry: Registry, op: Operation)
    requires
        registry.wf(),
        op.valid(),
    ensures
        applied(registry, op).wf(),
{
    match op {
        Operation::Create { owner, genome } => {
            if registry.creation().is_ok() {
                registry.lemma_inserted_wf(owner, registry.entities.next_id as u32, genome);
            }
        },
        Operation::Breed { sender, id1, id2, selector } => {
            if registry.breeding(id1, id2).is_ok() {
                registry.lemma_inserted_wf(
                    sender,
                    registry.entities.next_id as u32,
                    combined(
                        registry.entities.genomes[id1],
                        registry.entities.genomes[id2],
                        selector,
                    ),
                );
            }
        },
        Operation::Transfer { from, to, id } => {
            if registry.transfer(from, id).is_ok() {
                registry.lemma_transferred_wf(to, id);
            }
        },
    }
}

/// An operation that creates a kitty gives it the next identifier, which no
/// kitty had, and moves the counter on by exactly one; the kitties that were
/// there keep their genomes. An operation that creates none leaves the
/// counter and the kitties as they were.
pub proof fn law_counter_steps(registry: Registry, op: Operation)
    requires
        registry.wf(),
    ensures
        match issued(registry, op) {
            Some(id) => {
                &&& id == registry.entities.next_id
                &&& !registry.entities.genomes.contains_key(id)
                &&& applied(registry, op).entities.genomes.contains_key(id)
                &&& applied(registry, op).entities.next_id == registry.entities.next_id + 1
            },
            None => applied(registry, op).entities == registry.entities,
        },
        forall|id: u32| #[trigger]
            registry.entities.genomes.contains_key(id) ==> {
                &&& applied(registry, op).entities.genomes.contains_key(id)
                &&& applied(registry, op).entities.genomes[id] == registry.entities.genomes[id]
            },
{
}

/// Every registry that operations lead to from the one without kitties is
/// consistent.
pub proof fn law_reached_wf(ops: Seq<Operation>)
    requires
        forall|i: int| 0 <= i < ops.len() ==> (#[trigger] ops[i]).valid(),
    ensures
        reached(ops).wf(),
    decreases ops.len(),
{
    if ops.len() > 0 {
        law_reached_wf(ops.drop_last());
        law_applied_wf(reached(ops.drop_last()), ops.last());
    }
}

/// The counter never goes back: after more operations it is at least what it
/// was after fewer.
pub proof fn law_counter_monotone(ops: Seq<Operation>, i: int)
    requires
        forall|k: int| 0 <= k < ops.len() ==> (#[trigger] ops[k]).valid(),
        0 <= i <= ops.len(),
    ensures
        reached(ops.take(i)).entities.next_id <= reached(ops).entities.next_id,
    decreases ops.len() - i,
{
    if i == ops.len() {
        assert(ops.take(i) =~= ops);
    } else {
        let shorter = ops.drop_last();
        assert(shorter.take(i) =~= ops.take(i));
        law_counter_monotone(shorter, i);
        law_reached_wf(shorter);
        law_counter_steps(reached(shorter), ops.last());
    }
}

/// No two kitties ever get the same identifier: of two operations that each
/// create a kitty, the later one hands out the larger identifier.
pub proof fn law_identifiers_unique(ops: Seq<Operation>, i: int, j: int)
    requires
        forall|k: int| 0 <= k < ops.len() ==> (#[trigger] ops[k]).valid(),
        0 <= i < j < ops.len(),
        issued(reached(ops.take(i)), ops[i]).is_some(),
        issued(reached(ops.take(j)), ops[j]).is_some(),
    ensures
        issued(reached(ops.take(i)), ops[i]).unwrap() < issued(
            reached(ops.take(j)),
            ops[j],
        ).unwrap(),
{
    let upto_i = ops.take(i);
    let with_i = ops.take(i + 1);
    let upto_j = ops.take(j);
    assert(with_i.drop_last() =~= upto_i);
    assert(with_i.last() == ops[i]);
    law_reached_wf(upto_i);
    law_counter_steps(reached(upto_i), ops[i]);
    assert(upto_j.take(i + 1) =~= with_i);
    law_counter_monotone(upto_j, i + 1);
    law_reached_wf(upto_j);
    law_counter_steps(reached(upto_j), ops[j]);
}

/// A sequence of different identifiers, all below `bound`, has at most
/// `bound` entries.
pub proof fn lemma_distinct_below(seq: Seq<u32>, bound: nat)
    requires
        seq.no_duplicates(),
        forall|i: int| 0 <= i < seq.len() ==> #[trigger] seq[i] < bound,
    ensures
        seq.len() <= bound,
    decreases bound,
{
    if seq.len() == 0 {
    } else if bound == 0 {
        assert(seq[0] < bound);
    } else if exists|i: int| 0 <= i < seq.len() && seq[i] == bound - 1 {
        let i = choose|i: int| 0 <= i < seq.len() && seq[i] == bound - 1;
        let rest = seq.remove(i);
        assert forall|k: int| 0 <= k < rest.len() implies #[trigger] rest[k] < bound - 1 by {
            let at = if k < i {
                k
            } else {
                k + 1
            };
            assert(rest[k] == seq[at]);
            assert(seq[at] < bound);
        }
        assert(rest.no_duplicates()) by {
            assert forall|a: int, b: int|
                0 <= a < rest.len() && 0 <= b < rest.len() && a != b implies rest[a]
                != rest[b] by {
                let at_a = if a < i {
                    a
                } else {
                    a + 1
                };
                let at_b = if b < i {
                    b
                } else {
                    b + 1
                };
                assert(rest[a] == seq[at_a]);
                assert(rest[b] == seq[at_b]);
            }
        }
        lemma_distinct_below(rest, (bound - 1) as nat);
    } else {
        assert forall|k: int| 0 <= k < seq.len() implies #[trigger] seq[k] < bound - 1 by {
            assert(seq[k] < bound);
        }
        lemma_distinct_below(seq, (bound - 1) as nat);
    }
}

/// Nobody owns more kitties than identifiers have been handed out.
pub proof fn law_owned_count_bounded(registry: Registry, owner: u64)
    requires
        registry.wf(),
    ensures
        registry.ownership.owned[owner].len() <= registry.entities.next_id,
{
    let seq = registry.ownership.owned[owner];
    law_index_consistent(registry.ownership);
    assert forall|s: int| 0 <= s < seq.len() implies #[trigger] seq[s]
        < registry.entities.next_id by {
        assert(registry.ownership.owner_of.contains_key(seq[s]));
        assert(registry.entities.genomes.dom().contains(seq[s]));
        assert(registry.entities.genomes.contains_key(seq[s]));
    }
    lemma_distinct_below(seq, registry.entities.next_id);
}

} // verus!
