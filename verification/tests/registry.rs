use kitties::error::Error;
use kitties::genome::{combine, Kitty};
use kitties::random::{random_value, ChainContext};
use kitties::registry::Module;

const ALICE: u64 = 7;
const BOB: u64 = 9;

fn context() -> ChainContext {
    let mut seed = [0u8; 32];
    for i in 0..32 {
        seed[i] = i as u8;
    }
    ChainContext { random_seed: seed, extrinsic_index: Some(3), block_number: 42 }
}

fn assert_index_consistent(module: &Module, owners: &[u64]) {
    let index = module.ownership();
    for &owner in owners {
        let owned = module.owned_by(owner);
        assert_eq!(owned.len() as u32, module.owned_kitties_count(owner));
        for (s, &id) in owned.iter().enumerate() {
            assert_eq!(index.slot_of(id), Some(s));
            assert_eq!(module.owner_of(id), Some(owner));
            assert_eq!(module.owned_kitties(owner, s as u32), Some(id));
        }
    }
    for id in 0..module.kitties_count() {
        for &owner in owners {
            assert_eq!(module.owner_of(id) == Some(owner), module.owned_by(owner).contains(&id));
        }
    }
}

#[test]
fn new_registry_has_no_kitties() {
    let module = Module::new();
    assert_eq!(module.kitties_count(), 0);
    assert_eq!(module.kitty(0), None);
    assert_eq!(module.owner_of(0), None);
    assert_eq!(module.owned_by(ALICE), Vec::<u32>::new());
    assert_eq!(module.owned_kitties_count(ALICE), 0);
    assert_eq!(module.owned_kitties(ALICE, 0), None);
    assert_eq!(module.next_kitty_id(), Ok(0));
}

#[test]
fn create_breed_and_transfer() {
    let mut module = Module::new();
    assert_eq!(module.create_kitty_with_dna(ALICE, [0b11110000; 16]), Ok(0));
    assert_eq!(module.create_kitty_with_dna(BOB, [0b11001100; 16]), Ok(1));
    assert_eq!(module.do_breed_with_selector(ALICE, 0, 1, [0b10101010; 16]), Ok(2));
    assert_eq!(module.owner_of(2), Some(ALICE));
    assert_eq!(module.kitty(2), Some(Kitty([0b11100100; 16])));
    assert_eq!(module.owned_by(ALICE), vec![0, 2]);
    assert_eq!(module.owned_by(BOB), vec![1]);
    assert_eq!(module.kitties_count(), 3);

    assert_eq!(module.transfer_kitty(ALICE, BOB, 2), Ok(()));
    assert_eq!(module.owner_of(2), Some(BOB));
    assert!(!module.owned_by(ALICE).contains(&2));
    assert_eq!(module.owned_by(ALICE), vec![0]);
    assert_eq!(module.owned_by(BOB), vec![1, 2]);
    assert_eq!(module.owned_kitties_count(ALICE), 1);
    assert_eq!(module.owned_kitties_count(BOB), 2);
    assert_eq!(module.kitty(2), Some(Kitty([0b11100100; 16])));
    assert_index_consistent(&module, &[ALICE, BOB]);
}

#[test]
fn create_kitty_draws_the_genome_from_the_context() {
    let mut module = Module::new();
    assert_eq!(module.create_kitty(ALICE, &context()), Ok(0));
    assert_eq!(
        module.kitty(0),
        Some(Kitty([214, 73, 239, 119, 254, 117, 22, 155, 181, 223, 220, 52, 44, 158, 230, 206]))
    );
    assert_eq!(module.kitty(0), Some(Kitty(random_value(&context(), &ALICE))));
    assert_eq!(module.owner_of(0), Some(ALICE));
    assert_eq!(module.owned_by(ALICE), vec![0]);
    assert_eq!(module.kitties_count(), 1);
}

#[test]
fn do_breed_draws_the_selector_from_the_context() {
    let mut module = Module::new();
    assert_eq!(module.create_kitty(ALICE, &context()), Ok(0));
    assert_eq!(module.create_kitty(BOB, &context()), Ok(1));
    assert_eq!(module.do_breed(ALICE, 0, 1, &context()), Ok(2));
    assert_eq!(
        module.kitty(2),
        Some(Kitty([214, 73, 239, 255, 254, 119, 247, 223, 183, 223, 255, 117, 60, 254, 246, 254]))
    );
    let parent1 = module.kitty(0).unwrap();
    let parent2 = module.kitty(1).unwrap();
    let selector = random_value(&context(), &ALICE);
    assert_eq!(module.kitty(2), Some(Kitty(combine(&parent1.0, &parent2.0, &selector))));
    assert_eq!(module.owner_of(2), Some(ALICE));
}

#[test]
fn breeding_does_not_ask_who_owns_the_parents() {
    let mut module = Module::new();
    assert_eq!(module.create_kitty_with_dna(ALICE, [1; 16]), Ok(0));
    assert_eq!(module.create_kitty_with_dna(ALICE, [2; 16]), Ok(1));
    assert_eq!(module.do_breed_with_selector(BOB, 1, 0, [0x0f; 16]), Ok(2));
    assert_eq!(module.owner_of(2), Some(BOB));
    assert_eq!(module.kitty(2), Some(Kitty([(2 & 0x0f) | (1 & 0xf0); 16])));
    assert_eq!(module.kitty(0), Some(Kitty([1; 16])));
    assert_eq!(module.kitty(1), Some(Kitty([2; 16])));
}

#[test]
fn breed_with_itself_fails_with_identical_parents() {
    let mut module = Module::new();
    assert_eq!(module.create_kitty_with_dna(ALICE, [5; 16]), Ok(0));
    assert_eq!(module.do_breed_with_selector(ALICE, 0, 0, [0xff; 16]), Err(Error::IdenticalParents));
    assert_eq!(module.do_breed(ALICE, 0, 0, &context()), Err(Error::IdenticalParents));
    assert_eq!(module.kitties_count(), 1);
    assert_eq!(module.kitty(1), None);
    assert_eq!(module.owned_by(ALICE), vec![0]);
    assert_eq!(module.kitty(0), Some(Kitty([5; 16])));
}

#[test]
fn breed_with_an_unknown_parent_fails() {
    let mut module = Module::new();
    assert_eq!(module.do_breed_with_selector(ALICE, 0, 0, [0; 16]), Err(Error::UnknownEntity));
    assert_eq!(module.create_kitty_with_dna(ALICE, [5; 16]), Ok(0));
    assert_eq!(module.do_breed_with_selector(ALICE, 0, 1, [0; 16]), Err(Error::UnknownEntity));
    assert_eq!(module.do_breed_with_selector(ALICE, 1, 0, [0; 16]), Err(Error::UnknownEntity));
    assert_eq!(module.do_breed(ALICE, 3, 3, &context()), Err(Error::UnknownEntity));
    assert_eq!(module.kitties_count(), 1);
    assert_eq!(module.owned_by(ALICE), vec![0]);
}

#[test]
fn identifiers_go_up_by_one_and_are_never_reused() {
    let mut module = Module::new();
    let mut seen = Vec::new();
    for round in 0..50u32 {
        assert_eq!(module.kitties_count(), round);
        let id = module.create_kitty_with_dna(ALICE + (round % 3) as u64, [round as u8; 16]).unwrap();
        assert_eq!(id, round);
        assert!(!seen.contains(&id));
        seen.push(id);
        assert_eq!(module.kitties_count(), round + 1);
    }
    for round in 0..50u32 {
        assert_eq!(module.kitty(round), Some(Kitty([round as u8; 16])));
    }
    assert_index_consistent(&module, &[ALICE, ALICE + 1, ALICE + 2]);
}

#[test]
fn a_failed_operation_does_not_use_up_an_identifier() {
    let mut module = Module::new();
    assert_eq!(module.create_kitty_with_dna(ALICE, [1; 16]), Ok(0));
    assert_eq!(module.do_breed_with_selector(ALICE, 0, 0, [0; 16]), Err(Error::IdenticalParents));
    assert_eq!(module.do_breed_with_selector(ALICE, 0, 9, [0; 16]), Err(Error::UnknownEntity));
    assert_eq!(module.transfer_kitty(BOB, ALICE, 0), Err(Error::NotOwner));
    assert_eq!(module.kitties_count(), 1);
    assert_eq!(module.create_kitty_with_dna(ALICE, [2; 16]), Ok(1));
}

#[test]
fn creation_fails_with_counter_overflow_on_the_boundary_call_not_before() {
    let mut module = Module::new();
    module.insert_kitty(ALICE, u32::MAX - 3, Kitty([1; 16]));
    assert_eq!(module.kitties_count(), u32::MAX - 2);
    assert_eq!(module.create_kitty_with_dna(ALICE, [2; 16]), Ok(u32::MAX - 2));
    assert_eq!(module.create_kitty(BOB, &context()), Ok(u32::MAX - 1));
    assert_eq!(module.kitties_count(), u32::MAX);
    assert_eq!(module.next_kitty_id(), Err(Error::CounterOverflow));
    assert_eq!(module.create_kitty_with_dna(ALICE, [3; 16]), Err(Error::CounterOverflow));
    assert_eq!(module.create_kitty(ALICE, &context()), Err(Error::CounterOverflow));
    assert_eq!(
        module.do_breed_with_selector(ALICE, u32::MAX - 3, u32::MAX - 2, [0; 16]),
        Err(Error::CounterOverflow)
    );
    assert_eq!(
        module.do_breed(ALICE, u32::MAX - 3, u32::MAX - 2, &context()),
        Err(Error::CounterOverflow)
    );
    assert_eq!(module.kitties_count(), u32::MAX);
    assert_eq!(module.owned_by(ALICE), vec![u32::MAX - 3, u32::MAX - 2]);
    assert_eq!(module.owned_by(BOB), vec![u32::MAX - 1]);
    assert_eq!(module.kitty(u32::MAX), None);
}

#[test]
fn insert_kitty_stores_the_kitty_and_sets_the_counter() {
    let mut module = Module::new();
    module.insert_kitty(ALICE, 0, Kitty([9; 16]));
    assert_eq!(module.kitties_count(), 1);
    assert_eq!(module.kitty(0), Some(Kitty([9; 16])));
    assert_eq!(module.owner_of(0), Some(ALICE));
    assert_eq!(module.owned_by(ALICE), vec![0]);
    assert_eq!(module.owned_kitties(ALICE, 0), Some(0));
    assert_eq!(module.owned_kitties_count(ALICE), 1);
    module.insert_kitty(ALICE, 5, Kitty([8; 16]));
    assert_eq!(module.kitties_count(), 6);
    assert_eq!(module.owned_by(ALICE), vec![0, 5]);
    assert_eq!(module.ownership().slot_of(5), Some(1));
}

#[test]
fn transfer_of_an_unknown_kitty_fails() {
    let mut module = Module::new();
    assert_eq!(module.create_kitty_with_dna(ALICE, [1; 16]), Ok(0));
    assert_eq!(module.transfer_kitty(ALICE, BOB, 1), Err(Error::UnknownEntity));
    assert_eq!(module.owner_of(1), None);
    assert_eq!(module.owned_by(ALICE), vec![0]);
    assert_eq!(module.owned_by(BOB), Vec::<u32>::new());
}

#[test]
fn transfer_by_someone_who_is_not_the_owner_fails_and_changes_nothing() {
    let mut module = Module::new();
    for _ in 0..3 {
        module.create_kitty_with_dna(ALICE, [1; 16]).unwrap();
    }
    module.create_kitty_with_dna(BOB, [2; 16]).unwrap();
    assert_eq!(module.transfer_kitty(BOB, ALICE, 1), Err(Error::NotOwner));
    assert_eq!(module.transfer_kitty(BOB, BOB, 1), Err(Error::NotOwner));
    assert_eq!(module.owner_of(1), Some(ALICE));
    assert_eq!(module.owned_by(ALICE), vec![0, 1, 2]);
    assert_eq!(module.owned_by(BOB), vec![3]);
    assert_eq!(module.ownership().slot_of(1), Some(1));
    assert_index_consistent(&module, &[ALICE, BOB]);
}

#[test]
fn transfer_from_an_inner_slot_swaps_in_the_last_kitty() {
    let mut module = Module::new();
    for _ in 0..4 {
        module.create_kitty_with_dna(ALICE, [1; 16]).unwrap();
    }
    module.create_kitty_with_dna(BOB, [2; 16]).unwrap();
    assert_eq!(module.transfer_kitty(ALICE, BOB, 1), Ok(()));
    assert_eq!(module.owned_by(ALICE), vec![0, 3, 2]);
    assert_eq!(module.owned_by(BOB), vec![4, 1]);
    assert_eq!(module.ownership().slot_of(3), Some(1));
    assert_eq!(module.ownership().slot_of(1), Some(1));
    assert_eq!(module.owned_kitties_count(ALICE), 3);
    assert_eq!(module.owned_kitties_count(BOB), 2);
    assert_eq!(module.owner_of(1), Some(BOB));
    assert_index_consistent(&module, &[ALICE, BOB]);
}

#[test]
fn transfer_counts_the_receiver_by_the_receiver() {
    let mut module = Module::new();
    for _ in 0..3 {
        module.create_kitty_with_dna(ALICE, [1; 16]).unwrap();
    }
    assert_eq!(module.transfer_kitty(ALICE, BOB, 0), Ok(()));
    assert_eq!(module.owned_kitties_count(ALICE), 2);
    assert_eq!(module.owned_kitties_count(BOB), 1);
    assert_eq!(module.owned_kitties(BOB, 0), Some(0));
    assert_eq!(module.owned_kitties(BOB, 1), None);
    assert_eq!(module.owned_by(ALICE), vec![2, 1]);
}

#[test]
fn transfer_to_oneself_keeps_what_one_owns() {
    let mut module = Module::new();
    for _ in 0..3 {
        module.create_kitty_with_dna(ALICE, [1; 16]).unwrap();
    }
    module.create_kitty_with_dna(BOB, [2; 16]).unwrap();
    assert_eq!(module.transfer_kitty(ALICE, ALICE, 0), Ok(()));
    let mut owned = module.owned_by(ALICE);
    assert_eq!(owned, vec![2, 1, 0]);
    owned.sort();
    assert_eq!(owned, vec![0, 1, 2]);
    assert_eq!(module.owner_of(0), Some(ALICE));
    assert_eq!(module.owned_kitties_count(ALICE), 3);
    assert_eq!(module.owned_by(BOB), vec![3]);
    assert_eq!(module.transfer_kitty(ALICE, ALICE, 0), Ok(()));
    assert_eq!(module.owned_by(ALICE), vec![2, 1, 0]);
    assert_index_consistent(&module, &[ALICE, BOB]);
}

#[test]
fn index_stays_consistent_through_many_operations() {
    let mut module = Module::new();
    let owners = [ALICE, BOB, 11u64];
    for round in 0..40u32 {
        let owner = owners[(round % 3) as usize];
        module.create_kitty_with_dna(owner, [round as u8; 16]).unwrap();
    }
    for round in 0..40u32 {
        let id = (round * 7) % 40;
        let from = module.owner_of(id).unwrap();
        let to = owners[((round + id) % 3) as usize];
        assert_eq!(module.transfer_kitty(from, to, id), Ok(()));
        assert_eq!(module.owner_of(id), Some(to));
        assert_index_consistent(&module, &owners);
    }
    let total: u32 = owners.iter().map(|&o| module.owned_kitties_count(o)).sum();
    assert_eq!(total, 40);
    assert_eq!(module.kitties_count(), 40);
}
