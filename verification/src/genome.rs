//! Genomes and the rule by which two of them are mixed.

use vstd::prelude::*;

verus! {

/// A kitty: its genome, fixed at birth.
#[derive(Clone, Copy, Debug, PartialEq, Eq)]
pub struct Kitty(pub [u8; 16]);

impl View for Kitty {
    type V = Seq<u8>;

    open spec fn view(&self) -> Seq<u8> {
        self.0@
    }
}

/// Bit `b` of `byte`, counted from the least significant one.
pub open spec fn bit(byte: u8, b: u8) -> bool {
    (byte >> b) & 1 == 1
}

/// The byte that takes each bit from `dna1` where `selector` has a one and
/// from `dna2` where it has a zero.
pub open spec fn combined_byte(dna1: u8, dna2: u8, selector: u8) -> u8 {
    (dna1 & selector) | (dna2 & !selector)
}

/// Every bit of the combined byte comes from the parent that the selector
/// names at that position.
pub proof fn lemma_combined_byte_bits(dna1: u8, dna2: u8, selector: u8, b: u8)
    by (bit_vector)
    requires
        b < 8,
    ensures
        bit(combined_byte(dna1, dna2, selector), b) == (if bit(selector, b) {
            bit(dna1, b)
        } else {
            bit(dna2, b)
        }),
{
}

/// Mixes one byte of each parent under one byte of the selector.
pub fn combine_dna(dna1: u8, dna2: u8, selector: u8) -> (child: u8)
    ensures
        child == combined_byte(dna1, dna2, selector),
        forall|b: u8|
            b < 8 ==> #[trigger] bit(child, b) == (if bit(selector, b) {
                bit(dna1, b)
            } else {
                bit(dna2, b)
            }),
{
    let child: u8 = (dna1 & selector) | (dna2 & !selector);
    proof {
        assert forall|b: u8| b < 8 implies #[trigger] bit(child, b) == (if bit(selector, b) {
            bit(dna1, b)
        } else {
            bit(dna2, b)
        }) by {
            lemma_combined_byte_bits(dna1, dna2, selector, b);
        }
    }
    child
}

/// The genome whose byte at each position is the combined byte of the three
/// bytes at that position.
pub open spec fn combined(parent1: Seq<u8>, parent2: Seq<u8>, selector: Seq<u8>) -> Seq<u8> {
    Seq::new(16, |i: int| combined_byte(parent1[i], parent2[i], selector[i]))
}

/// Mixes two genomes under a selector, byte by byte.
pub fn combine(parent1: &[u8; 16], parent2: &[u8; 16], selector: &[u8; 16]) -> (child: [u8; 16])
    ensures
        child@ == combined(parent1@, parent2@, selector@),
{
    let mut child: [u8; 16] = [0u8; 16];
    let mut i: usize = 0;
    while i < 16
        invariant
            i <= 16,
            forall|j: int|
                0 <= j < i ==> child@[j] == combined_byte(parent1@[j], parent2@[j], selector@[j]),
        decreases 16 - i,
    {
        child[i] = combine_dna(parent1[i], parent2[i], selector[i]);
        i += 1;
    }
    assert(child@ =~= combined(parent1@, parent2@, selector@));
    child
}

} // verus!
