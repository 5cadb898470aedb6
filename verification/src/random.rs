//! Where a new genome comes from: a digest of what the chain offers as
//! entropy, of the account that asks, and of where in the chain it asks.

use parity_scale_codec::Encode;
use vstd::bytes::{spec_u32_to_le_bytes, spec_u64_to_le_bytes};
use vstd::prelude::*;

verus! {

/// What the chain knows at the moment a genome is drawn.
#[derive(Clone, Copy, Debug, PartialEq, Eq)]
pub struct ChainContext {
    /// The chain's current random seed.
    pub random_seed: [u8; 32],
    /// The position in its block of the extrinsic being run, if one is.
    pub extrinsic_index: Option<u32>,
    /// The number of the block being built.
    pub block_number: u64,
}

/// The bytes that are digested: the seed as it stands, the sender in eight
/// little-endian bytes, the extrinsic index as a zero byte where there is
/// none and else a one byte and four little-endian bytes, and the block
/// number in eight little-endian bytes.
pub open spec fn payload(
    random_seed: Seq<u8>,
    sender: u64,
    extrinsic_index: Option<u32>,
    block_number: u64,
) -> Seq<u8> {
    random_seed + spec_u64_to_le_bytes(sender) + (match extrinsic_index {
        Some(index) => seq![1u8] + spec_u32_to_le_bytes(index),
        None => seq![0u8],
    }) + spec_u64_to_le_bytes(block_number)
}

/// The BLAKE2b digest of `data`, sixteen bytes long and without a key.
pub uninterp spec fn blake2_128_digest(data: Seq<u8>) -> Seq<u8>;

/// `sp_crypto_hashing::blake2_128` hashes its argument with unkeyed BLAKE2b
/// at a digest length of sixteen bytes. Taken on trust: the bytes returned
/// depend on the bytes given and on nothing else.
pub assume_specification[ sp_crypto_hashing::blake2_128 ](data: &[u8]) -> (digest: [u8; 16])
    ensures
        digest@ == blake2_128_digest(data@),
;

/// `parity_scale_codec::Encode::encode` on the tuple of seed, sender,
/// extrinsic index and block number. Taken on trust: a tuple is encoded as
/// its fields in order, a byte array as its bytes, an integer of fixed width
/// in little-endian order, and an option as a zero byte or as a one byte
/// before the value.
#[verifier::external_body]
fn encode_payload(
    random_seed: &[u8; 32],
    sender: &u64,
    extrinsic_index: Option<u32>,
    block_number: u64,
) -> (bytes: Vec<u8>)
    ensures
        bytes@ == payload(random_seed@, *sender, extrinsic_index, block_number),
{
    (random_seed, sender, extrinsic_index, block_number).encode()
}

/// The genome that `sender` draws in `context`.
pub open spec fn drawn(context: ChainContext, sender: u64) -> Seq<u8> {
    blake2_128_digest(
        payload(context.random_seed@, sender, context.extrinsic_index, context.block_number),
    )
}

/// Draws sixteen bytes for `sender` from what the chain offers in `context`.
pub fn random_value(context: &ChainContext, sender: &u64) -> (dna: [u8; 16])
    ensures
        dna@ == drawn(*context, *sender),
{
    let bytes = encode_payload(
        &context.random_seed,
        sender,
        context.extrinsic_index,
        context.block_number,
    );
    sp_crypto_hashing::blake2_128(bytes.as_slice())
}

} // verus!
