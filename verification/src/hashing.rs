//! How the key of a storage cell becomes the key it is stored under.
//!
//! A cell is declared with one of two schemes. Plain cells are stored under a
//! 128-bit digest of their key, map-like cells under a 256-bit digest. The
//! scheme belongs to the declaration of the cell: a reader has to name the
//! one that the cell was written with, and a wrong one finds nothing.

use crate::codec::{le_bytes, u64_le_bytes};
use vstd::prelude::*;

verus! {

/// The scheme that a storage cell is hashed with.
#[derive(Debug, Clone, Copy, PartialEq, Eq, Structural)]
pub enum Hasher {
    /// 128 bits: two seeded XXH64 digests, for cells without a parameter.
    TWOX128,
    /// 256 bits: BLAKE2b, for cells addressed by a parameter.
    BLAKE2256,
}

/// The XXH64 digest of `data` under `seed`.
pub uninterp spec fn xxhash64(seed: u64, data: Seq<u8>) -> u64;

/// The BLAKE2b digest of `data`, 32 bytes long and without a key.
pub uninterp spec fn blake2b_256(data: Seq<u8>) -> Seq<u8>;

/// The 128-bit digest of `data`: the XXH64 digests under the seeds 0 and 1,
/// each spelt with eight bytes, least significant first.
pub open spec fn twox_128_of(data: Seq<u8>) -> Seq<u8> {
    le_bytes(xxhash64(0, data) as nat, 8) + le_bytes(xxhash64(1, data) as nat, 8)
}

/// The key that the cell with key `key` is stored under.
pub open spec fn physical_key(key: Seq<u8>, hasher: Hasher) -> Seq<u8> {
    match hasher {
        Hasher::TWOX128 => twox_128_of(key),
        Hasher::BLAKE2256 => blake2b_256(key),
    }
}

/// `twox_hash::XxHash64`, seeded by `with_seed`, fed `data` in one `write`
/// and closed by `finish`: the digest depends on the seed and the bytes alone.
#[verifier::external_body]
fn xxhash64_digest(seed: u64, data: &[u8]) -> (r: u64)
    ensures
        r == xxhash64(seed, data@),
{
    let mut state = twox_hash::XxHash64::with_seed(seed);
    std::hash::Hasher::write(&mut state, data);
    std::hash::Hasher::finish(&state)
}

/// `blake2_rfc::blake2b::blake2b` with an output length of 32 and an empty
/// key: the digest depends on the bytes alone and has 32 bytes.
#[verifier::external_body]
fn blake2b_256_digest(data: &[u8]) -> (r: Vec<u8>)
    ensures
        r@ == blake2b_256(data@),
        r@.len() == 32,
{
    blake2_rfc::blake2b::blake2b(32, &[], data).as_bytes().to_vec()
}

/// The 128-bit digest of `data`.
pub fn twox_128(data: &[u8]) -> (r: Vec<u8>)
    ensures
        r@ == twox_128_of(data@),
        r@.len() == 16,
{
    let mut out = u64_le_bytes(xxhash64_digest(0, data));
    let mut high = u64_le_bytes(xxhash64_digest(1, data));
    out.append(&mut high);
    out
}

/// The 256-bit digest of `data`.
pub fn blake2_256(data: &[u8]) -> (r: Vec<u8>)
    ensures
        r@ == blake2b_256(data@),
        r@.len() == 32,
{
    blake2b_256_digest(data)
}

/// Derives the key that a cell is stored under from the key of the cell.
pub fn storage_key(key: &[u8], hasher: Hasher) -> (r: Vec<u8>)
    ensures
        r@ == physical_key(key@, hasher),
        hasher == Hasher::TWOX128 ==> r@.len() == 16,
        hasher == Hasher::BLAKE2256 ==> r@.len() == 32,
{
    match hasher {
        Hasher::TWOX128 => twox_128(key),
        Hasher::BLAKE2256 => blake2_256(key),
    }
}

} // verus!
