//! The calls into outside crates, each behind a contract that is assumed, not proved.

use rand::Rng;
use rand::SeedableRng;
use vstd::prelude::*;

verus! {

/// `rand::StdRng`: the seedable generator of the `rand` crate. Opaque here.
#[verifier::external_type_specification]
#[verifier::external_body]
pub struct ExStdRng(rand::StdRng);

/// Bytes `6` and `8` of a version-4 (random) UUID: the high nibble of byte 6
/// is the version, 4, and the two high bits of byte 8 are `10`, the RFC 4122
/// variant.
pub open spec fn is_random_version(bytes: Seq<u8>) -> bool {
    &&& bytes.len() == 16
    &&& bytes[6] / 16 == 4
    &&& bytes[8] / 64 == 2
}

/// The block of 16 bytes that a generator gives at its `k`-th draw of 16
/// bytes from now (counted from 0). It is a function of the generator's
/// state: ISAAC's output follows from its state alone.
pub uninterp spec fn rng_block(rng: rand::StdRng, k: nat) -> Seq<u8>;

/// The block of 16 bytes that `rand` 0.4's `StdRng`, made from `seed` on a
/// machine whose words have `word_bits` bits, gives at its draw number
/// `index` (counted from 0) of 16 bytes. `StdRng` is ISAAC-64 where words
/// have 64 bits and ISAAC where they have 32; either is a fixed function of
/// its seed, so this depends on nothing else. (Seeds that differ only in
/// trailing zeros, or past their 256th word, give the same blocks.)
pub uninterp spec fn seeded_block(word_bits: nat, seed: Seq<usize>, index: nat) -> Seq<u8>;

/// Calls `<rand::StdRng as rand::SeedableRng<&[usize]>>::from_seed`. The
/// crate documents that generators made from one seed yield one sequence:
/// the new generator gives the blocks of `seed`'s sequence from the first
/// on. It does not panic for any seed.
#[verifier::external_body]
pub(crate) fn rng_from_seed(seed: &[usize]) -> (rng: rand::StdRng)
    ensures
        forall|k: nat|
            #[trigger] rng_block(rng, k) == seeded_block(usize::BITS as nat, seed@, k),
{
    rand::StdRng::from_seed(seed)
}

/// Calls `rand::Rng::fill_bytes` on a buffer of 16 bytes and returns the
/// buffer: the generator's next block (two `next_u64` draws). The
/// generator moves on by that one block. It does not panic or unwind.
#[verifier::external_body]
pub(crate) fn rng_next_16(rng: &mut rand::StdRng) -> (bytes: [u8; 16])
    ensures
        bytes@ == rng_block(*old(rng), 0),
        forall|k: nat| #[trigger] rng_block(*final(rng), k) == rng_block(*old(rng), k + 1),
    no_unwind
{
    let mut bytes = [0u8; 16];
    rng.fill_bytes(&mut bytes);
    bytes
}

/// Calls `uuid::Uuid::new_v4` and returns its bytes. The bytes are random;
/// what holds of every outcome is that the version nibble is 4 and the
/// variant is RFC 4122 (the crate masks those bits in). The crate panics
/// when the operating system gives no random bytes; that is not excluded here.
#[verifier::external_body]
pub(crate) fn random_v4_bytes() -> (bytes: [u8; 16])
    ensures
        is_random_version(bytes@),
{
    *uuid::Uuid::new_v4().as_bytes()
}

/// Calls `String::push`: appends one character. The bound on the length
/// keeps the string's byte length (at most four bytes per character) far
/// below `isize::MAX`, where `push` would panic.
#[verifier::external_body]
pub(crate) fn string_push(s: &mut String, c: char)
    requires
        old(s)@.len() < usize::MAX / 8,
    ensures
        final(s)@ == old(s)@.push(c),
{
    s.push(c)
}

} // verus!
