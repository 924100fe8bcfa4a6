//! Little-endian spelling of 32-bit and 64-bit words.
//!
//! The specifications are arithmetic (digits in base 256); the executable
//! functions use shifts and masks and are proved to agree with them.

use vstd::prelude::*;
use crate::model::{digest, registers};

verus! {

/// The word whose little-endian spelling is `b0 b1 b2 b3`:
/// `b0 + 256 * b1 + 256^2 * b2 + 256^3 * b3`.
pub open spec fn word_from_le(b0: u8, b1: u8, b2: u8, b3: u8) -> u32 {
    (b0 + 0x100 * b1 + 0x1_0000 * b2 + 0x100_0000 * b3) as u32
}

/// The four base-256 digits of `w`, least significant first.
#[verifier::opaque]
pub open spec fn le_bytes_u32(w: u32) -> Seq<u8> {
    seq![
        (w % 0x100) as u8,
        (w / 0x100 % 0x100) as u8,
        (w / 0x1_0000 % 0x100) as u8,
        (w / 0x100_0000 % 0x100) as u8,
    ]
}

/// The eight base-256 digits of `x`, least significant first.
#[verifier::opaque]
pub open spec fn le_bytes_u64(x: u64) -> Seq<u8> {
    seq![
        (x % 0x100) as u8,
        (x / 0x100 % 0x100) as u8,
        (x / 0x1_0000 % 0x100) as u8,
        (x / 0x100_0000 % 0x100) as u8,
        (x / 0x1_0000_0000 % 0x100) as u8,
        (x / 0x100_0000_0000 % 0x100) as u8,
        (x / 0x1_0000_0000_0000 % 0x100) as u8,
        (x / 0x100_0000_0000_0000 % 0x100) as u8,
    ]
}

/// A 32-bit word is spelled with four bytes.
pub proof fn lemma_le_bytes_u32_len(w: u32)
    ensures
        le_bytes_u32(w).len() == 4,
{
    reveal(le_bytes_u32);
}

/// A 64-bit word is spelled with eight bytes.
pub proof fn lemma_le_bytes_u64_len(x: u64)
    ensures
        le_bytes_u64(x).len() == 8,
{
    reveal(le_bytes_u64);
}

/// The four bytes of a word spell that word: reading them back yields it.
pub proof fn lemma_le_bytes_u32_spell(w: u32)
    ensures
        word_from_le(
            le_bytes_u32(w)[0],
            le_bytes_u32(w)[1],
            le_bytes_u32(w)[2],
            le_bytes_u32(w)[3],
        ) == w,
{
    reveal(le_bytes_u32);
    assert(w % 0x100 + 0x100 * (w / 0x100 % 0x100) + 0x1_0000 * (w / 0x1_0000 % 0x100) + 0x100_0000
        * (w / 0x100_0000 % 0x100) == w) by (bit_vector);
}

/// The eight bytes of a word spell that word: byte `k` weighs `256^k`.
pub proof fn lemma_le_bytes_u64_spell(x: u64)
    ensures
        le_bytes_u64(x)[0] + 0x100 * le_bytes_u64(x)[1] + 0x1_0000 * le_bytes_u64(x)[2]
            + 0x100_0000 * le_bytes_u64(x)[3] + 0x1_0000_0000 * le_bytes_u64(x)[4]
            + 0x100_0000_0000 * le_bytes_u64(x)[5] + 0x1_0000_0000_0000 * le_bytes_u64(x)[6]
            + 0x100_0000_0000_0000 * le_bytes_u64(x)[7] == x,
{
    reveal(le_bytes_u64);
    assert(x % 0x100 + 0x100 * (x / 0x100 % 0x100) + 0x1_0000 * (x / 0x1_0000 % 0x100) + 0x100_0000
        * (x / 0x100_0000 % 0x100) + 0x1_0000_0000 * (x / 0x1_0000_0000 % 0x100) + 0x100_0000_0000
        * (x / 0x100_0000_0000 % 0x100) + 0x1_0000_0000_0000 * (x / 0x1_0000_0000_0000 % 0x100)
        + 0x100_0000_0000_0000 * (x / 0x100_0000_0000_0000 % 0x100) == x) by (bit_vector);
}

/// Reads a word from its four little-endian bytes.
pub fn load_le(b0: u8, b1: u8, b2: u8, b3: u8) -> (w: u32)
    ensures
        w == word_from_le(b0, b1, b2, b3),
{
    assert(((b0 as u32) | ((b1 as u32) << 8) | ((b2 as u32) << 16) | ((b3 as u32) << 24)) == b0 as u32
        + 0x100 * (b1 as u32) + 0x1_0000 * (b2 as u32) + 0x100_0000 * (b3 as u32)) by (bit_vector);
    (b0 as u32) | ((b1 as u32) << 8) | ((b2 as u32) << 16) | ((b3 as u32) << 24)
}

/// Spells a 32-bit word as four little-endian bytes.
pub fn u32_to_le(w: u32) -> (bytes: [u8; 4])
    ensures
        bytes@ == le_bytes_u32(w),
{
    assert(w & 0xff == w % 0x100) by (bit_vector);
    assert((w >> 8) & 0xff == w / 0x100 % 0x100) by (bit_vector);
    assert((w >> 16) & 0xff == w / 0x1_0000 % 0x100) by (bit_vector);
    assert((w >> 24) & 0xff == w / 0x100_0000 % 0x100) by (bit_vector);
    let bytes: [u8; 4] = [
        (w & 0xff) as u8,
        ((w >> 8) & 0xff) as u8,
        ((w >> 16) & 0xff) as u8,
        ((w >> 24) & 0xff) as u8,
    ];
    assert(bytes@ =~= le_bytes_u32(w)) by {
        reveal(le_bytes_u32);
    }
    bytes
}

/// Spells a 64-bit word as eight little-endian bytes.
pub fn u64_to_le(x: u64) -> (bytes: [u8; 8])
    ensures
        bytes@ == le_bytes_u64(x),
{
    assert(x & 0xff == x % 0x100) by (bit_vector);
    assert((x >> 8) & 0xff == x / 0x100 % 0x100) by (bit_vector);
    assert((x >> 16) & 0xff == x / 0x1_0000 % 0x100) by (bit_vector);
    assert((x >> 24) & 0xff == x / 0x100_0000 % 0x100) by (bit_vector);
    assert((x >> 32) & 0xff == x / 0x1_0000_0000 % 0x100) by (bit_vector);
    assert((x >> 40) & 0xff == x / 0x100_0000_0000 % 0x100) by (bit_vector);
    assert((x >> 48) & 0xff == x / 0x1_0000_0000_0000 % 0x100) by (bit_vector);
    assert((x >> 56) & 0xff == x / 0x100_0000_0000_0000 % 0x100) by (bit_vector);
    let bytes: [u8; 8] = [
        (x & 0xff) as u8,
        ((x >> 8) & 0xff) as u8,
        ((x >> 16) & 0xff) as u8,
        ((x >> 24) & 0xff) as u8,
        ((x >> 32) & 0xff) as u8,
        ((x >> 40) & 0xff) as u8,
        ((x >> 48) & 0xff) as u8,
        ((x >> 56) & 0xff) as u8,
    ];
    assert(bytes@ =~= le_bytes_u64(x)) by {
        reveal(le_bytes_u64);
    }
    bytes
}

/// Spells the four chaining words as the sixteen digest bytes.
pub fn digest_bytes(state: &[u32; 4]) -> (bytes: [u8; 16])
    ensures
        bytes@ == digest(registers(state@)),
{
    let a = u32_to_le(state[0]);
    let b = u32_to_le(state[1]);
    let c = u32_to_le(state[2]);
    let d = u32_to_le(state[3]);
    let bytes: [u8; 16] = [
        a[0], a[1], a[2], a[3],
        b[0], b[1], b[2], b[3],
        c[0], c[1], c[2], c[3],
        d[0], d[1], d[2], d[3],
    ];
    assert(bytes@ =~= digest(registers(state@))) by {
        lemma_le_bytes_u32_len(state[0]);
        lemma_le_bytes_u32_len(state[1]);
        lemma_le_bytes_u32_len(state[2]);
        lemma_le_bytes_u32_len(state[3]);
    }
    bytes
}

} // verus!
