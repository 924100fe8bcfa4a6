//! The executable compression function.

use vstd::prelude::*;
use crate::accumulator::Md5;
use crate::model;
use crate::model::{Registers, add32, mix, registers, rotl32, schedule, step, steps, word_index};
use crate::words::load_le;

verus! {

/// Adds modulo 2^32.
fn add_mod(x: u32, y: u32) -> (sum: u32)
    ensures
        sum == add32(x, y),
{
    x.wrapping_add(y)
}

/// Rotates `x` left by `n` bit positions.
fn rotate_left(x: u32, n: u32) -> (rotated: u32)
    requires
        0 < n < 32,
    ensures
        rotated == rotl32(x, n),
{
    (x << n) | (x >> (32 - n))
}

/// Reads the sixteen little-endian words of a block.
fn load_schedule(block: &[u8; 64]) -> (words: [u32; 16])
    ensures
        words@ == schedule(block@),
{
    let mut words: [u32; 16] = [0u32; 16];
    let mut j: usize = 0;
    while j < 16
        invariant
            j <= 16,
            forall|k: int| 0 <= k < j ==> words@[k] == schedule(block@)[k],
        decreases 16 - j,
    {
        words[j] = load_le(block[4 * j], block[4 * j + 1], block[4 * j + 2], block[4 * j + 3]);
        j += 1;
    }
    assert(words@ =~= schedule(block@));
    words
}

/// Compresses one 64-byte block into the chaining words.
pub fn compress(state: [u32; 4], block: &[u8; 64]) -> (next: [u32; 4])
    ensures
        registers(next@) == model::compress(registers(state@), block@),
{
    let words = load_schedule(block);
    let mut a: u32 = state[0];
    let mut b: u32 = state[1];
    let mut c: u32 = state[2];
    let mut d: u32 = state[3];
    let mut i: usize = 0;
    while i < 64
        invariant
            i <= 64,
            words@ == schedule(block@),
            (Registers { a, b, c, d }) == steps(registers(state@), words@, i as nat),
        decreases 64 - i,
    {
        let f: u32;
        let g: usize;
        if i < 16 {
            f = (b & c) | ((!b) & d);
            g = i;
        } else if i < 32 {
            f = (d & b) | ((!d) & c);
            g = (5 * i + 1) % 16;
        } else if i < 48 {
            f = b ^ c ^ d;
            g = (3 * i + 5) % 16;
        } else {
            f = c ^ (b | (!d));
            g = (7 * i) % 16;
        }
        assert(f == mix(i as int, b, c, d));
        assert(g == word_index(i as int));
        let sum: u32 = add_mod(add_mod(add_mod(f, a), Md5::K[i]), words[g]);
        let turned: u32 = rotate_left(sum, Md5::S[i]);
        let next_b: u32 = add_mod(b, turned);
        assert((Registers { a: d, b: next_b, c: b, d: c }) == step(
            Registers { a, b, c, d },
            words@,
            i as int,
        ));
        a = d;
        d = c;
        c = b;
        b = next_b;
        i += 1;
    }
    proof {
        reveal(model::compress);
    }
    let next: [u32; 4] = [
        add_mod(state[0], a),
        add_mod(state[1], b),
        add_mod(state[2], c),
        add_mod(state[3], d),
    ];
    next
}

} // verus!
