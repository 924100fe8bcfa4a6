//! The MD5 digest as a mathematical function of the message.

use vstd::prelude::*;
use crate::accumulator::Md5;
use crate::words::{le_bytes_u32, le_bytes_u64, word_from_le};

verus! {

/// The four chaining words `A`, `B`, `C`, `D`.
pub struct Registers {
    pub a: u32,
    pub b: u32,
    pub c: u32,
    pub d: u32,
}

/// The registers held by a sequence of four words.
pub open spec fn registers(words: Seq<u32>) -> Registers {
    Registers { a: words[0], b: words[1], c: words[2], d: words[3] }
}

/// The registers every digest starts from.
pub open spec fn initial_registers() -> Registers {
    registers(Md5::STATE@)
}

/// Addition modulo 2^32.
pub open spec fn add32(x: u32, y: u32) -> u32 {
    ((x + y) % 0x1_0000_0000) as u32
}

/// `x` rotated left by `n` bit positions, for `0 < n < 32`.
pub open spec fn rotl32(x: u32, n: u32) -> u32 {
    (x << n) | (x >> ((32 - n) as u32))
}

/// The bitwise mixing function of step `i`.
pub open spec fn mix(i: int, b: u32, c: u32, d: u32) -> u32 {
    if i < 16 {
        (b & c) | (!b & d)
    } else if i < 32 {
        (d & b) | (!d & c)
    } else if i < 48 {
        b ^ c ^ d
    } else {
        c ^ (b | !d)
    }
}

/// Which of the sixteen message words step `i` reads.
pub open spec fn word_index(i: int) -> int {
    if i < 16 {
        i
    } else if i < 32 {
        (5 * i + 1) % 16
    } else if i < 48 {
        (3 * i + 5) % 16
    } else {
        (7 * i) % 16
    }
}

/// The sixteen little-endian words of a 64-byte block.
pub open spec fn schedule(block: Seq<u8>) -> Seq<u32> {
    Seq::new(
        16,
        |j: int| word_from_le(block[4 * j], block[4 * j + 1], block[4 * j + 2], block[4 * j + 3]),
    )
}

/// Step `i` of the compression function, for `0 <= i < 64`.
pub open spec fn step(r: Registers, m: Seq<u32>, i: int) -> Registers {
    let sum = add32(add32(add32(mix(i, r.b, r.c, r.d), r.a), Md5::K[i]), m[word_index(i)]);
    Registers { a: r.d, b: add32(r.b, rotl32(sum, Md5::S[i])), c: r.b, d: r.c }
}

/// The registers after the first `n` steps.
pub open spec fn steps(r: Registers, m: Seq<u32>, n: nat) -> Registers
    decreases n,
{
    if n == 0 {
        r
    } else {
        step(steps(r, m, (n - 1) as nat), m, n - 1)
    }
}

/// The compression function: 64 steps over the block's words, then a
/// word-wise addition of the incoming registers.
#[verifier::opaque]
pub open spec fn compress(state: Registers, block: Seq<u8>) -> Registers {
    let r = steps(state, schedule(block), 64);
    Registers {
        a: add32(state.a, r.a),
        b: add32(state.b, r.b),
        c: add32(state.c, r.c),
        d: add32(state.d, r.d),
    }
}

impl Registers {
    /// The registers after compressing `block` into these.
    pub open spec fn after(self, block: Seq<u8>) -> Registers {
        compress(self, block)
    }
}

/// The registers after compressing, in order, every 64-byte block of `data`.
/// Bytes after the last whole block are ignored.
#[verifier::opaque]
pub open spec fn absorb(state: Registers, data: Seq<u8>) -> Registers
    decreases data.len(),
{
    if data.len() < 64 {
        state
    } else {
        let whole = data.len() - data.len() % 64;
        compress(absorb(state, data.take(whole - 64)), data.subrange(whole - 64, whole))
    }
}

/// `n` zero bytes.
pub open spec fn zeros(n: nat) -> Seq<u8> {
    Seq::new(n, |i: int| 0u8)
}

/// The length of a `len`-byte message in bits, modulo 2^64.
pub open spec fn bit_length(len: nat) -> u64 {
    ((8 * len) % 0x1_0000_0000_0000_0000) as u64
}

/// How many zero bytes separate the marker from the length field, so that
/// message, marker, zeros and length together fill whole blocks.
pub open spec fn zero_count(len: nat) -> nat {
    let used = len % 64;
    if used <= 55 {
        (55 - used) as nat
    } else {
        (119 - used) as nat
    }
}

/// What is appended to a `len`-byte message: the marker byte `0x80`, zeros,
/// and the bit length as eight little-endian bytes.
pub open spec fn padding(len: nat) -> Seq<u8> {
    seq![0x80u8] + zeros(zero_count(len)) + le_bytes_u64(bit_length(len))
}

/// The sixteen digest bytes: the four registers, each little-endian.
pub open spec fn digest(r: Registers) -> Seq<u8> {
    le_bytes_u32(r.a) + le_bytes_u32(r.b) + le_bytes_u32(r.c) + le_bytes_u32(r.d)
}

/// The MD5 digest of `msg`.
pub open spec fn md5(msg: Seq<u8>) -> Seq<u8> {
    digest(absorb(initial_registers(), msg + padding(msg.len())))
}

} // verus!
