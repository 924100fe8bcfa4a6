//! The streaming accumulator as a state machine.

use vstd::prelude::*;
use crate::model::{Registers, compress, digest, initial_registers, zeros};
use crate::words::le_bytes_u64;

verus! {

/// What an accumulator holds, as plain values.
pub struct Md5View {
    /// The chaining registers.
    pub state: Registers,
    /// The number of bytes fed so far, modulo 2^64.
    pub total: u64,
    /// How many bytes of `buffer` wait for their block to fill.
    pub cursor: nat,
    /// The 64-byte staging block.
    pub buffer: Seq<u8>,
}

impl Md5View {
    /// Between calls fewer than 64 bytes are staged, in a block of 64.
    pub open spec fn well_formed(self) -> bool {
        self.cursor < 64 && self.buffer.len() == 64
    }
}

/// The state of a new accumulator.
pub open spec fn initial() -> Md5View {
    Md5View { state: initial_registers(), total: 0, cursor: 0, buffer: zeros(64) }
}

/// `total + n` modulo 2^64.
pub open spec fn advance(total: u64, n: nat) -> u64 {
    ((total + n) % 0x1_0000_0000_0000_0000) as u64
}

/// The state after one more byte: the byte is counted and staged, and a block
/// that it completes is compressed at once.
pub open spec fn push(v: Md5View, byte: u8) -> Md5View {
    let buffer = v.buffer.update(v.cursor as int, byte);
    let total = advance(v.total, 1);
    if v.cursor + 1 == 64 {
        Md5View { state: compress(v.state, buffer), total, cursor: 0, buffer }
    } else {
        Md5View { state: v.state, total, cursor: v.cursor + 1, buffer }
    }
}

/// The state after the bytes of `data`, pushed one after another.
pub open spec fn feed(v: Md5View, data: Seq<u8>) -> Md5View
    decreases data.len(),
{
    if data.len() == 0 {
        v
    } else {
        push(feed(v, data.drop_last()), data.last())
    }
}

/// The state after a piece that fits the staging block, taken as one step:
/// the piece is counted and staged behind what is staged already, and a
/// block that it completes is compressed.
pub open spec fn stage(v: Md5View, piece: Seq<u8>) -> Md5View {
    let end = v.cursor + piece.len();
    let buffer = v.buffer.take(v.cursor as int) + piece + v.buffer.skip(end as int);
    let total = advance(v.total, piece.len());
    if end == 64 {
        Md5View { state: compress(v.state, buffer), total, cursor: 0, buffer }
    } else {
        Md5View { state: v.state, total, cursor: end, buffer }
    }
}

/// State `v` is what a new accumulator reaches by absorbing exactly `msg`.
pub open spec fn has_absorbed(v: Md5View, msg: Seq<u8>) -> bool {
    v == feed(initial(), msg)
}

/// The state after each piece of `pieces` was fed in turn.
pub open spec fn feed_each(v: Md5View, pieces: Seq<Seq<u8>>) -> Md5View
    decreases pieces.len(),
{
    if pieces.len() == 0 {
        v
    } else {
        feed(feed_each(v, pieces.drop_last()), pieces.last())
    }
}

/// The state with its staging block compressed into the registers.
pub open spec fn flush(v: Md5View) -> Md5View {
    Md5View { state: compress(v.state, v.buffer), ..v }
}

/// The length field: eight times `total` modulo 2^64, little-endian.
pub open spec fn length_field(total: u64) -> Seq<u8> {
    le_bytes_u64(((8 * total) % 0x1_0000_0000_0000_0000) as u64)
}

/// The state after padding: the marker goes behind the staged bytes; if the
/// length field still fits, zeros and the length field complete the block;
/// otherwise zeros complete it, and a second block holds 56 zeros and the
/// length field. Each completed block is compressed.
pub open spec fn close(v: Md5View) -> Md5View {
    let staged = v.buffer.take(v.cursor as int).push(0x80u8);
    if v.cursor <= 55 {
        let block = staged + zeros((55 - v.cursor) as nat) + length_field(v.total);
        Md5View { state: compress(v.state, block), buffer: block, ..v }
    } else {
        let first = staged + zeros((63 - v.cursor) as nat);
        let second = zeros(56) + length_field(v.total);
        Md5View {
            state: compress(compress(v.state, first), second),
            total: v.total,
            cursor: 0,
            buffer: second,
        }
    }
}

/// The digest that finishing in state `v` produces.
pub open spec fn finish(v: Md5View) -> Seq<u8> {
    digest(close(v).state)
}

/// The state after a reset: that of a new accumulator, whatever came before.
pub open spec fn reset(v: Md5View) -> Md5View {
    initial()
}

} // verus!
