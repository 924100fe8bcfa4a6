//! What holds of the streaming state machine and of the digest, for every
//! input.

use vstd::prelude::*;
use vstd::arithmetic::div_mod::{lemma_add_mod_noop_right, lemma_mul_mod_noop_right};
use crate::model::{absorb, bit_length, digest, initial_registers, md5, padding, zeros, Registers};
use crate::stream::{
    Md5View, advance, close, feed, feed_each, finish, flush, initial, length_field, push, reset,
    stage,
};
use crate::words::{le_bytes_u64, lemma_le_bytes_u32_len, lemma_le_bytes_u64_len};

verus! {

/// Feeding `first` and then `second` leaves the state that feeding their
/// concatenation leaves.
pub proof fn lemma_feed_concat(v: Md5View, first: Seq<u8>, second: Seq<u8>)
    ensures
        feed(feed(v, first), second) == feed(v, first + second),
    decreases second.len(),
{
    if second.len() == 0 {
        assert(first + second =~= first);
    } else {
        lemma_feed_concat(v, first, second.drop_last());
        assert((first + second).drop_last() =~= first + second.drop_last());
        assert((first + second).last() == second.last());
    }
}

/// A piece that fits the staging block may be staged in one step: the result
/// is the state that feeding its bytes one at a time leaves.
pub proof fn lemma_feed_within_block(v: Md5View, piece: Seq<u8>)
    requires
        v.well_formed(),
        v.cursor + piece.len() <= 64,
    ensures
        feed(v, piece) == stage(v, piece),
    decreases piece.len(),
{
    if piece.len() == 0 {
        assert(stage(v, piece).buffer =~= v.buffer);
    } else {
        let front = piece.drop_last();
        lemma_feed_within_block(v, front);
        assert(push(stage(v, front), piece.last()).buffer =~= stage(v, piece).buffer);
    }
}

/// One step of feeding `data` block-wise: where `data[..done]` has been fed,
/// staging the next `len` bytes leaves the state that feeding
/// `data[..done + len]` leaves.
pub proof fn lemma_feed_next_piece(start: Md5View, data: Seq<u8>, done: int, len: int)
    requires
        0 <= done,
        0 <= len,
        done + len <= data.len(),
        feed(start, data.take(done)).well_formed(),
        feed(start, data.take(done)).cursor + len <= 64,
    ensures
        stage(feed(start, data.take(done)), data.subrange(done, done + len)) == feed(
            start,
            data.take(done + len),
        ),
{
    let piece = data.subrange(done, done + len);
    lemma_feed_within_block(feed(start, data.take(done)), piece);
    lemma_feed_concat(start, data.take(done), piece);
    assert(data.take(done) + piece =~= data.take(done + len));
}

/// However a message is cut into consecutive pieces, feeding the pieces one
/// after another leaves the state that feeding the whole message at once
/// leaves.
pub proof fn lemma_feed_pieces(v: Md5View, pieces: Seq<Seq<u8>>)
    ensures
        feed_each(v, pieces) == feed(v, pieces.flatten()),
    decreases pieces.len(),
{
    if pieces.len() == 0 {
        assert(pieces.flatten() =~= Seq::<u8>::empty());
    } else {
        let front = pieces.drop_last();
        lemma_feed_pieces(v, front);
        lemma_feed_concat(v, front.flatten(), pieces.last());
        front.lemma_flatten_push(pieces.last());
        assert(front.push(pieces.last()) =~= pieces);
    }
}

/// Counting `m` bytes and then `n` more counts `m + n` bytes.
proof fn lemma_advance_twice(total: u64, m: nat, n: nat)
    ensures
        advance(advance(total, m), n) == advance(total, m + n),
{
    lemma_add_mod_noop_right(n as int, total + m, 0x1_0000_0000_0000_0000);
}

/// Feeding keeps a state well formed, moves the cursor by the number of bytes
/// modulo 64 and counts every byte.
pub proof fn lemma_feed_counts(v: Md5View, data: Seq<u8>)
    requires
        v.well_formed(),
    ensures
        feed(v, data).well_formed(),
        feed(v, data).cursor == (v.cursor + data.len()) % 64,
        feed(v, data).total == advance(v.total, data.len()),
    decreases data.len(),
{
    if data.len() > 0 {
        let front = data.drop_last();
        lemma_feed_counts(v, front);
        lemma_advance_twice(v.total, front.len(), 1);
        lemma_add_mod_noop_right(1, (v.cursor + front.len()) as int, 64);
    }
}

/// Compressing the staged block, padding and resetting keep a state well
/// formed; after padding nothing or what was staged remains staged.
pub proof fn lemma_transitions_well_formed(v: Md5View)
    requires
        v.well_formed(),
    ensures
        flush(v).well_formed(),
        close(v).well_formed(),
        close(v).cursor == (if v.cursor <= 55 { v.cursor } else { 0 }),
        close(v).total == v.total,
        reset(v).well_formed(),
{
    lemma_le_bytes_u64_len(((8 * v.total) % 0x1_0000_0000_0000_0000) as u64);
}

/// State `v` is the one that absorbing exactly `msg` leads to: the whole
/// blocks of `msg` are compressed, the rest is staged, and all of it is
/// counted.
spec fn tracks(v: Md5View, msg: Seq<u8>) -> bool {
    let staged = (msg.len() % 64) as int;
    &&& v.cursor == staged
    &&& v.buffer.len() == 64
    &&& v.buffer.take(staged) == msg.skip(msg.len() - staged)
    &&& v.state == absorb(initial_registers(), msg.take(msg.len() - staged))
    &&& v.total == msg.len() % 0x1_0000_0000_0000_0000
}

/// Absorbing whole blocks and one more block compresses that block last.
proof fn lemma_absorb_block(state: Registers, blocks: Seq<u8>, block: Seq<u8>)
    requires
        blocks.len() % 64 == 0,
        block.len() == 64,
    ensures
        absorb(state, blocks + block) == absorb(state, blocks).after(block),
{
    reveal(absorb);
    let all = blocks + block;
    assert(all.len() % 64 == 0);
    assert(all.take(all.len() - 64) =~= blocks);
    assert(all.subrange(all.len() - 64, all.len() as int) =~= block);
}

/// The staged bytes after one more byte that does not fill the block.
proof fn lemma_stage_byte(buffer: Seq<u8>, msg: Seq<u8>, staged: int, byte: u8)
    requires
        0 <= staged < 64,
        staged <= msg.len(),
        buffer.len() == 64,
        buffer.take(staged) == msg.skip(msg.len() - staged),
    ensures
        buffer.update(staged, byte).take(staged + 1) == msg.push(byte).skip(msg.len() - staged),
{
    let whole = msg.len() - staged;
    assert forall|j: int| 0 <= j < staged implies buffer[j] == msg[whole + j] by {
        assert(buffer.take(staged)[j] == msg.skip(whole)[j]);
    }
    assert(buffer.update(staged, byte).take(staged + 1) =~= msg.push(byte).skip(whole));
}

/// `tracks` survives one more byte.
proof fn lemma_push_tracks(v: Md5View, msg: Seq<u8>, byte: u8)
    requires
        tracks(v, msg),
    ensures
        tracks(push(v, byte), msg.push(byte)),
{
    let longer = msg.push(byte);
    let next = push(v, byte);
    let staged: int = (msg.len() % 64) as int;
    let whole = msg.len() - staged;
    lemma_stage_byte(v.buffer, msg, staged, byte);
    if staged == 63 {
        assert(longer.len() % 64 == 0);
        assert(next.buffer.take(64) =~= next.buffer);
        assert(msg.take(whole) + next.buffer =~= longer);
        lemma_absorb_block(initial_registers(), msg.take(whole), next.buffer);
        assert(longer.take(longer.len() as int) =~= longer);
        assert(next.buffer.take(0) =~= longer.skip(longer.len() as int));
    } else {
        assert(longer.len() % 64 == staged + 1);
        assert(longer.take(whole) =~= msg.take(whole));
    }
}

/// Feeding `msg` to a new accumulator leads to a state that tracks `msg`.
proof fn lemma_feed_tracks(msg: Seq<u8>)
    ensures
        tracks(feed(initial(), msg), msg),
    decreases msg.len(),
{
    if msg.len() == 0 {
        reveal(absorb);
        assert(initial().buffer.take(0) =~= msg.skip(0));
    } else {
        lemma_feed_tracks(msg.drop_last());
        lemma_push_tracks(feed(initial(), msg.drop_last()), msg.drop_last(), msg.last());
        assert(msg.drop_last().push(msg.last()) =~= msg);
    }
}

/// The length field written from the byte counter is the message's bit
/// length modulo 2^64.
proof fn lemma_counter_gives_bit_length(len: nat)
    ensures
        length_field((len % 0x1_0000_0000_0000_0000) as u64) == le_bytes_u64(bit_length(len)),
{
    lemma_mul_mod_noop_right(8, len as int, 0x1_0000_0000_0000_0000);
}

/// The padded message: the whole blocks of `msg`, then the staged bytes with
/// marker, zeros and length field, in one block or in two.
proof fn lemma_padded_blocks(buffer: Seq<u8>, msg: Seq<u8>)
    requires
        buffer.len() == 64,
        buffer.take((msg.len() % 64) as int) == msg.skip(msg.len() - msg.len() % 64),
    ensures
        ({
            let staged = (msg.len() % 64) as int;
            let head = buffer.take(staged).push(0x80u8);
            let field = le_bytes_u64(bit_length(msg.len()));
            let blocks = msg.take(msg.len() - staged);
            if staged <= 55 {
                msg + padding(msg.len()) == blocks + (head + zeros((55 - staged) as nat) + field)
            } else {
                msg + padding(msg.len()) == blocks + (head + zeros((63 - staged) as nat)) + (zeros(
                    56,
                ) + field)
            }
        }),
{
    let staged = (msg.len() % 64) as int;
    let whole = msg.len() - staged;
    let head = buffer.take(staged).push(0x80u8);
    let field = le_bytes_u64(bit_length(msg.len()));
    let blocks = msg.take(whole);
    let padded = msg + padding(msg.len());
    lemma_le_bytes_u64_len(bit_length(msg.len()));
    assert forall|j: int| 0 <= j < staged implies buffer[j] == msg[whole + j] by {
        assert(buffer.take(staged)[j] == msg.skip(whole)[j]);
    }
    if staged <= 55 {
        assert(padded =~= blocks + (head + zeros((55 - staged) as nat) + field));
    } else {
        assert(padded =~= blocks + (head + zeros((63 - staged) as nat)) + (zeros(56) + field));
    }
}

/// Padding a tracked state and compressing yields the registers of the
/// padded message.
proof fn lemma_close_tracks(v: Md5View, msg: Seq<u8>)
    requires
        tracks(v, msg),
    ensures
        close(v).state == absorb(initial_registers(), msg + padding(msg.len())),
{
    let staged: int = (msg.len() % 64) as int;
    let blocks = msg.take(msg.len() - staged);
    let head = v.buffer.take(staged).push(0x80u8);
    let field = length_field(v.total);
    lemma_counter_gives_bit_length(msg.len());
    lemma_le_bytes_u64_len(bit_length(msg.len()));
    lemma_padded_blocks(v.buffer, msg);
    if staged <= 55 {
        let block = head + zeros((55 - staged) as nat) + field;
        lemma_absorb_block(initial_registers(), blocks, block);
    } else {
        let first = head + zeros((63 - staged) as nat);
        let second = zeros(56) + field;
        lemma_absorb_block(initial_registers(), blocks, first);
        lemma_absorb_block(initial_registers(), blocks + first, second);
    }
}

/// The streaming accumulator computes MD5: feeding `msg` to a new accumulator
/// and finishing yields the digest of `msg`.
pub proof fn lemma_stream_computes_md5(msg: Seq<u8>)
    ensures
        finish(feed(initial(), msg)) == md5(msg),
{
    lemma_feed_tracks(msg);
    lemma_close_tracks(feed(initial(), msg), msg);
}

/// Chunk invariance: the digest depends on the concatenation of the pieces
/// alone, never on where the input was cut.
pub proof fn lemma_pieces_compute_md5(pieces: Seq<Seq<u8>>)
    ensures
        finish(feed_each(initial(), pieces)) == md5(pieces.flatten()),
{
    lemma_feed_pieces(initial(), pieces);
    lemma_stream_computes_md5(pieces.flatten());
}

/// Determinism: the digest is a function of the bytes alone. Two new
/// accumulators that are fed the same bytes, in whatever pieces, finish with
/// the same digest.
pub proof fn lemma_same_input_same_digest(first: Seq<Seq<u8>>, second: Seq<Seq<u8>>)
    requires
        first.flatten() == second.flatten(),
    ensures
        finish(feed_each(initial(), first)) == finish(feed_each(initial(), second)),
{
    lemma_pieces_compute_md5(first);
    lemma_pieces_compute_md5(second);
}

/// A reset accumulator behaves as a new one: whatever was absorbed before the
/// reset, feeding `input` afterwards and finishing yields the digest of
/// `input`.
pub proof fn lemma_reset_restarts(before: Md5View, input: Seq<u8>)
    ensures
        feed(reset(before), input) == feed(initial(), input),
        finish(feed(reset(before), input)) == md5(input),
{
    lemma_stream_computes_md5(input);
}

/// The length field: a padded message fills whole blocks, and its last eight
/// bytes spell the message's length in bits, modulo 2^64, least significant
/// byte first, also where that length needs more than 32 bits. The last block
/// that the accumulator compresses ends in the same eight bytes.
pub proof fn lemma_length_field(msg: Seq<u8>)
    ensures
        (msg + padding(msg.len())).len() % 64 == 0,
        (msg + padding(msg.len())).skip((msg + padding(msg.len())).len() - 8) == le_bytes_u64(
            bit_length(msg.len()),
        ),
        close(feed(initial(), msg)).buffer.skip(56) == le_bytes_u64(bit_length(msg.len())),
        bit_length(msg.len()) == (8 * msg.len()) % 0x1_0000_0000_0000_0000,
{
    let padded = msg + padding(msg.len());
    let field = le_bytes_u64(bit_length(msg.len()));
    let v = feed(initial(), msg);
    lemma_le_bytes_u64_len(bit_length(msg.len()));
    assert(padded.skip(padded.len() - 8) =~= field);
    lemma_feed_tracks(msg);
    lemma_counter_gives_bit_length(msg.len());
    assert(close(v).buffer.skip(56) =~= field);
}

/// A digest has sixteen bytes.
pub proof fn lemma_digest_len(r: Registers)
    ensures
        digest(r).len() == 16,
{
    lemma_le_bytes_u32_len(r.a);
    lemma_le_bytes_u32_len(r.b);
    lemma_le_bytes_u32_len(r.c);
    lemma_le_bytes_u32_len(r.d);
}

} // verus!
