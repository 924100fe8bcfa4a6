//! The streaming MD5 accumulator.

use vstd::prelude::*;
use crate::compression::compress;
use crate::laws::{lemma_feed_concat, lemma_feed_next_piece, lemma_stream_computes_md5};
use crate::model::{md5, registers, zeros};
use crate::stream::{Md5View, close, feed, finish, flush, has_absorbed, initial, reset, stage};
use crate::words::{digest_bytes, u64_to_le};

verus! {

/// MD5 hash function.
///
/// MD5 is cryptographically broken and unsuitable for further use where
/// collision resistance matters.
pub struct Md5 {
    total: u64,
    state: [u32; 4],
    cursor: usize,
    buffer: [u8; 64],
}

/// Overwrites `block[from..to]` with zeros.
fn clear(block: &mut [u8; 64], from: usize, to: usize)
    requires
        from <= to <= 64,
    ensures
        final(block)@ == old(block)@.take(from as int) + zeros((to - from) as nat) + old(
            block,
        )@.skip(to as int),
    no_unwind
{
    let mut at: usize = from;
    while at < to
        invariant
            from <= at <= to <= 64,
            forall|j: int| 0 <= j < from || at <= j < 64 ==> block@[j] == old(block)@[j],
            forall|j: int| from <= j < at ==> block@[j] == 0u8,
        decreases to - at,
    {
        block[at] = 0;
        at += 1;
    }
    assert(block@ =~= old(block)@.take(from as int) + zeros((to - from) as nat) + old(block)@.skip(
        to as int,
    ));
}

/// Overwrites the last eight bytes of `block` with `field`.
fn put_length(block: &mut [u8; 64], field: &[u8; 8])
    ensures
        final(block)@ == old(block)@.take(56) + field@,
    no_unwind
{
    let mut k: usize = 0;
    while k < 8
        invariant
            k <= 8,
            forall|j: int| 0 <= j < 56 || 56 + k <= j < 64 ==> block@[j] == old(block)@[j],
            forall|j: int| 0 <= j < k ==> block@[56 + j] == field@[j],
        decreases 8 - k,
    {
        block[56 + k] = field[k];
        k += 1;
    }
    assert(block@ =~= old(block)@.take(56) + field@);
}

/// Copies `src[from..from + len]` over `block[at..at + len]`.
fn copy_in(block: &mut [u8; 64], at: usize, src: &[u8], from: usize, len: usize)
    requires
        at + len <= 64,
        from + len <= src.len(),
    ensures
        final(block)@ == old(block)@.take(at as int) + src@.subrange(from as int, from + len) + old(
            block,
        )@.skip(at + len),
    no_unwind
{
    let mut k: usize = 0;
    while k < len
        invariant
            k <= len,
            at + len <= 64,
            from + len <= src.len(),
            forall|j: int| 0 <= j < at || at + k <= j < 64 ==> block@[j] == old(block)@[j],
            forall|j: int| at <= j < at + k ==> block@[j] == src@[from + (j - at)],
        decreases len - k,
    {
        block[at + k] = src[from + k];
        k += 1;
    }
    assert(block@ =~= old(block)@.take(at as int) + src@.subrange(from as int, from + len) + old(
        block,
    )@.skip(at + len));
}

impl View for Md5 {
    type V = Md5View;

    closed spec fn view(&self) -> Md5View {
        Md5View {
            state: registers(self.state@),
            total: self.total,
            cursor: self.cursor as nat,
            buffer: self.buffer@,
        }
    }
}

impl Md5 {
    /// Per-step left-rotation amounts.
    pub const S: [u32; 64] = [
        7, 12, 17, 22, 7, 12, 17, 22, 7, 12, 17, 22, 7, 12, 17, 22, 5, 9, 14, 20, 5, 9, 14, 20, 5,
        9, 14, 20, 5, 9, 14, 20, 4, 11, 16, 23, 4, 11, 16, 23, 4, 11, 16, 23, 4, 11, 16, 23, 6, 10,
        15, 21, 6, 10, 15, 21, 6, 10, 15, 21, 6, 10, 15, 21,
    ];

    /// Per-step additive constants: `floor(2^32 * abs(sin(i + 1)))`.
    pub const K: [u32; 64] = [
        0xd76aa478, 0xe8c7b756, 0x242070db, 0xc1bdceee, 0xf57c0faf, 0x4787c62a, 0xa8304613,
        0xfd469501, 0x698098d8, 0x8b44f7af, 0xffff5bb1, 0x895cd7be, 0x6b901122, 0xfd987193,
        0xa679438e, 0x49b40821, 0xf61e2562, 0xc040b340, 0x265e5a51, 0xe9b6c7aa, 0xd62f105d,
        0x02441453, 0xd8a1e681, 0xe7d3fbc8, 0x21e1cde6, 0xc33707d6, 0xf4d50d87, 0x455a14ed,
        0xa9e3e905, 0xfcefa3f8, 0x676f02d9, 0x8d2a4c8a, 0xfffa3942, 0x8771f681, 0x6d9d6122,
        0xfde5380c, 0xa4beea44, 0x4bdecfa9, 0xf6bb4b60, 0xbebfbc70, 0x289b7ec6, 0xeaa127fa,
        0xd4ef3085, 0x04881d05, 0xd9d4d039, 0xe6db99e5, 0x1fa27cf8, 0xc4ac5665, 0xf4292244,
        0x432aff97, 0xab9423a7, 0xfc93a039, 0x655b59c3, 0x8f0ccc92, 0xffeff47d, 0x85845dd1,
        0x6fa87e4f, 0xfe2ce6e0, 0xa3014314, 0x4e0811a1, 0xf7537e82, 0xbd3af235, 0x2ad7d2bb,
        0xeb86d391,
    ];

    /// The initial chaining words.
    pub const STATE: [u32; 4] = [0x67452301, 0xefcdab89, 0x98badcfe, 0x10325476];

    /// Between calls fewer than 64 bytes are staged.
    #[verifier::type_invariant]
    spec fn staged_below_block(self) -> bool {
        self.cursor < 64
    }

    /// A new accumulator, which has absorbed nothing.
    pub fn new() -> (fresh: Self)
        ensures
            fresh@ == initial(),
            fresh@.well_formed(),
            has_absorbed(fresh@, Seq::empty()),
    {
        let fresh = Md5 { total: 0, state: Self::STATE, cursor: 0, buffer: [0u8; 64] };
        assert(fresh.buffer@ =~= zeros(64));
        fresh
    }

    /// Compresses the staging block into the registers. Nothing else changes.
    pub fn compute(&mut self)
        ensures
            final(self)@ == flush(old(self)@),
            final(self)@.well_formed(),
    {
        proof {
            use_type_invariant(&*self);
        }
        self.state = compress(self.state, &self.buffer);
    }

    /// Pads what is staged and compresses the one or two blocks that result.
    pub fn compute_padded(&mut self)
        ensures
            final(self)@ == close(old(self)@),
            final(self)@.well_formed(),
    {
        proof {
            use_type_invariant(&*self);
        }
        let staged: usize = self.cursor;
        self.buffer[staged] = 0x80;
        assert(self.buffer@.take(staged + 1) =~= old(self).buffer@.take(staged as int).push(0x80u8));
        if staged > 55 {
            clear(&mut self.buffer, staged + 1, 64);
            assert(self.buffer@ =~= old(self).buffer@.take(staged as int).push(0x80u8) + zeros(
                (63 - staged) as nat,
            ));
            self.compute();
            self.cursor = 0;
            clear(&mut self.buffer, 0, 56);
        } else {
            clear(&mut self.buffer, staged + 1, 56);
        }
        let length = u64_to_le(self.total.wrapping_mul(8));
        put_length(&mut self.buffer, &length);
        assert(self.buffer@ =~= close(old(self)@).buffer);
        self.compute();
    }

    /// Absorbs `data`, as if its bytes had been fed one at a time. Where the
    /// accumulator had absorbed `msg`, it has now absorbed `msg + data`.
    pub fn update(&mut self, data: &[u8])
        ensures
            final(self)@ == feed(old(self)@, data@),
            final(self)@.well_formed(),
            forall|msg: Seq<u8>| #[trigger]
                has_absorbed(old(self)@, msg) ==> has_absorbed(final(self)@, msg + data@),
    {
        let mut done: usize = 0;
        while done < data.len()
            invariant
                done <= data.len(),
                self@ == feed(old(self)@, data@.take(done as int)),
            decreases data.len() - done,
        {
            proof {
                use_type_invariant(&*self);
            }
            let ghost before = self@;
            let room: usize = 64 - self.cursor;
            let rest: usize = data.len() - done;
            let len: usize = if rest < room {
                rest
            } else {
                room
            };
            copy_in(&mut self.buffer, self.cursor, data, done, len);
            self.total = self.total.wrapping_add(len as u64);
            if len == room {
                self.compute();
                self.cursor = 0;
            } else {
                self.cursor += len;
            }
            proof {
                assert(self@ == stage(before, data@.subrange(done as int, done + len)));
                lemma_feed_next_piece(old(self)@, data@, done as int, len as int);
            }
            done += len;
        }
        assert(data@.take(done as int) =~= data@);
        proof {
            use_type_invariant(&*self);
        }
        assert forall|msg: Seq<u8>| #[trigger] has_absorbed(old(self)@, msg) implies has_absorbed(
            self@,
            msg + data@,
        ) by {
            lemma_feed_concat(initial(), msg, data@);
        }
    }

    /// Pads, compresses and returns the digest: the MD5 digest of `msg` where
    /// the accumulator has absorbed `msg`.
    pub fn finalize(self) -> (digest: [u8; 16])
        ensures
            digest@ == finish(self@),
            forall|msg: Seq<u8>| #[trigger] has_absorbed(self@, msg) ==> digest@ == md5(msg),
    {
        let mut closing = self;
        closing.compute_padded();
        proof {
            assert forall|msg: Seq<u8>| #[trigger] has_absorbed(self@, msg) implies finish(self@)
                == md5(msg) by {
                lemma_stream_computes_md5(msg);
            }
        }
        digest_bytes(&closing.state)
    }

    /// Returns the digest as `finalize` does and leaves the accumulator as new.
    pub fn finalize_reset(&mut self) -> (digest: [u8; 16])
        ensures
            digest@ == finish(old(self)@),
            forall|msg: Seq<u8>| #[trigger] has_absorbed(old(self)@, msg) ==> digest@ == md5(msg),
            final(self)@ == reset(old(self)@),
            final(self)@.well_formed(),
            has_absorbed(final(self)@, Seq::empty()),
    {
        self.compute_padded();
        let digest = digest_bytes(&self.state);
        *self = Md5::new();
        proof {
            assert forall|msg: Seq<u8>| #[trigger] has_absorbed(old(self)@, msg) implies finish(
                old(self)@,
            ) == md5(msg) by {
                lemma_stream_computes_md5(msg);
            }
        }
        digest
    }

    /// The MD5 digest of `data`: what a new accumulator yields after one
    /// `update` with all of `data`.
    pub fn hash(data: &[u8]) -> (digest: [u8; 16])
        ensures
            digest@ == md5(data@),
            digest@ == finish(feed(initial(), data@)),
    {
        let mut hasher = Md5::new();
        hasher.update(data);
        proof {
            lemma_stream_computes_md5(data@);
        }
        hasher.finalize()
    }
}

} // verus!
