//! The incremental hashing engine: an internal nibble buffer absorbs
//! arbitrary-length input, complete blocks are flushed into the
//! chaining values as soon as more than one block is buffered, and
//! finalization pads the trailing partial block and closes it with the
//! chunk-end and root flags. The engine's visible state is a function
//! of the nibble stream fed so far, however that stream was split
//! across calls.

use vstd::prelude::*;
use crate::blake3::{
    absorb_block, block_flags, chain_nibbles, compress1, hash_spec, iv_seq, nib_values,
    nibble_block_words, nibbles_valid, pad_nibbles, Blake3ConstantVar,
};
use vstd::arithmetic::div_mod::lemma_small_mod;
use crate::context::ConstraintContext;
use crate::round::{values_of, words_valid};
use crate::u4::U4Var;
use crate::u32::U32Var;

verus! {

broadcast use crate::context::lemma_extends_chain;

/// Chaining over fully consumed blocks only: every block of 128
/// nibbles is compressed with a 64-byte length and no closing flags;
/// only the very first block of a build carries the chunk-start flag.
pub open spec fn chain_full(cv: Seq<u32>, nibs: Seq<u32>, first: bool) -> Seq<u32>
    recommends
        cv.len() == 8,
        nibs.len() % 128 == 0,
    decreases nibs.len(),
{
    if nibs.len() < 128 {
        cv
    } else {
        chain_full(
            compress1(
                cv,
                nibble_block_words(nibs.subrange(0, 128)),
                64u32,
                block_flags(first, false),
            ),
            nibs.subrange(128, nibs.len() as int),
            false,
        )
    }
}

/// Appending one more full block to the consumed stream compresses it
/// onto the chain.
proof fn lemma_chain_full_snoc(cv: Seq<u32>, a: Seq<u32>, block: Seq<u32>, first: bool)
    requires
        a.len() % 128 == 0,
        block.len() == 128,
    ensures
        chain_full(cv, a + block, first) == compress1(
            chain_full(cv, a, first),
            nibble_block_words(block),
            64u32,
            block_flags(first && a.len() == 0, false),
        ),
    decreases a.len(),
{
    if a.len() == 0 {
        assert(a + block =~= block);
        assert(block.subrange(0, 128) =~= block);
        assert(block.subrange(128, 128) =~= Seq::<u32>::empty());
        let c1 = compress1(cv, nibble_block_words(block), 64u32, block_flags(first, false));
        assert(chain_full(cv, a + block, first) == chain_full(c1, block.subrange(128, 128), false));
        assert(chain_full(c1, block.subrange(128, 128), false) == c1);
        assert(chain_full(cv, a, first) == cv);
        assert(block_flags(first && a.len() == 0, false) == block_flags(first, false));
    } else {
        assert(a.len() >= 128) by {
            if a.len() < 128 {
                lemma_small_mod(a.len(), 128);
            }
        }
        assert((a + block).subrange(0, 128) =~= a.subrange(0, 128));
        assert((a + block).subrange(128, (a + block).len() as int) =~= a.subrange(
            128,
            a.len() as int,
        ) + block);
        let c1 = compress1(
            cv,
            nibble_block_words(a.subrange(0, 128)),
            64u32,
            block_flags(first, false),
        );
        assert((a.len() - 128) % 128 == 0) by {
            assert(a.len() - 128 == a.len() - 1 * 128);
            vstd::arithmetic::div_mod::lemma_mod_multiples_vanish(-1, a.len() as int, 128);
        }
        lemma_chain_full_snoc(c1, a.subrange(128, a.len() as int), block, false);
        assert(chain_full(cv, a + block, first) == chain_full(
            c1,
            a.subrange(128, a.len() as int) + block,
            false,
        ));
        assert(chain_full(cv, a, first) == chain_full(c1, a.subrange(128, a.len() as int), false));
        assert(block_flags(false && a.subrange(128, a.len() as int).len() == 0, false)
            == block_flags(first && a.len() == 0, false));
    }
}

/// The whole-stream chain splits into the chain over the consumed full
/// blocks followed by one closing compression of the padded remainder.
proof fn lemma_chain_split(cv: Seq<u32>, consumed: Seq<u32>, buffer: Seq<u32>, first: bool)
    requires
        consumed.len() % 128 == 0,
        consumed.len() > 0 ==> buffer.len() > 0,
        buffer.len() <= 128,
    ensures
        chain_nibbles(cv, consumed + buffer, first) == compress1(
            chain_full(cv, consumed, first),
            nibble_block_words(pad_nibbles(buffer)),
            (buffer.len() / 2) as u32,
            block_flags(first && consumed.len() == 0, true),
        ),
    decreases consumed.len(),
{
    if consumed.len() == 0 {
        assert(consumed + buffer =~= buffer);
    } else {
        assert(consumed.len() >= 128) by {
            if consumed.len() < 128 {
                lemma_small_mod(consumed.len(), 128);
            }
        }
        let total = consumed + buffer;
        assert(total.len() > 128);
        assert(total.subrange(0, 128) =~= consumed.subrange(0, 128));
        assert(total.subrange(128, total.len() as int) =~= consumed.subrange(
            128,
            consumed.len() as int,
        ) + buffer);
        lemma_chain_split(
            compress1(
                cv,
                nibble_block_words(consumed.subrange(0, 128)),
                64u32,
                block_flags(first, false),
            ),
            consumed.subrange(128, consumed.len() as int),
            buffer,
            false,
        );
    }
}

/// The incremental engine: the running chaining values, the number of
/// blocks already compressed, the not-yet-processed nibbles, and the
/// record of the nibble values already consumed.
pub struct Blake3ICChannelVar {
    pub chaining_values: [U32Var; 8],
    pub num_block: usize,
    pub buffer: Vec<U4Var>,
    pub consumed: Ghost<Seq<u32>>,
}

impl Blake3ICChannelVar {
    /// The whole nibble stream fed so far: what was consumed, then what
    /// still waits in the buffer.
    pub open spec fn stream(self) -> Seq<u32> {
        self.consumed@ + nib_values(self.buffer@)
    }

    /// The engine invariant: the buffer holds at most one block and a
    /// whole number of bytes, a flush never empties it, the consumed
    /// stream is whole blocks, and the chaining values are exactly the
    /// chain over the consumed stream.
    pub open spec fn wf(self, cs: ConstraintContext) -> bool {
        &&& words_valid(self.chaining_values@, cs)
        &&& nibbles_valid(self.buffer@, cs)
        &&& self.buffer@.len() <= 128
        &&& self.buffer@.len() % 2 == 0
        &&& self.consumed@.len() == self.num_block * 128
        &&& self.num_block > 0 ==> self.buffer@.len() > 0
        &&& values_of(self.chaining_values@) == chain_full(iv_seq(), self.consumed@, true)
    }

    /// A fresh engine: the chaining values start at the initialization
    /// words, nothing buffered, nothing consumed.
    pub fn new(constant: &Blake3ConstantVar) -> (channel: Self)
        ensures
            forall|cs: ConstraintContext| constant.valid(cs) ==> channel.wf(cs),
            channel.stream() == Seq::<u32>::empty(),
    {
        let channel = Blake3ICChannelVar {
            chaining_values: constant.iv,
            num_block: 0,
            buffer: Vec::new(),
            consumed: Ghost(Seq::empty()),
        };
        proof {
            assert(channel.stream() =~= Seq::<u32>::empty());
            assert(nib_values(channel.buffer@) =~= Seq::<u32>::empty());
        }
        channel
    }
}

/// A copy of a nibble vector; the values are plain copies.
fn copy_nibbles(src: &Vec<U4Var>) -> (r: Vec<U4Var>)
    ensures
        r@ == src@,
{
    let mut r: Vec<U4Var> = Vec::new();
    let mut i: usize = 0;
    while i < src.len()
        invariant
            i <= src@.len(),
            r@ =~= src@.subrange(0, i as int),
        decreases src@.len() - i,
    {
        r.push(src[i]);
        proof {
            assert(r@ =~= src@.subrange(0, i + 1 as int));
        }
        i = i + 1;
    }
    proof {
        assert(r@ =~= src@);
    }
    r
}

/// Append all nibbles of `src` to `dst`.
fn append_nibbles(dst: &mut Vec<U4Var>, src: &Vec<U4Var>)
    ensures
        final(dst)@ == old(dst)@ + src@,
{
    let mut i: usize = 0;
    while i < src.len()
        invariant
            i <= src@.len(),
            dst@ =~= old(dst)@ + src@.subrange(0, i as int),
        decreases src@.len() - i,
    {
        dst.push(src[i]);
        proof {
            assert(dst@ =~= old(dst)@ + src@.subrange(0, i + 1 as int));
        }
        i = i + 1;
    }
    proof {
        assert(dst@ =~= old(dst)@ + src@);
    }
}

/// Drop the first `k` nibbles of a vector.
fn drop_front(v: &Vec<U4Var>, k: usize) -> (r: Vec<U4Var>)
    requires
        k <= v@.len(),
    ensures
        r@ == v@.subrange(k as int, v@.len() as int),
{
    let mut r: Vec<U4Var> = Vec::new();
    let mut i: usize = k;
    while i < v.len()
        invariant
            k <= i <= v@.len(),
            r@ =~= v@.subrange(k as int, i as int),
        decreases v@.len() - i,
    {
        r.push(v[i]);
        proof {
            assert(r@ =~= v@.subrange(k as int, i + 1 as int));
        }
        i = i + 1;
    }
    proof {
        assert(r@ =~= v@.subrange(k as int, v@.len() as int));
    }
    r
}

/// Flush complete blocks out of an overfull buffer: while more than
/// one block is buffered, compress exactly one block and leave the
/// remainder. Hands back the new chaining values, the remaining
/// buffer, the new block count and the grown consumed stream.
#[verifier::rlimit(100)]
fn flush_excess(
    cs: &mut ConstraintContext,
    constant: &Blake3ConstantVar,
    chaining0: [U32Var; 8],
    buffer0: Vec<U4Var>,
    num_block0: usize,
    Ghost(consumed0): Ghost<Seq<u32>>,
) -> (r: ([U32Var; 8], Vec<U4Var>, usize, Ghost<Seq<u32>>))
    requires
        constant.valid(*old(cs)),
        words_valid(chaining0@, *old(cs)),
        nibbles_valid(buffer0@, *old(cs)),
        buffer0@.len() % 2 == 0,
        consumed0.len() == num_block0 * 128,
        values_of(chaining0@) == chain_full(iv_seq(), consumed0, true),
        num_block0 + buffer0@.len() <= usize::MAX - 2,
    ensures
        final(cs).extends(*old(cs)),
        words_valid(r.0@, *final(cs)),
        nibbles_valid(r.1@, *final(cs)),
        r.1@.len() <= 128,
        r.1@.len() % 2 == 0,
        r.3@.len() == r.2 * 128,
        values_of(r.0@) == chain_full(iv_seq(), r.3@, true),
        r.3@ + nib_values(r.1@) == consumed0 + nib_values(buffer0@),
        r.2 >= num_block0,
        r.2 > num_block0 ==> r.1@.len() > 0,
        r.2 == num_block0 ==> r.1@ == buffer0@,
{
    let ghost stream0 = consumed0 + nib_values(buffer0@);
    let mut chaining = chaining0;
    let mut buffer = buffer0;
    let mut num_block = num_block0;
    let ghost mut consumed = consumed0;

    while buffer.len() > 128
        invariant
            cs.extends(*old(cs)),
            constant.valid(*cs),
            nibbles_valid(buffer@, *cs),
            words_valid(chaining@, *cs),
            buffer@.len() % 2 == 0,
            consumed.len() == num_block * 128,
            values_of(chaining@) == chain_full(iv_seq(), consumed, true),
            consumed + nib_values(buffer@) == stream0,
            stream0.len() == num_block0 * 128 + nib_values(buffer0@).len(),
            num_block0 + buffer0@.len() <= usize::MAX - 2,
            num_block >= num_block0,
            num_block > num_block0 ==> buffer@.len() > 0,
            num_block == num_block0 ==> buffer@ == buffer0@,
        decreases buffer@.len(),
    {
        let ghost buffer_before = buffer@;
        let new_chaining = absorb_block(
            cs,
            constant,
            &chaining,
            &buffer,
            0,
            128,
            num_block == 0,
            false,
        );
        chaining = new_chaining;
        let rest = drop_front(&buffer, 128);
        buffer = rest;
        proof {
            let block_vals = nib_values(buffer_before).subrange(0, 128);
            assert(block_vals =~= nib_values(buffer_before.subrange(0, 128)));
            assert(pad_nibbles(block_vals) =~= block_vals);
            lemma_chain_full_snoc(iv_seq(), consumed, block_vals, true);
            assert((consumed.len() == 0) == (num_block == 0));
            consumed = consumed + block_vals;
            assert(nib_values(buffer@) =~= nib_values(buffer_before).subrange(
                128,
                buffer_before.len() as int,
            ));
            assert(consumed + nib_values(buffer@) =~= stream0);
            assert((num_block + 1) * 128 == num_block * 128 + 128);
            assert(num_block * 128 + 128 <= stream0.len());
            assert(num_block + 1 <= num_block0 + buffer0@.len());
        }
        num_block = num_block + 1;
    }
    (chaining, buffer, num_block, Ghost(consumed))
}

impl Blake3ICChannelVar {
    /// Feed nibble limbs into the engine: they join the buffer, and
    /// while more than one block is buffered, one block at a time is
    /// compressed into the chaining values, the chunk-start flag
    /// cleared after the first. The input must be a whole number of
    /// bytes, so an even number of limbs.
    #[verifier::rlimit(100)]
    #[verifier::spinoff_prover]
    pub fn add_assign(
        &mut self,
        cs: &mut ConstraintContext,
        constant: &Blake3ConstantVar,
        limbs: &Vec<U4Var>,
    )
        requires
            old(self).wf(*old(cs)),
            constant.valid(*old(cs)),
            nibbles_valid(limbs@, *old(cs)),
            limbs@.len() % 2 == 0,
            old(self).num_block + old(self).buffer@.len() + limbs@.len() <= usize::MAX - 2,
        ensures
            final(cs).extends(*old(cs)),
            final(self).wf(*final(cs)),
            final(self).stream() == old(self).stream() + nib_values(limbs@),
    {
        let mut buffer = copy_nibbles(&self.buffer);
        append_nibbles(&mut buffer, limbs);
        proof {
            assert(nib_values(buffer@) =~= nib_values(old(self).buffer@) + nib_values(limbs@));
        }

        let (chaining, new_buffer, num_block, consumed) = flush_excess(
            cs,
            constant,
            self.chaining_values,
            buffer,
            self.num_block,
            Ghost(self.consumed@),
        );

        self.chaining_values = chaining;
        self.num_block = num_block;
        self.buffer = new_buffer;
        self.consumed = consumed;
        proof {
            assert(final(self).stream() =~= old(self).stream() + nib_values(limbs@));
        }
    }

    /// Finalize the engine: pad the remaining buffer with zero nibbles
    /// to one block, compress it with the chunk-end and root flags, the
    /// chunk-start flag joining them only when no block was ever
    /// flushed, and hand back the resulting chaining value. The engine
    /// is consumed; the result is the chain over everything ever fed,
    /// the empty stream included.
    pub fn finalize(self, cs: &mut ConstraintContext, constant: &Blake3ConstantVar) -> (r: [
        U32Var; 8])
        requires
            self.wf(*old(cs)),
            constant.valid(*old(cs)),
        ensures
            final(cs).extends(*old(cs)),
            words_valid(r@, *final(cs)),
            values_of(r@) == chain_nibbles(iv_seq(), self.stream(), true),
    {
        let l = self.buffer.len();
        let r = absorb_block(
            cs,
            constant,
            &self.chaining_values,
            &self.buffer,
            0,
            l,
            self.num_block == 0,
            true,
        );
        proof {
            assert(nib_values(self.buffer@).subrange(0, l as int) =~= nib_values(self.buffer@));
            lemma_chain_split(iv_seq(), self.consumed@, nib_values(self.buffer@), true);
            assert((self.consumed@.len() == 0) == (self.num_block == 0));
        }
        r
    }
}

/// The one-shot and incremental engines agree bit for bit on every
/// nonempty input that fits the one-shot engine's block bound: the
/// one-shot result of a stream is exactly the incremental chain that
/// finalizing after feeding that stream returns. On the empty stream
/// alone they differ: the one-shot engine hands back the
/// initialization words while the incremental engine still closes one
/// zero-padded block.
pub proof fn lemma_engines_agree(nibs: Seq<u32>)
    requires
        0 < nibs.len() <= 2176,
    ensures
        hash_spec(nibs) == chain_nibbles(iv_seq(), nibs, true),
{
}

/// The engine's visible state is a function of the nibble stream fed,
/// however that stream was split across calls: two well-formed engines
/// that absorbed the same stream hold the same chaining values, block
/// count and buffered values. Feeding a message one byte at a time
/// therefore ends in the same state as feeding it all at once.
pub proof fn lemma_feed_split_agnostic(
    e1: Blake3ICChannelVar,
    e2: Blake3ICChannelVar,
    cs1: ConstraintContext,
    cs2: ConstraintContext,
)
    requires
        e1.wf(cs1),
        e2.wf(cs2),
        e1.stream() == e2.stream(),
    ensures
        values_of(e1.chaining_values@) == values_of(e2.chaining_values@),
        e1.num_block == e2.num_block,
        nib_values(e1.buffer@) == nib_values(e2.buffer@),
{
    let s = e1.stream();
    let c1 = e1.consumed@.len() as int;
    let c2 = e2.consumed@.len() as int;
    let b1 = nib_values(e1.buffer@).len() as int;
    let b2 = nib_values(e2.buffer@).len() as int;
    assert(c1 + b1 == s.len());
    assert(c2 + b2 == s.len());
    assert(c1 == c2) by {
        if c1 > 0 && c2 > 0 {
            assert(c1 - c2 == b2 - b1);
            assert(-127 <= c1 - c2 <= 127);
            assert(c1 == e1.num_block * 128);
            assert(c2 == e2.num_block * 128);
            assert((e1.num_block - e2.num_block) * 128 == c1 - c2);
        } else if c1 == 0 && c2 > 0 {
            assert(b1 == s.len());
            assert(c2 <= 127);
            assert(e2.num_block >= 1);
            assert(c2 >= 128);
        } else if c2 == 0 && c1 > 0 {
            assert(b2 == s.len());
            assert(c1 <= 127);
            assert(e1.num_block >= 1);
            assert(c1 >= 128);
        }
    }
    assert(e1.consumed@ =~= s.subrange(0, c1));
    assert(e2.consumed@ =~= s.subrange(0, c2));
    assert(nib_values(e1.buffer@) =~= s.subrange(c1, s.len() as int));
    assert(nib_values(e2.buffer@) =~= s.subrange(c2, s.len() as int));
}

} // verus!
