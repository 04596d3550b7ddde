//! The one-shot hashing engine and the compression schedule it shares
//! with the incremental one: the fixed initialization words, the
//! per-block flag word, seven rounds per 512-bit block, and the XOR
//! fold of the two state halves into the next chaining value.
//!
//! The one-shot engine takes its whole input up front, bounded to a
//! small number of blocks, and derives the chunk-start and chunk-end
//! flags from how much input is left rather than from engine state.

use vstd::prelude::*;
use crate::context::ConstraintContext;
use crate::lookup_table::LookupTableVar;
use crate::round::{msg_permute, round, round_state, values_of, words_valid};
use crate::compact::U32CompactVar;
use crate::u4::U4Var;
use crate::u32::U32Var;

verus! {

/// The eight fixed initialization words of the algorithm.
pub open spec fn iv_seq() -> Seq<u32> {
    seq![
        0x6a09e667u32,
        0xbb67ae85u32,
        0x3c6ef372u32,
        0xa54ff53au32,
        0x510e527fu32,
        0x9b05688cu32,
        0x1f83d9abu32,
        0x5be0cd19u32,
    ]
}

/// The flag word of one block: the chunk-start bit on the first block,
/// the chunk-end and root bits together on the final block.
pub open spec fn block_flags(first: bool, last: bool) -> u32 {
    ((if first {
        1int
    } else {
        0int
    }) + (if last {
        10int
    } else {
        0int
    })) as u32
}

/// The state and message schedule after `n` rounds.
pub open spec fn rounds_spec(s: Seq<u32>, m: Seq<u32>, n: nat) -> (Seq<u32>, Seq<u32>)
    decreases n,
{
    if n == 0 {
        (s, m)
    } else {
        let (s1, m1) = rounds_spec(s, m, (n - 1) as nat);
        (round_state(s1, m1), msg_permute(m1))
    }
}

/// One compression: chaining values and the first four initialization
/// words and counter, length and flag words form the 16-word state;
/// seven rounds run; the new chaining values are the XOR fold of the
/// two state halves.
#[verifier::opaque]
pub open spec fn compress1(cv: Seq<u32>, block: Seq<u32>, len_bytes: u32, flags: u32) -> Seq<u32>
    recommends
        cv.len() == 8,
        block.len() == 16,
{
    let s0 = cv + iv_seq().subrange(0, 4) + seq![0u32, 0u32, len_bytes, flags];
    let folded = rounds_spec(s0, block, 7);
    Seq::new(8, |i: int| folded.0[i] ^ folded.0[i + 8])
}

/// A chunk of up to sixteen words, zero-padded to a full block.
pub open spec fn pad_words(chunk: Seq<u32>) -> Seq<u32>
    recommends
        chunk.len() <= 16,
{
    chunk + Seq::new((16 - chunk.len()) as nat, |i: int| 0u32)
}

/// Chaining over word chunks: every full chunk of sixteen words is
/// compressed with a 64-byte length, and the final, possibly partial,
/// chunk with its own byte length and the closing flags.
pub open spec fn chain_chunks(cv: Seq<u32>, msg: Seq<u32>, first: bool) -> Seq<u32>
    recommends
        cv.len() == 8,
    decreases msg.len(),
{
    if msg.len() == 0 {
        cv
    } else if msg.len() <= 16 {
        compress1(cv, pad_words(msg), (msg.len() * 4) as u32, block_flags(first, true))
    } else {
        chain_chunks(
            compress1(cv, msg.subrange(0, 16), 64u32, block_flags(first, false)),
            msg.subrange(16, msg.len() as int),
            false,
        )
    }
}

/// The chaining value that absorbing a whole word message yields: the
/// fixed initialization words seed the chain, and an empty message
/// leaves them untouched.
pub open spec fn blake3ic_spec(msg: Seq<u32>) -> Seq<u32> {
    chain_chunks(iv_seq(), msg, true)
}

/// The values a sequence of constrained nibbles stands for.
pub open spec fn nib_values(s: Seq<U4Var>) -> Seq<u32> {
    Seq::new(s.len(), |i: int| s[i].value)
}

/// Every nibble of a sequence is valid for the given context.
pub open spec fn nibbles_valid(s: Seq<U4Var>, cs: ConstraintContext) -> bool {
    forall|i: int| 0 <= i < s.len() ==> (#[trigger] s[i]).valid(cs)
}

/// The word eight nibble values stand for, least significant first.
pub open spec fn word_of_nibs(l: Seq<u32>) -> u32
    recommends
        l.len() == 8,
{
    (l[0] + l[1] * 16 + l[2] * 256 + l[3] * 4096 + l[4] * 65536 + l[5] * 1048576 + l[6] * 16777216
        + l[7] * 268435456) as u32
}

/// The sixteen words of one block, read out of 128 nibble values.
pub open spec fn nibble_block_words(nibs: Seq<u32>) -> Seq<u32>
    recommends
        nibs.len() == 128,
{
    Seq::new(16, |i: int| word_of_nibs(nibs.subrange(8 * i, 8 * i + 8)))
}

/// A partial block of nibble values, zero-padded to a full block.
pub open spec fn pad_nibbles(nibs: Seq<u32>) -> Seq<u32>
    recommends
        nibs.len() <= 128,
{
    nibs + Seq::new((128 - nibs.len()) as nat, |i: int| 0u32)
}

/// Chaining over a nibble stream: every full block of 128 nibbles is
/// compressed with a 64-byte length, and the final, possibly partial,
/// block with its own byte length and the closing flags. A stream of
/// up to one block, the empty stream included, is a single closing
/// block.
pub open spec fn chain_nibbles(cv: Seq<u32>, nibs: Seq<u32>, first: bool) -> Seq<u32>
    recommends
        cv.len() == 8,
    decreases nibs.len(),
{
    if nibs.len() <= 128 {
        compress1(
            cv,
            nibble_block_words(pad_nibbles(nibs)),
            (nibs.len() / 2) as u32,
            block_flags(first, true),
        )
    } else {
        chain_nibbles(
            compress1(
                cv,
                nibble_block_words(nibs.subrange(0, 128)),
                64u32,
                block_flags(first, false),
            ),
            nibs.subrange(128, nibs.len() as int),
            false,
        )
    }
}

/// The flag word is assembled by toggling disjoint bits, so the toggles
/// add up.
pub proof fn lemma_flag_values()
    by (bit_vector)
    ensures
        0u32 ^ 1u32 == 1u32,
        0u32 ^ 2u32 == 2u32,
        1u32 ^ 2u32 == 3u32,
        2u32 ^ 8u32 == 10u32,
        3u32 ^ 8u32 == 11u32,
{
}

/// A capability for anything whose nibble limbs can be fed to a hashing
/// engine: a nibble is one limb, a word its eight limbs in order.
pub trait ToU4LimbVar {
    /// The nibble values this value stands for, in feeding order.
    spec fn limb_values(&self) -> Seq<u32>;

    /// The produced limbs will be valid wherever this value is.
    spec fn limbs_valid_for(&self, cs: ConstraintContext) -> bool;

    /// The nibble limbs of this value, in feeding order.
    fn to_u4_limbs(&self) -> (r: Vec<U4Var>)
        ensures
            nib_values(r@) == self.limb_values(),
            forall|cs: ConstraintContext|
                self.limbs_valid_for(cs) ==> nibbles_valid(r@, cs),
    ;
}

impl ToU4LimbVar for U4Var {
    open spec fn limb_values(&self) -> Seq<u32> {
        seq![self.value]
    }

    open spec fn limbs_valid_for(&self, cs: ConstraintContext) -> bool {
        self.valid(cs)
    }

    fn to_u4_limbs(&self) -> (r: Vec<U4Var>) {
        let mut r: Vec<U4Var> = Vec::new();
        r.push(*self);
        proof {
            assert(nib_values(r@) =~= self.limb_values());
        }
        r
    }
}

impl ToU4LimbVar for U32Var {
    open spec fn limb_values(&self) -> Seq<u32> {
        Seq::new(8, |i: int| self.limbs[i].value)
    }

    open spec fn limbs_valid_for(&self, cs: ConstraintContext) -> bool {
        self.valid(cs)
    }

    fn to_u4_limbs(&self) -> (r: Vec<U4Var>) {
        let mut r: Vec<U4Var> = Vec::new();
        r.push(self.limbs[0]);
        r.push(self.limbs[1]);
        r.push(self.limbs[2]);
        r.push(self.limbs[3]);
        r.push(self.limbs[4]);
        r.push(self.limbs[5]);
        r.push(self.limbs[6]);
        r.push(self.limbs[7]);
        proof {
            assert(nib_values(r@) =~= self.limb_values());
        }
        r
    }
}

impl ToU4LimbVar for Vec<U32Var> {
    open spec fn limb_values(&self) -> Seq<u32> {
        Seq::new(8 * self@.len(), |i: int| self@[i / 8].limbs[i % 8].value)
    }

    open spec fn limbs_valid_for(&self, cs: ConstraintContext) -> bool {
        words_valid(self@, cs)
    }

    fn to_u4_limbs(&self) -> (r: Vec<U4Var>) {
        let mut r: Vec<U4Var> = Vec::new();
        let mut i: usize = 0;
        while i < self.len()
            invariant
                i <= self@.len(),
                r@.len() == 8 * i,
                forall|k: int|
                    0 <= k < 8 * i ==> (#[trigger] r@[k]) == self@[k / 8].limbs[k % 8],
            decreases self@.len() - i,
        {
            let w = self[i];
            r.push(w.limbs[0]);
            r.push(w.limbs[1]);
            r.push(w.limbs[2]);
            r.push(w.limbs[3]);
            r.push(w.limbs[4]);
            r.push(w.limbs[5]);
            r.push(w.limbs[6]);
            r.push(w.limbs[7]);
            i = i + 1;
        }
        proof {
            assert(nib_values(r@) =~= self.limb_values());
            assert forall|cs: ConstraintContext| self.limbs_valid_for(cs) implies nibbles_valid(
                r@,
                cs,
            ) by {
                assert forall|k: int| 0 <= k < r@.len() implies (#[trigger] r@[k]).valid(cs) by {
                    assert(r@[k] == self@[k / 8].limbs[k % 8]);
                    assert(self@[k / 8].valid(cs));
                }
            }
        }
        r
    }
}

/// The constants every build allocates once: the lookup tables, a zero
/// word, and the eight initialization words.
pub struct Blake3ConstantVar {
    pub table: LookupTableVar,
    pub zero_u32: U32Var,
    pub iv: [U32Var; 8],
}

impl Blake3ConstantVar {
    /// The tables and constant words are valid and hold their fixed
    /// values.
    pub open spec fn valid(self, cs: ConstraintContext) -> bool {
        &&& self.table.valid(cs)
        &&& self.zero_u32.valid(cs)
        &&& self.zero_u32.value_spec() == 0
        &&& words_valid(self.iv@, cs)
        &&& values_of(self.iv@) == iv_seq()
    }

    pub fn new(cs: &mut ConstraintContext) -> (constant: Self)
        ensures
            final(cs).extends(*old(cs)),
            constant.valid(*final(cs)),
    {
        let table = LookupTableVar::new_constant(cs);
        let zero_u32 = U32Var::new_constant(cs, 0);
        let iv0 = U32Var::new_constant(cs, 0x6a09e667u32);
        let iv1 = U32Var::new_constant(cs, 0xbb67ae85u32);
        let iv2 = U32Var::new_constant(cs, 0x3c6ef372u32);
        let iv3 = U32Var::new_constant(cs, 0xa54ff53au32);
        let iv4 = U32Var::new_constant(cs, 0x510e527fu32);
        let iv5 = U32Var::new_constant(cs, 0x9b05688cu32);
        let iv6 = U32Var::new_constant(cs, 0x1f83d9abu32);
        let iv7 = U32Var::new_constant(cs, 0x5be0cd19u32);
        let iv: [U32Var; 8] = [iv0, iv1, iv2, iv3, iv4, iv5, iv6, iv7];
        proof {
            assert(values_of(iv@) =~= iv_seq());
        }
        Blake3ConstantVar { table, zero_u32, iv }
    }
}

/// One compression on constrained words: the 16-word state is the
/// chaining values, the first four initialization words, two zero
/// words, the block byte length and the flag word; seven rounds run;
/// the new chaining values are the XOR fold of the two state halves.
#[verifier::rlimit(100)]
pub fn compress_var(
    cs: &mut ConstraintContext,
    constant: &Blake3ConstantVar,
    chaining: &[U32Var; 8],
    block: Vec<U32Var>,
    len_bytes: u32,
    flags: u32,
) -> (r: [U32Var; 8])
    requires
        constant.valid(*old(cs)),
        words_valid(chaining@, *old(cs)),
        block@.len() == 16,
        words_valid(block@, *old(cs)),
    ensures
        final(cs).extends(*old(cs)),
        words_valid(r@, *final(cs)),
        values_of(r@) == compress1(values_of(chaining@), values_of(block@), len_bytes, flags),
{
    let mut states: Vec<U32Var> = Vec::new();
    states.push(chaining[0]);
    states.push(chaining[1]);
    states.push(chaining[2]);
    states.push(chaining[3]);
    states.push(chaining[4]);
    states.push(chaining[5]);
    states.push(chaining[6]);
    states.push(chaining[7]);
    states.push(constant.iv[0]);
    states.push(constant.iv[1]);
    states.push(constant.iv[2]);
    states.push(constant.iv[3]);
    states.push(constant.zero_u32);
    states.push(constant.zero_u32);
    let len_var = U32Var::new_constant(cs, len_bytes);
    states.push(len_var);
    let flags_var = U32Var::new_constant(cs, flags);
    states.push(flags_var);

    let mut msg = block;

    proof {
        assert(values_of(states@) =~= values_of(chaining@) + iv_seq().subrange(0, 4) + seq![
            0u32,
            0u32,
            len_bytes,
            flags,
        ]);
    }
    let ghost s0 = values_of(states@);
    let ghost m0 = values_of(msg@);

    let mut i: usize = 0;
    while i < 7
        invariant
            i <= 7,
            states@.len() == 16,
            msg@.len() == 16,
            words_valid(states@, *cs),
            words_valid(msg@, *cs),
            table_ok(constant, *cs),
            (values_of(states@), values_of(msg@)) == rounds_spec(s0, m0, i as nat),
            cs.extends(*old(cs)),
        decreases 7 - i,
    {
        let ghost cs_before = *cs;
        round(cs, &constant.table, &mut states, &mut msg);
        i = i + 1;
    }

    let x0 = states[0].bitxor(cs, &constant.table, &states[8]);
    let x1 = states[1].bitxor(cs, &constant.table, &states[9]);
    let x2 = states[2].bitxor(cs, &constant.table, &states[10]);
    let x3 = states[3].bitxor(cs, &constant.table, &states[11]);
    let x4 = states[4].bitxor(cs, &constant.table, &states[12]);
    let x5 = states[5].bitxor(cs, &constant.table, &states[13]);
    let x6 = states[6].bitxor(cs, &constant.table, &states[14]);
    let x7 = states[7].bitxor(cs, &constant.table, &states[15]);
    let r: [U32Var; 8] = [x0, x1, x2, x3, x4, x5, x6, x7];
    proof {
        reveal(compress1);
        assert(values_of(r@) =~= compress1(
            values_of(chaining@),
            values_of(block@),
            len_bytes,
            flags,
        ));
    }
    r
}

/// The lookup tables of a constant set stay valid: this is the part of
/// the constant set's validity a round call needs inside a loop.
pub open spec fn table_ok(constant: &Blake3ConstantVar, cs: ConstraintContext) -> bool {
    constant.table.valid(cs)
}

/// The nibble stream a one-shot hash absorbs: an empty input leaves the
/// chaining values at the fixed initialization words, and anything else
/// is chained block by block.
pub open spec fn hash_spec(nibs: Seq<u32>) -> Seq<u32> {
    if nibs.len() == 0 {
        iv_seq()
    } else {
        chain_nibbles(iv_seq(), nibs, true)
    }
}

/// The zero nibble of the build's constant set.
fn zero_nibble(constant: &Blake3ConstantVar, Ghost(cs): Ghost<ConstraintContext>) -> (z: U4Var)
    requires
        constant.valid(cs),
    ensures
        z.valid(cs),
        z.value == 0,
{
    let z = constant.zero_u32.limbs[0];
    proof {
        crate::u32::lemma_value_in_range(constant.zero_u32);
    }
    z
}

/// Pack 128 nibble limbs into the sixteen words of one block.
fn block_words_from_nibbles(nibs: &Vec<U4Var>) -> (words: Vec<U32Var>)
    requires
        nibs@.len() == 128,
    ensures
        words@.len() == 16,
        values_of(words@) == nibble_block_words(nib_values(nibs@)),
        forall|cs: ConstraintContext|
            nibbles_valid(nibs@, cs) ==> words_valid(words@, cs),
{
    let mut words: Vec<U32Var> = Vec::new();
    let mut i: usize = 0;
    while i < 16
        invariant
            i <= 16,
            words@.len() == i,
            nibs@.len() == 128,
            forall|k: int|
                0 <= k < i ==> (#[trigger] words@[k]).limbs@ =~= nibs@.subrange(8 * k, 8 * k + 8),
        decreases 16 - i,
    {
        let w = U32Var {
            limbs: [
                nibs[i * 8],
                nibs[i * 8 + 1],
                nibs[i * 8 + 2],
                nibs[i * 8 + 3],
                nibs[i * 8 + 4],
                nibs[i * 8 + 5],
                nibs[i * 8 + 6],
                nibs[i * 8 + 7],
            ],
        };
        proof {
            assert(w.limbs@ =~= nibs@.subrange(8 * i, 8 * i + 8));
        }
        words.push(w);
        i = i + 1;
    }
    proof {
        assert forall|k: int| 0 <= k < 16 implies values_of(words@)[k] == nibble_block_words(
            nib_values(nibs@),
        )[k] by {
            assert(nib_values(nibs@).subrange(8 * k, 8 * k + 8) =~= nib_values(
                words@[k].limbs@,
            ));
        }
        assert(values_of(words@) =~= nibble_block_words(nib_values(nibs@)));
    }
    words
}

/// The `l` nibble limbs of the input at the given position.
fn take_limbs(limbs: &Vec<U4Var>, pos: usize, l: usize, Ghost(cs): Ghost<ConstraintContext>) -> (r:
    Vec<U4Var>)
    requires
        nibbles_valid(limbs@, cs),
        pos + l <= limbs@.len(),
    ensures
        r@ == limbs@.subrange(pos as int, pos + l as int),
        nibbles_valid(r@, cs),
{
    let n = limbs.len();
    let mut r: Vec<U4Var> = Vec::new();
    let mut j: usize = 0;
    while j < l
        invariant
            j <= l,
            n == limbs@.len(),
            pos + l <= n,
            nibbles_valid(limbs@, cs),
            r@ =~= limbs@.subrange(pos as int, pos + j as int),
        decreases l - j,
    {
        r.push(limbs[pos + j]);
        proof {
            assert(r@ =~= limbs@.subrange(pos as int, pos + j + 1 as int));
        }
        j = j + 1;
    }
    proof {
        assert(nibbles_valid(r@, cs));
    }
    r
}

/// One zero-padded block of nibble limbs, read out of the input at the
/// given position.
fn padded_block(
    constant: &Blake3ConstantVar,
    limbs: &Vec<U4Var>,
    pos: usize,
    l: usize,
    Ghost(cs): Ghost<ConstraintContext>,
) -> (block: Vec<U4Var>)
    requires
        constant.valid(cs),
        nibbles_valid(limbs@, cs),
        pos + l <= limbs@.len(),
        l <= 128,
    ensures
        block@.len() == 128,
        nibbles_valid(block@, cs),
        nib_values(block@) == pad_nibbles(nib_values(limbs@).subrange(pos as int, pos + l as int)),
{
    let mut block = take_limbs(limbs, pos, l, Ghost(cs));
    let ghost taken = block@;
    let zero = zero_nibble(constant, Ghost(cs));
    while block.len() < 128
        invariant
            taken.len() == l,
            l <= block@.len() <= 128,
            l <= 128,
            zero.valid(cs),
            zero.value == 0,
            nibbles_valid(taken, cs),
            block@.subrange(0, l as int) =~= taken,
            forall|k: int| l <= k < block@.len() ==> (#[trigger] block@[k]) == zero,
        decreases 128 - block@.len(),
    {
        block.push(zero);
    }
    proof {
        assert(nibbles_valid(block@, cs)) by {
            assert forall|i: int| 0 <= i < block@.len() implies (#[trigger] block@[i]).valid(
                cs,
            ) by {
                if i < l {
                    assert(block@[i] == taken[i]);
                }
            }
        }
        assert(nib_values(block@) =~= pad_nibbles(nib_values(taken))) by {
            assert forall|i: int| 0 <= i < 128 implies nib_values(block@)[i] == pad_nibbles(
                nib_values(taken),
            )[i] by {
                if i < l {
                    assert(block@[i] == taken[i]);
                }
            }
        }
        assert(nib_values(taken) =~= nib_values(limbs@).subrange(pos as int, pos + l as int));
    }
    block
}

/// The eight-word result of a hash.
#[derive(Clone, Copy)]
pub struct Blake3HashVar {
    pub hash: [U32Var; 8],
}

impl Blake3HashVar {
    pub open spec fn valid(self, cs: ConstraintContext) -> bool {
        words_valid(self.hash@, cs)
    }

    /// The eight word values of the hash.
    pub open spec fn values(self) -> Seq<u32> {
        values_of(self.hash@)
    }

    /// The nibble limb values of the hash, word by word, low limb
    /// first: the stream re-hashing this hash absorbs.
    pub open spec fn limb_values_spec(self) -> Seq<u32> {
        Seq::new(64, |i: int| self.hash[i / 8].limbs[i % 8].value)
    }
}

/// Absorb one block: the `l` nibbles at `pos`, zero-padded to a full
/// block, compressed into the chaining values with the given flags and
/// the block's byte length.
#[verifier::rlimit(100)]
pub fn absorb_block(
    cs: &mut ConstraintContext,
    constant: &Blake3ConstantVar,
    chaining: &[U32Var; 8],
    u4_limbs: &Vec<U4Var>,
    pos: usize,
    l: usize,
    first: bool,
    last: bool,
) -> (r: [U32Var; 8])
    requires
        constant.valid(*old(cs)),
        words_valid(chaining@, *old(cs)),
        nibbles_valid(u4_limbs@, *old(cs)),
        pos + l <= u4_limbs@.len(),
        l <= 128,
    ensures
        final(cs).extends(*old(cs)),
        words_valid(r@, *final(cs)),
        values_of(r@) == compress1(
            values_of(chaining@),
            nibble_block_words(pad_nibbles(nib_values(u4_limbs@).subrange(pos as int, pos + l as int))),
            (l / 2) as u32,
            block_flags(first, last),
        ),
{
    let block_nibs = padded_block(constant, u4_limbs, pos, l, Ghost(*cs));
    let block_words = block_words_from_nibbles(&block_nibs);

    let mut d: u32 = 0;
    if first {
        d = d ^ 1;
    }
    if last {
        d = d ^ 2;
        d = d ^ 8;
    }
    proof {
        lemma_flag_values();
        assert(d == block_flags(first, last));
    }

    let len_bytes: u32 = (l as u32) / 2;
    compress_var(cs, constant, chaining, block_words, len_bytes, d)
}

/// Absorb everything from `pos` on: one block at a time, the last one
/// padded and closed.
fn hash_rest(
    cs: &mut ConstraintContext,
    constant: &Blake3ConstantVar,
    chaining: [U32Var; 8],
    u4_limbs: &Vec<U4Var>,
    pos: usize,
    first: bool,
) -> (r: [U32Var; 8])
    requires
        constant.valid(*old(cs)),
        words_valid(chaining@, *old(cs)),
        nibbles_valid(u4_limbs@, *old(cs)),
        pos < u4_limbs@.len(),
    ensures
        final(cs).extends(*old(cs)),
        words_valid(r@, *final(cs)),
        values_of(r@) == chain_nibbles(
            values_of(chaining@),
            nib_values(u4_limbs@).subrange(pos as int, u4_limbs@.len() as int),
            first,
        ),
    decreases u4_limbs@.len() - pos,
{
    let ghost nibs = nib_values(u4_limbs@);
    let ghost rest = nibs.subrange(pos as int, u4_limbs@.len() as int);
    let n = u4_limbs.len();
    let remaining = n - pos;
    let l = if remaining < 128 {
        remaining
    } else {
        128
    };
    let last = remaining <= 128;

    let cv = absorb_block(cs, constant, &chaining, u4_limbs, pos, l, first, last);
    if last {
        proof {
            assert(rest =~= nibs.subrange(pos as int, pos + l as int));
        }
        cv
    } else {
        proof {
            assert(pad_nibbles(nibs.subrange(pos as int, pos + 128 as int)) =~= nibs.subrange(
                pos as int,
                pos + 128 as int,
            ));
            assert(rest.subrange(0, 128) =~= nibs.subrange(pos as int, pos + 128 as int));
            assert(rest.subrange(128, rest.len() as int) =~= nibs.subrange(pos + 128, n as int));
        }
        hash_rest(cs, constant, cv, u4_limbs, pos + 128, false)
    }
}

/// The one-shot engine on bare nibble limbs: absorb a fully buffered
/// input of at most seventeen blocks, block by block, deriving the
/// chunk-start flag from standing at the first block and the closing
/// flags from having nothing left.
pub fn hash_limbs(
    cs: &mut ConstraintContext,
    constant: &Blake3ConstantVar,
    u4_limbs: Vec<U4Var>,
) -> (r: Blake3HashVar)
    requires
        constant.valid(*old(cs)),
        nibbles_valid(u4_limbs@, *old(cs)),
        u4_limbs@.len() % 2 == 0,
        u4_limbs@.len() <= 2176,
    ensures
        final(cs).extends(*old(cs)),
        r.valid(*final(cs)),
        r.values() == hash_spec(nib_values(u4_limbs@)),
{
    if u4_limbs.len() == 0 {
        return Blake3HashVar { hash: constant.iv };
    }
    let ghost nibs = nib_values(u4_limbs@);
    proof {
        assert(nibs.subrange(0, u4_limbs@.len() as int) =~= nibs);
    }
    let chaining = hash_rest(cs, constant, constant.iv, &u4_limbs, 0, true);
    Blake3HashVar { hash: chaining }
}

/// The one-shot engine over anything that yields nibble limbs.
pub fn hash<T: ToU4LimbVar>(cs: &mut ConstraintContext, constant: &Blake3ConstantVar, v: &T) -> (r:
    Blake3HashVar)
    requires
        constant.valid(*old(cs)),
        v.limbs_valid_for(*old(cs)),
        v.limb_values().len() % 2 == 0,
        v.limb_values().len() <= 2176,
    ensures
        final(cs).extends(*old(cs)),
        r.valid(*final(cs)),
        r.values() == hash_spec(v.limb_values()),
{
    let u4_limbs = v.to_u4_limbs();
    hash_limbs(cs, constant, u4_limbs)
}

impl Blake3HashVar {
    /// Absorb another hash: the limbs of both hashes, this one first,
    /// are re-hashed as one sixteen-word input.
    pub fn add_assign(
        &mut self,
        cs: &mut ConstraintContext,
        constant: &Blake3ConstantVar,
        rhs: &Blake3HashVar,
    )
        requires
            old(self).valid(*old(cs)),
            rhs.valid(*old(cs)),
            constant.valid(*old(cs)),
        ensures
            final(cs).extends(*old(cs)),
            final(self).valid(*final(cs)),
            final(self).values() == hash_spec(
                old(self).limb_values_spec() + rhs.limb_values_spec(),
            ),
    {
        let mut limbs: Vec<U4Var> = Vec::new();
        let mut i: usize = 0;
        while i < 8
            invariant
                i <= 8,
                old(self).valid(*old(cs)),
                nibbles_valid(limbs@, *old(cs)),
                limbs@.len() == 8 * i,
                forall|k: int|
                    0 <= k < 8 * i ==> (#[trigger] limbs@[k]) == old(self).hash[k / 8].limbs[k % 8],
            decreases 8 - i,
        {
            let w = self.hash[i];
            limbs.push(w.limbs[0]);
            limbs.push(w.limbs[1]);
            limbs.push(w.limbs[2]);
            limbs.push(w.limbs[3]);
            limbs.push(w.limbs[4]);
            limbs.push(w.limbs[5]);
            limbs.push(w.limbs[6]);
            limbs.push(w.limbs[7]);
            i = i + 1;
        }
        let mut j: usize = 0;
        while j < 8
            invariant
                j <= 8,
                old(self).valid(*old(cs)),
                rhs.valid(*old(cs)),
                nibbles_valid(limbs@, *old(cs)),
                limbs@.len() == 64 + 8 * j,
                forall|k: int|
                    0 <= k < 64 ==> (#[trigger] limbs@[k]) == old(self).hash[k / 8].limbs[k % 8],
                forall|k: int|
                    64 <= k < 64 + 8 * j ==> (#[trigger] limbs@[k]) == rhs.hash[(k - 64) / 8].limbs[
                        (k - 64) % 8],
            decreases 8 - j,
    {
            let w = rhs.hash[j];
            limbs.push(w.limbs[0]);
            limbs.push(w.limbs[1]);
            limbs.push(w.limbs[2]);
            limbs.push(w.limbs[3]);
            limbs.push(w.limbs[4]);
            limbs.push(w.limbs[5]);
            limbs.push(w.limbs[6]);
            limbs.push(w.limbs[7]);
            j = j + 1;
        }
        proof {
            assert(nib_values(limbs@) =~= old(self).limb_values_spec() + rhs.limb_values_spec());
        }
        let r = hash_limbs(cs, constant, limbs);
        *self = r;
    }
}

/// The eight-word hash carried in compact form: one compact stack
/// element per word, to shrink what must travel through the target
/// machine's native operations.
#[derive(Clone, Copy)]
pub struct Blake3CompactHashVar {
    pub hash: [U32CompactVar; 8],
}

impl Blake3CompactHashVar {
    pub open spec fn valid(self, cs: ConstraintContext) -> bool {
        forall|i: int| 0 <= i < 8 ==> (#[trigger] self.hash[i]).valid(cs)
    }

    /// The eight word values of the hash.
    pub open spec fn values(self) -> Seq<u32> {
        Seq::new(8, |i: int| self.hash[i].value)
    }

    /// Pack each word of a hash into compact form; the values carry
    /// over unchanged.
    pub fn from_hash_var(cs: &mut ConstraintContext, value: &Blake3HashVar) -> (r: Self)
        requires
            value.valid(*old(cs)),
        ensures
            final(cs).extends(*old(cs)),
            r.valid(*final(cs)),
            r.values() == value.values(),
    {
        let c0 = U32CompactVar::from_u32var(cs, &value.hash[0]);
        let c1 = U32CompactVar::from_u32var(cs, &value.hash[1]);
        let c2 = U32CompactVar::from_u32var(cs, &value.hash[2]);
        let c3 = U32CompactVar::from_u32var(cs, &value.hash[3]);
        let c4 = U32CompactVar::from_u32var(cs, &value.hash[4]);
        let c5 = U32CompactVar::from_u32var(cs, &value.hash[5]);
        let c6 = U32CompactVar::from_u32var(cs, &value.hash[6]);
        let c7 = U32CompactVar::from_u32var(cs, &value.hash[7]);
        let r = Blake3CompactHashVar { hash: [c0, c1, c2, c3, c4, c5, c6, c7] };
        proof {
            assert(r.values() =~= value.values());
        }
        r
    }

    /// Unpack the compact hash back into nibble form; the values carry
    /// over unchanged.
    pub fn to_hash_var(&self, cs: &mut ConstraintContext) -> (r: Blake3HashVar)
        requires
            self.valid(*old(cs)),
        ensures
            final(cs).extends(*old(cs)),
            r.valid(*final(cs)),
            r.values() == self.values(),
    {
        let w0 = self.hash[0].to_u32var(cs);
        let w1 = self.hash[1].to_u32var(cs);
        let w2 = self.hash[2].to_u32var(cs);
        let w3 = self.hash[3].to_u32var(cs);
        let w4 = self.hash[4].to_u32var(cs);
        let w5 = self.hash[5].to_u32var(cs);
        let w6 = self.hash[6].to_u32var(cs);
        let w7 = self.hash[7].to_u32var(cs);
        let r = Blake3HashVar { hash: [w0, w1, w2, w3, w4, w5, w6, w7] };
        proof {
            assert(r.values() =~= self.values());
        }
        r
    }
}

/// The eight nibble values of one word, least significant first.
pub open spec fn word_nibs(x: u32) -> Seq<u32> {
    seq![
        x & 15,
        (x >> 4u32) & 15,
        (x >> 8u32) & 15,
        (x >> 12u32) & 15,
        (x >> 16u32) & 15,
        (x >> 20u32) & 15,
        (x >> 24u32) & 15,
        (x >> 28u32) & 15,
    ]
}

/// The nibble stream a sequence of words stands for: each word's eight
/// limbs in order.
pub open spec fn words_nibbles(msg: Seq<u32>) -> Seq<u32>
    decreases msg.len(),
{
    if msg.len() == 0 {
        Seq::empty()
    } else {
        word_nibs(msg[0]) + words_nibbles(msg.subrange(1, msg.len() as int))
    }
}

/// Flattening distributes over concatenation.
proof fn lemma_words_nibbles_add(a: Seq<u32>, b: Seq<u32>)
    ensures
        words_nibbles(a + b) == words_nibbles(a) + words_nibbles(b),
    decreases a.len(),
{
    if a.len() == 0 {
        assert(a + b =~= b);
        assert(words_nibbles(a) + words_nibbles(b) =~= words_nibbles(b));
    } else {
        let t = a + b;
        assert(t.len() > 0);
        assert(t[0] == a[0]);
        assert(t.subrange(1, t.len() as int) =~= a.subrange(1, a.len() as int) + b);
        lemma_words_nibbles_add(a.subrange(1, a.len() as int), b);
        assert(words_nibbles(a + b) =~= words_nibbles(a) + words_nibbles(b));
    }
}

/// The flattened stream is eight nibbles per word.
proof fn lemma_words_nibbles_len(msg: Seq<u32>)
    ensures
        words_nibbles(msg).len() == 8 * msg.len(),
    decreases msg.len(),
{
    if msg.len() > 0 {
        lemma_words_nibbles_len(msg.subrange(1, msg.len() as int));
    }
}

/// Recombining the eight nibbles of a word gives the word back.
proof fn lemma_word_nibs_roundtrip(x: u32)
    ensures
        word_of_nibs(word_nibs(x)) == x,
{
    crate::u32::lemma_nib_recompose(x);
}

/// The block words read out of a flattened, padded word chunk are the
/// padded chunk itself.
proof fn lemma_block_words_of_chunk(chunk: Seq<u32>)
    requires
        chunk.len() <= 16,
    ensures
        nibble_block_words(pad_nibbles(words_nibbles(chunk))) == pad_words(chunk),
    decreases 16 - chunk.len(),
{
    lemma_words_nibbles_len(chunk);
    if chunk.len() == 16 {
        assert(pad_nibbles(words_nibbles(chunk)) =~= words_nibbles(chunk));
        assert(pad_words(chunk) =~= chunk);
        lemma_full_blocks_of_words(chunk);
    } else {
        let wider = chunk.push(0u32);
        lemma_block_words_of_chunk(wider);
        assert(pad_words(wider) =~= pad_words(chunk));
        assert(wider =~= chunk + seq![0u32]);
        lemma_words_nibbles_add(chunk, seq![0u32]);
        assert(words_nibbles(seq![0u32]) =~= word_nibs(0u32)) by {
            assert(seq![0u32].subrange(1, 1) =~= Seq::<u32>::empty());
            assert(word_nibs(0u32) + words_nibbles(Seq::<u32>::empty()) =~= word_nibs(0u32));
        }
        assert(word_nibs(0u32) =~= Seq::new(8, |i: int| 0u32)) by {
            lemma_zero_nibs();
        }
        assert(pad_nibbles(words_nibbles(wider)) =~= pad_nibbles(words_nibbles(chunk)));
    }
}

/// Every nibble of the zero word is zero.
proof fn lemma_zero_nibs()
    by (bit_vector)
    ensures
        0u32 & 15 == 0u32,
        (0u32 >> 4u32) & 15 == 0u32,
        (0u32 >> 8u32) & 15 == 0u32,
        (0u32 >> 12u32) & 15 == 0u32,
        (0u32 >> 16u32) & 15 == 0u32,
        (0u32 >> 20u32) & 15 == 0u32,
        (0u32 >> 24u32) & 15 == 0u32,
        (0u32 >> 28u32) & 15 == 0u32,
{
}

/// The block words read out of sixteen flattened words are those
/// sixteen words.
proof fn lemma_full_blocks_of_words(chunk: Seq<u32>)
    requires
        chunk.len() == 16,
    ensures
        nibble_block_words(words_nibbles(chunk)) == chunk,
{
    lemma_words_nibbles_len(chunk);
    assert forall|k: int| 0 <= k < 16 implies nibble_block_words(words_nibbles(chunk))[k]
        == chunk[k] by {
        let pre = chunk.subrange(0, k);
        let post = chunk.subrange(k + 1, 16);
        assert(chunk =~= pre + seq![chunk[k]] + post);
        lemma_words_nibbles_add(pre + seq![chunk[k]], post);
        lemma_words_nibbles_add(pre, seq![chunk[k]]);
        lemma_words_nibbles_len(pre);
        lemma_words_nibbles_len(post);
        assert(words_nibbles(seq![chunk[k]]) =~= word_nibs(chunk[k])) by {
            assert(seq![chunk[k]].subrange(1, 1) =~= Seq::<u32>::empty());
            assert(word_nibs(chunk[k]) + words_nibbles(Seq::<u32>::empty()) =~= word_nibs(
                chunk[k],
            ));
        }
        assert(words_nibbles(chunk).subrange(8 * k, 8 * k + 8) =~= word_nibs(chunk[k]));
        lemma_word_nibs_roundtrip(chunk[k]);
    }
    assert(nibble_block_words(words_nibbles(chunk)) =~= chunk);
}

/// Feeding whole words is the word-level chain: the nibble stream of a
/// nonempty word message chains to exactly what the word-level
/// reference chaining computes. Through the engines' contracts, both
/// the one-shot and the incremental engine therefore reproduce the
/// word-level reference on every whole-word input.
pub proof fn lemma_word_stream_chain(cv: Seq<u32>, msg: Seq<u32>, first: bool)
    requires
        msg.len() > 0,
    ensures
        chain_nibbles(cv, words_nibbles(msg), first) == chain_chunks(cv, msg, first),
    decreases msg.len(),
{
    let w = words_nibbles(msg);
    lemma_words_nibbles_len(msg);
    if msg.len() <= 16 {
        lemma_block_words_of_chunk(msg);
        assert((8 * msg.len()) / 2 == msg.len() * 4);
    } else {
        let head = msg.subrange(0, 16);
        let tail = msg.subrange(16, msg.len() as int);
        assert(msg =~= head + tail);
        lemma_words_nibbles_add(head, tail);
        lemma_words_nibbles_len(head);
        lemma_words_nibbles_len(tail);
        assert(w.subrange(0, 128) =~= words_nibbles(head));
        assert(w.subrange(128, w.len() as int) =~= words_nibbles(tail));
        lemma_full_blocks_of_words(head);
        lemma_word_stream_chain(
            compress1(cv, head, 64u32, block_flags(first, false)),
            tail,
            false,
        );
    }
}

/// Both engines reproduce the word-level reference chaining on every
/// nonempty whole-word input: the one-shot result and the incremental
/// chain of a word message's nibble stream are the reference chaining
/// of the words themselves.
pub proof fn lemma_engines_match_reference(msg: Seq<u32>)
    requires
        msg.len() > 0,
    ensures
        hash_spec(words_nibbles(msg)) == blake3ic_spec(msg),
        chain_nibbles(iv_seq(), words_nibbles(msg), true) == blake3ic_spec(msg),
{
    lemma_words_nibbles_len(msg);
    lemma_word_stream_chain(iv_seq(), msg, true);
}

} // verus!
