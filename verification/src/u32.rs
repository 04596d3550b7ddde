//! The constrained 32-bit word: eight nibble limbs in fixed order,
//! little-nibble-first.
//!
//! The word's value is the positional weighted sum of its limbs. Word
//! addition carry-chains the nibble gadgets across the eight limbs and
//! wraps modulo the word size at the most significant one; XOR works
//! limb by limb; rotation by a multiple of four bits is pure limb
//! relabeling, and rotation by seven bits reconstructs each limb from a
//! three-bit and a one-bit shift of its two neighbours.

use vstd::prelude::*;
use vstd::arithmetic::div_mod::{lemma_fundamental_div_mod, lemma_fundamental_div_mod_converse};
use crate::context::{AllocationMode, ConstraintContext};
use crate::lookup_table::LookupTableVar;
use crate::u4::{NoCarry, U4Var};

verus! {

/// The standard rotation of a 32-bit word right by `n` bits.
pub open spec fn rotr(x: u32, n: u32) -> u32
    recommends
        0 < n < 32,
{
    (x >> n) | (x << ((32 - n) as u32))
}

/// Addition of two words modulo the word size.
pub open spec fn add_wrap(a: u32, b: u32) -> u32 {
    ((a + b) % 0x1_0000_0000) as u32
}

/// Addition of three words modulo the word size.
pub open spec fn add_wrap3(a: u32, b: u32, c: u32) -> u32 {
    ((a + b + c) % 0x1_0000_0000) as u32
}

/// A constrained 32-bit word: eight nibbles, least significant first.
#[derive(Clone, Copy, Debug)]
pub struct U32Var {
    pub limbs: [U4Var; 8],
}

impl U32Var {
    /// Every limb is a nibble value, whatever context it refers to.
    pub open spec fn limbs_in_range(self) -> bool {
        forall|i: int| 0 <= i < 8 ==> self.limbs[i].value < 16
    }

    /// Every limb is a valid nibble of the given context.
    pub open spec fn valid(self, cs: ConstraintContext) -> bool {
        forall|i: int| 0 <= i < 8 ==> self.limbs[i].valid(cs)
    }

    /// The word's value as the positional weighted sum of its limbs.
    pub open spec fn value_int(self) -> int {
        self.limbs[0].value + self.limbs[1].value * 16 + self.limbs[2].value * 256
            + self.limbs[3].value * 4096 + self.limbs[4].value * 65536
            + self.limbs[5].value * 1048576 + self.limbs[6].value * 16777216
            + self.limbs[7].value * 268435456
    }

    /// The word's value, as a machine word.
    pub open spec fn value_spec(self) -> u32 {
        self.value_int() as u32
    }
}

/// A word whose limbs are in range has its weighted sum inside the
/// 32-bit range, so the two value views agree.
pub proof fn lemma_value_in_range(w: U32Var)
    requires
        w.limbs_in_range(),
    ensures
        0 <= w.value_int() < 0x1_0000_0000,
        w.value_spec() == w.value_int(),
{
}

/// Recomposing the eight nibbles of a word gives the word back.
pub proof fn lemma_nib_recompose(x: u32)
    by (bit_vector)
    ensures
        (x & 15) + ((x >> 4u32) & 15) * 16 + ((x >> 8u32) & 15) * 256 + ((x >> 12u32) & 15) * 4096
            + ((x >> 16u32) & 15) * 65536 + ((x >> 20u32) & 15) * 1048576 + ((x >> 24u32) & 15)
            * 16777216 + ((x >> 28u32) & 15) * 268435456 == x,
{
}

/// Masking to four bits lands in the nibble range.
proof fn lemma_mask15(x: u32)
    by (bit_vector)
    ensures
        x & 15 < 16,
{
}

/// The limbs of a weighted sum are exactly the nibbles of its value.
proof fn lemma_limbs_to_nibs(
    x: u32,
    l0: u32,
    l1: u32,
    l2: u32,
    l3: u32,
    l4: u32,
    l5: u32,
    l6: u32,
    l7: u32,
)
    by (bit_vector)
    requires
        l0 < 16,
        l1 < 16,
        l2 < 16,
        l3 < 16,
        l4 < 16,
        l5 < 16,
        l6 < 16,
        l7 < 16,
        x == l0 + l1 * 16 + l2 * 256 + l3 * 4096 + l4 * 65536 + l5 * 1048576 + l6 * 16777216 + l7
            * 268435456,
    ensures
        l0 == x & 15,
        l1 == (x >> 4u32) & 15,
        l2 == (x >> 8u32) & 15,
        l3 == (x >> 12u32) & 15,
        l4 == (x >> 16u32) & 15,
        l5 == (x >> 20u32) & 15,
        l6 == (x >> 24u32) & 15,
        l7 == (x >> 28u32) & 15,
{
}

/// XOR of two words is the weighted sum of the limb-wise XORs.
proof fn lemma_xor_value(
    x: u32,
    y: u32,
    r0: u32,
    r1: u32,
    r2: u32,
    r3: u32,
    r4: u32,
    r5: u32,
    r6: u32,
    r7: u32,
)
    by (bit_vector)
    requires
        r0 == (x & 15) ^ (y & 15),
        r1 == ((x >> 4u32) & 15) ^ ((y >> 4u32) & 15),
        r2 == ((x >> 8u32) & 15) ^ ((y >> 8u32) & 15),
        r3 == ((x >> 12u32) & 15) ^ ((y >> 12u32) & 15),
        r4 == ((x >> 16u32) & 15) ^ ((y >> 16u32) & 15),
        r5 == ((x >> 20u32) & 15) ^ ((y >> 20u32) & 15),
        r6 == ((x >> 24u32) & 15) ^ ((y >> 24u32) & 15),
        r7 == ((x >> 28u32) & 15) ^ ((y >> 28u32) & 15),
    ensures
        (x ^ y) == r0 + r1 * 16 + r2 * 256 + r3 * 4096 + r4 * 65536 + r5 * 1048576 + r6 * 16777216
            + r7 * 268435456,
{
}

/// Rotating right by 16 bits relabels the limbs by four positions.
proof fn lemma_rot16(x: u32)
    by (bit_vector)
    ensures
        ((x >> 16u32) | (x << 16u32)) == ((x >> 16u32) & 15) + ((x >> 20u32) & 15) * 16 + ((x
            >> 24u32) & 15) * 256 + ((x >> 28u32) & 15) * 4096 + (x & 15) * 65536 + ((x >> 4u32)
            & 15) * 1048576 + ((x >> 8u32) & 15) * 16777216 + ((x >> 12u32) & 15) * 268435456,
{
}

/// Rotating right by 12 bits relabels the limbs by three positions.
proof fn lemma_rot12(x: u32)
    by (bit_vector)
    ensures
        ((x >> 12u32) | (x << 20u32)) == ((x >> 12u32) & 15) + ((x >> 16u32) & 15) * 16 + ((x
            >> 20u32) & 15) * 256 + ((x >> 24u32) & 15) * 4096 + ((x >> 28u32) & 15) * 65536 + (x
            & 15) * 1048576 + ((x >> 4u32) & 15) * 16777216 + ((x >> 8u32) & 15) * 268435456,
{
}

/// Rotating right by 8 bits relabels the limbs by two positions.
proof fn lemma_rot8(x: u32)
    by (bit_vector)
    ensures
        ((x >> 8u32) | (x << 24u32)) == ((x >> 8u32) & 15) + ((x >> 12u32) & 15) * 16 + ((x
            >> 16u32) & 15) * 256 + ((x >> 20u32) & 15) * 4096 + ((x >> 24u32) & 15) * 65536 + ((x
            >> 28u32) & 15) * 1048576 + (x & 15) * 16777216 + ((x >> 4u32) & 15) * 268435456,
{
}

/// Rotating right by 7 bits: each output limb is the sum of a three-bit
/// right shift of one neighbour and a masked one-bit left shift of the
/// next.
proof fn lemma_rot7(
    x: u32,
    l0: u32,
    l1: u32,
    l2: u32,
    l3: u32,
    l4: u32,
    l5: u32,
    l6: u32,
    l7: u32,
)
    by (bit_vector)
    requires
        l0 == x & 15,
        l1 == (x >> 4u32) & 15,
        l2 == (x >> 8u32) & 15,
        l3 == (x >> 12u32) & 15,
        l4 == (x >> 16u32) & 15,
        l5 == (x >> 20u32) & 15,
        l6 == (x >> 24u32) & 15,
        l7 == (x >> 28u32) & 15,
    ensures
        ((x >> 7u32) | (x << 25u32)) == ((l1 >> 3u32) + ((l2 << 1u32) & 15)) + ((l2 >> 3u32) + ((l3
            << 1u32) & 15)) * 16 + ((l3 >> 3u32) + ((l4 << 1u32) & 15)) * 256 + ((l4 >> 3u32) + ((
        l5 << 1u32) & 15)) * 4096 + ((l5 >> 3u32) + ((l6 << 1u32) & 15)) * 65536 + ((l6 >> 3u32)
            + ((l7 << 1u32) & 15)) * 1048576 + ((l7 >> 3u32) + ((l0 << 1u32) & 15)) * 16777216 + ((
        l0 >> 3u32) + ((l1 << 1u32) & 15)) * 268435456,
{
}

impl U32Var {
    /// Allocate a word with the given provenance by splitting its value
    /// into eight nibble limbs, least significant first.
    pub fn new_variable(cs: &mut ConstraintContext, data: u32, mode: AllocationMode) -> (w: Self)
        ensures
            final(cs).extends(*old(cs)),
            final(cs).num_allocated() == old(cs).num_allocated() + 8,
            final(cs).scripts@ == old(cs).scripts@,
            w.valid(*final(cs)),
            w.value_spec() == data,
    {
        let ghost cs0 = *cs;
        let v0 = data & 15;
        let v1 = (data >> 4u32) & 15;
        let v2 = (data >> 8u32) & 15;
        let v3 = (data >> 12u32) & 15;
        let v4 = (data >> 16u32) & 15;
        let v5 = (data >> 20u32) & 15;
        let v6 = (data >> 24u32) & 15;
        let v7 = (data >> 28u32) & 15;
        proof {
            lemma_mask15(data);
            lemma_mask15(data >> 4u32);
            lemma_mask15(data >> 8u32);
            lemma_mask15(data >> 12u32);
            lemma_mask15(data >> 16u32);
            lemma_mask15(data >> 20u32);
            lemma_mask15(data >> 24u32);
            lemma_mask15(data >> 28u32);
        }
        let l0 = U4Var::new_variable(cs, v0, mode);
        let ghost cs1 = *cs;
        let l1 = U4Var::new_variable(cs, v1, mode);
        let ghost cs2 = *cs;
        let l2 = U4Var::new_variable(cs, v2, mode);
        let ghost cs3 = *cs;
        let l3 = U4Var::new_variable(cs, v3, mode);
        let ghost cs4 = *cs;
        let l4 = U4Var::new_variable(cs, v4, mode);
        let ghost cs5 = *cs;
        let l5 = U4Var::new_variable(cs, v5, mode);
        let ghost cs6 = *cs;
        let l6 = U4Var::new_variable(cs, v6, mode);
        let ghost cs7 = *cs;
        let l7 = U4Var::new_variable(cs, v7, mode);
        proof {
            crate::context::lemma_extends_transitive(*cs, cs7, cs6);
            crate::context::lemma_extends_transitive(*cs, cs6, cs5);
            crate::context::lemma_extends_transitive(*cs, cs5, cs4);
            crate::context::lemma_extends_transitive(*cs, cs4, cs3);
            crate::context::lemma_extends_transitive(*cs, cs3, cs2);
            crate::context::lemma_extends_transitive(*cs, cs2, cs1);
            crate::context::lemma_extends_transitive(*cs, cs1, cs0);
            lemma_nib_recompose(data);
        }
        U32Var { limbs: [l0, l1, l2, l3, l4, l5, l6, l7] }
    }

    pub fn new_constant(cs: &mut ConstraintContext, data: u32) -> (w: Self)
        ensures
            final(cs).extends(*old(cs)),
            final(cs).num_allocated() == old(cs).num_allocated() + 8,
            final(cs).scripts@ == old(cs).scripts@,
            w.valid(*final(cs)),
            w.value_spec() == data,
    {
        Self::new_variable(cs, data, AllocationMode::Constant)
    }

    pub fn new_program_input(cs: &mut ConstraintContext, data: u32) -> (w: Self)
        ensures
            final(cs).extends(*old(cs)),
            final(cs).num_allocated() == old(cs).num_allocated() + 8,
            final(cs).scripts@ == old(cs).scripts@,
            w.valid(*final(cs)),
            w.value_spec() == data,
    {
        Self::new_variable(cs, data, AllocationMode::ProgramInput)
    }

    /// The handles this word occupies in the context: its eight limbs'
    /// handles in order.
    pub fn variables(&self) -> (r: Vec<usize>)
        ensures
            r@.len() == 8,
            forall|i: int| 0 <= i < 8 ==> r@[i] == self.limbs[i].variable,
    {
        let mut r: Vec<usize> = Vec::new();
        r.push(self.limbs[0].variable);
        r.push(self.limbs[1].variable);
        r.push(self.limbs[2].variable);
        r.push(self.limbs[3].variable);
        r.push(self.limbs[4].variable);
        r.push(self.limbs[5].variable);
        r.push(self.limbs[6].variable);
        r.push(self.limbs[7].variable);
        r
    }

    /// How many context elements a word occupies.
    pub fn length() -> (r: usize)
        ensures
            r == 8,
    {
        8
    }

    /// The value the eight limbs stand for, recovered by the positional
    /// weighted sum, most significant limb first.
    pub fn value(&self, cs: &ConstraintContext) -> (r: u32)
        requires
            self.valid(*cs),
        ensures
            r == self.value_spec(),
    {
        let mut r: u32 = self.limbs[7].value;
        r = r * 16 + self.limbs[6].value;
        r = r * 16 + self.limbs[5].value;
        r = r * 16 + self.limbs[4].value;
        r = r * 16 + self.limbs[3].value;
        r = r * 16 + self.limbs[2].value;
        r = r * 16 + self.limbs[1].value;
        r = r * 16 + self.limbs[0].value;
        proof {
            lemma_value_in_range(*self);
        }
        r
    }

    /// XOR, limb by limb; the eight probes are independent.
    pub fn bitxor(&self, cs: &mut ConstraintContext, table: &LookupTableVar, rhs: &U32Var) -> (r:
        U32Var)
        requires
            self.valid(*old(cs)),
            rhs.valid(*old(cs)),
            table.valid(*old(cs)),
        ensures
            final(cs).extends(*old(cs)),
            r.valid(*final(cs)),
            r.value_spec() == self.value_spec() ^ rhs.value_spec(),
    {
        let ghost cs0 = *cs;
        let ghost x = self.value_spec();
        let ghost y = rhs.value_spec();
        proof {
            lemma_value_in_range(*self);
            lemma_value_in_range(*rhs);
            lemma_limbs_to_nibs(
                x,
                self.limbs[0].value,
                self.limbs[1].value,
                self.limbs[2].value,
                self.limbs[3].value,
                self.limbs[4].value,
                self.limbs[5].value,
                self.limbs[6].value,
                self.limbs[7].value,
            );
            lemma_limbs_to_nibs(
                y,
                rhs.limbs[0].value,
                rhs.limbs[1].value,
                rhs.limbs[2].value,
                rhs.limbs[3].value,
                rhs.limbs[4].value,
                rhs.limbs[5].value,
                rhs.limbs[6].value,
                rhs.limbs[7].value,
            );
        }
        let r0 = self.limbs[0].bitxor(cs, table, &rhs.limbs[0]);
        let ghost cs1 = *cs;
        let r1 = self.limbs[1].bitxor(cs, table, &rhs.limbs[1]);
        let ghost cs2 = *cs;
        let r2 = self.limbs[2].bitxor(cs, table, &rhs.limbs[2]);
        let ghost cs3 = *cs;
        let r3 = self.limbs[3].bitxor(cs, table, &rhs.limbs[3]);
        let ghost cs4 = *cs;
        let r4 = self.limbs[4].bitxor(cs, table, &rhs.limbs[4]);
        let ghost cs5 = *cs;
        let r5 = self.limbs[5].bitxor(cs, table, &rhs.limbs[5]);
        let ghost cs6 = *cs;
        let r6 = self.limbs[6].bitxor(cs, table, &rhs.limbs[6]);
        let ghost cs7 = *cs;
        let r7 = self.limbs[7].bitxor(cs, table, &rhs.limbs[7]);
        proof {
            crate::context::lemma_extends_transitive(*cs, cs7, cs6);
            crate::context::lemma_extends_transitive(*cs, cs6, cs5);
            crate::context::lemma_extends_transitive(*cs, cs5, cs4);
            crate::context::lemma_extends_transitive(*cs, cs4, cs3);
            crate::context::lemma_extends_transitive(*cs, cs3, cs2);
            crate::context::lemma_extends_transitive(*cs, cs2, cs1);
            crate::context::lemma_extends_transitive(*cs, cs1, cs0);
            lemma_xor_value(
                x,
                y,
                r0.value,
                r1.value,
                r2.value,
                r3.value,
                r4.value,
                r5.value,
                r6.value,
                r7.value,
            );
        }
        U32Var { limbs: [r0, r1, r2, r3, r4, r5, r6, r7] }
    }

    /// Rotate right by 16 bits: a pure relabeling of the limbs, with no
    /// instruction emitted.
    pub fn rotate_right_shift_16(self) -> (r: Self)
        requires
            self.limbs_in_range(),
        ensures
            r.limbs[0] == self.limbs[4],
            r.limbs[1] == self.limbs[5],
            r.limbs[2] == self.limbs[6],
            r.limbs[3] == self.limbs[7],
            r.limbs[4] == self.limbs[0],
            r.limbs[5] == self.limbs[1],
            r.limbs[6] == self.limbs[2],
            r.limbs[7] == self.limbs[3],
            r.value_spec() == rotr(self.value_spec(), 16),
    {
        let ghost x = self.value_spec();
        proof {
            lemma_value_in_range(self);
            lemma_limbs_to_nibs(
                x,
                self.limbs[0].value,
                self.limbs[1].value,
                self.limbs[2].value,
                self.limbs[3].value,
                self.limbs[4].value,
                self.limbs[5].value,
                self.limbs[6].value,
                self.limbs[7].value,
            );
            lemma_rot16(x);
        }
        let limbs = self.limbs;
        Self {
            limbs: [
                limbs[4],
                limbs[5],
                limbs[6],
                limbs[7],
                limbs[0],
                limbs[1],
                limbs[2],
                limbs[3],
            ],
        }
    }

    /// Rotate right by 12 bits: a pure relabeling of the limbs.
    pub fn rotate_right_shift_12(self) -> (r: Self)
        requires
            self.limbs_in_range(),
        ensures
            r.limbs[0] == self.limbs[3],
            r.limbs[1] == self.limbs[4],
            r.limbs[2] == self.limbs[5],
            r.limbs[3] == self.limbs[6],
            r.limbs[4] == self.limbs[7],
            r.limbs[5] == self.limbs[0],
            r.limbs[6] == self.limbs[1],
            r.limbs[7] == self.limbs[2],
            r.value_spec() == rotr(self.value_spec(), 12),
    {
        let ghost x = self.value_spec();
        proof {
            lemma_value_in_range(self);
            lemma_limbs_to_nibs(
                x,
                self.limbs[0].value,
                self.limbs[1].value,
                self.limbs[2].value,
                self.limbs[3].value,
                self.limbs[4].value,
                self.limbs[5].value,
                self.limbs[6].value,
                self.limbs[7].value,
            );
            lemma_rot12(x);
        }
        let limbs = self.limbs;
        Self {
            limbs: [
                limbs[3],
                limbs[4],
                limbs[5],
                limbs[6],
                limbs[7],
                limbs[0],
                limbs[1],
                limbs[2],
            ],
        }
    }

    /// Rotate right by 8 bits: a pure relabeling of the limbs.
    pub fn rotate_right_shift_8(self) -> (r: Self)
        requires
            self.limbs_in_range(),
        ensures
            r.limbs[0] == self.limbs[2],
            r.limbs[1] == self.limbs[3],
            r.limbs[2] == self.limbs[4],
            r.limbs[3] == self.limbs[5],
            r.limbs[4] == self.limbs[6],
            r.limbs[5] == self.limbs[7],
            r.limbs[6] == self.limbs[0],
            r.limbs[7] == self.limbs[1],
            r.value_spec() == rotr(self.value_spec(), 8),
    {
        let ghost x = self.value_spec();
        proof {
            lemma_value_in_range(self);
            lemma_limbs_to_nibs(
                x,
                self.limbs[0].value,
                self.limbs[1].value,
                self.limbs[2].value,
                self.limbs[3].value,
                self.limbs[4].value,
                self.limbs[5].value,
                self.limbs[6].value,
                self.limbs[7].value,
            );
            lemma_rot8(x);
        }
        let limbs = self.limbs;
        Self {
            limbs: [
                limbs[2],
                limbs[3],
                limbs[4],
                limbs[5],
                limbs[6],
                limbs[7],
                limbs[0],
                limbs[1],
            ],
        }
    }

    /// One output limb of the seven-bit rotation: a three-bit right
    /// shift of one neighbour recombined with a masked one-bit left
    /// shift of the next, a sum that never needs reduction.
    fn rot7_limb(cs: &mut ConstraintContext, table: &LookupTableVar, a: &U4Var, b: &U4Var) -> (r:
        U4Var)
        requires
            a.valid(*old(cs)),
            b.valid(*old(cs)),
            table.valid(*old(cs)),
        ensures
            final(cs).extends(*old(cs)),
            r.valid(*final(cs)),
            r.value == (a.value >> 3u32) + ((b.value << 1u32) & 15),
    {
        let ghost cs0 = *cs;
        let first = a.get_shr3(cs, table);
        let ghost cs1 = *cs;
        let second = b.get_shl1(cs, table);
        let ghost cs2 = *cs;
        let out = first.add_no_overflow(cs, &second);
        proof {
            crate::context::lemma_extends_transitive(*cs, cs2, cs1);
            crate::context::lemma_extends_transitive(*cs, cs1, cs0);
        }
        out
    }

    /// Rotate right by 7 bits, the one rotation amount of the mixing
    /// function that is not a multiple of the limb width.
    pub fn rotate_right_shift_7(self, cs: &mut ConstraintContext, table: &LookupTableVar) -> (r:
        Self)
        requires
            self.valid(*old(cs)),
            table.valid(*old(cs)),
        ensures
            final(cs).extends(*old(cs)),
            r.valid(*final(cs)),
            r.value_spec() == rotr(self.value_spec(), 7),
    {
        let ghost cs0 = *cs;
        let ghost x = self.value_spec();
        proof {
            lemma_value_in_range(self);
            lemma_limbs_to_nibs(
                x,
                self.limbs[0].value,
                self.limbs[1].value,
                self.limbs[2].value,
                self.limbs[3].value,
                self.limbs[4].value,
                self.limbs[5].value,
                self.limbs[6].value,
                self.limbs[7].value,
            );
        }
        let r0 = Self::rot7_limb(cs, table, &self.limbs[1], &self.limbs[2]);
        let ghost cs1 = *cs;
        let r1 = Self::rot7_limb(cs, table, &self.limbs[2], &self.limbs[3]);
        let ghost cs2 = *cs;
        let r2 = Self::rot7_limb(cs, table, &self.limbs[3], &self.limbs[4]);
        let ghost cs3 = *cs;
        let r3 = Self::rot7_limb(cs, table, &self.limbs[4], &self.limbs[5]);
        let ghost cs4 = *cs;
        let r4 = Self::rot7_limb(cs, table, &self.limbs[5], &self.limbs[6]);
        let ghost cs5 = *cs;
        let r5 = Self::rot7_limb(cs, table, &self.limbs[6], &self.limbs[7]);
        let ghost cs6 = *cs;
        let r6 = Self::rot7_limb(cs, table, &self.limbs[7], &self.limbs[0]);
        let ghost cs7 = *cs;
        let r7 = Self::rot7_limb(cs, table, &self.limbs[0], &self.limbs[1]);
        proof {
            crate::context::lemma_extends_transitive(*cs, cs7, cs6);
            crate::context::lemma_extends_transitive(*cs, cs6, cs5);
            crate::context::lemma_extends_transitive(*cs, cs5, cs4);
            crate::context::lemma_extends_transitive(*cs, cs4, cs3);
            crate::context::lemma_extends_transitive(*cs, cs3, cs2);
            crate::context::lemma_extends_transitive(*cs, cs2, cs1);
            crate::context::lemma_extends_transitive(*cs, cs1, cs0);
            lemma_rot7(
                x,
                self.limbs[0].value,
                self.limbs[1].value,
                self.limbs[2].value,
                self.limbs[3].value,
                self.limbs[4].value,
                self.limbs[5].value,
                self.limbs[6].value,
                self.limbs[7].value,
            );
        }
        Self { limbs: [r0, r1, r2, r3, r4, r5, r6, r7] }
    }

    /// Two-operand word addition: the nibble adders carry-chain across
    /// the eight limbs, and the most significant limb drops its carry,
    /// so the sum wraps modulo the word size.
    pub fn add(&self, cs: &mut ConstraintContext, table: &LookupTableVar, rhs: &U32Var) -> (r:
        U32Var)
        requires
            self.valid(*old(cs)),
            rhs.valid(*old(cs)),
            table.valid(*old(cs)),
        ensures
            final(cs).extends(*old(cs)),
            r.valid(*final(cs)),
            r.value_spec() == add_wrap(self.value_spec(), rhs.value_spec()),
            r.value_int() == (self.value_int() + rhs.value_int()) % 0x1_0000_0000,
    {
        let ghost cs0 = *cs;
        let (s0, c0) = self.limbs[0].add(cs, table, &rhs.limbs[0]);
        let ghost cs1 = *cs;
        let (s1, c1) = self.limbs[1].add_with_carry(cs, table, &rhs.limbs[1], &c0);
        let ghost cs2 = *cs;
        let (s2, c2) = self.limbs[2].add_with_carry(cs, table, &rhs.limbs[2], &c1);
        let ghost cs3 = *cs;
        let (s3, c3) = self.limbs[3].add_with_carry(cs, table, &rhs.limbs[3], &c2);
        let ghost cs4 = *cs;
        let (s4, c4) = self.limbs[4].add_with_carry(cs, table, &rhs.limbs[4], &c3);
        let ghost cs5 = *cs;
        let (s5, c5) = self.limbs[5].add_with_carry(cs, table, &rhs.limbs[5], &c4);
        let ghost cs6 = *cs;
        let (s6, c6) = self.limbs[6].add_with_carry(cs, table, &rhs.limbs[6], &c5);
        let ghost cs7 = *cs;
        let s7 = self.limbs[7].add_with_carry_nocarry(cs, table, &rhs.limbs[7], &c6, NoCarry());
        let r = U32Var { limbs: [s0, s1, s2, s3, s4, s5, s6, s7] };
        proof {
            crate::context::lemma_extends_transitive(*cs, cs7, cs6);
            crate::context::lemma_extends_transitive(*cs, cs6, cs5);
            crate::context::lemma_extends_transitive(*cs, cs5, cs4);
            crate::context::lemma_extends_transitive(*cs, cs4, cs3);
            crate::context::lemma_extends_transitive(*cs, cs3, cs2);
            crate::context::lemma_extends_transitive(*cs, cs2, cs1);
            crate::context::lemma_extends_transitive(*cs, cs1, cs0);
            lemma_value_in_range(*self);
            lemma_value_in_range(*rhs);
            lemma_fundamental_div_mod(self.limbs[0].value + rhs.limbs[0].value, 16);
            lemma_fundamental_div_mod(
                self.limbs[1].value + rhs.limbs[1].value + c0.0.value,
                16,
            );
            lemma_fundamental_div_mod(
                self.limbs[2].value + rhs.limbs[2].value + c1.0.value,
                16,
            );
            lemma_fundamental_div_mod(
                self.limbs[3].value + rhs.limbs[3].value + c2.0.value,
                16,
            );
            lemma_fundamental_div_mod(
                self.limbs[4].value + rhs.limbs[4].value + c3.0.value,
                16,
            );
            lemma_fundamental_div_mod(
                self.limbs[5].value + rhs.limbs[5].value + c4.0.value,
                16,
            );
            lemma_fundamental_div_mod(
                self.limbs[6].value + rhs.limbs[6].value + c5.0.value,
                16,
            );
            lemma_fundamental_div_mod(
                self.limbs[7].value + rhs.limbs[7].value + c6.0.value,
                16,
            );
            let q7 = (self.limbs[7].value + rhs.limbs[7].value + c6.0.value) / 16;
            assert(self.value_int() + rhs.value_int() == r.value_int() + q7 * 0x1_0000_0000);
            lemma_value_in_range(r);
            lemma_fundamental_div_mod_converse(
                self.value_int() + rhs.value_int(),
                0x1_0000_0000,
                q7,
                r.value_int(),
            );
        }
        r
    }

    /// Three-operand word addition, carry-chained the same way; the
    /// reduction tables cover the wider per-limb sums.
    #[verifier::rlimit(60)]
    pub fn add3(
        &self,
        cs: &mut ConstraintContext,
        table: &LookupTableVar,
        rhs_1: &U32Var,
        rhs_2: &U32Var,
    ) -> (r: U32Var)
        requires
            self.valid(*old(cs)),
            rhs_1.valid(*old(cs)),
            rhs_2.valid(*old(cs)),
            table.valid(*old(cs)),
        ensures
            final(cs).extends(*old(cs)),
            r.valid(*final(cs)),
            r.value_spec() == add_wrap3(self.value_spec(), rhs_1.value_spec(), rhs_2.value_spec()),
            r.value_int() == (self.value_int() + rhs_1.value_int() + rhs_2.value_int())
                % 0x1_0000_0000,
    {
        let ghost cs0 = *cs;
        let (s0, c0) = self.limbs[0].add3(cs, table, &rhs_1.limbs[0], &rhs_2.limbs[0]);
        let ghost cs1 = *cs;
        let (s1, c1) = self.limbs[1].add3_with_carry(cs, table, &rhs_1.limbs[1], &rhs_2.limbs[1], &c0);
        let ghost cs2 = *cs;
        let (s2, c2) = self.limbs[2].add3_with_carry(cs, table, &rhs_1.limbs[2], &rhs_2.limbs[2], &c1);
        let ghost cs3 = *cs;
        let (s3, c3) = self.limbs[3].add3_with_carry(cs, table, &rhs_1.limbs[3], &rhs_2.limbs[3], &c2);
        let ghost cs4 = *cs;
        let (s4, c4) = self.limbs[4].add3_with_carry(cs, table, &rhs_1.limbs[4], &rhs_2.limbs[4], &c3);
        let ghost cs5 = *cs;
        let (s5, c5) = self.limbs[5].add3_with_carry(cs, table, &rhs_1.limbs[5], &rhs_2.limbs[5], &c4);
        let ghost cs6 = *cs;
        let (s6, c6) = self.limbs[6].add3_with_carry(cs, table, &rhs_1.limbs[6], &rhs_2.limbs[6], &c5);
        let ghost cs7 = *cs;
        let s7 = self.limbs[7].add3_with_carry_nocarry(
            cs,
            table,
            &rhs_1.limbs[7],
            &rhs_2.limbs[7],
            &c6,
            NoCarry(),
        );
        let r = U32Var { limbs: [s0, s1, s2, s3, s4, s5, s6, s7] };
        proof {
            crate::context::lemma_extends_transitive(*cs, cs7, cs6);
            crate::context::lemma_extends_transitive(*cs, cs6, cs5);
            crate::context::lemma_extends_transitive(*cs, cs5, cs4);
            crate::context::lemma_extends_transitive(*cs, cs4, cs3);
            crate::context::lemma_extends_transitive(*cs, cs3, cs2);
            crate::context::lemma_extends_transitive(*cs, cs2, cs1);
            crate::context::lemma_extends_transitive(*cs, cs1, cs0);
            lemma_value_in_range(*self);
            lemma_value_in_range(*rhs_1);
            lemma_value_in_range(*rhs_2);
            lemma_fundamental_div_mod(
                self.limbs[0].value + rhs_1.limbs[0].value + rhs_2.limbs[0].value,
                16,
            );
            lemma_fundamental_div_mod(
                self.limbs[1].value + rhs_1.limbs[1].value + rhs_2.limbs[1].value + c0.0.value,
                16,
            );
            lemma_fundamental_div_mod(
                self.limbs[2].value + rhs_1.limbs[2].value + rhs_2.limbs[2].value + c1.0.value,
                16,
            );
            lemma_fundamental_div_mod(
                self.limbs[3].value + rhs_1.limbs[3].value + rhs_2.limbs[3].value + c2.0.value,
                16,
            );
            lemma_fundamental_div_mod(
                self.limbs[4].value + rhs_1.limbs[4].value + rhs_2.limbs[4].value + c3.0.value,
                16,
            );
            lemma_fundamental_div_mod(
                self.limbs[5].value + rhs_1.limbs[5].value + rhs_2.limbs[5].value + c4.0.value,
                16,
            );
            lemma_fundamental_div_mod(
                self.limbs[6].value + rhs_1.limbs[6].value + rhs_2.limbs[6].value + c5.0.value,
                16,
            );
            lemma_fundamental_div_mod(
                self.limbs[7].value + rhs_1.limbs[7].value + rhs_2.limbs[7].value + c6.0.value,
                16,
            );
            let q7 = (self.limbs[7].value + rhs_1.limbs[7].value + rhs_2.limbs[7].value
                + c6.0.value) / 16;
            assert(self.value_int() + rhs_1.value_int() + rhs_2.value_int() == r.value_int() + q7
                * 0x1_0000_0000);
            lemma_value_in_range(r);
            lemma_fundamental_div_mod_converse(
                self.value_int() + rhs_1.value_int() + rhs_2.value_int(),
                0x1_0000_0000,
                q7,
                r.value_int(),
            );
        }
        r
    }
}

} // verus!
