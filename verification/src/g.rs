//! The BLAKE3 quarter-round mixing function, built entirely out of the
//! word gadgets: three-operand and two-operand additions, XOR, and the
//! four rotation amounts.

use vstd::prelude::*;
use crate::context::ConstraintContext;
use crate::lookup_table::LookupTableVar;
use crate::u32::{add_wrap, add_wrap3, rotr, U32Var};

verus! {

broadcast use crate::context::lemma_extends_chain;

/// What one quarter-round does to its four state words, given two
/// message words.
pub open spec fn g_spec(a: u32, b: u32, c: u32, d: u32, m_0: u32, m_1: u32) -> (u32, u32, u32, u32) {
    let a1 = add_wrap3(a, b, m_0);
    let d1 = rotr(d ^ a1, 16);
    let c1 = add_wrap(c, d1);
    let b1 = rotr(b ^ c1, 12);
    let a2 = add_wrap3(a1, b1, m_1);
    let d2 = rotr(d1 ^ a2, 8);
    let c2 = add_wrap(c1, d2);
    let b2 = rotr(b1 ^ c2, 7);
    (a2, b2, c2, d2)
}

/// The quarter-round on constrained words: every step goes through the
/// table-backed gadgets, and the four state words are replaced by the
/// mixed ones.
pub fn g(
    cs: &mut ConstraintContext,
    table: &LookupTableVar,
    a_ref: &mut U32Var,
    b_ref: &mut U32Var,
    c_ref: &mut U32Var,
    d_ref: &mut U32Var,
    m_0: &U32Var,
    m_1: &U32Var,
)
    requires
        old(a_ref).valid(*old(cs)),
        old(b_ref).valid(*old(cs)),
        old(c_ref).valid(*old(cs)),
        old(d_ref).valid(*old(cs)),
        m_0.valid(*old(cs)),
        m_1.valid(*old(cs)),
        table.valid(*old(cs)),
    ensures
        final(cs).extends(*old(cs)),
        final(a_ref).valid(*final(cs)),
        final(b_ref).valid(*final(cs)),
        final(c_ref).valid(*final(cs)),
        final(d_ref).valid(*final(cs)),
        (
            final(a_ref).value_spec(),
            final(b_ref).value_spec(),
            final(c_ref).value_spec(),
            final(d_ref).value_spec(),
        ) == g_spec(
            old(a_ref).value_spec(),
            old(b_ref).value_spec(),
            old(c_ref).value_spec(),
            old(d_ref).value_spec(),
            m_0.value_spec(),
            m_1.value_spec(),
        ),
{
    let mut a = *a_ref;
    let mut b = *b_ref;
    let mut c = *c_ref;
    let mut d = *d_ref;

    a = a.add3(cs, table, &b, m_0);
    d = d.bitxor(cs, table, &a).rotate_right_shift_16();
    c = c.add(cs, table, &d);
    b = b.bitxor(cs, table, &c).rotate_right_shift_12();
    a = a.add3(cs, table, &b, m_1);
    d = d.bitxor(cs, table, &a).rotate_right_shift_8();
    c = c.add(cs, table, &d);
    let b_x = b.bitxor(cs, table, &c);
    b = b_x.rotate_right_shift_7(cs, table);

    *a_ref = a;
    *b_ref = b;
    *c_ref = c;
    *d_ref = d;
}

} // verus!
