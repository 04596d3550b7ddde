//! One full BLAKE3 round: the quarter-round applied to the four columns
//! and then the four diagonals of the 16-word state, followed by the
//! fixed message-schedule permutation, which runs after every round,
//! never before the first.

use vstd::prelude::*;
use crate::context::ConstraintContext;
use crate::g::{g, g_spec};
use crate::lookup_table::LookupTableVar;
use crate::u32::U32Var;

verus! {

broadcast use crate::context::lemma_extends_chain;

/// The values a sequence of constrained words stands for.
pub open spec fn values_of(s: Seq<U32Var>) -> Seq<u32> {
    Seq::new(s.len(), |i: int| s[i].value_spec())
}

/// Every word of a sequence is valid for the given context.
pub open spec fn words_valid(s: Seq<U32Var>, cs: ConstraintContext) -> bool {
    forall|i: int| 0 <= i < s.len() ==> (#[trigger] s[i]).valid(cs)
}

/// The fixed permutation that turns this round's message schedule into
/// the next round's.
pub open spec fn msg_permute(m: Seq<u32>) -> Seq<u32>
    recommends
        m.len() == 16,
{
    seq![
        m[2],
        m[6],
        m[3],
        m[10],
        m[7],
        m[0],
        m[4],
        m[13],
        m[1],
        m[11],
        m[12],
        m[5],
        m[9],
        m[14],
        m[15],
        m[8],
    ]
}

/// The first half of a round: the quarter-round on each of the four
/// columns of the state.
pub open spec fn column_round_state(s: Seq<u32>, m: Seq<u32>) -> Seq<u32>
    recommends
        s.len() == 16,
        m.len() == 16,
{
    let (x0, x4, x8, x12) = g_spec(s[0], s[4], s[8], s[12], m[0], m[1]);
    let (x1, x5, x9, x13) = g_spec(s[1], s[5], s[9], s[13], m[2], m[3]);
    let (x2, x6, x10, x14) = g_spec(s[2], s[6], s[10], s[14], m[4], m[5]);
    let (x3, x7, x11, x15) = g_spec(s[3], s[7], s[11], s[15], m[6], m[7]);
    seq![x0, x1, x2, x3, x4, x5, x6, x7, x8, x9, x10, x11, x12, x13, x14, x15]
}

/// The second half of a round: the quarter-round on each of the four
/// diagonals.
pub open spec fn diagonal_round_state(s: Seq<u32>, m: Seq<u32>) -> Seq<u32>
    recommends
        s.len() == 16,
        m.len() == 16,
{
    let (y0, y5, y10, y15) = g_spec(s[0], s[5], s[10], s[15], m[8], m[9]);
    let (y1, y6, y11, y12) = g_spec(s[1], s[6], s[11], s[12], m[10], m[11]);
    let (y2, y7, y8, y13) = g_spec(s[2], s[7], s[8], s[13], m[12], m[13]);
    let (y3, y4, y9, y14) = g_spec(s[3], s[4], s[9], s[14], m[14], m[15]);
    seq![y0, y1, y2, y3, y4, y5, y6, y7, y8, y9, y10, y11, y12, y13, y14, y15]
}

/// What one round does to the 16-word state, before the message
/// permutation.
pub open spec fn round_state(s: Seq<u32>, m: Seq<u32>) -> Seq<u32>
    recommends
        s.len() == 16,
        m.len() == 16,
{
    diagonal_round_state(column_round_state(s, m), m)
}

/// The quarter-round applied to the four columns of the state.
#[verifier::rlimit(50)]
fn column_round(
    cs: &mut ConstraintContext,
    table: &LookupTableVar,
    state_ref: &mut Vec<U32Var>,
    msg: &Vec<U32Var>,
)
    requires
        old(state_ref)@.len() == 16,
        msg@.len() == 16,
        words_valid(old(state_ref)@, *old(cs)),
        words_valid(msg@, *old(cs)),
        table.valid(*old(cs)),
    ensures
        final(cs).extends(*old(cs)),
        final(state_ref)@.len() == 16,
        words_valid(final(state_ref)@, *final(cs)),
        values_of(final(state_ref)@) == column_round_state(
            values_of(old(state_ref)@),
            values_of(msg@),
        ),
{
    let mut s0 = state_ref[0];
    let mut s1 = state_ref[1];
    let mut s2 = state_ref[2];
    let mut s3 = state_ref[3];
    let mut s4 = state_ref[4];
    let mut s5 = state_ref[5];
    let mut s6 = state_ref[6];
    let mut s7 = state_ref[7];
    let mut s8 = state_ref[8];
    let mut s9 = state_ref[9];
    let mut s10 = state_ref[10];
    let mut s11 = state_ref[11];
    let mut s12 = state_ref[12];
    let mut s13 = state_ref[13];
    let mut s14 = state_ref[14];
    let mut s15 = state_ref[15];

    g(cs, table, &mut s0, &mut s4, &mut s8, &mut s12, &msg[0], &msg[1]);
    g(cs, table, &mut s1, &mut s5, &mut s9, &mut s13, &msg[2], &msg[3]);
    g(cs, table, &mut s2, &mut s6, &mut s10, &mut s14, &msg[4], &msg[5]);
    g(cs, table, &mut s3, &mut s7, &mut s11, &mut s15, &msg[6], &msg[7]);

    let mut new_state: Vec<U32Var> = Vec::new();
    new_state.push(s0);
    new_state.push(s1);
    new_state.push(s2);
    new_state.push(s3);
    new_state.push(s4);
    new_state.push(s5);
    new_state.push(s6);
    new_state.push(s7);
    new_state.push(s8);
    new_state.push(s9);
    new_state.push(s10);
    new_state.push(s11);
    new_state.push(s12);
    new_state.push(s13);
    new_state.push(s14);
    new_state.push(s15);
    *state_ref = new_state;

    proof {
        assert(values_of(final(state_ref)@) =~= column_round_state(
            values_of(old(state_ref)@),
            values_of(msg@),
        ));
    }
}

/// The quarter-round applied to the four diagonals of the state.
#[verifier::rlimit(50)]
fn diagonal_round(
    cs: &mut ConstraintContext,
    table: &LookupTableVar,
    state_ref: &mut Vec<U32Var>,
    msg: &Vec<U32Var>,
)
    requires
        old(state_ref)@.len() == 16,
        msg@.len() == 16,
        words_valid(old(state_ref)@, *old(cs)),
        words_valid(msg@, *old(cs)),
        table.valid(*old(cs)),
    ensures
        final(cs).extends(*old(cs)),
        final(state_ref)@.len() == 16,
        words_valid(final(state_ref)@, *final(cs)),
        values_of(final(state_ref)@) == diagonal_round_state(
            values_of(old(state_ref)@),
            values_of(msg@),
        ),
{
    let mut s0 = state_ref[0];
    let mut s1 = state_ref[1];
    let mut s2 = state_ref[2];
    let mut s3 = state_ref[3];
    let mut s4 = state_ref[4];
    let mut s5 = state_ref[5];
    let mut s6 = state_ref[6];
    let mut s7 = state_ref[7];
    let mut s8 = state_ref[8];
    let mut s9 = state_ref[9];
    let mut s10 = state_ref[10];
    let mut s11 = state_ref[11];
    let mut s12 = state_ref[12];
    let mut s13 = state_ref[13];
    let mut s14 = state_ref[14];
    let mut s15 = state_ref[15];

    g(cs, table, &mut s0, &mut s5, &mut s10, &mut s15, &msg[8], &msg[9]);
    g(cs, table, &mut s1, &mut s6, &mut s11, &mut s12, &msg[10], &msg[11]);
    g(cs, table, &mut s2, &mut s7, &mut s8, &mut s13, &msg[12], &msg[13]);
    g(cs, table, &mut s3, &mut s4, &mut s9, &mut s14, &msg[14], &msg[15]);

    let mut new_state: Vec<U32Var> = Vec::new();
    new_state.push(s0);
    new_state.push(s1);
    new_state.push(s2);
    new_state.push(s3);
    new_state.push(s4);
    new_state.push(s5);
    new_state.push(s6);
    new_state.push(s7);
    new_state.push(s8);
    new_state.push(s9);
    new_state.push(s10);
    new_state.push(s11);
    new_state.push(s12);
    new_state.push(s13);
    new_state.push(s14);
    new_state.push(s15);
    *state_ref = new_state;

    proof {
        assert(values_of(final(state_ref)@) =~= diagonal_round_state(
            values_of(old(state_ref)@),
            values_of(msg@),
        ));
    }
}

/// Replace the message array by the next round's schedule.
fn permute_msg(msg: &mut Vec<U32Var>)
    requires
        old(msg)@.len() == 16,
    ensures
        final(msg)@.len() == 16,
        values_of(final(msg)@) == msg_permute(values_of(old(msg)@)),
        forall|cs: ConstraintContext|
            words_valid(old(msg)@, cs) ==> words_valid(final(msg)@, cs),
{
    let mut new_msg: Vec<U32Var> = Vec::new();
    new_msg.push(msg[2]);
    new_msg.push(msg[6]);
    new_msg.push(msg[3]);
    new_msg.push(msg[10]);
    new_msg.push(msg[7]);
    new_msg.push(msg[0]);
    new_msg.push(msg[4]);
    new_msg.push(msg[13]);
    new_msg.push(msg[1]);
    new_msg.push(msg[11]);
    new_msg.push(msg[12]);
    new_msg.push(msg[5]);
    new_msg.push(msg[9]);
    new_msg.push(msg[14]);
    new_msg.push(msg[15]);
    new_msg.push(msg[8]);
    *msg = new_msg;
    proof {
        assert(values_of(final(msg)@) =~= msg_permute(values_of(old(msg)@)));
    }
}

/// One round on constrained words: the state is replaced by the mixed
/// state, and the message array by the next round's schedule.
pub fn round(
    cs: &mut ConstraintContext,
    table: &LookupTableVar,
    state_ref: &mut Vec<U32Var>,
    msg: &mut Vec<U32Var>,
)
    requires
        old(state_ref)@.len() == 16,
        old(msg)@.len() == 16,
        words_valid(old(state_ref)@, *old(cs)),
        words_valid(old(msg)@, *old(cs)),
        table.valid(*old(cs)),
    ensures
        final(cs).extends(*old(cs)),
        final(state_ref)@.len() == 16,
        final(msg)@.len() == 16,
        words_valid(final(state_ref)@, *final(cs)),
        words_valid(final(msg)@, *final(cs)),
        values_of(final(state_ref)@) == round_state(
            values_of(old(state_ref)@),
            values_of(old(msg)@),
        ),
        values_of(final(msg)@) == msg_permute(values_of(old(msg)@)),
{
    column_round(cs, table, state_ref, msg);
    diagonal_round(cs, table, state_ref, msg);
    permute_msg(msg);
}

} // verus!
