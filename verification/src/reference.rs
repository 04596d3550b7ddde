//! Plain-word reference implementations of the mixing function, the
//! round, and the incremental chaining, stated against the same
//! mathematical model as the gadget layer: what the gadgets compute on
//! constrained words, these compute directly on machine words.

use vstd::prelude::*;
use vstd::arithmetic::div_mod::{
    lemma_add_mod_noop, lemma_fundamental_div_mod_converse, lemma_small_mod,
};
use crate::blake3::{blake3ic_spec, block_flags, chain_chunks, compress1, iv_seq, lemma_flag_values, pad_words, rounds_spec};
use crate::g::g_spec;
use crate::round::{msg_permute, round_state};
use crate::u32::{add_wrap, add_wrap3};

verus! {

/// Wrapping addition is addition modulo the word size.
proof fn lemma_wrapping_is_add_wrap(x: u32, y: u32)
    ensures
        add_wrap(x, y) == if x + y > u32::MAX {
            (x + y - 0x1_0000_0000) as u32
        } else {
            (x + y) as u32
        },
{
    if x + y > u32::MAX {
        lemma_fundamental_div_mod_converse(x + y, 0x1_0000_0000, 1, x + y - 0x1_0000_0000);
    } else {
        lemma_fundamental_div_mod_converse(x + y, 0x1_0000_0000, 0, x + y);
    }
}

/// Two wrapping additions in a row wrap the three-operand sum.
proof fn lemma_wrap_wrap(a: u32, b: u32, c: u32)
    ensures
        add_wrap(add_wrap(a, b), c) == add_wrap3(a, b, c),
{
    lemma_add_mod_noop(a + b, c as int, 0x1_0000_0000);
    lemma_small_mod(c as nat, 0x1_0000_0000);
    lemma_small_mod((add_wrap(a, b)) as nat, 0x1_0000_0000);
}

/// The reference quarter-round on plain words: bit for bit what the
/// gadget quarter-round does to the values of its constrained words.
pub fn g_reference(
    a_ref: &mut u32,
    b_ref: &mut u32,
    c_ref: &mut u32,
    d_ref: &mut u32,
    m_0: u32,
    m_1: u32,
)
    ensures
        (*final(a_ref), *final(b_ref), *final(c_ref), *final(d_ref)) == g_spec(
            *old(a_ref),
            *old(b_ref),
            *old(c_ref),
            *old(d_ref),
            m_0,
            m_1,
        ),
{
    let mut a = *a_ref;
    let mut b = *b_ref;
    let mut c = *c_ref;
    let mut d = *d_ref;

    proof {
        lemma_wrapping_is_add_wrap(a, b);
        lemma_wrapping_is_add_wrap(add_wrap(a, b), m_0);
        lemma_wrap_wrap(a, b, m_0);
    }
    a = a.wrapping_add(b).wrapping_add(m_0);
    let dx = d ^ a;
    d = (dx >> 16u32) | (dx << 16u32);
    proof {
        lemma_wrapping_is_add_wrap(c, d);
    }
    c = c.wrapping_add(d);
    let bx = b ^ c;
    b = (bx >> 12u32) | (bx << 20u32);
    proof {
        lemma_wrapping_is_add_wrap(a, b);
        lemma_wrapping_is_add_wrap(add_wrap(a, b), m_1);
        lemma_wrap_wrap(a, b, m_1);
    }
    a = a.wrapping_add(b).wrapping_add(m_1);
    let dx2 = d ^ a;
    d = (dx2 >> 8u32) | (dx2 << 24u32);
    proof {
        lemma_wrapping_is_add_wrap(c, d);
    }
    c = c.wrapping_add(d);
    let bx2 = b ^ c;
    b = (bx2 >> 7u32) | (bx2 << 25u32);

    *a_ref = a;
    *b_ref = b;
    *c_ref = c;
    *d_ref = d;
}

/// The reference round on plain words: the eight quarter-round calls of
/// one round, then the message-schedule permutation.
#[verifier::rlimit(100)]
pub fn round_reference(state_ref: &mut [u32; 16], msg: &mut [u32; 16])
    ensures
        final(state_ref)@ == round_state(old(state_ref)@, old(msg)@),
        final(msg)@ == msg_permute(old(msg)@),
{
    let mut s0 = state_ref[0];
    let mut s1 = state_ref[1];
    let mut s2 = state_ref[2];
    let mut s3 = state_ref[3];
    let mut s4 = state_ref[4];
    let mut s5 = state_ref[5];
    let mut s6 = state_ref[6];
    let mut s7 = state_ref[7];
    let mut s8 = state_ref[8];
    let mut s9 = state_ref[9];
    let mut s10 = state_ref[10];
    let mut s11 = state_ref[11];
    let mut s12 = state_ref[12];
    let mut s13 = state_ref[13];
    let mut s14 = state_ref[14];
    let mut s15 = state_ref[15];

    g_reference(&mut s0, &mut s4, &mut s8, &mut s12, msg[0], msg[1]);
    g_reference(&mut s1, &mut s5, &mut s9, &mut s13, msg[2], msg[3]);
    g_reference(&mut s2, &mut s6, &mut s10, &mut s14, msg[4], msg[5]);
    g_reference(&mut s3, &mut s7, &mut s11, &mut s15, msg[6], msg[7]);

    let ghost mid = seq![s0, s1, s2, s3, s4, s5, s6, s7, s8, s9, s10, s11, s12, s13, s14, s15];
    proof {
        assert(mid =~= crate::round::column_round_state(old(state_ref)@, old(msg)@));
    }

    g_reference(&mut s0, &mut s5, &mut s10, &mut s15, msg[8], msg[9]);
    g_reference(&mut s1, &mut s6, &mut s11, &mut s12, msg[10], msg[11]);
    g_reference(&mut s2, &mut s7, &mut s8, &mut s13, msg[12], msg[13]);
    g_reference(&mut s3, &mut s4, &mut s9, &mut s14, msg[14], msg[15]);

    let new_msg: [u32; 16] = [
        msg[2], msg[6], msg[3], msg[10], msg[7], msg[0], msg[4], msg[13], msg[1], msg[11], msg[12],
        msg[5], msg[9], msg[14], msg[15], msg[8],
    ];
    let new_state: [u32; 16] = [s0, s1, s2, s3, s4, s5, s6, s7, s8, s9, s10, s11, s12, s13, s14, s15];
    proof {
        assert(new_state@ =~= crate::round::diagonal_round_state(mid, old(msg)@));
        assert(new_msg@ =~= msg_permute(old(msg)@));
    }
    *msg = new_msg;
    *state_ref = new_state;
}

/// One reference compression: build the 16-word state from the chaining
/// values, the first four initialization words, the counter, the block
/// byte length and the flag word; run seven rounds; fold the two state
/// halves by XOR.
fn compress_reference(chaining_values: &Vec<u32>, block: &[u32; 16], len_bytes: u32, flags: u32) -> (r: Vec<u32>)
    requires
        chaining_values@.len() == 8,
    ensures
        r@.len() == 8,
        r@ == compress1(chaining_values@, block@, len_bytes, flags),
{
    let mut state: [u32; 16] = [
        chaining_values[0],
        chaining_values[1],
        chaining_values[2],
        chaining_values[3],
        chaining_values[4],
        chaining_values[5],
        chaining_values[6],
        chaining_values[7],
        0x6a09e667u32,
        0xbb67ae85u32,
        0x3c6ef372u32,
        0xa54ff53au32,
        0u32,
        0u32,
        len_bytes,
        flags,
    ];
    let mut msg: [u32; 16] = [
        block[0], block[1], block[2], block[3], block[4], block[5], block[6], block[7], block[8],
        block[9], block[10], block[11], block[12], block[13], block[14], block[15],
    ];
    proof {
        assert(state@ =~= chaining_values@ + iv_seq().subrange(0, 4) + seq![
            0u32,
            0u32,
            len_bytes,
            flags,
        ]);
        assert(msg@ =~= block@);
    }
    let ghost s0 = state@;
    let ghost m0 = msg@;
    let mut i: usize = 0;
    while i < 7
        invariant
            i <= 7,
            (state@, msg@) == rounds_spec(s0, m0, i as nat),
            state@.len() == 16,
            msg@.len() == 16,
        decreases 7 - i,
    {
        round_reference(&mut state, &mut msg);
        i = i + 1;
    }
    let mut r: Vec<u32> = Vec::new();
    r.push(state[0] ^ state[8]);
    r.push(state[1] ^ state[9]);
    r.push(state[2] ^ state[10]);
    r.push(state[3] ^ state[11]);
    r.push(state[4] ^ state[12]);
    r.push(state[5] ^ state[13]);
    r.push(state[6] ^ state[14]);
    r.push(state[7] ^ state[15]);
    proof {
        reveal(compress1);
        assert(r@ =~= compress1(chaining_values@, block@, len_bytes, flags));
    }
    r
}

/// A chunk of up to sixteen words read out of the message at the given
/// position, zero-padded to a full block.
fn chunk_block(msg: &[u32], pos: usize, chunk_len: usize) -> (block: [u32; 16])
    requires
        pos + chunk_len <= msg@.len(),
        chunk_len <= 16,
    ensures
        block@ == pad_words(msg@.subrange(pos as int, pos + chunk_len as int)),
{
    let n = msg.len();
    let mut filled: Vec<u32> = Vec::new();
    let mut j: usize = 0;
    while j < chunk_len
        invariant
            j <= chunk_len,
            chunk_len <= 16,
            n == msg@.len(),
            pos + chunk_len <= n,
            filled@ =~= msg@.subrange(pos as int, pos + j as int),
        decreases chunk_len - j,
    {
        filled.push(msg[pos + j]);
        proof {
            assert(filled@ =~= msg@.subrange(pos as int, pos + j + 1 as int));
        }
        j = j + 1;
    }
    while filled.len() < 16
        invariant
            chunk_len <= filled@.len() <= 16,
            filled@.subrange(0, chunk_len as int) =~= msg@.subrange(
                pos as int,
                pos + chunk_len as int,
            ),
            forall|k: int| chunk_len <= k < filled@.len() ==> filled@[k] == 0u32,
        decreases 16 - filled@.len(),
    {
        filled.push(0u32);
    }
    let block: [u32; 16] = [
        filled[0], filled[1], filled[2], filled[3], filled[4], filled[5], filled[6], filled[7],
        filled[8], filled[9], filled[10], filled[11], filled[12], filled[13], filled[14],
        filled[15],
    ];
    proof {
        assert(block@ =~= pad_words(msg@.subrange(pos as int, pos + chunk_len as int)));
    }
    block
}

/// The reference incremental chaining: absorb the message in chunks of
/// sixteen words, the last chunk zero-padded, with the chunk-start flag
/// on the first block and the chunk-end and root flags on the last.
#[verifier::rlimit(100)]
pub fn blake3ic_reference(msg: &[u32]) -> (r: [u32; 8])
    ensures
        r@ == blake3ic_spec(msg@),
{
    let mut chaining_values: Vec<u32> = Vec::new();
    chaining_values.push(0x6a09e667u32);
    chaining_values.push(0xbb67ae85u32);
    chaining_values.push(0x3c6ef372u32);
    chaining_values.push(0xa54ff53au32);
    chaining_values.push(0x510e527fu32);
    chaining_values.push(0x9b05688cu32);
    chaining_values.push(0x1f83d9abu32);
    chaining_values.push(0x5be0cd19u32);
    proof {
        assert(chaining_values@ =~= iv_seq());
        assert(msg@.subrange(0, msg@.len() as int) =~= msg@);
    }

    let n = msg.len();
    let mut pos: usize = 0;
    while pos < n
        invariant
            pos <= n,
            n == msg@.len(),
            chaining_values@.len() == 8,
            blake3ic_spec(msg@) == chain_chunks(
                chaining_values@,
                msg@.subrange(pos as int, n as int),
                pos == 0,
            ),
        decreases n - pos,
    {
        let ghost rest = msg@.subrange(pos as int, n as int);
        let remaining = n - pos;
        let chunk_len = if remaining < 16 {
            remaining
        } else {
            16
        };
        let last = remaining <= 16;

        let block = chunk_block(msg, pos, chunk_len);

        let mut d: u32 = 0;
        if pos == 0 {
            d = d ^ 1;
        }
        if last {
            d = d ^ 2;
            d = d ^ 8;
        }
        proof {
            lemma_flag_values();
            assert(d == block_flags(pos == 0, last));
        }

        let len_bytes: u32 = (chunk_len as u32) * 4;
        let new_cv = compress_reference(&chaining_values, &block, len_bytes, d);
        chaining_values = new_cv;

        proof {
            if last {
                assert(rest =~= msg@.subrange(pos as int, pos + chunk_len as int));
                assert(msg@.subrange(pos + chunk_len as int, n as int) =~= Seq::<u32>::empty());
            } else {
                assert(block@ =~= rest.subrange(0, 16)) by {
                    assert(rest.subrange(0, 16) =~= msg@.subrange(pos as int, pos + 16 as int));
                    assert(pad_words(msg@.subrange(pos as int, pos + 16 as int)) =~= msg@.subrange(
                        pos as int,
                        pos + 16 as int,
                    ));
                }
                assert(rest.subrange(16, rest.len() as int) =~= msg@.subrange(
                    pos + 16,
                    n as int,
                ));
            }
        }
        pos = pos + chunk_len;
    }

    proof {
        assert(msg@.subrange(pos as int, n as int) =~= Seq::<u32>::empty());
    }
    let r: [u32; 8] = [
        chaining_values[0],
        chaining_values[1],
        chaining_values[2],
        chaining_values[3],
        chaining_values[4],
        chaining_values[5],
        chaining_values[6],
        chaining_values[7],
    ];
    proof {
        assert(r@ =~= chaining_values@);
    }
    r
}

} // verus!
