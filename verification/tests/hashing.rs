use blake3_gadgets::blake3::{hash, hash_limbs, Blake3CompactHashVar, Blake3ConstantVar, ToU4LimbVar};
use blake3_gadgets::blake3ic::Blake3ICChannelVar;
use blake3_gadgets::context::ConstraintContext;
use blake3_gadgets::g::g;
use blake3_gadgets::reference::{blake3ic_reference, g_reference, round_reference};
use blake3_gadgets::round::round;
use blake3_gadgets::u4::U4Var;
use blake3_gadgets::u32::U32Var;
use rand::{Rng, SeedableRng};
use rand_chacha::ChaCha20Rng;

fn limbs_of_words(words: &[U32Var]) -> Vec<U4Var> {
    let mut limbs = Vec::new();
    for w in words.iter() {
        limbs.extend(w.to_u4_limbs());
    }
    limbs
}

#[test]
fn test_g() {
    let mut prng = ChaCha20Rng::seed_from_u64(0);

    for _ in 0..100 {
        let mut a: u32 = prng.gen();
        let mut b: u32 = prng.gen();
        let mut c: u32 = prng.gen();
        let mut d: u32 = prng.gen();
        let m_0: u32 = prng.gen();
        let m_1: u32 = prng.gen();

        let mut cs = ConstraintContext::new();

        let mut a_var = U32Var::new_program_input(&mut cs, a);
        let mut b_var = U32Var::new_program_input(&mut cs, b);
        let mut c_var = U32Var::new_program_input(&mut cs, c);
        let mut d_var = U32Var::new_program_input(&mut cs, d);
        let m_0_var = U32Var::new_program_input(&mut cs, m_0);
        let m_1_var = U32Var::new_program_input(&mut cs, m_1);

        let constant = Blake3ConstantVar::new(&mut cs);

        g(
            &mut cs,
            &constant.table,
            &mut a_var,
            &mut b_var,
            &mut c_var,
            &mut d_var,
            &m_0_var,
            &m_1_var,
        );
        g_reference(&mut a, &mut b, &mut c, &mut d, m_0, m_1);

        assert_eq!(a_var.value(&cs), a);
        assert_eq!(b_var.value(&cs), b);
        assert_eq!(c_var.value(&cs), c);
        assert_eq!(d_var.value(&cs), d);
    }
}

#[test]
fn test_round() {
    let mut prng = ChaCha20Rng::seed_from_u64(0);

    let mut state = [0u32; 16];
    for i in 0..16 {
        state[i] = prng.gen();
    }
    let mut msg = [0u32; 16];
    for i in 0..16 {
        msg[i] = prng.gen();
    }

    let mut cs = ConstraintContext::new();
    let mut state_var = Vec::new();
    for v in state.iter() {
        state_var.push(U32Var::new_program_input(&mut cs, *v));
    }
    let mut msg_var = Vec::new();
    for v in msg.iter() {
        msg_var.push(U32Var::new_program_input(&mut cs, *v));
    }

    let constant = Blake3ConstantVar::new(&mut cs);
    round(&mut cs, &constant.table, &mut state_var, &mut msg_var);
    round_reference(&mut state, &mut msg);

    for i in 0..16 {
        assert_eq!(state_var[i].value(&cs), state[i]);
        assert_eq!(msg_var[i].value(&cs), msg[i]);
    }
}

#[test]
fn test_blake3() {
    let mut prng = ChaCha20Rng::seed_from_u64(0);
    let mut messages = Vec::<u32>::with_capacity(16);
    for _ in 0..16 {
        messages.push(prng.gen());
    }

    let mut cs = ConstraintContext::new();

    let mut messages_u32 = Vec::new();
    for &v in messages.iter() {
        messages_u32.push(U32Var::new_program_input(&mut cs, v));
    }

    let constant = Blake3ConstantVar::new(&mut cs);
    let computed_hash = hash(&mut cs, &constant, &messages_u32);

    let expected = blake3ic_reference(&messages);

    for i in 0..8 {
        assert_eq!(computed_hash.hash[i].value(&cs), expected[i]);
    }
}

#[test]
fn test_blake3ic() {
    let mut prng = ChaCha20Rng::seed_from_u64(0);
    let mut messages = Vec::<u32>::with_capacity(16);
    for _ in 0..16 {
        messages.push(prng.gen());
    }

    let mut cs = ConstraintContext::new();

    let mut messages_u32 = Vec::new();
    for &v in messages.iter() {
        messages_u32.push(U32Var::new_program_input(&mut cs, v));
    }

    let constant = Blake3ConstantVar::new(&mut cs);
    let mut channel = Blake3ICChannelVar::new(&constant);

    for v in messages_u32.iter() {
        channel.add_assign(&mut cs, &constant, &v.to_u4_limbs());
    }
    let finalized = channel.finalize(&mut cs, &constant);

    let expected = blake3ic_reference(&messages);

    for i in 0..8 {
        assert_eq!(finalized[i].value(&cs), expected[i]);
    }
}

#[test]
fn one_shot_and_incremental_agree() {
    let mut prng = ChaCha20Rng::seed_from_u64(3);
    let mut cs = ConstraintContext::new();
    let constant = Blake3ConstantVar::new(&mut cs);

    for &n_words in [1usize, 15, 16, 17, 40].iter() {
        let mut words = Vec::new();
        for _ in 0..n_words {
            let v: u32 = prng.gen();
            words.push(U32Var::new_program_input(&mut cs, v));
        }

        let one_shot = hash_limbs(&mut cs, &constant, limbs_of_words(&words));

        let mut channel = Blake3ICChannelVar::new(&constant);
        for w in words.iter() {
            channel.add_assign(&mut cs, &constant, &w.to_u4_limbs());
        }
        let incremental = channel.finalize(&mut cs, &constant);

        for i in 0..8 {
            assert_eq!(one_shot.hash[i].value(&cs), incremental[i].value(&cs));
        }
    }
}

#[test]
fn byte_at_a_time_matches_all_at_once() {
    let mut prng = ChaCha20Rng::seed_from_u64(5);
    let mut cs = ConstraintContext::new();
    let constant = Blake3ConstantVar::new(&mut cs);

    // A multi-block message: 36 words are 288 nibbles, more than two
    // full blocks.
    let mut words = Vec::new();
    for _ in 0..36 {
        let v: u32 = prng.gen();
        words.push(U32Var::new_program_input(&mut cs, v));
    }
    let limbs = limbs_of_words(&words);

    let mut whole = Blake3ICChannelVar::new(&constant);
    whole.add_assign(&mut cs, &constant, &limbs);
    let whole_result = whole.finalize(&mut cs, &constant);

    let mut bytewise = Blake3ICChannelVar::new(&constant);
    for pair in limbs.chunks(2) {
        let mut byte = Vec::new();
        byte.push(pair[0]);
        byte.push(pair[1]);
        bytewise.add_assign(&mut cs, &constant, &byte);
    }
    let bytewise_result = bytewise.finalize(&mut cs, &constant);

    for i in 0..8 {
        assert_eq!(whole_result[i].value(&cs), bytewise_result[i].value(&cs));
    }
}

#[test]
fn single_block_matches_reference() {
    let mut prng = ChaCha20Rng::seed_from_u64(11);
    let mut messages = Vec::<u32>::new();
    for _ in 0..16 {
        messages.push(prng.gen());
    }

    let mut cs = ConstraintContext::new();
    let constant = Blake3ConstantVar::new(&mut cs);

    let mut words = Vec::new();
    for &v in messages.iter() {
        words.push(U32Var::new_program_input(&mut cs, v));
    }

    // Exactly one full block: the chunk-start and chunk-end flags are
    // both set on the single compression.
    let mut channel = Blake3ICChannelVar::new(&constant);
    channel.add_assign(&mut cs, &constant, &limbs_of_words(&words));
    let finalized = channel.finalize(&mut cs, &constant);

    let expected = blake3ic_reference(&messages);
    for i in 0..8 {
        assert_eq!(finalized[i].value(&cs), expected[i]);
    }
}

#[test]
fn hash_add_assign_rehashes_both_hashes() {
    let mut prng = ChaCha20Rng::seed_from_u64(13);
    let mut cs = ConstraintContext::new();
    let constant = Blake3ConstantVar::new(&mut cs);

    let mut left_words = Vec::new();
    let mut right_words = Vec::new();
    for _ in 0..16 {
        let v: u32 = prng.gen();
        left_words.push(U32Var::new_program_input(&mut cs, v));
    }
    for _ in 0..16 {
        let v: u32 = prng.gen();
        right_words.push(U32Var::new_program_input(&mut cs, v));
    }

    let mut left = hash_limbs(&mut cs, &constant, limbs_of_words(&left_words));
    let right = hash_limbs(&mut cs, &constant, limbs_of_words(&right_words));

    let mut combined_words = Vec::new();
    for i in 0..8 {
        combined_words.push(left.hash[i]);
    }
    for i in 0..8 {
        combined_words.push(right.hash[i]);
    }
    let expected = hash_limbs(&mut cs, &constant, limbs_of_words(&combined_words));

    left.add_assign(&mut cs, &constant, &right);
    for i in 0..8 {
        assert_eq!(left.hash[i].value(&cs), expected.hash[i].value(&cs));
    }
}

#[test]
fn compact_hash_round_trip() {
    let mut prng = ChaCha20Rng::seed_from_u64(17);
    let mut cs = ConstraintContext::new();
    let constant = Blake3ConstantVar::new(&mut cs);

    let mut words = Vec::new();
    for _ in 0..16 {
        let v: u32 = prng.gen();
        words.push(U32Var::new_program_input(&mut cs, v));
    }
    let hashed = hash_limbs(&mut cs, &constant, limbs_of_words(&words));

    let compact = Blake3CompactHashVar::from_hash_var(&mut cs, &hashed);
    let recovered = compact.to_hash_var(&mut cs);
    for i in 0..8 {
        assert_eq!(recovered.hash[i].value(&cs), hashed.hash[i].value(&cs));
        assert_eq!(compact.hash[i].value, hashed.hash[i].value(&cs));
    }
}

#[test]
fn empty_streams_differ_between_engines() {
    let mut cs = ConstraintContext::new();
    let constant = Blake3ConstantVar::new(&mut cs);

    // The one-shot engine leaves an empty input at the initialization
    // words; the incremental engine still closes one zero-padded block.
    let one_shot = hash_limbs(&mut cs, &constant, Vec::new());
    let channel = Blake3ICChannelVar::new(&constant);
    let incremental = channel.finalize(&mut cs, &constant);

    let iv: [u32; 8] = [
        0x6a09e667, 0xbb67ae85, 0x3c6ef372, 0xa54ff53a, 0x510e527f, 0x9b05688c, 0x1f83d9ab,
        0x5be0cd19,
    ];
    let mut all_equal = true;
    for i in 0..8 {
        assert_eq!(one_shot.hash[i].value(&cs), iv[i]);
        if incremental[i].value(&cs) != iv[i] {
            all_equal = false;
        }
    }
    assert!(!all_equal);
}
