use blake3_gadgets::compact::{get_u32_compact_representation, U32CompactVar};
use blake3_gadgets::context::{ConstraintContext, Element};
use blake3_gadgets::lookup_table::LookupTableVar;
use blake3_gadgets::u4::U4Var;
use blake3_gadgets::u32::U32Var;
use rand::{Rng, SeedableRng};
use rand_chacha::ChaCha20Rng;

fn num_at(cs: &ConstraintContext, variable: usize) -> u32 {
    match &cs.entries[variable].element {
        Element::Num(v) => *v,
        Element::Str(_) => panic!("expected a numeric element"),
    }
}

#[test]
fn test_xor() {
    let mut prng = ChaCha20Rng::seed_from_u64(0);
    for _ in 0..100 {
        let mut cs = ConstraintContext::new();

        let a: u32 = prng.gen_range(0..16);
        let b: u32 = prng.gen_range(0..16);

        let a_var = U4Var::new_program_input(&mut cs, a);
        let b_var = U4Var::new_program_input(&mut cs, b);

        let lookup_table = LookupTableVar::new_constant(&mut cs);

        let res_var = a_var.bitxor(&mut cs, &lookup_table, &b_var);
        assert_eq!(res_var.value().unwrap(), a ^ b);
    }
}

#[test]
fn u4_test_xor() {
    let mut prng = ChaCha20Rng::seed_from_u64(0);
    for _ in 0..100 {
        let mut cs = ConstraintContext::new();

        let a: u32 = prng.gen_range(0..16);
        let b: u32 = prng.gen_range(0..16);

        let a_var = U4Var::new_program_input(&mut cs, a);
        let b_var = U4Var::new_program_input(&mut cs, b);

        let lookup_table = LookupTableVar::new_constant(&mut cs);

        let res_var = a_var.bitxor(&mut cs, &lookup_table, &b_var);
        assert_eq!(res_var.value().unwrap(), a ^ b);
    }
}

#[test]
fn nibble_xor_exhaustive() {
    let mut cs = ConstraintContext::new();
    let table = LookupTableVar::new_constant(&mut cs);
    for a in 0u32..16 {
        for b in 0u32..16 {
            let a_var = U4Var::new_program_input(&mut cs, a);
            let b_var = U4Var::new_program_input(&mut cs, b);
            let res = a_var.bitxor(&mut cs, &table, &b_var);
            assert_eq!(res.value().unwrap(), a ^ b);
        }
    }
}

#[test]
fn test_table() {
    let mut cs = ConstraintContext::new();
    let table = LookupTableVar::new_constant(&mut cs);

    assert_eq!(table.xor_table_var.variables.len(), 256);
    for k in 0..256usize {
        let i = 15 - (k as u32) / 16;
        let j = 15 - (k as u32) % 16;
        assert_eq!(num_at(&cs, table.xor_table_var.variables[k]), i ^ j);
    }
    assert_eq!(table.row_table.variables.len(), 16);
    for k in 0..16usize {
        assert_eq!(num_at(&cs, table.row_table.variables[k]), (15 - k as u32) * 16);
    }
    assert_eq!(table.shr3table_var.variables.len(), 16);
    for k in 0..16usize {
        assert_eq!(num_at(&cs, table.shr3table_var.variables[k]), (15 - k as u32) >> 3);
    }
    assert_eq!(table.shl1table_var.variables.len(), 16);
    for k in 0..16usize {
        assert_eq!(num_at(&cs, table.shl1table_var.variables[k]), ((15 - k as u32) << 1) & 15);
    }
    assert_eq!(table.quotient_table_var.variables.len(), 48);
    for k in 0..48usize {
        assert_eq!(num_at(&cs, table.quotient_table_var.variables[k]), (47 - k as u32) / 16);
    }
    assert_eq!(table.remainder_table_var.variables.len(), 48);
    for k in 0..48usize {
        assert_eq!(num_at(&cs, table.remainder_table_var.variables[k]), (47 - k as u32) % 16);
    }
}

#[test]
fn test_u32_add() {
    let mut prng = ChaCha20Rng::seed_from_u64(0);

    for _ in 0..100 {
        let mut cs = ConstraintContext::new();

        let a: u32 = prng.gen();
        let b: u32 = prng.gen();

        let a_var = U32Var::new_program_input(&mut cs, a);
        let b_var = U32Var::new_program_input(&mut cs, b);

        let table_var = LookupTableVar::new_constant(&mut cs);

        let res_var = a_var.add(&mut cs, &table_var, &b_var);
        assert_eq!(res_var.value(&cs), a.wrapping_add(b));
    }
}

#[test]
fn word_add_exact_values() {
    let mut cs = ConstraintContext::new();
    let table = LookupTableVar::new_constant(&mut cs);

    let one = U32Var::new_program_input(&mut cs, 1);
    let two = U32Var::new_program_input(&mut cs, 2);
    assert_eq!(one.add(&mut cs, &table, &two).value(&cs), 3);

    let max = U32Var::new_program_input(&mut cs, 0xffff_ffff);
    assert_eq!(max.add(&mut cs, &table, &one).value(&cs), 0);

    let a = U32Var::new_program_input(&mut cs, 0x8000_0000);
    let b = U32Var::new_program_input(&mut cs, 0x8000_0001);
    assert_eq!(a.add(&mut cs, &table, &b).value(&cs), 1);

    let c = U32Var::new_program_input(&mut cs, 0xffff_ffff);
    assert_eq!(a.add3(&mut cs, &table, &b, &c).value(&cs), 0);
}

#[test]
fn test_u32_rotate_right_shift_7() {
    let mut prng = ChaCha20Rng::seed_from_u64(0);

    let mut cs = ConstraintContext::new();
    let a: u32 = prng.gen();
    let shifted_a = a.rotate_right(7);

    let a_var = U32Var::new_program_input(&mut cs, a);
    let table_var = LookupTableVar::new_constant(&mut cs);

    let shifted_a_var = a_var.rotate_right_shift_7(&mut cs, &table_var);
    assert_eq!(shifted_a_var.value(&cs), shifted_a);
}

#[test]
fn u32_test_u32_rotate_right_shift_7() {
    let mut prng = ChaCha20Rng::seed_from_u64(0);

    let mut cs = ConstraintContext::new();
    let a: u32 = prng.gen();
    let shifted_a = a.rotate_right(7);

    let a_var = U32Var::new_program_input(&mut cs, a);
    let table_var = LookupTableVar::new_constant(&mut cs);

    let shifted_a_var = a_var.rotate_right_shift_7(&mut cs, &table_var);
    assert_eq!(shifted_a_var.value(&cs), shifted_a);
}

#[test]
fn rotations_match_standard_rotation() {
    let mut prng = ChaCha20Rng::seed_from_u64(7);
    let mut cs = ConstraintContext::new();
    let table = LookupTableVar::new_constant(&mut cs);

    for _ in 0..20 {
        let a: u32 = prng.gen();
        let a_var = U32Var::new_program_input(&mut cs, a);
        assert_eq!(a_var.rotate_right_shift_16().value(&cs), a.rotate_right(16));
        assert_eq!(a_var.rotate_right_shift_12().value(&cs), a.rotate_right(12));
        assert_eq!(a_var.rotate_right_shift_8().value(&cs), a.rotate_right(8));
        assert_eq!(a_var.rotate_right_shift_7(&mut cs, &table).value(&cs), a.rotate_right(7));
    }

    let v = U32Var::new_program_input(&mut cs, 0x1234_5678);
    assert_eq!(v.rotate_right_shift_16().value(&cs), 0x5678_1234);
    assert_eq!(v.rotate_right_shift_8().value(&cs), 0x7812_3456);
}

#[test]
fn test_u32_compact_from_to_u32() {
    let mut prng = ChaCha20Rng::seed_from_u64(0);

    let mut cs = ConstraintContext::new();
    let a: u32 = prng.gen();

    let a_var = U32Var::new_program_input(&mut cs, a);
    let a_compact_var = U32CompactVar::from_u32var(&mut cs, &a_var);
    let a_recovered_var = a_compact_var.to_u32var(&mut cs);
    let a_compact_recovered_var = U32CompactVar::from_u32var(&mut cs, &a_recovered_var);

    assert_eq!(a_var.value(&cs), a_recovered_var.value(&cs));
    assert_eq!(a_compact_var.value, a_compact_recovered_var.value);
}

#[test]
fn test_u32_compact_from_to_u32_corner() {
    let mut cs = ConstraintContext::new();
    let a = 0u32;

    let a_var = U32Var::new_program_input(&mut cs, a);
    let a_compact_var = U32CompactVar::from_u32var(&mut cs, &a_var);
    let a_recovered_var = a_compact_var.to_u32var(&mut cs);
    let a_compact_recovered_var = U32CompactVar::from_u32var(&mut cs, &a_recovered_var);

    assert_eq!(a_var.value(&cs), a_recovered_var.value(&cs));
    assert_eq!(a_compact_var.value, a_compact_recovered_var.value);

    let mut cs = ConstraintContext::new();
    let a = 0x80000000u32;

    let a_var = U32Var::new_program_input(&mut cs, a);
    let a_compact_var = U32CompactVar::from_u32var(&mut cs, &a_var);
    let a_recovered_var = a_compact_var.to_u32var(&mut cs);
    let a_compact_recovered_var = U32CompactVar::from_u32var(&mut cs, &a_recovered_var);

    assert_eq!(a_var.value(&cs), a_recovered_var.value(&cs));
    assert_eq!(a_compact_var.value, a_compact_recovered_var.value);
}

#[test]
fn compact_representation_exact_bytes() {
    assert_eq!(get_u32_compact_representation(0), Vec::<u8>::new());
    assert_eq!(get_u32_compact_representation(0x8000_0000), vec![0x80]);
    assert_eq!(get_u32_compact_representation(0x1234_5678), vec![0x78, 0x56, 0x34, 0x12]);
    assert_eq!(get_u32_compact_representation(0xff00), vec![0x00, 0xff, 0x00]);
    assert_eq!(get_u32_compact_representation(0x8000_0001), vec![0x81]);
    assert_eq!(get_u32_compact_representation(0x8000_ff00), vec![0x00, 0xff, 0x80]);
    assert_eq!(get_u32_compact_representation(1), vec![0x01]);
}

#[test]
fn nibble_value_out_of_range_is_rejected() {
    let mut cs = ConstraintContext::new();
    let good = U4Var::new_program_input(&mut cs, 15);
    assert_eq!(good.value().unwrap(), 15);

    let bad = U4Var { variable: 0, value: 99 };
    assert!(bad.value().is_err());
}

#[test]
fn gadgets_insert_the_expected_subprograms() {
    let mut cs = ConstraintContext::new();
    let table = LookupTableVar::new_constant(&mut cs);
    let a = U4Var::new_program_input(&mut cs, 9);
    let b = U4Var::new_program_input(&mut cs, 5);

    let before = cs.scripts.len();
    let _ = a.bitxor(&mut cs, &table, &b);
    assert_eq!(cs.scripts.len(), before + 1);

    let before = cs.scripts.len();
    let _ = a.add(&mut cs, &table, &b);
    assert_eq!(cs.scripts.len(), before + 1);

    let before = cs.scripts.len();
    let _ = a.get_shr3(&mut cs, &table);
    let _ = b.get_shl1(&mut cs, &table);
    assert_eq!(cs.scripts.len(), before + 2);

    let w1 = U32Var::new_program_input(&mut cs, 0xdead_beef);
    let w2 = U32Var::new_program_input(&mut cs, 0x0bad_cafe);

    // A word addition carry-chains one reducing addition per limb.
    let before = cs.scripts.len();
    let _ = w1.add(&mut cs, &table, &w2);
    assert_eq!(cs.scripts.len(), before + 8);

    // A rotation by a multiple of four bits emits nothing at all.
    let before = cs.scripts.len();
    let _ = w1.rotate_right_shift_16();
    assert_eq!(cs.scripts.len(), before);

    // The seven-bit rotation needs two probes and one recombination
    // per limb.
    let before = cs.scripts.len();
    let _ = w1.rotate_right_shift_7(&mut cs, &table);
    assert_eq!(cs.scripts.len(), before + 24);
}
