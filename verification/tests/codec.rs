//! Behaviour of the word codec and the field arithmetic it rests on.

use sp1_air::expr::{Expr, Var};
use sp1_air::felt::{Felt, FIELD_ORDER};
use sp1_air::word::Word;

#[test]
fn felt_embeddings_are_canonical() {
    assert_eq!(Felt::from_canonical_u8(0xAB).as_canonical_u64(), 0xAB);
    assert_eq!(Felt::from_canonical_u32(0xDEADBEEF).as_canonical_u64(), 0xDEADBEEF);
    assert_eq!(Felt::zero().as_canonical_u64(), 0);
}

#[test]
fn felt_addition_wraps_at_field_order() {
    let a = Felt::from_canonical_u32(7);
    let b = Felt::from_canonical_u32(35);
    assert_eq!(a.add(b).as_canonical_u64(), 42);

    let almost = Felt::from_canonical_u32(u32::MAX);
    let mut near_top = almost;
    // 2^32 - 1 doubled 32 times is (2^32 - 1) * 2^32 = FIELD_ORDER - 1.
    for _ in 0..32 {
        near_top = near_top.add(near_top);
    }
    assert_eq!(near_top.as_canonical_u64(), FIELD_ORDER - 1);
    assert_eq!(near_top.add(Felt::from_canonical_u32(1)).as_canonical_u64(), 0);
}

#[test]
fn felt_multiplication_wraps_at_field_order() {
    let a = Felt::from_canonical_u32(1 << 16);
    let sixteen_th = a.mul(a).mul(a.mul(a));
    // 2^64 mod (2^64 - 2^32 + 1) is 2^32 - 1.
    assert_eq!(sixteen_th.as_canonical_u64(), (1u64 << 32) - 1);
    assert_eq!(
        Felt::from_canonical_u32(6).mul(Felt::from_canonical_u32(7)).as_canonical_u64(),
        42
    );
}

#[test]
fn from_u32_gives_little_endian_byte_limbs() {
    let w = Word::from_u32(0x11223344);
    let expected: [u64; 4] = [0x44, 0x33, 0x22, 0x11];
    for (i, want) in expected.iter().enumerate() {
        assert_eq!(w.limb(i).as_canonical_u64(), *want);
    }
}

#[test]
fn reduce_recovers_the_encoded_value() {
    assert_eq!(Word::from_u32(0x11223344).reduce().as_canonical_u64(), 0x11223344);
    assert_eq!(Word::from_u32(0).reduce().as_canonical_u64(), 0);
    assert_eq!(Word::from_u32(u32::MAX).reduce().as_canonical_u64(), u32::MAX as u64);
}

#[test]
fn to_u32_round_trips() {
    for v in [0u32, 1, 0xFF, 0x100, 0x11223344, 0xFFFFFFFF, 0x80000000] {
        assert_eq!(Word::from_u32(v).to_u32(), v);
    }
}

#[test]
fn try_to_u32_rejects_a_malformed_word() {
    let malformed = Word(
        Felt::from_canonical_u32(0x44),
        Felt::from_canonical_u32(0x33),
        Felt::from_canonical_u32(300),
        Felt::from_canonical_u32(0x11),
    );
    assert_eq!(malformed.try_to_u32(), None);

    let sound = Word::from_u32(0xCAFEF00D);
    assert_eq!(sound.try_to_u32(), Some(0xCAFEF00D));
}

#[test]
fn from_limbs_takes_the_first_four_in_order() {
    let limbs = vec![
        Felt::from_canonical_u8(4),
        Felt::from_canonical_u8(3),
        Felt::from_canonical_u8(2),
        Felt::from_canonical_u8(1),
        Felt::from_canonical_u8(99),
        Felt::from_canonical_u8(98),
    ];
    let w = Word::from_limbs(limbs);
    assert_eq!(w.to_u32(), 0x01020304);
}

#[test]
fn map_preserves_word_shape() {
    let w = Word::from_u32(0x0A0B0C0D);
    let doubled = w.map(|limb: Felt| limb.add(limb));
    let expected: [u64; 4] = [0x1A, 0x18, 0x16, 0x14];
    for (i, want) in expected.iter().enumerate() {
        assert_eq!(doubled.limb(i).as_canonical_u64(), *want);
    }
}

#[test]
fn into_limbs_lists_all_four_limbs_in_order() {
    let limbs = Word::from_u32(0x11223344).into_limbs();
    let expected: [u64; 4] = [0x44, 0x33, 0x22, 0x11];
    assert_eq!(limbs.len(), expected.len());
    for (limb, want) in limbs.iter().zip(expected.iter()) {
        assert_eq!(limb.as_canonical_u64(), *want);
    }
}

#[test]
fn limbs_can_be_read_and_replaced() {
    let mut w = Word::from_u32(0x11223344);
    assert_eq!(w.limb(0).as_canonical_u64(), 0x44);
    w.set_limb(3, Felt::from_canonical_u8(0x7F));
    assert_eq!(w.to_u32(), 0x7F223344);
}

#[test]
fn expression_evaluation_follows_the_assignment() {
    let env = vec![200u64, 3];
    let x = Expr::from_var(Var { index: 0 });
    let y = Expr::from_var(Var { index: 1 });
    assert_eq!(x.evaluate(&env), 200);
    assert_eq!(y.evaluate(&env), 3);
    let sum = Expr::from_var(Var { index: 0 }).add(Expr::from_var(Var { index: 1 }));
    assert_eq!(sum.evaluate(&env), 203);
    let scaled = Expr::constant(5).mul(Expr::from_var(Var { index: 1 }));
    assert_eq!(scaled.evaluate(&env), 15);
    // A variable beyond the assignment reads as zero.
    let beyond = Expr::from_var(Var { index: 9 });
    assert_eq!(beyond.evaluate(&env), 0);
}

#[test]
fn expression_arithmetic_wraps_at_field_order() {
    let top = Expr::constant(FIELD_ORDER - 1);
    let five = Expr::constant(5);
    assert_eq!(top.add(five).evaluate(&Vec::new()), 4);
    let two = Expr::constant(2);
    assert_eq!(Expr::constant(FIELD_ORDER - 1).mul(two).evaluate(&Vec::new()), FIELD_ORDER - 2);
}

#[test]
fn extend_var_reduces_to_the_variable() {
    let w = Word::extend_var(Var { index: 0 });
    let env = vec![200u64];
    // The high limbs are the zero constant.
    for i in 1..4 {
        assert_eq!(w.limb(i).evaluate(&env), 0);
    }
    assert_eq!(w.reduce().evaluate(&env), 200);
}

#[test]
fn extend_expr_reduces_to_the_expression() {
    let e = Expr::constant(7).add(Expr::from_var(Var { index: 2 }));
    let w = Word::extend_expr(e);
    let env = vec![0u64, 0, 80];
    assert_eq!(w.limb(0).evaluate(&env), 87);
    assert_eq!(w.reduce().evaluate(&env), 87);
}

#[test]
fn zero_word_reduces_to_zero() {
    let w = Word::<Expr>::zero();
    let env = vec![5u64, 6, 7];
    for i in 0..4 {
        assert_eq!(w.limb(i).evaluate(&env), 0);
    }
    assert_eq!(w.reduce().evaluate(&env), 0);
}

#[test]
fn variable_word_reduces_to_the_weighted_sum() {
    let w = Word(
        Var { index: 0 },
        Var { index: 1 },
        Var { index: 2 },
        Var { index: 3 },
    );
    let env = vec![0x44u64, 0x33, 0x22, 0x11];
    assert_eq!(w.reduce().evaluate(&env), 0x11223344);
}
