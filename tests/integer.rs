use std::cmp::Ordering;

use num::bigint::Sign;
use num::{BigInt, BigUint};
use tvm_integer::{
    binary_op, bitsize, check_overflow, construct_double_nan, construct_single_nan,
    process_double_result, process_single_result, twos_complement, unary_op, Checked, Int,
    IntegerData, IntegerError, Quiet,
};

fn mk(v: i64) -> Int {
    let m = v.unsigned_abs();
    Int::from_parts(v < 0, vec![m as u32, (m >> 32) as u32])
}

fn to_big(x: &Int) -> BigInt {
    let sign = if x.is_negative() { Sign::Minus } else { Sign::Plus };
    BigInt::from_slice(sign, x.digits())
}

fn from_big(x: &BigInt) -> Int {
    let (sign, digits) = x.to_u32_digits();
    Int::from_parts(sign == Sign::Minus, digits)
}

/// 2^k as words.
fn pow2_words(k: usize) -> Vec<u32> {
    let mut w = vec![0u32; k / 32 + 1];
    w[k / 32] = 1 << (k % 32);
    w
}

fn data(v: i64) -> IntegerData {
    IntegerData::from_int(mk(v)).unwrap()
}

#[test]
fn bitsize_small_values() {
    assert_eq!(bitsize(&mk(0)), 1);
    assert_eq!(bitsize(&mk(-1)), 1);
    assert_eq!(bitsize(&mk(1)), 2);
    assert_eq!(bitsize(&mk(-2)), 2);
    assert_eq!(bitsize(&mk(3)), 3);
    assert_eq!(bitsize(&mk(-3)), 3);
    assert_eq!(bitsize(&mk(-4)), 3);
    assert_eq!(bitsize(&mk(-5)), 4);
    assert_eq!(bitsize(&mk(4)), 4);
    assert_eq!(bitsize(&mk(127)), 8);
    assert_eq!(bitsize(&mk(-128)), 8);
    assert_eq!(bitsize(&mk(-129)), 9);
}

#[test]
fn bitsize_across_words() {
    // 2^32 needs 33 magnitude bits and a sign bit.
    assert_eq!(bitsize(&mk(1 << 32)), 34);
    assert_eq!(bitsize(&mk(-(1 << 32))), 33);
    assert_eq!(bitsize(&mk(-(1 << 32) - 1)), 34);
}

#[test]
fn check_overflow_at_the_bound() {
    // 2^255 + 1: 256 magnitude bits, bit size 257, fits.
    let mut w = pow2_words(255);
    w[0] = 1;
    let x = Int::from_parts(false, w.clone());
    assert_eq!(bitsize(&x), 257);
    assert!(check_overflow(&x));
    // A 255-bit magnitude fits.
    let mut w255 = pow2_words(254);
    w255[0] = 3;
    assert!(check_overflow(&Int::from_parts(false, w255)));
    // 2^256: 257 magnitude bits, bit size 258, overflows.
    let y = Int::from_parts(false, pow2_words(256));
    assert_eq!(bitsize(&y), 258);
    assert!(!check_overflow(&y));
    // -2^256 fits in 257 bits; -(2^256 + 1) does not.
    let z = Int::from_parts(true, pow2_words(256));
    assert_eq!(bitsize(&z), 257);
    assert!(check_overflow(&z));
    let mut w = pow2_words(256);
    w[0] = 1;
    let u = Int::from_parts(true, w);
    assert_eq!(bitsize(&u), 258);
    assert!(!check_overflow(&u));
}

#[test]
fn from_int_round_trips() {
    for v in [0i64, 1, -1, 2, -2, 12345, -987654321, i64::MAX, i64::MIN + 1] {
        let d = data(v);
        assert!(!d.is_nan());
        assert_eq!(to_big(d.as_int().unwrap()), BigInt::from(v));
    }
    let mut w = pow2_words(255);
    w[0] = 7;
    let d = IntegerData::from_int(Int::from_parts(true, w.clone())).unwrap();
    assert_eq!(d.as_int().unwrap().digits(), &w);
    assert!(d.is_neg());
}

#[test]
fn from_int_overflow() {
    let r = IntegerData::from_int(Int::from_parts(false, pow2_words(300)));
    assert_eq!(r.unwrap_err(), IntegerError::IntegerOverflow);
}

#[test]
fn from_parts_normalises() {
    let z = Int::from_parts(true, vec![0, 0, 0]);
    assert!(z.is_zero());
    assert!(!z.is_negative());
    assert!(z.digits().is_empty());
    let x = Int::from_parts(false, vec![5, 0]);
    assert_eq!(x.digits(), &vec![5]);
    assert!(x.is_positive());
}

#[test]
fn constructors() {
    assert!(IntegerData::zero().is_zero());
    assert!(IntegerData::new().is_zero());
    assert_eq!(IntegerData::one(), data(1));
    assert_eq!(IntegerData::minus_one(), data(-1));
    assert!(IntegerData::minus_one().is_neg());
    assert!(IntegerData::nan().is_nan());
    assert_eq!(IntegerData::nan(), IntegerData::nan());
    assert_ne!(IntegerData::nan(), IntegerData::zero());
    assert_ne!(IntegerData::one(), IntegerData::zero());
}

#[test]
fn ufits_in_negative_is_false() {
    for bits in [0usize, 1, 8, 256, 257, usize::MAX] {
        assert!(!data(-1).ufits_in(bits));
        assert!(!data(-300).ufits_in(bits));
    }
    assert!(data(255).ufits_in(8));
    assert!(!data(256).ufits_in(8));
    assert!(data(0).ufits_in(0));
}

#[test]
fn fits_in_and_ubitsize() {
    assert!(data(127).fits_in(8));
    assert!(!data(128).fits_in(8));
    assert!(data(-128).fits_in(8));
    assert!(!data(-129).fits_in(8));
    assert_eq!(data(255).ubitsize(), 8);
    assert_eq!(data(-256).ubitsize(), 9);
    assert_eq!(data(-256).bitsize(), 9);
    assert_eq!(data(0).ubitsize(), 0);
}

#[test]
fn cmp_with_nan() {
    let nan = IntegerData::nan();
    let one = IntegerData::one();
    assert_eq!(one.cmp::<Checked>(&nan), Err(IntegerError::NaNOperand));
    assert_eq!(nan.cmp::<Checked>(&one), Err(IntegerError::NaNOperand));
    assert_eq!(one.cmp::<Quiet>(&nan), Ok(None));
    assert_eq!(nan.cmp::<Quiet>(&nan), Ok(None));
}

#[test]
fn cmp_numbers() {
    assert_eq!(IntegerData::one().cmp::<Checked>(&IntegerData::zero()), Ok(Some(Ordering::Greater)));
    assert_eq!(data(-5).cmp::<Quiet>(&data(3)), Ok(Some(Ordering::Less)));
    assert_eq!(data(-5).cmp::<Checked>(&data(-7)), Ok(Some(Ordering::Greater)));
    assert_eq!(data(1 << 40).cmp::<Checked>(&data(1 << 40)), Ok(Some(Ordering::Equal)));
}

#[test]
fn nan_is_neither_zero_nor_negative() {
    let nan = IntegerData::nan();
    assert!(!nan.is_zero());
    assert!(!nan.is_neg());
}

fn multiply(a: &Int, b: &Int) -> Int {
    from_big(&(to_big(a) * to_big(b)))
}

fn huge() -> IntegerData {
    IntegerData::from_int(Int::from_parts(false, pow2_words(200))).unwrap()
}

#[test]
fn binary_op_overflow_checked() {
    let r = binary_op::<Checked, _, _, _, _, _>(
        &huge(),
        &huge(),
        multiply,
        construct_single_nan,
        process_single_result::<Checked, _>,
    );
    assert_eq!(r, Err(IntegerError::IntegerOverflow));
}

#[test]
fn binary_op_overflow_quiet() {
    let r = binary_op::<Quiet, _, _, _, _, _>(
        &huge(),
        &huge(),
        multiply,
        construct_single_nan,
        process_single_result::<Quiet, _>,
    );
    assert!(r.unwrap().is_nan());
}

#[test]
fn binary_op_in_range() {
    let r = binary_op::<Checked, _, _, _, _, _>(
        &data(-6),
        &data(7),
        multiply,
        construct_single_nan,
        process_single_result::<Checked, _>,
    );
    assert_eq!(r, Ok(data(-42)));
}

#[test]
fn binary_op_nan_operand() {
    let r = binary_op::<Checked, _, _, _, _, _>(
        &data(1),
        &IntegerData::nan(),
        multiply,
        construct_single_nan,
        process_single_result::<Checked, _>,
    );
    assert_eq!(r, Err(IntegerError::NaNOperand));
    let q = binary_op::<Quiet, _, _, _, _, _>(
        &IntegerData::nan(),
        &data(1),
        multiply,
        construct_single_nan,
        process_single_result::<Quiet, _>,
    );
    assert!(q.unwrap().is_nan());
}

#[test]
fn unary_op_negates() {
    let negate = |a: &Int| from_big(&-to_big(a));
    let r = unary_op::<Checked, _, _, _, _, _>(&data(9), negate, construct_single_nan, process_single_result::<Checked, _>);
    assert_eq!(r, Ok(data(-9)));
    // -(-2^256) = 2^256 needs 258 bits.
    let low = IntegerData::from_int(Int::from_parts(true, pow2_words(256))).unwrap();
    let r = unary_op::<Checked, _, _, _, _, _>(&low, negate, construct_single_nan, process_single_result::<Checked, _>);
    assert_eq!(r, Err(IntegerError::IntegerOverflow));
    let r = unary_op::<Quiet, _, _, _, _, _>(&low, negate, construct_single_nan, process_single_result::<Quiet, _>);
    assert!(r.unwrap().is_nan());
    let r = unary_op::<Checked, _, _, _, _, _>(&IntegerData::nan(), negate, construct_single_nan, process_single_result::<Checked, _>);
    assert_eq!(r, Err(IntegerError::NaNOperand));
}

fn divide(a: &Int, b: &Int) -> (Int, Int) {
    let (x, y) = (to_big(a), to_big(b));
    (from_big(&(&x / &y)), from_big(&(&x % &y)))
}

#[test]
fn double_result() {
    let r = binary_op::<Checked, _, _, _, _, _>(
        &data(17),
        &data(5),
        divide,
        construct_double_nan,
        process_double_result::<Checked, _>,
    );
    assert_eq!(r, Ok((data(3), data(2))));
    let big = Int::from_parts(false, pow2_words(260));
    let r = process_double_result::<Checked, _>((big, mk(1)), construct_double_nan);
    assert_eq!(r, Err(IntegerError::IntegerOverflow));
    let big = Int::from_parts(false, pow2_words(260));
    let (a, b) = process_double_result::<Quiet, _>((big, mk(1)), construct_double_nan).unwrap();
    assert!(a.is_nan() && b.is_nan());
    let (a, b) = construct_double_nan();
    assert!(a.is_nan() && b.is_nan());
}

#[test]
fn twos_complement_values() {
    let mut one = vec![1u32, 0];
    twos_complement(&mut one);
    assert_eq!(one, vec![u32::MAX, u32::MAX]);
    let mut w = vec![0u32, 1];
    twos_complement(&mut w);
    assert_eq!(w, vec![0, u32::MAX]);
    let mut zero = vec![0u32, 0, 0];
    twos_complement(&mut zero);
    assert_eq!(zero, vec![0, 0, 0]);
    let mut empty: Vec<u32> = vec![];
    twos_complement(&mut empty);
    assert!(empty.is_empty());
}

#[test]
fn twos_complement_twice_restores() {
    for original in [vec![1u32, 2, 3], vec![0, 0, 5], vec![u32::MAX], vec![0, 0x8000_0000], vec![0, 0]] {
        let mut w = original.clone();
        twos_complement(&mut w);
        twos_complement(&mut w);
        assert_eq!(w, original);
    }
}

#[test]
fn withdraw_then_withdraw_again() {
    let mut slot = data(77);
    let first = slot.withdraw();
    assert_eq!(first, data(77));
    assert_eq!(slot, IntegerData::zero());
    let second = slot.withdraw();
    assert_eq!(second, IntegerData::zero());
    assert_eq!(slot, IntegerData::zero());
}

#[test]
fn replace_overwrites() {
    let mut slot = data(5);
    slot.replace(IntegerData::nan());
    assert!(slot.is_nan());
    slot.replace(data(-3));
    assert_eq!(slot, data(-3));
    let r: &IntegerData = slot.as_ref();
    assert!(r.is_neg());
}

#[test]
fn int_compare_and_sign() {
    assert_eq!(mk(-3).compare(&mk(2)), Ordering::Less);
    assert_eq!(mk(1 << 33).compare(&mk(1 << 32)), Ordering::Greater);
    assert_eq!(Int::unit(true).compare(&mk(-1)), Ordering::Equal);
    assert!(Int::zero().is_zero());
    assert!(Int::unit(true).is_negative());
}

#[test]
fn bitsize_is_narrowest_width() {
    for v in -300i64..300 {
        let d = data(v);
        for n in 1usize..12 {
            let half = 1i64 << (n - 1);
            assert_eq!(d.fits_in(n), -half <= v && v < half, "value {} width {}", v, n);
        }
    }
}
