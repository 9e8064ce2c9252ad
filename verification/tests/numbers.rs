use tensaku_print::decimal::{append_natural, append_tenths, append_whole};
use tensaku_print::natural::Natural;
use tensaku_print::number::{rounded_quotient, Number};

fn num(x: f64) -> Number {
    Number::from_double(x.to_bits()).unwrap()
}

fn float(x: &Number) -> f64 {
    f64::from_bits(x.to_double())
}

fn whole(x: &Number) -> String {
    let mut text = String::new();
    append_whole(&mut text, x);
    text
}

fn tenths(x: &Number) -> String {
    let mut text = String::new();
    append_tenths(&mut text, x);
    text
}

const SAMPLES: [f64; 16] = [
    0.0,
    1.0,
    -1.0,
    0.5,
    -0.25,
    595.275590551181,
    -10_000.0,
    1e-300,
    1e300,
    f64::MAX,
    f64::MIN_POSITIVE,
    5e-324,
    3.141592653589793,
    2.718281828459045e-5,
    123456789.987654321,
    4503599627370497.5,
];

#[test]
fn thirds_add_up_to_one() {
    let third = Number::ratio(1, 3);
    let sum = third.plus(&third).plus(&third);
    assert!(sum.equals(&Number::from_int(1)));
    assert!(!third.plus(&third).equals(&Number::from_int(1)));
}

#[test]
fn signs_follow_the_rules() {
    let a = Number::ratio(-7, 2);
    let b = Number::from_int(2);
    assert_eq!(float(&a.plus(&b)), -1.5);
    assert_eq!(float(&a.minus(&b)), -5.5);
    assert_eq!(float(&b.minus(&a)), 5.5);
    assert_eq!(float(&a.times(&b)), -7.0);
    assert_eq!(float(&a.times(&a)), 12.25);
    assert_eq!(float(&a.over(&b)), -1.75);
    assert_eq!(float(&b.over(&a)), -4.0 / 7.0);
    assert_eq!(float(&a.negated()), 3.5);
    assert_eq!(float(&a.magnitude()), 3.5);
    assert!(a.is_negative() && !a.is_positive());
    assert!(!Number::from_int(0).is_negative() && !Number::from_int(0).is_positive());
    assert!(!Number::from_int(0).negated().is_negative());
    assert_eq!(float(&Number::from_int(i64::MIN)), -9223372036854775808.0);
}

#[test]
fn comparisons_and_bounds() {
    let a = Number::ratio(1, 3);
    let b = Number::ratio(333_333, 1_000_000);
    assert!(b.less(&a) && !a.less(&b) && !a.less(&a));
    assert!(a.larger(&b).equals(&a) && b.larger(&a).equals(&a));
    assert!(a.smaller(&b).equals(&b) && b.smaller(&a).equals(&b));
    let (low, high) = (Number::from_int(-2), Number::from_int(3));
    assert_eq!(float(&Number::from_int(-5).clamped(&low, &high)), -2.0);
    assert_eq!(float(&Number::from_int(5).clamped(&low, &high)), 3.0);
    assert_eq!(float(&Number::from_int(1).clamped(&low, &high)), 1.0);
}

#[test]
fn doubles_come_back_as_they_went() {
    for x in SAMPLES {
        assert_eq!(num(x).to_double(), x.to_bits());
        assert_eq!(float(&num(-x)), -x);
    }
}

#[test]
fn the_nearest_double_of_a_quotient_is_the_quotient_of_doubles() {
    for x in SAMPLES {
        for y in [3.0, 7.0, -1.1, 25.4, 1e10] {
            assert_eq!(float(&num(x).over(&num(y))), x / y);
        }
    }
}

#[test]
fn doubles_without_a_value_are_no_numbers() {
    assert!(Number::from_double(f64::INFINITY.to_bits()).is_none());
    assert!(Number::from_double(f64::NEG_INFINITY.to_bits()).is_none());
    assert!(Number::from_double(f64::NAN.to_bits()).is_none());
    assert_eq!(num(-0.0).to_double(), 0);
    let big = num(f64::MAX);
    assert_eq!(float(&big.plus(&big)), f64::INFINITY);
    assert_eq!(float(&big.plus(&big).negated()), f64::NEG_INFINITY);
    assert_eq!(float(&num(5e-324).over(&Number::from_int(2))), 0.0);
    assert_eq!(float(&num(1.5e-323).over(&Number::from_int(2))), 1e-323);
}

#[test]
fn numbers_above_all_doubles_have_no_nearest_one() {
    let big = num(f64::MAX);
    assert!(big.nearest_double().is_some());
    assert!(big.plus(&big).nearest_double().is_none());
    assert!(Number::dyadic(1, 1024).nearest_double().is_none());
    assert!(Number::dyadic(-1, 1024).nearest_double().is_none());
    assert_eq!(Number::dyadic(1, 1023).nearest_double(), Some((1i64 << 52, 971)));
    assert_eq!(Number::from_int(0).nearest_double(), Some((0, -1074)));
}

#[test]
fn reducing_keeps_the_value() {
    let x = Number::ratio(360, 127).times(&Number::ratio(-254, 720));
    assert!(x.reduced().equals(&x));
    assert!(x.equals(&Number::from_int(-1)));
    assert!(Number::from_int(0).reduced().equals(&Number::from_int(0)));
}

#[test]
fn long_division_and_common_divisors() {
    let a = Natural::from_u64(u64::MAX);
    let square = a.times(&a);
    let (q, r) = square.plus(&Natural::from_u64(12345)).divided_by(&a);
    assert_eq!(q.to_u64(), Some(u64::MAX));
    assert_eq!(r.to_u64(), Some(12345));
    assert_eq!(square.to_u64(), None);
    assert_eq!(square.minus(&square).to_u64(), Some(0));
    assert!(square.minus(&square).is_zero() && !square.is_zero());
    assert!(a.less(&square) && !square.less(&a));
    let twelve = Natural::from_u64(12);
    assert_eq!(twelve.common_divisor(&Natural::from_u64(18)).to_u64(), Some(6));
    assert_eq!(Natural::zero().common_divisor(&twelve).to_u64(), Some(12));
    assert_eq!(Natural::from_u64(7).times_limb(u32::MAX).to_u64(), Some(7 * 4294967295));
    assert_eq!(a.clone().to_u64(), Some(u64::MAX));
}

#[test]
fn natural_numbers_in_decimal() {
    let a = Natural::from_u64(u64::MAX);
    let mut text = String::from("n = ");
    append_natural(&mut text, &a.times(&a));
    assert_eq!(text, "n = 340282366920938463426481119284349108225");
    let mut zero = String::new();
    append_natural(&mut zero, &Natural::zero());
    assert_eq!(zero, "0");
}

#[test]
fn quotients_round_to_even() {
    let round = |n: u64, d: u64| {
        rounded_quotient(&Natural::from_u64(n), &Natural::from_u64(d)).to_u64()
    };
    assert_eq!(round(5, 2), Some(2));
    assert_eq!(round(7, 2), Some(4));
    assert_eq!(round(8, 3), Some(3));
    assert_eq!(round(7, 3), Some(2));
    assert_eq!(Number::ratio(-25, 100).rounded_magnitude(10).to_u64(), Some(2));
}

#[test]
fn texts_read_as_formatted_floats_do() {
    for x in [
        0.0, 0.5, 1.5, 2.5, 0.25, 0.35, 0.75, 9.95, 9.96, 99.95, 210.0, 297.0, 595.2755905511812,
        0.04, 0.05, 0.06, 1234567.25, 1e22, 0.449999, 96.0, 191.99999999999997,
    ] {
        assert_eq!(whole(&num(x)), format!("{:.0}", x));
        assert_eq!(tenths(&num(x)), format!("{:.1}", x));
        if x > 0.0 {
            assert_eq!(whole(&num(-x)), format!("{:.0}", -x));
            assert_eq!(tenths(&num(-x)), format!("{:.1}", -x));
        }
    }
}
