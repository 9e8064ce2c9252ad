//! Exact numbers to and from the bits of double precision floating point numbers.

use vstd::prelude::*;

use crate::number::{
    abs_of, law_powers_of_two, law_rounding_is_to_the_nearest, lemma_two_to_monotonic,
    lemma_two_to_positive, lemma_two_to_sum, lemma_two_to_values, round_half_even, signed, two_to,
    Number,
};

verus! {

/// What the bits of a double stand for: a sign, eleven bits of exponent and 52 bits of fraction.
/// Infinities and what is not a number stand for no value.
pub open spec fn double_value(bits: u64) -> Option<real> {
    let negative = bits >= 0x8000_0000_0000_0000;
    let exponent = (bits / 0x10_0000_0000_0000) % 0x800;
    let fraction = bits % 0x10_0000_0000_0000;
    if exponent == 0x7ff {
        None
    } else if exponent == 0 {
        Some(signed(negative, (fraction as real) * two_to(-1074)))
    } else {
        Some(
            signed(
                negative,
                ((0x10_0000_0000_0000 + fraction) as real) * two_to(exponent - 1075),
            ),
        )
    }
}

/// Whether a double holds numbers of this magnitude in steps of two to the power `e`.
pub open spec fn step_fits(magnitude: real, e: int) -> bool {
    &&& -1074 <= e <= 971
    &&& magnitude < two_to(e + 53)
    &&& e == -1074 || magnitude >= two_to(e + 52)
}

/// Whether `bits` are those of the double that is nearest to `x`; of two that are equally near,
/// the one with the even fraction. From two to the power 1024 on that is an infinity.
pub open spec fn is_nearest_double(x: real, bits: u64) -> bool {
    let sign: int = if x < 0 as real {
        0x8000_0000_0000_0000
    } else {
        0
    };
    if abs_of(x) >= two_to(1024) {
        bits == sign + 0x7ff0_0000_0000_0000
    } else {
        exists|e: int|
            #[trigger] step_fits(abs_of(x), e) && bits == sign + (e + 1074) * 0x10_0000_0000_0000
                + round_half_even(abs_of(x) / two_to(e))
    }
}

impl Number {
    /// The number that a double holds, if it holds one.
    pub fn from_double(bits: u64) -> (res: Option<Number>)
        ensures
            res.deep_view() == double_value(bits),
    {
        let exponent: i32 = ((bits / 0x10_0000_0000_0000) % 0x800) as i32;
        let fraction: i64 = (bits % 0x10_0000_0000_0000) as i64;
        if exponent == 0x7ff {
            return None;
        }
        let magnitude = if exponent == 0 {
            Number::dyadic(fraction, -1074)
        } else {
            Number::dyadic(0x10_0000_0000_0000 + fraction, exponent - 1075)
        };
        if bits >= 0x8000_0000_0000_0000 {
            Some(magnitude.negated())
        } else {
            Some(magnitude)
        }
    }

    /// The bits of the nearest double.
    pub fn to_double(&self) -> (res: u64)
        ensures
            is_nearest_double(self@, res),
    {
        let sign: u64 = if self.is_negative() { 0x8000_0000_0000_0000 } else { 0 };
        match self.magnitude().nearest_double() {
            None => sign + 0x7ff0_0000_0000_0000,
            Some((mantissa, exponent)) => {
                proof {
                    let x = abs_of(self@);
                    assert(abs_of(x) == x);
                    assert(step_fits(x, exponent as int));
                    lemma_mantissa_range(x, exponent as int);
                }
                sign + (exponent + 1074) as u64 * 0x10_0000_0000_0000 + mantissa as u64
            },
        }
    }
}

proof fn lemma_mantissa_range(x: real, e: int)
    requires
        x >= 0 as real,
        step_fits(x, e),
    ensures
        0 <= round_half_even(x / two_to(e)) <= 0x20_0000_0000_0000,
{
    lemma_two_to_positive(e);
    lemma_two_to_sum(53, e);
    lemma_two_to_values();
    let t = two_to(e);
    let q = x / t;
    let u = two_to(53);
    assert(0 as real <= q && q < u) by (nonlinear_arith)
        requires
            q == x / t,
            x >= 0 as real,
            x < u * t,
            t > 0 as real,
    ;
}

/// Only one step fits a magnitude.
proof fn lemma_one_step_fits(x: real, d: int, e: int)
    requires
        step_fits(x, d),
        step_fits(x, e),
    ensures
        d == e,
{
    if d < e {
        lemma_two_to_monotonic(d + 53, e + 52);
    } else if e < d {
        lemma_two_to_monotonic(e + 53, d + 52);
    }
}

/// A double that holds a number comes back as it went, but for the sign of a zero.
pub proof fn law_doubles_come_back(bits: u64, x: real, back: u64)
    requires
        double_value(bits) == Some(x),
        bits != 0x8000_0000_0000_0000,
        is_nearest_double(x, back),
    ensures
        back == bits,
{
    let unit = 0x10_0000_0000_0000int;
    let field = ((bits / 0x10_0000_0000_0000) % 0x800) as int;
    let fraction = (bits % 0x10_0000_0000_0000) as int;
    let negative = bits >= 0x8000_0000_0000_0000;
    let m = if field == 0 {
        fraction
    } else {
        unit + fraction
    };
    let e = if field == 0 {
        -1074
    } else {
        field - 1075
    };
    let t = two_to(e);
    let mr = m as real;
    lemma_two_to_positive(e);
    lemma_two_to_values();
    lemma_two_to_sum(53, e);
    lemma_two_to_sum(52, e);
    let u = two_to(53);
    let v = two_to(52);
    assert(mr * t >= 0 as real && mr * t < u * t && (mr >= v ==> mr * t >= v * t) && (mr
        == 0 as real <==> mr * t == 0 as real)) by (nonlinear_arith)
        requires
            0 as real <= mr,
            mr < u,
            t > 0 as real,
    ;
    assert(abs_of(x) == mr * t);
    assert(step_fits(abs_of(x), e));
    lemma_two_to_monotonic(e + 53, 1024);
    let k = choose|k: int|
        #[trigger] step_fits(abs_of(x), k) && back == (if x < 0 as real {
            0x8000_0000_0000_0000int
        } else {
            0
        }) + (k + 1074) * unit + round_half_even(abs_of(x) / two_to(k));
    lemma_one_step_fits(abs_of(x), k, e);
    assert((mr * t) / t == mr) by (nonlinear_arith)
        requires
            t > 0 as real,
    ;
    assert(mr.floor() == m);
    assert(round_half_even(mr) == m);
    assert(x < 0 as real <==> negative);
}

/// What the bits of a double without its sign mean: the value of one; in each row of 52-bit
/// fractions evenly spaced values from the first on; and each row starting at, and going up in
/// steps of, twice what the one before does, but for the lowest, which starts at zero. The last
/// row holds no numbers.
pub proof fn law_rows_of_doubles(bits: u64, fraction: u64)
    requires
        bits % 0x10_0000_0000_0000 == 0,
        bits < 0x8000_0000_0000_0000,
        fraction < 0x10_0000_0000_0000,
    ensures
        double_value(0x3ff0_0000_0000_0000) == Some(1 as real),
        bits == 0x7ff0_0000_0000_0000 <==> double_value((bits + fraction) as u64) is None,
        0 < bits < 0x7ff0_0000_0000_0000 ==> double_value((bits + fraction) as u64)->Some_0 * (
        0x10_0000_0000_0000 as real) == double_value(bits)->Some_0 * ((0x10_0000_0000_0000
            + fraction) as real),
        0 < bits < 0x7fe0_0000_0000_0000 ==> double_value(
            (bits + 0x10_0000_0000_0000) as u64,
        )->Some_0 == (2 as real) * double_value(bits)->Some_0,
        double_value(fraction)->Some_0 * (0x10_0000_0000_0000 as real) == double_value(
            0x10_0000_0000_0000,
        )->Some_0 * (fraction as real),
{
    let unit = 0x10_0000_0000_0000u64;
    let u = unit as real;
    let f = fraction as real;
    let row = bits / unit;
    assert((bits + fraction) as u64 / unit == row && (bits + fraction) as u64 % unit == fraction);
    lemma_two_to_values();
    lemma_two_to_sum(52, -52);
    assert(two_to(0) == 1 as real);
    let e = row as int - 1075;
    let t = two_to(e);
    assert(((u + f) * t) * u == (u * t) * (u + f)) by (nonlinear_arith);
    law_powers_of_two(e);
    let next = (bits + unit) as u64;
    if bits < 0x7fe0_0000_0000_0000 {
        assert(next / unit == row + 1 && next % unit == 0);
        assert(u * ((2 as real) * t) == (2 as real) * (u * t)) by (nonlinear_arith);
    }
    let s = two_to(-1074);
    assert((f * s) * u == (u * s) * f) by (nonlinear_arith);
}

/// The highest bit is the sign.
pub proof fn law_sign_of_doubles(bits: u64)
    requires
        bits < 0x8000_0000_0000_0000,
    ensures
        double_value((bits + 0x8000_0000_0000_0000) as u64) == match double_value(bits) {
            Some(x) => Some(-x),
            None => None,
        },
        double_value(bits) matches Some(x) ==> x >= 0 as real,
{
    let unit = 0x10_0000_0000_0000u64;
    let high = (bits + 0x8000_0000_0000_0000) as u64;
    assert(high % unit == bits % unit && (high / unit) % 0x800 == (bits / unit) % 0x800);
    let e = if (bits / unit) % 0x800 == 0 {
        -1074
    } else {
        (bits / unit) % 0x800 - 1075
    };
    lemma_two_to_positive(e);
    let t = two_to(e);
    let f = (bits % unit) as real;
    let u = unit as real;
    assert(f * t >= 0 as real && (u + f) * t >= 0 as real) by (nonlinear_arith)
        requires
            f >= 0 as real,
            u >= 0 as real,
            t > 0 as real,
    ;
}

/// A double is a whole number of the steps that fit it, up to 53 bits of them.
proof fn lemma_steps_of(bits: u64, y: real) -> (res: (int, int))
    requires
        double_value(bits) == Some(y),
    ensures
        -1074 <= res.1 <= 971,
        0 <= res.0 < 0x20_0000_0000_0000,
        abs_of(y) == (res.0 as real) * two_to(res.1),
{
    let unit = 0x10_0000_0000_0000u64;
    let field = (bits / unit) % 0x800;
    let fraction = bits % unit;
    let (m, e) = if field == 0 {
        (fraction as int, -1074int)
    } else {
        (unit + fraction, field - 1075)
    };
    lemma_two_to_positive(e);
    let (mr, t) = (m as real, two_to(e));
    assert(mr * t >= 0 as real) by (nonlinear_arith)
        requires
            mr >= 0 as real,
            t > 0 as real,
    ;
    (m, e)
}

/// What the bits of a rounded magnitude stand for.
proof fn lemma_rounded_value(m: int, e: int, bits: u64, negative: bool)
    requires
        -1074 <= e <= 971,
        0 <= m <= 0x20_0000_0000_0000,
        e > -1074 ==> m >= 0x10_0000_0000_0000,
        bits == (if negative {
            0x8000_0000_0000_0000int
        } else {
            0
        }) + (e + 1074) * 0x10_0000_0000_0000 + m,
    ensures
        double_value(bits) matches Some(v) ==> v == signed(negative, (m as real) * two_to(e)),
{
    let unit = 0x10_0000_0000_0000u64;
    let low: int = (e + 1074) * 0x10_0000_0000_0000 + m;
    let q: int = low / 0x10_0000_0000_0000;
    let r: int = low % 0x10_0000_0000_0000;
    assert(0 <= low < 0x8000_0000_0000_0000);
    assert(bits >= 0x8000_0000_0000_0000 <==> negative);
    assert((bits / unit) % 0x800 == q && bits % unit == r);
    let t = two_to(e);
    let u = unit as real;
    if m < 0x10_0000_0000_0000 {
        assert(q == 0 && r == m);
    } else if m < 0x20_0000_0000_0000 {
        assert(q == e + 1075 && r == m - 0x10_0000_0000_0000);
    } else {
        assert(q == e + 1076 && r == 0);
        law_powers_of_two(e);
        assert(u * ((2 as real) * t) == ((2 as real) * u) * t) by (nonlinear_arith);
    }
}

/// No whole number is nearer than the rounded one.
proof fn lemma_no_whole_is_nearer(q: real, k: int)
    ensures
        abs_of((round_half_even(q) as real) - q) <= abs_of((k as real) - q),
        abs_of((round_half_even(q) as real) - q) == abs_of((k as real) - q) ==> k == round_half_even(
            q,
        ) || round_half_even(q) % 2 == 0,
{
    let n = round_half_even(q);
    law_rounding_is_to_the_nearest(q);
    if k < n {
        assert(k as real <= (n as real) - (1 as real));
    } else if k > n {
        assert(k as real >= (n as real) + (1 as real));
    }
}

/// No whole number of steps is nearer than the rounded one.
proof fn lemma_rounded_is_nearest(x: real, t: real, k: int)
    requires
        t > 0 as real,
    ensures
        abs_of((round_half_even(x / t) as real) * t - x) <= abs_of((k as real) * t - x),
        abs_of((round_half_even(x / t) as real) * t - x) == abs_of((k as real) * t - x) ==> k
            == round_half_even(x / t) || round_half_even(x / t) % 2 == 0,
{
    let q = x / t;
    lemma_no_whole_is_nearer(q, k);
    lemma_same_factor((round_half_even(q) as real), (k as real), q, x, t);
}

/// Multiplying with one factor keeps what is nearer.
proof fn lemma_same_factor(a: real, b: real, q: real, x: real, t: real)
    requires
        t > 0 as real,
        q == x / t,
        abs_of(a - q) <= abs_of(b - q),
    ensures
        abs_of(a * t - x) <= abs_of(b * t - x),
        abs_of(a * t - x) == abs_of(b * t - x) ==> abs_of(a - q) == abs_of(b - q),
{
    assert(a * t - x == (a - q) * t && b * t - x == (b - q) * t) by (nonlinear_arith)
        requires
            q == x / t,
            t > 0 as real,
    ;
    let (g, h) = (abs_of(a - q), abs_of(b - q));
    assert(g * t <= h * t && (g * t == h * t ==> g == h)) by (nonlinear_arith)
        requires
            g <= h,
            t > 0 as real,
    ;
    lemma_magnitude_of_product(a - q, t);
    lemma_magnitude_of_product(b - q, t);
}

proof fn lemma_magnitude_of_product(c: real, t: real)
    requires
        t > 0 as real,
    ensures
        abs_of(c * t) == abs_of(c) * t,
{
    assert((c >= 0 as real ==> c * t >= 0 as real) && (c < 0 as real ==> c * t < 0 as real) && (-c)
        * t == -(c * t)) by (nonlinear_arith)
        requires
            t > 0 as real,
    ;
}

/// The double that stands for a number is the nearest: no other is less far from it, and where
/// another is as far, it is the one with the even last bit.
pub proof fn law_no_double_is_nearer(x: real, bits: u64, v: real, other: u64, y: real)
    requires
        is_nearest_double(x, bits),
        double_value(bits) == Some(v),
        double_value(other) == Some(y),
    ensures
        abs_of(v - x) <= abs_of(y - x),
        abs_of(v - x) == abs_of(y - x) && y != v ==> bits % 2 == 0,
{
    let a = abs_of(x);
    let sign: int = if x < 0 as real {
        0x8000_0000_0000_0000
    } else {
        0
    };
    if a >= two_to(1024) {
        assert(bits == sign + 0x7ff0_0000_0000_0000);
        assert((bits / 0x10_0000_0000_0000) % 0x800 == 0x7ff);
    } else {
        let e = choose|e: int|
            #[trigger] step_fits(a, e) && bits == sign + (e + 1074) * 0x10_0000_0000_0000
                + round_half_even(a / two_to(e));
        let t = two_to(e);
        let m = round_half_even(a / t);
        lemma_two_to_positive(e);
        lemma_mantissa_range(a, e);
        lemma_two_to_values();
        lemma_two_to_sum(52, e);
        if e > -1074 {
            let q = a / t;
            let u = two_to(52);
            assert(q >= u) by (nonlinear_arith)
                requires
                    q == a / t,
                    a >= u * t,
                    t > 0 as real,
            ;
            assert(q.floor() >= 0x10_0000_0000_0000);
        }
        lemma_rounded_value(m, e, bits, x < 0 as real);
        let near = (m as real) * t;
        lemma_rounded_is_nearest(a, t, 0x10_0000_0000_0000);
        assert(near >= 0 as real) by (nonlinear_arith)
            requires
                near == (m as real) * t,
                m as real >= 0 as real,
                t > 0 as real,
        ;
        assert(abs_of(v - x) == abs_of(near - a));
        let (k, d) = lemma_steps_of(other, y);
        let b = abs_of(y);
        if d >= e {
            let whole = lemma_whole_steps(k, d - e);
            lemma_two_to_sum(d - e, e);
            let (kr, p) = (k as real, two_to(d - e));
            assert(kr * (p * t) == (kr * p) * t) by (nonlinear_arith);
            lemma_rounded_is_nearest(a, t, whole);
            assert(b == (whole as real) * t);
            assert(abs_of(near - a) == abs_of(b - a) ==> near == b || m % 2 == 0);
        } else {
            lemma_two_to_sum(53, d);
            lemma_two_to_positive(d);
            lemma_two_to_monotonic(d + 53, e + 52);
            let (kr, s, w) = (k as real, two_to(d), two_to(53));
            assert(kr * s <= w * s) by (nonlinear_arith)
                requires
                    kr <= w,
                    s > 0 as real,
            ;
            assert(b <= two_to(e + 52) && two_to(e + 52) <= a);
            assert(abs_of(near - a) == abs_of(b - a) ==> m % 2 == 0);
        }
        assert(abs_of(near - a) <= abs_of(b - a));
        assert(bits % 2 == m % 2);
        if abs_of(v - x) == abs_of(y - x) && y != v {
            assert(abs_of(near - a) == abs_of(b - a));
            if a == 0 as real {
                lemma_rounded_is_nearest(a, t, 0);
                assert((0 as real) * t == 0 as real) by (nonlinear_arith);
                assert(near == 0 as real);
            }
            assert(near != b);
        }
    }
}

/// A whole number times a power of two that is not below one is a whole number.
proof fn lemma_whole_steps(k: int, n: int) -> (res: int)
    requires
        n >= 0,
    ensures
        (k as real) * two_to(n) == res as real,
    decreases n,
{
    let kr = k as real;
    if n == 0 {
        assert(kr * (1 as real) == kr) by (nonlinear_arith);
        k
    } else {
        let less = lemma_whole_steps(k, n - 1);
        let t = two_to(n - 1);
        assert(kr * ((2 as real) * t) == (2 as real) * (kr * t)) by (nonlinear_arith);
        2 * less
    }
}

} // verus!
