//! Exact numbers: every operation gives the real number that it stands for, with no rounding.

use vstd::prelude::*;

use crate::natural::{divides_both, Natural};

verus! {

/// `magnitude`, or its opposite.
pub open spec fn signed(negative: bool, magnitude: real) -> real {
    if negative {
        -magnitude
    } else {
        magnitude
    }
}

/// The quotient of two natural numbers.
pub open spec fn quotient(n: nat, d: nat) -> real {
    (n as real) / (d as real)
}

pub open spec fn abs_of(x: real) -> real {
    if x < 0 as real {
        -x
    } else {
        x
    }
}

pub open spec fn max_of(x: real, y: real) -> real {
    if x < y {
        y
    } else {
        x
    }
}

pub open spec fn min_of(x: real, y: real) -> real {
    if y < x {
        y
    } else {
        x
    }
}

/// The value between `low` and `high` that is nearest to `x`.
pub open spec fn clamp_of(x: real, low: real, high: real) -> real {
    if x < low {
        low
    } else if x > high {
        high
    } else {
        x
    }
}

/// Two to the power `e`, which may be negative.
pub open spec fn two_to(e: int) -> real
    decreases (if e < 0 { -e } else { e }),
{
    if e == 0 {
        1 as real
    } else if e > 0 {
        (2 as real) * two_to(e - 1)
    } else {
        two_to(e + 1) / (2 as real)
    }
}

/// The integer nearest to `x`; of two that are equally near, the even one.
pub open spec fn round_half_even(x: real) -> int {
    let below = x.floor();
    let rest = x - (below as real);
    if rest + rest < 1 as real {
        below
    } else if rest + rest > 1 as real {
        below + 1
    } else if below % 2 == 0 {
        below
    } else {
        below + 1
    }
}

pub proof fn lemma_two_to_positive(e: int)
    ensures
        two_to(e) > 0 as real,
    decreases (if e < 0 { -e } else { e }),
{
    if e > 0 {
        lemma_two_to_positive(e - 1);
    } else if e < 0 {
        lemma_two_to_positive(e + 1);
    }
}

proof fn lemma_two_to_step(e: int)
    ensures
        two_to(e + 1) == (2 as real) * two_to(e),
{
    if e < 0 {
        assert(two_to(e) == two_to(e + 1) / (2 as real));
    }
}

/// `x` is `n / d` exactly when `x * d` is `n`.
proof fn lemma_quotient(n: nat, d: nat, x: real)
    requires
        d > 0,
    ensures
        (x == quotient(n, d)) <==> (x * (d as real) == n as real),
{
    let nr = n as real;
    let dr = d as real;
    assert(dr > 0 as real);
    assert((x == nr / dr) <==> (x * dr == nr)) by (nonlinear_arith)
        requires
            dr > 0 as real,
    ;
}

proof fn lemma_product_cast(a: nat, b: nat)
    ensures
        (a * b) as real == (a as real) * (b as real),
{
    assert((a * b) as real == (a as real) * (b as real)) by (nonlinear_arith);
}

proof fn lemma_quotient_not_negative(n: nat, d: nat)
    requires
        d > 0,
    ensures
        quotient(n, d) >= 0 as real,
        quotient(n, d) == 0 as real <==> n == 0,
{
    let x = quotient(n, d);
    lemma_quotient(n, d, x);
    let dr = d as real;
    let nr = n as real;
    assert(x >= 0 as real && (x == 0 as real <==> nr == 0 as real)) by (nonlinear_arith)
        requires
            x * dr == nr,
            dr > 0 as real,
            nr >= 0 as real,
    ;
}

/// Quotients over a common denominator.
proof fn lemma_common(n1: nat, d1: nat, n2: nat, d2: nat)
    requires
        d1 > 0,
        d2 > 0,
    ensures
        d1 * d2 > 0,
        quotient(n1 * d2, d1 * d2) == quotient(n1, d1),
        quotient(n2 * d1, d1 * d2) == quotient(n2, d2),
        quotient(n1 * n2, d1 * d2) == quotient(n1, d1) * quotient(n2, d2),
{
    assert(d1 * d2 > 0) by (nonlinear_arith)
        requires
            d1 > 0,
            d2 > 0,
    ;
    let x = quotient(n1, d1);
    let y = quotient(n2, d2);
    lemma_quotient(n1, d1, x);
    lemma_quotient(n2, d2, y);
    lemma_product_cast(n1, d2);
    lemma_product_cast(n2, d1);
    lemma_product_cast(n1, n2);
    lemma_product_cast(d1, d2);
    lemma_quotient(n1 * d2, d1 * d2, x);
    lemma_quotient(n2 * d1, d1 * d2, y);
    lemma_quotient(n1 * n2, d1 * d2, x * y);
    let a = n1 as real;
    let b = d1 as real;
    let c = n2 as real;
    let d = d2 as real;
    assert(x * (b * d) == a * d && y * (b * d) == c * b && (x * y) * (b * d) == a * c)
        by (nonlinear_arith)
        requires
            x * b == a,
            y * d == c,
    ;
}

/// Adding, subtracting and comparing over one denominator.
proof fn lemma_over_one(n1: nat, n2: nat, d: nat)
    requires
        d > 0,
    ensures
        quotient(n1 + n2, d) == quotient(n1, d) + quotient(n2, d),
        n2 <= n1 ==> quotient((n1 - n2) as nat, d) == quotient(n1, d) - quotient(n2, d),
        n1 < n2 <==> quotient(n1, d) < quotient(n2, d),
{
    let x = quotient(n1, d);
    let y = quotient(n2, d);
    lemma_quotient(n1, d, x);
    lemma_quotient(n2, d, y);
    lemma_quotient(n1 + n2, d, x + y);
    let a = n1 as real;
    let b = n2 as real;
    let e = d as real;
    assert((x + y) * e == a + b && (x - y) * e == a - b && (a < b <==> x < y)) by (nonlinear_arith)
        requires
            x * e == a,
            y * e == b,
            e > 0 as real,
    ;
    if n2 <= n1 {
        lemma_quotient((n1 - n2) as nat, d, x - y);
    }
}

/// A number of any size and precision.
#[derive(Debug)]
pub struct Number {
    negative: bool,
    numerator: Natural,
    denominator: Natural,
}

impl View for Number {
    type V = real;

    closed spec fn view(&self) -> real {
        signed(self.negative, quotient(self.numerator@, self.denominator@))
    }
}

impl DeepView for Number {
    type V = real;

    open spec fn deep_view(&self) -> real {
        self@
    }
}

impl Clone for Number {
    fn clone(&self) -> (res: Self)
        ensures
            res@ == self@,
    {
        proof {
            use_type_invariant(self);
        }
        Number {
            negative: self.negative,
            numerator: self.numerator.clone(),
            denominator: self.denominator.clone(),
        }
    }
}

impl Number {
    #[verifier::type_invariant]
    spec fn has_denominator(&self) -> bool {
        self.denominator@ > 0
    }

    /// `n / d`.
    pub fn ratio(n: i64, d: u64) -> (res: Number)
        requires
            d > 0,
        ensures
            res@ == (n as real) / (d as real),
    {
        let negative: bool = n < 0;
        let magnitude: u64 = if negative { (-(n as i128)) as u64 } else { n as u64 };
        let res = Number {
            negative,
            numerator: Natural::from_u64(magnitude),
            denominator: Natural::from_u64(d),
        };
        proof {
            lemma_quotient(magnitude as nat, d as nat, quotient(magnitude as nat, d as nat));
            let m = magnitude as real;
            let e = d as real;
            let x = m / e;
            assert(-x == (-m) / e) by (nonlinear_arith)
                requires
                    x == m / e,
                    e > 0 as real,
            ;
        }
        res
    }

    pub fn from_int(n: i64) -> (res: Number)
        ensures
            res@ == n as real,
    {
        let res = Number::ratio(n, 1);
        proof {
            let m = n as real;
            assert(m / (1 as real) == m) by (nonlinear_arith);
        }
        res
    }

    pub fn negated(&self) -> (res: Number)
        ensures
            res@ == -self@,
    {
        proof {
            use_type_invariant(self);
        }
        Number {
            negative: !self.negative,
            numerator: self.numerator.clone(),
            denominator: self.denominator.clone(),
        }
    }

    pub fn magnitude(&self) -> (res: Number)
        ensures
            res@ == abs_of(self@),
    {
        proof {
            use_type_invariant(self);
            lemma_quotient_not_negative(self.numerator@, self.denominator@);
        }
        Number {
            negative: false,
            numerator: self.numerator.clone(),
            denominator: self.denominator.clone(),
        }
    }

    pub fn plus(&self, other: &Number) -> (res: Number)
        ensures
            res@ == self@ + other@,
    {
        proof {
            use_type_invariant(self);
            use_type_invariant(other);
            lemma_common(
                self.numerator@,
                self.denominator@,
                other.numerator@,
                other.denominator@,
            );
        }
        let a = self.numerator.times(&other.denominator);
        let b = other.numerator.times(&self.denominator);
        let denominator = self.denominator.times(&other.denominator);
        proof {
            lemma_over_one(a@, b@, denominator@);
            lemma_over_one(b@, a@, denominator@);
        }
        if self.negative == other.negative {
            Number { negative: self.negative, numerator: a.plus(&b), denominator }
        } else if a.less(&b) {
            Number { negative: other.negative, numerator: b.minus(&a), denominator }
        } else {
            Number { negative: self.negative, numerator: a.minus(&b), denominator }
        }
    }

    pub fn minus(&self, other: &Number) -> (res: Number)
        ensures
            res@ == self@ - other@,
    {
        self.plus(&other.negated())
    }

    pub fn times(&self, other: &Number) -> (res: Number)
        ensures
            res@ == self@ * other@,
    {
        proof {
            use_type_invariant(self);
            use_type_invariant(other);
            lemma_common(
                self.numerator@,
                self.denominator@,
                other.numerator@,
                other.denominator@,
            );
            let x = quotient(self.numerator@, self.denominator@);
            let y = quotient(other.numerator@, other.denominator@);
            assert((-x) * y == -(x * y) && x * (-y) == -(x * y) && (-x) * (-y) == x * y)
                by (nonlinear_arith);
        }
        Number {
            negative: self.negative != other.negative,
            numerator: self.numerator.times(&other.numerator),
            denominator: self.denominator.times(&other.denominator),
        }
    }

    pub fn over(&self, other: &Number) -> (res: Number)
        requires
            other@ != 0 as real,
        ensures
            res@ == self@ / other@,
            res@ * other@ == self@,
    {
        proof {
            use_type_invariant(self);
            use_type_invariant(other);
            lemma_quotient_not_negative(other.numerator@, other.denominator@);
        }
        let res = Number {
            negative: self.negative != other.negative,
            numerator: self.numerator.times(&other.denominator),
            denominator: {
                proof {
                    let a = self.denominator@;
                    let b = other.numerator@;
                    assert(a * b > 0) by (nonlinear_arith)
                        requires
                            a > 0,
                            b > 0,
                    ;
                }
                self.denominator.times(&other.numerator)
            },
        };
        proof {
            let (n1, d1) = (self.numerator@, self.denominator@);
            let (n2, d2) = (other.numerator@, other.denominator@);
            let x = quotient(n1, d1);
            let y = quotient(n2, d2);
            let z = quotient(n1 * d2, d1 * n2);
            lemma_quotient(n1, d1, x);
            lemma_quotient(n2, d2, y);
            lemma_quotient(n1 * d2, d1 * n2, z);
            lemma_product_cast(n1, d2);
            lemma_product_cast(d1, n2);
            let a = n1 as real;
            let b = d1 as real;
            let c = n2 as real;
            let d = d2 as real;
            assert(z * y == x) by (nonlinear_arith)
                requires
                    x * b == a,
                    y * d == c,
                    z * (b * c) == a * d,
                    b > 0 as real,
                    c > 0 as real,
                    d > 0 as real,
            ;
            let p = self@;
            let q = other@;
            let r = res@;
            assert((-z) * y == -x && z * (-y) == -x && (-z) * (-y) == x) by (nonlinear_arith)
                requires
                    z * y == x,
            ;
            assert(r * q == p);
            assert(r == p / q) by (nonlinear_arith)
                requires
                    r * q == p,
                    q != 0 as real,
            ;
        }
        res
    }

    /// Whether this number is smaller than `other`.
    pub fn less(&self, other: &Number) -> (res: bool)
        ensures
            res == (self@ < other@),
    {
        let gap = other.minus(self);
        proof {
            use_type_invariant(&gap);
            lemma_quotient_not_negative(gap.numerator@, gap.denominator@);
        }
        !gap.negative && !gap.numerator.is_zero()
    }

    pub fn equals(&self, other: &Number) -> (res: bool)
        ensures
            res == (self@ == other@),
    {
        !self.less(other) && !other.less(self)
    }

    /// Whether this number is above zero.
    pub fn is_positive(&self) -> (res: bool)
        ensures
            res == (self@ > 0 as real),
    {
        Number::from_int(0).less(self)
    }

    pub fn larger(&self, other: &Number) -> (res: Number)
        ensures
            res@ == max_of(self@, other@),
    {
        if self.less(other) {
            other.clone()
        } else {
            self.clone()
        }
    }

    pub fn smaller(&self, other: &Number) -> (res: Number)
        ensures
            res@ == min_of(self@, other@),
    {
        if other.less(self) {
            other.clone()
        } else {
            self.clone()
        }
    }

    /// The value between `low` and `high` that is nearest to this one.
    pub fn clamped(&self, low: &Number, high: &Number) -> (res: Number)
        requires
            low@ <= high@,
        ensures
            res@ == clamp_of(self@, low@, high@),
    {
        self.larger(low).smaller(high)
    }

    /// `mantissa` times two to the power `exponent`: what a binary floating point value is.
    pub fn dyadic(mantissa: i64, exponent: i32) -> (res: Number)
        ensures
            res@ == (mantissa as real) * two_to(exponent as int),
    {
        let start = Number::from_int(mantissa);
        proof {
            use_type_invariant(&start);
        }
        let Number { negative, numerator, denominator } = start;
        let mut numerator = numerator;
        let mut denominator = denominator;
        let mut e: i32 = 0;
        let ghost m = mantissa as real;
        assert(m * (1 as real) == m) by (nonlinear_arith);
        while e != exponent
            invariant
                denominator@ > 0,
                0 <= e <= exponent || exponent <= e <= 0,
                signed(negative, quotient(numerator@, denominator@)) == m * two_to(e as int),
            decreases (if e < exponent { exponent - e } else { e - exponent }),
        {
            let ghost x = quotient(numerator@, denominator@);
            let ghost t = two_to(e as int);
            if e < exponent {
                proof {
                    lemma_double(numerator@, denominator@);
                    lemma_two_to_step(e as int);
                    assert(m * ((2 as real) * t) == (2 as real) * (m * t)) by (nonlinear_arith);
                }
                numerator = numerator.times_limb(2);
                e += 1;
            } else {
                proof {
                    lemma_double(numerator@, denominator@);
                    lemma_two_to_step(e as int - 1);
                    let u = two_to(e as int - 1);
                    assert((2 as real) * (m * u) == m * t) by (nonlinear_arith)
                        requires
                            t == (2 as real) * u,
                    ;
                }
                denominator = denominator.times_limb(2);
                e -= 1;
            }
        }
        Number { negative, numerator, denominator }
    }

    /// No number above one divides both the numerator and the denominator.
    pub closed spec fn in_lowest_terms(&self) -> bool {
        forall|g: nat| g > 1 ==> !#[trigger] divides_both(g, self.numerator@, self.denominator@)
    }

    /// The same number in lowest terms.
    pub fn reduced(&self) -> (res: Number)
        ensures
            res@ == self@,
            res.in_lowest_terms(),
    {
        proof {
            use_type_invariant(self);
        }
        let common = self.numerator.common_divisor(&self.denominator);
        let (numerator, _) = self.numerator.divided_by(&common);
        let (denominator, _) = self.denominator.divided_by(&common);
        proof {
            let (n, d, g) = (numerator@, denominator@, common@);
            assert(self.numerator@ == n * g && self.denominator@ == d * g);
            assert(d > 0) by (nonlinear_arith)
                requires
                    self.denominator@ == d * g,
                    self.denominator@ > 0,
            ;
            lemma_product_cast(n, g);
            lemma_product_cast(d, g);
            let x = quotient(n, d);
            lemma_quotient(n, d, x);
            lemma_quotient(n * g, d * g, x);
            let (a, b, c) = (n as real, d as real, g as real);
            assert(x * (b * c) == a * c) by (nonlinear_arith)
                requires
                    x * b == a,
            ;
            assert forall|k: nat| k > 1 implies !#[trigger] divides_both(k, n, d) by {
                if divides_both(k, n, d) {
                    lemma_scaled_divisor(k, n, g);
                    lemma_scaled_divisor(k, d, g);
                    let h = k * g;
                    assert(h > g) by (nonlinear_arith)
                        requires
                            h == k * g,
                            k > 1,
                            g > 0,
                    ;
                    assert(g % h == 0);
                    vstd::arithmetic::div_mod::lemma_small_mod(g, h);
                }
            }
        }
        Number { negative: self.negative, numerator, denominator }
    }

    /// The natural number nearest to the magnitude times `factor`; of two that are equally near,
    /// the even one.
    pub fn rounded_magnitude(&self, factor: u32) -> (res: Natural)
        ensures
            res@ == round_half_even(abs_of(self@) * (factor as real)),
    {
        proof {
            use_type_invariant(self);
            let (n, d) = (self.numerator@, self.denominator@);
            lemma_quotient_not_negative(n, d);
            let x = quotient(n, d);
            lemma_quotient(n, d, x);
            lemma_product_cast(n, factor as nat);
            let (a, b, f) = (n as real, d as real, factor as real);
            assert((x * f) * b == a * f) by (nonlinear_arith)
                requires
                    x * b == a,
            ;
            lemma_quotient(n * factor as nat, d, x * f);
        }
        rounded_quotient(&self.numerator.times_limb(factor), &self.denominator)
    }

    pub fn is_negative(&self) -> (res: bool)
        ensures
            res == (self@ < 0 as real),
    {
        self.less(&Number::from_int(0))
    }

    /// The nearest value that a double precision floating point number can hold, as a mantissa
    /// and a power of two. Of two that are equally near, the one with the even mantissa. `None`
    /// from the power of two on that is above all of them.
    pub fn nearest_double(&self) -> (res: Option<(i64, i32)>)
        ensures
            res is None <==> abs_of(self@) >= two_to(1024),
            res matches Some((mantissa, exponent)) ==> {
                &&& -1074 <= exponent <= 971
                &&& abs_of(self@) < two_to(exponent + 53)
                &&& exponent == -1074 || abs_of(self@) >= two_to(exponent + 52)
                &&& mantissa == if self@ < 0 as real {
                    -round_half_even(abs_of(self@) / two_to(exponent as int))
                } else {
                    round_half_even(abs_of(self@) / two_to(exponent as int))
                }
            },
    {
        proof {
            use_type_invariant(self);
        }
        let mut top = self.numerator.clone();
        let mut bottom = self.denominator.clone();
        let mut e: i32 = 0;
        let half_range = Natural::from_u64(0x10_0000_0000_0000);
        let range = Natural::from_u64(0x20_0000_0000_0000);
        let ghost x = abs_of(self@);
        proof {
            lemma_quotient_not_negative(top@, bottom@);
            assert(x * (1 as real) == x) by (nonlinear_arith);
        }
        while e > -1074 && top.less(&bottom.times(&half_range))
            invariant
                bottom@ > 0,
                half_range@ == 0x10_0000_0000_0000,
                -1074 <= e <= 0,
                quotient(top@, bottom@) * two_to(e as int) == x,
            decreases e + 1074,
        {
            proof {
                lemma_double(top@, bottom@);
                lemma_two_to_step(e as int - 1);
                let t = two_to(e as int - 1);
                let q = quotient(top@, bottom@);
                assert(((2 as real) * q) * t == q * ((2 as real) * t)) by (nonlinear_arith);
            }
            top = top.times_limb(2);
            e -= 1;
        }
        while !top.less(&bottom.times(&range))
            invariant
                bottom@ > 0,
                half_range@ == 0x10_0000_0000_0000,
                range@ == 0x20_0000_0000_0000,
                -1074 <= e <= 971,
                x == abs_of(self@),
                quotient(top@, bottom@) * two_to(e as int) == x,
                e == -1074 || top@ >= bottom@ * half_range@,
            decreases 971 - e,
        {
            let ghost q = quotient(top@, bottom@);
            if e == 971 {
                proof {
                    lemma_bounded_quotient(top@, bottom@, 53);
                    lemma_two_to_sum(53, 971);
                    lemma_two_to_positive(971);
                    let t = two_to(971);
                    let u = two_to(53);
                    assert(q * t >= u * t) by (nonlinear_arith)
                        requires
                            q >= u,
                            t > 0 as real,
                    ;
                }
                return None;
            }
            proof {
                lemma_double(top@, bottom@);
                lemma_two_to_step(e as int);
                let t = two_to(e as int);
                let h = q / (2 as real);
                assert(h * ((2 as real) * t) == q * t) by (nonlinear_arith)
                    requires
                        h + h == q,
                ;
                let (b, r, s) = (bottom@, half_range@, range@);
                assert((b * 2) * r == b * s) by (nonlinear_arith)
                    requires
                        s == r * 2,
                ;
            }
            bottom = bottom.times_limb(2);
            e += 1;
        }
        let ghost q = quotient(top@, bottom@);
        proof {
            lemma_two_to_positive(e as int);
            lemma_two_to_sum(53, e as int);
            lemma_two_to_sum(52, e as int);
            lemma_bounded_quotient(top@, bottom@, 53);
            lemma_bounded_quotient(top@, bottom@, 52);
            lemma_quotient_not_negative(top@, bottom@);
            let t = two_to(e as int);
            assert(q == x / t) by (nonlinear_arith)
                requires
                    q * t == x,
                    t > 0 as real,
            ;
            let u = two_to(53);
            let v = two_to(52);
            assert(q * t < u * t) by (nonlinear_arith)
                requires
                    q < u,
                    t > 0 as real,
            ;
            assert(q >= v ==> q * t >= v * t) by (nonlinear_arith)
                requires
                    t > 0 as real,
            ;
            lemma_two_to_monotonic(e + 53, 1024);
        }
        let rounded = rounded_quotient(&top, &bottom);
        proof {
            lemma_two_to_values();
            assert(round_half_even(q) <= 0x20_0000_0000_0000);
        }
        match rounded.to_u64() {
            Some(m) => {
                let mantissa: i64 = m as i64;
                if self.is_negative() {
                    Some((-mantissa, e))
                } else {
                    Some((mantissa, e))
                }
            },
            None => None,
        }
    }
}

/// What divides `n`, divides it too when both are multiplied by `g`.
proof fn lemma_scaled_divisor(k: nat, n: nat, g: nat)
    requires
        k > 0,
        g > 0,
        n % k == 0,
    ensures
        k * g > 0,
        (n * g) % (k * g) == 0,
{
    let m = n / k;
    vstd::arithmetic::div_mod::lemma_fundamental_div_mod(n as int, k as int);
    assert(k * g > 0 && n * g == m * (k * g)) by (nonlinear_arith)
        requires
            n == k * m,
            k > 0,
            g > 0,
    ;
    vstd::arithmetic::div_mod::lemma_mod_multiples_basic(m as int, (k * g) as int);
}

proof fn lemma_double(n: nat, d: nat)
    requires
        d > 0,
    ensures
        quotient(n * 2, d) == (2 as real) * quotient(n, d),
        quotient(n, d * 2) == quotient(n, d) / (2 as real),
{
    let x = quotient(n, d);
    lemma_quotient(n, d, x);
    lemma_quotient(n * 2, d, (2 as real) * x);
    let h = x / (2 as real);
    lemma_quotient(n, d * 2, h);
    let (a, b) = (n as real, d as real);
    assert(((2 as real) * x) * b == (2 as real) * a && h * ((2 as real) * b) == a)
        by (nonlinear_arith)
        requires
            x * b == a,
            h + h == x,
    ;
}

pub proof fn lemma_two_to_sum(a: int, b: int)
    requires
        a >= 0,
    ensures
        two_to(a + b) == two_to(a) * two_to(b),
    decreases a,
{
    let t = two_to(b);
    if a == 0 {
        assert((1 as real) * t == t) by (nonlinear_arith);
    } else {
        lemma_two_to_sum(a - 1, b);
        lemma_two_to_step(a - 1 + b);
        let u = two_to(a - 1);
        assert(((2 as real) * u) * t == (2 as real) * (u * t)) by (nonlinear_arith);
    }
}

pub proof fn lemma_two_to_monotonic(a: int, b: int)
    requires
        a <= b,
    ensures
        two_to(a) <= two_to(b),
    decreases b - a,
{
    if a < b {
        lemma_two_to_monotonic(a, b - 1);
        lemma_two_to_step(b - 1);
        lemma_two_to_positive(b - 1);
    }
}

pub proof fn lemma_two_to_values()
    ensures
        two_to(52) == 0x10_0000_0000_0000 as real,
        two_to(53) == 0x20_0000_0000_0000 as real,
{
    reveal_with_fuel(two_to, 54);
}

/// Comparing a quotient with the two powers that bound a mantissa.
proof fn lemma_bounded_quotient(n: nat, d: nat, k: int)
    requires
        d > 0,
        k == 52 || k == 53,
    ensures
        k == 52 ==> (n < d * 0x10_0000_0000_0000 <==> quotient(n, d) < two_to(52)),
        k == 53 ==> (n < d * 0x20_0000_0000_0000 <==> quotient(n, d) < two_to(53)),
{
    lemma_two_to_values();
    let x = quotient(n, d);
    lemma_quotient(n, d, x);
    let (a, b) = (n as real, d as real);
    let c = if k == 52 {
        0x10_0000_0000_0000nat
    } else {
        0x20_0000_0000_0000nat
    };
    lemma_product_cast(d, c);
    let r = c as real;
    assert(a < b * r <==> x < r) by (nonlinear_arith)
        requires
            x * b == a,
            b > 0 as real,
    ;
}

/// The natural number nearest to a quotient; of two that are equally near, the even one.
pub fn rounded_quotient(n: &Natural, d: &Natural) -> (res: Natural)
    requires
        d@ > 0,
    ensures
        res@ == round_half_even(quotient(n@, d@)),
{
    let (whole, rest) = n.divided_by(d);
    let twice = rest.times_limb(2);
    let (_, odd) = whole.divided_by(&Natural::from_u64(2));
    proof {
        let x = quotient(n@, d@);
        lemma_quotient(n@, d@, x);
        let (w, r, b) = (whole@ as real, rest@ as real, d@ as real);
        lemma_product_cast(whole@, d@);
        let f = x - w;
        assert(f * b == r) by (nonlinear_arith)
            requires
                x * b == w * b + r,
                f == x - w,
        ;
        assert(0 as real <= f && f < 1 as real) by (nonlinear_arith)
            requires
                f * b == r,
                r >= 0 as real,
                r < b,
                b > 0 as real,
        ;
        assert(x.floor() == whole@);
        assert((f + f < 1 as real <==> r + r < b) && (f + f > 1 as real <==> r + r > b))
            by (nonlinear_arith)
            requires
                f * b == r,
                b > 0 as real,
        ;
    }
    if d.less(&twice) || (!twice.less(d) && !odd.is_zero()) {
        whole.plus(&Natural::from_u64(1))
    } else {
        whole
    }
}

/// The larger of two numbers is one of them and below neither; the smaller one likewise.
pub proof fn law_larger_and_smaller(x: real, y: real)
    ensures
        max_of(x, y) >= x && max_of(x, y) >= y,
        max_of(x, y) == x || max_of(x, y) == y,
        min_of(x, y) <= x && min_of(x, y) <= y,
        min_of(x, y) == x || min_of(x, y) == y,
        max_of(x, y) + min_of(x, y) == x + y,
{
}

/// A magnitude is not negative, and it is the number or its opposite.
pub proof fn law_magnitude(x: real)
    ensures
        abs_of(x) >= 0 as real,
        abs_of(x) == x || abs_of(x) == -x,
{
}

/// A clamped number lies in its range, and no number of the range is nearer to what it was.
pub proof fn law_clamp_is_the_nearest(x: real, low: real, high: real, other: real)
    requires
        low <= high,
        low <= other,
        other <= high,
    ensures
        low <= clamp_of(x, low, high),
        clamp_of(x, low, high) <= high,
        abs_of(clamp_of(x, low, high) - x) <= abs_of(other - x),
{
}

/// A rounded number is at most a half away, and even where two are equally near.
pub proof fn law_rounding_is_to_the_nearest(x: real)
    ensures
        ({
            let n = round_half_even(x);
            let r = n as real;
            &&& (2 as real) * (r - x) <= 1 as real
            &&& (2 as real) * (x - r) <= 1 as real
            &&& (2 as real) * (r - x) == 1 as real || (2 as real) * (x - r) == 1 as real ==> n % 2
                == 0
        }),
{
}

/// The powers of two start from one, and each is twice the one before.
pub proof fn law_powers_of_two(e: int)
    ensures
        two_to(0) == 1 as real,
        two_to(e + 1) == (2 as real) * two_to(e),
{
    lemma_two_to_step(e);
}

} // verus!
