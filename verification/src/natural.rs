//! Natural numbers of any size, held as 32-bit limbs, least significant first.

use vstd::prelude::*;

verus! {

/// One more than the largest limb.
pub open spec fn limb_base() -> nat {
    0x1_0000_0000
}

/// What a one stands for in the limb with index `i`.
pub open spec fn place(i: nat) -> nat
    decreases i,
{
    if i == 0 {
        1
    } else {
        limb_base() * place((i - 1) as nat)
    }
}

/// The limb with index `i`, where a number goes on with zeros for ever.
pub open spec fn limb_at(s: Seq<u32>, i: nat) -> nat {
    if i < s.len() {
        s[i as int] as nat
    } else {
        0
    }
}

/// The number that the lowest `n` limbs make.
pub open spec fn low_part(s: Seq<u32>, n: nat) -> nat
    decreases n,
{
    if n == 0 {
        0
    } else {
        low_part(s, (n - 1) as nat) + limb_at(s, (n - 1) as nat) * place((n - 1) as nat)
    }
}

/// The number that all limbs make.
pub open spec fn limbs_value(s: Seq<u32>) -> nat {
    low_part(s, s.len())
}

/// Limbs above the last one add nothing.
proof fn lemma_low_part_beyond(s: Seq<u32>, n: nat)
    requires
        n >= s.len(),
    ensures
        low_part(s, n) == limbs_value(s),
    decreases n - s.len(),
{
    if n > s.len() {
        lemma_low_part_beyond(s, (n - 1) as nat);
        assert(0 * place((n - 1) as nat) == 0) by (nonlinear_arith);
    }
}

/// The low part depends on the low limbs alone.
proof fn lemma_low_part_agrees(s: Seq<u32>, t: Seq<u32>, n: nat)
    requires
        forall|i: nat| #![trigger limb_at(s, i)] i < n ==> limb_at(s, i) == limb_at(t, i),
    ensures
        low_part(s, n) == low_part(t, n),
    decreases n,
{
    if n > 0 {
        lemma_low_part_agrees(s, t, (n - 1) as nat);
        assert(limb_at(s, (n - 1) as nat) == limb_at(t, (n - 1) as nat));
    }
}

/// The highest limb, where there is one, is not zero.
pub open spec fn has_no_leading_zero(s: Seq<u32>) -> bool {
    s.len() > 0 ==> s.last() != 0
}

proof fn lemma_value_push(s: Seq<u32>, x: u32)
    ensures
        limbs_value(s.push(x)) == limbs_value(s) + x as nat * place(s.len()),
{
    lemma_low_part_agrees(s.push(x), s, s.len());
}

/// `low_part(s, n)` fits below the next place.
proof fn lemma_low_part_bound(s: Seq<u32>, n: nat)
    ensures
        low_part(s, n) < place(n),
    decreases n,
{
    if n > 0 {
        let m = (n - 1) as nat;
        lemma_low_part_bound(s, m);
        let d = limb_at(s, m);
        let p = place(m);
        let l = low_part(s, m);
        assert(l + d * p < limb_base() * p) by (nonlinear_arith)
            requires
                l < p,
                d < limb_base(),
        ;
    }
}

/// The lowest limb apart from the rest.
proof fn lemma_low_part_front(s: Seq<u32>, n: nat)
    requires
        s.len() > 0,
    ensures
        low_part(s, n + 1) == s[0] as nat + limb_base() * low_part(
            s.subrange(1, s.len() as int),
            n,
        ),
    decreases n,
{
    let rest = s.subrange(1, s.len() as int);
    if n == 0 {
        assert(low_part(s, 1) == low_part(s, 0) + limb_at(s, 0) * place(0));
        assert(limb_at(s, 0) * 1 == limb_at(s, 0)) by (nonlinear_arith);
        assert(limb_base() * 0 == 0) by (nonlinear_arith);
    } else {
        let m = (n - 1) as nat;
        lemma_low_part_front(s, m);
        let d = limb_at(rest, m);
        assert(limb_at(s, n) == d);
        let p = place(m);
        let l = low_part(rest, m);
        assert(place(n) == limb_base() * p);
        assert(limb_base() * (l + d * p) == limb_base() * l + d * (limb_base() * p))
            by (nonlinear_arith);
    }
}

proof fn lemma_value_front(s: Seq<u32>)
    requires
        s.len() > 0,
    ensures
        limbs_value(s) == s[0] as nat + limb_base() * limbs_value(s.subrange(1, s.len() as int)),
{
    lemma_low_part_front(s, (s.len() - 1) as nat);
}

/// A natural number without an upper bound.
#[derive(Debug)]
pub struct Natural {
    limbs: Vec<u32>,
}

impl View for Natural {
    type V = nat;

    closed spec fn view(&self) -> nat {
        limbs_value(self.limbs@)
    }
}

impl Clone for Natural {
    fn clone(&self) -> (res: Self)
        ensures
            res@ == self@,
    {
        let limbs = self.limbs.clone();
        assert(limbs@ =~= self.limbs@);
        Natural { limbs }
    }
}

impl Natural {
    pub fn zero() -> (res: Self)
        ensures
            res@ == 0,
    {
        Natural { limbs: Vec::new() }
    }

    pub fn from_u64(value: u64) -> (res: Self)
        ensures
            res@ == value,
    {
        let mut limbs: Vec<u32> = Vec::new();
        let low: u32 = (value % 0x1_0000_0000) as u32;
        let high: u32 = (value / 0x1_0000_0000) as u32;
        limbs.push(low);
        limbs.push(high);
        proof {
            let e = Seq::<u32>::empty();
            lemma_value_push(e, low);
            lemma_value_push(e.push(low), high);
            assert(limbs@ =~= e.push(low).push(high));
            reveal_with_fuel(place, 2);
            assert(place(1) == limb_base());
            assert(limbs_value(e) == 0);
            assert(low as nat * place(0) == low as nat) by (nonlinear_arith)
                requires
                    place(0) == 1,
            ;
            assert(limbs_value(limbs@) == low as nat + high as nat * limb_base());
        }
        Natural { limbs }.trimmed()
    }

    /// The same number without zero limbs at the top.
    fn trimmed(self) -> (res: Self)
        ensures
            res@ == self@,
            has_no_leading_zero(res.limbs@),
    {
        let mut limbs = self.limbs;
        let mut going: bool = true;
        while going
            invariant
                limbs_value(limbs@) == self@,
                !going ==> has_no_leading_zero(limbs@),
            decreases limbs@.len() + (if going { 1nat } else { 0nat }),
        {
            let n: usize = limbs.len();
            if n > 0 && limbs[n - 1] == 0 {
                let ghost before = limbs@;
                limbs.pop();
                proof {
                    assert(before =~= limbs@.push(0));
                    lemma_value_push(limbs@, 0);
                    assert(0 * place(limbs@.len()) == 0) by (nonlinear_arith);
                }
            } else {
                going = false;
            }
        }
        Natural { limbs }
    }

    fn limb(&self, i: usize) -> (res: u32)
        ensures
            res == limb_at(self.limbs@, i as nat),
    {
        if i < self.limbs.len() {
            self.limbs[i]
        } else {
            0
        }
    }

    pub fn is_zero(&self) -> (res: bool)
        ensures
            res == (self@ == 0),
    {
        !Natural::zero().less(self)
    }

    /// Whether this number is smaller than `other`.
    pub fn less(&self, other: &Natural) -> (res: bool)
        ensures
            res == (self@ < other@),
    {
        let a: usize = self.limbs.len();
        let b: usize = other.limbs.len();
        let mut i: usize = if a < b { b } else { a };
        let ghost top = i as nat;
        proof {
            lemma_low_part_beyond(self.limbs@, top);
            lemma_low_part_beyond(other.limbs@, top);
        }
        while i > 0
            invariant
                self@ - low_part(self.limbs@, i as nat) == other@ - low_part(
                    other.limbs@,
                    i as nat,
                ),
            decreases i,
        {
            i -= 1;
            let x: u32 = self.limb(i);
            let y: u32 = other.limb(i);
            if x != y {
                proof {
                    let n = i as nat;
                    let p = place(n);
                    lemma_low_part_bound(self.limbs@, n);
                    lemma_low_part_bound(other.limbs@, n);
                    let l = low_part(self.limbs@, n);
                    let m = low_part(other.limbs@, n);
                    if x < y {
                        assert(l + x * p < m + y * p) by (nonlinear_arith)
                            requires
                                l < p,
                                m >= 0,
                                x + 1 <= y,
                        ;
                    } else {
                        assert(m + y * p < l + x * p) by (nonlinear_arith)
                            requires
                                m < p,
                                l >= 0,
                                y + 1 <= x,
                        ;
                    }
                }
                return x < y;
            }
        }
        false
    }

    pub fn plus(&self, other: &Natural) -> (res: Natural)
        ensures
            res@ == self@ + other@,
    {
        let a: usize = self.limbs.len();
        let b: usize = other.limbs.len();
        let n: usize = if a < b { b } else { a };
        let mut limbs: Vec<u32> = Vec::new();
        let mut carry: u32 = 0;
        let mut i: usize = 0;
        assert(0 * place(0) == 0) by (nonlinear_arith);
        while i < n
            invariant
                i <= n,
                limbs@.len() == i,
                carry <= 1,
                limbs_value(limbs@) + carry * place(i as nat) == low_part(self.limbs@, i as nat)
                    + low_part(other.limbs@, i as nat),
            decreases n - i,
        {
            let x: u32 = self.limb(i);
            let y: u32 = other.limb(i);
            let sum: u64 = x as u64 + y as u64 + carry as u64;
            let digit: u32 = (sum % 0x1_0000_0000) as u32;
            let next: u32 = (sum / 0x1_0000_0000) as u32;
            proof {
                lemma_value_push(limbs@, digit);
                let p = place(i as nat);
                let v = limbs_value(limbs@);
                let l = low_part(self.limbs@, i as nat);
                let m = low_part(other.limbs@, i as nat);
                assert(place(i as nat + 1) == limb_base() * p);
                assert(v + digit * p + next * (limb_base() * p) == l + x * p + (m + y * p))
                    by (nonlinear_arith)
                    requires
                        v + carry * p == l + m,
                        digit + next * limb_base() == x + y + carry,
                ;
            }
            limbs.push(digit);
            carry = next;
            i += 1;
        }
        let ghost before = limbs@;
        limbs.push(carry);
        proof {
            lemma_value_push(before, carry);
            lemma_low_part_beyond(self.limbs@, n as nat);
            lemma_low_part_beyond(other.limbs@, n as nat);
        }
        Natural { limbs }.trimmed()
    }

    pub fn minus(&self, other: &Natural) -> (res: Natural)
        requires
            other@ <= self@,
        ensures
            res@ == self@ - other@,
    {
        let a: usize = self.limbs.len();
        let b: usize = other.limbs.len();
        let n: usize = if a < b { b } else { a };
        let mut limbs: Vec<u32> = Vec::new();
        let mut borrow: u32 = 0;
        let mut i: usize = 0;
        assert(0 * place(0) == 0) by (nonlinear_arith);
        while i < n
            invariant
                i <= n,
                limbs@.len() == i,
                borrow <= 1,
                limbs_value(limbs@) + low_part(other.limbs@, i as nat) == low_part(
                    self.limbs@,
                    i as nat,
                ) + borrow * place(i as nat),
            decreases n - i,
        {
            let x: u32 = self.limb(i);
            let y: u32 = other.limb(i);
            let taken: u64 = y as u64 + borrow as u64;
            let lifted: bool = (x as u64) < taken;
            let next: u32 = if lifted { 1 } else { 0 };
            let wide: u64 = if lifted {
                x as u64 + 0x1_0000_0000 - taken
            } else {
                x as u64 - taken
            };
            let digit: u32 = wide as u32;
            proof {
                lemma_value_push(limbs@, digit);
                let p = place(i as nat);
                let v = limbs_value(limbs@);
                let l = low_part(self.limbs@, i as nat);
                let m = low_part(other.limbs@, i as nat);
                assert(place(i as nat + 1) == limb_base() * p);
                assert(v + digit * p + (m + y * p) == l + x * p + next * (limb_base() * p))
                    by (nonlinear_arith)
                    requires
                        v + m == l + borrow * p,
                        digit + y + borrow == x + next * limb_base(),
                ;
            }
            limbs.push(digit);
            borrow = next;
            i += 1;
        }
        proof {
            lemma_low_part_beyond(self.limbs@, n as nat);
            lemma_low_part_beyond(other.limbs@, n as nat);
            lemma_low_part_bound(limbs@, n as nat);
            let p = place(n as nat);
            let v = limbs_value(limbs@);
            if borrow == 1 {
                assert(1 * p == p) by (nonlinear_arith);
            } else {
                assert(0 * p == 0) by (nonlinear_arith);
            }
        }
        Natural { limbs }.trimmed()
    }

    /// This number times one limb.
    pub fn times_limb(&self, factor: u32) -> (res: Natural)
        ensures
            res@ == self@ * factor,
    {
        let n: usize = self.limbs.len();
        let mut limbs: Vec<u32> = Vec::new();
        let mut carry: u32 = 0;
        let mut i: usize = 0;
        assert(0 * place(0) == 0) by (nonlinear_arith);
        assert(0 * factor == 0) by (nonlinear_arith);
        while i < n
            invariant
                i <= n,
                n == self.limbs@.len(),
                limbs@.len() == i,
                limbs_value(limbs@) + carry * place(i as nat) == low_part(self.limbs@, i as nat)
                    * factor,
            decreases n - i,
        {
            let x: u32 = self.limbs[i];
            assert(x * factor + carry <= 0xffff_ffff_ffff_ffff) by (nonlinear_arith)
                requires
                    x <= 0xffff_ffff,
                    factor <= 0xffff_ffff,
                    carry <= 0xffff_ffff,
            ;
            assert(x * factor <= 0xffff_ffff_ffff_ffff) by (nonlinear_arith)
                requires
                    x * factor + carry <= 0xffff_ffff_ffff_ffff,
                    carry >= 0,
            ;
            let sum: u64 = x as u64 * factor as u64 + carry as u64;
            let digit: u32 = (sum % 0x1_0000_0000) as u32;
            let next: u32 = (sum / 0x1_0000_0000) as u32;
            proof {
                lemma_value_push(limbs@, digit);
                let p = place(i as nat);
                let v = limbs_value(limbs@);
                let l = low_part(self.limbs@, i as nat);
                assert(place(i as nat + 1) == limb_base() * p);
                assert(v + digit * p + next * (limb_base() * p) == (l + x * p) * factor)
                    by (nonlinear_arith)
                    requires
                        v + carry * p == l * factor,
                        digit + next * limb_base() == x * factor + carry,
                ;
            }
            limbs.push(digit);
            carry = next;
            i += 1;
        }
        let ghost before = limbs@;
        limbs.push(carry);
        proof {
            lemma_value_push(before, carry);
        }
        Natural { limbs }.trimmed()
    }

    /// This number one place up, with `digit` as the new lowest limb.
    fn with_low_limb(self, digit: u32) -> (res: Natural)
        ensures
            res@ == digit + limb_base() * self@,
    {
        let mut limbs = self.limbs;
        let ghost before = limbs@;
        limbs.insert(0, digit);
        proof {
            lemma_value_front(limbs@);
            assert(limbs@.subrange(1, limbs@.len() as int) =~= before);
        }
        Natural { limbs }.trimmed()
    }

    pub fn times(&self, other: &Natural) -> (res: Natural)
        ensures
            res@ == self@ * other@,
    {
        let n: usize = other.limbs.len();
        let mut acc = Natural::zero();
        let mut i: usize = n;
        proof {
            assert(other.limbs@.subrange(n as int, n as int) =~= Seq::<u32>::empty());
            assert(self@ * 0 == 0) by (nonlinear_arith);
        }
        while i > 0
            invariant
                i <= n,
                n == other.limbs@.len(),
                acc@ == self@ * limbs_value(other.limbs@.subrange(i as int, n as int)),
            decreases i,
        {
            let ghost above = other.limbs@.subrange(i as int, n as int);
            let ghost before = acc@;
            i -= 1;
            let x: u32 = other.limbs[i];
            let part = self.times_limb(x);
            acc = acc.with_low_limb(0).plus(&part);
            proof {
                let here = other.limbs@.subrange(i as int, n as int);
                assert(here.subrange(1, here.len() as int) =~= above);
                lemma_value_front(here);
                let v = limbs_value(above);
                assert(limb_base() * before + self@ * x == self@ * (x + limb_base() * v))
                    by (nonlinear_arith)
                    requires
                        before == self@ * v,
                ;
            }
        }
        assert(other.limbs@.subrange(0, n as int) =~= other.limbs@);
        acc
    }

    /// The largest limb `d` with `d * divisor <= self`, for a quotient of one limb.
    fn limb_quotient(&self, divisor: &Natural) -> (res: u32)
        requires
            divisor@ > 0,
            self@ < limb_base() * divisor@,
        ensures
            res * divisor@ <= self@ < (res + 1) * divisor@,
    {
        let mut low: u32 = 0;
        let mut high: u32 = 0xffff_ffff;
        assert(0 * divisor@ == 0) by (nonlinear_arith);
        while low < high
            invariant
                low <= high,
                low * divisor@ <= self@ < (high + 1) * divisor@,
            decreases high - low,
        {
            let middle: u32 = high - (high - low) / 2;
            if self.less(&divisor.times_limb(middle)) {
                high = middle - 1;
            } else {
                low = middle;
            }
            assert(divisor@ * middle == middle * divisor@) by (nonlinear_arith);
        }
        low
    }

    /// Quotient and remainder.
    pub fn divided_by(&self, divisor: &Natural) -> (res: (Natural, Natural))
        requires
            divisor@ > 0,
        ensures
            self@ == res.0@ * divisor@ + res.1@,
            res.1@ < divisor@,
            res.0@ == self@ / divisor@,
            res.1@ == self@ % divisor@,
    {
        let n: usize = self.limbs.len();
        let mut quotient = Natural::zero();
        let mut rest = Natural::zero();
        let mut i: usize = n;
        proof {
            assert(self.limbs@.subrange(n as int, n as int) =~= Seq::<u32>::empty());
            assert(0 * divisor@ == 0) by (nonlinear_arith);
        }
        while i > 0
            invariant
                i <= n,
                n == self.limbs@.len(),
                divisor@ > 0,
                rest@ < divisor@,
                limbs_value(self.limbs@.subrange(i as int, n as int)) == quotient@ * divisor@
                    + rest@,
            decreases i,
        {
            let ghost above = self.limbs@.subrange(i as int, n as int);
            let ghost q = quotient@;
            let ghost r = rest@;
            let ghost d = divisor@;
            i -= 1;
            let x: u32 = self.limbs[i];
            let wide = rest.with_low_limb(x);
            assert(x + limb_base() * r < limb_base() * d) by (nonlinear_arith)
                requires
                    x < limb_base(),
                    r + 1 <= d,
            ;
            let digit: u32 = wide.limb_quotient(divisor);
            let taken = divisor.times_limb(digit);
            proof {
                assert(d * digit == digit * d) by (nonlinear_arith);
                assert((digit + 1) * d == digit * d + d) by (nonlinear_arith);
            }
            rest = wide.minus(&taken);
            quotient = quotient.with_low_limb(digit);
            proof {
                let here = self.limbs@.subrange(i as int, n as int);
                assert(here.subrange(1, here.len() as int) =~= above);
                lemma_value_front(here);
                assert(x + limb_base() * (q * d + r) == (digit + limb_base() * q) * d + (x
                    + limb_base() * r - digit * d)) by (nonlinear_arith);
            }
        }
        assert(self.limbs@.subrange(0, n as int) =~= self.limbs@);
        proof {
            vstd::arithmetic::div_mod::lemma_fundamental_div_mod_converse(
                self@ as int,
                divisor@ as int,
                quotient@ as int,
                rest@ as int,
            );
        }
        (quotient, rest)
    }

    /// The number as a machine integer, where it fits.
    pub fn to_u64(&self) -> (res: Option<u64>)
        ensures
            res is Some <==> self@ <= u64::MAX,
            res matches Some(v) ==> v == self@,
    {
        let low: u64 = self.limb(0) as u64;
        let high: u64 = self.limb(1) as u64;
        let value: u64 = high * 0x1_0000_0000 + low;
        let back = Natural::from_u64(value);
        proof {
            let s = self.limbs@;
            if s.len() > 0 {
                let t = s.subrange(1, s.len() as int);
                lemma_value_front(s);
                if t.len() > 0 {
                    let u = t.subrange(1, t.len() as int);
                    lemma_value_front(t);
                    let v = limbs_value(u);
                    assert(t[0] == s[1]);
                    if v > 0 {
                        assert(limb_base() * v >= limb_base()) by (nonlinear_arith)
                            requires
                                v >= 1,
                                limb_base() > 0,
                        ;
                        assert(limb_base() * limbs_value(t) >= limb_base() * limb_base())
                            by (nonlinear_arith)
                            requires
                                limbs_value(t) >= limb_base(),
                                limb_base() > 0,
                        ;
                    }
                }
            }
        }
        if self.less(&back) || back.less(self) {
            None
        } else {
            Some(value)
        }
    }

    /// The greatest common divisor of two numbers, the second of them positive.
    pub fn common_divisor(&self, other: &Natural) -> (res: Natural)
        requires
            other@ > 0,
        ensures
            res@ > 0,
            self@ % res@ == 0,
            other@ % res@ == 0,
            forall|g: nat|
                #![trigger res@ % g]
                g > 0 && self@ % g == 0 && other@ % g == 0 ==> res@ % g == 0,
    {
        let mut a = self.clone();
        let mut b = other.clone();
        while !b.is_zero()
            invariant
                a@ > 0 || b@ > 0,
                forall|g: nat|
                    g > 0 ==> (#[trigger] divides_both(g, a@, b@) <==> divides_both(
                        g,
                        self@,
                        other@,
                    )),
            decreases b@,
        {
            let (q, r) = a.divided_by(&b);
            proof {
                assert forall|g: nat| g > 0 implies (#[trigger] divides_both(g, b@, r@)
                    <==> divides_both(g, self@, other@)) by {
                    lemma_division_keeps_divisors(q@, b@, r@, g);
                    assert(divides_both(g, a@, b@) <==> divides_both(g, self@, other@));
                }
            }
            a = b;
            b = r;
        }
        proof {
            assert(divides_both(a@, a@, b@));
            assert forall|g: nat|
                #![trigger a@ % g]
                g > 0 && self@ % g == 0 && other@ % g == 0 implies a@ % g == 0 by {
                assert(divides_both(g, self@, other@));
                assert(divides_both(g, a@, b@));
            }
        }
        a
    }
}

pub open spec fn divides_both(g: nat, a: nat, b: nat) -> bool {
    a % g == 0 && b % g == 0
}

/// Dividing with a remainder keeps the common divisors.
proof fn lemma_division_keeps_divisors(q: nat, b: nat, r: nat, g: nat)
    requires
        g > 0,
    ensures
        divides_both(g, q * b + r, b) <==> divides_both(g, b, r),
{
    if b % g == 0 {
        let m = b / g;
        vstd::arithmetic::div_mod::lemma_fundamental_div_mod(b as int, g as int);
        assert(q * b + r == (q * m) * g + r) by (nonlinear_arith)
            requires
                b == g * m,
        ;
        vstd::arithmetic::div_mod::lemma_mod_multiples_vanish((q * m) as int, r as int, g as int);
        assert((q * m) * g == g * (q * m)) by (nonlinear_arith);
    }
}

} // verus!
