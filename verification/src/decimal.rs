//! Numbers as the dialog writes them: in decimal, rounded to the places that are shown.

use vstd::prelude::*;
use vstd::string::*;

use crate::natural::Natural;
use crate::number::{abs_of, law_rounding_is_to_the_nearest, round_half_even, Number};

verus! {

pub open spec fn digit_text(d: nat) -> Seq<char> {
    if d == 0 {
        "0"@
    } else if d == 1 {
        "1"@
    } else if d == 2 {
        "2"@
    } else if d == 3 {
        "3"@
    } else if d == 4 {
        "4"@
    } else if d == 5 {
        "5"@
    } else if d == 6 {
        "6"@
    } else if d == 7 {
        "7"@
    } else if d == 8 {
        "8"@
    } else {
        "9"@
    }
}

/// A natural number in decimal, without leading zeros.
pub open spec fn natural_text(n: nat) -> Seq<char>
    decreases n,
{
    if n < 10 {
        digit_text(n)
    } else {
        natural_text(n / 10) + digit_text(n % 10)
    }
}

pub open spec fn sign_text(x: real) -> Seq<char> {
    if x < 0 as real {
        "-"@
    } else {
        ""@
    }
}

/// `x` rounded to a whole number, ties to even.
pub open spec fn whole_text(x: real) -> Seq<char> {
    sign_text(x) + natural_text(round_half_even(abs_of(x)) as nat)
}

/// `x` rounded to one decimal place, ties to even.
pub open spec fn tenths_text(x: real) -> Seq<char> {
    let tenths = round_half_even(abs_of(x) * (10 as real)) as nat;
    sign_text(x) + natural_text(tenths / 10) + "."@ + digit_text(tenths % 10)
}

fn digit(d: u64) -> (res: &'static str)
    requires
        d < 10,
    ensures
        res@ == digit_text(d as nat),
{
    match d {
        0 => "0",
        1 => "1",
        2 => "2",
        3 => "3",
        4 => "4",
        5 => "5",
        6 => "6",
        7 => "7",
        8 => "8",
        _ => "9",
    }
}

/// The quotient by ten and the last decimal digit.
fn split_last_digit(n: &Natural) -> (res: (Natural, &'static str))
    ensures
        res.0@ == n@ / 10,
        res.1@ == digit_text(n@ % 10),
{
    let (front, last) = n.divided_by(&Natural::from_u64(10));
    let d: u64 = match last.to_u64() {
        Some(d) => d,
        None => 0,
    };
    (front, digit(d))
}

/// Write a natural number behind what `text` holds.
pub fn append_natural(text: &mut String, n: &Natural)
    ensures
        final(text)@ == old(text)@ + natural_text(n@),
    decreases n@,
{
    let (front, last) = split_last_digit(n);
    if !front.is_zero() {
        append_natural(text, &front);
    }
    text.append(last);
    assert(text@ =~= old(text)@ + natural_text(n@));
}

fn append_sign(text: &mut String, x: &Number)
    ensures
        final(text)@ == old(text)@ + sign_text(x@),
{
    if x.is_negative() {
        text.append("-");
    } else {
        text.append("");
    }
}

/// Write `x`, rounded to a whole number, behind what `text` holds.
pub fn append_whole(text: &mut String, x: &Number)
    ensures
        final(text)@ == old(text)@ + whole_text(x@),
{
    append_sign(text, x);
    proof {
        let m = abs_of(x@);
        assert(m * (1 as real) == m) by (nonlinear_arith);
    }
    append_natural(text, &x.rounded_magnitude(1));
    assert(text@ =~= old(text)@ + whole_text(x@));
}

/// Write `x`, rounded to one decimal place, behind what `text` holds.
pub fn append_tenths(text: &mut String, x: &Number)
    ensures
        final(text)@ == old(text)@ + tenths_text(x@),
{
    append_sign(text, x);
    let (front, last) = split_last_digit(&x.rounded_magnitude(10));
    append_natural(text, &front);
    text.append(".");
    text.append(last);
    assert(text@ =~= old(text)@ + tenths_text(x@));
}

/// The number that a row of decimal digits spells.
pub open spec fn decimal_value(text: Seq<char>) -> int
    decreases text.len(),
{
    if text.len() == 0 {
        0
    } else {
        10 * decimal_value(text.drop_last()) + (text.last() as int - '0' as int)
    }
}

/// Whether a text is a number in decimal: digits only, and no zero in front of others.
pub open spec fn is_decimal(text: Seq<char>) -> bool {
    &&& text.len() > 0
    &&& forall|i: int| 0 <= i < text.len() ==> '0' <= #[trigger] text[i] <= '9'
    &&& text.len() > 1 ==> text[0] != '0'
}

/// Whether `n` is the whole number nearest to `x`, and the even one of two.
pub open spec fn is_nearest_whole(n: int, x: real) -> bool {
    let r = n as real;
    &&& (2 as real) * (r - x) <= 1 as real
    &&& (2 as real) * (x - r) <= 1 as real
    &&& (2 as real) * (r - x) == 1 as real || (2 as real) * (x - r) == 1 as real ==> n % 2 == 0
}

/// What follows the sign of a number that is written out.
pub open spec fn without_sign(text: Seq<char>, x: real) -> Seq<char> {
    if x < 0 as real {
        text.skip(1)
    } else {
        text
    }
}

proof fn lemma_digit_text(d: nat)
    requires
        d < 10,
    ensures
        digit_text(d).len() == 1,
        digit_text(d)[0] as int == '0' as int + d,
{
    reveal_strlit("0");
    reveal_strlit("1");
    reveal_strlit("2");
    reveal_strlit("3");
    reveal_strlit("4");
    reveal_strlit("5");
    reveal_strlit("6");
    reveal_strlit("7");
    reveal_strlit("8");
    reveal_strlit("9");
}

/// A natural number that is written out reads back as itself.
pub proof fn law_natural_text_reads_back(n: nat)
    ensures
        is_decimal(natural_text(n)),
        decimal_value(natural_text(n)) == n,
    decreases n,
{
    let text = natural_text(n);
    if n < 10 {
        lemma_digit_text(n);
        assert(text.drop_last() =~= Seq::<char>::empty());
        assert(decimal_value(text.drop_last()) == 0);
    } else {
        let front = natural_text(n / 10);
        law_natural_text_reads_back(n / 10);
        lemma_digit_text(n % 10);
        assert(text.drop_last() =~= front);
        assert(text.last() == digit_text(n % 10)[0]);
        assert(text[0] == front[0]);
        if front.len() == 1 {
            assert(front.drop_last() =~= Seq::<char>::empty());
            assert(decimal_value(front.drop_last()) == 0);
            assert(decimal_value(front) == front[0] as int - '0' as int);
        }
        assert forall|i: int| 0 <= i < text.len() implies '0' <= #[trigger] text[i] <= '9' by {
            if i < front.len() {
                assert(text[i] == front[i]);
            }
        }
    }
}

proof fn lemma_sign(x: real, rest: Seq<char>)
    ensures
        ({
            let text = sign_text(x) + rest;
            &&& x < 0 as real ==> text.len() > 0 && text[0] == '-'
            &&& without_sign(text, x) =~= rest
        }),
{
    reveal_strlit("-");
    reveal_strlit("");
}

/// A number that is written as a whole one reads back as the nearest whole number, behind a
/// minus where it is negative.
pub proof fn law_whole_text_reads_back(x: real)
    ensures
        x < 0 as real ==> whole_text(x).len() > 0 && whole_text(x)[0] == '-',
        is_decimal(without_sign(whole_text(x), x)),
        is_nearest_whole(
            decimal_value(without_sign(whole_text(x), x)),
            if x < 0 as real {
                -x
            } else {
                x
            },
        ),
{
    let n = round_half_even(abs_of(x));
    law_rounding_is_to_the_nearest(abs_of(x));
    law_natural_text_reads_back(n as nat);
    lemma_sign(x, natural_text(n as nat));
}

/// A number that is written with one decimal place reads back as the nearest tenth: one digit
/// stands behind the point, and the digits without the point spell the tenths.
pub proof fn law_tenths_text_reads_back(x: real)
    ensures
        x < 0 as real ==> tenths_text(x).len() > 0 && tenths_text(x)[0] == '-',
        ({
            let text = without_sign(tenths_text(x), x);
            let n = text.len();
            let whole = text.take(n - 2);
            &&& n >= 3
            &&& text[n - 2] == '.'
            &&& '0' <= text[n - 1] <= '9'
            &&& is_decimal(whole)
            &&& is_nearest_whole(
                decimal_value(whole.push(text[n - 1])),
                (10 as real) * if x < 0 as real {
                    -x
                } else {
                    x
                },
            )
        }),
{
    let tenths = round_half_even(abs_of(x) * (10 as real)) as nat;
    law_rounding_is_to_the_nearest(abs_of(x) * (10 as real));
    law_natural_text_reads_back(tenths / 10);
    lemma_digit_text(tenths % 10);
    reveal_strlit(".");
    let front = natural_text(tenths / 10);
    let rest = front + "."@ + digit_text(tenths % 10);
    assert(tenths_text(x) =~= sign_text(x) + rest);
    lemma_sign(x, rest);
    let n = rest.len();
    assert(rest.take(n - 2) =~= front);
    let digits = front.push(rest[n - 1]);
    assert(digits.drop_last() =~= front);
    assert(decimal_value(digits) == tenths);
}

} // verus!
