//! The tagged-union result of generating one field, and its conversion to
//! display text.
//!
//! Real numbers are carried as a fixed-point count of millionths, and
//! calendar dates as a day number in the proleptic Gregorian calendar
//! (day 1 is January 1 of year 1), so that every field is a plain value.

use vstd::prelude::*;
use crate::dates::date_display;

verus! {

/// How many fixed-point units make one whole real number.
pub const REAL_UNIT: i64 = 1_000_000;

/// One generated field: a string, a 64-bit integer, a fixed-point real
/// (in millionths), or a calendar date (as a day number).
#[derive(Debug)]
pub enum OutValue {
    String(String),
    I64(i64),
    Real(i64),
    Date(i64),
}

/// The character for one decimal digit.
pub open spec fn digit_char(d: int) -> char {
    if d == 0 { '0' }
    else if d == 1 { '1' }
    else if d == 2 { '2' }
    else if d == 3 { '3' }
    else if d == 4 { '4' }
    else if d == 5 { '5' }
    else if d == 6 { '6' }
    else if d == 7 { '7' }
    else if d == 8 { '8' }
    else { '9' }
}

/// The decimal digits of a natural number, most significant first.
pub open spec fn dec_digits(n: nat) -> Seq<char>
    decreases n,
{
    if n < 10 {
        seq![digit_char(n as int)]
    } else {
        dec_digits(n / 10) + seq![digit_char((n % 10) as int)]
    }
}

/// The decimal rendering of an integer, with a leading minus sign when
/// negative.
pub open spec fn dec_int(i: int) -> Seq<char> {
    if i < 0 {
        seq!['-'] + dec_digits((-i) as nat)
    } else {
        dec_digits(i as nat)
    }
}

/// Exactly `width` decimal digits of `n`, zero-padded on the left.
pub open spec fn padded_digits(n: nat, width: nat) -> Seq<char>
    decreases width,
{
    if width == 0 {
        Seq::empty()
    } else {
        padded_digits(n / 10, (width - 1) as nat) + seq![digit_char((n % 10) as int)]
    }
}

/// The sequence with its trailing zero characters removed.
pub open spec fn trim_trailing_zeros(s: Seq<char>) -> Seq<char>
    decreases s.len(),
{
    if s.len() > 0 && s.last() == '0' {
        trim_trailing_zeros(s.drop_last())
    } else {
        s
    }
}

/// The display text of a fixed-point real: the whole part, then a dot and
/// the fractional digits with trailing zeros removed, or no dot at all for
/// a whole number.
pub open spec fn real_display(micros: int) -> Seq<char> {
    let sign: Seq<char> = if micros < 0 { seq!['-'] } else { Seq::empty() };
    let a = if micros < 0 { -micros } else { micros };
    let whole = (a / (REAL_UNIT as int)) as nat;
    let frac = (a % (REAL_UNIT as int)) as nat;
    if frac == 0 {
        sign + dec_digits(whole)
    } else {
        sign + dec_digits(whole) + seq!['.'] + trim_trailing_zeros(padded_digits(frac, 6))
    }
}

/// The display text of one generated value.
pub open spec fn out_value_display(v: OutValue) -> Seq<char> {
    match v {
        OutValue::String(s) => s@,
        OutValue::I64(i) => dec_int(i as int),
        OutValue::Real(m) => real_display(m as int),
        OutValue::Date(d) => date_display(d as int),
    }
}

/// A single decimal digit as string text.
fn digit_str(d: u64) -> (r: &'static str)
    requires
        d < 10,
    ensures
        r@ =~= seq![digit_char(d as int)],
{
    proof {
        reveal_strlit("0");
        reveal_strlit("1");
        reveal_strlit("2");
        reveal_strlit("3");
        reveal_strlit("4");
        reveal_strlit("5");
        reveal_strlit("6");
        reveal_strlit("7");
        reveal_strlit("8");
        reveal_strlit("9");
    }
    if d == 0 { "0" }
    else if d == 1 { "1" }
    else if d == 2 { "2" }
    else if d == 3 { "3" }
    else if d == 4 { "4" }
    else if d == 5 { "5" }
    else if d == 6 { "6" }
    else if d == 7 { "7" }
    else if d == 8 { "8" }
    else { "9" }
}

/// The decimal rendering of a natural number.
pub fn u64_to_string(n: u64) -> (r: String)
    ensures
        r@ =~= dec_digits(n as nat),
    decreases n,
{
    if n < 10 {
        digit_str(n).to_owned()
    } else {
        let mut s = u64_to_string(n / 10);
        s.append(digit_str(n % 10));
        s
    }
}

/// Exactly `width` digits of `n`, zero-padded on the left.
pub fn padded_u64_string(n: u64, width: u64) -> (r: String)
    ensures
        r@ =~= padded_digits(n as nat, width as nat),
    decreases width,
{
    if width == 0 {
        String::new()
    } else {
        let mut s = padded_u64_string(n / 10, width - 1);
        s.append(digit_str(n % 10));
        s
    }
}

/// Dropping a zero last digit does not change the trimmed text.
proof fn lemma_trim_padded_step(f: nat, w: nat)
    requires
        w > 0,
        f % 10 == 0,
    ensures
        trim_trailing_zeros(padded_digits(f, w))
            == trim_trailing_zeros(padded_digits(f / 10, (w - 1) as nat)),
{
    assert(padded_digits(f, w).drop_last() =~= padded_digits(f / 10, (w - 1) as nat));
    assert(padded_digits(f, w).last() == digit_char((f % 10) as int));
}

/// A text whose last digit is not zero is already trimmed.
proof fn lemma_trim_nonzero(f: nat, w: nat)
    requires
        w > 0,
        f % 10 != 0,
    ensures
        trim_trailing_zeros(padded_digits(f, w)) == padded_digits(f, w),
{
    assert(padded_digits(f, w).last() == digit_char((f % 10) as int));
    assert(digit_char((f % 10) as int) != '0');
}

/// Powers of ten.
pub open spec fn pow10(e: nat) -> nat
    decreases e,
{
    if e == 0 {
        1
    } else {
        10 * pow10((e - 1) as nat)
    }
}

/// The fractional digits of a fixed-point real, trailing zeros removed.
fn frac_to_string(frac: u64) -> (r: String)
    requires
        0 < frac < 1_000_000,
    ensures
        r@ =~= trim_trailing_zeros(padded_digits(frac as nat, 6)),
        r@.len() > 0,
{
    proof {
        reveal_with_fuel(pow10, 7);
        assert(pow10(6) == 1_000_000);
    }
    let mut f: u64 = frac;
    let mut w: u64 = 6;
    while f % 10 == 0
        invariant
            0 < f,
            0 < w <= 6,
            (f as nat) < pow10(w as nat),
            trim_trailing_zeros(padded_digits(frac as nat, 6))
                == trim_trailing_zeros(padded_digits(f as nat, w as nat)),
        decreases f,
    {
        proof {
            lemma_trim_padded_step(f as nat, w as nat);
            if w == 1 {
                reveal_with_fuel(pow10, 2);
                assert(f < 10);
                assert(f % 10 == f);
                assert(false);
            }
            assert(pow10(w as nat) == 10 * pow10((w - 1) as nat));
            lemma_div10_bound(f as nat, pow10((w - 1) as nat));
            assert(f / 10 > 0);
        }
        f = f / 10;
        w = w - 1;
    }
    proof {
        lemma_trim_nonzero(f as nat, w as nat);
        lemma_padded_len(f as nat, w as nat);
    }
    padded_u64_string(f, w)
}

/// Dividing by ten stays under a tenth of the bound.
proof fn lemma_div10_bound(f: nat, p: nat)
    requires
        f < 10 * p,
    ensures
        f / 10 < p,
{
    assert(f / 10 < p) by (nonlinear_arith)
        requires
            f < 10 * p,
            f >= 0,
    ;
}

/// Padded text has exactly the asked width.
proof fn lemma_padded_len(n: nat, width: nat)
    ensures
        padded_digits(n, width).len() == width,
    decreases width,
{
    if width > 0 {
        lemma_padded_len(n / 10, (width - 1) as nat);
    }
}

/// The display text of a fixed-point real number held in millionths.
pub fn real_to_string(micros: i64) -> (r: String)
    ensures
        r@ =~= real_display(micros as int),
{
    let magnitude: u64 = if micros >= 0 {
        micros as u64
    } else {
        ((-(micros + 1)) as u64) + 1
    };
    let whole: u64 = magnitude / 1_000_000;
    let frac: u64 = magnitude % 1_000_000;
    let mut s = String::new();
    if micros < 0 {
        proof {
            reveal_strlit("-");
        }
        s.append("-");
    }
    s.append(u64_to_string(whole).as_str());
    if frac > 0 {
        proof {
            reveal_strlit(".");
        }
        s.append(".");
        s.append(frac_to_string(frac).as_str());
    }
    proof {
        assert(magnitude == if micros < 0 { -(micros as int) } else { micros as int });
    }
    assert(s@ =~= real_display(micros as int));
    s
}

/// The decimal rendering of a signed 64-bit integer.
pub fn i64_to_string(i: i64) -> (r: String)
    ensures
        r@ =~= dec_int(i as int),
{
    if i >= 0 {
        u64_to_string(i as u64)
    } else {
        let magnitude: u64 = ((-(i + 1)) as u64) + 1;
        assert(magnitude == -(i as int));
        let mut s = String::new();
        proof {
            reveal_strlit("-");
        }
        s.append("-");
        s.append(u64_to_string(magnitude).as_str());
        assert(s@ =~= dec_int(i as int));
        s
    }
}

impl OutValue {
    /// An equal copy of this value.
    pub fn duplicate(&self) -> (r: OutValue)
        ensures
            r == *self,
    {
        match self {
            OutValue::String(s) => OutValue::String(s.clone()),
            OutValue::I64(i) => OutValue::I64(*i),
            OutValue::Real(m) => OutValue::Real(*m),
            OutValue::Date(d) => OutValue::Date(*d),
        }
    }

    /// The display text of this value.
    pub fn to_display_string(&self) -> (r: String)
        ensures
            r@ == out_value_display(*self),
    {
        match self {
            OutValue::String(s) => s.clone(),
            OutValue::I64(i) => i64_to_string(*i),
            OutValue::Real(m) => real_to_string(*m),
            OutValue::Date(d) => crate::dates::format_day_number(*d),
        }
    }
}

} // verus!
