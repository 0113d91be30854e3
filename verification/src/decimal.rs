//! Decimal numbers with six places, and how they read as text.
//!
//! A stepper's value moves in steps such as 0.1 or 0.05. Counted in millionths those
//! are whole numbers, so adding a step ten times is exactly adding one.

use vstd::prelude::*;

verus! {

/// Millionths in one.
pub const MILLION: i64 = 1_000_000;

/// A number counted in millionths.
#[derive(Debug, Clone, Copy, PartialEq, Eq, Structural)]
pub struct Fixed {
    pub millionths: i64,
}

impl View for Fixed {
    type V = int;

    open spec fn view(&self) -> int {
        self.millionths as int
    }
}

impl Fixed {
    pub fn from_millionths(millionths: i64) -> (f: Self)
        ensures
            f@ == millionths,
    {
        Fixed { millionths }
    }

    pub fn from_int(whole: i32) -> (f: Self)
        ensures
            f@ == whole * 1_000_000,
    {
        Fixed { millionths: whole as i64 * MILLION }
    }
}

/// The character for one decimal digit.
pub open spec fn digit(d: nat) -> char {
    (48 + d) as char
}

/// `n` written in base ten, without leading zeros.
pub open spec fn digits(n: nat) -> Seq<char>
    decreases n,
{
    if n < 10 {
        seq![digit(n)]
    } else {
        digits(n / 10).push(digit(n % 10))
    }
}

/// The last `width` digits of `n`, with leading zeros.
pub open spec fn padded(n: nat, width: nat) -> Seq<char>
    decreases width,
{
    if width == 0 {
        Seq::empty()
    } else {
        padded(n / 10, (width - 1) as nat).push(digit(n % 10))
    }
}

pub open spec fn pow10(n: nat) -> nat
    decreases n,
{
    if n == 0 {
        1
    } else {
        10 * pow10((n - 1) as nat)
    }
}

/// `a / scale` rounded to the nearest whole number, ties to the even one.
pub open spec fn half_even(a: nat, scale: nat) -> nat {
    let q = a / scale;
    let r = a % scale;
    if 2 * r > scale || (2 * r == scale && q % 2 == 1) {
        q + 1
    } else {
        q
    }
}

pub open spec fn min_nat(a: nat, b: nat) -> nat {
    if a <= b {
        a
    } else {
        b
    }
}

/// `value` millionths with `decimals` places: a sign for negatives, the whole part,
/// and the fraction behind a point when any places were asked for.
pub open spec fn fixed_text(value: int, decimals: nat) -> Seq<char> {
    let places = min_nat(decimals, 6);
    let magnitude = (if value < 0 { -value } else { value }) as nat;
    let rounded = half_even(magnitude, pow10((6 - places) as nat));
    let sign = if value < 0 { seq!['-'] } else { Seq::empty() };
    let whole = digits(rounded / pow10(places));
    let fraction = if decimals == 0 {
        Seq::empty()
    } else {
        seq!['.'] + padded(rounded % pow10(places), places) + padded(0, (decimals - places) as nat)
    };
    sign + whole + fraction
}

fn digit_char(d: u64) -> (c: char)
    requires
        d < 10,
    ensures
        c == digit(d as nat),
{
    (48u8 + d as u8) as char
}

/// Append `n` in base ten.
pub fn push_digits(out: &mut String, n: u64)
    ensures
        final(out)@ == old(out)@ + digits(n as nat),
    decreases n,
{
    if n >= 10 {
        push_digits(out, n / 10);
    }
    out.push(digit_char(n % 10));
    assert(out@ =~= old(out)@ + digits(n as nat));
}

/// `n` in base ten.
pub fn digits_of(n: u64) -> (s: String)
    ensures
        s@ == digits(n as nat),
{
    let mut s = String::new();
    push_digits(&mut s, n);
    assert(s@ =~= digits(n as nat));
    s
}

/// Append the last `width` digits of `n`, with leading zeros.
pub fn push_padded(out: &mut String, n: u64, width: u8)
    ensures
        final(out)@ == old(out)@ + padded(n as nat, width as nat),
    decreases width,
{
    if width > 0 {
        push_padded(out, n / 10, width - 1);
        out.push(digit_char(n % 10));
    }
    assert(out@ =~= old(out)@ + padded(n as nat, width as nat));
}

fn pow10_exec(n: u8) -> (p: u64)
    requires
        n <= 6,
    ensures
        p == pow10(n as nat),
        1 <= p <= 1_000_000,
{
    reveal_with_fuel(pow10, 7);
    match n {
        0 => 1,
        1 => 10,
        2 => 100,
        3 => 1_000,
        4 => 10_000,
        5 => 100_000,
        _ => 1_000_000,
    }
}

impl Fixed {
    /// The number with `decimals` places, rounded to the nearest and ties to even.
    pub fn to_text(&self, decimals: u8) -> (s: String)
        requires
            self@ > i64::MIN,
        ensures
            s@ == fixed_text(self@, decimals as nat),
    {
        let places: u8 = if decimals <= 6 { decimals } else { 6 };
        let magnitude: u64 = if self.millionths < 0 {
            (-self.millionths) as u64
        } else {
            self.millionths as u64
        };
        let scale: u64 = pow10_exec(6 - places);
        let q: u64 = magnitude / scale;
        let r: u64 = magnitude % scale;
        let rounded: u64 = if 2 * r > scale || (2 * r == scale && q % 2 == 1) {
            q + 1
        } else {
            q
        };
        let unit: u64 = pow10_exec(places);
        let mut s = String::new();
        if self.millionths < 0 {
            s.push('-');
        }
        push_digits(&mut s, rounded / unit);
        if decimals > 0 {
            s.push('.');
            push_padded(&mut s, rounded % unit, places);
            push_padded(&mut s, 0, decimals - places);
        }
        assert(s@ =~= fixed_text(self@, decimals as nat));
        s
    }
}

} // verus!
