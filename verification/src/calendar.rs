//! Civil-calendar rules and fixed-width decimal fields, shared by the
//! metrology dates and the service planning dates.

use crate::text::push_char;
use vstd::prelude::*;

verus! {

/// Gregorian leap year.
pub open spec fn is_leap_year_spec(year: int) -> bool {
    year % 4 == 0 && (year % 100 != 0 || year % 400 == 0)
}

/// Number of days of a month, 0 for a month number outside 1..=12.
pub open spec fn days_in_month_spec(year: int, month: int) -> int {
    if month == 1 || month == 3 || month == 5 || month == 7 || month == 8 || month == 10 || month
        == 12 {
        31
    } else if month == 4 || month == 6 || month == 9 || month == 11 {
        30
    } else if month == 2 {
        if is_leap_year_spec(year) {
            29
        } else {
            28
        }
    } else {
        0
    }
}

pub fn is_leap_year(year: u16) -> (b: bool)
    ensures
        b == is_leap_year_spec(year as int),
{
    year % 4 == 0 && (year % 100 != 0 || year % 400 == 0)
}

pub fn days_in_month(year: u16, month: u8) -> (d: u8)
    ensures
        d == days_in_month_spec(year as int, month as int),
{
    match month {
        1 | 3 | 5 | 7 | 8 | 10 | 12 => 31,
        4 | 6 | 9 | 11 => 30,
        2 => if is_leap_year(year) {
            29
        } else {
            28
        },
        _ => 0,
    }
}

/// An ASCII decimal digit.
pub open spec fn is_digit_byte(b: u8) -> bool {
    48 <= b && b <= 57
}

/// Every byte of `bytes[start..start + count]` is a decimal digit.
pub open spec fn digits_at(bytes: Seq<u8>, start: int, count: int) -> bool {
    forall|k: int| start <= k < start + count ==> is_digit_byte(#[trigger] bytes[k])
}

/// The decimal number written by `bytes[start..start + count]`.
pub open spec fn number_at(bytes: Seq<u8>, start: int, count: nat) -> int
    decreases count,
{
    if count == 0 {
        0
    } else {
        number_at(bytes, start, (count - 1) as nat) * 10 + (bytes[start + count - 1] - 48)
    }
}

pub open spec fn pow10(n: nat) -> int
    decreases n,
{
    if n == 0 {
        1
    } else {
        10 * pow10((n - 1) as nat)
    }
}

proof fn lemma_number_step(bytes: Seq<u8>, start: int, count: nat)
    requires
        0 <= number_at(bytes, start, count) < pow10(count),
        is_digit_byte(bytes[start + count]),
    ensures
        0 <= number_at(bytes, start, count + 1) < pow10(count + 1),
{
    let v = number_at(bytes, start, count);
    let p = pow10(count);
    assert(number_at(bytes, start, count + 1) == v * 10 + (bytes[start + count] - 48));
    assert(pow10(count + 1) == 10 * p);
    assert(v * 10 + 9 < 10 * p) by (nonlinear_arith)
        requires
            0 <= v < p,
    ;
}

/// Reads the decimal field `bytes[start..start + count]`; `None` when a byte is not a digit.
pub fn parse_digits(bytes: &[u8], start: usize, count: usize) -> (r: Option<u32>)
    requires
        start + count <= bytes@.len(),
        count <= 4,
    ensures
        match r {
            Some(v) => digits_at(bytes@, start as int, count as int) && v == number_at(
                bytes@,
                start as int,
                count as nat,
            ),
            None => !digits_at(bytes@, start as int, count as int),
        },
{
    let n = bytes.len();
    let mut value: u32 = 0;
    let mut k: usize = 0;
    while k < count
        invariant
            n == bytes@.len(),
            start + count <= bytes@.len(),
            count <= 4,
            k <= count,
            digits_at(bytes@, start as int, k as int),
            value == number_at(bytes@, start as int, k as nat),
            0 <= value < pow10(k as nat),
        decreases count - k,
    {
        let b = bytes[start + k];
        if !(48 <= b && b <= 57) {
            return None;
        }
        proof {
            reveal_with_fuel(pow10, 5);
            lemma_number_step(bytes@, start as int, k as nat);
            assert(pow10(k as nat) <= 1000);
        }
        value = value * 10 + (b - 48) as u32;
        k = k + 1;
    }
    Some(value)
}

/// The digit character of a value below ten.
pub open spec fn digit_char(v: int) -> char {
    if v == 0 {
        '0'
    } else if v == 1 {
        '1'
    } else if v == 2 {
        '2'
    } else if v == 3 {
        '3'
    } else if v == 4 {
        '4'
    } else if v == 5 {
        '5'
    } else if v == 6 {
        '6'
    } else if v == 7 {
        '7'
    } else if v == 8 {
        '8'
    } else {
        '9'
    }
}

/// A value below one hundred written on two digits.
pub open spec fn two_digit_text(v: int) -> Seq<char> {
    seq![digit_char(v / 10), digit_char(v % 10)]
}

/// A value below ten thousand written on four digits.
pub open spec fn four_digit_text(v: int) -> Seq<char> {
    two_digit_text(v / 100) + two_digit_text(v % 100)
}

/// A date written `YYYY-MM-DD`.
pub open spec fn date_text(year: int, month: int, day: int) -> Seq<char> {
    four_digit_text(year) + seq!['-'] + two_digit_text(month) + seq!['-'] + two_digit_text(day)
}

pub fn digit_character(v: u16) -> (c: char)
    requires
        v < 10,
    ensures
        c == digit_char(v as int),
{
    match v {
        0 => '0',
        1 => '1',
        2 => '2',
        3 => '3',
        4 => '4',
        5 => '5',
        6 => '6',
        7 => '7',
        8 => '8',
        _ => '9',
    }
}

pub fn push_two_digits(s: &mut String, v: u16)
    requires
        v < 100,
    ensures
        final(s)@ == old(s)@ + two_digit_text(v as int),
{
    push_char(s, digit_character(v / 10));
    push_char(s, digit_character(v % 10));
}

pub fn push_four_digits(s: &mut String, v: u16)
    requires
        v < 10000,
    ensures
        final(s)@ == old(s)@ + four_digit_text(v as int),
{
    let ghost s0 = s@;
    push_two_digits(s, v / 100);
    push_two_digits(s, v % 100);
    assert(s@ =~= s0 + four_digit_text(v as int));
}

/// Writes a date as `YYYY-MM-DD`.
pub fn format_date(year: u16, month: u8, day: u8) -> (r: String)
    requires
        year < 10000,
        month < 100,
        day < 100,
    ensures
        r@ == date_text(year as int, month as int, day as int),
{
    let mut s = String::new();
    push_four_digits(&mut s, year);
    push_char(&mut s, '-');
    push_two_digits(&mut s, month as u16);
    push_char(&mut s, '-');
    push_two_digits(&mut s, day as u16);
    assert(s@ =~= date_text(year as int, month as int, day as int));
    s
}

} // verus!
