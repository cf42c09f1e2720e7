//! Display text built from plain values: integers written in decimal, as `Display` writes them.
use vstd::prelude::*;
use vstd::string::StringExecFns;

verus! {

/// The decimal digit `d`, for `d` from 0 to 9.
pub open spec fn digit_char(d: int) -> char {
    if d == 0 {
        '0'
    } else if d == 1 {
        '1'
    } else if d == 2 {
        '2'
    } else if d == 3 {
        '3'
    } else if d == 4 {
        '4'
    } else if d == 5 {
        '5'
    } else if d == 6 {
        '6'
    } else if d == 7 {
        '7'
    } else if d == 8 {
        '8'
    } else {
        '9'
    }
}

/// The decimal digits of `n`, most significant first, without leading zeros (`"0"` for zero).
pub open spec fn decimal_digits(n: nat) -> Seq<char>
    decreases n,
{
    if n < 10 {
        seq![digit_char(n as int)]
    } else {
        decimal_digits(n / 10).push(digit_char((n % 10) as int))
    }
}

/// `value` written in decimal, with a leading `-` when it is negative.
pub open spec fn decimal_text(value: int) -> Seq<char> {
    if value < 0 {
        seq!['-'] + decimal_digits((-value) as nat)
    } else {
        decimal_digits(value as nat)
    }
}

/// Calls `String::push`, which appends one character.
#[verifier::external_body]
fn push_char(text: &mut String, c: char)
    ensures
        final(text)@ == old(text)@.push(c),
{
    text.push(c);
}

fn digit(d: u64) -> (c: char)
    requires
        d < 10,
    ensures
        c == digit_char(d as int),
{
    match d {
        0 => '0',
        1 => '1',
        2 => '2',
        3 => '3',
        4 => '4',
        5 => '5',
        6 => '6',
        7 => '7',
        8 => '8',
        _ => '9',
    }
}

fn push_digits(text: &mut String, n: u64)
    ensures
        final(text)@ == old(text)@ + decimal_digits(n as nat),
    decreases n,
{
    if n >= 10 {
        push_digits(text, n / 10);
    }
    push_char(text, digit(n % 10));
    proof {
        assert(decimal_digits(n as nat) == if n < 10 {
            seq![digit_char(n as int)]
        } else {
            decimal_digits((n / 10) as nat).push(digit_char((n % 10) as int))
        });
        if n < 10 {
            assert(old(text)@ + decimal_digits(n as nat) =~= old(text)@.push(digit_char(n as int)));
        } else {
            assert(old(text)@ + decimal_digits((n / 10) as nat).push(digit_char((n % 10) as int))
                =~= (old(text)@ + decimal_digits((n / 10) as nat)).push(digit_char((n % 10) as int)));
        }
    }
}

/// Appends `value` written in decimal, as `Display` writes an integer.
pub fn push_decimal(text: &mut String, value: i64)
    ensures
        final(text)@ == old(text)@ + decimal_text(value as int),
{
    if value < 0 {
        push_char(text, '-');
        let magnitude = (0i128 - value as i128) as u64;
        push_digits(text, magnitude);
        proof {
            assert(text@ =~= old(text)@ + (seq!['-'] + decimal_digits(magnitude as nat)));
        }
    } else {
        push_digits(text, value as u64);
    }
}

/// `label`, a dash, and `year` in decimal: `"{label} - {year}"`.
pub fn labelled_year(label: &str, year: i16) -> (text: String)
    ensures
        text@ == label@ + " - "@ + decimal_text(year as int),
{
    let mut text = label.to_owned();
    text.append(" - ");
    push_decimal(&mut text, year as i64);
    text
}

} // verus!
