//! Numbers as text.
//!
//! Quantities are kept as whole numbers and shown with at most one digit
//! behind the point. Digits that are not shown are dropped, not rounded.

use vstd::prelude::*;
use vstd::string::StringExecFns;

verus! {

/// The character of a digit.
pub open spec fn digit_char(digit: int) -> char {
    if digit == 0 {
        '0'
    } else if digit == 1 {
        '1'
    } else if digit == 2 {
        '2'
    } else if digit == 3 {
        '3'
    } else if digit == 4 {
        '4'
    } else if digit == 5 {
        '5'
    } else if digit == 6 {
        '6'
    } else if digit == 7 {
        '7'
    } else if digit == 8 {
        '8'
    } else {
        '9'
    }
}

/// A number written in decimal digits, without leading zeros.
pub open spec fn decimal(value: nat) -> Seq<char>
    decreases value,
{
    if value < 10 {
        seq![digit_char(value as int)]
    } else {
        decimal(value / 10).push(digit_char((value % 10) as int))
    }
}

/// A share given in basis points, written in percent with one digit behind
/// the point.
pub open spec fn percent_text(basis_points: nat) -> Seq<char> {
    decimal(basis_points / 100) + seq!['.'] + decimal((basis_points % 100) / 10) + seq!['%']
}

/// The largest unit of which `bytes` holds at least one: a power of 1024
/// from bytes to tebibytes.
pub open spec fn byte_unit(bytes: nat) -> nat {
    if bytes >= 0x100_0000_0000 {
        0x100_0000_0000
    } else if bytes >= 0x4000_0000 {
        0x4000_0000
    } else if bytes >= 0x10_0000 {
        0x10_0000
    } else if bytes >= 0x400 {
        0x400
    } else {
        1
    }
}

/// The name of a unit of bytes.
pub open spec fn unit_name(unit: nat) -> Seq<char> {
    if unit == 0x100_0000_0000 {
        seq!['T', 'i', 'B']
    } else if unit == 0x4000_0000 {
        seq!['G', 'i', 'B']
    } else if unit == 0x10_0000 {
        seq!['M', 'i', 'B']
    } else if unit == 0x400 {
        seq!['K', 'i', 'B']
    } else {
        seq!['B']
    }
}

/// A number of bytes in the largest unit of which it holds at least one,
/// with one digit behind the point; whole bytes are written without.
pub open spec fn bytes_text(bytes: nat) -> Seq<char> {
    let unit = byte_unit(bytes);
    if unit == 1 {
        decimal(bytes) + unit_name(unit)
    } else {
        decimal(bytes / unit) + seq!['.'] + decimal((bytes % unit) * 10 / unit) + unit_name(unit)
    }
}

fn digit_text(digit: u8) -> (text: &'static str)
    requires
        digit < 10,
    ensures
        text@ == seq![digit_char(digit as int)],
{
    proof {
        reveal_strlit("0");
        reveal_strlit("1");
        reveal_strlit("2");
        reveal_strlit("3");
        reveal_strlit("4");
        reveal_strlit("5");
        reveal_strlit("6");
        reveal_strlit("7");
        reveal_strlit("8");
        reveal_strlit("9");
    }
    let text = if digit == 0 {
        "0"
    } else if digit == 1 {
        "1"
    } else if digit == 2 {
        "2"
    } else if digit == 3 {
        "3"
    } else if digit == 4 {
        "4"
    } else if digit == 5 {
        "5"
    } else if digit == 6 {
        "6"
    } else if digit == 7 {
        "7"
    } else if digit == 8 {
        "8"
    } else {
        "9"
    };
    assert(text@ =~= seq![digit_char(digit as int)]);
    text
}

/// Appends the decimal digits of `value` to `text`.
pub fn push_decimal(text: &mut String, value: u64)
    ensures
        final(text)@ == old(text)@ + decimal(value as nat),
{
    let mut digits: Vec<u8> = Vec::new();
    let mut rest: u64 = value;
    while rest >= 10
        invariant
            forall|i: int| 0 <= i < digits@.len() ==> (#[trigger] digits@[i]) < 10,
            decimal(value as nat) == decimal(rest as nat) + Seq::new(
                digits@.len(),
                |i: int| digit_char(digits@[digits@.len() - 1 - i] as int),
            ),
        decreases rest,
    {
        let ghost before = digits@;
        digits.push((rest % 10) as u8);
        proof {
            let tail_before = Seq::new(
                before.len(),
                |i: int| digit_char(before[before.len() - 1 - i] as int),
            );
            let tail_after = Seq::new(
                digits@.len(),
                |i: int| digit_char(digits@[digits@.len() - 1 - i] as int),
            );
            assert(tail_after =~= seq![digit_char((rest % 10) as int)] + tail_before);
            assert(decimal(rest as nat) == decimal((rest / 10) as nat).push(
                digit_char((rest % 10) as int),
            ));
            assert(decimal((rest / 10) as nat).push(digit_char((rest % 10) as int)) + tail_before
                =~= decimal((rest / 10) as nat) + tail_after);
        }
        rest = rest / 10;
    }
    text.append(digit_text(rest as u8));
    let ghost head = text@;
    let mut i: usize = digits.len();
    while i > 0
        invariant
            0 <= i <= digits@.len(),
            forall|k: int| 0 <= k < digits@.len() ==> (#[trigger] digits@[k]) < 10,
            text@ == head + Seq::new(
                (digits@.len() - i) as nat,
                |k: int| digit_char(digits@[digits@.len() - 1 - k] as int),
            ),
        decreases i,
    {
        i = i - 1;
        let ghost before = text@;
        text.append(digit_text(digits[i]));
        proof {
            assert(text@ =~= head + Seq::new(
                (digits@.len() - i) as nat,
                |k: int| digit_char(digits@[digits@.len() - 1 - k] as int),
            ));
        }
    }
    proof {
        assert(text@ =~= old(text)@ + decimal(value as nat));
    }
}

/// Writes `value` in decimal digits.
pub fn to_decimal(value: u64) -> (text: String)
    ensures
        text@ == decimal(value as nat),
{
    let mut text = String::new();
    push_decimal(&mut text, value);
    assert(text@ =~= decimal(value as nat));
    text
}

/// Writes a share given in basis points in percent, with one digit behind
/// the point.
pub fn format_percent(basis_points: u64) -> (text: String)
    ensures
        text@ == percent_text(basis_points as nat),
{
    proof {
        reveal_strlit(".");
        reveal_strlit("%");
    }
    let mut text = String::new();
    push_decimal(&mut text, basis_points / 100);
    text.append(".");
    push_decimal(&mut text, (basis_points % 100) / 10);
    text.append("%");
    assert("."@ =~= seq!['.']);
    assert("%"@ =~= seq!['%']);
    assert(text@ =~= percent_text(basis_points as nat));
    text
}

fn unit_of(bytes: u64) -> (unit: u64)
    ensures
        unit == byte_unit(bytes as nat),
        unit >= 1,
{
    if bytes >= 0x100_0000_0000 {
        0x100_0000_0000
    } else if bytes >= 0x4000_0000 {
        0x4000_0000
    } else if bytes >= 0x10_0000 {
        0x10_0000
    } else if bytes >= 0x400 {
        0x400
    } else {
        1
    }
}

fn name_of_unit(unit: u64) -> (name: &'static str)
    ensures
        name@ == unit_name(unit as nat),
{
    proof {
        reveal_strlit("TiB");
        reveal_strlit("GiB");
        reveal_strlit("MiB");
        reveal_strlit("KiB");
        reveal_strlit("B");
    }
    let name = if unit == 0x100_0000_0000 {
        "TiB"
    } else if unit == 0x4000_0000 {
        "GiB"
    } else if unit == 0x10_0000 {
        "MiB"
    } else if unit == 0x400 {
        "KiB"
    } else {
        "B"
    };
    assert(name@ =~= unit_name(unit as nat));
    name
}

/// Writes a number of bytes in the largest unit of which it holds at least
/// one, with one digit behind the point.
pub fn format_bytes(bytes: u64) -> (text: String)
    ensures
        text@ == bytes_text(bytes as nat),
{
    proof {
        reveal_strlit(".");
    }
    let unit: u64 = unit_of(bytes);
    let mut text = String::new();
    if unit == 1 {
        push_decimal(&mut text, bytes);
        text.append(name_of_unit(unit));
    } else {
        push_decimal(&mut text, bytes / unit);
        text.append(".");
        let tenths: u64 = (((bytes % unit) as u128) * 10 / (unit as u128)) as u64;
        push_decimal(&mut text, tenths);
        text.append(name_of_unit(unit));
    }
    assert("."@ =~= seq!['.']);
    assert(text@ =~= bytes_text(bytes as nat));
    text
}

} // verus!
