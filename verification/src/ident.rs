//! Identifiers as text.
//!
//! An entity identifier is a positive 64-bit integer. A query names one as
//! decimal text; a session-ready payload writes one as decimal text.

use vstd::prelude::*;
use vstd::string::*;

verus! {

/// The byte is an ASCII decimal digit.
pub open spec fn is_digit(byte: u8) -> bool {
    48 <= byte <= 57
}

/// The digit that an ASCII digit stands for; zero for any other byte.
pub open spec fn digit_of(byte: u8) -> nat {
    if is_digit(byte) {
        (byte - 48) as nat
    } else {
        0
    }
}

/// Every byte is an ASCII decimal digit.
pub open spec fn all_digits(text: Seq<u8>) -> bool {
    forall|i: int| 0 <= i < text.len() ==> is_digit(#[trigger] text[i])
}

/// The number that a run of decimal digits denotes, most significant first.
pub open spec fn digits_value(text: Seq<u8>) -> nat
    decreases text.len(),
{
    if text.len() == 0 {
        0
    } else {
        digits_value(text.drop_last()) * 10 + digit_of(text.last())
    }
}

/// The text without its sign: one leading `+` is allowed and carries no
/// meaning.
pub open spec fn unsigned_part(text: Seq<u8>) -> Seq<u8> {
    if text.len() > 0 && text[0] == 43 {
        text.skip(1)
    } else {
        text
    }
}

/// The 64-bit number that a text denotes: an optional `+`, then one or more
/// decimal digits and nothing else, with a value that fits. Any other text
/// denotes no number.
pub open spec fn number_of_text(text: Seq<u8>) -> Option<u64> {
    let digits = unsigned_part(text);
    if digits.len() > 0 && all_digits(digits) && digits_value(digits) <= u64::MAX {
        Some(digits_value(digits) as u64)
    } else {
        None
    }
}

/// The identifier that a text denotes: the number it denotes, unless that is
/// zero.
pub open spec fn id_of_text(text: Seq<u8>) -> Option<u64> {
    match number_of_text(text) {
        Some(number) if number != 0 => Some(number),
        _ => None,
    }
}

/// The character that writes a decimal digit.
pub open spec fn digit_char(digit: nat) -> char {
    if digit == 0 {
        '0'
    } else if digit == 1 {
        '1'
    } else if digit == 2 {
        '2'
    } else if digit == 3 {
        '3'
    } else if digit == 4 {
        '4'
    } else if digit == 5 {
        '5'
    } else if digit == 6 {
        '6'
    } else if digit == 7 {
        '7'
    } else if digit == 8 {
        '8'
    } else {
        '9'
    }
}

/// A number in decimal, without sign or leading zeros.
pub open spec fn decimal(number: nat) -> Seq<char>
    decreases number,
{
    if number < 10 {
        seq![digit_char(number)]
    } else {
        decimal(number / 10).push(digit_char(number % 10))
    }
}

/// A leading part of a text denotes no larger a number than the whole.
proof fn leading_digits_value_is_no_larger(text: Seq<u8>, k: int)
    requires
        0 <= k <= text.len(),
    ensures
        digits_value(text.take(k)) <= digits_value(text),
    decreases text.len() - k,
{
    if k < text.len() {
        leading_digits_value_is_no_larger(text, k + 1);
        assert(text.take(k + 1).drop_last() == text.take(k));
    } else {
        assert(text.take(k) == text);
    }
}

/// Reads a 64-bit number from decimal text.
pub fn parse_number(value: &str) -> (number: Option<u64>)
    ensures
        number == number_of_text(value.spec_bytes()),
{
    let bytes = value.as_bytes();
    let n: usize = bytes.len();
    let start: usize = if n > 0 && bytes[0] == 43 {
        1
    } else {
        0
    };
    let ghost digits = unsigned_part(bytes@);
    assert(digits == bytes@.skip(start as int));
    if start == n {
        return None;
    }
    let mut total: u64 = 0;
    let mut i: usize = start;
    while i < n
        invariant
            start <= i <= n,
            start < n,
            n == bytes@.len(),
            bytes@ == value.spec_bytes(),
            digits == unsigned_part(bytes@),
            digits == bytes@.skip(start as int),
            all_digits(digits.take(i - start)),
            total == digits_value(digits.take(i - start)),
        decreases n - i,
    {
        let byte: u8 = bytes[i];
        let ghost k = i - start;
        assert(digits[k] == byte);
        if byte < 48 || byte > 57 {
            assert(!is_digit(digits[k]));
            return None;
        }
        let digit: u64 = (byte - 48) as u64;
        proof {
            assert(digits.take(k + 1).drop_last() == digits.take(k));
            assert(digits.take(k + 1).last() == byte);
        }
        if total > (u64::MAX - digit) / 10 {
            proof {
                assert(digits_value(digits.take(k + 1)) > u64::MAX);
                leading_digits_value_is_no_larger(digits, k + 1);
            }
            return None;
        }
        total = total * 10 + digit;
        i += 1;
    }
    proof {
        assert(digits.take(n - start) == digits);
    }
    Some(total)
}

/// Reads an identifier from decimal text. Text that is no number, a number
/// that does not fit in 64 bits, and zero are all refused.
pub fn parse_id(value: &str) -> (id: Option<u64>)
    ensures
        id == id_of_text(value.spec_bytes()),
        id matches Some(n) ==> n != 0,
{
    match parse_number(value) {
        Some(number) => if number != 0 {
            Some(number)
        } else {
            None
        },
        None => None,
    }
}

/// The text of one decimal digit.
fn digit_text(digit: u64) -> (text: &'static str)
    requires
        digit < 10,
    ensures
        text@ == seq![digit_char(digit as nat)],
{
    proof {
        reveal_strlit("0");
        reveal_strlit("1");
        reveal_strlit("2");
        reveal_strlit("3");
        reveal_strlit("4");
        reveal_strlit("5");
        reveal_strlit("6");
        reveal_strlit("7");
        reveal_strlit("8");
        reveal_strlit("9");
    }
    let text = if digit == 0 {
        "0"
    } else if digit == 1 {
        "1"
    } else if digit == 2 {
        "2"
    } else if digit == 3 {
        "3"
    } else if digit == 4 {
        "4"
    } else if digit == 5 {
        "5"
    } else if digit == 6 {
        "6"
    } else if digit == 7 {
        "7"
    } else if digit == 8 {
        "8"
    } else {
        "9"
    };
    assert(text@ =~= seq![digit_char(digit as nat)]);
    text
}

/// Writes an identifier in decimal.
pub fn id_text(id: u64) -> (text: String)
    ensures
        text@ == decimal(id as nat),
    decreases id,
{
    if id < 10 {
        String::from_str(digit_text(id))
    } else {
        let mut text = id_text(id / 10);
        text.append(digit_text(id % 10));
        assert(text@ =~= decimal((id / 10) as nat).push(digit_char((id % 10) as nat)));
        text
    }
}

} // verus!
