//! Reading a boolean or a 32-bit integer from text.

use crate::schema::ValueView;
use vstd::prelude::*;

verus! {

/// The boolean that a text denotes: `true` or `false`, written just so.
pub open spec fn bool_of_text(text: Seq<char>) -> Option<bool> {
    if text == "true"@ {
        Some(true)
    } else if text == "false"@ {
        Some(false)
    } else {
        None
    }
}

/// Whether `c` is one of the ten decimal digits.
pub open spec fn is_digit(c: char) -> bool {
    '0' <= c <= '9'
}

/// Whether `digits` holds decimal digits and nothing else.
pub open spec fn all_digits(digits: Seq<char>) -> bool {
    forall|i: int| 0 <= i < digits.len() ==> is_digit(#[trigger] digits[i])
}

/// The number that decimal digits denote, the first digit counting most.
pub open spec fn decimal_value(digits: Seq<char>) -> int
    decreases digits.len(),
{
    if digits.len() == 0 {
        0
    } else {
        10 * decimal_value(digits.drop_last()) + (digits.last() as int - '0' as int)
    }
}

/// Whether `text` begins with a sign.
pub open spec fn has_sign(text: Seq<char>) -> bool {
    text.len() > 0 && (text[0] == '-' || text[0] == '+')
}

/// The 32-bit integer that a text denotes: an optional `+` or `-`, then one
/// or more decimal digits and nothing else, the number being one that 32
/// bits can hold.
pub open spec fn i32_of_text(text: Seq<char>) -> Option<i32> {
    let digits = if has_sign(text) {
        text.skip(1)
    } else {
        text
    };
    let value = if has_sign(text) && text[0] == '-' {
        -decimal_value(digits)
    } else {
        decimal_value(digits)
    };
    if digits.len() > 0 && all_digits(digits) && i32::MIN <= value <= i32::MAX {
        Some(value as i32)
    } else {
        None
    }
}

/// The value that a text is read as: a boolean, else a 32-bit integer, else
/// the float with bit pattern `float_bits` where the text denotes a float,
/// else the text itself.
pub open spec fn value_of_text(text: Seq<char>, float_bits: Option<u64>) -> ValueView {
    if let Some(flag) = bool_of_text(text) {
        ValueView::Bool(flag)
    } else if let Some(number) = i32_of_text(text) {
        ValueView::Integer(number)
    } else if let Some(bits) = float_bits {
        ValueView::Float(bits)
    } else {
        ValueView::Text(text)
    }
}

/// The number of some digits is at least the number of those that come
/// first among them, and neither is negative.
proof fn lemma_decimal_value_grows(digits: Seq<char>, count: int)
    requires
        all_digits(digits),
        0 <= count <= digits.len(),
    ensures
        0 <= decimal_value(digits.take(count)) <= decimal_value(digits),
    decreases digits.len(),
{
    if count == digits.len() {
        assert(digits.take(count) =~= digits);
        if digits.len() > 0 {
            lemma_decimal_value_grows(digits.drop_last(), count - 1);
        }
    } else {
        let front = digits.drop_last();
        lemma_decimal_value_grows(front, count);
        assert(front.take(count) =~= digits.take(count));
    }
}

/// The boolean that `text` denotes, if it denotes one.
pub fn parse_bool(text: &str) -> (parsed: Option<bool>)
    ensures
        parsed == bool_of_text(text@),
{
    let given = text.to_owned();
    if given == "true".to_owned() {
        Some(true)
    } else if given == "false".to_owned() {
        Some(false)
    } else {
        None
    }
}

/// The 32-bit integer that `text` denotes, if it denotes one.
pub fn parse_i32(text: &str) -> (parsed: Option<i32>)
    ensures
        parsed == i32_of_text(text@),
{
    let ghost digits = if has_sign(text@) {
        text@.skip(1)
    } else {
        text@
    };
    if !text.is_ascii() {
        proof {
            let i = choose|i: int|
                0 <= i < text@.len() && !('\0' <= #[trigger] text@[i] <= '\u{7f}');
            if has_sign(text@) {
                assert(digits[i - 1] == text@[i]);
            }
        }
        return None;
    }
    proof {
        vstd::string::is_ascii_spec_bytes(text);
    }
    let bytes = text.as_bytes();
    let n = bytes.len();
    if n == 0 {
        return None;
    }
    let negative = bytes[0] == 45u8;
    let start: usize = if negative || bytes[0] == 43u8 {
        1
    } else {
        0
    };
    if start == n {
        return None;
    }
    let mut magnitude: i64 = 0;
    let mut i: usize = start;
    while i < n
        invariant
            start <= i <= n,
            n == bytes.len(),
            n == text@.len(),
            vstd::utf8::is_ascii_chars(text@),
            forall|j: int| 0 <= j < n ==> text@[j] as u8 == #[trigger] bytes[j],
            digits == text@.subrange(start as int, n as int),
            digits == if has_sign(text@) {
                text@.skip(1)
            } else {
                text@
            },
            all_digits(digits.take(i - start)),
            magnitude == decimal_value(digits.take(i - start)),
            0 <= magnitude <= 2147483648,
        decreases n - i,
    {
        let byte = bytes[i];
        let ghost seen = digits.take(i - start);
        let ghost next = digits.take(i + 1 - start);
        assert(next.drop_last() =~= seen);
        if byte < 48u8 || byte > 57u8 {
            assert(!is_digit(digits[i - start]));
            return None;
        }
        magnitude = magnitude * 10 + (byte - 48u8) as i64;
        assert(all_digits(next));
        if magnitude > 2147483648 {
            proof {
                if all_digits(digits) {
                    lemma_decimal_value_grows(digits, i + 1 - start);
                }
            }
            return None;
        }
        i = i + 1;
    }
    assert(digits.take(n - start) =~= digits);
    if negative {
        Some((-magnitude) as i32)
    } else if magnitude <= 2147483647 {
        Some(magnitude as i32)
    } else {
        None
    }
}

} // verus!
