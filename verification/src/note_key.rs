//! The textual form of a note number, as it is written in a key binding.
//!
//! A key is an optional `+` followed by one or more decimal digits. Leading
//! zeros are allowed. The number it denotes must be a MIDI note, 0 to 127.

use vstd::prelude::*;
use vstd::string::*;

verus! {

/// The highest MIDI note number.
pub const MAX_NOTE: u8 = 127;

/// Why a text is not the key of a note.
#[derive(Clone, Copy, Debug, PartialEq, Eq, Structural)]
pub enum KeyError {
    /// The text is not an optional `+` followed by decimal digits.
    NotNumeric,
    /// The text is a number above [`MAX_NOTE`].
    OutOfRange,
}

/// `c` is one of `0` to `9`.
pub open spec fn is_digit(c: char) -> bool {
    '0' <= c <= '9'
}

/// The number that the digit `c` stands for.
pub open spec fn digit_value(c: char) -> nat {
    (c as u32 - '0' as u32) as nat
}

/// The text without its leading `+`, if it has one.
pub open spec fn key_digits(text: Seq<char>) -> Seq<char> {
    if text.len() > 0 && text[0] == '+' {
        text.subrange(1, text.len() as int)
    } else {
        text
    }
}

/// Every character of `s` is a decimal digit.
pub open spec fn all_digits(s: Seq<char>) -> bool {
    forall|i: int| 0 <= i < s.len() ==> is_digit(#[trigger] s[i])
}

/// `text` is an optional `+` followed by at least one decimal digit.
pub open spec fn is_numeric(text: Seq<char>) -> bool {
    key_digits(text).len() > 0 && all_digits(key_digits(text))
}

/// The number written by a sequence of decimal digits, most significant first.
pub open spec fn decimal_value(digits: Seq<char>) -> nat
    decreases digits.len(),
{
    if digits.len() == 0 {
        0
    } else {
        10 * decimal_value(digits.drop_last()) + digit_value(digits.last())
    }
}

/// The note that a key denotes, or why it denotes none.
pub open spec fn note_of_key(text: Seq<char>) -> Result<u8, KeyError> {
    if !is_numeric(text) {
        Err(KeyError::NotNumeric)
    } else if decimal_value(key_digits(text)) > MAX_NOTE {
        Err(KeyError::OutOfRange)
    } else {
        Ok(decimal_value(key_digits(text)) as u8)
    }
}

/// Reads the key of a binding as a note number.
pub fn parse_note_key(text: &str) -> (r: Result<u8, KeyError>)
    ensures
        r == note_of_key(text@),
{
    if !text.is_ascii() {
        proof {
            let i = choose|i: int| 0 <= i < text@.len() && !('\0' <= #[trigger] text@[i] <= '\u{7f}');
            if i > 0 && text@[0] == '+' {
                assert(key_digits(text@)[i - 1] == text@[i]);
            }
        }
        return Err(KeyError::NotNumeric);
    }
    let bytes = text.as_bytes();
    proof {
        is_ascii_spec_bytes(text);
    }
    let n: usize = bytes.len();
    let start: usize = if n > 0 && bytes[0] == 0x2B { 1 } else { 0 };
    let ghost digits = key_digits(text@);
    if start == n {
        return Err(KeyError::NotNumeric);
    }
    let mut i: usize = start;
    let mut acc: u32 = 0;
    while i < n
        invariant
            start <= i <= n,
            n == bytes@.len(),
            n == text@.len(),
            digits == key_digits(text@),
            digits.len() == n - start,
            forall|k: int| 0 <= k < n ==> bytes@[k] == text@[k] as u8,
            forall|k: int| 0 <= k < n ==> '\0' <= #[trigger] text@[k] <= '\u{7f}',
            forall|k: int| 0 <= k < digits.len() ==> digits[k] == text@[k + start],
            all_digits(digits.take(i - start)),
            acc <= 128,
            decimal_value(digits.take(i - start)) <= 127 ==> acc == decimal_value(
                digits.take(i - start),
            ),
            decimal_value(digits.take(i - start)) > 127 ==> acc == 128,
        decreases n - i,
    {
        let b: u8 = bytes[i];
        let ghost c = text@[i as int];
        assert(c == digits[i - start]);
        if b < 0x30 || b > 0x39 {
            return Err(KeyError::NotNumeric);
        }
        let d: u32 = (b - 0x30) as u32;
        proof {
            let next = digits.take(i + 1 - start);
            assert(next.drop_last() == digits.take(i - start));
        }
        if acc <= 127 {
            let v: u32 = acc * 10 + d;
            acc = if v > 127 { 128 } else { v };
        }
        i += 1;
    }
    assert(digits.take(n - start) == digits);
    if acc > 127 {
        Err(KeyError::OutOfRange)
    } else {
        Ok(acc as u8)
    }
}

} // verus!
