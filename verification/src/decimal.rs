//! Decimal numbers as a user types them into a text field.

use vstd::prelude::*;
use vstd::string::StringSliceAdditionalSpecFns;

verus! {

/// The byte of the plus sign.
pub const PLUS: u8 = 0x2b;

/// The byte of the digit zero.
pub const DIGIT_ZERO: u8 = 0x30;

/// The byte of the digit nine.
pub const DIGIT_NINE: u8 = 0x39;

/// Whether `byte` is a decimal digit.
pub open spec fn is_digit(byte: u8) -> bool {
    DIGIT_ZERO <= byte <= DIGIT_NINE
}

/// Whether `bytes` holds decimal digits and nothing else.
pub open spec fn all_digits(bytes: Seq<u8>) -> bool {
    forall|i: int| 0 <= i < bytes.len() ==> is_digit(#[trigger] bytes[i])
}

/// The number that a run of decimal digits writes, most significant digit
/// first.
pub open spec fn digits_value(digits: Seq<u8>) -> nat
    decreases digits.len(),
{
    if digits.len() == 0 {
        0
    } else {
        digits_value(digits.drop_last()) * 10 + (digits.last() - DIGIT_ZERO) as nat
    }
}

/// The text without a plus sign at its front.
pub open spec fn unsigned_part(text: Seq<u8>) -> Seq<u8> {
    if text.len() > 0 && text[0] == PLUS {
        text.drop_first()
    } else {
        text
    }
}

/// The number that `text` writes: an optional plus sign, then at least one
/// decimal digit and nothing else. Any other text writes no number.
pub open spec fn decimal(text: Seq<u8>) -> Option<nat> {
    let digits = unsigned_part(text);
    if digits.len() > 0 && all_digits(digits) {
        Some(digits_value(digits))
    } else {
        None
    }
}

/// The number that `text` writes, where it writes one that a `usize` holds.
pub open spec fn decimal_usize(text: Seq<u8>) -> Option<usize> {
    match decimal(text) {
        Some(value) => if value <= usize::MAX {
            Some(value as usize)
        } else {
            None
        },
        None => None,
    }
}

/// A run of digits writes a number no smaller than any of its prefixes does.
proof fn lemma_prefix_value(digits: Seq<u8>, len: int)
    requires
        0 <= len <= digits.len(),
        all_digits(digits),
    ensures
        digits_value(digits.subrange(0, len)) <= digits_value(digits),
    decreases digits.len() - len,
{
    if len == digits.len() {
        assert(digits.subrange(0, len) =~= digits);
    } else {
        lemma_prefix_value(digits, len + 1);
        let longer = digits.subrange(0, len + 1);
        assert(longer.drop_last() =~= digits.subrange(0, len));
        assert(is_digit(longer.last()));
    }
}

/// Reads a decimal number from `text`, given as the bytes of its UTF-8
/// encoding: an optional plus sign, then at least one digit and nothing else.
/// Returns `None` for any other text and for a number that no `usize` holds.
pub fn parse_decimal(text: &str) -> (parsed: Option<usize>)
    ensures
        parsed == decimal_usize(text.spec_bytes()),
{
    let bytes = text.as_bytes();
    let len: usize = bytes.len();
    let start: usize = if len > 0 && bytes[0] == PLUS {
        1
    } else {
        0
    };
    let ghost digits = unsigned_part(bytes@);
    assert(digits =~= bytes@.subrange(start as int, len as int));
    if start == len {
        return None;
    }
    let mut value: usize = 0;
    let mut index: usize = start;
    assert(digits.subrange(0, 0) =~= Seq::<u8>::empty());
    while index < len
        invariant
            start <= index <= len,
            len == bytes@.len(),
            bytes@ == text.spec_bytes(),
            digits == unsigned_part(bytes@),
            digits == bytes@.subrange(start as int, len as int),
            all_digits(digits.subrange(0, index - start)),
            value == digits_value(digits.subrange(0, index - start)),
        decreases len - index,
    {
        let byte: u8 = bytes[index];
        assert(byte == digits[index - start]);
        if byte < DIGIT_ZERO || byte > DIGIT_NINE {
            assert(!is_digit(digits[index - start]));
            return None;
        }
        let digit: usize = (byte - DIGIT_ZERO) as usize;
        let ghost longer = digits.subrange(0, index - start + 1);
        assert(longer.drop_last() =~= digits.subrange(0, index - start));
        assert(longer.last() == byte);
        assert(all_digits(longer)) by {
            assert forall|i: int| 0 <= i < longer.len() implies is_digit(#[trigger] longer[i]) by {
                if i < longer.len() - 1 {
                    assert(longer[i] == digits.subrange(0, index - start)[i]);
                }
            }
        }
        if value > (usize::MAX - digit) / 10 {
            proof {
                if all_digits(digits) {
                    lemma_prefix_value(digits, index - start + 1);
                }
            }
            return None;
        }
        value = value * 10 + digit;
        index += 1;
    }
    assert(digits.subrange(0, index - start) =~= digits);
    Some(value)
}

} // verus!
