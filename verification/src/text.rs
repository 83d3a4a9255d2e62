//! Reading texts: equality of strings, lower case, and unsigned integers in
//! decimal notation.

use vstd::prelude::*;
use vstd::string::*;
use vstd::utf8::*;

verus! {

/// Whether two strings hold the same characters.
pub fn same_text(a: &str, b: &str) -> (same: bool)
    ensures
        same == (a@ == b@),
{
    let left = a.as_bytes();
    let right = b.as_bytes();
    proof {
        encode_utf8_decode_utf8(a@);
        encode_utf8_decode_utf8(b@);
    }
    if left.len() != right.len() {
        return false;
    }
    let mut at: usize = 0;
    while at < left.len()
        invariant
            at <= left.len(),
            left.len() == right.len(),
            left@ == a.spec_bytes(),
            right@ == b.spec_bytes(),
            forall|i: int| 0 <= i < at ==> left@[i] == right@[i],
        decreases left.len() - at,
    {
        if left[at] != right[at] {
            return false;
        }
        at = at + 1;
    }
    assert(left@ =~= right@);
    true
}

/// The text in lower case, as `str::to_lowercase` gives it.
pub uninterp spec fn lowercase_of(text: Seq<char>) -> Seq<char>;

/// Lower case with the standard library: `str::to_lowercase`.
///
/// Trusted: the result depends on the text alone. Nothing is claimed about
/// which characters change.
#[verifier::external_body]
pub(crate) fn to_lowercase(text: &str) -> (lowered: String)
    ensures
        lowered@ == lowercase_of(text@),
{
    text.to_lowercase()
}

/// Whether `c` is one of the digits `0` to `9`.
pub open spec fn is_digit(c: char) -> bool {
    '0' <= c && c <= '9'
}

/// The number a digit stands for.
pub open spec fn digit_value(c: char) -> nat {
    (c as int - '0' as int) as nat
}

/// Whether the text consists of digits alone.
pub open spec fn all_digits(text: Seq<char>) -> bool {
    forall|i: int| 0 <= i < text.len() ==> is_digit(#[trigger] text[i])
}

/// The number that a text of digits denotes in base ten.
pub open spec fn number_of(digits: Seq<char>) -> nat
    decreases digits.len(),
{
    if digits.len() == 0 {
        0
    } else {
        10 * number_of(digits.drop_last()) + digit_value(digits.last())
    }
}

/// The digits of a numeral: the text without a leading `+`.
pub open spec fn numeral_digits(text: Seq<char>) -> Seq<char> {
    if text.len() > 0 && text[0] == '+' {
        text.drop_first()
    } else {
        text
    }
}

/// The unsigned integer that a text denotes: an optional `+`, then one or
/// more digits and nothing else, with a value of at most `max`. Any other
/// text denotes none.
pub open spec fn unsigned_of_text(text: Seq<char>, max: nat) -> Option<nat> {
    let digits = numeral_digits(text);
    if digits.len() > 0 && all_digits(digits) && number_of(digits) <= max {
        Some(number_of(digits))
    } else {
        None
    }
}

/// A text of digits denotes at least what any of its prefixes denotes.
pub proof fn lemma_number_of_prefix(digits: Seq<char>, len: int)
    requires
        0 <= len <= digits.len(),
    ensures
        number_of(digits.take(len)) <= number_of(digits),
    decreases digits.len(),
{
    if len < digits.len() {
        let shorter = digits.drop_last();
        assert(shorter.take(len) =~= digits.take(len));
        lemma_number_of_prefix(shorter, len);
    } else {
        assert(digits.take(len) =~= digits);
    }
}

/// Reads an unsigned integer of at most `max`.
fn parse_unsigned(text: &str, max: u64) -> (number: Option<u64>)
    requires
        max <= u32::MAX,
    ensures
        number == match unsigned_of_text(text@, max as nat) {
            Some(n) => Some(n as u64),
            None => None,
        },
{
    if !text.is_ascii() {
        proof {
            let digits = numeral_digits(text@);
            let i = choose|i: int|
                0 <= i < text@.len() && !('\0' <= #[trigger] text@[i] <= '\u{7f}');
            if digits.len() == text@.len() {
                assert(!is_digit(digits[i]));
            } else if i > 0 {
                assert(!is_digit(digits[i - 1]));
            }
        }
        return None;
    }
    let bytes = text.as_bytes();
    proof {
        is_ascii_spec_bytes(text);
    }
    let ghost digits = numeral_digits(text@);
    let start: usize = if bytes.len() > 0 && bytes[0] == 43u8 {
        1
    } else {
        0
    };
    if start == bytes.len() {
        return None;
    }
    let mut number: u64 = 0;
    let mut at: usize = start;
    while at < bytes.len()
        invariant
            start <= at <= bytes.len(),
            bytes@.len() == text@.len(),
            digits == numeral_digits(text@),
            digits.len() == bytes.len() - start,
            forall|i: int| 0 <= i < digits.len() ==> digits[i] as int == bytes@[i + start] as int,
            all_digits(digits.take(at - start)),
            number == number_of(digits.take(at - start)),
            number <= max <= u32::MAX,
        decreases bytes.len() - at,
    {
        let byte = bytes[at];
        let ghost seen = digits.take(at - start + 1);
        proof {
            assert(seen.drop_last() =~= digits.take(at - start));
            assert(seen.last() == digits[at - start]);
        }
        if byte < 48u8 || byte > 57u8 {
            assert(!is_digit(digits[at - start]));
            return None;
        }
        number = number * 10 + (byte - 48u8) as u64;
        if number > max {
            proof {
                lemma_number_of_prefix(digits, at - start + 1);
            }
            return None;
        }
        proof {
            assert forall|i: int| 0 <= i < seen.len() implies is_digit(#[trigger] seen[i]) by {
                if i < seen.len() - 1 {
                    assert(is_digit(digits.take(at - start)[i]));
                }
            }
        }
        at = at + 1;
    }
    proof {
        assert(digits.take(at - start) =~= digits);
    }
    Some(number)
}

/// Reads a 16-bit unsigned integer: an optional `+`, then digits.
pub fn parse_u16(text: &str) -> (number: Option<u16>)
    ensures
        number == match unsigned_of_text(text@, u16::MAX as nat) {
            Some(n) => Some(n as u16),
            None => None,
        },
{
    match parse_unsigned(text, 65535u64) {
        Some(n) => Some(n as u16),
        None => None,
    }
}

/// Reads a 32-bit unsigned integer: an optional `+`, then digits.
pub fn parse_u32(text: &str) -> (number: Option<u32>)
    ensures
        number == match unsigned_of_text(text@, u32::MAX as nat) {
            Some(n) => Some(n as u32),
            None => None,
        },
{
    match parse_unsigned(text, 4294967295u64) {
        Some(n) => Some(n as u32),
        None => None,
    }
}

} // verus!
