//! Texts, and the numbers written in them.

use vstd::prelude::*;
use vstd::utf8::{encode_utf8, is_ascii_chars, valid_utf8};

verus! {

/// Calls `String::from_utf8`, which takes bytes for a text exactly if they are valid UTF-8, and
/// then gives the text whose UTF-8 form they are.
#[verifier::external_body]
pub(crate) fn string_from_utf8(bytes: Vec<u8>) -> (text: Result<String, ()>)
    ensures
        text is Ok <==> valid_utf8(bytes@),
        text matches Ok(text) ==> encode_utf8(text@) == bytes@,
{
    String::from_utf8(bytes).map_err(|_| ())
}

/// The text that ASCII bytes spell.
pub fn ascii_text(bytes: Vec<u8>) -> (text: String)
    requires
        forall|i: int| 0 <= i < bytes@.len() ==> #[trigger] bytes@[i] < 128,
    ensures
        text@ == Seq::new(bytes@.len(), |i: int| bytes@[i] as char),
{
    let ghost chars = Seq::new(bytes@.len(), |i: int| bytes@[i] as char);
    proof {
        assert(is_ascii_chars(chars));
        vstd::utf8::is_ascii_chars_encode_utf8(chars);
        assert(encode_utf8(chars) =~= bytes@);
        vstd::utf8::encode_utf8_valid_utf8(chars);
    }
    let text = string_from_utf8(bytes);
    proof {
        vstd::utf8::encode_utf8_decode_utf8(chars);
        vstd::utf8::encode_utf8_decode_utf8(text->Ok_0@);
    }
    text.unwrap()
}

/// The characters of a text.
pub fn chars_of(text: &str) -> (chars: Vec<char>)
    ensures
        chars@ == text@,
{
    let mut chars: Vec<char> = Vec::new();
    for c in it: text.chars()
        invariant
            chars@ == it.seq().take(it.index()),
            it.seq() == text@,
    {
        chars.push(c);
    }
    chars
}

/// Whether a text begins with another.
pub fn starts_with(text: &str, prefix: &str) -> (res: bool)
    ensures
        res == prefix@.is_prefix_of(text@),
{
    let letters = chars_of(text);
    let wanted = chars_of(prefix);
    if letters.len() < wanted.len() {
        return false;
    }
    let mut i: usize = 0;
    while i < wanted.len()
        invariant
            letters@ == text@,
            wanted@ == prefix@,
            i <= wanted@.len() <= letters@.len(),
            forall|j: int| 0 <= j < i ==> wanted@[j] == #[trigger] letters@[j],
        decreases wanted@.len() - i,
    {
        if letters[i] != wanted[i] {
            assert(text@.subrange(0, prefix@.len() as int)[i as int] != prefix@[i as int]);
            return false;
        }
        i = i + 1;
    }
    assert(text@.subrange(0, prefix@.len() as int) =~= prefix@);
    true
}

/// Whether two texts are the same.
pub fn same_text(a: &str, b: &str) -> (res: bool)
    ensures
        res == (a@ == b@),
{
    a.to_owned() == b.to_owned()
}

/// A decimal digit as it is written.
pub open spec fn digit_char(digit: nat) -> char
    recommends
        digit < 10,
{
    (48 + digit) as char
}

/// A number in decimal.
pub open spec fn decimal_text(n: nat) -> Seq<char>
    decreases n,
{
    if n < 10 {
        seq![digit_char(n)]
    } else {
        decimal_text(n / 10).push(digit_char(n % 10))
    }
}

/// A number in decimal, as bytes.
fn decimal_bytes(n: u128) -> (bytes: Vec<u8>)
    ensures
        bytes@.len() == decimal_text(n as nat).len(),
        forall|i: int|
            0 <= i < bytes@.len() ==> #[trigger] bytes@[i] < 128 && bytes@[i] as char
                == decimal_text(n as nat)[i],
    decreases n,
{
    if n < 10 {
        let mut bytes: Vec<u8> = Vec::new();
        bytes.push(48 + (n as u8));
        bytes
    } else {
        let mut bytes: Vec<u8> = decimal_bytes(n / 10);
        bytes.push(48 + ((n % 10) as u8));
        bytes
    }
}

/// Writes a number in decimal.
pub fn decimal(n: u128) -> (text: String)
    ensures
        text@ == decimal_text(n as nat),
{
    let text = ascii_text(decimal_bytes(n));
    assert(text@ =~= decimal_text(n as nat));
    text
}

/// Whether a character is a decimal digit.
pub open spec fn is_digit(c: char) -> bool {
    '0' <= c <= '9'
}

/// The number that decimal digits write.
pub open spec fn digits_value(digits: Seq<char>) -> nat
    decreases digits.len(),
{
    if digits.len() == 0 {
        0
    } else {
        digits_value(digits.drop_last()) * 10 + (digits.last() as nat - 48) as nat
    }
}

/// A text without the plus sign that it may begin with.
pub open spec fn unsigned_part(text: Seq<char>) -> Seq<char> {
    if text.len() > 0 && text[0] == '+' {
        text.skip(1)
    } else {
        text
    }
}

/// The 64-bit number that a text writes in decimal: some digits, with or without a plus sign in
/// front.
pub open spec fn number_in(text: Seq<char>) -> Option<u64> {
    let digits = unsigned_part(text);
    if digits.len() > 0 && (forall|i: int| 0 <= i < digits.len() ==> is_digit(#[trigger] digits[i]))
        && digits_value(digits) <= u64::MAX {
        Some(digits_value(digits) as u64)
    } else {
        None
    }
}

/// The digits that write a number are digits, and have its value.
proof fn lemma_decimal_text(n: nat)
    ensures
        decimal_text(n).len() > 0,
        forall|i: int| 0 <= i < decimal_text(n).len() ==> is_digit(#[trigger] decimal_text(n)[i]),
        digits_value(decimal_text(n)) == n,
    decreases n,
{
    reveal_with_fuel(digits_value, 2);
    if n < 10 {
        assert(decimal_text(n).drop_last() =~= seq![]);
    } else {
        lemma_decimal_text(n / 10);
        assert(decimal_text(n).drop_last() =~= decimal_text(n / 10));
    }
}

/// A number that is written in decimal is read back.
pub proof fn decimal_round_trip(n: u64)
    ensures
        number_in(decimal_text(n as nat)) == Some(n),
{
    lemma_decimal_text(n as nat);
    assert(is_digit(decimal_text(n as nat)[0]));
}

/// Different numbers are written differently.
pub proof fn decimal_text_tells_apart(a: nat, b: nat)
    requires
        decimal_text(a) == decimal_text(b),
    ensures
        a == b,
{
    lemma_decimal_text(a);
    lemma_decimal_text(b);
}

/// A number that digits write does not get smaller by further digits.
proof fn lemma_digits_value_grows(digits: Seq<char>, i: int)
    requires
        0 <= i <= digits.len(),
        forall|j: int| 0 <= j < digits.len() ==> is_digit(#[trigger] digits[j]),
    ensures
        digits_value(digits.take(i)) <= digits_value(digits),
    decreases digits.len(),
{
    if i == digits.len() {
        assert(digits.take(i) =~= digits);
    } else {
        lemma_digits_value_grows(digits.drop_last(), i);
        assert(digits.drop_last().take(i) =~= digits.take(i));
    }
}

/// Reads a decimal number.
pub fn parse_number(text: &str) -> (number: Option<u64>)
    ensures
        number == number_in(text@),
{
    let chars = chars_of(text);
    let ghost digits = unsigned_part(text@);
    let start: usize = if chars.len() > 0 && chars[0] == '+' {
        1
    } else {
        0
    };
    if chars.len() == start {
        return None;
    }
    let mut value: u64 = 0;
    let mut i: usize = start;
    assert(digits.take(0) =~= seq![]);
    while i < chars.len()
        invariant
            start <= i <= chars@.len(),
            digits == chars@.skip(start as int),
            digits == unsigned_part(text@),
            forall|j: int| 0 <= j < i - start ==> is_digit(#[trigger] digits[j]),
            value == digits_value(digits.take(i - start)),
        decreases chars@.len() - i,
    {
        let c = chars[i];
        assert(digits[i - start] == c);
        if c < '0' || '9' < c {
            return None;
        }
        let digit: u64 = (c as u64) - 48;
        proof {
            let longer = digits.take(i - start + 1);
            assert(longer.drop_last() =~= digits.take(i - start));
            assert(longer.last() == c);
            if value * 10 + digit > u64::MAX {
                if forall|j: int| 0 <= j < digits.len() ==> is_digit(#[trigger] digits[j]) {
                    lemma_digits_value_grows(digits, i - start + 1);
                }
            }
        }
        if value > u64::MAX / 10 || value * 10 > u64::MAX - digit {
            return None;
        }
        value = value * 10 + digit;
        i = i + 1;
    }
    assert(digits.take(i - start) =~= digits);
    Some(value)
}

} // verus!
