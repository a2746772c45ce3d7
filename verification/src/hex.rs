//! Bytes written as hexadecimal digits.

use vstd::prelude::*;
use vstd::utf8::encode_utf8;
use crate::text::{ascii_text, chars_of};

verus! {

/// A hexadecimal digit as it is written.
pub open spec fn hex_digit(digit: int) -> char
    recommends
        0 <= digit < 16,
{
    if digit < 10 {
        (48 + digit) as char
    } else {
        (87 + digit) as char
    }
}

/// Bytes in lower case hexadecimal, two digits each.
pub open spec fn hex_text(bytes: Seq<u8>) -> Seq<char> {
    Seq::new(
        bytes.len() * 2,
        |i: int|
            if i % 2 == 0 {
                hex_digit(bytes[i / 2] as int / 16)
            } else {
                hex_digit(bytes[i / 2] as int % 16)
            },
    )
}

/// The value of a hexadecimal digit of either case.
pub open spec fn hex_value(c: char) -> Option<int> {
    if '0' <= c <= '9' {
        Some(c as int - 48)
    } else if 'a' <= c <= 'f' {
        Some(c as int - 87)
    } else if 'A' <= c <= 'F' {
        Some(c as int - 55)
    } else {
        None
    }
}

/// The byte that two characters write: two hexadecimal digits, or one with a plus sign in front.
pub open spec fn pair_value(first: char, second: char) -> Option<u8> {
    match (hex_value(first), hex_value(second)) {
        (Some(high), Some(low)) => Some((16 * high + low) as u8),
        (None, Some(low)) if first == '+' => Some(low as u8),
        _ => None,
    }
}

/// Whether a text is made of pairs of characters that each write a byte.
pub open spec fn is_hex(text: Seq<char>) -> bool {
    text.len() % 2 == 0 && forall|i: int|
        0 <= i < text.len() / 2 ==> (#[trigger] pair_value(text[2 * i], text[2 * i + 1])) is Some
}

/// The bytes that a text writes.
pub open spec fn hex_bytes(text: Seq<char>) -> Seq<u8>
    recommends
        is_hex(text),
{
    Seq::new(text.len() / 2, |i: int| pair_value(text[2 * i], text[2 * i + 1])->0)
}

/// A digit that is written is read back.
proof fn lemma_hex_digit(digit: int)
    requires
        0 <= digit < 16,
    ensures
        hex_value(hex_digit(digit)) == Some(digit),
{
}

/// Bytes that are written in hexadecimal are read back.
pub proof fn hex_round_trip(bytes: Seq<u8>)
    ensures
        hex_text(bytes).len() == 2 * bytes.len(),
        is_hex(hex_text(bytes)),
        hex_bytes(hex_text(bytes)) == bytes,
{
    let text = hex_text(bytes);
    assert forall|i: int| 0 <= i < bytes.len() implies (#[trigger] pair_value(
        text[2 * i],
        text[2 * i + 1],
    )) == Some(bytes[i]) by {
        lemma_hex_digit(bytes[i] as int / 16);
        lemma_hex_digit(bytes[i] as int % 16);
    }
    assert forall|i: int| 0 <= i < bytes.len() implies hex_bytes(text)[i] == bytes[i] by {
        assert(pair_value(text[2 * i], text[2 * i + 1]) == Some(bytes[i]));
    }
    assert(hex_bytes(text) =~= bytes);
}

/// Different bytes are written differently.
pub proof fn hex_text_tells_apart(a: Seq<u8>, b: Seq<u8>)
    requires
        hex_text(a) == hex_text(b),
    ensures
        a == b,
{
    hex_round_trip(a);
    hex_round_trip(b);
}

/// What is written for 32 bytes can be the id of an event.
pub proof fn event_ids_are_hex(bytes: Seq<u8>)
    requires
        bytes.len() == 32,
    ensures
        is_event_id(hex_text(bytes)),
{
    assert forall|i: int| 0 <= i < 64 implies hex_value(#[trigger] hex_text(bytes)[i]) is Some by {
        lemma_hex_digit(bytes[i / 2] as int / 16);
        lemma_hex_digit(bytes[i / 2] as int % 16);
    }
}

/// The bytes of a text in UTF-8.
pub fn string_to_bytes(s: &str) -> (bytes: Vec<u8>)
    ensures
        bytes@ == encode_utf8(s@),
{
    vstd::slice::slice_to_vec(s.as_bytes())
}

/// Writes a digit below 16.
fn digit_byte(digit: u8) -> (byte: u8)
    requires
        digit < 16,
    ensures
        byte < 128,
        byte as char == hex_digit(digit as int),
{
    if digit < 10 {
        48 + digit
    } else {
        87 + digit
    }
}

/// Writes bytes in lower case hexadecimal, two digits each.
pub fn bytes_to_hex_string(bytes: &[u8]) -> (text: String)
    ensures
        text@ == hex_text(bytes@),
{
    let mut digits: Vec<u8> = Vec::new();
    let mut i: usize = 0;
    while i < bytes.len()
        invariant
            i <= bytes@.len(),
            digits@.len() == 2 * i,
            forall|j: int|
                0 <= j < 2 * i ==> #[trigger] digits@[j] < 128 && digits@[j] as char == hex_text(
                    bytes@,
                )[j],
        decreases bytes@.len() - i,
    {
        let byte: u8 = bytes[i];
        digits.push(digit_byte(byte / 16));
        digits.push(digit_byte(byte % 16));
        i = i + 1;
    }
    let text = ascii_text(digits);
    assert(text@ =~= hex_text(bytes@));
    text
}

/// The value of a hexadecimal digit of either case.
fn digit_value(c: char) -> (value: Option<u8>)
    ensures
        match value {
            Some(value) => hex_value(c) == Some(value as int) && value < 16,
            None => hex_value(c) is None,
        },
{
    if '0' <= c && c <= '9' {
        Some((c as u8) - 48)
    } else if 'a' <= c && c <= 'f' {
        Some((c as u8) - 87)
    } else if 'A' <= c && c <= 'F' {
        Some((c as u8) - 55)
    } else {
        None
    }
}

/// The byte that two characters write.
fn pair_byte(first: char, second: char) -> (byte: Option<u8>)
    ensures
        byte == pair_value(first, second),
{
    match (digit_value(first), digit_value(second)) {
        (Some(high), Some(low)) => Some(16 * high + low),
        (None, Some(low)) => {
            if first == '+' {
                Some(low)
            } else {
                None
            }
        },
        _ => None,
    }
}

/// Reads the bytes that a text writes, if it is made of pairs of characters that each write one.
pub fn try_hex_string_to_bytes(s: &str) -> (bytes: Option<Vec<u8>>)
    ensures
        match bytes {
            Some(bytes) => is_hex(s@) && bytes@ == hex_bytes(s@),
            None => !is_hex(s@),
        },
{
    let chars = chars_of(s);
    if chars.len() % 2 != 0 {
        return None;
    }
    let count: usize = chars.len() / 2;
    let mut bytes: Vec<u8> = Vec::new();
    let mut i: usize = 0;
    while i < count
        invariant
            chars@ == s@,
            chars@.len() % 2 == 0,
            count == chars@.len() / 2,
            i <= count,
            bytes@.len() == i,
            forall|j: int|
                0 <= j < i ==> (#[trigger] pair_value(s@[2 * j], s@[2 * j + 1])) == Some(bytes@[j]),
        decreases count - i,
    {
        assert(2 * i + 1 < chars.len());
        match pair_byte(chars[2 * i], chars[2 * i + 1]) {
            Some(byte) => {
                bytes.push(byte);
            },
            None => {
                assert(pair_value(s@[2 * i as int], s@[2 * i as int + 1]) is None);
                return None;
            },
        }
        i = i + 1;
    }
    assert forall|j: int| 0 <= j < count implies bytes@[j] == hex_bytes(s@)[j] by {
        assert(pair_value(s@[2 * j], s@[2 * j + 1]) == Some(bytes@[j]));
    }
    assert(bytes@ =~= hex_bytes(s@));
    Some(bytes)
}

/// Reads the bytes that a text writes.
pub fn hex_string_to_bytes(s: &str) -> (bytes: Vec<u8>)
    requires
        is_hex(s@),
    ensures
        bytes@ == hex_bytes(s@),
{
    try_hex_string_to_bytes(s).unwrap()
}

/// Whether a text writes 32 bytes in hexadecimal digits alone, as the id of an event does.
pub open spec fn is_event_id(text: Seq<char>) -> bool {
    text.len() == 64 && forall|i: int| 0 <= i < text.len() ==> hex_value(#[trigger] text[i]) is Some
}

/// Reads the id of an event.
pub fn event_id_from_hex(text: &str) -> (id: Option<[u8; 32]>)
    ensures
        match id {
            Some(id) => is_event_id(text@) && id@ == hex_bytes(text@),
            None => !is_event_id(text@),
        },
{
    let chars = chars_of(text);
    if chars.len() != 64 {
        return None;
    }
    let mut id: [u8; 32] = [0;32];
    let mut i: usize = 0;
    while i < 32
        invariant
            chars@ == text@,
            chars@.len() == 64,
            i <= 32,
            forall|j: int| 0 <= j < 2 * i ==> hex_value(#[trigger] text@[j]) is Some,
            forall|j: int| 0 <= j < i ==> #[trigger] id@[j] == hex_bytes(text@)[j],
        decreases 32 - i,
    {
        match (digit_value(chars[2 * i]), digit_value(chars[2 * i + 1])) {
            (Some(high), Some(low)) => {
                id[i] = 16 * high + low;
                assert(pair_value(text@[2 * i], text@[2 * i + 1]) == Some(id@[i as int]));
            },
            _ => {
                assert(hex_value(text@[2 * i]) is None || hex_value(text@[2 * i + 1]) is None);
                return None;
            },
        }
        i = i + 1;
    }
    assert(id@ =~= hex_bytes(text@));
    Some(id)
}

} // verus!
