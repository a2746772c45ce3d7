//! What every call on texts, bytes, numbers and secrets does, told by what goes in and what comes
//! out.

use vstd::prelude::*;
#[allow(unused_imports)]
use vstd::utf8::{encode_utf8, valid_utf8};
use crate::hex::{
    bytes_to_hex_string, event_id_from_hex, hex_string_to_bytes, string_to_bytes,
    try_hex_string_to_bytes,
};
#[allow(unused_imports)]
use crate::hex::{
    hex_bytes, hex_digit, hex_round_trip, hex_text, hex_value, is_event_id, is_hex, pair_value,
};
use crate::secrets::{
    can_decrypt, decrypt, encrypt, encrypt_with_nonce, hash_pass, join_nonce, split_nonce,
};
#[allow(unused_imports)]
use crate::secrets::{
    argon2id, decrypt_gives_back, enciphered, keystream_byte, opened, password_key, sealed,
};
use crate::text::{ascii_text, chars_of, decimal, parse_number, same_text, starts_with};
#[allow(unused_imports)]
use crate::text::{decimal_text, digit_char, digits_value, is_digit, number_in, unsigned_part};

verus! {

/// A character is written as a digit just if it stands among these.
pub open spec fn lower_digits() -> Seq<char> {
    "0123456789abcdef"@
}

/// The same digits in upper case.
pub open spec fn upper_digits() -> Seq<char> {
    "0123456789ABCDEF"@
}

/// Whether a character is a hexadecimal digit with this value.
pub open spec fn is_digit_of(c: char, value: int) -> bool {
    0 <= value < 16 && (c == lower_digits()[value] || c == upper_digits()[value])
}

/// Whether a character is a hexadecimal digit of either case.
pub open spec fn is_hex_digit(c: char) -> bool {
    exists|value: int| is_digit_of(c, value)
}

/// The digits have the values of their places.
proof fn lemma_digits(c: char)
    ensures
        hex_value(c) matches Some(value) ==> is_digit_of(c, value),
        forall|value: int| #[trigger] is_digit_of(c, value) ==> hex_value(c) == Some(value),
        forall|value: int| 0 <= value < 16 ==> hex_digit(value) == #[trigger] lower_digits()[value],
        c == '+' ==> hex_value(c) is None,
{
    reveal_strlit("0123456789abcdef");
    reveal_strlit("0123456789ABCDEF");
}

/// Each byte is written as two digits in lower case, the higher one first.
pub proof fn hex_text_writes(bytes: Seq<u8>, i: int)
    ensures
        hex_text(bytes).len() == 2 * bytes.len(),
        0 <= i < bytes.len() ==> hex_text(bytes)[2 * i] == "0123456789abcdef"@[bytes[i] as int
            / 16] && hex_text(bytes)[2 * i + 1] == "0123456789abcdef"@[bytes[i] as int % 16],
{
    if 0 <= i < bytes.len() {
        lemma_digits('0');
        assert(hex_digit(bytes[i] as int / 16) == lower_digits()[bytes[i] as int / 16]);
        assert(hex_digit(bytes[i] as int % 16) == lower_digits()[bytes[i] as int % 16]);
        assert((2 * i) / 2 == i && (2 * i + 1) / 2 == i);
        assert((2 * i) % 2 == 0 && (2 * i + 1) % 2 == 1);
    }
}

/// Bytes are written as digits, byte by byte.
pub proof fn bytes_to_hex_string_writes(bytes: &[u8], text: String, i: int)
    requires
        call_ensures(bytes_to_hex_string, (bytes,), text),
    ensures
        text@.len() == 2 * bytes@.len(),
        0 <= i < bytes@.len() ==> text@[2 * i] == "0123456789abcdef"@[bytes@[i] as int / 16]
            && text@[2 * i + 1] == "0123456789abcdef"@[bytes@[i] as int % 16],
{
    hex_text_writes(bytes@, i);
}

/// Whether two characters write a byte: two digits of either case, or a plus sign and a digit.
pub open spec fn writes_byte(first: char, second: char, byte: u8) -> bool {
    ||| exists|high: int, low: int| #[trigger]
        is_digit_of(first, high) && #[trigger] is_digit_of(second, low) && byte == 16 * high + low
    ||| first == '+' && is_digit_of(second, byte as int)
}

/// Two characters are read as the byte that they write.
proof fn lemma_pair(first: char, second: char)
    ensures
        pair_value(first, second) matches Some(byte) ==> writes_byte(first, second, byte),
        forall|byte: u8| #[trigger]
            writes_byte(first, second, byte) ==> pair_value(first, second) == Some(byte),
{
    lemma_digits(first);
    lemma_digits(second);
    if let (Some(high), Some(low)) = (hex_value(first), hex_value(second)) {
        assert(is_digit_of(first, high) && is_digit_of(second, low));
    }
}

/// A text is read as the bytes that its pairs of characters write.
pub proof fn hex_bytes_reads(text: Seq<char>, bytes: Seq<u8>)
    ensures
        is_hex(text) ==> text.len() % 2 == 0 && hex_bytes(text).len() == text.len() / 2
            && forall|i: int|
            0 <= i < text.len() / 2 ==> writes_byte(
                text[2 * i],
                text[2 * i + 1],
                #[trigger] hex_bytes(text)[i],
            ),
        text.len() == 2 * bytes.len() && (forall|i: int|
            0 <= i < bytes.len() ==> writes_byte(
                text[2 * i],
                text[2 * i + 1],
                #[trigger] bytes[i],
            )) ==> is_hex(text) && hex_bytes(text) == bytes,
{
    if is_hex(text) {
        assert forall|i: int| 0 <= i < text.len() / 2 implies writes_byte(
            text[2 * i],
            text[2 * i + 1],
            #[trigger] hex_bytes(text)[i],
        ) by {
            assert(pair_value(text[2 * i], text[2 * i + 1]) is Some);
            lemma_pair(text[2 * i], text[2 * i + 1]);
        }
    }
    if text.len() == 2 * bytes.len() && (forall|i: int|
        0 <= i < bytes.len() ==> writes_byte(text[2 * i], text[2 * i + 1], #[trigger] bytes[i])) {
        assert forall|i: int| 0 <= i < text.len() / 2 implies (#[trigger] pair_value(
            text[2 * i],
            text[2 * i + 1],
        )) == Some(bytes[i]) by {
            assert(writes_byte(text[2 * i], text[2 * i + 1], bytes[i]));
            lemma_pair(text[2 * i], text[2 * i + 1]);
        }
        assert forall|i: int| 0 <= i < bytes.len() implies hex_bytes(text)[i] == bytes[i] by {
            assert(pair_value(text[2 * i], text[2 * i + 1]) == Some(bytes[i]));
        }
        assert(hex_bytes(text) =~= bytes);
    }
}

/// Whether a text writes bytes, pair by pair.
pub open spec fn writes_bytes(text: Seq<char>, bytes: Seq<u8>) -> bool {
    &&& text.len() == 2 * bytes.len()
    &&& forall|i: int|
        0 <= i < bytes.len() ==> writes_byte(text[2 * i], text[2 * i + 1], #[trigger] bytes[i])
}

/// Bytes are read from a text that writes them, and from no other.
pub proof fn hex_string_to_bytes_reads(s: &str, bytes: Option<Vec<u8>>, sure: Vec<u8>)
    requires
        call_ensures(try_hex_string_to_bytes, (s,), bytes),
        is_hex(s@) ==> call_ensures(hex_string_to_bytes, (s,), sure),
    ensures
        bytes matches Some(bytes) ==> writes_bytes(s@, bytes@),
        bytes is None ==> forall|other: Seq<u8>| !#[trigger] writes_bytes(s@, other),
        is_hex(s@) ==> writes_bytes(s@, sure@),
{
    hex_bytes_reads(s@, hex_bytes(s@));
    assert forall|other: Seq<u8>| #[trigger] writes_bytes(s@, other) implies is_hex(s@) by {
        hex_bytes_reads(s@, other);
    }
}

/// The id of an event is read from 64 digits of either case, and from nothing else.
pub proof fn event_id_from_hex_reads(text: &str, id: Option<[u8; 32]>)
    requires
        call_ensures(event_id_from_hex, (text,), id),
    ensures
        id is Some == (text@.len() == 64 && forall|i: int|
            0 <= i < 64 ==> is_hex_digit(#[trigger] text@[i])),
        id matches Some(id) ==> writes_bytes(text@, id@),
{
    assert forall|i: int| 0 <= i < text@.len() implies (hex_value(#[trigger] text@[i]) is Some)
        == is_hex_digit(text@[i]) by {
        lemma_digits(text@[i]);
        if let Some(value) = hex_value(text@[i]) {
            assert(is_digit_of(text@[i], value));
        }
    }
    if is_event_id(text@) {
        assert forall|i: int| 0 <= i < text@.len() / 2 implies (#[trigger] pair_value(
            text@[2 * i],
            text@[2 * i + 1],
        )) is Some by {
            assert(hex_value(text@[2 * i]) is Some);
            assert(hex_value(text@[2 * i + 1]) is Some);
        }
        hex_bytes_reads(text@, hex_bytes(text@));
    }
}

/// Texts are turned into bytes, characters and text again as they are.
pub proof fn texts_are_kept(
    s: &str,
    bytes: Vec<u8>,
    chars: Vec<char>,
    other: &str,
    same: bool,
    prefixed: bool,
)
    requires
        call_ensures(string_to_bytes, (s,), bytes),
        call_ensures(chars_of, (s,), chars),
        call_ensures(same_text, (s, other), same),
        call_ensures(starts_with, (s, other), prefixed),
    ensures
        bytes@ == encode_utf8(s@),
        chars@ == s@,
        same == (s@ == other@),
        prefixed == (other@.len() <= s@.len() && forall|i: int|
            0 <= i < other@.len() ==> s@[i] == #[trigger] other@[i]),
{
    if other@.len() <= s@.len() {
        if other@.is_prefix_of(s@) {
            assert forall|i: int| 0 <= i < other@.len() implies s@[i] == #[trigger] other@[i] by {
                assert(s@.subrange(0, other@.len() as int)[i] == s@[i]);
            }
        } else if forall|i: int| 0 <= i < other@.len() ==> s@[i] == #[trigger] other@[i] {
            assert(s@.subrange(0, other@.len() as int) =~= other@);
        }
    }
}

/// ASCII bytes spell the characters that they stand for.
pub proof fn ascii_text_spells(bytes: Vec<u8>, text: String, i: int)
    requires
        call_ensures(ascii_text, (bytes,), text),
    ensures
        text@.len() == bytes@.len(),
        0 <= i < bytes@.len() ==> text@[i] == bytes@[i] as char,
{
}

/// A number is written with its last digit behind the others.
pub proof fn decimal_text_writes(n: nat)
    ensures
        n < 10 ==> decimal_text(n) == seq!["0123456789"@[n as int]],
        n >= 10 ==> decimal_text(n) == decimal_text(n / 10).push("0123456789"@[n as int % 10]),
{
    reveal_strlit("0123456789");
    assert(digit_char(n % 10) == "0123456789"@[n as int % 10]);
}

/// Numbers are written in decimal.
pub proof fn decimal_writes(n: u128, text: String)
    requires
        call_ensures(decimal, (n,), text),
    ensures
        n < 10 ==> text@ == seq!["0123456789"@[n as int]],
        n >= 10 ==> text@ == decimal_text((n / 10) as nat).push("0123456789"@[n as int % 10]),
{
    decimal_text_writes(n as nat);
}

/// Whether all characters are decimal digits, and there are some.
pub open spec fn is_number(text: Seq<char>) -> bool {
    text.len() > 0 && forall|i: int|
        0 <= i < text.len() ==> '0' <= #[trigger] text[i] && text[i] <= '9'
}

/// A number is read digit by digit, with or without a plus sign in front, as long as it fits; no
/// other text is a number.
pub proof fn number_in_reads(text: Seq<char>, c: char)
    ensures
        number_in(text) is Some ==> is_number(text) || (text.len() > 1 && text[0] == '+'
            && is_number(text.skip(1))),
        '0' <= c <= '9' ==> number_in(seq![c]) == Some((c as u64 - 48) as u64),
        is_number(text) ==> number_in(seq!['+'] + text) == number_in(text),
        is_number(text) && '0' <= c <= '9' ==> number_in(text.push(c)) == match number_in(text) {
            Some(value) if value * 10 + (c as u64 - 48) <= u64::MAX => Some(
                (value * 10 + (c as u64 - 48)) as u64,
            ),
            _ => None,
        },
{
    reveal_with_fuel(digits_value, 2);
    let one = seq![c];
    assert(one.drop_last() =~= seq![]);
    assert(unsigned_part(one) == one || c == '+');
    if '0' <= c <= '9' {
        assert(is_digit(one[0]));
    }
    let signed = seq!['+'] + text;
    assert(signed.skip(1) =~= text);
    if is_number(text) {
        assert('0' <= text[0]);
        assert(unsigned_part(text) == text);
        assert forall|i: int| 0 <= i < text.len() implies is_digit(#[trigger] text[i]) by {}
        let more = text.push(c);
        assert(more.drop_last() =~= text);
        assert(more[0] == text[0]);
        assert(unsigned_part(more) == more);
        if '0' <= c <= '9' {
            assert forall|i: int| 0 <= i < more.len() implies is_digit(#[trigger] more[i]) by {
                if i < text.len() {
                    assert(more[i] == text[i]);
                }
            }
            assert(digits_value(more) == digits_value(text) * 10 + (c as nat - 48));
        }
    }
    if number_in(text) is Some {
        let digits = unsigned_part(text);
        assert forall|i: int| 0 <= i < digits.len() implies '0' <= #[trigger] digits[i]
            && digits[i] <= '9' by {
            assert(is_digit(digits[i]));
        }
        if text[0] == '+' {
            assert(digits == text.skip(1));
        }
    }
}

/// The numbers that are read are those.
pub proof fn parse_number_reads(text: &str, number: Option<u64>)
    requires
        call_ensures(parse_number, (text,), number),
    ensures
        number == number_in(text@),
{
}

/// The key of a password is what Argon2id makes of its bytes, with the salt and the costs of the
/// messenger.
pub proof fn hash_pass_stretches(password: String, key: [u8; 32])
    requires
        call_ensures(hash_pass, (password,), key),
        encode_utf8(password@).len() <= 0xffff_ffff,
    ensures
        key@ == argon2id(
            encode_utf8(password@),
            encode_utf8("vectorvectovectvecvev"@),
            75000,
            5,
            1,
        ),
{
}

/// A nonce and the bytes behind it are written together.
pub proof fn join_nonce_joins(nonce: &[u8; 12], payload: Vec<u8>, text: String)
    requires
        call_ensures(join_nonce, (nonce, payload), text),
    ensures
        text@ == hex_text(nonce@ + payload@),
{
}

/// A nonce and the bytes behind it come apart again.
pub proof fn split_nonce_splits(
    nonce: &[u8; 12],
    payload: Vec<u8>,
    text: &str,
    parts: (Vec<u8>, Vec<u8>),
)
    requires
        text@ == hex_text(nonce@ + payload@),
        payload@.len() <= 0x3f_ffff_ffc0,
        call_ensures(split_nonce, (text,), parts),
    ensures
        parts.0@ == nonce@,
        parts.1@ == payload@,
{
    hex_round_trip(nonce@ + payload@);
    assert((nonce@ + payload@).take(12) =~= nonce@);
    assert((nonce@ + payload@).skip(12) =~= payload@);
}

/// Only a text that writes at least a nonce can be deciphered.
pub proof fn can_decrypt_tells(text: &str, res: bool)
    requires
        call_ensures(can_decrypt, (text,), res),
    ensures
        res == exists|bytes: Seq<u8>| #[trigger]
            writes_bytes(text@, bytes) && 12 <= bytes.len() <= 12 + 0x3f_ffff_ffc0,
{
    hex_bytes_reads(text@, hex_bytes(text@));
    if res {
        assert(writes_bytes(text@, hex_bytes(text@)));
    }
    assert forall|bytes: Seq<u8>| #[trigger] writes_bytes(text@, bytes) implies is_hex(text@)
        && text@.len() == 2 * bytes.len() by {
        hex_bytes_reads(text@, bytes);
    }
}

/// What is stored for a text is the nonce, and behind it each byte of the text combined with the
/// one that the cipher has for its place.
pub proof fn encrypt_with_nonce_seals(
    input: String,
    password: String,
    nonce: [u8; 12],
    key: [u8; 32],
    text: String,
)
    requires
        call_ensures(encrypt_with_nonce, (input, password, nonce), text),
        call_ensures(hash_pass, (password,), key),
        encode_utf8(password@).len() <= 0xffff_ffff,
        encode_utf8(input@).len() <= 0x3f_ffff_ffc0,
    ensures
        text@ == hex_text(
            nonce@ + Seq::new(
                encode_utf8(input@).len(),
                |i: int| encode_utf8(input@)[i] ^ keystream_byte(key@, nonce@, i),
            ),
        ),
{
    hash_pass_stretches(password, key);
    let payload = Seq::new(
        encode_utf8(input@).len(),
        |i: int| encode_utf8(input@)[i] ^ keystream_byte(key@, nonce@, i),
    );
    assert(enciphered(password_key(password@), nonce@, encode_utf8(input@))
        =~= payload);
}

/// What is stored for a text has the same form under a nonce that is drawn.
pub proof fn encrypt_seals(input: String, password: String, key: [u8; 32], text: String)
    requires
        call_ensures(encrypt, (input, password), text),
        call_ensures(hash_pass, (password,), key),
        encode_utf8(password@).len() <= 0xffff_ffff,
        encode_utf8(input@).len() <= 0x3f_ffff_ffc0,
    ensures
        exists|nonce: Seq<u8>| #[trigger]
            nonce.len() == 12 && text@ == hex_text(
                nonce + Seq::new(
                    encode_utf8(input@).len(),
                    |i: int| encode_utf8(input@)[i] ^ keystream_byte(key@, nonce, i),
                ),
            ),
{
    hash_pass_stretches(password, key);
    let nonce = choose|nonce: Seq<u8>|
        nonce.len() == 12 && text@ == #[trigger] sealed(input@, password@, nonce);
    let payload = Seq::new(
        encode_utf8(input@).len(),
        |i: int| encode_utf8(input@)[i] ^ keystream_byte(key@, nonce, i),
    );
    assert(enciphered(password_key(password@), nonce, encode_utf8(input@)) =~= payload);
    assert(nonce.len() == 12 && text@ == hex_text(nonce + payload));
}

/// A text that was enciphered is the very text that is deciphered with the same password.
pub proof fn decrypt_undoes_encrypt(
    input: String,
    password: String,
    text: String,
    again: String,
    output: Result<String, ()>,
)
    requires
        call_ensures(encrypt, (input, password), text),
        again@ == password@,
        call_ensures(decrypt, (text, again), output),
        encode_utf8(password@).len() <= 0xffff_ffff,
        encode_utf8(input@).len() <= 0x3f_ffff_ffc0,
    ensures
        output matches Ok(output) && output@ == input@,
{
    let nonce = choose|nonce: Seq<u8>|
        nonce.len() == 12 && text@ == #[trigger] sealed(input@, password@, nonce);
    decrypt_gives_back(input@, password@, nonce);
}

/// What is deciphered is a text whose bytes are those that were stored, each combined with the
/// one that the cipher has for its place; where they are no text, there is none.
pub proof fn decrypt_opens(
    nonce: Seq<u8>,
    payload: Seq<u8>,
    ciphertext: String,
    password: String,
    key: [u8; 32],
    output: Result<String, ()>,
)
    requires
        ciphertext@ == hex_text(nonce + payload),
        nonce.len() == 12,
        payload.len() <= 0x3f_ffff_ffc0,
        call_ensures(hash_pass, (password,), key),
        encode_utf8(password@).len() <= 0xffff_ffff,
        call_ensures(decrypt, (ciphertext, password), output),
    ensures
        ({
            let bytes = Seq::new(
                payload.len(),
                |i: int| payload[i] ^ keystream_byte(key@, nonce, i),
            );
            &&& output is Ok == valid_utf8(bytes)
            &&& output matches Ok(text) ==> encode_utf8(text@) == bytes
        }),
{
    hash_pass_stretches(password, key);
    hex_round_trip(nonce + payload);
    assert((nonce + payload).take(12) =~= nonce);
    assert((nonce + payload).skip(12) =~= payload);
    let bytes = Seq::new(payload.len(), |i: int| payload[i] ^ keystream_byte(key@, nonce, i));
    assert(opened(ciphertext@, password@) =~= bytes);
    if output is Ok {
        vstd::utf8::decode_utf8_encode_utf8(bytes);
    }
}

} // verus!
