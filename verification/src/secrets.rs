//! Texts kept under a password.
//!
//! A password is stretched to a key by Argon2id, and a text is enciphered by ChaCha20 under that
//! key and a fresh nonce. What is stored is the nonce and the enciphered text behind it, in
//! hexadecimal.

use argon2::{Algorithm, Argon2, Params, Version};
use chacha20::cipher::{KeyIvInit, StreamCipher};
use chacha20::{ChaCha20, Key, Nonce};
use rand::Rng;
use vstd::prelude::*;
use vstd::utf8::{decode_utf8, encode_utf8, valid_utf8};
use crate::hex::{
    bytes_to_hex_string, hex_string_to_bytes, string_to_bytes, try_hex_string_to_bytes,
};
#[allow(unused_imports)]
use crate::hex::{hex_bytes, hex_round_trip, hex_text, is_hex};
use crate::text::string_from_utf8;

verus! {

/// How much memory a password hash takes, in KiB.
pub const HASH_MEMORY: u32 = 75000;

/// How many passes a password hash makes.
pub const HASH_ITERATIONS: u32 = 5;

/// How many lanes a password hash has.
pub const HASH_LANES: u32 = 1;

/// How many bytes a nonce has.
pub const NONCE_LENGTH: usize = 12;

/// How many bytes a password may have.
pub const PASSWORD_LIMIT: u64 = 0xffff_ffff;

/// How many bytes one nonce enciphers: all blocks of 64 bytes that a counter of 32 bits leaves.
pub const KEYSTREAM_LIMIT: u64 = 0x3f_ffff_ffc0;

/// The 32 bytes that Argon2id, version 0x13, makes of a password and a salt with this much
/// memory, this many passes and this many lanes.
pub uninterp spec fn argon2id(
    password: Seq<u8>,
    salt: Seq<u8>,
    memory: u32,
    iterations: u32,
    lanes: u32,
) -> Seq<u8>;

/// The byte that ChaCha20 has for one place of a text under a key and a nonce.
pub uninterp spec fn keystream_byte(key: Seq<u8>, nonce: Seq<u8>, place: int) -> u8;

/// Calls `Argon2::hash_password_into`, which makes 32 bytes out of password, salt and costs
/// alone. The bounds are those outside of which `Params::new` or the call gives an error; the
/// memory is bounded by what is asked for here, since the call allocates it.
#[verifier::external_body]
fn hash_password(password: &[u8], salt: &[u8], memory: u32, iterations: u32, lanes: u32) -> (key:
    [u8; 32])
    requires
        password@.len() <= 0xffff_ffff,
        8 <= salt@.len() <= 0xffff_ffff,
        1 <= lanes <= 0xff_ffff,
        8 * lanes <= memory <= HASH_MEMORY,
        1 <= iterations,
    ensures
        key@ == argon2id(password@, salt@, memory, iterations, lanes),
{
    let params = Params::new(memory, iterations, lanes, Some(32)).unwrap();
    let argon = Argon2::new(Algorithm::Argon2id, Version::V0x13, params);
    let mut key: [u8; 32] = [0; 32];
    argon.hash_password_into(password, salt, &mut key).unwrap();
    key
}

/// Calls `Rng::gen` of the thread's random number generator for the bytes of a nonce. Nothing is
/// claimed of them.
#[verifier::external_body]
fn random_nonce() -> (nonce: [u8; 12]) {
    rand::thread_rng().gen()
}

/// Calls `ChaCha20::apply_keystream` on a new cipher, which combines each byte with the one that
/// the cipher has for its place, by exclusive or. The bounds are those outside of which the calls
/// panic.
#[verifier::external_body]
fn apply_keystream(key: &[u8; 32], nonce: &[u8], bytes: &mut Vec<u8>)
    requires
        nonce@.len() == 12,
        old(bytes)@.len() <= 0x3f_ffff_ffc0,
    ensures
        final(bytes)@ == Seq::new(
            old(bytes)@.len(),
            |i: int| old(bytes)@[i] ^ keystream_byte(key@, nonce@, i),
        ),
{
    let mut cipher = ChaCha20::new(Key::from_slice(key), Nonce::from_slice(nonce));
    cipher.apply_keystream(bytes);
}

/// Bytes combined with those that ChaCha20 has for their places, by exclusive or.
pub open spec fn enciphered(key: Seq<u8>, nonce: Seq<u8>, bytes: Seq<u8>) -> Seq<u8> {
    Seq::new(bytes.len(), |i: int| bytes[i] ^ keystream_byte(key, nonce, i))
}

/// The salt of all password hashes.
pub open spec fn salt() -> Seq<u8> {
    encode_utf8("vectorvectovectvecvev"@)
}

/// The key that a password stands for.
pub open spec fn password_key(password: Seq<char>) -> Seq<u8> {
    argon2id(encode_utf8(password), salt(), HASH_MEMORY, HASH_ITERATIONS, HASH_LANES)
}

/// What is stored for a text under a password, with the nonce that was drawn.
pub open spec fn sealed(input: Seq<char>, password: Seq<char>, nonce: Seq<u8>) -> Seq<char> {
    hex_text(nonce + enciphered(password_key(password), nonce, encode_utf8(input)))
}

/// The bytes that come out of what is stored, under a password.
pub open spec fn opened(ciphertext: Seq<char>, password: Seq<char>) -> Seq<u8> {
    let bytes = hex_bytes(ciphertext);
    enciphered(
        password_key(password),
        bytes.take(NONCE_LENGTH as int),
        bytes.skip(NONCE_LENGTH as int),
    )
}

/// Whether a text can be what is stored: bytes in hexadecimal, at least as many as a nonce has.
pub open spec fn is_sealed(ciphertext: Seq<char>) -> bool {
    &&& is_hex(ciphertext)
    &&& ciphertext.len() >= 2 * NONCE_LENGTH
    &&& ciphertext.len() <= 2 * (NONCE_LENGTH + KEYSTREAM_LIMIT)
}

/// Enciphering twice gives the bytes back.
proof fn lemma_enciphered_twice(key: Seq<u8>, nonce: Seq<u8>, bytes: Seq<u8>)
    ensures
        enciphered(key, nonce, enciphered(key, nonce, bytes)) == bytes,
{
    assert forall|i: int| 0 <= i < bytes.len() implies #[trigger] enciphered(
        key,
        nonce,
        enciphered(key, nonce, bytes),
    )[i] == bytes[i] by {
        let a: u8 = bytes[i];
        let b: u8 = keystream_byte(key, nonce, i);
        assert((a ^ b) ^ b == a) by (bit_vector);
    }
    assert(enciphered(key, nonce, enciphered(key, nonce, bytes)) =~= bytes);
}

/// What is stored for a text begins with the nonce, and the enciphered text follows, byte for
/// byte.
pub proof fn sealed_format(input: Seq<char>, password: Seq<char>, nonce: Seq<u8>)
    requires
        nonce.len() == NONCE_LENGTH,
    ensures
        sealed(input, password, nonce).len() == 2 * (NONCE_LENGTH + encode_utf8(input).len()),
        hex_bytes(sealed(input, password, nonce)).take(NONCE_LENGTH as int) == nonce,
        hex_bytes(sealed(input, password, nonce)).skip(NONCE_LENGTH as int) == enciphered(
            password_key(password),
            nonce,
            encode_utf8(input),
        ),
{
    let payload = enciphered(password_key(password), nonce, encode_utf8(input));
    hex_round_trip(nonce + payload);
    assert((nonce + payload).take(NONCE_LENGTH as int) =~= nonce);
    assert((nonce + payload).skip(NONCE_LENGTH as int) =~= payload);
}

/// A text that was enciphered under a password comes back under the same password, whatever
/// nonce was drawn.
pub proof fn decrypt_gives_back(input: Seq<char>, password: Seq<char>, nonce: Seq<u8>)
    requires
        nonce.len() == NONCE_LENGTH,
        encode_utf8(input).len() <= KEYSTREAM_LIMIT,
    ensures
        is_sealed(sealed(input, password, nonce)),
        valid_utf8(opened(sealed(input, password, nonce), password)),
        decode_utf8(opened(sealed(input, password, nonce), password)) == input,
{
    let bytes = encode_utf8(input);
    let key = password_key(password);
    sealed_format(input, password, nonce);
    hex_round_trip(nonce + enciphered(key, nonce, bytes));
    lemma_enciphered_twice(key, nonce, bytes);
    assert(opened(sealed(input, password, nonce), password) == bytes);
    vstd::utf8::encode_utf8_valid_utf8(input);
    vstd::utf8::encode_utf8_decode_utf8(input);
}

/// A text that was enciphered with one nonce differs from the same text with another.
pub proof fn nonces_show(
    input: Seq<char>,
    password: Seq<char>,
    nonce: Seq<u8>,
    other_nonce: Seq<u8>,
)
    requires
        nonce.len() == NONCE_LENGTH,
        other_nonce.len() == NONCE_LENGTH,
        nonce != other_nonce,
    ensures
        sealed(input, password, nonce) != sealed(input, password, other_nonce),
{
    sealed_format(input, password, nonce);
    sealed_format(input, password, other_nonce);
}

/// Tells whether a text can be what is stored.
pub fn can_decrypt(ciphertext: &str) -> (res: bool)
    ensures
        res == is_sealed(ciphertext@),
{
    match try_hex_string_to_bytes(ciphertext) {
        Some(bytes) => bytes.len() >= NONCE_LENGTH && (bytes.len() - NONCE_LENGTH) as u64
            <= KEYSTREAM_LIMIT,
        None => false,
    }
}

/// Stretches a password to a key.
pub fn hash_pass(password: String) -> (key: [u8; 32])
    requires
        encode_utf8(password@).len() <= PASSWORD_LIMIT,
    ensures
        key@ == password_key(password@),
{
    let salt = "vectorvectovectvecvev";
    proof {
        reveal_strlit("vectorvectovectvecvev");
        vstd::utf8::is_ascii_chars_encode_utf8(salt@);
    }
    hash_password(
        password.as_str().as_bytes(),
        salt.as_bytes(),
        HASH_MEMORY,
        HASH_ITERATIONS,
        HASH_LANES,
    )
}

/// Writes a nonce, and enciphered bytes behind it, in hexadecimal.
pub fn join_nonce(nonce: &[u8; 12], mut payload: Vec<u8>) -> (ciphertext: String)
    ensures
        ciphertext@ == hex_text(nonce@ + payload@),
{
    let mut buffer: Vec<u8> = vstd::slice::slice_to_vec(nonce.as_slice());
    buffer.append(&mut payload);
    bytes_to_hex_string(buffer.as_slice())
}

/// Reads a nonce, and the enciphered bytes behind it.
pub fn split_nonce(ciphertext: &str) -> (parts: (Vec<u8>, Vec<u8>))
    requires
        is_sealed(ciphertext@),
    ensures
        parts.0@ == hex_bytes(ciphertext@).take(NONCE_LENGTH as int),
        parts.1@ == hex_bytes(ciphertext@).skip(NONCE_LENGTH as int),
{
    let mut nonce = hex_string_to_bytes(ciphertext);
    let payload = nonce.split_off(NONCE_LENGTH);
    assert(nonce@ =~= hex_bytes(ciphertext@).take(NONCE_LENGTH as int));
    assert(payload@ =~= hex_bytes(ciphertext@).skip(NONCE_LENGTH as int));
    (nonce, payload)
}

/// Enciphers a text under a password and a nonce.
pub fn encrypt_with_nonce(input: String, password: String, nonce: [u8; 12]) -> (ciphertext: String)
    requires
        encode_utf8(password@).len() <= PASSWORD_LIMIT,
        encode_utf8(input@).len() <= KEYSTREAM_LIMIT,
    ensures
        ciphertext@ == sealed(input@, password@, nonce@),
{
    let key = hash_pass(password);
    let mut payload = string_to_bytes(input.as_str());
    apply_keystream(&key, nonce.as_slice(), &mut payload);
    assert(payload@ =~= enciphered(key@, nonce@, encode_utf8(input@)));
    join_nonce(&nonce, payload)
}

/// Enciphers a text under a password.
pub fn encrypt(input: String, password: String) -> (ciphertext: String)
    requires
        encode_utf8(password@).len() <= PASSWORD_LIMIT,
        encode_utf8(input@).len() <= KEYSTREAM_LIMIT,
    ensures
        exists|nonce: Seq<u8>|
            nonce.len() == NONCE_LENGTH && ciphertext@ == #[trigger] sealed(
                input@,
                password@,
                nonce,
            ),
{
    let nonce = random_nonce();
    encrypt_with_nonce(input, password, nonce)
}

/// Deciphers what is stored, with a password. A wrong password gives another text, or bytes that
/// are none.
pub fn decrypt(ciphertext: String, password: String) -> (text: Result<String, ()>)
    requires
        is_sealed(ciphertext@),
        encode_utf8(password@).len() <= PASSWORD_LIMIT,
    ensures
        match text {
            Ok(text) => valid_utf8(opened(ciphertext@, password@)) && text@ == decode_utf8(
                opened(ciphertext@, password@),
            ),
            Err(_) => !valid_utf8(opened(ciphertext@, password@)),
        },
{
    let key = hash_pass(password);
    let (nonce, mut payload) = split_nonce(ciphertext.as_str());
    apply_keystream(&key, nonce.as_slice(), &mut payload);
    assert(payload@ =~= opened(ciphertext@, password@));
    let text = string_from_utf8(payload);
    proof {
        if text is Ok {
            vstd::utf8::encode_utf8_decode_utf8(text->Ok_0@);
        }
    }
    text
}

} // verus!
