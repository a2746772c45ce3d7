use vector::hex::bytes_to_hex_string;
use vector::secrets::{
    can_decrypt, decrypt, encrypt, encrypt_with_nonce, hash_pass, join_nonce, split_nonce,
};

const NONCE: [u8; 12] = [0, 1, 2, 3, 4, 5, 6, 7, 8, 9, 10, 11];
const SEALED: &str = "000102030405060708090a0bbbb0dcf1ec94ae2fb06859ecf6fbabaa40";

#[test]
fn a_password_is_stretched_to_a_key() {
    assert_eq!(
        bytes_to_hex_string(&hash_pass("1234".to_string())),
        "c3f18de68a16e872e67a293014147819736150521b2f803b23c8145a67834ace"
    );
}

#[test]
fn a_text_is_enciphered_behind_its_nonce() {
    let sealed = encrypt_with_nonce("Hello, Vector! é".to_string(), "1234".to_string(), NONCE);
    assert_eq!(sealed, SEALED);
}

#[test]
fn a_text_is_deciphered() {
    assert_eq!(
        decrypt(SEALED.to_string(), "1234".to_string()),
        Ok("Hello, Vector! é".to_string())
    );
}

#[test]
fn a_wrong_password_gives_no_text_here() {
    assert_eq!(decrypt(SEALED.to_string(), "4321".to_string()), Err(()));
}

#[test]
fn what_is_enciphered_comes_back() {
    let sealed = encrypt("a secret".to_string(), "pass".to_string());
    assert_eq!(sealed.len(), 2 * (12 + 8));
    assert!(can_decrypt(&sealed));
    assert_eq!(decrypt(sealed, "pass".to_string()), Ok("a secret".to_string()));
}

#[test]
fn a_nonce_is_drawn_for_each_text() {
    let a = encrypt("".to_string(), "".to_string());
    let b = encrypt("".to_string(), "".to_string());
    assert_eq!(a.len(), 24);
    assert_ne!(a, b);
}

#[test]
fn an_empty_text_comes_back() {
    assert_eq!(decrypt("00".repeat(12), "x".to_string()), Ok(String::new()));
}

#[test]
fn only_hex_with_a_nonce_can_be_deciphered() {
    assert!(can_decrypt(SEALED));
    assert!(can_decrypt(&"00".repeat(12)));
    assert!(!can_decrypt(&"00".repeat(11)));
    assert!(!can_decrypt(&"0".repeat(25)));
    assert!(!can_decrypt(&"zz".repeat(12)));
    assert!(!can_decrypt(""));
}

#[test]
fn nonce_and_payload_are_joined_and_split() {
    let text = join_nonce(&NONCE, vec![0xfe, 0xff]);
    assert_eq!(text, "000102030405060708090a0bfeff");
    let (nonce, payload) = split_nonce(&text);
    assert_eq!(nonce, NONCE.to_vec());
    assert_eq!(payload, vec![0xfe, 0xff]);
}
