use vector::hex::{
    bytes_to_hex_string, event_id_from_hex, hex_string_to_bytes, string_to_bytes,
    try_hex_string_to_bytes,
};
use vector::text::{ascii_text, chars_of, decimal, parse_number, same_text, starts_with};

#[test]
fn bytes_are_written_in_lower_case() {
    assert_eq!(bytes_to_hex_string(&[0x00, 0x0f, 0xa9, 0xff]), "000fa9ff");
    assert_eq!(bytes_to_hex_string(&[]), "");
}

#[test]
fn hex_is_read_in_either_case() {
    assert_eq!(hex_string_to_bytes("000fA9fF"), vec![0x00, 0x0f, 0xa9, 0xff]);
    assert_eq!(hex_string_to_bytes(""), Vec::<u8>::new());
}

#[test]
fn all_bytes_come_back_from_hex() {
    let bytes: Vec<u8> = (0..=255).collect();
    assert_eq!(hex_string_to_bytes(&bytes_to_hex_string(&bytes)), bytes);
}

#[test]
fn a_plus_sign_may_stand_for_the_first_digit() {
    assert_eq!(try_hex_string_to_bytes("+a"), Some(vec![10]));
    assert_eq!(try_hex_string_to_bytes("a+"), None);
    assert_eq!(try_hex_string_to_bytes("++"), None);
    assert_eq!(try_hex_string_to_bytes("-1"), None);
}

#[test]
fn other_texts_are_no_hex() {
    assert_eq!(try_hex_string_to_bytes("abc"), None);
    assert_eq!(try_hex_string_to_bytes("0g"), None);
    assert_eq!(try_hex_string_to_bytes("é"), None);
    assert_eq!(try_hex_string_to_bytes("éé"), None);
    assert_eq!(try_hex_string_to_bytes(" 1"), None);
}

#[test]
fn strings_become_utf8() {
    assert_eq!(string_to_bytes("aé"), vec![0x61, 0xc3, 0xa9]);
}

#[test]
fn event_ids_have_64_digits() {
    let text = "0123456789abcdef".repeat(4);
    let id = event_id_from_hex(&text).unwrap();
    assert_eq!(id[0], 0x01);
    assert_eq!(id[7], 0xef);
    assert_eq!(id[31], 0xef);
    assert_eq!(event_id_from_hex(&text.to_uppercase()), Some(id));
    assert_eq!(bytes_to_hex_string(&id), text);
    assert_eq!(event_id_from_hex(&text[..62]), None);
    assert_eq!(event_id_from_hex(&text.replace("f", "g")), None);
    assert_eq!(event_id_from_hex(&text.replace("01", "+1")), None);
    assert_eq!(event_id_from_hex(""), None);
}

#[test]
fn numbers_are_written_in_decimal() {
    assert_eq!(decimal(0), "0");
    assert_eq!(decimal(7), "7");
    assert_eq!(decimal(10), "10");
    assert_eq!(decimal(1700000030), "1700000030");
    assert_eq!(decimal(u64::MAX as u128), "18446744073709551615");
    assert_eq!(decimal(u128::MAX), "340282366920938463463374607431768211455");
}

#[test]
fn numbers_come_back_from_decimal() {
    for n in [0, 9, 10, 99, 1700000030, u64::MAX - 1, u64::MAX] {
        assert_eq!(parse_number(&decimal(n as u128)), Some(n));
    }
}

#[test]
fn numbers_are_read_like_the_standard_library_reads_them() {
    for text in [
        "", "+", "-", "+5", "-5", "++5", "5+", " 5", "5 ", "007", "1e3", "٣", "0x10",
        "18446744073709551615", "18446744073709551616", "99999999999999999999",
        "+18446744073709551615", "00000000000000000000000000000001",
    ] {
        assert_eq!(parse_number(text), text.parse::<u64>().ok(), "{}", text);
    }
}

#[test]
fn prefixes_are_recognised() {
    assert!(starts_with("nsec1abc", "nsec"));
    assert!(starts_with("nsec", "nsec"));
    assert!(starts_with("anything", ""));
    assert!(!starts_with("nse", "nsec"));
    assert!(!starts_with("Nsec1abc", "nsec"));
    assert!(!starts_with(" nsec1abc", "nsec"));
}

#[test]
fn texts_are_compared_and_taken_apart() {
    assert!(same_text("typing", "typing"));
    assert!(!same_text("typing", "typing "));
    assert_eq!(chars_of("aé😀"), vec!['a', 'é', '😀']);
    assert_eq!(ascii_text(vec![72, 105]), "Hi");
}
