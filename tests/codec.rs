use hexify::codec::{
    hex_to_bytes, hex_to_text, text_to_hex, INVALID_HEX_ERROR, ODD_LENGTH_ERROR,
};

#[test]
fn encode_hello() {
    assert_eq!(text_to_hex("Hello"), "48656c6c6f");
}

#[test]
fn encode_empty() {
    assert_eq!(text_to_hex(""), "");
}

#[test]
fn encode_pads_small_bytes() {
    assert_eq!(text_to_hex("\n"), "0a");
    assert_eq!(text_to_hex("\0"), "00");
}

#[test]
fn encode_uses_lowercase_digits() {
    let hex = text_to_hex("~\u{7f}?Z");
    assert_eq!(hex, "7e7f3f5a");
    assert!(hex.chars().all(|c| c.is_ascii_digit() || ('a'..='f').contains(&c)));
}

#[test]
fn encode_length_counts_bytes() {
    let hex = text_to_hex("é€😀");
    assert_eq!(hex, "c3a9e282acf09f9880");
    assert_eq!(hex.len(), 2 * "é€😀".len());
}

#[test]
fn decode_hello() {
    assert_eq!(hex_to_text("48656c6c6f"), Ok(String::from("Hello")));
}

#[test]
fn decode_empty() {
    assert_eq!(hex_to_text(""), Ok(String::new()));
}

#[test]
fn decode_uppercase_digits() {
    assert_eq!(hex_to_text("4A4b"), Ok(String::from("JK")));
}

#[test]
fn decode_odd_length() {
    assert_eq!(hex_to_text("a"), Err("Hex string must have an even length"));
    assert_eq!(hex_to_text("abc"), Err(ODD_LENGTH_ERROR));
}

#[test]
fn decode_invalid_digit() {
    assert_eq!(hex_to_text("zz"), Err("Invalid hex string"));
    assert_eq!(hex_to_text("4g"), Err(INVALID_HEX_ERROR));
    assert_eq!(hex_to_text("48656c6c6x"), Err(INVALID_HEX_ERROR));
}

#[test]
fn decode_sign_is_no_digit() {
    assert_eq!(hex_to_text("+a"), Err(INVALID_HEX_ERROR));
}

#[test]
fn decode_non_ascii_input() {
    // "é" is two bytes: an even length, but not hex digits.
    assert_eq!(hex_to_text("é"), Err(INVALID_HEX_ERROR));
    // "aé" is three bytes.
    assert_eq!(hex_to_text("aé"), Err(ODD_LENGTH_ERROR));
    assert_eq!(hex_to_text("aéb"), Err(INVALID_HEX_ERROR));
}

#[test]
fn decode_odd_length_comes_first() {
    assert_eq!(hex_to_text("zzz"), Err(ODD_LENGTH_ERROR));
}

#[test]
fn decode_lossy_replacement() {
    let text = hex_to_text("ff").unwrap();
    assert_eq!(text, "\u{FFFD}");
    let text = hex_to_text("48ff49").unwrap();
    assert_eq!(text, "H\u{FFFD}I");
}

#[test]
fn decode_multibyte() {
    assert_eq!(hex_to_text("c3a9e282ac"), Ok(String::from("é€")));
}

#[test]
fn bytes_of_hex() {
    assert_eq!(hex_to_bytes("00ff7F0a"), Ok(vec![0u8, 255, 127, 10]));
    assert_eq!(hex_to_bytes("0"), Err(ODD_LENGTH_ERROR));
    assert_eq!(hex_to_bytes("0x"), Err(INVALID_HEX_ERROR));
}

#[test]
fn round_trip_printable_ascii() {
    let text: String = (32u8..127).map(|b| b as char).collect();
    assert_eq!(hex_to_text(&text_to_hex(&text)), Ok(text.clone()));
}

#[test]
fn round_trip_unicode() {
    let text = "naïve — 日本語 😀";
    assert_eq!(hex_to_text(&text_to_hex(text)), Ok(String::from(text)));
}
