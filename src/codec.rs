//! Hexadecimal encoding of text and decoding of hex strings back to text.
use vstd::prelude::*;
use vstd::string::*;
use vstd::utf8::*;

use crate::strings::push_char;

verus! {

broadcast use vstd::utf8::group_utf8_lib;

/// The lowercase hex digit character for a value below sixteen.
pub open spec fn digit_char(v: u8) -> char
    recommends
        v < 16,
{
    if v < 10 {
        ((v + 48) as u8) as char
    } else {
        ((v + 87) as u8) as char
    }
}

/// True for the characters `0-9` and `a-f`.
pub open spec fn is_lower_hex_char(c: char) -> bool {
    ('0' <= c && c <= '9') || ('a' <= c && c <= 'f')
}

/// The lowercase hex form of a byte sequence: two digits per byte, high
/// nibble first, in the order of the bytes.
pub open spec fn hex_of(bytes: Seq<u8>) -> Seq<char>
    decreases bytes.len(),
{
    if bytes.len() == 0 {
        Seq::empty()
    } else {
        let b = bytes.last();
        hex_of(bytes.drop_last()).push(digit_char(b / 16)).push(digit_char(b % 16))
    }
}

fn digit_char_exec(v: u8) -> (c: char)
    requires
        v < 16,
    ensures
        c == digit_char(v),
{
    if v < 10 {
        (v + 48) as char
    } else {
        (v + 87) as char
    }
}

/// Encodes the UTF-8 bytes of `text` as lowercase hex, two digits per byte.
pub fn text_to_hex(text: &str) -> (r: String)
    ensures
        r@ == hex_of(text.spec_bytes()),
        r@.len() == 2 * text.spec_bytes().len(),
        forall|i: int| 0 <= i < r@.len() ==> is_lower_hex_char(#[trigger] r@[i]),
{
    let bytes = text.as_bytes();
    let mut out = String::new();
    let mut i: usize = 0;
    while i < bytes.len()
        invariant
            bytes@ == text.spec_bytes(),
            0 <= i <= bytes@.len(),
            out@ == hex_of(bytes@.subrange(0, i as int)),
        decreases bytes@.len() - i,
    {
        let b = bytes[i];
        push_char(&mut out, digit_char_exec(b / 16));
        push_char(&mut out, digit_char_exec(b % 16));
        assert(bytes@.subrange(0, i + 1).drop_last() =~= bytes@.subrange(0, i as int));
        i += 1;
    }
    assert(bytes@.subrange(0, i as int) =~= bytes@);
    proof {
        lemma_hex_of_shape(bytes@);
    }
    out
}

/// The hex form has two lowercase hex digits per byte.
pub proof fn lemma_hex_of_shape(bytes: Seq<u8>)
    ensures
        hex_of(bytes).len() == 2 * bytes.len(),
        forall|i: int| 0 <= i < hex_of(bytes).len() ==> is_lower_hex_char(#[trigger] hex_of(bytes)[i]),
    decreases bytes.len(),
{
    if bytes.len() > 0 {
        lemma_hex_of_shape(bytes.drop_last());
        let b = bytes.last();
        assert(is_lower_hex_char(digit_char(b / 16)));
        assert(is_lower_hex_char(digit_char(b % 16)));
    }
}

/// Message of the error for a hex string of odd byte length.
pub const ODD_LENGTH_ERROR: &'static str = "Hex string must have an even length";

/// Message of the error for a hex string holding a byte that is no hex digit.
pub const INVALID_HEX_ERROR: &'static str = "Invalid hex string";

/// The value of a hex digit byte (`0-9`, `a-f`, `A-F`), or `None`.
pub open spec fn hex_value(b: u8) -> Option<u8> {
    if 48 <= b <= 57 {
        Some((b - 48) as u8)
    } else if 97 <= b <= 102 {
        Some((b - 87) as u8)
    } else if 65 <= b <= 70 {
        Some((b - 55) as u8)
    } else {
        None
    }
}

/// True when every byte is a hex digit.
pub open spec fn all_hex_digits(h: Seq<u8>) -> bool {
    forall|i: int| 0 <= i < h.len() ==> (#[trigger] hex_value(h[i])) is Some
}

/// True when the bytes are a well-formed hex string: even length, digits only.
pub open spec fn is_hex(h: Seq<u8>) -> bool {
    h.len() % 2 == 0 && all_hex_digits(h)
}

/// The byte that two hex digits stand for, high digit first.
pub open spec fn pair_value(hi: u8, lo: u8) -> u8 {
    (16 * hex_value(hi)->Some_0 + hex_value(lo)->Some_0) as u8
}

/// The bytes that a well-formed hex string stands for, one per pair of digits.
pub open spec fn decode_hex(h: Seq<u8>) -> Seq<u8>
    decreases h.len(),
{
    if h.len() < 2 {
        Seq::empty()
    } else {
        decode_hex(h.subrange(0, h.len() - 2)).push(pair_value(h[h.len() - 2], h[h.len() - 1]))
    }
}

fn hex_value_exec(b: u8) -> (r: Option<u8>)
    ensures
        r == hex_value(b),
{
    if 48 <= b && b <= 57 {
        Some(b - 48)
    } else if 97 <= b && b <= 102 {
        Some(b - 87)
    } else if 65 <= b && b <= 70 {
        Some(b - 55)
    } else {
        None
    }
}

/// Parses a hex string into the bytes it stands for. A string of odd byte
/// length is refused first; then one holding a byte that is no hex digit.
pub fn hex_to_bytes(hex: &str) -> (r: Result<Vec<u8>, &'static str>)
    ensures
        hex.spec_bytes().len() % 2 == 1 ==> r == Err::<Vec<u8>, &'static str>(ODD_LENGTH_ERROR),
        hex.spec_bytes().len() % 2 == 0 && !all_hex_digits(hex.spec_bytes()) ==> r == Err::<
            Vec<u8>,
            &'static str,
        >(INVALID_HEX_ERROR),
        is_hex(hex.spec_bytes()) ==> r is Ok && r->Ok_0@ == decode_hex(hex.spec_bytes()),
{
    let h = hex.as_bytes();
    if h.len() % 2 != 0 {
        return Err(ODD_LENGTH_ERROR);
    }
    let mut out: Vec<u8> = Vec::new();
    let mut i: usize = 0;
    while i < h.len()
        invariant
            h@ == hex.spec_bytes(),
            h@.len() % 2 == 0,
            i % 2 == 0,
            0 <= i <= h@.len(),
            all_hex_digits(h@.subrange(0, i as int)),
            out@ == decode_hex(h@.subrange(0, i as int)),
        decreases h@.len() - i,
    {
        let hi = hex_value_exec(h[i]);
        let lo = hex_value_exec(h[i + 1]);
        match (hi, lo) {
            (Some(a), Some(b)) => {
                out.push(16 * a + b);
                let ghost next = h@.subrange(0, i + 2);
                assert(next.subrange(0, i as int) =~= h@.subrange(0, i as int));
                assert(all_hex_digits(next)) by {
                    assert forall|k: int| 0 <= k < next.len() implies (#[trigger] hex_value(
                        next[k],
                    )) is Some by {
                        if k < i {
                            assert(next[k] == h@.subrange(0, i as int)[k]);
                        }
                    }
                }
            },
            _ => {
                proof {
                    if hi is None {
                        assert(hex_value(h@[i as int]) is None);
                    } else {
                        assert(hex_value(h@[i + 1]) is None);
                    }
                }
                return Err(INVALID_HEX_ERROR);
            },
        }
        i += 2;
    }
    assert(h@.subrange(0, i as int) =~= h@);
    Ok(out)
}

/// The text that `String::from_utf8_lossy` makes of a byte sequence.
pub uninterp spec fn lossy_text_of(bytes: Seq<u8>) -> Seq<char>;

/// The Unicode replacement character, U+FFFD.
pub open spec fn replacement_char() -> char {
    '\u{FFFD}'
}

/// Relies on String::from_utf8_lossy: valid UTF-8 is decoded as it stands, and
/// each invalid sequence is replaced by U+FFFD.
#[verifier::external_body]
fn utf8_lossy(bytes: &[u8]) -> (r: String)
    ensures
        r@ == lossy_text_of(bytes@),
        valid_utf8(bytes@) ==> r@ == decode_utf8(bytes@),
        !valid_utf8(bytes@) ==> r@.contains(replacement_char()),
{
    String::from_utf8_lossy(bytes).into_owned()
}

/// Decodes a hex string to text: the bytes it stands for are read as UTF-8,
/// with U+FFFD in place of each invalid sequence. Fails on an odd byte length
/// first, then on a byte that is no hex digit.
pub fn hex_to_text(hex: &str) -> (r: Result<String, &'static str>)
    ensures
        hex.spec_bytes().len() % 2 == 1 ==> r == Err::<String, &'static str>(ODD_LENGTH_ERROR),
        hex.spec_bytes().len() % 2 == 0 && !all_hex_digits(hex.spec_bytes()) ==> r == Err::<
            String,
            &'static str,
        >(INVALID_HEX_ERROR),
        is_hex(hex.spec_bytes()) ==> r is Ok && r->Ok_0@ == lossy_text_of(
            decode_hex(hex.spec_bytes()),
        ),
        is_hex(hex.spec_bytes()) && valid_utf8(decode_hex(hex.spec_bytes())) ==> r is Ok
            && r->Ok_0@ == decode_utf8(decode_hex(hex.spec_bytes())),
        is_hex(hex.spec_bytes()) && !valid_utf8(decode_hex(hex.spec_bytes())) ==> r is Ok
            && r->Ok_0@.contains(replacement_char()),
{
    match hex_to_bytes(hex) {
        Ok(bytes) => Ok(utf8_lossy(bytes.as_slice())),
        Err(e) => Err(e),
    }
}

/// The bytes of an ASCII character sequence, one per character.
pub open spec fn ascii_bytes(cs: Seq<char>) -> Seq<u8> {
    Seq::new(cs.len(), |i: int| cs[i] as u8)
}

proof fn lemma_digit_char_value(v: u8)
    requires
        v < 16,
    ensures
        hex_value(digit_char(v) as u8) == Some(v),
{
}

proof fn lemma_hex_of_decodes(bytes: Seq<u8>)
    ensures
        all_hex_digits(ascii_bytes(hex_of(bytes))),
        decode_hex(ascii_bytes(hex_of(bytes))) == bytes,
    decreases bytes.len(),
{
    let a = ascii_bytes(hex_of(bytes));
    lemma_hex_of_shape(bytes);
    if bytes.len() > 0 {
        let rest = bytes.drop_last();
        let b = bytes.last();
        lemma_hex_of_decodes(rest);
        lemma_hex_of_shape(rest);
        lemma_digit_char_value(b / 16);
        lemma_digit_char_value(b % 16);
        assert(a.subrange(0, a.len() - 2) =~= ascii_bytes(hex_of(rest)));
        assert(pair_value(a[a.len() - 2], a[a.len() - 1]) == b);
        assert(decode_hex(a) =~= bytes);
        assert forall|i: int| 0 <= i < a.len() implies (#[trigger] hex_value(a[i])) is Some by {
            if i < a.len() - 2 {
                assert(a[i] == ascii_bytes(hex_of(rest))[i]);
            }
        }
    }
}

/// Decoding the hex form of any text gives the text back: the hex form of
/// its UTF-8 bytes is a well-formed hex string, it stands for exactly those
/// bytes, and they are valid UTF-8 that decodes to the text.
pub proof fn lemma_round_trip(text: Seq<char>)
    ensures
        is_hex(encode_utf8(hex_of(encode_utf8(text)))),
        decode_hex(encode_utf8(hex_of(encode_utf8(text)))) == encode_utf8(text),
        valid_utf8(decode_hex(encode_utf8(hex_of(encode_utf8(text))))),
        decode_utf8(decode_hex(encode_utf8(hex_of(encode_utf8(text))))) == text,
{
    let bytes = encode_utf8(text);
    let h = hex_of(bytes);
    lemma_hex_of_shape(bytes);
    assert(is_ascii_chars(h)) by {
        assert forall|i: int| 0 <= i < h.len() implies '\0' <= #[trigger] h[i] <= '\u{7f}' by {
            assert(is_lower_hex_char(h[i]));
        }
    }
    is_ascii_chars_encode_utf8(h);
    assert(encode_utf8(h) =~= ascii_bytes(h));
    lemma_hex_of_decodes(bytes);
}

} // verus!
