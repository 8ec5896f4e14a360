//! Hexadecimal text, as the node and the command line carry byte strings.

use vstd::prelude::*;

verus! {

/// Why an input was rejected. Such an input is a configuration mistake: it
/// is reported at once and never retried.
#[derive(Clone, Copy, Debug, PartialEq, Eq, Structural)]
pub enum InputError {
    /// The text is not an even number of hexadecimal digits.
    MalformedHex,
    /// The text is not a 32-bit number in hexadecimal.
    InvalidBits,
}

/// `hex::FromHexError`, the error of `hex::decode`. Nothing of what it holds
/// is looked at.
#[verifier::external_type_specification]
#[verifier::external_body]
pub struct ExFromHexError(hex::FromHexError);

/// The bytes of a text: its UTF-8 encoding, which for text in ASCII is one
/// byte for each character.
pub open spec fn text_bytes(text: Seq<char>) -> Seq<u8> {
    vstd::utf8::encode_utf8(text)
}

/// Whether `c` is one of `0-9`, `A-F`, `a-f`.
pub open spec fn is_hex_digit(c: u8) -> bool {
    (0x30 <= c <= 0x39) || (0x41 <= c <= 0x46) || (0x61 <= c <= 0x66)
}

/// The number that a hexadecimal digit stands for.
pub open spec fn hex_digit_value(c: u8) -> nat {
    if 0x30 <= c <= 0x39 {
        (c - 0x30) as nat
    } else if 0x41 <= c <= 0x46 {
        (c - 0x41 + 10) as nat
    } else {
        (c - 0x61 + 10) as nat
    }
}

/// Whether `text` is an even number of hexadecimal digits.
pub open spec fn is_hex_text(text: Seq<u8>) -> bool {
    text.len() % 2 == 0 && forall|i: int| 0 <= i < text.len() ==> is_hex_digit(#[trigger] text[i])
}

/// The bytes that hexadecimal text spells, two digits to a byte, the high
/// digit first.
pub open spec fn hex_decoded(text: Seq<u8>) -> Seq<u8> {
    Seq::new(
        text.len() / 2,
        |i: int| (16 * hex_digit_value(text[2 * i]) + hex_digit_value(text[2 * i + 1])) as u8,
    )
}

/// The lower-case digit for a number below sixteen.
pub open spec fn hex_digit(n: int) -> char {
    seq!['0', '1', '2', '3', '4', '5', '6', '7', '8', '9', 'a', 'b', 'c', 'd', 'e', 'f'][n]
}

/// The lower-case hexadecimal text of `data`, two digits to a byte.
pub open spec fn hex_encoded(data: Seq<u8>) -> Seq<char> {
    Seq::new(
        2 * data.len(),
        |i: int|
            if i % 2 == 0 {
                hex_digit(data[i / 2] as int / 16)
            } else {
                hex_digit(data[i / 2] as int % 16)
            },
    )
}

/// `hex::decode` on the bytes of `text`. It succeeds exactly on an even
/// number of digits `0-9`, `a-f`, `A-F`, and then gives one byte for each
/// pair, the first digit of a pair being the high half.
#[verifier::external_body]
pub(crate) fn hex_decode(text: &str) -> (r: Result<Vec<u8>, hex::FromHexError>)
    ensures
        r is Ok <==> is_hex_text(text_bytes(text@)),
        r is Ok ==> r->Ok_0@ == hex_decoded(text_bytes(text@)),
{
    hex::decode(text)
}

/// `hex::encode`: two lower-case digits for each byte, the high half first.
#[verifier::external_body]
pub(crate) fn hex_encode(data: &[u8]) -> (r: String)
    ensures
        r@ == hex_encoded(data@),
{
    hex::encode(data)
}

/// The bytes that `text` spells in hexadecimal; `MalformedHex` when it is
/// not an even number of hexadecimal digits.
pub fn hex_to_bytes(text: &str) -> (r: Result<Vec<u8>, InputError>)
    ensures
        r is Ok <==> is_hex_text(text_bytes(text@)),
        r is Ok ==> r->Ok_0@ == hex_decoded(text_bytes(text@)),
        r is Err ==> r->Err_0 == InputError::MalformedHex,
{
    match hex_decode(text) {
        Ok(bytes) => Ok(bytes),
        Err(_) => Err(InputError::MalformedHex),
    }
}

/// The lower-case hexadecimal text of `data`.
pub fn bytes_to_hex(data: &[u8]) -> (r: String)
    ensures
        r@ == hex_encoded(data@),
{
    hex_encode(data)
}

/// Each lower-case digit is a hexadecimal digit in ASCII, and stands for the
/// number it was made for.
pub proof fn lemma_hex_digit(n: int)
    requires
        0 <= n < 16,
    ensures
        hex_digit(n) <= '\u{7f}',
        is_hex_digit(hex_digit(n) as u8),
        hex_digit_value(hex_digit(n) as u8) == n,
{
    let digits = seq![
        '0',
        '1',
        '2',
        '3',
        '4',
        '5',
        '6',
        '7',
        '8',
        '9',
        'a',
        'b',
        'c',
        'd',
        'e',
        'f',
    ];
    assert(digits[0] == '0' && digits[1] == '1' && digits[2] == '2' && digits[3] == '3');
    assert(digits[4] == '4' && digits[5] == '5' && digits[6] == '6' && digits[7] == '7');
    assert(digits[8] == '8' && digits[9] == '9' && digits[10] == 'a' && digits[11] == 'b');
    assert(digits[12] == 'c' && digits[13] == 'd' && digits[14] == 'e' && digits[15] == 'f');
}

/// Encoding and decoding undo each other: the hexadecimal text of a byte
/// string is hexadecimal text, and spells that byte string.
pub proof fn lemma_hex_round_trip(data: Seq<u8>)
    ensures
        is_hex_text(text_bytes(hex_encoded(data))),
        hex_decoded(text_bytes(hex_encoded(data))) == data,
{
    let text = hex_encoded(data);
    assert forall|i: int| 0 <= i < text.len() implies '\0' <= #[trigger] text[i] <= '\u{7f}' by {
        if i % 2 == 0 {
            lemma_hex_digit(data[i / 2] as int / 16);
        } else {
            lemma_hex_digit(data[i / 2] as int % 16);
        }
    }
    assert(vstd::utf8::is_ascii_chars(text));
    vstd::utf8::is_ascii_chars_encode_utf8(text);
    let bytes = text_bytes(text);
    assert(bytes.len() == 2 * data.len());
    assert forall|i: int| 0 <= i < bytes.len() implies is_hex_digit(#[trigger] bytes[i]) by {
        assert(bytes[i] == text[i] as u8);
        if i % 2 == 0 {
            lemma_hex_digit(data[i / 2] as int / 16);
        } else {
            lemma_hex_digit(data[i / 2] as int % 16);
        }
    }
    let decoded = hex_decoded(bytes);
    assert forall|k: int| 0 <= k < data.len() implies decoded[k] == data[k] by {
        assert(bytes[2 * k] == text[2 * k] as u8);
        assert(bytes[2 * k + 1] == text[2 * k + 1] as u8);
        assert((2 * k) / 2 == k && (2 * k + 1) / 2 == k);
        lemma_hex_digit(data[k] as int / 16);
        lemma_hex_digit(data[k] as int % 16);
    }
    assert(decoded =~= data);
}

} // verus!
