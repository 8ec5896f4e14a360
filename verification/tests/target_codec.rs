use num_bigint::BigUint;
use xenom_miner::hexcode::{bytes_to_hex, hex_to_bytes, InputError};
use xenom_miner::target::{
    compact_bits_to_target, decode_explicit, parse_bits_hex, resolve_target, Target,
    FALLBACK_COEFFICIENT,
};

fn oracle(bits: u32) -> [u8; 32] {
    let exponent = (bits >> 24) as i32;
    let mut coefficient = bits & 0x00ff_ffff;
    if coefficient == 0 {
        coefficient = 0x00ffff;
    }
    let coeff = BigUint::from(coefficient);
    let base = BigUint::from(256u32);
    let value = if exponent >= 3 {
        coeff * base.pow((exponent - 3) as u32)
    } else {
        coeff / base.pow((3 - exponent) as u32)
    };
    let bytes = value.to_bytes_be();
    let mut out = [0u8; 32];
    for (k, b) in bytes.iter().rev().take(32).enumerate() {
        out[31 - k] = *b;
    }
    out
}

#[test]
fn compact_bits_place_the_coefficient() {
    let t = compact_bits_to_target(0x1f00ffff);
    let mut expected = [0u8; 32];
    expected[2] = 0xff;
    expected[3] = 0xff;
    assert_eq!(t.bytes, expected);
}

#[test]
fn compact_bits_of_bitcoin_genesis() {
    let t = compact_bits_to_target(0x1d00ffff);
    assert_eq!(
        bytes_to_hex(&t.bytes),
        "00000000ffff0000000000000000000000000000000000000000000000000000"
    );
    assert_eq!(t.to_hex(), bytes_to_hex(&t.bytes));
}

#[test]
fn compact_bits_agree_with_big_integers() {
    let coefficients = [0u32, 1, 0xff, 0x100, 0xffff, 0x010001, 0x7fffff, 0x800000, 0xffffff];
    for exponent in 0u32..=255 {
        for c in coefficients {
            let bits = (exponent << 24) | c;
            assert_eq!(compact_bits_to_target(bits).bytes, oracle(bits), "bits {:08x}", bits);
        }
    }
}

#[test]
fn zero_coefficient_takes_the_fallback() {
    assert_eq!(FALLBACK_COEFFICIENT, 0x00ffff);
    assert_eq!(
        compact_bits_to_target(0x0400_0000).bytes,
        compact_bits_to_target(0x0400_ffff).bytes
    );
    let mut expected = [0u8; 32];
    expected[29] = 0xff;
    expected[30] = 0xff;
    assert_eq!(compact_bits_to_target(0x0400_0000).bytes, expected);
}

#[test]
fn small_exponents_divide_rounding_down() {
    let mut expected = [0u8; 32];
    expected[30] = 0x12;
    expected[31] = 0x34;
    assert_eq!(compact_bits_to_target(0x0212_3456).bytes, expected);
    let mut expected = [0u8; 32];
    expected[31] = 0x12;
    assert_eq!(compact_bits_to_target(0x0112_3456).bytes, expected);
    assert_eq!(compact_bits_to_target(0x0012_3456).bytes, [0u8; 32]);
}

#[test]
fn large_exponents_keep_the_low_256_bits() {
    let mut expected = [0u8; 32];
    expected[0] = 0x01;
    assert_eq!(compact_bits_to_target(0x2201_0001).bytes, expected);
    let mut expected = [0u8; 32];
    expected[0] = 0x56;
    assert_eq!(compact_bits_to_target(0x2212_3456).bytes, expected);
    let mut expected = [0u8; 32];
    expected[0] = 0x34;
    expected[1] = 0x56;
    assert_eq!(compact_bits_to_target(0x2112_3456).bytes, expected);
    assert_eq!(compact_bits_to_target(0x2312_3456).bytes, [0u8; 32]);
    assert_eq!(compact_bits_to_target(0xff12_3456).bytes, [0u8; 32]);
}

#[test]
fn larger_exponent_gives_larger_or_equal_target() {
    for c in [1u32, 0x80, 0xffff, 0x123456, 0xffffff] {
        let mut last = [0u8; 32];
        for exponent in 0u32..=32 {
            let t = compact_bits_to_target((exponent << 24) | c).bytes;
            assert!(t >= last, "coefficient {:06x} exponent {}", c, exponent);
            last = t;
        }
    }
}

#[test]
fn order_is_lost_once_the_number_is_cut() {
    let below = compact_bits_to_target(0x2000_0001);
    let above = compact_bits_to_target(0x2300_0001);
    assert!(above.bytes < below.bytes);
}

#[test]
fn hex_to_bytes_decodes_pairs() {
    assert_eq!(hex_to_bytes("0aFf10"), Ok(vec![0x0a, 0xff, 0x10]));
    assert_eq!(hex_to_bytes(""), Ok(vec![]));
    assert_eq!(hex_to_bytes("abc"), Err(InputError::MalformedHex));
    assert_eq!(hex_to_bytes("zz"), Err(InputError::MalformedHex));
    assert_eq!(hex_to_bytes("0x10"), Err(InputError::MalformedHex));
    assert_eq!(hex_to_bytes("é0"), Err(InputError::MalformedHex));
}

#[test]
fn bytes_to_hex_is_lower_case() {
    assert_eq!(bytes_to_hex(&[0x00, 0x0f, 0xa5, 0xff]), "000fa5ff");
    assert_eq!(bytes_to_hex(&[]), "");
    let all: Vec<u8> = (0u8..=255).collect();
    assert_eq!(hex_to_bytes(&bytes_to_hex(&all)), Ok(all));
}

#[test]
fn explicit_target_is_padded() {
    let t = decode_explicit("01ff").unwrap();
    let mut expected = [0u8; 32];
    expected[30] = 0x01;
    expected[31] = 0xff;
    assert_eq!(t.bytes, expected);
    assert_eq!(decode_explicit("").unwrap().bytes, [0u8; 32]);
}

#[test]
fn twenty_byte_target_gets_twelve_leading_zeros() {
    let text = "0102030405060708090a0b0c0d0e0f1011121314";
    let t = decode_explicit(text).unwrap();
    assert_eq!(&t.bytes[..12], &[0u8; 12]);
    assert_eq!(&t.bytes[12..], hex::decode(text).unwrap().as_slice());
}

#[test]
fn forty_byte_target_keeps_its_last_thirty_two() {
    let bytes: Vec<u8> = (1u8..=40).collect();
    let t = decode_explicit(&hex::encode(&bytes)).unwrap();
    assert_eq!(&t.bytes[..], &bytes[8..]);
    assert_eq!(Target::from_be_bytes(&bytes).bytes, t.bytes);
}

#[test]
fn thirty_two_byte_target_is_kept() {
    let bytes: Vec<u8> = (100u8..132).collect();
    assert_eq!(&Target::from_be_bytes(&bytes).bytes[..], &bytes[..]);
}

#[test]
fn explicit_target_rejects_malformed_hex() {
    assert_eq!(decode_explicit("abc").err(), Some(InputError::MalformedHex));
    assert_eq!(decode_explicit("gg").err(), Some(InputError::MalformedHex));
}

#[test]
fn largest_and_smallest_target() {
    assert_eq!(Target::max().bytes, [0xffu8; 32]);
    assert_eq!(Target::zero().bytes, [0u8; 32]);
}

#[test]
fn bits_text_is_read_as_hexadecimal() {
    assert_eq!(parse_bits_hex("1f00ffff"), Ok(0x1f00ffff));
    assert_eq!(parse_bits_hex("1F00FFFF"), Ok(0x1f00ffff));
    assert_eq!(parse_bits_hex("0"), Ok(0));
    assert_eq!(parse_bits_hex("ffffffff"), Ok(u32::MAX));
    assert_eq!(parse_bits_hex("+1d00ffff"), Ok(0x1d00ffff));
    assert_eq!(parse_bits_hex("00000000001d00ffff"), Ok(0x1d00ffff));
}

#[test]
fn bits_text_rejects_what_is_no_number() {
    for text in ["", "+", "-1", "0x1f", "1f 00", " 1f", "1g", "100000000", "+", "++1", "1_0"] {
        assert_eq!(parse_bits_hex(text), Err(InputError::InvalidBits), "{:?}", text);
    }
}

#[test]
fn bits_text_agrees_with_the_standard_parser() {
    let samples = [
        "", "0", "f", "F", "+f", "-f", "+", "ffffffff", "100000000", "0ffffffff", "fffffffff",
        "1d00ffff", "1D00FFff", "g", "12g4", " 12", "12 ", "+-1", "0000000000000000000001",
        "१", "é",
    ];
    for text in samples {
        let expected = u32::from_str_radix(text, 16).ok();
        assert_eq!(parse_bits_hex(text).ok(), expected, "{:?}", text);
    }
}

#[test]
fn explicit_target_takes_precedence_over_bits() {
    let t = resolve_target(Some("ff"), "1f00ffff").unwrap();
    let mut expected = [0u8; 32];
    expected[31] = 0xff;
    assert_eq!(t.bytes, expected);
    let t = resolve_target(Some("ff"), "not bits").unwrap();
    assert_eq!(t.bytes, expected);
    assert_eq!(
        resolve_target(Some("xyz"), "1f00ffff").err(),
        Some(InputError::MalformedHex)
    );
}

#[test]
fn bits_are_decoded_where_no_target_is_given() {
    let t = resolve_target(None, "1f00ffff").unwrap();
    assert_eq!(t.bytes, compact_bits_to_target(0x1f00ffff).bytes);
    assert_eq!(resolve_target(None, "zz").err(), Some(InputError::InvalidBits));
}

#[test]
fn targets_are_equal_when_their_bytes_are() {
    let a = compact_bits_to_target(0x1f00ffff);
    let b = decode_explicit("0000ffff").unwrap();
    let c = decode_explicit(&a.to_hex()).unwrap();
    assert!(a.equals(&a));
    assert!(a.equals(&c));
    assert!(!a.equals(&b));
    assert!(!Target::max().equals(&Target::zero()));
    assert_eq!(a.to_hex().len(), 64);
    assert_eq!(Target::max().to_hex(), "f".repeat(64));
}
