//! The target: the 256-bit threshold that a digest must not exceed.

use crate::bigendian::{
    be_value, lemma_be_value_bound, lemma_be_value_injective, lemma_be_value_leading_zeros,
    lemma_be_value_suffix, lemma_be_value_update, lemma_be_value_zero, lemma_pow256_add,
    lemma_pow256_monotone, lemma_pow256_positive, pow256, zeros,
};
use crate::hexcode::{
    bytes_to_hex, hex_decoded, hex_digit_value, hex_encoded, hex_to_bytes, is_hex_digit,
    is_hex_text, lemma_hex_round_trip, text_bytes, InputError,
};
use vstd::arithmetic::div_mod::{lemma_fundamental_div_mod_converse, lemma_small_mod};
use vstd::prelude::*;

verus! {

/// Coefficient taken in place of a zero coefficient in compact bits, so that
/// a node that sends none does not ask for a digest of zero.
pub const FALLBACK_COEFFICIENT: u32 = 0x00ffff;

/// A 256-bit unsigned integer, kept as exactly 32 bytes, most significant
/// first. Its view is the integer.
#[derive(Clone, Copy, Debug)]
pub struct Target {
    pub bytes: [u8; 32],
}

impl View for Target {
    type V = nat;

    open spec fn view(&self) -> nat {
        be_value(self.bytes@)
    }
}

/// `bytes` brought to exactly 32 bytes: padded in front with zero bytes when
/// shorter, cut down to its last 32 bytes when longer.
pub open spec fn normalized(bytes: Seq<u8>) -> Seq<u8> {
    if bytes.len() < 32 {
        zeros((32 - bytes.len()) as nat) + bytes
    } else {
        bytes.subrange(bytes.len() - 32, bytes.len() as int)
    }
}

/// Normalizing keeps the number where it fits in 256 bits, and reduces it
/// modulo `2^256` where it does not.
pub proof fn lemma_normalized_value(bytes: Seq<u8>)
    ensures
        normalized(bytes).len() == 32,
        be_value(normalized(bytes)) == be_value(bytes) % pow256(32),
{
    if bytes.len() < 32 {
        lemma_be_value_leading_zeros((32 - bytes.len()) as nat, bytes);
        lemma_be_value_bound(bytes);
        lemma_pow256_monotone(bytes.len(), 32);
        lemma_small_mod(be_value(bytes), pow256(32));
    } else {
        lemma_be_value_suffix(bytes, 32);
    }
}

impl Target {
    /// The target that `bytes` spell, most significant byte first, brought
    /// to 32 bytes.
    pub fn from_be_bytes(bytes: &[u8]) -> (t: Target)
        ensures
            t.bytes@ == normalized(bytes@),
            t@ == be_value(bytes@) % pow256(32),
    {
        let n: usize = bytes.len();
        let mut out: [u8; 32] = [0u8; 32];
        let mut i: usize = 0;
        while i < 32
            invariant
                i <= 32,
                n == bytes.len(),
                forall|j: int| 0 <= j < i ==> out@[j] == normalized(bytes@)[j],
            decreases 32 - i,
        {
            if n >= 32 {
                out[i] = bytes[n - 32 + i];
            } else if i >= 32 - n {
                out[i] = bytes[i - (32 - n)];
            } else {
                out[i] = 0;
            }
            i += 1;
        }
        proof {
            lemma_normalized_value(bytes@);
            assert(out@ =~= normalized(bytes@));
        }
        Target { bytes: out }
    }

    /// Whether two targets are the same number, which is so exactly when
    /// their bytes are the same.
    pub fn equals(&self, other: &Target) -> (r: bool)
        ensures
            r == (self@ == other@),
            r == (self.bytes@ == other.bytes@),
    {
        let mut i: usize = 0;
        while i < 32
            invariant
                i <= 32,
                forall|j: int| 0 <= j < i ==> self.bytes@[j] == other.bytes@[j],
            decreases 32 - i,
        {
            if self.bytes[i] != other.bytes[i] {
                proof {
                    if self@ == other@ {
                        lemma_be_value_injective(self.bytes@, other.bytes@);
                    }
                }
                return false;
            }
            i += 1;
        }
        assert(self.bytes@ =~= other.bytes@);
        true
    }

    /// The 64 lower-case hexadecimal digits of the target.
    pub fn to_hex(&self) -> (text: String)
        ensures
            text@ == hex_encoded(self.bytes@),
    {
        bytes_to_hex(self.bytes.as_slice())
    }

    /// The largest target, `2^256 - 1`: every digest meets it.
    pub fn max() -> (t: Target)
        ensures
            t@ == pow256(32) - 1,
            forall|i: int| 0 <= i < 32 ==> t.bytes@[i] == 0xff,
    {
        let t = Target { bytes: [0xffu8; 32] };
        proof {
            lemma_all_ones(t.bytes@);
        }
        t
    }

    /// The target zero: only the digest zero meets it.
    pub fn zero() -> (t: Target)
        ensures
            t@ == 0,
            forall|i: int| 0 <= i < 32 ==> t.bytes@[i] == 0,
    {
        let t = Target { bytes: [0u8; 32] };
        proof {
            lemma_be_value_zero(t.bytes@);
        }
        t
    }
}

/// A string of bytes `0xff` spells the largest number of its length.
pub proof fn lemma_all_ones(s: Seq<u8>)
    requires
        forall|i: int| 0 <= i < s.len() ==> s[i] == 0xff,
    ensures
        be_value(s) == pow256(s.len()) - 1,
    decreases s.len(),
{
    if s.len() > 0 {
        let d = s.drop_last();
        assert forall|i: int| 0 <= i < d.len() implies d[i] == 0xff by {
            assert(d[i] == s[i]);
        }
        lemma_all_ones(d);
    }
}

/// The exponent of compact bits: their top byte.
pub open spec fn compact_exponent(bits: u32) -> nat {
    (bits / 0x100_0000) as nat
}

/// The coefficient of compact bits: their lower 24 bits, or the fallback
/// coefficient where those are zero.
pub open spec fn compact_coefficient(bits: u32) -> nat {
    if bits % 0x100_0000 == 0 {
        FALLBACK_COEFFICIENT as nat
    } else {
        (bits % 0x100_0000) as nat
    }
}

/// The number that compact bits stand for: `c * 256^(e-3)` for an exponent
/// `e` of at least three, and `c / 256^(3-e)`, rounded down, below that.
pub open spec fn compact_value(bits: u32) -> nat {
    let e = compact_exponent(bits);
    let c = compact_coefficient(bits);
    if e >= 3 {
        c * pow256((e - 3) as nat)
    } else {
        c / pow256((3 - e) as nat)
    }
}

/// The target that compact bits decode to: their number, cut down to 256
/// bits.
pub open spec fn compact_target(bits: u32) -> nat {
    compact_value(bits) % pow256(32)
}

/// What a byte `b` adds to a 256-bit number at `place` bytes from its least
/// significant end: nothing where the place lies outside the number.
pub open spec fn placed(b: nat, place: int) -> nat {
    if 0 <= place < 32 {
        b * pow256(place as nat)
    } else {
        0
    }
}

/// The first few powers of 256.
proof fn lemma_pow256_small()
    ensures
        pow256(0) == 1,
        pow256(1) == 256,
        pow256(2) == 65536,
        pow256(3) == 0x100_0000,
{
    reveal_with_fuel(pow256, 4);
}

/// The powers of 256 that follow `256^s`.
proof fn lemma_pow256_next(s: nat)
    ensures
        pow256(s + 1) == 256 * pow256(s),
        pow256(s + 2) == 65536 * pow256(s),
        pow256(s + 3) == 0x100_0000 * pow256(s),
        pow256(s) >= 1,
{
    reveal_with_fuel(pow256, 4);
    lemma_pow256_positive(s);
}

/// A coefficient scaled by `256^s` is the sum of its three bytes, each
/// scaled by its own power.
proof fn lemma_scaled_bytes(c0: nat, c1: nat, c2: nat, p: nat)
    ensures
        (c0 + 256 * c1 + 65536 * c2) * p == c0 * p + c1 * (256 * p) + c2 * (65536 * p),
{
    assert((c0 + 256 * c1 + 65536 * c2) * p == c0 * p + c1 * (256 * p) + c2 * (65536 * p))
        by (nonlinear_arith);
}

/// The three bytes of a coefficient, each put `s` places up where that
/// place exists, make up the coefficient scaled by `256^s` and cut down to
/// 256 bits.
proof fn lemma_layout_scaled(c0: nat, c1: nat, c2: nat, s: nat)
    requires
        c0 < 256,
        c1 < 256,
        c2 < 256,
    ensures
        placed(c0, s as int) + placed(c1, s as int + 1) + placed(c2, s as int + 2) == ((c0 + 256
            * c1 + 65536 * c2) * pow256(s)) % pow256(32),
{
    let at = s as int;
    let c = c0 + 256 * c1 + 65536 * c2;
    let p = pow256(s);
    let m = pow256(32);
    let total = c * p;
    lemma_pow256_next(s);
    lemma_pow256_positive(32);
    lemma_scaled_bytes(c0, c1, c2, p);
    if s <= 29 {
        assert(placed(c0, at) == c0 * p);
        assert(placed(c1, at + 1) == c1 * (256 * p));
        assert(placed(c2, at + 2) == c2 * (65536 * p));
        lemma_pow256_monotone(s + 3, 32);
        assert(total < 0x100_0000 * p) by (nonlinear_arith)
            requires
                total == c * p,
                c < 0x100_0000,
                p >= 1,
        ;
        lemma_small_mod(total, m);
    } else if s == 30 {
        assert(placed(c0, at) == c0 * p);
        assert(placed(c1, at + 1) == c1 * (256 * p));
        assert(placed(c2, at + 2) == 0);
        assert(m == 65536 * p);
        let v = c0 * p + c1 * (256 * p);
        assert(v < 65536 * p) by (nonlinear_arith)
            requires
                v == c0 * p + c1 * (256 * p),
                c0 < 256,
                c1 < 256,
                p >= 1,
        ;
        assert(total == c2 * m + v);
        lemma_fundamental_div_mod_converse(total as int, m as int, c2 as int, v as int);
    } else if s == 31 {
        assert(placed(c0, at) == c0 * p);
        assert(placed(c1, at + 1) == 0);
        assert(placed(c2, at + 2) == 0);
        assert(m == 256 * p);
        let v = c0 * p;
        let q = c1 + 256 * c2;
        assert(v < 256 * p) by (nonlinear_arith)
            requires
                v == c0 * p,
                c0 < 256,
                p >= 1,
        ;
        assert(total == q * (256 * p) + v) by (nonlinear_arith)
            requires
                total == c0 * p + c1 * (256 * p) + c2 * (65536 * p),
                q == c1 + 256 * c2,
                v == c0 * p,
        ;
        lemma_fundamental_div_mod_converse(total as int, m as int, q as int, v as int);
    } else {
        assert(placed(c0, at) == 0);
        assert(placed(c1, at + 1) == 0);
        assert(placed(c2, at + 2) == 0);
        let r = pow256((s - 32) as nat);
        lemma_pow256_add((s - 32) as nat, 32);
        assert(p == r * m);
        let q = c * r;
        assert(total == q * m + 0) by (nonlinear_arith)
            requires
                total == c * p,
                p == r * m,
                q == c * r,
        ;
        lemma_fundamental_div_mod_converse(total as int, m as int, q as int, 0);
    }
}

/// The three bytes of a coefficient, each put `e - 3` places up where that
/// place exists, make up the number that the coefficient and the exponent
/// `e` stand for, cut down to 256 bits.
proof fn lemma_compact_layout(c: nat, e: nat)
    requires
        c < 0x100_0000,
    ensures
        placed(c % 256, e - 3) + placed(c / 256 % 256, e - 2) + placed(c / 65536, e - 1) == (if e
            >= 3 {
            c * pow256((e - 3) as nat)
        } else {
            c / pow256((3 - e) as nat)
        }) % pow256(32),
{
    let c0 = c % 256;
    let c1 = c / 256 % 256;
    let c2 = c / 65536;
    assert(c == c0 + 256 * c1 + 65536 * c2);
    let m = pow256(32);
    lemma_pow256_small();
    if e >= 3 {
        lemma_layout_scaled(c0, c1, c2, (e - 3) as nat);
    } else {
        lemma_pow256_monotone(3, 32);
        if e == 2 {
            assert(placed(c0, -1) == 0);
            assert(placed(c1, 0) == c1 * 1);
            assert(placed(c2, 1) == c2 * 256);
            assert(c / 256 == c1 + 256 * c2);
            lemma_small_mod(c / 256, m);
        } else if e == 1 {
            assert(placed(c0, -2) == 0);
            assert(placed(c1, -1) == 0);
            assert(placed(c2, 0) == c2 * 1);
            lemma_small_mod(c / 65536, m);
        } else {
            assert(placed(c0, -3) == 0);
            assert(placed(c1, -2) == 0);
            assert(placed(c2, -1) == 0);
            assert(c / 0x100_0000 == 0);
            lemma_small_mod(0, m);
        }
    }
}

/// `bytes` with `b` written `shift + k - 3` places from the least
/// significant end, where that place exists.
fn put(bytes: [u8; 32], shift: u32, k: u32, b: u8) -> (r: [u8; 32])
    requires
        k < 3,
        shift < 256,
        0 <= shift + k - 3 < 32 ==> bytes@[34 - shift - k] == 0,
    ensures
        be_value(r@) == be_value(bytes@) + placed(b as nat, shift + k - 3),
        forall|j: int| 0 <= j < 32 && j != 34 - shift - k ==> r@[j] == bytes@[j],
{
    let mut r: [u8; 32] = bytes;
    let up: u32 = shift + k;
    if up >= 3 && up - 3 < 32 {
        let at: usize = (34 - up) as usize;
        r[at] = b;
        proof {
            lemma_be_value_update(bytes@, at as int, b);
            assert(r@ =~= bytes@.update(at as int, b));
            assert(0 * pow256((31 - at) as nat) == 0);
        }
    }
    r
}

/// Decodes compact bits: the top byte is an exponent `e`, the lower 24 bits
/// a coefficient `c`, and the target is `c * 256^(e-3)`, or `c / 256^(3-e)`
/// for `e` below three, cut down to 256 bits. A zero coefficient is taken
/// as `FALLBACK_COEFFICIENT`.
pub fn compact_bits_to_target(bits: u32) -> (t: Target)
    ensures
        t@ == compact_target(bits),
{
    let exponent: u32 = bits / 0x100_0000;
    let low: u32 = bits % 0x100_0000;
    let coefficient: u32 = if low == 0 {
        FALLBACK_COEFFICIENT
    } else {
        low
    };
    let b0: u8 = (coefficient % 256) as u8;
    let b1: u8 = (coefficient / 256 % 256) as u8;
    let b2: u8 = (coefficient / 65536) as u8;
    let clear: [u8; 32] = [0u8; 32];
    let s0 = put(clear, exponent, 0, b0);
    let s1 = put(s0, exponent, 1, b1);
    let s2 = put(s1, exponent, 2, b2);
    proof {
        lemma_be_value_zero(clear@);
        lemma_compact_layout(coefficient as nat, exponent as nat);
    }
    Target { bytes: s2 }
}

/// Decodes an explicit target from hexadecimal text and brings it to 32
/// bytes. Text that is not an even number of hexadecimal digits is
/// rejected.
pub fn decode_explicit(text: &str) -> (r: Result<Target, InputError>)
    ensures
        r is Ok <==> is_hex_text(text_bytes(text@)),
        r is Ok ==> r->Ok_0.bytes@ == normalized(hex_decoded(text_bytes(text@))),
        r is Ok ==> r->Ok_0@ == be_value(hex_decoded(text_bytes(text@))) % pow256(32),
        r is Err ==> r->Err_0 == InputError::MalformedHex,
{
    match hex_to_bytes(text) {
        Ok(bytes) => Ok(Target::from_be_bytes(bytes.as_slice())),
        Err(e) => Err(e),
    }
}

/// The number that hexadecimal digits spell, most significant digit first.
pub open spec fn hex_number(digits: Seq<u8>) -> nat
    decreases digits.len(),
{
    if digits.len() == 0 {
        0
    } else {
        16 * hex_number(digits.drop_last()) + hex_digit_value(digits.last())
    }
}

/// The digits of compact bits written as text: the text without the `+`
/// that may stand in front.
pub open spec fn bits_digits(text: Seq<u8>) -> Seq<u8> {
    if text.len() > 0 && text[0] == 0x2b {
        text.subrange(1, text.len() as int)
    } else {
        text
    }
}

/// Whether `text` spells compact bits: at least one hexadecimal digit,
/// nothing else but one `+` in front, and a number that fits in 32 bits.
pub open spec fn is_bits_text(text: Seq<u8>) -> bool {
    let digits = bits_digits(text);
    &&& digits.len() > 0
    &&& forall|i: int| 0 <= i < digits.len() ==> is_hex_digit(#[trigger] digits[i])
    &&& hex_number(digits) <= u32::MAX
}

/// The compact bits that `text` spells.
pub open spec fn bits_of_text(text: Seq<u8>) -> nat {
    hex_number(bits_digits(text))
}

/// A number spelt in hexadecimal is at least the number that any of its
/// prefixes spells.
proof fn lemma_hex_number_prefix(digits: Seq<u8>, k: int)
    requires
        0 <= k <= digits.len(),
    ensures
        hex_number(digits.subrange(0, k)) <= hex_number(digits),
    decreases digits.len() - k,
{
    if k == digits.len() {
        assert(digits.subrange(0, k) =~= digits);
    } else {
        lemma_hex_number_prefix(digits, k + 1);
        assert(digits.subrange(0, k + 1).drop_last() =~= digits.subrange(0, k));
    }
}

/// The number below sixteen that `c` stands for, if it is a hexadecimal
/// digit.
fn digit_value(c: u8) -> (r: Option<u32>)
    ensures
        r is Some <==> is_hex_digit(c),
        r is Some ==> r->Some_0 == hex_digit_value(c) && r->Some_0 < 16,
{
    if 0x30 <= c && c <= 0x39 {
        Some((c - 0x30) as u32)
    } else if 0x41 <= c && c <= 0x46 {
        Some((c - 0x41 + 10) as u32)
    } else if 0x61 <= c && c <= 0x66 {
        Some((c - 0x61 + 10) as u32)
    } else {
        None
    }
}

/// Reads compact bits from hexadecimal text such as `1f00ffff`. Upper and
/// lower case digits are taken, leading zeros too, and one `+` in front;
/// anything else, and a number of more than 32 bits, is rejected.
pub fn parse_bits_hex(text: &str) -> (r: Result<u32, InputError>)
    ensures
        r is Ok <==> is_bits_text(text_bytes(text@)),
        r is Ok ==> r->Ok_0 == bits_of_text(text_bytes(text@)),
        r is Err ==> r->Err_0 == InputError::InvalidBits,
{
    let bytes = text.as_bytes();
    let n: usize = bytes.len();
    let start: usize = if n > 0 && bytes[0] == 0x2b {
        1
    } else {
        0
    };
    let ghost digits = bits_digits(bytes@);
    assert(digits =~= bytes@.subrange(start as int, n as int));
    if start == n {
        return Err(InputError::InvalidBits);
    }
    let mut acc: u32 = 0;
    let mut i: usize = start;
    while i < n
        invariant
            start <= i <= n,
            n == bytes.len(),
            bytes@ == text_bytes(text@),
            digits == bits_digits(bytes@),
            digits == bytes@.subrange(start as int, n as int),
            acc == hex_number(digits.subrange(0, i - start)),
            forall|j: int| 0 <= j < i - start ==> is_hex_digit(#[trigger] digits[j]),
        decreases n - i,
    {
        let ghost k = i - start;
        assert(digits[k] == bytes@[i as int]);
        assert(digits.subrange(0, k + 1).drop_last() =~= digits.subrange(0, k));
        assert(digits.subrange(0, k + 1).last() == digits[k]);
        match digit_value(bytes[i]) {
            None => {
                return Err(InputError::InvalidBits);
            },
            Some(d) => {
                if acc > (u32::MAX - d) / 16 {
                    proof {
                        lemma_hex_number_prefix(digits, k + 1);
                    }
                    return Err(InputError::InvalidBits);
                }
                acc = acc * 16 + d;
            },
        }
        i += 1;
    }
    assert(digits.subrange(0, i - start) =~= digits);
    Ok(acc)
}

/// The target of a search. An explicit target in hexadecimal, where one is
/// given, is decoded and the compact bits are not looked at; otherwise the
/// compact bits are read from their hexadecimal text and decoded.
pub fn resolve_target(explicit: Option<&str>, bits_text: &str) -> (r: Result<Target, InputError>)
    ensures
        explicit matches Some(text) ==> {
            &&& r is Ok <==> is_hex_text(text_bytes(text@))
            &&& r is Ok ==> r->Ok_0.bytes@ == normalized(hex_decoded(text_bytes(text@)))
            &&& r is Err ==> r->Err_0 == InputError::MalformedHex
        },
        explicit is None ==> {
            &&& r is Ok <==> is_bits_text(text_bytes(bits_text@))
            &&& r is Ok ==> r->Ok_0@ == compact_target(bits_of_text(text_bytes(bits_text@)) as u32)
            &&& r is Err ==> r->Err_0 == InputError::InvalidBits
        },
{
    match explicit {
        Some(text) => decode_explicit(text),
        None => match parse_bits_hex(bits_text) {
            Ok(bits) => Ok(compact_bits_to_target(bits)),
            Err(e) => Err(e),
        },
    }
}

/// For one coefficient, a larger exponent never gives a smaller number.
pub proof fn lemma_compact_value_monotone(low: u32, high: u32)
    requires
        compact_coefficient(low) == compact_coefficient(high),
        compact_exponent(low) <= compact_exponent(high),
    ensures
        compact_value(low) <= compact_value(high),
{
    let c = compact_coefficient(low);
    let e1 = compact_exponent(low);
    let e2 = compact_exponent(high);
    reveal_with_fuel(pow256, 4);
    assert(pow256(0) == 1 && pow256(1) == 256 && pow256(2) == 65536 && pow256(3) == 0x100_0000);
    if e1 >= 3 {
        let p1 = pow256((e1 - 3) as nat);
        let p2 = pow256((e2 - 3) as nat);
        lemma_pow256_monotone((e1 - 3) as nat, (e2 - 3) as nat);
        assert(c * p1 <= c * p2) by (nonlinear_arith)
            requires
                p1 <= p2,
        ;
    } else if e2 >= 3 {
        let p2 = pow256((e2 - 3) as nat);
        lemma_pow256_positive((e2 - 3) as nat);
        assert(c <= c * p2) by (nonlinear_arith)
            requires
                p2 >= 1,
        ;
        assert(c / pow256((3 - e1) as nat) <= c);
    } else {
        assert(c / 0x100_0000 <= c / 65536 <= c / 256);
    }
}

/// Compact bits with one coefficient and a larger exponent decode to a
/// target at least as large, as long as the larger number still fits in 256
/// bits. Beyond that the target keeps only the low 256 bits and the order
/// is lost.
pub proof fn lemma_compact_target_monotone(low: u32, high: u32)
    requires
        compact_coefficient(low) == compact_coefficient(high),
        compact_exponent(low) <= compact_exponent(high),
        compact_value(high) < pow256(32),
    ensures
        compact_target(low) <= compact_target(high),
        compact_target(low) == compact_value(low),
        compact_target(high) == compact_value(high),
{
    lemma_compact_value_monotone(low, high);
    lemma_small_mod(compact_value(low), pow256(32));
    lemma_small_mod(compact_value(high), pow256(32));
}

/// A target written out in hexadecimal and decoded again is the same
/// target.
pub proof fn lemma_target_hex_round_trip(target: Target)
    ensures
        is_hex_text(text_bytes(hex_encoded(target.bytes@))),
        normalized(hex_decoded(text_bytes(hex_encoded(target.bytes@)))) == target.bytes@,
{
    lemma_hex_round_trip(target.bytes@);
    assert(target.bytes@.subrange(0, 32) =~= target.bytes@);
}

/// Bringing 32 bytes or fewer to 32 bytes keeps the number they spell;
/// of more, the number is reduced modulo `2^256`. What is 32 bytes already is
/// left as it is.
pub proof fn lemma_normalized_is_stable(bytes: Seq<u8>)
    ensures
        bytes.len() <= 32 ==> be_value(normalized(bytes)) == be_value(bytes),
        bytes.len() == 32 ==> normalized(bytes) == bytes,
        normalized(normalized(bytes)) == normalized(bytes),
{
    lemma_normalized_value(bytes);
    if bytes.len() <= 32 {
        lemma_be_value_bound(bytes);
        lemma_pow256_monotone(bytes.len(), 32);
        lemma_small_mod(be_value(bytes), pow256(32));
    }
    if bytes.len() == 32 {
        assert(bytes.subrange(0, 32) =~= bytes);
    }
    let once = normalized(bytes);
    assert(once.subrange(0, 32) =~= once);
}

} // verus!
