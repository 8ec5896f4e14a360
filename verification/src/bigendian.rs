//! Byte strings read as big-endian unsigned integers.

use vstd::arithmetic::div_mod::lemma_fundamental_div_mod_converse;
use vstd::prelude::*;

verus! {

/// `256^n`.
pub open spec fn pow256(n: nat) -> nat
    decreases n,
{
    if n == 0 {
        1
    } else {
        256 * pow256((n - 1) as nat)
    }
}

/// The unsigned integer that `s` spells in base 256, most significant byte
/// first. The empty string spells zero.
pub open spec fn be_value(s: Seq<u8>) -> nat
    decreases s.len(),
{
    if s.len() == 0 {
        0
    } else {
        256 * be_value(s.drop_last()) + s.last() as nat
    }
}

/// A string of `n` zero bytes.
pub open spec fn zeros(n: nat) -> Seq<u8> {
    Seq::new(n, |i: int| 0u8)
}

/// Number of binary digits of `n`: zero for zero, otherwise the position of
/// the highest set bit, counted from one.
pub open spec fn bit_length(n: nat) -> nat
    decreases n,
{
    if n == 0 {
        0
    } else {
        1 + bit_length(n / 2)
    }
}

/// No power of 256 is zero.
pub proof fn lemma_pow256_positive(n: nat)
    ensures
        pow256(n) >= 1,
    decreases n,
{
    if n > 0 {
        lemma_pow256_positive((n - 1) as nat);
    }
}

/// The power of a sum is the product of the powers.
pub proof fn lemma_pow256_add(a: nat, b: nat)
    ensures
        pow256(a + b) == pow256(a) * pow256(b),
    decreases a,
{
    if a == 0 {
        assert(pow256(0) == 1);
    } else {
        lemma_pow256_add((a - 1) as nat, b);
        assert(pow256(a + b) == 256 * pow256((a - 1 + b) as nat));
        assert(256 * (pow256((a - 1) as nat) * pow256(b)) == (256 * pow256((a - 1) as nat))
            * pow256(b)) by (nonlinear_arith);
    }
}

/// A larger exponent gives no smaller a power.
pub proof fn lemma_pow256_monotone(a: nat, b: nat)
    requires
        a <= b,
    ensures
        pow256(a) <= pow256(b),
    decreases b,
{
    if a < b {
        lemma_pow256_monotone(a, (b - 1) as nat);
    }
}

/// A string of `n` bytes spells a number below `256^n`.
pub proof fn lemma_be_value_bound(s: Seq<u8>)
    ensures
        be_value(s) < pow256(s.len()),
    decreases s.len(),
{
    if s.len() > 0 {
        lemma_be_value_bound(s.drop_last());
    }
}

/// Appending `b` to `a` shifts `a` left by the length of `b`.
pub proof fn lemma_be_value_concat(a: Seq<u8>, b: Seq<u8>)
    ensures
        be_value(a + b) == be_value(a) * pow256(b.len()) + be_value(b),
    decreases b.len(),
{
    if b.len() == 0 {
        assert(a + b =~= a);
        assert(pow256(0) == 1);
        assert(be_value(a) * 1 == be_value(a));
    } else {
        let ab = a + b;
        assert(ab.drop_last() =~= a + b.drop_last());
        assert(ab.last() == b.last());
        lemma_be_value_concat(a, b.drop_last());
        let x = be_value(a);
        let p = pow256(b.drop_last().len());
        let y = be_value(b.drop_last());
        assert(pow256(b.len()) == 256 * p);
        assert(be_value(ab) == 256 * be_value(ab.drop_last()) + ab.last() as nat);
        assert(be_value(b) == 256 * y + b.last() as nat);
        assert(256 * (x * p + y) == x * (256 * p) + 256 * y) by (nonlinear_arith);
    }
}

/// A string spells zero exactly when all its bytes are zero.
pub proof fn lemma_be_value_zero(s: Seq<u8>)
    ensures
        be_value(s) == 0 <==> (forall|i: int| 0 <= i < s.len() ==> s[i] == 0),
    decreases s.len(),
{
    if s.len() > 0 {
        let d = s.drop_last();
        lemma_be_value_zero(d);
        if be_value(s) == 0 {
            assert(be_value(d) == 0 && s.last() == 0);
            assert forall|i: int| 0 <= i < s.len() implies s[i] == 0 by {
                if i < s.len() - 1 {
                    assert(d[i] == s[i]);
                }
            }
        }
        if forall|i: int| 0 <= i < s.len() ==> s[i] == 0 {
            assert forall|i: int| 0 <= i < d.len() implies d[i] == 0 by {
                assert(d[i] == s[i]);
            }
        }
    }
}

/// Leading zero bytes do not change the number.
pub proof fn lemma_be_value_leading_zeros(k: nat, s: Seq<u8>)
    ensures
        be_value(zeros(k) + s) == be_value(s),
{
    lemma_be_value_zero(zeros(k));
    lemma_be_value_concat(zeros(k), s);
    assert(0 * pow256(s.len()) == 0);
}

/// Keeping the last `n` bytes reduces the number modulo `256^n`.
pub proof fn lemma_be_value_suffix(s: Seq<u8>, n: nat)
    requires
        n <= s.len(),
    ensures
        be_value(s.subrange(s.len() - n, s.len() as int)) == be_value(s) % pow256(n),
{
    let cut = s.len() - n;
    let head = s.subrange(0, cut);
    let tail = s.subrange(cut, s.len() as int);
    assert(s =~= head + tail);
    lemma_be_value_concat(head, tail);
    lemma_be_value_bound(tail);
    lemma_pow256_positive(n);
    let m = pow256(n) as int;
    lemma_fundamental_div_mod_converse(
        be_value(s) as int,
        m,
        be_value(head) as int,
        be_value(tail) as int,
    );
}

/// Two strings of one length that agree up to index `i` and differ there are
/// ordered as their bytes at `i` are.
pub proof fn lemma_be_value_first_difference(a: Seq<u8>, b: Seq<u8>, i: int)
    requires
        a.len() == b.len(),
        0 <= i < a.len(),
        a.subrange(0, i) == b.subrange(0, i),
        a[i] < b[i],
    ensures
        be_value(a) < be_value(b),
{
    let n = a.len() as int;
    let ha = a.subrange(0, i + 1);
    let hb = b.subrange(0, i + 1);
    let ta = a.subrange(i + 1, n);
    let tb = b.subrange(i + 1, n);
    assert(a =~= ha + ta);
    assert(b =~= hb + tb);
    lemma_be_value_concat(ha, ta);
    lemma_be_value_concat(hb, tb);
    lemma_be_value_bound(ta);
    assert(ha.drop_last() =~= a.subrange(0, i));
    assert(hb.drop_last() =~= b.subrange(0, i));
    assert(ha.last() == a[i]);
    assert(hb.last() == b[i]);
    let p = pow256(ta.len());
    let x = be_value(ha);
    let y = be_value(hb);
    assert(x + 1 <= y);
    assert((x + 1) * p <= y * p) by (nonlinear_arith)
        requires
            x + 1 <= y,
    ;
    assert((x + 1) * p == x * p + p) by (nonlinear_arith);
}

/// Whether the 256-bit number `a` is no larger than `b`. The two are
/// compared byte by byte from the most significant end, which for strings of
/// one length is the comparison of the numbers.
pub fn be_le(a: &[u8; 32], b: &[u8; 32]) -> (r: bool)
    ensures
        r == (be_value(a@) <= be_value(b@)),
{
    let mut i: usize = 0;
    while i < 32
        invariant
            i <= 32,
            a@.subrange(0, i as int) =~= b@.subrange(0, i as int),
        decreases 32 - i,
    {
        if a[i] < b[i] {
            proof {
                lemma_be_value_first_difference(a@, b@, i as int);
            }
            return true;
        }
        if a[i] > b[i] {
            proof {
                lemma_be_value_first_difference(b@, a@, i as int);
            }
            return false;
        }
        assert(a@.subrange(0, i + 1) =~= a@.subrange(0, i as int).push(a@[i as int]));
        assert(b@.subrange(0, i + 1) =~= b@.subrange(0, i as int).push(b@[i as int]));
        i += 1;
    }
    assert(a@ =~= a@.subrange(0, i as int));
    assert(b@ =~= b@.subrange(0, i as int));
    true
}

/// The number spelt from index `i` on is the byte at `i`, shifted past the
/// bytes that follow, plus the number that those spell.
pub proof fn lemma_be_value_from(s: Seq<u8>, i: int)
    requires
        0 <= i < s.len(),
    ensures
        be_value(s.subrange(i, s.len() as int)) == s[i] as nat * pow256((s.len() - i - 1) as nat)
            + be_value(s.subrange(i + 1, s.len() as int)),
{
    let n = s.len() as int;
    let head = seq![s[i]];
    let tail = s.subrange(i + 1, n);
    assert(s.subrange(i, n) =~= head + tail);
    lemma_be_value_concat(head, tail);
    assert(head.drop_last() =~= Seq::<u8>::empty());
    assert(be_value(head) == 256 * be_value(head.drop_last()) + head.last() as nat);
    assert(be_value(Seq::<u8>::empty()) == 0);
}

/// `a - b` for two 256-bit numbers, modulo `2^256`, subtracting byte by
/// byte from the least significant end with a borrow. Where `b` is no
/// larger than `a` it is their difference.
pub fn be_sub(a: &[u8; 32], b: &[u8; 32]) -> (r: [u8; 32])
    ensures
        be_value(r@) == (be_value(a@) - be_value(b@)) % (pow256(32) as int),
        be_value(b@) <= be_value(a@) ==> be_value(r@) == be_value(a@) - be_value(b@),
{
    let mut r: [u8; 32] = [0u8; 32];
    let mut borrow: u8 = 0;
    let mut i: usize = 32;
    while i > 0
        invariant
            i <= 32,
            borrow <= 1,
            be_value(r@.subrange(i as int, 32)) + be_value(b@.subrange(i as int, 32))
                == be_value(a@.subrange(i as int, 32)) + borrow * pow256((32 - i) as nat),
        decreases i,
    {
        let ghost before = r@;
        let ghost carry_in = borrow;
        i -= 1;
        let x: u16 = a[i] as u16;
        let y: u16 = b[i] as u16 + borrow as u16;
        if x >= y {
            r[i] = (x - y) as u8;
            borrow = 0;
        } else {
            r[i] = (x + 256 - y) as u8;
            borrow = 1;
        }
        proof {
            let p = pow256((31 - i) as nat);
            assert(r@.subrange(i + 1, 32) =~= before.subrange(i + 1, 32));
            lemma_be_value_from(r@, i as int);
            lemma_be_value_from(a@, i as int);
            lemma_be_value_from(b@, i as int);
            assert(pow256((32 - i) as nat) == 256 * p);
            let rb = r@[i as int] as int;
            let ab = a@[i as int] as int;
            let bb = b@[i as int] as int;
            assert(rb + bb + carry_in == ab + 256 * borrow);
            assert(rb * p + bb * p + carry_in * p == ab * p + borrow * (256 * p))
                by (nonlinear_arith)
                requires
                    rb + bb + carry_in == ab + 256 * borrow,
            ;
        }
    }
    proof {
        assert(r@.subrange(0, 32) =~= r@);
        assert(a@.subrange(0, 32) =~= a@);
        assert(b@.subrange(0, 32) =~= b@);
        lemma_be_value_bound(r@);
        lemma_be_value_bound(a@);
        lemma_be_value_bound(b@);
        let top = pow256(32) as int;
        let difference = be_value(a@) - be_value(b@);
        if borrow == 1 {
            assert(borrow * top == top);
            assert(difference == (-1) * top + be_value(r@));
            lemma_fundamental_div_mod_converse(difference, top, -1, be_value(r@) as int);
        } else {
            assert(borrow * top == 0);
            assert(difference == 0 * top + be_value(r@));
            lemma_fundamental_div_mod_converse(difference, top, 0, be_value(r@) as int);
        }
    }
    r
}

/// A number of at least 256 has eight binary digits more than its quotient
/// by 256.
pub proof fn lemma_bit_length_shift8(n: nat)
    requires
        n >= 256,
    ensures
        bit_length(n) == 8 + bit_length(n / 256),
{
    reveal_with_fuel(bit_length, 9);
    assert(n / 2 / 2 / 2 / 2 / 2 / 2 / 2 / 2 == n / 256);
}

/// A byte has at most eight binary digits.
pub proof fn lemma_bit_length_byte(b: u8)
    ensures
        bit_length(b as nat) <= 8,
        b != 0 ==> bit_length(b as nat) >= 1,
{
    reveal_with_fuel(bit_length, 10);
    assert((b as nat) / 2 / 2 / 2 / 2 / 2 / 2 / 2 / 2 == 0);
}

/// The binary length of a big-endian number is that of its first non-zero
/// byte plus eight for each byte after it.
pub proof fn lemma_bit_length_first_nonzero(s: Seq<u8>, i: int)
    requires
        0 <= i < s.len(),
        forall|j: int| 0 <= j < i ==> s[j] == 0,
        s[i] != 0,
    ensures
        bit_length(be_value(s)) == bit_length(s[i] as nat) + 8 * (s.len() - 1 - i),
    decreases s.len(),
{
    let d = s.drop_last();
    if i == s.len() - 1 {
        lemma_be_value_zero(d);
        assert(be_value(d) == 0);
    } else {
        assert(d[i] == s[i]);
        lemma_bit_length_first_nonzero(d, i);
        lemma_be_value_zero(d);
        let v = be_value(d);
        assert(v >= 1);
        let n = be_value(s);
        assert(n == 256 * v + s.last() as nat);
        assert(n / 256 == v);
        lemma_bit_length_shift8(n);
    }
}

/// Number of binary digits of a byte.
pub fn byte_bit_length(b: u8) -> (n: u32)
    ensures
        n == bit_length(b as nat),
        n <= 8,
{
    let mut v: u8 = b;
    let mut n: u32 = 0;
    proof {
        lemma_bit_length_byte(b);
    }
    while v > 0
        invariant
            n + bit_length(v as nat) == bit_length(b as nat),
            bit_length(b as nat) <= 8,
        decreases v,
    {
        v = v / 2;
        n = n + 1;
    }
    n
}

/// Number of binary digits of a 256-bit number.
pub fn be_bit_length(a: &[u8; 32]) -> (n: u32)
    ensures
        n == bit_length(be_value(a@)),
        n <= 256,
{
    let mut i: usize = 0;
    while i < 32
        invariant
            i <= 32,
            forall|j: int| 0 <= j < i ==> a@[j] == 0,
        decreases 32 - i,
    {
        if a[i] != 0 {
            proof {
                lemma_bit_length_first_nonzero(a@, i as int);
            }
            let tail: u32 = (31 - i) as u32;
            return byte_bit_length(a[i]) + 8 * tail;
        }
        i += 1;
    }
    proof {
        lemma_be_value_zero(a@);
    }
    0
}

/// Replacing the byte at `i` changes the number by the difference of the
/// two bytes, shifted past the bytes that follow.
pub proof fn lemma_be_value_update(s: Seq<u8>, i: int, b: u8)
    requires
        0 <= i < s.len(),
    ensures
        be_value(s.update(i, b)) + s[i] as nat * pow256((s.len() - 1 - i) as nat) == be_value(s)
            + b as nat * pow256((s.len() - 1 - i) as nat),
{
    let n = s.len() as int;
    let u = s.update(i, b);
    let head = s.subrange(0, i);
    assert(s =~= head + s.subrange(i, n));
    assert(u =~= head + u.subrange(i, n));
    lemma_be_value_concat(head, s.subrange(i, n));
    lemma_be_value_concat(head, u.subrange(i, n));
    lemma_be_value_from(s, i);
    lemma_be_value_from(u, i);
    assert(u.subrange(i + 1, n) =~= s.subrange(i + 1, n));
}

/// A number below `256^n` has at most `8n` binary digits.
pub proof fn lemma_bit_length_bound(v: nat, n: nat)
    requires
        v < pow256(n),
    ensures
        bit_length(v) <= 8 * n,
    decreases n,
{
    if n == 0 {
        assert(pow256(0) == 1);
        assert(bit_length(0) == 0);
    } else if v < 256 {
        reveal_with_fuel(bit_length, 10);
        assert(v / 2 / 2 / 2 / 2 / 2 / 2 / 2 / 2 == 0);
    } else {
        lemma_bit_length_shift8(v);
        lemma_bit_length_bound(v / 256, (n - 1) as nat);
    }
}

/// Two strings of one length that spell the same number are the same
/// string.
pub proof fn lemma_be_value_injective(a: Seq<u8>, b: Seq<u8>)
    requires
        a.len() == b.len(),
        be_value(a) == be_value(b),
    ensures
        a == b,
    decreases a.len(),
{
    if a.len() > 0 {
        assert(a.last() == b.last() && be_value(a.drop_last()) == be_value(b.drop_last()));
        lemma_be_value_injective(a.drop_last(), b.drop_last());
        assert(a =~= a.drop_last().push(a.last()));
        assert(b =~= b.drop_last().push(b.last()));
    }
    assert(a =~= b);
}

} // verus!
