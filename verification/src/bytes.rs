//! Fixed-width byte encodings of integers: little-endian two's complement
//! for 128-bit signed integers and big-endian for 128-bit identifiers.

use vstd::prelude::*;

verus! {

/// 256 to the power `n`.
pub open spec fn pow256(n: nat) -> nat
    decreases n,
{
    if n == 0 {
        1
    } else {
        256 * pow256((n - 1) as nat)
    }
}

/// The `n` low bytes of `v`, least significant first.
pub open spec fn le_bytes(v: nat, n: nat) -> Seq<u8>
    decreases n,
{
    if n == 0 {
        seq![]
    } else {
        seq![(v % 256) as u8] + le_bytes(v / 256, (n - 1) as nat)
    }
}

/// The number whose bytes, least significant first, are `b`.
pub open spec fn le_value(b: Seq<u8>) -> nat
    decreases b.len(),
{
    if b.len() == 0 {
        0
    } else {
        b[0] as nat + 256 * le_value(b.drop_first())
    }
}

/// The `n` low bytes of `v`, most significant first.
pub open spec fn be_bytes(v: nat, n: nat) -> Seq<u8>
    decreases n,
{
    if n == 0 {
        seq![]
    } else {
        be_bytes(v / 256, (n - 1) as nat).push((v % 256) as u8)
    }
}

/// The number whose bytes, most significant first, are `b`.
pub open spec fn be_value(b: Seq<u8>) -> nat
    decreases b.len(),
{
    if b.len() == 0 {
        0
    } else {
        be_value(b.drop_last()) * 256 + b.last() as nat
    }
}

/// 2^128.
pub open spec fn two_pow_128() -> nat {
    u128::MAX as nat + 1
}

/// The two's complement bit pattern of a 128-bit signed integer, as a number.
pub open spec fn twos_complement(v: int) -> nat {
    if v < 0 {
        (v + two_pow_128()) as nat
    } else {
        v as nat
    }
}

/// The 128-bit signed integer with bit pattern `v`.
pub open spec fn from_twos_complement(v: nat) -> int {
    if v >= 0x8000_0000_0000_0000_0000_0000_0000_0000 {
        v - two_pow_128()
    } else {
        v as int
    }
}

/// The sixteen bytes `i128::to_le_bytes` gives for `v`.
pub open spec fn i128_le_bytes(v: i128) -> Seq<u8> {
    le_bytes(twos_complement(v as int), 16)
}

/// The sixteen bytes, most significant first, of `v`.
pub open spec fn u128_be_bytes(v: u128) -> Seq<u8> {
    be_bytes(v as nat, 16)
}

pub proof fn lemma_pow256_16()
    ensures
        pow256(16) == two_pow_128(),
{
    reveal_with_fuel(pow256, 17);
}

pub proof fn lemma_pow256_positive(n: nat)
    ensures
        pow256(n) >= 1,
    decreases n,
{
    if n > 0 {
        lemma_pow256_positive((n - 1) as nat);
    }
}

pub proof fn lemma_le_bytes_len(v: nat, n: nat)
    ensures
        le_bytes(v, n).len() == n,
    decreases n,
{
    if n > 0 {
        lemma_le_bytes_len(v / 256, (n - 1) as nat);
    }
}

pub proof fn lemma_be_bytes_len(v: nat, n: nat)
    ensures
        be_bytes(v, n).len() == n,
    decreases n,
{
    if n > 0 {
        lemma_be_bytes_len(v / 256, (n - 1) as nat);
    }
}

/// Reading back the low bytes of a number that fits gives the number.
pub proof fn lemma_le_value_of_bytes(v: nat, n: nat)
    requires
        v < pow256(n),
    ensures
        le_value(le_bytes(v, n)) == v,
    decreases n,
{
    if n == 0 {
    } else {
        let q = v / 256;
        let p = pow256((n - 1) as nat);
        assert(q < p) by (nonlinear_arith)
            requires
                v < 256 * p,
                q == v / 256,
        ;
        lemma_le_value_of_bytes(q, (n - 1) as nat);
        let b = le_bytes(v, n);
        assert(b.drop_first() =~= le_bytes(q, (n - 1) as nat));
    }
}

/// Writing out the number a byte string denotes gives the byte string.
pub proof fn lemma_le_bytes_of_value(b: Seq<u8>)
    ensures
        le_bytes(le_value(b), b.len()) == b,
        le_value(b) < pow256(b.len()),
    decreases b.len(),
{
    if b.len() == 0 {
        assert(le_bytes(0, 0) =~= b);
    } else {
        let rest = b.drop_first();
        lemma_le_bytes_of_value(rest);
        let r = le_value(rest);
        let v = le_value(b);
        assert(v == b[0] as nat + 256 * r);
        assert(v % 256 == b[0] as nat && v / 256 == r) by (nonlinear_arith)
            requires
                v == b[0] as nat + 256 * r,
                b[0] < 256,
        ;
        assert(v < pow256(b.len())) by (nonlinear_arith)
            requires
                v == b[0] as nat + 256 * r,
                b[0] < 256,
                r < pow256(rest.len()),
                pow256(b.len()) == 256 * pow256(rest.len()),
        ;
        assert(le_bytes(v, b.len()) =~= b);
    }
}

pub proof fn lemma_be_value_of_bytes(v: nat, n: nat)
    requires
        v < pow256(n),
    ensures
        be_value(be_bytes(v, n)) == v,
    decreases n,
{
    if n == 0 {
    } else {
        let q = v / 256;
        let p = pow256((n - 1) as nat);
        assert(q < p) by (nonlinear_arith)
            requires
                v < 256 * p,
                q == v / 256,
        ;
        lemma_be_value_of_bytes(q, (n - 1) as nat);
        let b = be_bytes(v, n);
        assert(b.drop_last() =~= be_bytes(q, (n - 1) as nat));
    }
}

pub proof fn lemma_be_bytes_of_value(b: Seq<u8>)
    ensures
        be_bytes(be_value(b), b.len()) == b,
        be_value(b) < pow256(b.len()),
    decreases b.len(),
{
    if b.len() == 0 {
        assert(be_bytes(0, 0) =~= b);
    } else {
        let rest = b.drop_last();
        lemma_be_bytes_of_value(rest);
        let r = be_value(rest);
        let v = be_value(b);
        let x = b.last();
        assert(v == r * 256 + x as nat);
        assert(v % 256 == x as nat && v / 256 == r) by (nonlinear_arith)
            requires
                v == r * 256 + x as nat,
                x < 256,
        ;
        assert(v < pow256(b.len())) by (nonlinear_arith)
            requires
                v == r * 256 + x as nat,
                x < 256,
                r < pow256(rest.len()),
                pow256(b.len()) == 256 * pow256(rest.len()),
        ;
        assert(be_bytes(v, b.len()) =~= b);
    }
}

/// The bytes of `i128::to_le_bytes` read back as the same integer.
pub proof fn lemma_i128_le_roundtrip(v: i128)
    ensures
        i128_le_bytes(v).len() == 16,
        from_twos_complement(le_value(i128_le_bytes(v))) == v,
{
    lemma_pow256_16();
    lemma_le_bytes_len(twos_complement(v as int), 16);
    lemma_le_value_of_bytes(twos_complement(v as int), 16);
}

/// The big-endian bytes of a 128-bit number read back as the same number.
pub proof fn lemma_u128_be_roundtrip(v: u128)
    ensures
        u128_be_bytes(v).len() == 16,
        be_value(u128_be_bytes(v)) == v,
{
    lemma_pow256_16();
    lemma_be_bytes_len(v as nat, 16);
    lemma_be_value_of_bytes(v as nat, 16);
}

/// `i128::to_le_bytes`: the sixteen bytes of `v`, least significant first.
pub fn i128_to_le_bytes(v: i128) -> (r: Vec<u8>)
    ensures
        r@ == i128_le_bytes(v),
{
    proof {
        lemma_pow256_16();
    }
    let mut u: u128 = if v >= 0 {
        v as u128
    } else {
        u128::MAX - ((-(v + 1)) as u128)
    };
    let ghost u0 = u as nat;
    assert(u0 == twos_complement(v as int));
    let mut r: Vec<u8> = Vec::new();
    let mut k: usize = 0;
    while k < 16
        invariant
            k <= 16,
            r@ + le_bytes(u as nat, (16 - k) as nat) == le_bytes(u0, 16),
        decreases 16 - k,
    {
        let ghost before = u as nat;
        let byte = (u % 256) as u8;
        assert(le_bytes(before, (16 - k) as nat) == seq![byte] + le_bytes(before / 256, (16 - k - 1) as nat));
        r.push(byte);
        u = u / 256;
        k = k + 1;
        assert(r@ + le_bytes(u as nat, (16 - k) as nat) =~= le_bytes(u0, 16));
    }
    assert(le_bytes(u as nat, 0) =~= Seq::<u8>::empty());
    assert(r@ =~= le_bytes(u0, 16));
    r
}

/// `i128::from_le_bytes`: the integer whose sixteen bytes, least significant
/// first, are `b`.
pub fn i128_from_le_bytes(b: &[u8]) -> (r: i128)
    requires
        b@.len() == 16,
    ensures
        r == from_twos_complement(le_value(b@)),
{
    proof {
        lemma_pow256_16();
        lemma_le_bytes_of_value(b@);
    }
    let mut acc: u128 = 0;
    let mut k: usize = 16;
    assert(b@.subrange(16, 16) =~= Seq::<u8>::empty());
    while k > 0
        invariant
            k <= 16,
            b@.len() == 16,
            pow256(16) == two_pow_128(),
            acc as nat == le_value(b@.subrange(k as int, 16)),
            (acc as nat) < pow256((16 - k) as nat),
        decreases k,
    {
        k = k - 1;
        let byte = b[k];
        let ghost tail = b@.subrange(k as int + 1, 16);
        let ghost s = b@.subrange(k as int, 16);
        assert(s.drop_first() =~= tail);
        assert(le_value(s) == byte as nat + 256 * le_value(tail));
        let ghost p = pow256((16 - k - 1) as nat);
        assert(pow256((16 - k) as nat) == 256 * p);
        proof {
            lemma_pow_mono((16 - k) as nat, 16);
        }
        assert((acc as nat) * 256 + (byte as nat) < 256 * p) by (nonlinear_arith)
            requires
                (acc as nat) < p,
                byte < 256,
        ;
        acc = acc * 256 + byte as u128;
    }
    assert(b@.subrange(0, 16) =~= b@);
    if acc >= 0x8000_0000_0000_0000_0000_0000_0000_0000 {
        -((u128::MAX - acc) as i128) - 1
    } else {
        acc as i128
    }
}

pub proof fn lemma_pow_mono(m: nat, n: nat)
    requires
        m <= n,
    ensures
        pow256(m) <= pow256(n),
    decreases n,
{
    if m < n {
        lemma_pow_mono(m, (n - 1) as nat);
        lemma_pow256_positive((n - 1) as nat);
    }
}

/// The sixteen bytes of `v`, most significant first.
pub fn u128_to_be_bytes(v: u128) -> (r: Vec<u8>)
    ensures
        r@ == u128_be_bytes(v),
{
    let mut digits: Vec<u8> = Vec::new();
    let mut u: u128 = v;
    let mut k: usize = 0;
    // digits holds the low bytes, least significant first
    while k < 16
        invariant
            k <= 16,
            digits@.len() == k,
            be_bytes(v as nat, 16) == be_bytes(u as nat, (16 - k) as nat) + digits@.reverse(),
        decreases 16 - k,
    {
        let ghost before = u as nat;
        let byte = (u % 256) as u8;
        assert(be_bytes(before, (16 - k) as nat) == be_bytes(before / 256, (16 - k - 1) as nat).push(byte));
        let ghost old_digits = digits@;
        digits.push(byte);
        assert(digits@.reverse() =~= seq![byte] + old_digits.reverse());
        u = u / 256;
        k = k + 1;
        assert(be_bytes(v as nat, 16) =~= be_bytes(u as nat, (16 - k) as nat) + digits@.reverse());
    }
    assert(be_bytes(u as nat, 0) =~= Seq::<u8>::empty());
    let mut r: Vec<u8> = Vec::new();
    let mut j: usize = 16;
    while j > 0
        invariant
            j <= 16,
            digits@.len() == 16,
            r@ =~= digits@.subrange(j as int, 16).reverse(),
        decreases j,
    {
        j = j - 1;
        r.push(digits[j]);
        assert(r@ =~= digits@.subrange(j as int, 16).reverse());
    }
    assert(digits@.subrange(0, 16) =~= digits@);
    r
}

/// The 128-bit number whose sixteen bytes, most significant first, are `b`.
pub fn u128_from_be_bytes(b: &[u8]) -> (r: u128)
    requires
        b@.len() == 16,
    ensures
        r == be_value(b@),
{
    proof {
        lemma_pow256_16();
        lemma_be_bytes_of_value(b@);
    }
    let mut acc: u128 = 0;
    let mut k: usize = 0;
    assert(b@.subrange(0, 0) =~= Seq::<u8>::empty());
    while k < 16
        invariant
            k <= 16,
            b@.len() == 16,
            pow256(16) == two_pow_128(),
            acc as nat == be_value(b@.subrange(0, k as int)),
            (acc as nat) < pow256(k as nat),
        decreases 16 - k,
    {
        let byte = b[k];
        let ghost s = b@.subrange(0, k as int + 1);
        assert(s.drop_last() =~= b@.subrange(0, k as int));
        assert(be_value(s) == be_value(b@.subrange(0, k as int)) * 256 + byte as nat);
        let ghost p = pow256(k as nat);
        assert(pow256(k as nat + 1) == 256 * p);
        proof {
            lemma_pow_mono(k as nat + 1, 16);
        }
        assert((acc as nat) * 256 + (byte as nat) < 256 * p) by (nonlinear_arith)
            requires
                (acc as nat) < p,
                byte < 256,
        ;
        acc = acc * 256 + byte as u128;
        k = k + 1;
    }
    assert(b@.subrange(0, 16) =~= b@);
    acc
}

} // verus!
