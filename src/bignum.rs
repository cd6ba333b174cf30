//! Arbitrary-precision unsigned integers, carried as little-endian byte strings.
//!
//! The arithmetic itself is done by `num`'s `BigUint`; each operation is a thin
//! wrapper whose contract is stated over `le_nat` (the value of a byte string)
//! and `le_bytes` (the canonical encoding of a value).
use num::BigUint;
use vstd::prelude::*;

verus! {

/// Value of a little-endian byte string.
pub open spec fn le_nat(s: Seq<u8>) -> nat
    decreases s.len(),
{
    if s.len() == 0 {
        0
    } else {
        s[0] as nat + 256 * le_nat(s.subrange(1, s.len() as int))
    }
}

/// Canonical little-endian encoding of a value: the shortest one, with zero
/// written as a single zero byte.
pub open spec fn le_bytes(n: nat) -> Seq<u8>
    decreases n,
{
    if n < 256 {
        seq![n as u8]
    } else {
        seq![(n % 256) as u8] + le_bytes(n / 256)
    }
}

/// Decoding the canonical encoding gives the value back.
pub proof fn lemma_le_bytes_value(n: nat)
    ensures
        le_nat(le_bytes(n)) == n,
        le_bytes(n).len() >= 1,
    decreases n,
{
    if n < 256 {
        let s = le_bytes(n);
        assert(s.subrange(1, 1) =~= Seq::<u8>::empty());
        assert(le_nat(Seq::<u8>::empty()) == 0);
    } else {
        lemma_le_bytes_value(n / 256);
        let s = le_bytes(n);
        assert(s.subrange(1, s.len() as int) =~= le_bytes(n / 256));
    }
}

/// The canonical encoding is the single byte zero exactly for the value zero.
pub proof fn lemma_le_bytes_zero(n: nat)
    ensures
        (le_bytes(n).len() == 1 && le_bytes(n)[0] == 0) <==> n == 0,
{
    if n >= 256 {
        lemma_le_bytes_value(n / 256);
    }
}

/// Relies on `BigUint::from_bytes_le`, `Add` and `BigUint::to_bytes_le`: the sum.
#[verifier::external_body]
pub(crate) fn big_add(a: &[u8], b: &[u8]) -> (r: Vec<u8>)
    ensures
        r@ == le_bytes(le_nat(a@) + le_nat(b@)),
{
    (BigUint::from_bytes_le(a) + BigUint::from_bytes_le(b)).to_bytes_le()
}

/// Relies on `BigUint::from_bytes_le`, `Sub` and `BigUint::to_bytes_le`: the
/// difference, which `num` panics on when it would be negative.
#[verifier::external_body]
pub(crate) fn big_sub(a: &[u8], b: &[u8]) -> (r: Vec<u8>)
    requires
        le_nat(a@) >= le_nat(b@),
    ensures
        r@ == le_bytes((le_nat(a@) - le_nat(b@)) as nat),
{
    (BigUint::from_bytes_le(a) - BigUint::from_bytes_le(b)).to_bytes_le()
}

/// Relies on `BigUint::from_bytes_le`, `Mul` and `BigUint::to_bytes_le`: the
/// product.
#[verifier::external_body]
pub(crate) fn big_mul(a: &[u8], b: &[u8]) -> (r: Vec<u8>)
    ensures
        r@ == le_bytes(le_nat(a@) * le_nat(b@)),
{
    (BigUint::from_bytes_le(a) * BigUint::from_bytes_le(b)).to_bytes_le()
}

/// Relies on `BigUint::from_bytes_le`, `Rem` and `BigUint::to_bytes_le`: the
/// remainder, which `num` panics on for a zero divisor.
#[verifier::external_body]
pub(crate) fn big_rem(a: &[u8], m: &[u8]) -> (r: Vec<u8>)
    requires
        le_nat(m@) > 0,
    ensures
        r@ == le_bytes(le_nat(a@) % le_nat(m@)),
{
    (BigUint::from_bytes_le(a) % BigUint::from_bytes_le(m)).to_bytes_le()
}

/// Relies on `BigUint::from_bytes_le` and `PartialOrd::gt` on `BigUint`: the
/// comparison of the two values.
#[verifier::external_body]
pub(crate) fn big_gt(a: &[u8], b: &[u8]) -> (r: bool)
    ensures
        r == (le_nat(a@) > le_nat(b@)),
{
    BigUint::from_bytes_le(a) > BigUint::from_bytes_le(b)
}

/// Number of bits needed to write `n`.
pub open spec fn bit_len(n: nat) -> nat
    decreases n,
{
    if n == 0 {
        0
    } else {
        1 + bit_len(n / 2)
    }
}

/// Relies on `BigUint::from_bytes_le` and `BigUint::bits`: the bit length.
#[verifier::external_body]
pub(crate) fn big_bits(a: &[u8]) -> (r: u64)
    requires
        a@.len() <= usize::MAX / 8,
    ensures
        r as nat == bit_len(le_nat(a@)),
{
    BigUint::from_bytes_le(a).bits()
}

/// Canonical encoding of `a`'s value.
pub fn normalize(a: &[u8]) -> (r: Vec<u8>)
    ensures
        r@ == le_bytes(le_nat(a@)),
{
    big_add(a, &[])
}

/// Whether the value of `a` is zero.
pub fn is_zero(a: &[u8]) -> (r: bool)
    ensures
        r == (le_nat(a@) == 0),
{
    let c = normalize(a);
    proof {
        lemma_le_bytes_zero(le_nat(a@));
    }
    c.len() == 1 && c[0] == 0
}

} // verus!
