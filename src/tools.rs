//! Modular exponentiation over little-endian byte strings.
use crate::bignum::{big_mul, big_rem, le_bytes, le_nat, lemma_le_bytes_value};
use vstd::arithmetic::div_mod::{
    lemma_div_denominator, lemma_fundamental_div_mod, lemma_mul_mod_noop, lemma_mul_mod_noop_left,
    lemma_small_mod,
};
use vstd::arithmetic::power::{lemma_pow0, lemma_pow1, lemma_pow_adds, pow};
use vstd::arithmetic::power2::{lemma2_to64, lemma_pow2_unfold, pow2};
use vstd::bits::lemma_u8_shr_is_div;
use vstd::prelude::*;

verus! {

/// `b` to the power `e`, reduced modulo `m`.
pub open spec fn mod_pow(b: nat, e: nat, m: nat) -> nat
    recommends
        m > 0,
{
    (pow(b as int, e) % (m as int)) as nat
}

/// The value of the bytes of `s` from position `i` on.
spec fn suffix_value(s: Seq<u8>, i: int) -> nat {
    le_nat(s.subrange(i, s.len() as int))
}

proof fn lemma_suffix_step(s: Seq<u8>, i: int)
    requires
        0 <= i < s.len(),
    ensures
        suffix_value(s, i) == s[i] as nat + 256 * suffix_value(s, i + 1),
{
    let t = s.subrange(i, s.len() as int);
    assert(t.subrange(1, t.len() as int) =~= s.subrange(i + 1, s.len() as int));
}

/// Squaring the accumulated power doubles its exponent.
proof fn lemma_square_step(b: int, ex: nat, m: int)
    requires
        m > 0,
    ensures
        ((pow(b, ex) % m) * (pow(b, ex) % m)) % m == pow(b, 2 * ex) % m,
{
    lemma_mul_mod_noop(pow(b, ex), pow(b, ex), m);
    lemma_pow_adds(b, ex, ex);
    assert(ex + ex == 2 * ex);
}

/// Multiplying the accumulated power by the base adds one to its exponent.
proof fn lemma_multiply_step(b: int, ex: nat, m: int)
    requires
        m > 0,
        b >= 0,
    ensures
        ((pow(b, ex) % m) * b) % m == pow(b, ex + 1) % m,
{
    lemma_mul_mod_noop_left(pow(b, ex), b, m);
    lemma_pow_adds(b, ex, 1);
    lemma_pow1(b);
}

/// The exponent bookkeeping of one bit, most significant first.
proof fn lemma_bit_step(hi: nat, byte: u8, j: nat, ex: nat)
    requires
        j < 8,
        ex == hi * pow2((8 - (j + 1)) as nat) + (byte as nat) / pow2(j + 1),
    ensures
        2 * ex + ((byte as nat) / pow2(j)) % 2 == hi * pow2((8 - j) as nat) + (byte as nat)
            / pow2(j),
{
    let y = (byte as nat) / pow2(j);
    lemma_pow2_unfold(j + 1);
    lemma_pow2_unfold((8 - j) as nat);
    assert(pow2(j) > 0) by {
        vstd::arithmetic::power2::lemma_pow2_pos(j);
    }
    lemma_div_denominator(byte as int, pow2(j) as int, 2);
    assert(pow2(j) * 2 == pow2(j + 1)) by (nonlinear_arith)
        requires
            pow2(j + 1) == 2 * pow2(j),
    ;
    lemma_fundamental_div_mod(y as int, 2);
    let p = pow2((8 - (j + 1)) as nat);
    assert(pow2((8 - j) as nat) == 2 * p);
    assert(hi * (2 * p) == 2 * (hi * p)) by (nonlinear_arith);
}

/// `base` to the power `exp`, modulo `modulus`, by square-and-multiply over
/// the bits of `exp`. The result is in canonical form.
pub fn powm(base: &[u8], exp: &[u8], modulus: &[u8]) -> (r: Vec<u8>)
    requires
        le_nat(modulus@) > 1,
    ensures
        r@ == le_bytes(mod_pow(le_nat(base@), le_nat(exp@), le_nat(modulus@))),
{
    let ghost b = le_nat(base@) as int;
    let ghost m = le_nat(modulus@) as int;
    let mut result: Vec<u8> = vec![1u8];
    let ghost mut ex: nat = 0;
    proof {
        lemma_pow0(b);
        lemma_small_mod(1, m as nat);
        assert(le_bytes(1) =~= seq![1u8]);
        assert(exp@.subrange(exp@.len() as int, exp@.len() as int) =~= Seq::<u8>::empty());
        assert(le_nat(Seq::<u8>::empty()) == 0);
    }
    let mut i: usize = exp.len();
    while i > 0
        invariant
            i <= exp@.len(),
            m == le_nat(modulus@),
            m > 1,
            b == le_nat(base@),
            ex == suffix_value(exp@, i as int),
            result@ == le_bytes((pow(b, ex) % m) as nat),
        decreases i,
    {
        i = i - 1;
        let byte: u8 = exp[i];
        let ghost hi = ex;
        proof {
            lemma2_to64();
            assert(pow2(0) == 1);
            vstd::arithmetic::div_mod::lemma_basic_div(byte as int, 256);
            assert((byte as nat) / 256 == 0);
            assert(ex == hi * pow2(0) + (byte as nat) / pow2(8));
        }
        let mut j: u8 = 8;
        while j > 0
            invariant
                j <= 8,
                m == le_nat(modulus@),
                m > 1,
                b == le_nat(base@),
                b >= 0,
                ex == hi * pow2((8 - j) as nat) + (byte as nat) / pow2(j as nat),
                result@ == le_bytes((pow(b, ex) % m) as nat),
            decreases j,
        {
            j = j - 1;
            proof {
                lemma_le_bytes_value((pow(b, ex) % m) as nat);
                assert(le_nat(result@) == pow(b, ex) % m);
            }
            let sq = big_mul(&result, &result);
            result = big_rem(&sq, modulus);
            proof {
                lemma_square_step(b, ex, m);
                let prev = pow(b, ex) % m;
                lemma_le_bytes_value((prev * prev) as nat);
                assert(le_nat(sq@) == prev * prev);
                assert(result@ == le_bytes((pow(b, 2 * ex) % m) as nat));
            }
            let bit: u8 = (byte >> j) & 1;
            proof {
                lemma_u8_shr_is_div(byte, j);
                let s = byte >> j;
                assert(s & 1 == s % 2) by (bit_vector);
                lemma_bit_step(hi, byte, j as nat, ex);
            }
            if bit == 1 {
                proof {
                    lemma_le_bytes_value((pow(b, 2 * ex) % m) as nat);
                }
                let t = big_mul(&result, base);
                result = big_rem(&t, modulus);
                proof {
                    let prev = pow(b, 2 * ex) % m;
                    lemma_le_bytes_value((prev * b) as nat);
                    lemma_multiply_step(b, 2 * ex, m);
                    ex = 2 * ex + 1;
                }
            } else {
                proof {
                    ex = 2 * ex;
                }
            }
        }
        proof {
            lemma2_to64();
            assert((byte as nat) / pow2(0) == byte as nat);
            assert(ex == hi * 256 + byte as nat);
            lemma_suffix_step(exp@, i as int);
            assert(exp@[i as int] == byte);
            assert(ex == suffix_value(exp@, i as int));
        }
    }
    proof {
        assert(exp@.subrange(0, exp@.len() as int) =~= exp@);
    }
    result
}

} // verus!
