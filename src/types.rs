//! Shared protocol parameters and the errors of the exchange.
use crate::bignum::{le_bytes, le_nat};
use crate::tools::{mod_pow, powm};
use vstd::prelude::*;

verus! {

/// Group parameters shared by client and server, each a little-endian
/// integer: the modulus `n`, the generator `g` and the multiplier `k`.
pub struct SrpParams {
    pub n: Vec<u8>,
    pub g: Vec<u8>,
    pub k: Vec<u8>,
}

impl SrpParams {
    pub open spec fn n_val(&self) -> nat {
        le_nat(self.n@)
    }

    pub open spec fn g_val(&self) -> nat {
        le_nat(self.g@)
    }

    pub open spec fn k_val(&self) -> nat {
        le_nat(self.k@)
    }

    /// Parameters are usable when the modulus exceeds one.
    pub open spec fn wf(&self) -> bool {
        self.n_val() > 1
    }

    /// Whether these parameters are usable, that is whether the modulus
    /// exceeds one.
    pub fn is_valid(&self) -> (r: bool)
        ensures
            r == self.wf(),
    {
        let one: [u8; 1] = [1u8];
        proof {
            assert(one@.subrange(1, 1) =~= Seq::<u8>::empty());
            assert(le_nat(Seq::<u8>::empty()) == 0);
        }
        crate::bignum::big_gt(&self.n, &one)
    }

    /// `g` to the power `v`, modulo `n`.
    pub fn powm(&self, v: &[u8]) -> (r: Vec<u8>)
        requires
            self.wf(),
        ensures
            r@ == le_bytes(mod_pow(self.g_val(), le_nat(v@), self.n_val())),
    {
        powm(&self.g, v, &self.n)
    }
}

/// Ways in which the exchange can fail.
#[derive(Debug, Clone, Copy, PartialEq, Eq, Structural)]
pub enum SrpAuthError {
    /// The server's public value is a multiple of the modulus.
    MaliciousPublicValue,
    /// The server's proof differs from the one expected.
    ServerAuthenticationFailed,
    /// The random source could not supply the secret exponent.
    RandomSourceFailure,
}

impl SrpAuthError {
    /// A short description of the failure.
    pub fn description(&self) -> (r: &'static str)
        ensures
            *self == SrpAuthError::MaliciousPublicValue ==> r@ == "Malicious b_pub value"@,
            *self == SrpAuthError::ServerAuthenticationFailed ==> r@ == "Incorrect server proof"@,
            *self == SrpAuthError::RandomSourceFailure ==> r@ == "Random source failure"@,
    {
        match self {
            SrpAuthError::MaliciousPublicValue => "Malicious b_pub value",
            SrpAuthError::ServerAuthenticationFailed => "Incorrect server proof",
            SrpAuthError::RandomSourceFailure => "Random source failure",
        }
    }
}

} // verus!
