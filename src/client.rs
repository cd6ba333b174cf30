//! SRP-6a client: the ephemeral key, the handshake and the check of the
//! server's proof.
//!
//! A session starts with `SrpClient::new` (from secret bytes) or
//! `SrpClient::generate` (from the operating system's random source). Its
//! public value goes to the server; the server's reply goes to
//! `process_reply`, which consumes the session and yields a
//! `SrpClientVerifier`. That one hands out the client's proof, and releases
//! the session key once `verify_server` has matched the server's proof.
use crate::bignum::{
    big_add, big_bits, big_gt, big_mul, big_rem, big_sub, bit_len, is_zero, le_bytes, le_nat,
    lemma_le_bytes_value, normalize,
};
use crate::hash::{append_bytes, SrpDigest};
use crate::tools::{mod_pow, powm};
use crate::types::{SrpAuthError, SrpParams};
use std::marker::PhantomData;
use vstd::arithmetic::div_mod::lemma_mod_add_multiples_vanish;
use vstd::arithmetic::power2::{lemma_pow2_adds, pow2};
use vstd::prelude::*;

verus! {

#[verifier::external_type_specification]
#[verifier::external_body]
pub struct ExRandError(rand::Error);

/// Client's public ephemeral value for secret exponent `a`: `g^a mod n`, encoded.
pub open spec fn public_ephemeral(params: SrpParams, a: nat) -> Seq<u8> {
    le_bytes(mod_pow(params.g_val(), a, params.n_val()))
}

/// Password verifier for private key value `x`: `g^x mod n`, encoded.
pub open spec fn password_verifier(params: SrpParams, x: nat) -> Seq<u8> {
    le_bytes(mod_pow(params.g_val(), x, params.n_val()))
}

/// `(b - k * g^x) mod n`, never negative.
pub open spec fn blinded_base(params: SrpParams, x: nat, b: nat) -> nat {
    let n = params.n_val() as int;
    let interm = (params.k_val() * mod_pow(params.g_val(), x, params.n_val())) as int % n;
    ((b as int - interm) % n) as nat
}

/// The shared secret the client derives: `(b - k * g^x) ^ (a + (u * x mod n)) mod n`.
pub open spec fn premaster_secret(params: SrpParams, a: nat, x: nat, u: nat, b: nat) -> nat {
    let n = params.n_val();
    mod_pow(blinded_base(params, x, b), a + (u * x) % n, n)
}

/// The scrambling value `u = H(A || B)`, over the bytes of `B` as received.
pub open spec fn scrambler<D: SrpDigest>(a_pub: Seq<u8>, b_raw: Seq<u8>) -> nat {
    le_nat(D::spec_digest(a_pub + b_raw))
}

/// Session key `K` of a handshake: the digest of the encoded shared secret.
pub open spec fn session_key<D: SrpDigest>(params: SrpParams, a: nat, x: nat, b_raw: Seq<u8>) -> Seq<u8> {
    let a_pub = public_ephemeral(params, a);
    let u = scrambler::<D>(a_pub, b_raw);
    D::spec_digest(le_bytes(premaster_secret(params, a, x, u, le_nat(b_raw))))
}

/// Client proof `M1 = H(A || B || K)`, with `B` in canonical form.
pub open spec fn client_proof<D: SrpDigest>(params: SrpParams, a: nat, x: nat, b_raw: Seq<u8>) -> Seq<u8> {
    D::spec_digest(
        public_ephemeral(params, a) + le_bytes(le_nat(b_raw)) + session_key::<D>(params, a, x, b_raw),
    )
}

/// Expected server proof `M2 = H(A || M1 || K)`.
pub open spec fn server_proof<D: SrpDigest>(params: SrpParams, a: nat, x: nat, b_raw: Seq<u8>) -> Seq<u8> {
    D::spec_digest(
        public_ephemeral(params, a) + client_proof::<D>(params, a, x, b_raw) + session_key::<D>(
            params,
            a,
            x,
            b_raw,
        ),
    )
}

/// Whether a server public value is refused: it is a multiple of `n`.
pub open spec fn is_malicious(params: SrpParams, b_raw: Seq<u8>) -> bool {
    le_nat(b_raw) % params.n_val() == 0
}

/// The value of a byte string is below `2^(8 * len)`.
proof fn lemma_le_nat_bound(s: Seq<u8>)
    ensures
        le_nat(s) < pow2(8 * s.len()),
    decreases s.len(),
{
    if s.len() == 0 {
        vstd::arithmetic::power2::lemma2_to64();
    } else {
        let rest = s.subrange(1, s.len() as int);
        lemma_le_nat_bound(rest);
        lemma_pow2_adds(8, 8 * rest.len());
        vstd::arithmetic::power2::lemma2_to64();
        assert(8 * s.len() == 8 + 8 * rest.len());
    }
}

/// A value below `2^k` needs at most `k` bits.
proof fn lemma_bit_len_bound(x: nat, k: nat)
    requires
        x < pow2(k),
    ensures
        bit_len(x) <= k,
    decreases k,
{
    if x > 0 {
        if k == 0 {
            vstd::arithmetic::power2::lemma2_to64();
        } else {
            vstd::arithmetic::power2::lemma_pow2_unfold(k);
            lemma_bit_len_bound(x / 2, (k - 1) as nat);
        }
    }
}

/// Relies on `rand::rngs::OsRng` and `RngCore::try_fill_bytes`: on success,
/// `len` bytes from the operating system's random source.
#[verifier::external_body]
fn os_random_bytes(len: usize) -> (r: Result<Vec<u8>, rand::Error>)
    ensures
        r matches Ok(v) ==> v@.len() == len,
{
    let mut buf = vec![0u8; len];
    match rand::RngCore::try_fill_bytes(&mut rand::rngs::OsRng, &mut buf) {
        Ok(()) => Ok(buf),
        Err(e) => Err(e),
    }
}

/// A copy of `src`.
fn copy_bytes(src: &[u8]) -> (r: Vec<u8>)
    ensures
        r@ == src@,
{
    let mut out: Vec<u8> = Vec::new();
    append_bytes(&mut out, src);
    proof {
        assert(Seq::<u8>::empty() + src@ =~= src@);
    }
    out
}

/// `a || b || c`.
fn concat3(a: &[u8], b: &[u8], c: &[u8]) -> (r: Vec<u8>)
    ensures
        r@ == a@ + b@ + c@,
{
    let mut out = copy_bytes(a);
    append_bytes(&mut out, b);
    append_bytes(&mut out, c);
    out
}

/// Whether two byte strings are equal.
fn bytes_eq(a: &[u8], b: &[u8]) -> (r: bool)
    ensures
        r == (a@ == b@),
{
    if a.len() != b.len() {
        return false;
    }
    let mut i: usize = 0;
    while i < a.len()
        invariant
            a@.len() == b@.len(),
            i <= a@.len(),
            forall|j: int| 0 <= j < i ==> a@[j] == b@[j],
        decreases a@.len() - i,
    {
        if a[i] != b[i] {
            return false;
        }
        i = i + 1;
    }
    proof {
        assert(a@ =~= b@);
    }
    true
}

/// Compute user private key as described in SRP-6a:
/// `H(salt || H(username || ":" || password))`. A dedicated password hashing
/// function is the better choice where one can be had.
pub fn srp6a_private_key<D: SrpDigest>(username: &[u8], password: &[u8], salt: &[u8]) -> (r: Vec<u8>)
    ensures
        r@ == D::spec_digest(salt@ + D::spec_digest(username@ + seq![58u8] + password@)),
{
    let colon: [u8; 1] = [58u8];
    let inner = concat3(username, &colon, password);
    proof {
        assert(colon@ =~= seq![58u8]);
    }
    let p = D::digest(&inner);
    let outer = concat3(salt, &p, &[]);
    proof {
        assert(outer@ =~= salt@ + p@);
    }
    D::digest(&outer)
}

/// SRP client state before the handshake with the server.
pub struct SrpClient<'a, D> {
    params: &'a SrpParams,
    a: Vec<u8>,
    a_pub: Vec<u8>,
    d: PhantomData<D>,
}

impl<'a, D> SrpClient<'a, D> {
    #[verifier::type_invariant]
    spec fn inv(&self) -> bool {
        &&& self.params.wf()
        &&& self.a_pub@ == public_ephemeral(*self.params, le_nat(self.a@))
    }

    /// The parameters of the session.
    pub closed spec fn spec_params(&self) -> SrpParams {
        *self.params
    }

    /// The secret exponent `a`.
    pub closed spec fn secret(&self) -> nat {
        le_nat(self.a@)
    }

    /// Create a session whose secret exponent is the little-endian value of
    /// `a`; its public value is `g^a mod n`.
    pub fn new(params: &'a SrpParams, a: &[u8]) -> (r: Self)
        requires
            params.wf(),
        ensures
            r.spec_params() == *params,
            r.secret() == le_nat(a@),
    {
        let a_pub = params.powm(a);
        SrpClient { params, a: copy_bytes(a), a_pub, d: PhantomData }
    }

    /// Number of random bytes drawn for a secret exponent: `bits(n) / 8`.
    pub fn secret_len(params: &SrpParams) -> (r: usize)
        requires
            params.n@.len() <= usize::MAX / 8,
        ensures
            r as nat == bit_len(params.n_val()) / 8,
    {
        let bits: u64 = big_bits(&params.n);
        proof {
            lemma_le_nat_bound(params.n@);
            lemma_bit_len_bound(params.n_val(), 8 * params.n@.len());
        }
        (bits / 8) as usize
    }

    /// Create a session from what the random source returned: `Some` bytes
    /// become the secret exponent, as in `new`; `None`, a failed draw, is
    /// `RandomSourceFailure`.
    pub fn from_random_bytes(params: &'a SrpParams, draw: Option<Vec<u8>>) -> (r: Result<
        Self,
        SrpAuthError,
    >)
        requires
            params.wf(),
        ensures
            r is Err <==> draw is None,
            draw matches Some(b) ==> (r matches Ok(c) && c.spec_params() == *params && c.secret()
                == le_nat(b@)),
            r matches Err(e) ==> e == SrpAuthError::RandomSourceFailure,
    {
        match draw {
            Some(buf) => Ok(Self::new(params, &buf)),
            None => Err(SrpAuthError::RandomSourceFailure),
        }
    }

    /// Create a session with a fresh secret exponent of `secret_len(params)`
    /// bytes from the operating system's random source, through
    /// `from_random_bytes`. Fails only where that source does.
    pub fn generate(params: &'a SrpParams) -> (r: Result<Self, SrpAuthError>)
        requires
            params.wf(),
            params.n@.len() <= usize::MAX / 8,
        ensures
            r matches Ok(c) ==> c.spec_params() == *params && c.secret() < pow2(
                8 * (bit_len(params.n_val()) / 8),
            ),
            r matches Err(e) ==> e == SrpAuthError::RandomSourceFailure,
    {
        let l: usize = Self::secret_len(params);
        let draw: Option<Vec<u8>> = match os_random_bytes(l) {
            Ok(buf) => {
                proof {
                    lemma_le_nat_bound(buf@);
                }
                Some(buf)
            },
            Err(_) => None,
        };
        Self::from_random_bytes(params, draw)
    }

    /// Password verifier `g^x mod n` for registration on the server, where
    /// `x` is the little-endian value of `private_key`.
    pub fn get_password_verifier(&self, private_key: &[u8]) -> (r: Vec<u8>)
        ensures
            r@ == password_verifier(self.spec_params(), le_nat(private_key@)),
    {
        proof {
            use_type_invariant(self);
        }
        self.params.powm(private_key)
    }

    /// Public ephemeral value `A` to send to the server.
    pub fn get_a_pub(&self) -> (r: Vec<u8>)
        ensures
            r@ == public_ephemeral(self.spec_params(), self.secret()),
    {
        proof {
            use_type_invariant(self);
        }
        copy_bytes(&self.a_pub)
    }
}

impl<'a, D: SrpDigest> SrpClient<'a, D> {
    /// `H(S)`, where `S` is the shared secret for server value `b_pub`,
    /// private key `x` and scrambler `u`.
    fn calc_key(&self, b_pub: &[u8], x: &[u8], u: &[u8]) -> (r: Vec<u8>)
        ensures
            r@ == D::spec_digest(
                le_bytes(
                    premaster_secret(
                        self.spec_params(),
                        self.secret(),
                        le_nat(x@),
                        le_nat(u@),
                        le_nat(b_pub@),
                    ),
                ),
            ),
    {
        proof {
            use_type_invariant(self);
        }
        let ghost p = *self.params;
        let ghost nv = p.n_val() as int;
        let ghost b = le_nat(b_pub@) as int;
        let n: &Vec<u8> = &self.params.n;
        let gx = self.params.powm(x);
        let kgx = big_mul(&self.params.k, &gx);
        let interm = big_rem(&kgx, n);
        let ghost iv = (p.k_val() * mod_pow(p.g_val(), le_nat(x@), p.n_val())) as int % nv;
        proof {
            lemma_le_bytes_value(mod_pow(p.g_val(), le_nat(x@), p.n_val()));
            lemma_le_bytes_value(p.k_val() * mod_pow(p.g_val(), le_nat(x@), p.n_val()));
            lemma_le_bytes_value(iv as nat);
        }
        // Working modulo n, b may be smaller than k * g^x mod n.
        let v = if big_gt(b_pub, &interm) {
            let diff = big_sub(b_pub, &interm);
            proof {
                lemma_le_bytes_value((b - iv) as nat);
            }
            big_rem(&diff, n)
        } else {
            let nb = big_add(n, b_pub);
            proof {
                lemma_le_bytes_value((nv + b) as nat);
            }
            let diff = big_sub(&nb, &interm);
            proof {
                lemma_le_bytes_value((nv + b - iv) as nat);
                lemma_mod_add_multiples_vanish(b - iv, nv);
                assert(nv + b - iv == nv + (b - iv));
            }
            big_rem(&diff, n)
        };
        let ux = big_mul(u, x);
        proof {
            lemma_le_bytes_value(le_nat(u@) * le_nat(x@));
        }
        let uxn = big_rem(&ux, n);
        proof {
            lemma_le_bytes_value((le_nat(u@) * le_nat(x@)) % p.n_val());
        }
        let e = big_add(&self.a, &uxn);
        proof {
            lemma_le_bytes_value(le_nat(self.a@) + (le_nat(u@) * le_nat(x@)) % p.n_val());
            lemma_le_bytes_value(blinded_base(p, le_nat(x@), b as nat));
        }
        let s = powm(&v, &e, n);
        D::digest(&s)
    }

    /// Process the server's reply `b_pub` to the handshake, with the user's
    /// `private_key`. Consumes the session. Refuses a `b_pub` that is a
    /// multiple of `n`; otherwise yields the session key and both proofs.
    pub fn process_reply(self, private_key: &[u8], b_pub: &[u8]) -> (r: Result<
        SrpClientVerifier<D>,
        SrpAuthError,
    >)
        ensures
            r is Err <==> is_malicious(self.spec_params(), b_pub@),
            r matches Err(e) ==> e == SrpAuthError::MaliciousPublicValue,
            r matches Ok(v) ==> {
                &&& v.key() == session_key::<D>(
                    self.spec_params(),
                    self.secret(),
                    le_nat(private_key@),
                    b_pub@,
                )
                &&& v.m1() == client_proof::<D>(
                    self.spec_params(),
                    self.secret(),
                    le_nat(private_key@),
                    b_pub@,
                )
                &&& v.m2() == server_proof::<D>(
                    self.spec_params(),
                    self.secret(),
                    le_nat(private_key@),
                    b_pub@,
                )
            },
    {
        proof {
            use_type_invariant(&self);
        }
        let ghost p = *self.params;
        let ghost a = le_nat(self.a@);
        let ghost x = le_nat(private_key@);
        let ua = concat3(&self.a_pub, b_pub, &[]);
        proof {
            assert(ua@ =~= self.a_pub@ + b_pub@);
        }
        let u = D::digest(&ua);

        let b = normalize(b_pub);
        proof {
            lemma_le_bytes_value(le_nat(b_pub@));
        }
        // Safeguard against a malicious b_pub.
        let rem = big_rem(&b, &self.params.n);
        proof {
            lemma_le_bytes_value(le_nat(b_pub@) % p.n_val());
        }
        if is_zero(&rem) {
            return Err(SrpAuthError::MaliciousPublicValue);
        }
        let key = self.calc_key(&b, private_key, &u);
        // M1 = H(A, B, K)
        let m1_input = concat3(&self.a_pub, &b, &key);
        let m1 = D::digest(&m1_input);
        // M2 = H(A, M1, K)
        let m2_input = concat3(&self.a_pub, &m1, &key);
        let m2 = D::digest(&m2_input);
        Ok(SrpClientVerifier { m1, m2, key, d: PhantomData })
    }
}

/// SRP client state after the handshake with the server.
pub struct SrpClientVerifier<D> {
    m1: Vec<u8>,
    m2: Vec<u8>,
    key: Vec<u8>,
    d: PhantomData<D>,
}

impl<D> SrpClientVerifier<D> {
    /// The client's proof `M1`.
    pub closed spec fn m1(&self) -> Seq<u8> {
        self.m1@
    }

    /// The server proof `M2` that is expected.
    pub closed spec fn m2(&self) -> Seq<u8> {
        self.m2@
    }

    /// The session key `K`.
    pub closed spec fn key(&self) -> Seq<u8> {
        self.key@
    }

    /// Shared secret key without authenticating the server, e.g. for use with
    /// authenticated encryption. Not to be used without some other means of
    /// authenticating the server.
    pub fn get_key(self) -> (r: Vec<u8>)
        ensures
            r@ == self.key(),
    {
        self.key
    }

    /// Proof to send to the server.
    pub fn get_proof(&self) -> (r: Vec<u8>)
        ensures
            r@ == self.m1(),
    {
        copy_bytes(&self.m1)
    }

    /// Check the server's reply against the expected proof; the session key is
    /// released only where they are equal.
    pub fn verify_server(self, reply: &[u8]) -> (r: Result<Vec<u8>, SrpAuthError>)
        ensures
            r is Ok <==> reply@ == self.m2(),
            r matches Ok(k) ==> k@ == self.key(),
            r matches Err(e) ==> e == SrpAuthError::ServerAuthenticationFailed,
    {
        if !bytes_eq(&self.m2, reply) {
            Err(SrpAuthError::ServerAuthenticationFailed)
        } else {
            Ok(self.key)
        }
    }
}

} // verus!
