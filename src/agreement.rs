//! Facts that relate the client's computations to each other and to the
//! server's side of the exchange.
use crate::bignum::{le_bytes, le_nat, lemma_le_bytes_value};
use crate::client::{
    blinded_base, password_verifier, premaster_secret, public_ephemeral, scrambler, session_key,
};
use crate::hash::SrpDigest;
use crate::tools::mod_pow;
use crate::types::SrpParams;
use vstd::arithmetic::div_mod::{
    lemma_mul_mod_noop, lemma_small_mod, lemma_sub_mod_noop,
};
use vstd::arithmetic::power::{lemma_pow_adds, lemma_pow_mod_noop, lemma_pow_multiplies, pow};
use vstd::prelude::*;

verus! {

/// Server's public value `B = (k * v + g^b) mod n` for verifier value `v` and
/// server secret `b`.
pub open spec fn server_public(params: SrpParams, v: nat, b: nat) -> nat {
    (params.k_val() * v + mod_pow(params.g_val(), b, params.n_val())) % params.n_val()
}

/// Shared secret on the server's side: `(A * v^u)^b mod n`.
pub open spec fn server_premaster(params: SrpParams, a_pub: nat, v: nat, u: nat, b: nat) -> nat {
    let n = params.n_val();
    mod_pow(a_pub * mod_pow(v, u, n), b, n)
}

/// The public value `A` depends on the parameters and on the value of the
/// secret exponent alone, however that value is encoded, and it encodes
/// `g^a mod n`.
pub proof fn lemma_public_ephemeral_reproducible(params: SrpParams, a1: Seq<u8>, a2: Seq<u8>)
    requires
        params.wf(),
        le_nat(a1) == le_nat(a2),
    ensures
        public_ephemeral(params, le_nat(a1)) == public_ephemeral(params, le_nat(a2)),
        le_nat(public_ephemeral(params, le_nat(a1))) == pow(params.g_val() as int, le_nat(a1))
            % (params.n_val() as int),
{
    lemma_le_bytes_value(mod_pow(params.g_val(), le_nat(a1), params.n_val()));
}

/// The password verifier depends on the parameters and on the value of the
/// private key alone, and it encodes `g^x mod n`.
pub proof fn lemma_password_verifier_deterministic(params: SrpParams, x1: Seq<u8>, x2: Seq<u8>)
    requires
        params.wf(),
        le_nat(x1) == le_nat(x2),
    ensures
        password_verifier(params, le_nat(x1)) == password_verifier(params, le_nat(x2)),
        le_nat(password_verifier(params, le_nat(x1))) == pow(params.g_val() as int, le_nat(x1))
            % (params.n_val() as int),
{
    lemma_le_bytes_value(mod_pow(params.g_val(), le_nat(x1), params.n_val()));
}

/// `(g^e mod n)^f mod n == g^(e * f) mod n`.
proof fn lemma_mod_pow_pow(g: nat, e: nat, f: nat, n: nat)
    requires
        n > 0,
    ensures
        mod_pow(mod_pow(g, e, n), f, n) == mod_pow(g, e * f, n),
{
    let ni = n as int;
    lemma_pow_mod_noop(pow(g as int, e), f, ni);
    lemma_pow_multiplies(g as int, e, f);
}

/// When the server's `B` is built from the verifier, the client removes the
/// verifier's part exactly: what is left is `g^b mod n`.
proof fn lemma_blinded_base(params: SrpParams, x: nat, b: nat)
    requires
        params.wf(),
    ensures
        blinded_base(
            params,
            x,
            server_public(params, mod_pow(params.g_val(), x, params.n_val()), b),
        ) == mod_pow(params.g_val(), b, params.n_val()),
{
    let n = params.n_val() as int;
    let kv = (params.k_val() * mod_pow(params.g_val(), x, params.n_val())) as int;
    let gb = mod_pow(params.g_val(), b, params.n_val()) as int;
    lemma_sub_mod_noop(kv + gb, kv, n);
    assert(kv + gb - kv == gb);
    lemma_small_mod(gb as nat, n as nat);
}

/// Client and server derive the same shared secret, for any secrets `a`,
/// `b`, private key `x` and scrambler `u` with `u * x < n` (the client
/// reduces `u * x` modulo `n`, which keeps the exponent only below `n`).
pub proof fn lemma_client_server_agree(params: SrpParams, a: nat, b: nat, x: nat, u: nat)
    requires
        params.wf(),
        u * x < params.n_val(),
    ensures
        premaster_secret(
            params,
            a,
            x,
            u,
            server_public(params, mod_pow(params.g_val(), x, params.n_val()), b),
        ) == server_premaster(
            params,
            mod_pow(params.g_val(), a, params.n_val()),
            mod_pow(params.g_val(), x, params.n_val()),
            u,
            b,
        ),
{
    let n = params.n_val();
    let ni = n as int;
    let g = params.g_val();
    lemma_blinded_base(params, x, b);
    lemma_small_mod(u * x, n);
    // Client: (g^b)^(a + u x) = g^(b (a + u x)).
    lemma_mod_pow_pow(g, b, a + u * x, n);
    // Server: v^u = g^(x u); A * v^u = g^(a + x u); then to the power b.
    lemma_mod_pow_pow(g, x, u, n);
    let ga = pow(g as int, a);
    let gxu = pow(g as int, x * u);
    lemma_mul_mod_noop(ga, gxu, ni);
    lemma_pow_adds(g as int, a, x * u);
    let y = mod_pow(g, a, n) * mod_pow(g, x * u, n);
    lemma_pow_mod_noop(y as int, b, ni);
    assert(y as int % ni == pow(g as int, a + x * u) % ni);
    lemma_pow_mod_noop(pow(g as int, a + x * u), b, ni);
    lemma_pow_multiplies(g as int, a + x * u, b);
    assert((a + x * u) * b == b * (a + u * x)) by (nonlinear_arith);
}

/// Round trip: the session key that the client derives from a server reply
/// `B = (k * v + g^b) mod n`, with `v` the password verifier, is the digest
/// of the server's shared secret `(A * v^u)^b mod n`, where `u = H(A || B)`
/// is the same scrambler both sides compute; this holds whenever `u * x < n`.
pub proof fn lemma_session_keys_agree<D: SrpDigest>(
    params: SrpParams,
    a: nat,
    b: nat,
    x: nat,
    b_raw: Seq<u8>,
)
    requires
        params.wf(),
        le_nat(b_raw) == server_public(params, mod_pow(params.g_val(), x, params.n_val()), b),
        scrambler::<D>(public_ephemeral(params, a), b_raw) * x < params.n_val(),
    ensures
        session_key::<D>(params, a, x, b_raw) == D::spec_digest(
            le_bytes(
                server_premaster(
                    params,
                    mod_pow(params.g_val(), a, params.n_val()),
                    mod_pow(params.g_val(), x, params.n_val()),
                    scrambler::<D>(public_ephemeral(params, a), b_raw),
                    b,
                ),
            ),
        ),
{
    let u = scrambler::<D>(public_ephemeral(params, a), b_raw);
    lemma_client_server_agree(params, a, b, x, u);
}

} // verus!
