use num::{BigUint, One};
use srp::bignum::{is_zero, normalize};
use srp::client::{srp6a_private_key, SrpClient, SrpClientVerifier};
use srp::hash::{Sha256, SrpDigest};
use srp::tools::powm;
use srp::types::{SrpAuthError, SrpParams};

fn hex(s: &str) -> Vec<u8> {
    (0..s.len() / 2)
        .map(|i| u8::from_str_radix(&s[2 * i..2 * i + 2], 16).unwrap())
        .collect()
}

fn small_params() -> SrpParams {
    // n = 1000003, g = 2, k = 3
    SrpParams { n: vec![67, 66, 15], g: vec![2], k: vec![3] }
}

fn big_n() -> BigUint {
    (BigUint::one() << 1024usize) - BigUint::from(105u32)
}

fn big_params() -> SrpParams {
    SrpParams { n: big_n().to_bytes_le(), g: vec![5], k: vec![7] }
}

fn small_verifier() -> SrpClientVerifier<Sha256> {
    let params = small_params();
    let client = SrpClient::<Sha256>::new(&params, &[0x39, 0x30]);
    client.process_reply(&[0x15, 0xcd, 0x5b, 0x07], &[0x40, 0xe2, 0x01, 0x00]).unwrap()
}

/// Server side of the exchange, written with `num` directly.
fn server_key(params: &SrpParams, a_pub: &[u8], x: &[u8], b: &BigUint) -> (Vec<u8>, Vec<u8>) {
    let n = BigUint::from_bytes_le(&params.n);
    let g = BigUint::from_bytes_le(&params.g);
    let k = BigUint::from_bytes_le(&params.k);
    let v = g.modpow(&BigUint::from_bytes_le(x), &n);
    let b_pub = ((&k * &v) + g.modpow(b, &n)) % &n;
    let b_bytes = b_pub.to_bytes_le();
    let mut ua = a_pub.to_vec();
    ua.extend_from_slice(&b_bytes);
    let u = BigUint::from_bytes_le(&Sha256::digest(&ua));
    let a = BigUint::from_bytes_le(a_pub);
    let s = ((a * v.modpow(&u, &n)) % &n).modpow(b, &n);
    (b_bytes, Sha256::digest(&s.to_bytes_le()))
}

#[test]
fn powm_small_values() {
    assert_eq!(powm(&[3], &[5], &[7]), vec![5]);
    assert_eq!(powm(&[2], &[10], &[0xe8, 0x03]), vec![24]);
    assert_eq!(powm(&[9], &[], &[7]), vec![1]);
    assert_eq!(powm(&[9], &[0, 0], &[7]), vec![1]);
    assert_eq!(powm(&[0], &[3], &[7]), vec![0]);
}

#[test]
fn powm_matches_num_on_large_values() {
    let n = big_n();
    let base = BigUint::from(0x1234_5678_9abc_def1u64) * BigUint::from(0xfedc_ba98u64);
    let exp = (BigUint::one() << 300usize) + BigUint::from(12345u32);
    let expected = base.modpow(&exp, &n).to_bytes_le();
    assert_eq!(powm(&base.to_bytes_le(), &exp.to_bytes_le(), &n.to_bytes_le()), expected);
}

#[test]
fn normalize_and_zero() {
    assert_eq!(normalize(&[5, 0, 0]), vec![5]);
    assert_eq!(normalize(&[]), vec![0]);
    assert_eq!(normalize(&[0, 1]), vec![0, 1]);
    assert!(is_zero(&[0, 0, 0]));
    assert!(is_zero(&[]));
    assert!(!is_zero(&[0, 0, 1]));
}

#[test]
fn params_validity() {
    assert!(small_params().is_valid());
    assert!(!SrpParams { n: vec![1], g: vec![2], k: vec![3] }.is_valid());
    assert!(!SrpParams { n: vec![], g: vec![2], k: vec![3] }.is_valid());
    assert_eq!(small_params().powm(&[10]), vec![0, 4]);
}

#[test]
fn public_ephemeral_is_g_pow_a() {
    let params = small_params();
    let client = SrpClient::<Sha256>::new(&params, &[0x39, 0x30]);
    assert_eq!(client.get_a_pub(), vec![80, 94, 9]);
    let again = SrpClient::<Sha256>::new(&params, &[0x39, 0x30, 0x00]);
    assert_eq!(again.get_a_pub(), client.get_a_pub());
    assert_eq!(client.get_a_pub(), client.get_a_pub());
}

#[test]
fn password_verifier_is_g_pow_x() {
    let params = small_params();
    let client = SrpClient::<Sha256>::new(&params, &[1]);
    let v1 = client.get_password_verifier(&[0x15, 0xcd, 0x5b, 0x07]);
    assert_eq!(v1, vec![73, 35, 11]);
    assert_eq!(client.get_password_verifier(&[0x15, 0xcd, 0x5b, 0x07]), v1);
}

#[test]
fn private_key_vector() {
    let pk = srp6a_private_key::<Sha256>(b"alice", b"password123", b"salt");
    assert_eq!(pk, hex("cf02c447eee874b59ad5999548c0ad69a4fb145693aef16223ff78e13024809e"));
}

#[test]
fn sha256_digest_vector() {
    assert_eq!(
        Sha256::digest(b"abc"),
        hex("ba7816bf8f01cfea414140de5dae2223b00361a396177a9cb410ff61f20015ad")
    );
}

#[test]
fn handshake_reference_vectors() {
    let verifier = small_verifier();
    assert_eq!(
        verifier.get_proof(),
        hex("2225985a8b7a41a111c8807d8372645f2b91dc2acd48183a3168b7db4a553496")
    );
    assert_eq!(
        verifier.get_key(),
        hex("80784af473a08a99baf13fc74d5eb6d94d4fca8cf3e9acbb7094965574756071")
    );
}

#[test]
fn verify_server_accepts_expected_proof() {
    let verifier = small_verifier();
    let m2 = hex("e8e0dc34d7807f9eda9c4f4e991d12a8a9d56a81e829a032e6847e181b182972");
    assert_eq!(
        verifier.verify_server(&m2),
        Ok(hex("80784af473a08a99baf13fc74d5eb6d94d4fca8cf3e9acbb7094965574756071"))
    );
}

#[test]
fn verify_server_rejects_flipped_bit() {
    let m2 = hex("e8e0dc34d7807f9eda9c4f4e991d12a8a9d56a81e829a032e6847e181b182972");
    for i in [0usize, 7, 31] {
        for bit in [0u8, 3, 7] {
            let mut reply = m2.clone();
            reply[i] ^= 1 << bit;
            assert_eq!(
                small_verifier().verify_server(&reply),
                Err(SrpAuthError::ServerAuthenticationFailed)
            );
        }
    }
    assert_eq!(
        small_verifier().verify_server(&m2[..31]),
        Err(SrpAuthError::ServerAuthenticationFailed)
    );
    assert_eq!(small_verifier().verify_server(&[]), Err(SrpAuthError::ServerAuthenticationFailed));
}

#[test]
fn get_proof_is_idempotent() {
    let verifier = small_verifier();
    let p1 = verifier.get_proof();
    let p2 = verifier.get_proof();
    assert_eq!(p1, p2);
    assert_eq!(p1.len(), 32);
}

#[test]
fn malicious_public_values_are_rejected() {
    let params = small_params();
    let multiples: Vec<Vec<u8>> = vec![
        vec![],
        vec![0],
        vec![0, 0, 0, 0],
        vec![67, 66, 15],
        vec![67, 66, 15, 0],
        (BigUint::from(1000003u32) * BigUint::from(12345u32)).to_bytes_le(),
    ];
    for b in multiples {
        let client = SrpClient::<Sha256>::new(&params, &[0x39, 0x30]);
        let r = client.process_reply(&[1, 2, 3], &b);
        assert!(matches!(r, Err(SrpAuthError::MaliciousPublicValue)));
    }
    let client = SrpClient::<Sha256>::new(&params, &[0x39, 0x30]);
    assert!(client.process_reply(&[1, 2, 3], &[68, 66, 15]).is_ok());
}

#[test]
fn client_and_server_derive_the_same_key() {
    let params = big_params();
    let x = srp6a_private_key::<Sha256>(b"bob", b"hunter2", b"pepper");
    for (a_secret, b_secret) in [(vec![0x11u8; 128], 77u64), (vec![0xa5u8; 64], 1u64 << 40)] {
        let client = SrpClient::<Sha256>::new(&params, &a_secret);
        let a_pub = client.get_a_pub();
        let (b_pub, server_k) = server_key(&params, &a_pub, &x, &BigUint::from(b_secret));
        let verifier = client.process_reply(&x, &b_pub).unwrap();
        assert_eq!(verifier.get_key(), server_k);
    }
}

#[test]
fn generated_session_is_usable() {
    let params = big_params();
    let client = SrpClient::<Sha256>::generate(&params).unwrap();
    let a_pub = BigUint::from_bytes_le(&client.get_a_pub());
    assert!(a_pub < big_n());
    let x = srp6a_private_key::<Sha256>(b"carol", b"pw", b"s");
    let (b_pub, server_k) = server_key(&params, &client.get_a_pub(), &x, &BigUint::from(99u32));
    let verifier = client.process_reply(&x, &b_pub).unwrap();
    assert_eq!(verifier.get_key(), server_k);
}

#[test]
fn error_descriptions() {
    assert_eq!(SrpAuthError::MaliciousPublicValue.description(), "Malicious b_pub value");
    assert_eq!(SrpAuthError::ServerAuthenticationFailed.description(), "Incorrect server proof");
    assert_eq!(SrpAuthError::RandomSourceFailure.description(), "Random source failure");
}

#[test]
fn secret_len_is_a_byte_count_of_the_modulus_bits() {
    assert_eq!(SrpClient::<Sha256>::secret_len(&small_params()), 2);
    assert_eq!(SrpClient::<Sha256>::secret_len(&big_params()), 128);
    let p = SrpParams { n: vec![0xff, 0x7f], g: vec![2], k: vec![3] };
    assert_eq!(SrpClient::<Sha256>::secret_len(&p), 1);
}

#[test]
fn failed_draw_is_random_source_failure() {
    let params = small_params();
    let r = SrpClient::<Sha256>::from_random_bytes(&params, None);
    assert!(matches!(r, Err(SrpAuthError::RandomSourceFailure)));
}

#[test]
fn drawn_bytes_become_the_secret() {
    let params = small_params();
    let client = SrpClient::<Sha256>::from_random_bytes(&params, Some(vec![0x39, 0x30])).unwrap();
    assert_eq!(client.get_a_pub(), vec![80, 94, 9]);
}
