use crypto::digest::Digest;
use crypto::sha2::Sha512;
use hap::srp::{
    check, client_proof, password_verifier, prime, public_key, server_proof, session_key, start,
    GENERATOR, GROUP_LEN, PRIME,
};
use num_bigint::BigUint;

fn hash(parts: &[&[u8]]) -> Vec<u8> {
    let mut hasher = Sha512::new();
    for part in parts {
        hasher.input(part);
    }
    let mut out = vec![0u8; 64];
    hasher.result(&mut out);
    out
}

fn pad(number: &BigUint) -> Vec<u8> {
    let bytes = number.to_bytes_be();
    let mut padded = vec![0u8; GROUP_LEN - bytes.len()];
    padded.extend(bytes);
    padded
}

/// What a client that knows the password makes of the challenge: its public
/// key, its proof and the session key.
fn client(username: &str, password: &str, salt: &[u8], server_key: &[u8], secret: &[u8]) -> (Vec<u8>, Vec<u8>, Vec<u8>) {
    let n = BigUint::from_bytes_be(&PRIME);
    let g = BigUint::from(GENERATOR);
    let a = BigUint::from_bytes_be(secret);
    let public = pad(&g.modpow(&a, &n));
    let x = BigUint::from_bytes_be(&hash(&[salt, &hash(&[username.as_bytes(), b":", password.as_bytes()])]));
    let k = BigUint::from_bytes_be(&hash(&[&PRIME, &pad(&g)]));
    let u = BigUint::from_bytes_be(&hash(&[&public, server_key]));
    let b = BigUint::from_bytes_be(server_key);
    let base = (&b + &n * &k - (&k * g.modpow(&x, &n)) % &n) % &n;
    let premaster = base.modpow(&(&a + &u * &x), &n);
    let key = hash(&[&pad(&premaster)]);
    let hn = hash(&[&PRIME]);
    let hg = hash(&[&[GENERATOR]]);
    let mixed: Vec<u8> = hn.iter().zip(hg.iter()).map(|(n, g)| n ^ g).collect();
    let proof = hash(&[&mixed, &hash(&[username.as_bytes()]), salt, &public, server_key, &key]);
    (public, proof, key)
}

#[test]
fn the_group_is_the_3072_bit_group() {
    assert_eq!(PRIME.len(), 384);
    assert_eq!(prime(), PRIME.to_vec());
    assert_eq!(&PRIME[..10], &[0xff, 0xff, 0xff, 0xff, 0xff, 0xff, 0xff, 0xff, 0xc9, 0x0f]);
    assert_eq!(&PRIME[374..], &[0xd2, 0xca, 0xff, 0xff, 0xff, 0xff, 0xff, 0xff, 0xff, 0xff]);
    assert_eq!(GENERATOR, 5);
    let n = BigUint::from_bytes_be(&PRIME);
    let one = BigUint::from(1u8);
    let two = BigUint::from(2u8);
    let half = (&n - &one) / &two;
    assert_eq!(n.bits(), 3072);
    assert_eq!(two.modpow(&(&n - &one), &n), one);
    assert_eq!(two.modpow(&(&half - &one), &half), one);
    assert_eq!(BigUint::from(5u8).modpow(&half, &n), &n - &one);
}

#[test]
fn verifier_and_public_key_follow_the_protocol() {
    let n = BigUint::from_bytes_be(&PRIME);
    let g = BigUint::from(5u8);
    let salt = [7u8; 16];
    let x = BigUint::from_bytes_be(&hash(&[&salt, &hash(&[b"Pair-Setup:031-45-154"])]));
    let v = g.modpow(&x, &n);
    let verifier = password_verifier(&salt, "Pair-Setup", "031-45-154");
    assert_eq!(verifier, pad(&v));
    let secret = [9u8; 32];
    let k = BigUint::from_bytes_be(&hash(&[&PRIME, &pad(&g)]));
    let b = (k * &v + g.modpow(&BigUint::from_bytes_be(&secret), &n)) % &n;
    assert_eq!(public_key(&verifier, &secret), pad(&b));
    let context = start("Pair-Setup", "031-45-154", &salt, &secret);
    assert_eq!(context.salt, salt.to_vec());
    assert_eq!(context.secret, secret.to_vec());
    assert_eq!(context.verifier, verifier);
    assert_eq!(context.public_key, pad(&b));
}

#[test]
fn a_client_that_knows_the_password_is_verified() {
    let context = start("Pair-Setup", "031-45-154", &[7; 16], &[9; 32]);
    let (public, proof, key) = client("Pair-Setup", "031-45-154", &context.salt, &context.public_key, &[3; 32]);
    let (accessory_proof, shared) = check(&context, "Pair-Setup", &public, &proof).unwrap();
    assert_eq!(shared, key);
    assert_eq!(shared.len(), 64);
    assert_eq!(accessory_proof, hash(&[&public, &proof, &key]));
    assert_eq!(server_proof(&public, &proof, &key), accessory_proof);
    assert_eq!(client_proof("Pair-Setup", &context.salt, &public, &context.public_key, &key), proof);
    assert_eq!(
        session_key(&public, &context.verifier, &context.public_key, &context.secret),
        Some(key)
    );
}

#[test]
fn a_client_that_does_not_know_the_password_is_refused() {
    let context = start("Pair-Setup", "031-45-154", &[7; 16], &[9; 32]);
    let (public, proof, _) = client("Pair-Setup", "031-45-155", &context.salt, &context.public_key, &[3; 32]);
    assert!(check(&context, "Pair-Setup", &public, &proof).is_none());
    let (public, proof, _) = client("Pair-Setup", "031-45-154", &context.salt, &context.public_key, &[3; 32]);
    assert!(check(&context, "Other", &public, &proof).is_none());
    assert!(check(&context, "Pair-Setup", &public, &proof[..63]).is_none());
    let mut changed = proof.clone();
    changed[0] ^= 1;
    assert!(check(&context, "Pair-Setup", &public, &changed).is_none());
    assert!(check(&context, "Pair-Setup", &public, &proof).is_some());
}

#[test]
fn a_public_key_that_is_zero_in_the_group_is_refused() {
    let context = start("Pair-Setup", "031-45-154", &[7; 16], &[9; 32]);
    for key in [vec![], vec![0], vec![0; 384], PRIME.to_vec()] {
        assert_eq!(session_key(&key, &context.verifier, &context.public_key, &context.secret), None);
        assert!(check(&context, "Pair-Setup", &key, &[0; 64]).is_none());
    }
    let mut twice = (BigUint::from_bytes_be(&PRIME) * 2u8).to_bytes_be();
    assert_eq!(session_key(&twice, &context.verifier, &context.public_key, &context.secret), None);
    *twice.last_mut().unwrap() |= 1;
    assert!(session_key(&twice, &context.verifier, &context.public_key, &context.secret).is_some());
}
