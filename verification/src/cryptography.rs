//! The cryptographic primitives, which the library has from rust-crypto, and
//! the arithmetic on large numbers, which it has from num-bigint.
//!
//! Every function of this module calls into one of the two crates, and
//! nothing is proved of any of them. What the primitives compute is given
//! names here; their contracts say no more than that a result is the named
//! function of the arguments, and what the source of the crate plainly shows
//! of its shape. The arithmetic is stated over the numbers that the byte
//! strings denote.

use vstd::prelude::*;
use crypto::digest::Digest;
use crypto::mac::Mac;
use crypto::symmetriccipher::SynchronousStreamCipher;

verus! {

/// The byte at the given place of the keystream that ChaCha20 makes from a
/// key of 32 bytes and a nonce of 12 bytes, with its block counter starting
/// at zero.
pub uninterp spec fn chacha20_keystream_byte(key: Seq<u8>, nonce: Seq<u8>, place: int) -> u8;

/// The Poly1305 authenticator of a message under a one-time key of 32
/// bytes.
pub uninterp spec fn poly1305_of(key: Seq<u8>, message: Seq<u8>) -> Seq<u8>;

/// The pseudorandom key that HKDF-Extract with SHA-512 makes from a salt
/// and input keying material.
pub uninterp spec fn hkdf_sha512_extract_of(salt: Seq<u8>, ikm: Seq<u8>) -> Seq<u8>;

/// The first 32 bytes of output keying material that HKDF-Expand with
/// SHA-512 makes from a pseudorandom key and an info.
pub uninterp spec fn hkdf_sha512_expand_of(prk: Seq<u8>, info: Seq<u8>) -> Seq<u8>;

/// The Ed25519 secret key, of which the first half is the seed and the
/// second half the public key, that belongs to a seed.
pub uninterp spec fn ed25519_secret_key_of(seed: Seq<u8>) -> Seq<u8>;

/// The Ed25519 signature of a message under a secret key.
pub uninterp spec fn ed25519_signature_of(message: Seq<u8>, secret_key: Seq<u8>) -> Seq<u8>;

/// Whether a signature is an Ed25519 signature of the message that the
/// public key verifies.
pub uninterp spec fn ed25519_verifies(message: Seq<u8>, public_key: Seq<u8>, signature: Seq<
    u8,
>) -> bool;

/// The X25519 function of a scalar and a point, both of 32 bytes.
pub uninterp spec fn x25519_of(scalar: Seq<u8>, point: Seq<u8>) -> Seq<u8>;

/// The SHA-512 hash of the bytes.
pub uninterp spec fn sha512_of(bytes: Seq<u8>) -> Seq<u8>;

/// The number that a byte string denotes, the high byte first.
pub open spec fn be_value(bytes: Seq<u8>) -> nat
    decreases bytes.len(),
{
    if bytes.len() == 0 {
        0
    } else {
        be_value(bytes.drop_last()) * 256 + bytes.last() as nat
    }
}

/// Whether a byte string denotes its number in the shortest way: it has no
/// leading zero byte, but for the single zero byte that denotes zero.
pub open spec fn minimal(bytes: Seq<u8>) -> bool {
    bytes.len() >= 1 && (bytes.len() == 1 || bytes[0] != 0)
}

/// The power of a base.
pub open spec fn power(base: nat, exponent: nat) -> nat
    decreases exponent,
{
    if exponent == 0 {
        1
    } else {
        base * power(base, (exponent - 1) as nat)
    }
}

/// Calls `Sha512` of rust-crypto: feeds the bytes to a new hasher with
/// `input` and takes the hash, which has 64 bytes, with `result`. The hash
/// is a function of the bytes alone, and is named.
#[verifier::external_body]
pub(crate) fn sha512(bytes: &[u8]) -> (hash: Vec<u8>)
    ensures
        hash@ == sha512_of(bytes@),
        hash@.len() == 64,
{
    let mut hasher = crypto::sha2::Sha512::new();
    hasher.input(bytes);
    let mut hash = vec![0u8; 64];
    hasher.result(&mut hash);
    hash
}

/// Calls `BigUint::modpow` of num-bigint on the numbers that the byte
/// strings denote, which it documents as `(self ^ exponent) % modulus`, and
/// gives the result as a byte string, which `to_bytes_be` makes without
/// leading zero bytes. The call panics on a modulus of zero, which the
/// contract leaves out.
#[verifier::external_body]
pub(crate) fn big_modpow(base: &[u8], exponent: &[u8], modulus: &[u8]) -> (result: Vec<u8>)
    requires
        be_value(modulus@) != 0,
    ensures
        be_value(result@) == power(be_value(base@), be_value(exponent@)) % be_value(modulus@),
        minimal(result@),
{
    let base = num_bigint::BigUint::from_bytes_be(base);
    let exponent = num_bigint::BigUint::from_bytes_be(exponent);
    base.modpow(&exponent, &num_bigint::BigUint::from_bytes_be(modulus)).to_bytes_be()
}

/// Multiplies the numbers that the byte strings denote, with the `*` of
/// num-bigint, and gives the product as a byte string.
#[verifier::external_body]
pub(crate) fn big_mul(a: &[u8], b: &[u8]) -> (result: Vec<u8>)
    ensures
        be_value(result@) == be_value(a@) * be_value(b@),
        minimal(result@),
{
    (num_bigint::BigUint::from_bytes_be(a) * num_bigint::BigUint::from_bytes_be(b)).to_bytes_be()
}

/// Adds the numbers that the byte strings denote, with the `+` of
/// num-bigint, and gives the sum as a byte string.
#[verifier::external_body]
pub(crate) fn big_add(a: &[u8], b: &[u8]) -> (result: Vec<u8>)
    ensures
        be_value(result@) == be_value(a@) + be_value(b@),
        minimal(result@),
{
    (num_bigint::BigUint::from_bytes_be(a) + num_bigint::BigUint::from_bytes_be(b)).to_bytes_be()
}

/// Takes the remainder of the number that a byte string denotes, with the
/// `%` of num-bigint, and gives it as a byte string. The call panics on a
/// modulus of zero, which the contract leaves out.
#[verifier::external_body]
pub(crate) fn big_rem(a: &[u8], modulus: &[u8]) -> (result: Vec<u8>)
    requires
        be_value(modulus@) != 0,
    ensures
        be_value(result@) == be_value(a@) % be_value(modulus@),
        minimal(result@),
{
    (num_bigint::BigUint::from_bytes_be(a) % num_bigint::BigUint::from_bytes_be(modulus)).to_bytes_be()
}

/// The most bytes that are put through the stream cipher in one call: 2^30,
/// well below the 2^32 blocks of 64 bytes after which the cipher gives up.
pub const STREAM_LIMIT: usize = 0x4000_0000;

/// Calls `ChaCha20::new` of rust-crypto with the key and the 12-byte nonce
/// and `process` on the input: the input XORed, byte by byte, with the
/// keystream from its start. The keystream is named; that the output is the
/// XOR of the input with it is what `process` is seen to do. The cipher
/// panics on keys and nonces of other lengths and once its block counter is
/// exhausted, which the contract leaves out.
#[verifier::external_body]
pub(crate) fn chacha20_xor(key: &[u8; 32], nonce: &[u8], input: &[u8]) -> (output: Vec<u8>)
    requires
        nonce@.len() == 12,
        input@.len() < STREAM_LIMIT,
    ensures
        output@.len() == input@.len(),
        forall|i: int|
            0 <= i < input@.len() ==> #[trigger] output@[i] == input@[i] ^ chacha20_keystream_byte(
                key@,
                nonce@,
                i,
            ),
{
    let mut cipher = crypto::chacha20::ChaCha20::new(key, nonce);
    let mut output = vec![0u8; input.len()];
    cipher.process(input, &mut output);
    output
}

/// Calls `Poly1305::new` of rust-crypto with the 32-byte key, `input` with
/// the message and `raw_result`: the authenticator, which has 16 bytes. It
/// is a function of the key and the message, and is named. The call panics
/// on a key of another length, which the contract leaves out.
#[verifier::external_body]
pub(crate) fn poly1305(key: &[u8], message: &[u8]) -> (tag: Vec<u8>)
    requires
        key@.len() == 32,
    ensures
        tag@ == poly1305_of(key@, message@),
        tag@.len() == 16,
{
    let mut mac = crypto::poly1305::Poly1305::new(key);
    mac.input(message);
    let mut tag = vec![0u8; 16];
    mac.raw_result(&mut tag);
    tag
}

/// Calls `hkdf_extract` of rust-crypto with SHA-512: the pseudorandom key,
/// which has the 64 bytes of the hash. It is a function of the salt and the
/// input keying material, and is named.
#[verifier::external_body]
pub(crate) fn hkdf_sha512_extract(salt: &[u8], ikm: &[u8]) -> (prk: Vec<u8>)
    ensures
        prk@ == hkdf_sha512_extract_of(salt@, ikm@),
        prk@.len() == 64,
{
    let mut prk = vec![0u8; 64];
    crypto::hkdf::hkdf_extract(crypto::sha2::Sha512::new(), salt, ikm, &mut prk);
    prk
}

/// Calls `hkdf_expand` of rust-crypto with SHA-512 for 32 bytes of output
/// keying material. They are a function of the pseudorandom key and the
/// info, and are named.
#[verifier::external_body]
pub(crate) fn hkdf_sha512_expand(prk: &[u8], info: &[u8]) -> (okm: [u8; 32])
    ensures
        okm@ == hkdf_sha512_expand_of(prk@, info@),
{
    let mut okm = [0u8; 32];
    crypto::hkdf::hkdf_expand(crypto::sha2::Sha512::new(), prk, info, &mut okm);
    okm
}

/// Calls `ed25519::keypair` of rust-crypto and keeps the secret key, which
/// has 64 bytes and holds the public key in its second half. It is a
/// function of the seed, and is named.
#[verifier::external_body]
pub(crate) fn ed25519_secret_key(seed: &[u8; 32]) -> (secret_key: [u8; 64])
    ensures
        secret_key@ == ed25519_secret_key_of(seed@),
{
    crypto::ed25519::keypair(seed).0
}

/// Calls `ed25519::signature` of rust-crypto: the signature, which has 64
/// bytes. It is a function of the message and the secret key, and is named.
#[verifier::external_body]
pub(crate) fn ed25519_signature(message: &[u8], secret_key: &[u8; 64]) -> (signature: [u8; 64])
    ensures
        signature@ == ed25519_signature_of(message@, secret_key@),
{
    crypto::ed25519::signature(message, secret_key)
}

/// Calls `ed25519::verify` of rust-crypto: whether the public key verifies
/// the signature of the message. The answer is a function of the three, and
/// is named. The call panics on a shorter key or signature, which the
/// contract leaves out.
#[verifier::external_body]
pub(crate) fn ed25519_verify(message: &[u8], public_key: &[u8; 32], signature: &[u8]) -> (valid:
    bool)
    requires
        signature@.len() == 64,
    ensures
        valid == ed25519_verifies(message@, public_key@, signature@),
{
    crypto::ed25519::verify(message, public_key, signature)
}

/// Calls `curve25519::curve25519` of rust-crypto: the X25519 function of a
/// scalar and a point, which has 32 bytes. It is a function of the two, and
/// is named.
#[verifier::external_body]
pub(crate) fn x25519(scalar: &[u8; 32], point: &[u8; 32]) -> (product: [u8; 32])
    ensures
        product@ == x25519_of(scalar@, point@),
{
    crypto::curve25519::curve25519(scalar, point)
}

} // verus!
