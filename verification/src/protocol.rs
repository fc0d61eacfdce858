//! The identity of the accessory and the derivation of the keys that the
//! pairing protocols agree on.

use vstd::prelude::*;
use vstd::string::*;
use vstd::utf8::{is_ascii_chars, is_ascii_chars_encode_utf8};
use crate::bytes::{copy_range, extend, extend_zeros, zeros};
use crate::cryptography::{
    ed25519_secret_key, ed25519_secret_key_of, ed25519_signature, ed25519_signature_of,
    hkdf_sha512_expand, hkdf_sha512_expand_of, hkdf_sha512_extract, hkdf_sha512_extract_of,
};

verus! {

/// The key of 32 bytes that HKDF with SHA-512 derives from input keying
/// material under a salt and an info.
pub open spec fn derived_key(salt: Seq<u8>, info: Seq<u8>, ikm: Seq<u8>) -> Seq<u8> {
    hkdf_sha512_expand_of(hkdf_sha512_extract_of(salt, ikm), info)
}

/// Derives a key of 32 bytes from input keying material, under a salt and
/// an info that are given as texts.
pub fn derive_key(salt: &str, info: &str, ikm: &[u8]) -> (key: [u8; 32])
    ensures
        key@ == derived_key(salt.spec_bytes(), info.spec_bytes(), ikm@),
{
    let prk = hkdf_sha512_extract(salt.as_bytes(), ikm);
    hkdf_sha512_expand(prk.as_slice(), info.as_bytes())
}

/// The nonce of a pairing message: its label of eight characters after
/// four zero bytes.
pub open spec fn message_nonce_of(label: Seq<u8>) -> Seq<u8> {
    zeros(4) + label
}

/// The nonce of a pairing message with the given label.
pub fn message_nonce(label: &str) -> (nonce: Vec<u8>)
    requires
        label@.len() == 8,
        is_ascii_chars(label@),
    ensures
        nonce@ == message_nonce_of(label.spec_bytes()),
        nonce@.len() == 12,
{
    proof {
        is_ascii_chars_encode_utf8(label@);
    }
    let mut nonce: Vec<u8> = Vec::new();
    extend_zeros(&mut nonce, 4);
    extend(&mut nonce, label.as_bytes());
    nonce
}

/// The most bytes that a pairing id of the accessory is written with.
pub const MAX_PAIRING_ID_LEN: usize = 255;

/// The identity of the accessory: its pairing id, of at most 255 bytes, and
/// its long-term Ed25519 key. The secret key holds the seed in its first half
/// and the public key in its second half.
#[derive(Debug)]
pub struct Device {
    pairing_id: String,
    secret_key: [u8; 64],
}

/// The mathematical model of a [`Device`].
pub struct DeviceView {
    pub pairing_id: Seq<char>,
    pub secret_key: Seq<u8>,
}

impl DeviceView {
    /// The bytes with which the pairing id is written.
    pub open spec fn pairing_id_bytes(self) -> Seq<u8> {
        vstd::utf8::encode_utf8(self.pairing_id)
    }

    /// The long-term public key: the second half of the secret key.
    pub open spec fn public_key(self) -> Seq<u8> {
        self.secret_key.subrange(32, 64)
    }
}

impl View for Device {
    type V = DeviceView;

    closed spec fn view(&self) -> DeviceView {
        DeviceView { pairing_id: self.pairing_id@, secret_key: self.secret_key@ }
    }
}

impl Device {
    #[verifier::type_invariant]
    spec fn inv(self) -> bool {
        vstd::utf8::encode_utf8(self.pairing_id@).len() <= MAX_PAIRING_ID_LEN
    }

    /// The identity with the given pairing id whose long-term key is made
    /// from the seed. There is none for a pairing id of more than 255 bytes.
    pub fn new(pairing_id: String, seed: &[u8; 32]) -> (device: Option<Device>)
        ensures
            match device {
                Some(d) => {
                    &&& d@.pairing_id == pairing_id@
                    &&& d@.secret_key == ed25519_secret_key_of(seed@)
                    &&& d@.pairing_id_bytes().len() <= MAX_PAIRING_ID_LEN
                },
                None => vstd::utf8::encode_utf8(pairing_id@).len() > MAX_PAIRING_ID_LEN,
            },
    {
        if pairing_id.as_str().as_bytes().len() > MAX_PAIRING_ID_LEN {
            return None;
        }
        Some(Device { pairing_id, secret_key: ed25519_secret_key(seed) })
    }

    /// The pairing id.
    pub fn pairing_id(&self) -> (pairing_id: &str)
        ensures
            pairing_id@ == self@.pairing_id,
            pairing_id.spec_bytes().len() <= MAX_PAIRING_ID_LEN,
    {
        proof {
            use_type_invariant(self);
        }
        self.pairing_id.as_str()
    }

    /// The long-term public key.
    pub fn public_key(&self) -> (public_key: Vec<u8>)
        ensures
            public_key@ == self@.public_key(),
            public_key@.len() == 32,
    {
        copy_range(self.secret_key.as_slice(), 32, 64)
    }

    /// Signs a message with the long-term key.
    pub fn sign(&self, message: &[u8]) -> (signature: Vec<u8>)
        ensures
            signature@ == ed25519_signature_of(message@, self@.secret_key),
            signature@.len() == 64,
    {
        let signature = ed25519_signature(message, &self.secret_key);
        copy_range(signature.as_slice(), 0, 64)
    }
}

} // verus!
