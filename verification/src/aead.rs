//! Authenticated encryption with ChaCha20 and Poly1305, as the pairing
//! messages and the frames of a session are sealed with it.

use vstd::prelude::*;
use vstd::bytes::{spec_u64_to_le_bytes, u64_to_le_bytes};
use crate::bytes::{copy_range, extend, extend_zeros, same_bytes, zeros};
use crate::cryptography::{chacha20_keystream_byte, chacha20_xor, poly1305, poly1305_of};

verus! {

/// The number of bytes of a nonce.
pub const NONCE_LEN: usize = 12;

/// The number of bytes of an authentication tag.
pub const TAG_LEN: usize = 16;

/// The most bytes of text that are sealed or opened at once.
pub const MAX_TEXT_LEN: usize = 0x1000_0000;

/// The one-time key of the authenticator: the first 32 bytes of the
/// keystream.
pub open spec fn one_time_key(key: Seq<u8>, nonce: Seq<u8>) -> Seq<u8> {
    Seq::new(32, |i: int| chacha20_keystream_byte(key, nonce, i))
}

/// The text XORed with the keystream from its second block on. Applied
/// twice, it gives the text back.
pub open spec fn crypted(key: Seq<u8>, nonce: Seq<u8>, text: Seq<u8>) -> Seq<u8> {
    Seq::new(text.len(), |i: int| text[i] ^ chacha20_keystream_byte(key, nonce, 64 + i))
}

/// The number of zero bytes that fill a length up to a multiple of 16.
pub open spec fn padding(len: int) -> int {
    (16 - len % 16) % 16
}

/// What is authenticated: the additional data and the ciphertext, each
/// filled up with zero bytes to a multiple of 16 bytes, then the lengths of
/// both in 8 bytes each, the low byte first.
pub open spec fn authenticated(aad: Seq<u8>, ciphertext: Seq<u8>) -> Seq<u8> {
    aad + zeros(padding(aad.len() as int)) + ciphertext + zeros(padding(ciphertext.len() as int))
        + spec_u64_to_le_bytes(aad.len() as u64) + spec_u64_to_le_bytes(ciphertext.len() as u64)
}

/// The authentication tag of a ciphertext with its additional data.
pub open spec fn tag_of(key: Seq<u8>, nonce: Seq<u8>, aad: Seq<u8>, ciphertext: Seq<u8>) -> Seq<u8> {
    poly1305_of(one_time_key(key, nonce), authenticated(aad, ciphertext))
}

/// The text as it is opened from a ciphertext, if the tag is that of the
/// ciphertext with the additional data.
pub open spec fn opened(
    key: Seq<u8>,
    nonce: Seq<u8>,
    aad: Seq<u8>,
    ciphertext: Seq<u8>,
    tag: Seq<u8>,
) -> Option<Seq<u8>> {
    if tag == tag_of(key, nonce, aad, ciphertext) {
        Some(crypted(key, nonce, ciphertext))
    } else {
        None
    }
}

/// What was sealed opens again, under the same key, nonce and additional
/// data, to the text that was sealed.
pub proof fn lemma_open_sealed(key: Seq<u8>, nonce: Seq<u8>, aad: Seq<u8>, text: Seq<u8>)
    ensures
        opened(
            key,
            nonce,
            aad,
            crypted(key, nonce, text),
            tag_of(key, nonce, aad, crypted(key, nonce, text)),
        ) == Some(text),
{
    let ciphertext = crypted(key, nonce, text);
    assert forall|i: int| 0 <= i < text.len() implies crypted(key, nonce, ciphertext)[i]
        == text[i] by {
        let t = text[i];
        let k = chacha20_keystream_byte(key, nonce, 64 + i);
        assert((t ^ k) ^ k == t) by (bit_vector);
    }
    assert(crypted(key, nonce, ciphertext) =~= text);
}

/// Runs the stream cipher from its start: the one-time key of the
/// authenticator, and the text XORed with the keystream from its second
/// block on.
fn stream(key: &[u8; 32], nonce: &[u8], text: &[u8]) -> (out: (Vec<u8>, Vec<u8>))
    requires
        nonce@.len() == NONCE_LEN,
        text@.len() <= MAX_TEXT_LEN,
    ensures
        out.0@ == one_time_key(key@, nonce@),
        out.1@ == crypted(key@, nonce@, text@),
{
    let mut input: Vec<u8> = Vec::new();
    extend_zeros(&mut input, 64);
    extend(&mut input, text);
    let output = chacha20_xor(key, nonce, input.as_slice());
    let one_time = copy_range(output.as_slice(), 0, 32);
    let text_out = copy_range(output.as_slice(), 64, output.len());
    proof {
        assert forall|i: int| 0 <= i < 32 implies one_time@[i] == chacha20_keystream_byte(
            key@,
            nonce@,
            i,
        ) by {
            let k = chacha20_keystream_byte(key@, nonce@, i);
            assert(input@[i] == 0u8);
            assert(output@[i] == input@[i] ^ k);
            assert(0u8 ^ k == k) by (bit_vector);
        }
        assert(one_time@ =~= one_time_key(key@, nonce@));
        assert forall|i: int| 0 <= i < text@.len() implies text_out@[i] == text@[i]
            ^ chacha20_keystream_byte(key@, nonce@, 64 + i) by {
            assert(input@[64 + i] == text@[i]);
            assert(output@[64 + i] == input@[64 + i] ^ chacha20_keystream_byte(
                key@,
                nonce@,
                64 + i,
            ));
        }
        assert(text_out@ =~= crypted(key@, nonce@, text@));
    }
    (one_time, text_out)
}

/// The authentication tag of a ciphertext with its additional data, under
/// the one-time key.
fn authenticate(one_time: &Vec<u8>, aad: &[u8], ciphertext: &[u8]) -> (tag: Vec<u8>)
    requires
        one_time@.len() == 32,
    ensures
        tag@ == poly1305_of(one_time@, authenticated(aad@, ciphertext@)),
        tag@.len() == TAG_LEN,
{
    let mut message: Vec<u8> = Vec::new();
    extend(&mut message, aad);
    extend_zeros(&mut message, (16 - aad.len() % 16) % 16);
    extend(&mut message, ciphertext);
    extend_zeros(&mut message, (16 - ciphertext.len() % 16) % 16);
    let aad_len = u64_to_le_bytes(aad.len() as u64);
    extend(&mut message, aad_len.as_slice());
    let ciphertext_len = u64_to_le_bytes(ciphertext.len() as u64);
    extend(&mut message, ciphertext_len.as_slice());
    assert(message@ =~= authenticated(aad@, ciphertext@));
    poly1305(one_time.as_slice(), message.as_slice())
}

/// Seals a text: the ciphertext, which is as long as the text, and the
/// authentication tag of 16 bytes, which also covers the additional data.
pub fn seal(key: &[u8; 32], nonce: &[u8], aad: &[u8], text: &[u8]) -> (sealed: (Vec<u8>, Vec<u8>))
    requires
        nonce@.len() == NONCE_LEN,
        text@.len() <= MAX_TEXT_LEN,
    ensures
        sealed.0@ == crypted(key@, nonce@, text@),
        sealed.1@ == tag_of(key@, nonce@, aad@, sealed.0@),
        sealed.1@.len() == TAG_LEN,
{
    let (one_time, ciphertext) = stream(key, nonce, text);
    let tag = authenticate(&one_time, aad, ciphertext.as_slice());
    (ciphertext, tag)
}

/// Opens a ciphertext: the text, if the tag is that of the ciphertext with
/// the additional data under the key and the nonce, and `None` otherwise.
pub fn open(key: &[u8; 32], nonce: &[u8], aad: &[u8], ciphertext: &[u8], tag: &[u8]) -> (text:
    Option<Vec<u8>>)
    requires
        nonce@.len() == NONCE_LEN,
        ciphertext@.len() <= MAX_TEXT_LEN,
    ensures
        match text {
            Some(t) => opened(key@, nonce@, aad@, ciphertext@, tag@) == Some(t@),
            None => opened(key@, nonce@, aad@, ciphertext@, tag@) is None,
        },
{
    let (one_time, text) = stream(key, nonce, ciphertext);
    let expected = authenticate(&one_time, aad, ciphertext);
    if same_bytes(expected.as_slice(), tag) {
        Some(text)
    } else {
        None
    }
}

} // verus!
