//! The Secure Remote Password protocol of pair-setup, on the side of the
//! accessory: SRP-6a with the 3072-bit group of RFC 5054 and SHA-512.
//!
//! Numbers are held as byte strings, the high byte first. The arithmetic on
//! them is that of num-bigint, the hash that of rust-crypto.

use vstd::prelude::*;
use vstd::string::*;
use crate::bytes::{extend, extend_zeros, zeros};
use crate::cryptography::{
    be_value, big_add, big_modpow, big_mul, big_rem, minimal, power, sha512, sha512_of,
};

verus! {

/// The number of bytes of the modulus of the group.
pub const GROUP_LEN: usize = 384;

/// The modulus of the group: the 3072-bit prime of RFC 5054.
pub const PRIME: [u8; 384] = [
    0xff, 0xff, 0xff, 0xff, 0xff, 0xff, 0xff, 0xff, 0xc9, 0x0f, 0xda, 0xa2,
    0x21, 0x68, 0xc2, 0x34, 0xc4, 0xc6, 0x62, 0x8b, 0x80, 0xdc, 0x1c, 0xd1,
    0x29, 0x02, 0x4e, 0x08, 0x8a, 0x67, 0xcc, 0x74, 0x02, 0x0b, 0xbe, 0xa6,
    0x3b, 0x13, 0x9b, 0x22, 0x51, 0x4a, 0x08, 0x79, 0x8e, 0x34, 0x04, 0xdd,
    0xef, 0x95, 0x19, 0xb3, 0xcd, 0x3a, 0x43, 0x1b, 0x30, 0x2b, 0x0a, 0x6d,
    0xf2, 0x5f, 0x14, 0x37, 0x4f, 0xe1, 0x35, 0x6d, 0x6d, 0x51, 0xc2, 0x45,
    0xe4, 0x85, 0xb5, 0x76, 0x62, 0x5e, 0x7e, 0xc6, 0xf4, 0x4c, 0x42, 0xe9,
    0xa6, 0x37, 0xed, 0x6b, 0x0b, 0xff, 0x5c, 0xb6, 0xf4, 0x06, 0xb7, 0xed,
    0xee, 0x38, 0x6b, 0xfb, 0x5a, 0x89, 0x9f, 0xa5, 0xae, 0x9f, 0x24, 0x11,
    0x7c, 0x4b, 0x1f, 0xe6, 0x49, 0x28, 0x66, 0x51, 0xec, 0xe4, 0x5b, 0x3d,
    0xc2, 0x00, 0x7c, 0xb8, 0xa1, 0x63, 0xbf, 0x05, 0x98, 0xda, 0x48, 0x36,
    0x1c, 0x55, 0xd3, 0x9a, 0x69, 0x16, 0x3f, 0xa8, 0xfd, 0x24, 0xcf, 0x5f,
    0x83, 0x65, 0x5d, 0x23, 0xdc, 0xa3, 0xad, 0x96, 0x1c, 0x62, 0xf3, 0x56,
    0x20, 0x85, 0x52, 0xbb, 0x9e, 0xd5, 0x29, 0x07, 0x70, 0x96, 0x96, 0x6d,
    0x67, 0x0c, 0x35, 0x4e, 0x4a, 0xbc, 0x98, 0x04, 0xf1, 0x74, 0x6c, 0x08,
    0xca, 0x18, 0x21, 0x7c, 0x32, 0x90, 0x5e, 0x46, 0x2e, 0x36, 0xce, 0x3b,
    0xe3, 0x9e, 0x77, 0x2c, 0x18, 0x0e, 0x86, 0x03, 0x9b, 0x27, 0x83, 0xa2,
    0xec, 0x07, 0xa2, 0x8f, 0xb5, 0xc5, 0x5d, 0xf0, 0x6f, 0x4c, 0x52, 0xc9,
    0xde, 0x2b, 0xcb, 0xf6, 0x95, 0x58, 0x17, 0x18, 0x39, 0x95, 0x49, 0x7c,
    0xea, 0x95, 0x6a, 0xe5, 0x15, 0xd2, 0x26, 0x18, 0x98, 0xfa, 0x05, 0x10,
    0x15, 0x72, 0x8e, 0x5a, 0x8a, 0xaa, 0xc4, 0x2d, 0xad, 0x33, 0x17, 0x0d,
    0x04, 0x50, 0x7a, 0x33, 0xa8, 0x55, 0x21, 0xab, 0xdf, 0x1c, 0xba, 0x64,
    0xec, 0xfb, 0x85, 0x04, 0x58, 0xdb, 0xef, 0x0a, 0x8a, 0xea, 0x71, 0x57,
    0x5d, 0x06, 0x0c, 0x7d, 0xb3, 0x97, 0x0f, 0x85, 0xa6, 0xe1, 0xe4, 0xc7,
    0xab, 0xf5, 0xae, 0x8c, 0xdb, 0x09, 0x33, 0xd7, 0x1e, 0x8c, 0x94, 0xe0,
    0x4a, 0x25, 0x61, 0x9d, 0xce, 0xe3, 0xd2, 0x26, 0x1a, 0xd2, 0xee, 0x6b,
    0xf1, 0x2f, 0xfa, 0x06, 0xd9, 0x8a, 0x08, 0x64, 0xd8, 0x76, 0x02, 0x73,
    0x3e, 0xc8, 0x6a, 0x64, 0x52, 0x1f, 0x2b, 0x18, 0x17, 0x7b, 0x20, 0x0c,
    0xbb, 0xe1, 0x17, 0x57, 0x7a, 0x61, 0x5d, 0x6c, 0x77, 0x09, 0x88, 0xc0,
    0xba, 0xd9, 0x46, 0xe2, 0x08, 0xe2, 0x4f, 0xa0, 0x74, 0xe5, 0xab, 0x31,
    0x43, 0xdb, 0x5b, 0xfc, 0xe0, 0xfd, 0x10, 0x8e, 0x4b, 0x82, 0xd1, 0x20,
    0xa9, 0x3a, 0xd2, 0xca, 0xff, 0xff, 0xff, 0xff, 0xff, 0xff, 0xff, 0xff,
];

/// The generator of the group.
pub const GENERATOR: u8 = 5;

/// The byte string of the given length that denotes a number, the high byte
/// first; the number is cut to the length.
pub open spec fn encode_be(value: nat, len: nat) -> Seq<u8>
    decreases len,
{
    if len == 0 {
        Seq::empty()
    } else {
        encode_be(value / 256, (len - 1) as nat).push((value % 256) as u8)
    }
}

/// A byte string denotes less than 256 to the power of its length.
pub proof fn lemma_be_value_upper(bytes: Seq<u8>)
    ensures
        be_value(bytes) < power(256, bytes.len()),
    decreases bytes.len(),
{
    if bytes.len() > 0 {
        lemma_be_value_upper(bytes.drop_last());
    }
}

/// A byte string without a leading zero byte denotes at least 256 to the
/// power of its length less one.
pub proof fn lemma_be_value_lower(bytes: Seq<u8>)
    requires
        bytes.len() >= 1,
        bytes[0] != 0,
    ensures
        be_value(bytes) >= power(256, (bytes.len() - 1) as nat),
    decreases bytes.len(),
{
    if bytes.len() == 1 {
        assert(bytes.drop_last().len() == 0);
        assert(be_value(bytes.drop_last()) == 0);
    } else {
        assert(bytes.drop_last()[0] == bytes[0]);
        lemma_be_value_lower(bytes.drop_last());
    }
}

/// The powers of 256 grow with the exponent.
pub proof fn lemma_power_grows(a: nat, b: nat)
    requires
        a <= b,
    ensures
        0 < power(256, a) <= power(256, b),
    decreases b,
{
    if a < b {
        lemma_power_grows(a, (b - 1) as nat);
    } else if a > 0 {
        lemma_power_grows((a - 1) as nat, (b - 1) as nat);
    }
}

/// Zero bytes in front of a byte string do not change the number that it
/// denotes.
pub proof fn lemma_be_value_zeros(n: nat, bytes: Seq<u8>)
    ensures
        be_value(zeros(n as int) + bytes) == be_value(bytes),
    decreases bytes.len(),
{
    let all = zeros(n as int) + bytes;
    if bytes.len() == 0 {
        assert(all =~= zeros(n as int));
        lemma_be_value_of_zeros(n);
    } else {
        assert(all.drop_last() =~= zeros(n as int) + bytes.drop_last());
        assert(all.last() == bytes.last());
        lemma_be_value_zeros(n, bytes.drop_last());
    }
}

/// Zero bytes denote zero.
pub proof fn lemma_be_value_of_zeros(n: nat)
    ensures
        be_value(zeros(n as int)) == 0,
    decreases n,
{
    if n > 0 {
        assert(zeros(n as int).drop_last() =~= zeros(n - 1));
        lemma_be_value_of_zeros((n - 1) as nat);
    }
}

/// A byte string is the one of its length that denotes its number.
pub proof fn lemma_encode_be(bytes: Seq<u8>)
    ensures
        encode_be(be_value(bytes), bytes.len()) == bytes,
    decreases bytes.len(),
{
    if bytes.len() > 0 {
        lemma_encode_be(bytes.drop_last());
        assert(be_value(bytes) / 256 == be_value(bytes.drop_last()));
        assert(be_value(bytes) % 256 == bytes.last());
        assert(encode_be(be_value(bytes), bytes.len()) =~= bytes);
    } else {
        assert(encode_be(be_value(bytes), bytes.len()) =~= bytes);
    }
}

/// The modulus of the group, as a number.
pub open spec fn modulus() -> nat {
    be_value(PRIME@)
}

/// The modulus is not zero, and is less than 256 to the power of 384.
pub proof fn lemma_modulus()
    ensures
        0 < modulus() < power(256, 384),
{
    lemma_be_value_upper(PRIME@);
    assert(PRIME@.last() == 0xff);
}

/// The modulus of the group, as bytes.
pub fn prime() -> (bytes: Vec<u8>)
    ensures
        bytes@ == PRIME@,
        be_value(bytes@) == modulus(),
{
    let mut bytes: Vec<u8> = Vec::new();
    extend(&mut bytes, PRIME.as_slice());
    bytes
}

/// Brings a number below the modulus to the length of the modulus: the
/// byte string of 384 bytes that denotes it.
pub(crate) fn fit(number: &[u8]) -> (bytes: Vec<u8>)
    requires
        minimal(number@),
        be_value(number@) < modulus(),
    ensures
        bytes@ == encode_be(be_value(number@), GROUP_LEN as nat),
        bytes@.len() == GROUP_LEN,
        be_value(bytes@) == be_value(number@),
{
    proof {
        lemma_modulus();
        if number@.len() > GROUP_LEN {
            lemma_be_value_lower(number@);
            lemma_power_grows(GROUP_LEN as nat, (number@.len() - 1) as nat);
        }
    }
    let mut bytes: Vec<u8> = Vec::new();
    extend_zeros(&mut bytes, GROUP_LEN - number.len());
    extend(&mut bytes, number);
    proof {
        lemma_be_value_zeros((GROUP_LEN - number@.len()) as nat, number@);
        lemma_encode_be(bytes@);
    }
    bytes
}

/// Whether a number in its shortest form is zero.
pub(crate) fn is_zero(number: &[u8]) -> (zero: bool)
    requires
        minimal(number@),
    ensures
        zero == (be_value(number@) == 0),
{
    proof {
        if number@[0] != 0 {
            lemma_be_value_lower(number@);
            lemma_power_grows(0, (number@.len() - 1) as nat);
        } else {
            assert(number@.drop_last().len() == 0);
            assert(be_value(number@.drop_last()) == 0);
        }
    }
    number.len() == 1 && number[0] == 0
}

/// The generator as a byte string of the length of the modulus.
pub open spec fn padded_generator() -> Seq<u8> {
    zeros(GROUP_LEN - 1) + seq![GENERATOR]
}

/// The private key that belongs to a user name and a password under a
/// salt: the hash of the salt and of the hash of the name, a colon and the
/// password.
pub open spec fn private_key_of(salt: Seq<u8>, username: Seq<u8>, password: Seq<u8>) -> nat {
    be_value(sha512_of(salt + sha512_of(username + seq![0x3au8] + password)))
}

/// The verifier of a password: the generator to the power of the private
/// key, in the group.
pub open spec fn verifier_of(salt: Seq<u8>, username: Seq<u8>, password: Seq<u8>) -> nat {
    power(GENERATOR as nat, private_key_of(salt, username, password)) % modulus()
}

/// The multiplier of the protocol: the hash of the modulus and the padded
/// generator.
pub open spec fn multiplier() -> nat {
    be_value(sha512_of(PRIME@ + padded_generator()))
}

/// The public key of the server, for a verifier and the secret of the
/// server: the product of the multiplier and the verifier, and the generator
/// to the power of the secret, added in the group.
pub open spec fn public_key_of(verifier: nat, secret: nat) -> nat {
    (multiplier() * verifier + power(GENERATOR as nat, secret) % modulus()) % modulus()
}

/// The scrambling parameter: the hash of the two public keys, each reduced
/// in the group and in the length of the modulus.
pub open spec fn scrambler_of(client_key: nat, server_key: nat) -> nat {
    be_value(
        sha512_of(
            encode_be(client_key % modulus(), GROUP_LEN as nat) + encode_be(
                server_key % modulus(),
                GROUP_LEN as nat,
            ),
        ),
    )
}

/// The premaster secret as the server computes it: the product of the
/// public key of the client and the verifier to the power of the scrambling
/// parameter, to the power of the secret of the server, in the group.
pub open spec fn premaster_of(client_key: nat, verifier: nat, server_key: nat, secret: nat) -> nat {
    power(
        (client_key * (power(verifier, scrambler_of(client_key, server_key)) % modulus()))
            % modulus(),
        secret,
    ) % modulus()
}

/// The session key: the hash of the premaster secret in the length of the
/// modulus.
pub open spec fn session_key_of(premaster: nat) -> Seq<u8> {
    sha512_of(encode_be(premaster, GROUP_LEN as nat))
}

/// The two byte strings XORed byte by byte, as far as the shorter of them
/// reaches.
pub open spec fn xored(a: Seq<u8>, b: Seq<u8>) -> Seq<u8> {
    Seq::new(
        if a.len() <= b.len() {
            a.len()
        } else {
            b.len()
        },
        |i: int| a[i] ^ b[i],
    )
}

/// The proof of the client: the hash of the hashes of the modulus and the
/// generator, XORed; the hash of the user name; the salt; the two public
/// keys as they were sent; and the session key.
pub open spec fn client_proof_of(
    username: Seq<u8>,
    salt: Seq<u8>,
    client_key: Seq<u8>,
    server_key: Seq<u8>,
    session_key: Seq<u8>,
) -> Seq<u8> {
    sha512_of(
        xored(sha512_of(PRIME@), sha512_of(seq![GENERATOR])) + sha512_of(username) + salt
            + client_key + server_key + session_key,
    )
}

/// The proof of the server: the hash of the public key of the client, the
/// proof of the client and the session key.
pub open spec fn server_proof_of(client_key: Seq<u8>, client_proof: Seq<u8>, session_key: Seq<u8>) -> Seq<
    u8,
> {
    sha512_of(client_key + client_proof + session_key)
}

/// The generator as a byte string.
fn generator() -> (bytes: Vec<u8>)
    ensures
        bytes@ == seq![GENERATOR],
        be_value(bytes@) == GENERATOR,
{
    let mut bytes: Vec<u8> = Vec::new();
    bytes.push(GENERATOR);
    proof {
        assert(bytes@ =~= seq![GENERATOR]);
        assert(bytes@.drop_last().len() == 0);
        assert(be_value(bytes@.drop_last()) == 0);
    }
    bytes
}

/// The verifier of a password under a salt, in the length of the modulus.
pub fn password_verifier(salt: &[u8], username: &str, password: &str) -> (bytes: Vec<u8>)
    ensures
        bytes@ == encode_be(
            verifier_of(salt@, username.spec_bytes(), password.spec_bytes()),
            GROUP_LEN as nat,
        ),
        be_value(bytes@) == verifier_of(salt@, username.spec_bytes(), password.spec_bytes()),
        bytes@.len() == GROUP_LEN,
{
    proof {
        lemma_modulus();
    }
    let mut identity: Vec<u8> = Vec::new();
    extend(&mut identity, username.as_bytes());
    identity.push(0x3a);
    extend(&mut identity, password.as_bytes());
    assert(identity@ =~= username.spec_bytes() + seq![0x3au8] + password.spec_bytes());
    let inner = sha512(identity.as_slice());
    let mut salted: Vec<u8> = Vec::new();
    extend(&mut salted, salt);
    extend(&mut salted, inner.as_slice());
    let x = sha512(salted.as_slice());
    let n = prime();
    let v = big_modpow(generator().as_slice(), x.as_slice(), n.as_slice());
    fit(v.as_slice())
}

/// The public key of the server, in the length of the modulus.
pub fn public_key(verifier: &[u8], secret: &[u8]) -> (bytes: Vec<u8>)
    ensures
        bytes@ == encode_be(public_key_of(be_value(verifier@), be_value(secret@)), GROUP_LEN as nat),
        be_value(bytes@) == public_key_of(be_value(verifier@), be_value(secret@)),
        bytes@.len() == GROUP_LEN,
{
    proof {
        lemma_modulus();
    }
    let n = prime();
    let mut hashed: Vec<u8> = Vec::new();
    extend(&mut hashed, n.as_slice());
    extend_zeros(&mut hashed, GROUP_LEN - 1);
    hashed.push(GENERATOR);
    assert(hashed@ =~= PRIME@ + padded_generator());
    let k = sha512(hashed.as_slice());
    let kv = big_mul(k.as_slice(), verifier);
    let gb = big_modpow(generator().as_slice(), secret, n.as_slice());
    let sum = big_add(kv.as_slice(), gb.as_slice());
    let b = big_rem(sum.as_slice(), n.as_slice());
    fit(b.as_slice())
}

/// The session key that the server shares with a client whose public key
/// it has received. There is none for a public key that is zero in the
/// group, which no client may send.
pub fn session_key(client_key: &[u8], verifier: &[u8], server_key: &[u8], secret: &[u8]) -> (key:
    Option<Vec<u8>>)
    ensures
        match key {
            Some(k) => {
                &&& be_value(client_key@) % modulus() != 0
                &&& k@ == session_key_of(
                    premaster_of(
                        be_value(client_key@),
                        be_value(verifier@),
                        be_value(server_key@),
                        be_value(secret@),
                    ),
                )
                &&& k@.len() == 64
            },
            None => be_value(client_key@) % modulus() == 0,
        },
{
    proof {
        lemma_modulus();
    }
    let n = prime();
    let reduced = big_rem(client_key, n.as_slice());
    if is_zero(reduced.as_slice()) {
        return None;
    }
    let a = fit(reduced.as_slice());
    let b = fit(big_rem(server_key, n.as_slice()).as_slice());
    let mut keys: Vec<u8> = Vec::new();
    extend(&mut keys, a.as_slice());
    extend(&mut keys, b.as_slice());
    let u = sha512(keys.as_slice());
    let vu = big_modpow(verifier, u.as_slice(), n.as_slice());
    let product = big_mul(client_key, vu.as_slice());
    let base = big_rem(product.as_slice(), n.as_slice());
    let premaster = big_modpow(base.as_slice(), secret, n.as_slice());
    let padded = fit(premaster.as_slice());
    Some(sha512(padded.as_slice()))
}

/// The two byte strings XORed byte by byte.
fn xor(a: &[u8], b: &[u8]) -> (out: Vec<u8>)
    ensures
        out@ == xored(a@, b@),
{
    let n: usize = if a.len() <= b.len() {
        a.len()
    } else {
        b.len()
    };
    let mut out: Vec<u8> = Vec::new();
    let mut i: usize = 0;
    while i < n
        invariant
            0 <= i <= n,
            n <= a@.len(),
            n <= b@.len(),
            out@.len() == i,
            forall|j: int| 0 <= j < i ==> out@[j] == a@[j] ^ b@[j],
        decreases n - i,
    {
        out.push(a[i] ^ b[i]);
        i += 1;
    }
    assert(out@ =~= xored(a@, b@));
    out
}

/// The proof of the client.
pub fn client_proof(
    username: &str,
    salt: &[u8],
    client_key: &[u8],
    server_key: &[u8],
    session_key: &[u8],
) -> (proof: Vec<u8>)
    ensures
        proof@ == client_proof_of(
            username.spec_bytes(),
            salt@,
            client_key@,
            server_key@,
            session_key@,
        ),
        proof@.len() == 64,
{
    let n = prime();
    let hn = sha512(n.as_slice());
    let hg = sha512(generator().as_slice());
    let mut message = xor(hn.as_slice(), hg.as_slice());
    let hi = sha512(username.as_bytes());
    extend(&mut message, hi.as_slice());
    extend(&mut message, salt);
    extend(&mut message, client_key);
    extend(&mut message, server_key);
    extend(&mut message, session_key);
    sha512(message.as_slice())
}

/// The proof of the server.
pub fn server_proof(client_key: &[u8], client_proof: &[u8], session_key: &[u8]) -> (proof: Vec<u8>)
    ensures
        proof@ == server_proof_of(client_key@, client_proof@, session_key@),
        proof@.len() == 64,
{
    let mut message: Vec<u8> = Vec::new();
    extend(&mut message, client_key);
    extend(&mut message, client_proof);
    extend(&mut message, session_key);
    sha512(message.as_slice())
}

/// What the server holds of an exchange: the salt, its secret, the
/// verifier of the password and its public key.
#[derive(Debug)]
pub struct SrpContext {
    pub salt: Vec<u8>,
    pub secret: Vec<u8>,
    pub verifier: Vec<u8>,
    pub public_key: Vec<u8>,
}

/// The mathematical model of an [`SrpContext`].
pub struct SrpContextView {
    pub salt: Seq<u8>,
    pub secret: Seq<u8>,
    pub verifier: Seq<u8>,
    pub public_key: Seq<u8>,
}

impl View for SrpContext {
    type V = SrpContextView;

    open spec fn view(&self) -> SrpContextView {
        SrpContextView {
            salt: self.salt@,
            secret: self.secret@,
            verifier: self.verifier@,
            public_key: self.public_key@,
        }
    }
}

impl Clone for SrpContext {
    fn clone(&self) -> (copy: SrpContext)
        ensures
            copy@ == self@,
    {
        SrpContext {
            salt: self.salt.clone(),
            secret: self.secret.clone(),
            verifier: self.verifier.clone(),
            public_key: self.public_key.clone(),
        }
    }
}

/// The context of an exchange for a user name and a password, with the
/// given salt and secret of the server.
pub open spec fn context_of(
    username: Seq<u8>,
    password: Seq<u8>,
    salt: Seq<u8>,
    secret: Seq<u8>,
) -> SrpContextView {
    let verifier = verifier_of(salt, username, password);
    SrpContextView {
        salt,
        secret,
        verifier: encode_be(verifier, GROUP_LEN as nat),
        public_key: encode_be(public_key_of(verifier, be_value(secret)), GROUP_LEN as nat),
    }
}

/// Starts an exchange for a user name and a password. The salt and the
/// secret of the server are to be chosen at random for each exchange.
pub fn start(username: &str, password: &str, salt: &[u8], secret: &[u8]) -> (context: SrpContext)
    ensures
        context@ == context_of(username.spec_bytes(), password.spec_bytes(), salt@, secret@),
{
    let verifier = password_verifier(salt, username, password);
    let public_key = public_key(verifier.as_slice(), secret);
    let mut salt_copy: Vec<u8> = Vec::new();
    extend(&mut salt_copy, salt);
    let mut secret_copy: Vec<u8> = Vec::new();
    extend(&mut secret_copy, secret);
    SrpContext { salt: salt_copy, secret: secret_copy, verifier, public_key }
}

/// What the proof of a client yields, if it holds: the proof of the server
/// and the session key. It holds if the public key of the client is not zero
/// in the group and the proof is that of a client which has come to the same
/// session key.
pub open spec fn yield_of(
    context: SrpContextView,
    username: Seq<u8>,
    client_key: Seq<u8>,
    proof: Seq<u8>,
) -> Option<(Seq<u8>, Seq<u8>)> {
    let key = session_key_of(
        premaster_of(
            be_value(client_key),
            be_value(context.verifier),
            be_value(context.public_key),
            be_value(context.secret),
        ),
    );
    if be_value(client_key) % modulus() != 0 && proof == client_proof_of(
        username,
        context.salt,
        client_key,
        context.public_key,
        key,
    ) {
        Some((server_proof_of(client_key, proof, key), key))
    } else {
        None
    }
}

/// Checks the proof of a client against the context of the exchange.
pub fn check(context: &SrpContext, username: &str, client_key: &[u8], proof: &[u8]) -> (yielded:
    Option<(Vec<u8>, Vec<u8>)>)
    ensures
        match yielded {
            Some((server, key)) => yield_of(
                context@,
                username.spec_bytes(),
                client_key@,
                proof@,
            ) == Some((server@, key@)),
            None => yield_of(context@, username.spec_bytes(), client_key@, proof@) is None,
        },
{
    let key = match session_key(
        client_key,
        context.verifier.as_slice(),
        context.public_key.as_slice(),
        context.secret.as_slice(),
    ) {
        Some(key) => key,
        None => {
            return None;
        },
    };
    let expected = client_proof(
        username,
        context.salt.as_slice(),
        client_key,
        context.public_key.as_slice(),
        key.as_slice(),
    );
    if !crate::bytes::same_bytes(expected.as_slice(), proof) {
        return None;
    }
    let server = server_proof(client_key, proof, key.as_slice());
    Some((server, key))
}

} // verus!
