//! Pair-verify: the exchange in which a paired controller and the accessory
//! prove their long-term keys to each other and agree on the keys of the
//! session.

use vstd::prelude::*;
use vstd::string::*;
use crate::aead::{crypted, open, opened, seal, tag_of, MAX_TEXT_LEN, TAG_LEN};
use crate::bytes::{copy_range, extend, to_array_32, zeros};
use crate::cryptography::{
    ed25519_signature_of, ed25519_verifies, ed25519_verify, x25519, x25519_of,
};
use crate::pairing::{place_of_bytes, PairingStore, PairingView};
use crate::protocol::{
    derive_key, derived_key, message_nonce, message_nonce_of, Device, DeviceView,
};
use crate::tlv::{
    decode, decode_items, encode, encode_items, find, items_view, value_of,
    ENCRYPTED_DATA, ERROR, IDENTIFIER, PUBLIC_KEY, SIGNATURE, STATE,
};
use crate::transport::session::{SessionState, SessionStateView};

verus! {

/// The TLV error code of a request that cannot be made sense of.
pub const UNKNOWN: u8 = 0x01;

/// The TLV error code of a failed authentication.
pub const AUTHENTICATION: u8 = 0x02;

/// What the accessory keeps between the two requests of pair-verify: the
/// ephemeral public keys of both sides, the shared secret and the key under
/// which the messages of the exchange are sealed.
#[derive(Debug)]
pub struct VerifyContext {
    pub accessory_public: [u8; 32],
    pub controller_public: [u8; 32],
    pub shared_secret: [u8; 32],
    pub session_key: [u8; 32],
}

/// The mathematical model of a [`VerifyContext`].
pub struct VerifyContextView {
    pub accessory_public: Seq<u8>,
    pub controller_public: Seq<u8>,
    pub shared_secret: Seq<u8>,
    pub session_key: Seq<u8>,
}

impl View for VerifyContext {
    type V = VerifyContextView;

    open spec fn view(&self) -> VerifyContextView {
        VerifyContextView {
            accessory_public: self.accessory_public@,
            controller_public: self.controller_public@,
            shared_secret: self.shared_secret@,
            session_key: self.session_key@,
        }
    }
}

impl Clone for VerifyContext {
    fn clone(&self) -> (copy: VerifyContext)
        ensures
            copy@ == self@,
    {
        VerifyContext {
            accessory_public: self.accessory_public,
            controller_public: self.controller_public,
            shared_secret: self.shared_secret,
            session_key: self.session_key,
        }
    }
}

/// The base point of Curve25519: the byte 9 and 31 zero bytes.
pub open spec fn base_point() -> Seq<u8> {
    seq![9u8] + zeros(31)
}

/// The context that the first request of pair-verify leads to, given the
/// ephemeral secret key of the accessory: the ephemeral public key of the
/// accessory, the shared secret, and the key that is derived from it for
/// the messages of the exchange.
pub open spec fn context_of(secret: Seq<u8>, controller_public: Seq<u8>) -> VerifyContextView {
    let shared_secret = x25519_of(secret, controller_public);
    VerifyContextView {
        accessory_public: x25519_of(secret, base_point()),
        controller_public,
        shared_secret,
        session_key: derived_key(
            "Pair-Verify-Encrypt-Salt".spec_bytes(),
            "Pair-Verify-Encrypt-Info".spec_bytes(),
            shared_secret,
        ),
    }
}

/// What the accessory signs in pair-verify: its ephemeral public key, its
/// pairing id and the ephemeral public key of the controller.
pub open spec fn accessory_info(context: VerifyContextView, device: DeviceView) -> Seq<u8> {
    context.accessory_public + device.pairing_id_bytes() + context.controller_public
}

/// What the controller signs in pair-verify: its ephemeral public key, its
/// pairing id and the ephemeral public key of the accessory.
pub open spec fn controller_info(context: VerifyContextView, controller_id: Seq<u8>) -> Seq<u8> {
    context.controller_public + controller_id + context.accessory_public
}

/// The bytes that are sealed into the answer to the first request: the
/// pairing id of the accessory and its signature.
pub open spec fn accessory_proof(context: VerifyContextView, device: DeviceView) -> Seq<u8> {
    encode(
        seq![
            (IDENTIFIER, device.pairing_id_bytes()),
            (SIGNATURE, ed25519_signature_of(accessory_info(context, device), device.secret_key)),
        ],
    )
}

/// A text as it is sealed into a pairing message under a key and the nonce
/// of the message, without additional data: the ciphertext and the tag.
pub open spec fn sealed_message(key: Seq<u8>, label: Seq<u8>, text: Seq<u8>) -> Seq<u8> {
    let nonce = message_nonce_of(label);
    crypted(key, nonce, text) + tag_of(key, nonce, Seq::empty(), crypted(key, nonce, text))
}

/// The text that a pairing message holds under a key and the nonce of the
/// message: what its bytes but the last 16 open to, with the last 16 as the
/// tag. There is none where the message is shorter than a tag or does not
/// open.
pub open spec fn opened_message(key: Seq<u8>, label: Seq<u8>, message: Seq<u8>) -> Option<Seq<u8>> {
    if message.len() < TAG_LEN || message.len() - TAG_LEN > MAX_TEXT_LEN {
        None
    } else {
        opened(
            key,
            message_nonce_of(label),
            Seq::empty(),
            message.subrange(0, message.len() - TAG_LEN),
            message.subrange(message.len() - TAG_LEN, message.len() as int),
        )
    }
}

/// The answer to the first request of pair-verify: the state 2, the
/// ephemeral public key of the accessory, and the sealed proof of the
/// accessory.
pub open spec fn start_response(context: VerifyContextView, device: DeviceView) -> Seq<u8> {
    encode(
        seq![
            (STATE, seq![2u8]),
            (PUBLIC_KEY, context.accessory_public),
            (
                ENCRYPTED_DATA,
                sealed_message(
                    context.session_key,
                    "PV-Msg02".spec_bytes(),
                    accessory_proof(context, device),
                ),
            ),
        ],
    )
}

/// Seals a text into a pairing message.
pub fn seal_message(key: &[u8; 32], label: &str, text: &[u8]) -> (message: Vec<u8>)
    requires
        label@.len() == 8,
        vstd::utf8::is_ascii_chars(label@),
        text@.len() <= MAX_TEXT_LEN,
    ensures
        message@ == sealed_message(key@, label.spec_bytes(), text@),
{
    let nonce = message_nonce(label);
    let empty: Vec<u8> = Vec::new();
    let (ciphertext, tag) = seal(key, nonce.as_slice(), empty.as_slice(), text);
    let mut message = ciphertext;
    extend(&mut message, tag.as_slice());
    assert(empty@ =~= Seq::<u8>::empty());
    message
}

/// Opens a pairing message.
pub fn open_message(key: &[u8; 32], label: &str, message: &[u8]) -> (text: Option<Vec<u8>>)
    requires
        label@.len() == 8,
        vstd::utf8::is_ascii_chars(label@),
    ensures
        match text {
            Some(t) => opened_message(key@, label.spec_bytes(), message@) == Some(t@),
            None => opened_message(key@, label.spec_bytes(), message@) is None,
        },
{
    if message.len() < TAG_LEN || message.len() - TAG_LEN > MAX_TEXT_LEN {
        return None;
    }
    let nonce = message_nonce(label);
    let empty: Vec<u8> = Vec::new();
    assert(empty@ =~= Seq::<u8>::empty());
    let split = message.len() - TAG_LEN;
    let ciphertext = copy_range(message, 0, split);
    let tag = copy_range(message, split, message.len());
    open(key, nonce.as_slice(), empty.as_slice(), ciphertext.as_slice(), tag.as_slice())
}

/// The base point of Curve25519.
fn base() -> (point: [u8; 32])
    ensures
        point@ == base_point(),
{
    let mut point = [0u8; 32];
    point[0] = 9;
    assert(point@ =~= base_point());
    point
}

/// Answers the first request of pair-verify, which brought the ephemeral
/// public key of the controller. The ephemeral secret key of the accessory
/// is to be chosen at random for each exchange. Returns the context to keep
/// for the second request, and the answer.
pub fn start(device: &Device, secret: &[u8; 32], controller_public: &[u8; 32]) -> (out: (
    VerifyContext,
    Vec<u8>,
))
    ensures
        out.0@ == context_of(secret@, controller_public@),
        out.1@ == start_response(out.0@, device@),
{
    proof {
        reveal_strlit("PV-Msg02");
    }
    let accessory_public = x25519(secret, &base());
    let shared_secret = x25519(secret, controller_public);
    let session_key = derive_key(
        "Pair-Verify-Encrypt-Salt",
        "Pair-Verify-Encrypt-Info",
        shared_secret.as_slice(),
    );
    let context = VerifyContext {
        accessory_public,
        controller_public: *controller_public,
        shared_secret,
        session_key,
    };
    let mut info: Vec<u8> = Vec::new();
    extend(&mut info, accessory_public.as_slice());
    extend(&mut info, device.pairing_id().as_bytes());
    extend(&mut info, controller_public.as_slice());
    assert(info@ =~= accessory_info(context@, device@));
    let signature = device.sign(info.as_slice());
    let mut proof_items: Vec<(u8, Vec<u8>)> = Vec::new();
    let id_bytes = device.pairing_id().as_bytes();
    let identifier = copy_range(id_bytes, 0, id_bytes.len());
    assert(identifier@ =~= device@.pairing_id_bytes());
    proof_items.push((IDENTIFIER, identifier));
    proof_items.push((SIGNATURE, signature));
    proof {
        assert(items_view(proof_items@) =~= seq![
            (IDENTIFIER, device@.pairing_id_bytes()),
            (SIGNATURE, ed25519_signature_of(accessory_info(context@, device@), device@.secret_key)),
        ]);
        lemma_encode_two_short(items_view(proof_items@));
    }
    let proof_bytes = encode_items(&proof_items);
    let sealed = seal_message(&session_key, "PV-Msg02", proof_bytes.as_slice());
    let mut items: Vec<(u8, Vec<u8>)> = Vec::new();
    let mut state: Vec<u8> = Vec::new();
    state.push(2);
    items.push((STATE, state));
    items.push((PUBLIC_KEY, copy_range(accessory_public.as_slice(), 0, 32)));
    items.push((ENCRYPTED_DATA, sealed));
    proof {
        assert(state@ =~= seq![2u8]);
        assert(accessory_public@.subrange(0, 32) =~= accessory_public@);
        assert(items_view(items@) =~= seq![
            (STATE, seq![2u8]),
            (PUBLIC_KEY, context@.accessory_public),
            (
                ENCRYPTED_DATA,
                sealed_message(
                    context@.session_key,
                    "PV-Msg02".spec_bytes(),
                    accessory_proof(context@, device@),
                ),
            ),
        ]);
    }
    let response = encode_items(&items);
    (context, response)
}

/// Two items of at most 255 bytes each are written with at most 514 bytes.
pub proof fn lemma_encode_two_short(items: Seq<(u8, Seq<u8>)>)
    requires
        items.len() == 2,
        items[0].1.len() <= 255,
        items[1].1.len() <= 255,
    ensures
        encode(items).len() <= 514,
{
    reveal_with_fuel(encode, 3);
    assert(items.drop_first()[0] == items[1]);
    assert(items.drop_first().drop_first().len() == 0);
}

/// What pair-verify agrees on: the controller that has proved its key, and
/// the keys of the two directions of the session.
#[derive(Debug)]
pub struct SessionKeys {
    pub controller_id: String,
    pub c2a_key: [u8; 32],
    pub a2c_key: [u8; 32],
}

/// The key of the direction from the controller to the accessory.
pub open spec fn c2a_key_of(shared_secret: Seq<u8>) -> Seq<u8> {
    derived_key(
        "Control-Salt".spec_bytes(),
        "Control-Read-Encryption-Key".spec_bytes(),
        shared_secret,
    )
}

/// The key of the direction from the accessory to the controller.
pub open spec fn a2c_key_of(shared_secret: Seq<u8>) -> Seq<u8> {
    derived_key(
        "Control-Salt".spec_bytes(),
        "Control-Write-Encryption-Key".spec_bytes(),
        shared_secret,
    )
}

/// Whether the items of the proof of a controller prove it: they name a
/// controller that is paired, and hold a signature of 64 bytes that its
/// long-term public key verifies against what the controller signs.
pub open spec fn proves(
    context: VerifyContextView,
    pairings: Seq<PairingView>,
    items: Seq<(u8, Seq<u8>)>,
) -> bool {
    match (value_of(items, IDENTIFIER), value_of(items, SIGNATURE)) {
        (Some(id), Some(signature)) => {
            let place = place_of_bytes(pairings, id);
            &&& place < pairings.len()
            &&& signature.len() == 64
            &&& ed25519_verifies(controller_info(context, id), pairings[place].ltpk, signature)
        },
        _ => false,
    }
}

/// The pairing id of the controller that the second request of pair-verify
/// has verified, if it has verified one: the sealed data must open under the
/// key of the exchange, hold the items of a proof, and the items must prove
/// the controller.
pub open spec fn verified(
    context: VerifyContextView,
    pairings: Seq<PairingView>,
    encrypted: Seq<u8>,
) -> Option<Seq<char>> {
    match opened_message(context.session_key, "PV-Msg03".spec_bytes(), encrypted) {
        None => None,
        Some(text) => match decode(text) {
            None => None,
            Some(items) => if proves(context, pairings, items) {
                Some(pairings[place_of_bytes(pairings, value_of(items, IDENTIFIER)->0)].id)
            } else {
                None
            },
        },
    }
}

/// Checks the proof of a controller.
fn check_proof(context: &VerifyContext, pairings: &PairingStore, items: &Vec<(u8, Vec<u8>)>) -> (id:
    Option<String>)
    ensures
        match id {
            Some(id) => proves(context@, pairings@, items_view(items@)) && id@ == pairings@[place_of_bytes(
                pairings@,
                value_of(items_view(items@), IDENTIFIER)->0,
            )].id,
            None => !proves(context@, pairings@, items_view(items@)),
        },
{
    let identifier = match find(items, IDENTIFIER) {
        Some(identifier) => identifier,
        None => {
            return None;
        },
    };
    let signature = match find(items, SIGNATURE) {
        Some(signature) => signature,
        None => {
            return None;
        },
    };
    let pairing = match pairings.get_by_bytes(identifier.as_slice()) {
        Some(pairing) => pairing,
        None => {
            return None;
        },
    };
    if signature.len() != 64 {
        return None;
    }
    let mut info: Vec<u8> = Vec::new();
    extend(&mut info, context.controller_public.as_slice());
    extend(&mut info, identifier.as_slice());
    extend(&mut info, context.accessory_public.as_slice());
    assert(info@ =~= controller_info(context@, identifier@));
    if ed25519_verify(info.as_slice(), &pairing.ltpk, signature.as_slice()) {
        Some(pairing.id)
    } else {
        None
    }
}

/// Checks the second request of pair-verify, which brought the sealed proof
/// of the controller. Where the proof holds, returns the controller and the
/// keys of the session, which are derived from the shared secret.
pub fn finish(context: &VerifyContext, pairings: &PairingStore, encrypted: &[u8]) -> (keys: Option<
    SessionKeys,
>)
    ensures
        match keys {
            Some(k) => {
                &&& verified(context@, pairings@, encrypted@) == Some(k.controller_id@)
                &&& k.c2a_key@ == c2a_key_of(context@.shared_secret)
                &&& k.a2c_key@ == a2c_key_of(context@.shared_secret)
            },
            None => verified(context@, pairings@, encrypted@) is None,
        },
{
    proof {
        reveal_strlit("PV-Msg03");
    }
    let text = match open_message(&context.session_key, "PV-Msg03", encrypted) {
        Some(text) => text,
        None => {
            return None;
        },
    };
    let items = match decode_items(text.as_slice()) {
        Some(items) => items,
        None => {
            return None;
        },
    };
    let controller_id = match check_proof(context, pairings, &items) {
        Some(id) => id,
        None => {
            return None;
        },
    };
    Some(
        SessionKeys {
            controller_id,
            c2a_key: derive_key(
                "Control-Salt",
                "Control-Read-Encryption-Key",
                context.shared_secret.as_slice(),
            ),
            a2c_key: derive_key(
                "Control-Salt",
                "Control-Write-Encryption-Key",
                context.shared_secret.as_slice(),
            ),
        },
    )
}

/// An answer of a pairing exchange that carries nothing but the state and,
/// on failure, the error.
pub open spec fn state_response(state: u8, error: Option<u8>) -> Seq<u8> {
    match error {
        Some(code) => encode(seq![(STATE, seq![state]), (ERROR, seq![code])]),
        None => encode(seq![(STATE, seq![state])]),
    }
}

/// An answer of a pairing exchange that carries nothing but the state and,
/// on failure, the error.
pub fn respond_state(state: u8, error: Option<u8>) -> (response: Vec<u8>)
    ensures
        response@ == state_response(state, error),
{
    let mut items: Vec<(u8, Vec<u8>)> = Vec::new();
    let mut value: Vec<u8> = Vec::new();
    value.push(state);
    assert(value@ =~= seq![state]);
    items.push((STATE, value));
    match error {
        Some(code) => {
            let mut value: Vec<u8> = Vec::new();
            value.push(code);
            assert(value@ =~= seq![code]);
            items.push((ERROR, value));
            assert(items_view(items@) =~= seq![(STATE, seq![state]), (ERROR, seq![code])]);
        },
        None => {
            assert(items_view(items@) =~= seq![(STATE, seq![state])]);
        },
    }
    encode_items(&items)
}

/// What a request of pair-verify comes to, for a session in the given
/// state: the state that the session takes, and the answer.
///
/// The first request, of the state 1, must bring a public key of 32 bytes;
/// the session is then in pair-verify at the step 2. The second request, of
/// the state 3, must come while the session is there, and bring sealed
/// data; where it verifies a controller the session is encrypted from then
/// on, with both counts of frames at zero, and where it does not, the
/// exchange is over with the error of a failed authentication and nothing is
/// agreed on the session. Any other request is answered with the error of
/// an unknown request and leaves the session as it is.
pub open spec fn handled(
    device: DeviceView,
    pairings: Seq<PairingView>,
    state: SessionStateView,
    body: Seq<u8>,
    secret: Seq<u8>,
) -> (SessionStateView, Seq<u8>) {
    let refused = (state, state_response(2, Some(UNKNOWN)));
    match decode(body) {
        None => refused,
        Some(items) => {
            let step = value_of(items, STATE);
            if step == Some(seq![1u8]) {
                match value_of(items, PUBLIC_KEY) {
                    Some(controller_public) => if controller_public.len() == 32 {
                        let context = context_of(secret, controller_public);
                        (
                            SessionStateView::InPairVerify { step: 2, ecdh_context: context },
                            start_response(context, device),
                        )
                    } else {
                        refused
                    },
                    None => refused,
                }
            } else if step == Some(seq![3u8]) {
                match (state, value_of(items, ENCRYPTED_DATA)) {
                    (
                        SessionStateView::InPairVerify { step: 2, ecdh_context: context },
                        Some(encrypted),
                    ) => {
                        match verified(context, pairings, encrypted) {
                            Some(controller_id) => (
                                SessionStateView::Encrypted {
                                    controller_id,
                                    c2a_key: c2a_key_of(context.shared_secret),
                                    a2c_key: a2c_key_of(context.shared_secret),
                                    c2a_nonce: 0,
                                    a2c_nonce: 0,
                                },
                                state_response(4, None),
                            ),
                            None => (
                                SessionStateView::Unpaired,
                                state_response(4, Some(AUTHENTICATION)),
                            ),
                        }
                    },
                    _ => (state, state_response(4, Some(UNKNOWN))),
                }
            } else {
                refused
            }
        },
    }
}

/// Whether the value of an item is the one given byte.
fn is_byte(value: Option<&Vec<u8>>, byte: u8) -> (is: bool)
    ensures
        is == match value {
            Some(v) => v@ == seq![byte],
            None => false,
        },
{
    match value {
        Some(v) => {
            if v.len() == 1 && v[0] == byte {
                assert(v@ =~= seq![byte]);
                true
            } else {
                false
            }
        },
        None => false,
    }
}

/// Handles a request of pair-verify for a session in the given state. The
/// ephemeral secret key is to be chosen at random for each first request.
/// Returns the state that the session takes, if it changes, and the answer.
pub fn handle(
    device: &Device,
    pairings: &PairingStore,
    state: &SessionState,
    body: &[u8],
    secret: &[u8; 32],
) -> (out: (Option<SessionState>, Vec<u8>))
    ensures
        out.1@ == handled(device@, pairings@, state@, body@, secret@).1,
        match out.0 {
            Some(next) => next@ == handled(device@, pairings@, state@, body@, secret@).0,
            None => state@ == handled(device@, pairings@, state@, body@, secret@).0,
        },
{
    let items = match decode_items(body) {
        Some(items) => items,
        None => {
            return (None, respond_state(2, Some(UNKNOWN)));
        },
    };
    let step = find(&items, STATE);
    if is_byte(step, 1) {
        let controller_public = match find(&items, PUBLIC_KEY) {
            Some(controller_public) => controller_public,
            None => {
                return (None, respond_state(2, Some(UNKNOWN)));
            },
        };
        let controller_public = match to_array_32(controller_public.as_slice()) {
            Some(controller_public) => controller_public,
            None => {
                return (None, respond_state(2, Some(UNKNOWN)));
            },
        };
        let (context, response) = start(device, secret, &controller_public);
        (Some(SessionState::InPairVerify { step: 2, ecdh_context: context }), response)
    } else if is_byte(step, 3) {
        let context = match state {
            SessionState::InPairVerify { step, ecdh_context } => {
                if *step != 2 {
                    return (None, respond_state(4, Some(UNKNOWN)));
                }
                ecdh_context
            },
            _ => {
                return (None, respond_state(4, Some(UNKNOWN)));
            },
        };
        let encrypted = match find(&items, ENCRYPTED_DATA) {
            Some(encrypted) => encrypted,
            None => {
                return (None, respond_state(4, Some(UNKNOWN)));
            },
        };
        match finish(context, pairings, encrypted.as_slice()) {
            Some(keys) => (
                Some(
                    SessionState::Encrypted {
                        controller_id: keys.controller_id,
                        c2a_key: keys.c2a_key,
                        a2c_key: keys.a2c_key,
                        c2a_nonce: 0,
                        a2c_nonce: 0,
                    },
                ),
                respond_state(4, None),
            ),
            None => (Some(SessionState::Unpaired), respond_state(4, Some(AUTHENTICATION))),
        }
    } else {
        (None, respond_state(2, Some(UNKNOWN)))
    }
}

} // verus!
