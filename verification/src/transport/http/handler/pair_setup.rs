//! Pair-setup: the exchange in which a controller that knows the setup code
//! and the accessory learn each other's long-term public keys.
//!
//! The controller proves that it knows the setup code by the Secure Remote
//! Password protocol.

use vstd::prelude::*;
use vstd::string::*;
use crate::bytes::{copy_range, extend, to_array_32};
use crate::cryptography::{ed25519_signature_of, ed25519_verifies, ed25519_verify};
use crate::protocol::{derive_key, derived_key, Device, DeviceView};
use crate::srp::{check, context_of, start, yield_of};
use crate::text::text_of_bytes;
use crate::tlv::{
    decode, decode_items, encode, encode_items, find, items_view, value_of, ENCRYPTED_DATA,
    IDENTIFIER, METHOD, PROOF, PUBLIC_KEY, SALT, SIGNATURE, STATE,
};
use crate::transport::http::handler::pair_verify::{
    open_message, opened_message, respond_state, seal_message, sealed_message, state_response,
    UNKNOWN,
};
use crate::transport::session::{SessionState, SessionStateView};

verus! {

/// The TLV error code with which pair-setup is refused while a controller
/// is paired.
pub const UNAVAILABLE: u8 = 0x02;

/// The TLV error code of a failed authentication.
pub const AUTHENTICATION: u8 = 0x02;

/// The TLV error code with which pair-setup is refused after too many
/// failed attempts.
pub const MAX_TRIES: u8 = 0x03;

/// The TLV error code with which pair-setup is refused while another
/// session is in pair-setup.
pub const BUSY: u8 = 0x04;

/// The number of failed attempts after which pair-setup is refused.
pub const MAX_FAILED_ATTEMPTS: u64 = 100;

/// The name under which the accessory proves the setup code.
pub const USERNAME: &'static str = "Pair-Setup";

/// What the server keeps of pair-setup across sessions: the number of
/// failed attempts since it started, counted up to the one that passes the
/// limit, and the session that is in pair-setup, if one is.
#[derive(Clone, Copy, Debug, PartialEq, Eq, Structural)]
pub struct SetupState {
    pub failed_attempts: u64,
    pub session: Option<u64>,
}

/// Whether pair-setup may begin for the session with the given id, and the
/// error with which it is refused otherwise: it is unavailable while a
/// controller is paired, refused after more than 100 failed attempts, and
/// busy while another session is in pair-setup.
pub open spec fn may_begin(setup: SetupState, paired: bool, session: u64) -> Result<(), u8> {
    if paired {
        Err(UNAVAILABLE)
    } else if setup.failed_attempts > MAX_FAILED_ATTEMPTS {
        Err(MAX_TRIES)
    } else if setup.session is Some && setup.session != Some(session) {
        Err(BUSY)
    } else {
        Ok(())
    }
}

/// The state after one more attempt has failed: the attempt is counted,
/// unless the limit is passed already, and no session is in pair-setup.
pub open spec fn failed(setup: SetupState) -> SetupState {
    SetupState {
        failed_attempts: if setup.failed_attempts <= MAX_FAILED_ATTEMPTS {
            (setup.failed_attempts + 1) as u64
        } else {
            setup.failed_attempts
        },
        session: None,
    }
}

impl SetupState {
    /// The state of a server that has just started.
    pub fn new() -> (setup: SetupState)
        ensures
            setup == (SetupState { failed_attempts: 0, session: None }),
    {
        SetupState { failed_attempts: 0, session: None }
    }

    /// Decides whether pair-setup may begin for the session with the given
    /// id.
    pub fn begin(&self, paired: bool, session: u64) -> (result: Result<(), u8>)
        ensures
            result == may_begin(*self, paired, session),
    {
        if paired {
            return Err(UNAVAILABLE);
        }
        if self.failed_attempts > MAX_FAILED_ATTEMPTS {
            return Err(MAX_TRIES);
        }
        match self.session {
            Some(other) => {
                if other != session {
                    return Err(BUSY);
                }
            },
            None => {},
        }
        Ok(())
    }

    /// Counts a failed attempt and ends the exchange.
    pub fn fail(&mut self)
        ensures
            *final(self) == failed(*old(self)),
    {
        if self.failed_attempts <= MAX_FAILED_ATTEMPTS {
            self.failed_attempts = self.failed_attempts + 1;
        }
        self.session = None;
    }
}

/// The answer to the first request: the state 2, the public key of the
/// accessory in the password protocol, and the salt.
pub open spec fn challenge_response(public_key: Seq<u8>, salt: Seq<u8>) -> Seq<u8> {
    encode(seq![(STATE, seq![2u8]), (PUBLIC_KEY, public_key), (SALT, salt)])
}

/// The answer to the first request.
pub fn challenge(public_key: &[u8], salt: &[u8]) -> (response: Vec<u8>)
    ensures
        response@ == challenge_response(public_key@, salt@),
{
    let mut items: Vec<(u8, Vec<u8>)> = Vec::new();
    let mut state: Vec<u8> = Vec::new();
    state.push(2);
    assert(state@ =~= seq![2u8]);
    items.push((STATE, state));
    items.push((PUBLIC_KEY, copy_range(public_key, 0, public_key.len())));
    items.push((SALT, copy_range(salt, 0, salt.len())));
    proof {
        assert(public_key@.subrange(0, public_key@.len() as int) =~= public_key@);
        assert(salt@.subrange(0, salt@.len() as int) =~= salt@);
        assert(items_view(items@) =~= seq![
            (STATE, seq![2u8]),
            (PUBLIC_KEY, public_key@),
            (SALT, salt@),
        ]);
    }
    encode_items(&items)
}

/// The answer to the second request, once the proof of the controller has
/// been verified: the state 4 and the proof of the accessory.
pub open spec fn proof_response(proof: Seq<u8>) -> Seq<u8> {
    encode(seq![(STATE, seq![4u8]), (PROOF, proof)])
}

/// The answer to the second request.
pub fn prove(proof: &[u8]) -> (response: Vec<u8>)
    ensures
        response@ == proof_response(proof@),
{
    let mut items: Vec<(u8, Vec<u8>)> = Vec::new();
    let mut state: Vec<u8> = Vec::new();
    state.push(4);
    assert(state@ =~= seq![4u8]);
    items.push((STATE, state));
    items.push((PROOF, copy_range(proof, 0, proof.len())));
    proof {
        assert(proof@.subrange(0, proof@.len() as int) =~= proof@);
        assert(items_view(items@) =~= seq![(STATE, seq![4u8]), (PROOF, proof@)]);
    }
    encode_items(&items)
}

/// The key under which the third request and its answer are sealed.
pub open spec fn setup_key(shared_secret: Seq<u8>) -> Seq<u8> {
    derived_key(
        "Pair-Setup-Encrypt-Salt".spec_bytes(),
        "Pair-Setup-Encrypt-Info".spec_bytes(),
        shared_secret,
    )
}

/// What the controller signs in pair-setup: a key that is derived from the
/// shared secret, its pairing id and its long-term public key.
pub open spec fn controller_info(shared_secret: Seq<u8>, id: Seq<u8>, ltpk: Seq<u8>) -> Seq<u8> {
    derived_key(
        "Pair-Setup-Controller-Sign-Salt".spec_bytes(),
        "Pair-Setup-Controller-Sign-Info".spec_bytes(),
        shared_secret,
    ) + id + ltpk
}

/// What the accessory signs in pair-setup: a key that is derived from the
/// shared secret, its pairing id and its long-term public key.
pub open spec fn accessory_info(shared_secret: Seq<u8>, device: DeviceView) -> Seq<u8> {
    derived_key(
        "Pair-Setup-Accessory-Sign-Salt".spec_bytes(),
        "Pair-Setup-Accessory-Sign-Info".spec_bytes(),
        shared_secret,
    ) + device.pairing_id_bytes() + device.public_key()
}

/// Whether the items that the controller has sealed into the third request
/// introduce it: a pairing id that is a text, a long-term public key of 32
/// bytes, and a signature of 64 bytes that the key verifies against what
/// the controller signs.
pub open spec fn introduces(shared_secret: Seq<u8>, items: Seq<(u8, Seq<u8>)>) -> bool {
    match (value_of(items, IDENTIFIER), value_of(items, PUBLIC_KEY), value_of(items, SIGNATURE)) {
        (Some(id), Some(ltpk), Some(signature)) => {
            &&& ltpk.len() == 32
            &&& signature.len() == 64
            &&& vstd::utf8::valid_utf8(id)
            &&& ed25519_verifies(controller_info(shared_secret, id, ltpk), ltpk, signature)
        },
        _ => false,
    }
}

/// The items with which the third request introduces the controller, if it
/// does: the sealed data must open under the key of the exchange, hold
/// items, and the items must introduce the controller.
pub open spec fn introduction(shared_secret: Seq<u8>, encrypted: Seq<u8>) -> Option<
    Seq<(u8, Seq<u8>)>,
> {
    match opened_message(setup_key(shared_secret), "PS-Msg05".spec_bytes(), encrypted) {
        None => None,
        Some(text) => match decode(text) {
            None => None,
            Some(items) => if introduces(shared_secret, items) {
                Some(items)
            } else {
                None
            },
        },
    }
}

/// The answer to the third request: the state 6 and, sealed, the pairing id
/// of the accessory, its long-term public key and its signature.
pub open spec fn exchange_response(shared_secret: Seq<u8>, device: DeviceView) -> Seq<u8> {
    encode(
        seq![
            (STATE, seq![6u8]),
            (
                ENCRYPTED_DATA,
                sealed_message(
                    setup_key(shared_secret),
                    "PS-Msg06".spec_bytes(),
                    encode(
                        seq![
                            (IDENTIFIER, device.pairing_id_bytes()),
                            (PUBLIC_KEY, device.public_key()),
                            (
                                SIGNATURE,
                                ed25519_signature_of(
                                    accessory_info(shared_secret, device),
                                    device.secret_key,
                                ),
                            ),
                        ],
                    ),
                ),
            ),
        ],
    )
}

/// A controller as pair-setup has come to know it: its pairing id and its
/// long-term public key.
#[derive(Debug)]
pub struct Controller {
    pub id: String,
    pub ltpk: [u8; 32],
}

/// Checks the items that the controller has sealed into the third request.
fn check_introduction(shared_secret: &[u8], items: &Vec<(u8, Vec<u8>)>) -> (controller: Option<
    Controller,
>)
    ensures
        match controller {
            Some(c) => {
                &&& introduces(shared_secret@, items_view(items@))
                &&& c.id@ == vstd::utf8::decode_utf8(value_of(items_view(items@), IDENTIFIER)->0)
                &&& c.ltpk@ == value_of(items_view(items@), PUBLIC_KEY)->0
            },
            None => !introduces(shared_secret@, items_view(items@)),
        },
{
    let identifier = match find(items, IDENTIFIER) {
        Some(identifier) => identifier,
        None => {
            return None;
        },
    };
    let public_key = match find(items, PUBLIC_KEY) {
        Some(public_key) => public_key,
        None => {
            return None;
        },
    };
    let signature = match find(items, SIGNATURE) {
        Some(signature) => signature,
        None => {
            return None;
        },
    };
    let ltpk = match to_array_32(public_key.as_slice()) {
        Some(ltpk) => ltpk,
        None => {
            return None;
        },
    };
    if signature.len() != 64 {
        return None;
    }
    let id = match text_of_bytes(identifier.as_slice()) {
        Some(id) => id,
        None => {
            return None;
        },
    };
    proof {
        vstd::utf8::encode_utf8_decode_utf8(id@);
    }
    let mut info: Vec<u8> = Vec::new();
    let key = derive_key(
        "Pair-Setup-Controller-Sign-Salt",
        "Pair-Setup-Controller-Sign-Info",
        shared_secret,
    );
    extend(&mut info, key.as_slice());
    extend(&mut info, identifier.as_slice());
    extend(&mut info, public_key.as_slice());
    assert(info@ =~= controller_info(shared_secret@, identifier@, public_key@));
    if ed25519_verify(info.as_slice(), &ltpk, signature.as_slice()) {
        Some(Controller { id, ltpk })
    } else {
        None
    }
}

/// The answer to the third request.
fn respond_exchange(device: &Device, shared_secret: &[u8]) -> (response: Vec<u8>)
    ensures
        response@ == exchange_response(shared_secret@, device@),
{
    proof {
        reveal_strlit("PS-Msg06");
    }
    let session_key = derive_key(
        "Pair-Setup-Encrypt-Salt",
        "Pair-Setup-Encrypt-Info",
        shared_secret,
    );
    let key = derive_key(
        "Pair-Setup-Accessory-Sign-Salt",
        "Pair-Setup-Accessory-Sign-Info",
        shared_secret,
    );
    let id_bytes = device.pairing_id().as_bytes();
    let identifier = copy_range(id_bytes, 0, id_bytes.len());
    assert(identifier@ =~= device@.pairing_id_bytes());
    let public_key = device.public_key();
    let mut info: Vec<u8> = Vec::new();
    extend(&mut info, key.as_slice());
    extend(&mut info, identifier.as_slice());
    extend(&mut info, public_key.as_slice());
    assert(info@ =~= accessory_info(shared_secret@, device@));
    let signature = device.sign(info.as_slice());
    let mut inner: Vec<(u8, Vec<u8>)> = Vec::new();
    inner.push((IDENTIFIER, identifier));
    inner.push((PUBLIC_KEY, public_key));
    inner.push((SIGNATURE, signature));
    proof {
        assert(items_view(inner@) =~= seq![
            (IDENTIFIER, device@.pairing_id_bytes()),
            (PUBLIC_KEY, device@.public_key()),
            (
                SIGNATURE,
                ed25519_signature_of(accessory_info(shared_secret@, device@), device@.secret_key),
            ),
        ]);
        lemma_encode_three_short(items_view(inner@));
    }
    let text = encode_items(&inner);
    let sealed = seal_message(&session_key, "PS-Msg06", text.as_slice());
    let mut items: Vec<(u8, Vec<u8>)> = Vec::new();
    let mut state: Vec<u8> = Vec::new();
    state.push(6);
    assert(state@ =~= seq![6u8]);
    items.push((STATE, state));
    items.push((ENCRYPTED_DATA, sealed));
    assert(items_view(items@) =~= seq![(STATE, seq![6u8]), (ENCRYPTED_DATA, sealed@)]);
    encode_items(&items)
}

/// Three items of at most 255 bytes each are written with at most 771
/// bytes.
pub proof fn lemma_encode_three_short(items: Seq<(u8, Seq<u8>)>)
    requires
        items.len() == 3,
        items[0].1.len() <= 255,
        items[1].1.len() <= 255,
        items[2].1.len() <= 255,
    ensures
        encode(items).len() <= 771,
{
    reveal_with_fuel(encode, 4);
    assert(items.drop_first()[0] == items[1]);
    assert(items.drop_first().drop_first()[0] == items[2]);
    assert(items.drop_first().drop_first().drop_first().len() == 0);
}

/// Handles the third request of pair-setup, which brought the sealed
/// introduction of the controller: where it introduces the controller,
/// returns the controller and the answer, in which the accessory introduces
/// itself.
pub fn exchange(device: &Device, shared_secret: &[u8], encrypted: &[u8]) -> (out: Option<
    (Controller, Vec<u8>),
>)
    ensures
        match out {
            Some((controller, response)) => {
                let items = introduction(shared_secret@, encrypted@);
                &&& items is Some
                &&& controller.id@ == vstd::utf8::decode_utf8(value_of(items->0, IDENTIFIER)->0)
                &&& controller.ltpk@ == value_of(items->0, PUBLIC_KEY)->0
                &&& response@ == exchange_response(shared_secret@, device@)
            },
            None => introduction(shared_secret@, encrypted@) is None,
        },
{
    proof {
        reveal_strlit("PS-Msg05");
    }
    let session_key = derive_key(
        "Pair-Setup-Encrypt-Salt",
        "Pair-Setup-Encrypt-Info",
        shared_secret,
    );
    let text = match open_message(&session_key, "PS-Msg05", encrypted) {
        Some(text) => text,
        None => {
            return None;
        },
    };
    let items = match decode_items(text.as_slice()) {
        Some(items) => items,
        None => {
            return None;
        },
    };
    let controller = match check_introduction(shared_secret, &items) {
        Some(controller) => controller,
        None => {
            return None;
        },
    };
    Some((controller, respond_exchange(device, shared_secret)))
}

/// What a step of pair-setup comes to: the state that the session takes,
/// what the server keeps of pair-setup, the answer, and the controller that
/// is to be paired as an admin, if the step has introduced one, by its
/// pairing id and its long-term public key.
pub struct SetupOutcome {
    pub state: SessionStateView,
    pub setup: SetupState,
    pub response: Seq<u8>,
    pub controller: Option<(Seq<char>, Seq<u8>)>,
}

/// What the server keeps of pair-setup once the exchange of the session
/// with the given id is over.
pub open spec fn ended(setup: SetupState, session: u64) -> SetupState {
    if setup.session == Some(session) {
        SetupState { session: None, ..setup }
    } else {
        setup
    }
}

/// The outcome of a step that fails after the exchange has begun: the
/// answer carries the state and the error, and the context of the exchange
/// is destroyed.
pub open spec fn broken(setup: SetupState, session: u64, state: u8, error: u8) -> SetupOutcome {
    SetupOutcome {
        state: SessionStateView::Unpaired,
        setup: ended(setup, session),
        response: state_response(state, Some(error)),
        controller: None,
    }
}

/// What the first request of pair-setup comes to: it must name the method 0
/// and come on a session on which nothing has been agreed yet or which is in
/// pair-setup. If the exchange may begin, the password protocol is started
/// for the name `Pair-Setup` and the setup code, with the given salt and
/// secret, and the controller is answered with the challenge; otherwise the
/// request is answered with the error and nothing changes.
pub open spec fn begun(
    state: SessionStateView,
    setup: SetupState,
    paired: bool,
    session: u64,
    pin: Seq<u8>,
    salt: Seq<u8>,
    secret: Seq<u8>,
    items: Seq<(u8, Seq<u8>)>,
) -> SetupOutcome {
    let refused = SetupOutcome {
        state,
        setup,
        response: state_response(2, Some(UNKNOWN)),
        controller: None,
    };
    if value_of(items, METHOD) != Some(seq![0u8]) || !(state is Unpaired || state is InPairSetup) {
        refused
    } else {
        match may_begin(setup, paired, session) {
            Err(code) => SetupOutcome { response: state_response(2, Some(code)), ..refused },
            Ok(()) => {
                let context = context_of(USERNAME.spec_bytes(), pin, salt, secret);
                SetupOutcome {
                    state: SessionStateView::InPairSetup {
                        step: 2,
                        srp_context: context,
                        shared_secret: Seq::empty(),
                    },
                    setup: SetupState { session: Some(session), ..setup },
                    response: challenge_response(context.public_key, context.salt),
                    controller: None,
                }
            },
        }
    }
}

/// What the second request of pair-setup comes to: it must come at the step
/// 2 and bring a public key and a proof. Where the password protocol finds
/// that the proof holds, the session moves to the step 4 and holds the
/// shared secret, and the controller is answered with the proof of the
/// accessory; where it does not, the attempt has failed, is counted, and is
/// answered with the error of a failed authentication. Otherwise the
/// exchange is broken.
pub open spec fn proof_taken(
    state: SessionStateView,
    setup: SetupState,
    session: u64,
    items: Seq<(u8, Seq<u8>)>,
) -> SetupOutcome {
    match (state, value_of(items, PUBLIC_KEY), value_of(items, PROOF)) {
        (
            SessionStateView::InPairSetup { step: 2, srp_context, shared_secret },
            Some(public_key),
            Some(proof),
        ) => match yield_of(srp_context, USERNAME.spec_bytes(), public_key, proof) {
            Some((server_proof, key)) => SetupOutcome {
                state: SessionStateView::InPairSetup { step: 4, srp_context, shared_secret: key },
                setup,
                response: proof_response(server_proof),
                controller: None,
            },
            None => SetupOutcome {
                state: SessionStateView::Unpaired,
                setup: failed(setup),
                response: state_response(4, Some(AUTHENTICATION)),
                controller: None,
            },
        },
        _ => broken(setup, session, 4, UNKNOWN),
    }
}

/// What the third request of pair-setup comes to: it must come at the step
/// 4 and bring sealed data. Where they introduce the controller, it is to be
/// paired, the accessory introduces itself in the answer, and the exchange
/// is over. Where they do not, the exchange is broken with the error of a
/// failed authentication.
pub open spec fn introduced(
    device: DeviceView,
    state: SessionStateView,
    setup: SetupState,
    session: u64,
    items: Seq<(u8, Seq<u8>)>,
) -> SetupOutcome {
    match (state, value_of(items, ENCRYPTED_DATA)) {
        (
            SessionStateView::InPairSetup { step: 4, srp_context, shared_secret },
            Some(encrypted),
        ) => {
            match introduction(shared_secret, encrypted) {
                Some(introduced) => SetupOutcome {
                    state: SessionStateView::Unpaired,
                    setup: ended(setup, session),
                    response: exchange_response(shared_secret, device),
                    controller: Some(
                        (
                            vstd::utf8::decode_utf8(value_of(introduced, IDENTIFIER)->0),
                            value_of(introduced, PUBLIC_KEY)->0,
                        ),
                    ),
                },
                None => broken(setup, session, 6, AUTHENTICATION),
            }
        },
        _ => broken(setup, session, 6, UNKNOWN),
    }
}

/// What a request of pair-setup comes to, for the session with the given id
/// in the given state: what its first, second or third request comes to,
/// as the state 1, 3 or 5 of the request tells. A request of another state,
/// or one that holds no items, is answered with the error of an unknown
/// request, and nothing changes.
pub open spec fn requested(
    device: DeviceView,
    state: SessionStateView,
    setup: SetupState,
    paired: bool,
    session: u64,
    pin: Seq<u8>,
    salt: Seq<u8>,
    secret: Seq<u8>,
    body: Seq<u8>,
) -> SetupOutcome {
    let refused = SetupOutcome {
        state,
        setup,
        response: state_response(2, Some(UNKNOWN)),
        controller: None,
    };
    match decode(body) {
        None => refused,
        Some(items) => {
            let step = value_of(items, STATE);
            if step == Some(seq![1u8]) {
                begun(state, setup, paired, session, pin, salt, secret, items)
            } else if step == Some(seq![3u8]) {
                proof_taken(state, setup, session, items)
            } else if step == Some(seq![5u8]) {
                introduced(device, state, setup, session, items)
            } else {
                refused
            }
        },
    }
}

/// What a step of pair-setup hands back: the state that the session takes,
/// if it changes, what the server keeps of pair-setup, the answer, and the
/// controller that is to be paired, if the step has introduced one.
#[derive(Debug)]
pub struct SetupStep {
    pub state: Option<SessionState>,
    pub setup: SetupState,
    pub response: Vec<u8>,
    pub controller: Option<Controller>,
}

impl SetupStep {
    /// Whether the step is the given outcome, for a session that was in the
    /// given state.
    pub open spec fn is(self, before: SessionStateView, outcome: SetupOutcome) -> bool {
        &&& match self.state {
            Some(state) => state@ == outcome.state,
            None => before == outcome.state,
        }
        &&& self.setup == outcome.setup
        &&& self.response@ == outcome.response
        &&& match self.controller {
            Some(c) => outcome.controller == Some((c.id@, c.ltpk@)),
            None => outcome.controller is None,
        }
    }
}

/// The step that answers with the state 2 and an error and leaves
/// everything as it is.
fn refuse(setup: SetupState, code: u8) -> (step: SetupStep)
    ensures
        step.state is None,
        step.setup == setup,
        step.response@ == state_response(2, Some(code)),
        step.controller is None,
{
    SetupStep { state: None, setup, response: respond_state(2, Some(code)), controller: None }
}

/// The step that answers with the state and an error and destroys the
/// context of the exchange.
fn fail(setup: SetupState, session: u64, state: u8, error: u8) -> (step: SetupStep)
    ensures
        step.state is Some,
        step.state->0@ == SessionStateView::Unpaired,
        step.setup == ended(setup, session),
        step.response@ == state_response(state, Some(error)),
        step.controller is None,
{
    let ended = match setup.session {
        Some(id) => if id == session {
            SetupState { failed_attempts: setup.failed_attempts, session: None }
        } else {
            setup
        },
        None => setup,
    };
    SetupStep {
        state: Some(SessionState::Unpaired),
        setup: ended,
        response: respond_state(state, Some(error)),
        controller: None,
    }
}

/// Whether the value of an item is the one given byte.
fn is_byte(value: Option<&Vec<u8>>, byte: u8) -> (is: bool)
    ensures
        is == match value {
            Some(v) => v@ == seq![byte],
            None => false,
        },
{
    match value {
        Some(v) => {
            if v.len() == 1 && v[0] == byte {
                assert(v@ =~= seq![byte]);
                true
            } else {
                false
            }
        },
        None => false,
    }
}

/// Handles the first request of pair-setup.
fn begin(
    state: &SessionState,
    setup: SetupState,
    paired: bool,
    session: u64,
    pin: &str,
    salt: &[u8],
    secret: &[u8],
    items: &Vec<(u8, Vec<u8>)>,
) -> (step: SetupStep)
    ensures
        step.is(
            state@,
            begun(
                state@,
                setup,
                paired,
                session,
                pin.spec_bytes(),
                salt@,
                secret@,
                items_view(items@),
            ),
        ),
{
    let open_session = matches!(state, SessionState::Unpaired) || matches!(
        state,
        SessionState::InPairSetup { .. }
    );
    if !is_byte(find(items, METHOD), 0) || !open_session {
        return refuse(setup, UNKNOWN);
    }
    match setup.begin(paired, session) {
        Err(code) => refuse(setup, code),
        Ok(()) => {
            let context = start(USERNAME, pin, salt, secret);
            let response = challenge(context.public_key.as_slice(), context.salt.as_slice());
            SetupStep {
                state: Some(
                    SessionState::InPairSetup {
                        step: 2,
                        srp_context: context,
                        shared_secret: Vec::new(),
                    },
                ),
                setup: SetupState {
                    failed_attempts: setup.failed_attempts,
                    session: Some(session),
                },
                response,
                controller: None,
            }
        },
    }
}

/// Handles the second request of pair-setup.
fn take_proof(state: &SessionState, setup: SetupState, session: u64, items: &Vec<(u8, Vec<u8>)>) -> (step:
    SetupStep)
    ensures
        step.is(state@, proof_taken(state@, setup, session, items_view(items@))),
{
    let context = match state {
        SessionState::InPairSetup { step, srp_context, .. } => {
            if *step != 2 {
                return fail(setup, session, 4, UNKNOWN);
            }
            srp_context
        },
        _ => {
            return fail(setup, session, 4, UNKNOWN);
        },
    };
    match (find(items, PUBLIC_KEY), find(items, PROOF)) {
        (Some(public_key), Some(proof)) => {
            match check(context, USERNAME, public_key.as_slice(), proof.as_slice()) {
                Some((server_proof, key)) => SetupStep {
                    state: Some(
                        SessionState::InPairSetup {
                            step: 4,
                            srp_context: context.clone(),
                            shared_secret: key,
                        },
                    ),
                    setup,
                    response: prove(server_proof.as_slice()),
                    controller: None,
                },
                None => {
                    let mut setup = setup;
                    setup.fail();
                    SetupStep {
                        state: Some(SessionState::Unpaired),
                        setup,
                        response: respond_state(4, Some(AUTHENTICATION)),
                        controller: None,
                    }
                },
            }
        },
        _ => fail(setup, session, 4, UNKNOWN),
    }
}

/// Handles the third request of pair-setup.
fn take_introduction(
    device: &Device,
    state: &SessionState,
    setup: SetupState,
    session: u64,
    items: &Vec<(u8, Vec<u8>)>,
) -> (step: SetupStep)
    ensures
        step.is(state@, introduced(device@, state@, setup, session, items_view(items@))),
{
    let shared_secret = match state {
        SessionState::InPairSetup { step, shared_secret, .. } => {
            if *step != 4 {
                return fail(setup, session, 6, UNKNOWN);
            }
            shared_secret
        },
        _ => {
            return fail(setup, session, 6, UNKNOWN);
        },
    };
    let encrypted = match find(items, ENCRYPTED_DATA) {
        Some(encrypted) => encrypted,
        None => {
            return fail(setup, session, 6, UNKNOWN);
        },
    };
    match exchange(device, shared_secret.as_slice(), encrypted.as_slice()) {
        Some((controller, response)) => {
            let ended = fail(setup, session, 6, UNKNOWN).setup;
            SetupStep {
                state: Some(SessionState::Unpaired),
                setup: ended,
                response,
                controller: Some(controller),
            }
        },
        None => fail(setup, session, 6, AUTHENTICATION),
    }
}

/// Handles a request of pair-setup for the session with the given id in
/// the given state, given what the server keeps of pair-setup, whether a
/// controller is paired, and the setup code. The salt and the secret are to
/// be chosen at random for each request; the exchange that a first request
/// begins takes them.
pub fn handle(
    device: &Device,
    state: &SessionState,
    setup: SetupState,
    paired: bool,
    session: u64,
    pin: &str,
    salt: &[u8],
    secret: &[u8],
    body: &[u8],
) -> (step: SetupStep)
    ensures
        step.is(
            state@,
            requested(
                device@,
                state@,
                setup,
                paired,
                session,
                pin.spec_bytes(),
                salt@,
                secret@,
                body@,
            ),
        ),
{
    let items = match decode_items(body) {
        Some(items) => items,
        None => {
            return refuse(setup, UNKNOWN);
        },
    };
    let step = find(&items, STATE);
    if is_byte(step, 1) {
        begin(state, setup, paired, session, pin, salt, secret, &items)
    } else if is_byte(step, 3) {
        take_proof(state, setup, session, &items)
    } else if is_byte(step, 5) {
        take_introduction(device, state, setup, session, &items)
    } else {
        refuse(setup, UNKNOWN)
    }
}

} // verus!
