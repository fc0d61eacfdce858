//! Sessions: the state of each connection, and the framing of the encrypted
//! channel.

use vstd::prelude::*;
use vstd::bytes::{
    lemma_auto_spec_u64_to_from_le_bytes, spec_u16_from_le_bytes, spec_u16_to_le_bytes,
    spec_u64_to_le_bytes, u16_from_le_bytes, u16_to_le_bytes, u64_to_le_bytes,
};
use vstd::slice::slice_subrange;
use crate::aead::{crypted, lemma_open_sealed, open, opened, seal, tag_of};
use crate::bytes::{copy_range, extend};
use crate::error::Error;
use crate::srp::{SrpContext, SrpContextView};
use crate::transport::http::handler::pair_verify::{VerifyContext, VerifyContextView};
use crate::transport::http::server::EventSubscriptions;

verus! {

/// The largest number of plaintext bytes in one frame.
pub const MAX_FRAME_LEN: usize = 1024;

/// The number of bytes of the authentication tag that ends a frame.
pub const TAG_LEN: usize = 16;

/// The nonce of the frame with the given count: twelve bytes, of which the
/// first four are zero and the other eight the count, the low byte first.
pub open spec fn nonce_of(count: u64) -> Seq<u8> {
    seq![0u8, 0u8, 0u8, 0u8] + spec_u64_to_le_bytes(count)
}

/// Different counts have different nonces: as long as the count of a
/// direction only grows, no nonce is used twice.
pub proof fn lemma_nonce_of_injective(a: u64, b: u64)
    requires
        nonce_of(a) == nonce_of(b),
    ensures
        a == b,
{
    lemma_auto_spec_u64_to_from_le_bytes();
    assert(nonce_of(a).subrange(4, 12) =~= spec_u64_to_le_bytes(a));
    assert(nonce_of(b).subrange(4, 12) =~= spec_u64_to_le_bytes(b));
}

/// The nonce of the frame with the given count.
pub fn nonce(count: u64) -> (bytes: Vec<u8>)
    ensures
        bytes@ == nonce_of(count),
{
    let mut bytes: Vec<u8> = Vec::new();
    bytes.push(0);
    bytes.push(0);
    bytes.push(0);
    bytes.push(0);
    let mut le = u64_to_le_bytes(count);
    bytes.append(&mut le);
    assert(bytes@ =~= nonce_of(count));
    bytes
}

/// The state of a connection.
#[derive(Debug)]
pub enum SessionState {
    /// Nothing has been agreed yet.
    Unpaired,
    /// Pair-setup has reached the given step, with the context of the
    /// password protocol. From the step 4 on the session holds the shared
    /// secret of the exchange.
    InPairSetup { step: u8, srp_context: SrpContext, shared_secret: Vec<u8> },
    /// Pair-verify has reached the given step, with the context of the
    /// exchange.
    InPairVerify { step: u8, ecdh_context: VerifyContext },
    /// Pair-verify is done: the channel is encrypted with a key and a count
    /// of frames for each direction.
    Encrypted {
        controller_id: String,
        c2a_key: [u8; 32],
        a2c_key: [u8; 32],
        c2a_nonce: u64,
        a2c_nonce: u64,
    },
}

/// The mathematical model of a [`SessionState`].
pub enum SessionStateView {
    Unpaired,
    InPairSetup { step: u8, srp_context: SrpContextView, shared_secret: Seq<u8> },
    InPairVerify { step: u8, ecdh_context: VerifyContextView },
    Encrypted {
        controller_id: Seq<char>,
        c2a_key: Seq<u8>,
        a2c_key: Seq<u8>,
        c2a_nonce: u64,
        a2c_nonce: u64,
    },
}

impl View for SessionState {
    type V = SessionStateView;

    open spec fn view(&self) -> SessionStateView {
        match self {
            SessionState::Unpaired => SessionStateView::Unpaired,
            SessionState::InPairSetup { step, srp_context, shared_secret } => {
                SessionStateView::InPairSetup {
                    step: *step,
                    srp_context: srp_context@,
                    shared_secret: shared_secret@,
                }
            },
            SessionState::InPairVerify { step, ecdh_context } => SessionStateView::InPairVerify {
                step: *step,
                ecdh_context: ecdh_context@,
            },
            SessionState::Encrypted { controller_id, c2a_key, a2c_key, c2a_nonce, a2c_nonce } => {
                SessionStateView::Encrypted {
                    controller_id: controller_id@,
                    c2a_key: c2a_key@,
                    a2c_key: a2c_key@,
                    c2a_nonce: *c2a_nonce,
                    a2c_nonce: *a2c_nonce,
                }
            },
        }
    }
}

/// What the cipher is asked to seal or to open for one frame: the nonce, the
/// two bytes of the length as additional data, and the text. For a frame to
/// open, the tag that came with it.
#[derive(Debug)]
pub struct FrameRequest {
    pub nonce: Vec<u8>,
    pub aad: Vec<u8>,
    pub text: Vec<u8>,
    pub tag: Vec<u8>,
}

/// The mathematical model of a [`FrameRequest`].
pub struct FrameRequestView {
    pub nonce: Seq<u8>,
    pub aad: Seq<u8>,
    pub text: Seq<u8>,
    pub tag: Seq<u8>,
}

impl View for FrameRequest {
    type V = FrameRequestView;

    open spec fn view(&self) -> FrameRequestView {
        FrameRequestView { nonce: self.nonce@, aad: self.aad@, text: self.text@, tag: self.tag@ }
    }
}

/// The models of a list of frame requests.
pub open spec fn requests_view(requests: Seq<FrameRequest>) -> Seq<FrameRequestView> {
    Seq::new(requests.len(), |i: int| requests[i]@)
}

/// The number of frames that carry a text of the given length.
pub open spec fn frame_count(len: int) -> int {
    (len + MAX_FRAME_LEN - 1) / (MAX_FRAME_LEN as int)
}

/// The text of the frame `i` of a text: its bytes from `1024 i` on, at most
/// 1024 of them.
pub open spec fn chunk(text: Seq<u8>, i: int) -> Seq<u8> {
    text.subrange(
        i * MAX_FRAME_LEN,
        if (i + 1) * MAX_FRAME_LEN <= text.len() {
            (i + 1) * MAX_FRAME_LEN
        } else {
            text.len() as int
        },
    )
}

/// What is to be sealed to send a text when the count of frames stands at
/// `count`: for each frame in turn its nonce, which is that of the count
/// that it has reached, the length of its text as additional data, and its
/// text.
pub open spec fn seal_requests(text: Seq<u8>, count: u64) -> Seq<FrameRequestView> {
    Seq::new(
        frame_count(text.len() as int) as nat,
        |i: int|
            FrameRequestView {
                nonce: nonce_of((count + i) as u64),
                aad: spec_u16_to_le_bytes(chunk(text, i).len() as u16),
                text: chunk(text, i),
                tag: Seq::empty(),
            },
    )
}

/// The bytes of a frame: the two bytes of the length, the ciphertext and
/// the tag.
pub open spec fn frame_of(aad: Seq<u8>, ciphertext: Seq<u8>, tag: Seq<u8>) -> Seq<u8> {
    aad + ciphertext + tag
}

/// Puts a frame together.
pub fn frame(aad: &Vec<u8>, ciphertext: &Vec<u8>, tag: &Vec<u8>) -> (bytes: Vec<u8>)
    ensures
        bytes@ == frame_of(aad@, ciphertext@, tag@),
{
    let mut bytes: Vec<u8> = Vec::new();
    let mut i: usize = 0;
    while i < aad.len()
        invariant
            0 <= i <= aad@.len(),
            bytes@ == aad@.subrange(0, i as int),
        decreases aad@.len() - i,
    {
        bytes.push(aad[i]);
        assert(bytes@ =~= aad@.subrange(0, i + 1));
        i += 1;
    }
    assert(bytes@ =~= aad@);
    let mut j: usize = 0;
    while j < ciphertext.len()
        invariant
            0 <= j <= ciphertext@.len(),
            bytes@ == aad@ + ciphertext@.subrange(0, j as int),
        decreases ciphertext@.len() - j,
    {
        bytes.push(ciphertext[j]);
        assert(bytes@ =~= aad@ + ciphertext@.subrange(0, j + 1));
        j += 1;
    }
    assert(bytes@ =~= aad@ + ciphertext@);
    let mut k: usize = 0;
    while k < tag.len()
        invariant
            0 <= k <= tag@.len(),
            bytes@ == aad@ + ciphertext@ + tag@.subrange(0, k as int),
        decreases tag@.len() - k,
    {
        bytes.push(tag[k]);
        assert(bytes@ =~= aad@ + ciphertext@ + tag@.subrange(0, k + 1));
        k += 1;
    }
    assert(bytes@ =~= frame_of(aad@, ciphertext@, tag@));
    bytes
}

/// A session: one connection, its state and the characteristics that it is
/// subscribed to.
#[derive(Debug)]
pub struct Session {
    id: u64,
    state: SessionState,
    subscriptions: EventSubscriptions,
}

/// The mathematical model of a [`Session`].
pub struct SessionView {
    pub id: u64,
    pub state: SessionStateView,
    pub subscriptions: Set<(u64, u64)>,
}

impl View for Session {
    type V = SessionView;

    closed spec fn view(&self) -> SessionView {
        SessionView { id: self.id, state: self.state@, subscriptions: self.subscriptions@ }
    }
}

impl SessionView {
    /// The session with another count of frames from the accessory to the
    /// controller.
    pub open spec fn with_a2c_nonce(self, count: u64) -> SessionView {
        match self.state {
            SessionStateView::Encrypted { controller_id, c2a_key, a2c_key, c2a_nonce, a2c_nonce } => {
                SessionView {
                    state: SessionStateView::Encrypted {
                        controller_id,
                        c2a_key,
                        a2c_key,
                        c2a_nonce,
                        a2c_nonce: count,
                    },
                    ..self
                }
            },
            _ => self,
        }
    }

    /// The session with another count of frames from the controller to the
    /// accessory.
    pub open spec fn with_c2a_nonce(self, count: u64) -> SessionView {
        match self.state {
            SessionStateView::Encrypted { controller_id, c2a_key, a2c_key, c2a_nonce, a2c_nonce } => {
                SessionView {
                    state: SessionStateView::Encrypted {
                        controller_id,
                        c2a_key,
                        a2c_key,
                        c2a_nonce: count,
                        a2c_nonce,
                    },
                    ..self
                }
            },
            _ => self,
        }
    }

    /// Whether the session belongs to the controller with the given id.
    pub open spec fn bound_to(self, controller_id: Seq<char>) -> bool {
        self.state is Encrypted && self.state->Encrypted_controller_id == controller_id
    }
}

/// What is to be opened to receive the frame at the start of the buffer
/// when the count of frames stands at `count`, and the number of bytes that
/// the frame takes. The frame starts with the length of its text, the low
/// byte first; its text and sixteen bytes of tag follow.
pub open spec fn open_request(buffer: Seq<u8>, count: u64) -> (FrameRequestView, int) {
    let len = spec_u16_from_le_bytes(buffer.subrange(0, 2)) as int;
    (
        FrameRequestView {
            nonce: nonce_of(count),
            aad: buffer.subrange(0, 2),
            text: buffer.subrange(2, 2 + len),
            tag: buffer.subrange(2 + len, 2 + len + TAG_LEN),
        },
        2 + len + TAG_LEN,
    )
}

/// The length of the text that the frame at the start of the buffer
/// announces.
pub open spec fn announced_len(buffer: Seq<u8>) -> int {
    spec_u16_from_le_bytes(buffer.subrange(0, 2)) as int
}

impl Session {
    /// A session with the given id on which nothing has been agreed yet.
    pub fn new(id: u64) -> (session: Session)
        ensures
            session@ == (SessionView {
                id,
                state: SessionStateView::Unpaired,
                subscriptions: Set::empty(),
            }),
    {
        Session { id, state: SessionState::Unpaired, subscriptions: EventSubscriptions::new() }
    }

    /// The id of the session.
    pub fn get_id(&self) -> (id: u64)
        ensures
            id == self@.id,
    {
        self.id
    }

    /// The state of the session.
    pub fn get_state(&self) -> (state: &SessionState)
        ensures
            state@ == self@.state,
    {
        &self.state
    }

    /// Puts the session into another state.
    pub fn set_state(&mut self, state: SessionState)
        ensures
            final(self)@ == (SessionView { state: state@, ..old(self)@ }),
    {
        self.state = state;
    }

    /// Installs the keys that pair-verify has agreed on: the session is
    /// encrypted from now on, and both counts of frames start at zero.
    pub fn install_keys(&mut self, controller_id: String, c2a_key: [u8; 32], a2c_key: [u8; 32])
        ensures
            final(self)@ == (SessionView {
                state: SessionStateView::Encrypted {
                    controller_id: controller_id@,
                    c2a_key: c2a_key@,
                    a2c_key: a2c_key@,
                    c2a_nonce: 0,
                    a2c_nonce: 0,
                },
                ..old(self)@
            }),
    {
        self.state = SessionState::Encrypted {
            controller_id,
            c2a_key,
            a2c_key,
            c2a_nonce: 0,
            a2c_nonce: 0,
        };
    }

    /// Whether the session is encrypted.
    pub fn is_encrypted(&self) -> (encrypted: bool)
        ensures
            encrypted == self@.state is Encrypted,
    {
        matches!(self.state, SessionState::Encrypted { .. })
    }

    /// Whether the session belongs to the controller with the given id.
    pub fn is_bound_to(&self, controller_id: &str) -> (bound: bool)
        ensures
            bound == self@.bound_to(controller_id@),
    {
        match &self.state {
            SessionState::Encrypted { controller_id: id, .. } => crate::text::same_text(
                id.as_str(),
                controller_id,
            ),
            _ => false,
        }
    }

    /// The subscriptions of the session.
    pub fn get_subscriptions(&self) -> (subscriptions: &EventSubscriptions)
        ensures
            subscriptions@ == self@.subscriptions,
    {
        &self.subscriptions
    }

    /// The subscriptions of the session, for change.
    pub fn get_mut_subscriptions(&mut self) -> (subscriptions: &mut EventSubscriptions)
        ensures
            subscriptions@ == old(self)@.subscriptions,
            final(self)@ == (SessionView { subscriptions: final(subscriptions)@, ..old(self)@ }),
    {
        &mut self.subscriptions
    }

    /// Prepares a text for sending: the frames that are to be sealed, each
    /// under the next count of its direction. The count advances by the
    /// number of frames. A session that refuses the text does not change.
    pub fn seal(&mut self, text: &[u8]) -> (result: Result<Vec<FrameRequest>, Error>)
        ensures
            (final(self)@, planned_view(result)) == planned(old(self)@, text@),
    {
        let count: u64 = match &self.state {
            SessionState::Encrypted { a2c_nonce, .. } => *a2c_nonce,
            _ => {
                return Err(Error::Protocol);
            },
        };
        let len: usize = text.len();
        let frames: usize = len / MAX_FRAME_LEN + if len % MAX_FRAME_LEN != 0 {
            1
        } else {
            0
        };
        assert(frames == frame_count(len as int));
        if frames as u128 + count as u128 > u64::MAX as u128 {
            return Err(Error::Crypto);
        }
        let mut requests: Vec<FrameRequest> = Vec::new();
        let mut i: usize = 0;
        while i < frames
            invariant
                0 <= i <= frames,
                len == text@.len(),
                frames == frame_count(len as int),
                frames + count <= u64::MAX,
                requests@.len() == i,
                forall|j: int|
                    0 <= j < i ==> (#[trigger] requests@[j])@ == seal_requests(text@, count)[j],
            decreases frames - i,
        {
            let from: usize = i * MAX_FRAME_LEN;
            let to: usize = if len - from > MAX_FRAME_LEN {
                from + MAX_FRAME_LEN
            } else {
                len
            };
            let piece = copy_range(text, from, to);
            assert(piece@ =~= chunk(text@, i as int));
            let request = FrameRequest {
                nonce: nonce(count + i as u64),
                aad: u16_to_le_bytes((to - from) as u16),
                text: piece,
                tag: Vec::new(),
            };
            requests.push(request);
            i += 1;
        }
        assert(requests_view(requests@) =~= seal_requests(text@, count));
        match &mut self.state {
            SessionState::Encrypted { a2c_nonce, .. } => {
                *a2c_nonce = count + frames as u64;
            },
            _ => {},
        }
        Ok(requests)
    }

    /// Takes the frame at the start of the buffer, if it is there in full:
    /// what is to be opened, under the next count of its direction, and the
    /// number of bytes that the frame takes. The count advances by one.
    /// While the frame is not there in full the answer is `None`. A session
    /// that refuses the frame does not change.
    pub fn open(&mut self, buffer: &[u8]) -> (result: Result<Option<(FrameRequest, usize)>, Error>)
        ensures
            (final(self)@, taken_view(result)) == taken(old(self)@, buffer@),
    {
        let count: u64 = match &self.state {
            SessionState::Encrypted { c2a_nonce, .. } => *c2a_nonce,
            _ => {
                return Err(Error::Protocol);
            },
        };
        if buffer.len() < 2 {
            return Ok(None);
        }
        let len: usize = u16_from_le_bytes(slice_subrange(buffer, 0, 2)) as usize;
        if len < 1 || len > MAX_FRAME_LEN {
            return Err(Error::Protocol);
        }
        if buffer.len() < 2 + len + TAG_LEN {
            return Ok(None);
        }
        if count == u64::MAX {
            return Err(Error::Crypto);
        }
        let request = FrameRequest {
            nonce: nonce(count),
            aad: copy_range(buffer, 0, 2),
            text: copy_range(buffer, 2, 2 + len),
            tag: copy_range(buffer, 2 + len, 2 + len + TAG_LEN),
        };
        match &mut self.state {
            SessionState::Encrypted { c2a_nonce, .. } => {
                *c2a_nonce = count + 1;
            },
            _ => {},
        }
        Ok(Some((request, 2 + len + TAG_LEN)))
    }
}

/// No frame of a text is sealed under a nonce that an earlier frame of the
/// direction was sealed under, nor do two frames of the text share one: the
/// counts only grow, and different counts have different nonces.
pub proof fn lemma_seal_nonces_fresh(text: Seq<u8>, count: u64, i: int, j: int, earlier: u64)
    requires
        count + frame_count(text.len() as int) <= u64::MAX,
        0 <= i < frame_count(text.len() as int),
        0 <= j < frame_count(text.len() as int),
        earlier < count,
    ensures
        seal_requests(text, count)[i].nonce != nonce_of(earlier),
        i != j ==> seal_requests(text, count)[i].nonce != seal_requests(text, count)[j].nonce,
{
    if seal_requests(text, count)[i].nonce == nonce_of(earlier) {
        lemma_nonce_of_injective((count + i) as u64, earlier);
    }
    if i != j && seal_requests(text, count)[i].nonce == seal_requests(text, count)[j].nonce {
        lemma_nonce_of_injective((count + i) as u64, (count + j) as u64);
    }
}

/// The models of a list of sessions.
pub open spec fn sessions_view(sessions: Seq<Session>) -> Seq<SessionView> {
    Seq::new(sessions.len(), |i: int| sessions[i]@)
}

/// Whether a session with the given id is open.
pub open spec fn is_open(sessions: Seq<SessionView>, id: u64) -> bool {
    exists|i: int| 0 <= i < sessions.len() && (#[trigger] sessions[i]).id == id
}

/// Whether the session in the given place is to hear of a change of the
/// characteristic: it is encrypted and subscribed to it, and is not the
/// session that made the change.
pub open spec fn hears(session: SessionView, aid: u64, iid: u64, origin: Option<u64>) -> bool {
    &&& session.state is Encrypted
    &&& session.subscriptions.contains((aid, iid))
    &&& origin != Some(session.id)
}

/// The ids of the sessions among the first `k` that are to hear of a change
/// of the characteristic, in the order of the sessions.
pub open spec fn listeners(
    sessions: Seq<SessionView>,
    k: int,
    aid: u64,
    iid: u64,
    origin: Option<u64>,
) -> Seq<u64>
    decreases k,
{
    if k <= 0 {
        Seq::empty()
    } else if hears(sessions[k - 1], aid, iid, origin) {
        listeners(sessions, k - 1, aid, iid, origin).push(sessions[k - 1].id)
    } else {
        listeners(sessions, k - 1, aid, iid, origin)
    }
}

/// Those of the first `k` sessions that do not belong to the controller, in
/// their order: the sessions that remain when those of the controller are
/// closed.
pub open spec fn without_controller(
    sessions: Seq<SessionView>,
    k: int,
    controller_id: Seq<char>,
) -> Seq<SessionView>
    decreases k,
{
    if k <= 0 {
        Seq::empty()
    } else if sessions[k - 1].bound_to(controller_id) {
        without_controller(sessions, k - 1, controller_id)
    } else {
        without_controller(sessions, k - 1, controller_id).push(sessions[k - 1])
    }
}

/// The ids of those of the first `k` sessions that belong to the
/// controller, in their order.
pub open spec fn sessions_of(sessions: Seq<SessionView>, k: int, controller_id: Seq<char>) -> Seq<
    u64,
>
    decreases k,
{
    if k <= 0 {
        Seq::empty()
    } else if sessions[k - 1].bound_to(controller_id) {
        sessions_of(sessions, k - 1, controller_id).push(sessions[k - 1].id)
    } else {
        sessions_of(sessions, k - 1, controller_id)
    }
}

/// Those of the first `k` sessions that do not have the given id, in their
/// order: the sessions that remain when the one with the id is closed.
pub open spec fn without_session(sessions: Seq<SessionView>, k: int, id: u64) -> Seq<SessionView>
    decreases k,
{
    if k <= 0 {
        Seq::empty()
    } else if sessions[k - 1].id == id {
        without_session(sessions, k - 1, id)
    } else {
        without_session(sessions, k - 1, id).push(sessions[k - 1])
    }
}

/// Whether the ids of the sessions grow along the list.
pub open spec fn ids_grow(sessions: Seq<SessionView>) -> bool {
    forall|i: int, j: int|
        0 <= i < j < sessions.len() ==> (#[trigger] sessions[i]).id < (#[trigger] sessions[j]).id
}

/// The open sessions of the server.
#[derive(Debug)]
pub struct Sessions {
    sessions: Vec<Session>,
    next_id: u64,
}

impl View for Sessions {
    type V = Seq<SessionView>;

    closed spec fn view(&self) -> Seq<SessionView> {
        sessions_view(self.sessions@)
    }
}

impl Sessions {
    /// The id that the next session to be opened gets. It is above the ids
    /// of all sessions that were opened before, open or closed, and only
    /// opening a session changes it.
    pub closed spec fn fresh_id(&self) -> u64 {
        self.next_id
    }

    /// No session is open, and the first one to be opened gets the id 0.
    pub fn new() -> (sessions: Sessions)
        ensures
            sessions@ == Seq::<SessionView>::empty(),
            sessions.fresh_id() == 0,
    {
        let sessions = Sessions { sessions: Vec::new(), next_id: 0 };
        assert(sessions@ =~= Seq::<SessionView>::empty());
        sessions
    }

    /// The number of open sessions. Their ids grow along the list at all
    /// times, and stay below the id that the next session gets: no two
    /// sessions share one.
    pub fn len(&self) -> (n: usize)
        ensures
            n == self@.len(),
            ids_grow(self@),
            forall|i: int| 0 <= i < self@.len() ==> (#[trigger] self@[i]).id < self.fresh_id(),
    {
        proof {
            use_type_invariant(self);
            assert forall|i: int| 0 <= i < self@.len() implies (#[trigger] self@[i]).id
                < self.fresh_id() by {
                assert(self.sessions@[i]@.id < self.next_id);
            }
            assert forall|i: int, j: int| 0 <= i < j < self@.len() implies (#[trigger] self@[i]).id
                < (#[trigger] self@[j]).id by {
                assert(self.sessions@[i]@.id < self.sessions@[j]@.id);
            }
        }
        self.sessions.len()
    }

    /// Opens a session for a connection that was accepted: it is the last of
    /// the open sessions, and nothing has been agreed on it yet. Returns its
    /// id, the fresh one, which no session has had before, and the next
    /// fresh id is the one after it. Once the fresh id is the greatest
    /// number the ids are used up: the result is `None`, and nothing
    /// changes.
    pub fn open(&mut self) -> (id: Option<u64>)
        ensures
            id == (if old(self).fresh_id() < u64::MAX {
                Some(old(self).fresh_id())
            } else {
                None
            }),
            match id {
                Some(id) => {
                    &&& !is_open(old(self)@, id)
                    &&& final(self)@ == old(self)@.push(
                        SessionView {
                            id,
                            state: SessionStateView::Unpaired,
                            subscriptions: Set::empty(),
                        },
                    )
                    &&& final(self).fresh_id() == id + 1
                },
                None => final(self)@ == old(self)@ && final(self).fresh_id() == old(self).fresh_id(),
            },
    {
        proof {
            use_type_invariant(&*self);
        }
        if self.next_id == u64::MAX {
            return None;
        }
        let id = self.next_id;
        let ghost before = self@;
        let mut sessions: Vec<Session> = Vec::new();
        std::mem::swap(&mut sessions, &mut self.sessions);
        sessions.push(Session::new(id));
        proof {
            assert(sessions_view(sessions@) =~= before.push(
                SessionView { id, state: SessionStateView::Unpaired, subscriptions: Set::empty() },
            ));
        }
        self.next_id = id + 1;
        self.sessions = sessions;
        Some(id)
    }

    #[verifier::type_invariant]
    spec fn inv(self) -> bool {
        &&& forall|i: int|
            0 <= i < self.sessions@.len() ==> (#[trigger] self.sessions@[i])@.id < self.next_id
        &&& forall|i: int, j: int|
            0 <= i < j < self.sessions@.len() ==> (#[trigger] self.sessions@[i])@.id < (
            #[trigger] self.sessions@[j])@.id
    }

    /// The place of the session with the given id.
    pub fn find(&self, id: u64) -> (place: Option<usize>)
        ensures
            match place {
                Some(i) => i < self@.len() && self@[i as int].id == id,
                None => !is_open(self@, id),
            },
    {
        let mut i: usize = 0;
        while i < self.sessions.len()
            invariant
                0 <= i <= self.sessions@.len(),
                forall|j: int| 0 <= j < i ==> (#[trigger] self.sessions@[j])@.id != id,
            decreases self.sessions@.len() - i,
        {
            if self.sessions[i].get_id() == id {
                return Some(i);
            }
            i += 1;
        }
        assert forall|j: int| 0 <= j < self@.len() implies (#[trigger] self@[j]).id != id by {
            assert(self@[j] == self.sessions@[j]@);
        }
        None
    }

    /// The session in the given place.
    pub fn get(&self, place: usize) -> (session: &Session)
        requires
            place < self@.len(),
        ensures
            session@ == self@[place as int],
    {
        &self.sessions[place]
    }

    /// The ids of the sessions that are to hear of a change of the
    /// characteristic with the given ids: those that are encrypted and
    /// subscribed to it, but for the session that made the change, in the
    /// order in which the sessions were opened.
    pub fn subscribers(&self, aid: u64, iid: u64, origin: Option<u64>) -> (ids: Vec<u64>)
        ensures
            ids@ == listeners(self@, self@.len() as int, aid, iid, origin),
    {
        let ghost model = self@;
        let mut ids: Vec<u64> = Vec::new();
        let mut i: usize = 0;
        while i < self.sessions.len()
            invariant
                0 <= i <= self.sessions@.len(),
                model == sessions_view(self.sessions@),
                ids@ == listeners(model, i as int, aid, iid, origin),
            decreases self.sessions@.len() - i,
        {
            assert(model[i as int] == self.sessions@[i as int]@);
            let session = &self.sessions[i];
            let is_origin = match origin {
                Some(o) => o == session.get_id(),
                None => false,
            };
            if session.is_encrypted() && session.get_subscriptions().contains(aid, iid)
                && !is_origin {
                ids.push(session.get_id());
            }
            i += 1;
        }
        ids
    }
}

impl Sessions {
    /// Puts the session in the given place into another state.
    pub fn set_state(&mut self, place: usize, state: SessionState)
        requires
            place < old(self)@.len(),
        ensures
            final(self).fresh_id() == old(self).fresh_id(),
            final(self)@ == old(self)@.update(
                place as int,
                SessionView { state: state@, ..old(self)@[place as int] },
            ),
    {
        proof {
            use_type_invariant(&*self);
        }
        let ghost before = self@;
        let mut sessions: Vec<Session> = Vec::new();
        std::mem::swap(&mut sessions, &mut self.sessions);
        let session = &mut sessions[place];
        session.set_state(state);
        proof {
            assert(sessions_view(sessions@) =~= before.update(
                place as int,
                SessionView { state: state@, ..before[place as int] },
            ));
        }
        self.sessions = sessions;
    }

    /// Installs the keys that pair-verify has agreed on, on the session in
    /// the given place: it is encrypted from now on, and both counts of
    /// frames start at zero.
    pub fn install_keys(
        &mut self,
        place: usize,
        controller_id: String,
        c2a_key: [u8; 32],
        a2c_key: [u8; 32],
    )
        requires
            place < old(self)@.len(),
        ensures
            final(self).fresh_id() == old(self).fresh_id(),
            final(self)@ == old(self)@.update(
                place as int,
                SessionView {
                    state: SessionStateView::Encrypted {
                        controller_id: controller_id@,
                        c2a_key: c2a_key@,
                        a2c_key: a2c_key@,
                        c2a_nonce: 0,
                        a2c_nonce: 0,
                    },
                    ..old(self)@[place as int]
                },
            ),
    {
        self.set_state(
            place,
            SessionState::Encrypted { controller_id, c2a_key, a2c_key, c2a_nonce: 0, a2c_nonce: 0 },
        );
    }

    /// Takes the subscriptions of the session in the given place, to work
    /// on them; the session is left without subscriptions until they are
    /// put back.
    pub fn take_subscriptions(&mut self, place: usize) -> (subscriptions: EventSubscriptions)
        requires
            place < old(self)@.len(),
        ensures
            final(self).fresh_id() == old(self).fresh_id(),
            subscriptions@ == old(self)@[place as int].subscriptions,
            final(self)@ == old(self)@.update(
                place as int,
                SessionView { subscriptions: Set::empty(), ..old(self)@[place as int] },
            ),
    {
        self.put_subscriptions(place, EventSubscriptions::new())
    }

    /// Gives the session in the given place its subscriptions, and returns
    /// those that it had.
    pub fn put_subscriptions(&mut self, place: usize, subscriptions: EventSubscriptions) -> (replaced:
        EventSubscriptions)
        requires
            place < old(self)@.len(),
        ensures
            final(self).fresh_id() == old(self).fresh_id(),
            replaced@ == old(self)@[place as int].subscriptions,
            final(self)@ == old(self)@.update(
                place as int,
                SessionView { subscriptions: subscriptions@, ..old(self)@[place as int] },
            ),
    {
        proof {
            use_type_invariant(&*self);
        }
        let ghost before = self@;
        let mut subscriptions = subscriptions;
        let mut sessions: Vec<Session> = Vec::new();
        std::mem::swap(&mut sessions, &mut self.sessions);
        let session = &mut sessions[place];
        std::mem::swap(&mut subscriptions, session.get_mut_subscriptions());
        proof {
            assert(sessions_view(sessions@) =~= before.update(
                place as int,
                SessionView { subscriptions: sessions@[place as int]@.subscriptions, ..before[place as int] },
            ));
        }
        self.sessions = sessions;
        subscriptions
    }

    /// Prepares a text for sending on the session in the given place, as
    /// [`Session::seal`] does.
    pub fn seal(&mut self, place: usize, text: &[u8]) -> (result: Result<Vec<FrameRequest>, Error>)
        requires
            place < old(self)@.len(),
        ensures
            final(self).fresh_id() == old(self).fresh_id(),
            final(self)@ == old(self)@.update(
                place as int,
                planned(old(self)@[place as int], text@).0,
            ),
            planned_view(result) == planned(old(self)@[place as int], text@).1,
    {
        proof {
            use_type_invariant(&*self);
        }
        let ghost before = self@;
        let mut sessions: Vec<Session> = Vec::new();
        std::mem::swap(&mut sessions, &mut self.sessions);
        let session = &mut sessions[place];
        let result = session.seal(text);
        proof {
            assert(sessions_view(sessions@) =~= before.update(
                place as int,
                sessions@[place as int]@,
            ));
            assert(before.update(place as int, before[place as int]) =~= before);
        }
        self.sessions = sessions;
        result
    }

    /// Takes the frame at the start of the buffer for the session in the
    /// given place, as [`Session::open`] does.
    pub fn open_frame(&mut self, place: usize, buffer: &[u8]) -> (result: Result<
        Option<(FrameRequest, usize)>,
        Error,
    >)
        requires
            place < old(self)@.len(),
        ensures
            final(self).fresh_id() == old(self).fresh_id(),
            final(self)@ == old(self)@.update(
                place as int,
                taken(old(self)@[place as int], buffer@).0,
            ),
            taken_view(result) == taken(old(self)@[place as int], buffer@).1,
    {
        proof {
            use_type_invariant(&*self);
        }
        let ghost before = self@;
        let mut sessions: Vec<Session> = Vec::new();
        std::mem::swap(&mut sessions, &mut self.sessions);
        let session = &mut sessions[place];
        let result = session.open(buffer);
        proof {
            assert(sessions_view(sessions@) =~= before.update(
                place as int,
                sessions@[place as int]@,
            ));
            assert(before.update(place as int, before[place as int]) =~= before);
        }
        self.sessions = sessions;
        result
    }
}

/// Every session that remains after those of a controller are closed was
/// open before and does not belong to the controller.
pub proof fn lemma_without_controller(
    sessions: Seq<SessionView>,
    k: int,
    controller_id: Seq<char>,
    i: int,
)
    requires
        0 <= k <= sessions.len(),
        0 <= i < without_controller(sessions, k, controller_id).len(),
    ensures
        !without_controller(sessions, k, controller_id)[i].bound_to(controller_id),
        exists|j: int|
            0 <= j < k && #[trigger] sessions[j] == without_controller(
                sessions,
                k,
                controller_id,
            )[i],
    decreases k,
{
    let kept = without_controller(sessions, k, controller_id);
    if k > 0 {
        let before = without_controller(sessions, k - 1, controller_id);
        if i < before.len() {
            lemma_without_controller(sessions, k - 1, controller_id, i);
            let j = choose|j: int| 0 <= j < k - 1 && #[trigger] sessions[j] == before[i];
            assert(sessions[j] == kept[i]);
        } else {
            assert(sessions[k - 1] == kept[i]);
        }
    }
}

/// Every session that is to hear of a change is open and hears of it.
pub proof fn lemma_listeners(
    sessions: Seq<SessionView>,
    k: int,
    aid: u64,
    iid: u64,
    origin: Option<u64>,
    i: int,
)
    requires
        0 <= k <= sessions.len(),
        0 <= i < listeners(sessions, k, aid, iid, origin).len(),
    ensures
        exists|j: int|
            0 <= j < k && hears(#[trigger] sessions[j], aid, iid, origin) && sessions[j].id
                == listeners(sessions, k, aid, iid, origin)[i],
    decreases k,
{
    let heard = listeners(sessions, k, aid, iid, origin);
    if k > 0 {
        let before = listeners(sessions, k - 1, aid, iid, origin);
        if i < before.len() {
            lemma_listeners(sessions, k - 1, aid, iid, origin, i);
            let j = choose|j: int|
                0 <= j < k - 1 && hears(#[trigger] sessions[j], aid, iid, origin) && sessions[j].id
                    == before[i];
            assert(hears(sessions[j], aid, iid, origin) && sessions[j].id == heard[i]);
        } else {
            assert(hears(sessions[k - 1], aid, iid, origin) && sessions[k - 1].id == heard[i]);
        }
    }
}

/// Once the sessions of a controller are closed, none of the sessions that
/// are left belongs to it, and no session that hears of a change does: the
/// event bus holds no subscription of the controller any more.
pub proof fn lemma_closed_controller_is_gone(
    sessions: Seq<SessionView>,
    controller_id: Seq<char>,
    aid: u64,
    iid: u64,
    origin: Option<u64>,
)
    ensures
        ({
            let left = without_controller(sessions, sessions.len() as int, controller_id);
            let heard = listeners(left, left.len() as int, aid, iid, origin);
            &&& forall|i: int| 0 <= i < left.len() ==> !(#[trigger] left[i]).bound_to(controller_id)
            &&& forall|i: int|
                0 <= i < heard.len() ==> exists|j: int|
                    0 <= j < left.len() && !(#[trigger] left[j]).bound_to(controller_id)
                        && left[j].id == #[trigger] heard[i]
        }),
{
    let left = without_controller(sessions, sessions.len() as int, controller_id);
    let heard = listeners(left, left.len() as int, aid, iid, origin);
    assert forall|i: int| 0 <= i < left.len() implies !(#[trigger] left[i]).bound_to(
        controller_id,
    ) by {
        lemma_without_controller(sessions, sessions.len() as int, controller_id, i);
    }
    assert forall|i: int| 0 <= i < heard.len() implies exists|j: int|
        0 <= j < left.len() && !(#[trigger] left[j]).bound_to(controller_id) && left[j].id
            == #[trigger] heard[i] by {
        lemma_listeners(left, left.len() as int, aid, iid, origin, i);
        let j = choose|j: int|
            0 <= j < left.len() && hears(#[trigger] left[j], aid, iid, origin) && left[j].id
                == heard[i];
        assert(!left[j].bound_to(controller_id) && left[j].id == heard[i]);
    }
}

impl Sessions {
    /// Closes the sessions of a controller: they are no longer open, and
    /// with them their subscriptions are gone. Returns their ids, in the
    /// order in which they were opened.
    pub fn close_controller(&mut self, controller_id: &str) -> (closed: Vec<u64>)
        ensures
            final(self).fresh_id() == old(self).fresh_id(),
            final(self)@ == without_controller(
                old(self)@,
                old(self)@.len() as int,
                controller_id@,
            ),
            closed@ == sessions_of(old(self)@, old(self)@.len() as int, controller_id@),
    {
        proof {
            use_type_invariant(&*self);
        }
        let ghost before = self@;
        let ghost limit = self.next_id;
        let mut sessions: Vec<Session> = Vec::new();
        std::mem::swap(&mut sessions, &mut self.sessions);
        let mut kept: Vec<Session> = Vec::new();
        let mut closed: Vec<u64> = Vec::new();
        for session in it: sessions
            invariant
                before == sessions_view(it.seq()),
                ids_grow(before),
                forall|p: int| 0 <= p < before.len() ==> (#[trigger] before[p]).id < limit,
                sessions_view(kept@) == without_controller(
                    before,
                    it.index() as int,
                    controller_id@,
                ),
                closed@ == sessions_of(before, it.index() as int, controller_id@),
                forall|j: int|
                    0 <= j < kept@.len() ==> exists|p: int|
                        0 <= p < it.index() && (#[trigger] before[p]).id == (#[trigger] kept@[j])@.id,
                ids_grow(sessions_view(kept@)),
        {
            let ghost index = it.index() as int;
            let ghost view = session@;
            assert(before[index] == view);
            if session.is_bound_to(controller_id) {
                closed.push(session.get_id());
            } else {
                let ghost kept_before = kept@;
                kept.push(session);
                proof {
                    assert(sessions_view(kept@) =~= sessions_view(kept_before).push(view));
                    assert forall|j: int| 0 <= j < kept@.len() implies exists|p: int|
                        0 <= p < index + 1 && (#[trigger] before[p]).id == (#[trigger] kept@[j])@.id by {
                        if j < kept_before.len() {
                            let p = choose|p: int|
                                0 <= p < index && (#[trigger] before[p]).id == kept_before[j]@.id;
                            assert(before[p].id == kept@[j]@.id);
                        } else {
                            assert(before[index].id == kept@[j]@.id);
                        }
                    }
                    assert forall|a: int, b: int|
                        0 <= a < b < kept@.len() implies (#[trigger] sessions_view(kept@)[a]).id < (
                    #[trigger] sessions_view(kept@)[b]).id by {
                        if b < kept_before.len() {
                            assert(sessions_view(kept_before)[a].id < sessions_view(
                                kept_before,
                            )[b].id);
                        } else {
                            let p = choose|p: int|
                                0 <= p < index && (#[trigger] before[p]).id == kept_before[a]@.id;
                            assert(before[p].id < before[index].id);
                        }
                    }
                }
            }
        }
        proof {
            assert forall|j: int| 0 <= j < kept@.len() implies (#[trigger] kept@[j])@.id
                < limit by {
                let p = choose|p: int|
                    0 <= p < before.len() && (#[trigger] before[p]).id == kept@[j]@.id;
                assert(before[p].id < limit);
            }
            assert forall|a: int, b: int| 0 <= a < b < kept@.len() implies (#[trigger] kept@[a])@.id
                < (#[trigger] kept@[b])@.id by {
                assert(sessions_view(kept@)[a].id < sessions_view(kept@)[b].id);
            }
        }
        self.sessions = kept;
        closed
    }
}

impl Sessions {
    /// Closes the session with the given id: it is no longer open, and with
    /// it its subscriptions are gone. Says whether it was open.
    pub fn close(&mut self, id: u64) -> (closed: bool)
        ensures
            final(self).fresh_id() == old(self).fresh_id(),
            closed == is_open(old(self)@, id),
            final(self)@ == without_session(old(self)@, old(self)@.len() as int, id),
            !is_open(final(self)@, id),
    {
        proof {
            use_type_invariant(&*self);
        }
        let ghost before = self@;
        let ghost limit = self.next_id;
        let mut sessions: Vec<Session> = Vec::new();
        std::mem::swap(&mut sessions, &mut self.sessions);
        let mut kept: Vec<Session> = Vec::new();
        let mut closed = false;
        for session in it: sessions
            invariant
                before == sessions_view(it.seq()),
                ids_grow(before),
                forall|p: int| 0 <= p < before.len() ==> (#[trigger] before[p]).id < limit,
                sessions_view(kept@) == without_session(before, it.index() as int, id),
                closed == exists|p: int| 0 <= p < it.index() && (#[trigger] before[p]).id == id,
                forall|j: int|
                    0 <= j < kept@.len() ==> (#[trigger] kept@[j])@.id != id && exists|p: int|
                        0 <= p < it.index() && (#[trigger] before[p]).id == kept@[j]@.id,
                ids_grow(sessions_view(kept@)),
        {
            let ghost index = it.index() as int;
            let ghost view = session@;
            let ghost was_closed = closed;
            assert(before[index] == view);
            if session.get_id() == id {
                closed = true;
                assert(before[index].id == id);
            } else {
                let ghost kept_before = kept@;
                kept.push(session);
                proof {
                    assert(sessions_view(kept@) =~= sessions_view(kept_before).push(view));
                    assert forall|j: int| 0 <= j < kept@.len() implies (#[trigger] kept@[j])@.id
                        != id && exists|p: int|
                        0 <= p < index + 1 && (#[trigger] before[p]).id == kept@[j]@.id by {
                        if j < kept_before.len() {
                            assert(kept_before[j]@.id != id);
                            let p = choose|p: int|
                                0 <= p < index && (#[trigger] before[p]).id == kept_before[j]@.id;
                            assert(before[p].id == kept@[j]@.id);
                        } else {
                            assert(before[index].id == kept@[j]@.id);
                        }
                    }
                    assert forall|a: int, b: int|
                        0 <= a < b < kept@.len() implies (#[trigger] sessions_view(kept@)[a]).id < (
                    #[trigger] sessions_view(kept@)[b]).id by {
                        if b < kept_before.len() {
                            assert(sessions_view(kept_before)[a].id < sessions_view(
                                kept_before,
                            )[b].id);
                        } else {
                            let p = choose|p: int|
                                0 <= p < index && (#[trigger] before[p]).id == kept_before[a]@.id;
                            assert(before[p].id < before[index].id);
                        }
                    }
                }
            }
            proof {
                if was_closed {
                    let p = choose|p: int| 0 <= p < index && (#[trigger] before[p]).id == id;
                    assert(before[p].id == id);
                }
                if exists|p: int| 0 <= p < index + 1 && (#[trigger] before[p]).id == id {
                    let p = choose|p: int| 0 <= p < index + 1 && (#[trigger] before[p]).id == id;
                    if p < index {
                        assert(before[p].id == id);
                    }
                }
            }
        }
        proof {
            assert forall|j: int| 0 <= j < kept@.len() implies (#[trigger] kept@[j])@.id
                < limit by {
                let p = choose|p: int|
                    0 <= p < before.len() && (#[trigger] before[p]).id == kept@[j]@.id;
                assert(before[p].id < limit);
            }
            assert forall|a: int, b: int| 0 <= a < b < kept@.len() implies (#[trigger] kept@[a])@.id
                < (#[trigger] kept@[b])@.id by {
                assert(sessions_view(kept@)[a].id < sessions_view(kept@)[b].id);
            }
            assert forall|j: int| 0 <= j < kept@.len() implies (#[trigger] sessions_view(
                kept@,
            )[j]).id != id by {
                assert(kept@[j]@.id != id);
            }
        }
        self.sessions = kept;
        closed
    }
}

/// Every session of a controller that was closed is known by its id among
/// the sessions before, where it belonged to the controller.
pub proof fn lemma_sessions_of(sessions: Seq<SessionView>, k: int, controller_id: Seq<char>, i: int)
    requires
        0 <= k <= sessions.len(),
        0 <= i < sessions_of(sessions, k, controller_id).len(),
    ensures
        exists|j: int|
            0 <= j < k && (#[trigger] sessions[j]).bound_to(controller_id) && sessions[j].id
                == sessions_of(sessions, k, controller_id)[i],
    decreases k,
{
    let closed = sessions_of(sessions, k, controller_id);
    if k > 0 {
        let before = sessions_of(sessions, k - 1, controller_id);
        if i < before.len() {
            lemma_sessions_of(sessions, k - 1, controller_id, i);
            let j = choose|j: int|
                0 <= j < k - 1 && (#[trigger] sessions[j]).bound_to(controller_id) && sessions[j].id
                    == before[i];
            assert(sessions[j].bound_to(controller_id) && sessions[j].id == closed[i]);
        } else {
            assert(sessions[k - 1].bound_to(controller_id) && sessions[k - 1].id == closed[i]);
        }
    }
}

/// A session of a controller that was closed is open no more: a frame that
/// arrives for it finds no session, and so no key to be opened with.
pub proof fn lemma_closed_sessions_not_open(
    sessions: Seq<SessionView>,
    controller_id: Seq<char>,
    i: int,
)
    requires
        ids_grow(sessions),
        0 <= i < sessions_of(sessions, sessions.len() as int, controller_id).len(),
    ensures
        !is_open(
            without_controller(sessions, sessions.len() as int, controller_id),
            sessions_of(sessions, sessions.len() as int, controller_id)[i],
        ),
{
    let n = sessions.len() as int;
    let left = without_controller(sessions, n, controller_id);
    let id = sessions_of(sessions, n, controller_id)[i];
    lemma_sessions_of(sessions, n, controller_id, i);
    let j = choose|j: int|
        0 <= j < n && (#[trigger] sessions[j]).bound_to(controller_id) && sessions[j].id == id;
    assert forall|p: int| 0 <= p < left.len() implies (#[trigger] left[p]).id != id by {
        lemma_without_controller(sessions, n, controller_id, p);
        let q = choose|q: int| 0 <= q < n && #[trigger] sessions[q] == left[p];
        if q < j {
            assert(sessions[q].id < sessions[j].id);
        } else if j < q {
            assert(sessions[j].id < sessions[q].id);
        }
    }
}

/// The bytes of the frame that a request to seal comes to under a key: the
/// length, the ciphertext and the tag.
pub open spec fn sealed_frame(key: Seq<u8>, request: FrameRequestView) -> Seq<u8> {
    frame_of(
        request.aad,
        crypted(key, request.nonce, request.text),
        tag_of(key, request.nonce, request.aad, crypted(key, request.nonce, request.text)),
    )
}

/// The bytes of the frames that the first `k` requests to seal come to
/// under a key, one after the other.
pub open spec fn sealed_frames(key: Seq<u8>, requests: Seq<FrameRequestView>, k: int) -> Seq<u8>
    decreases k,
{
    if k <= 0 {
        Seq::empty()
    } else {
        sealed_frames(key, requests, k - 1) + sealed_frame(key, requests[k - 1])
    }
}

/// A frame that one side has sealed opens on the other side to the text
/// that was sealed, if both sides hold the same key and stand at the same
/// count. This is said of tags of 16 bytes, as all tags are that sealing
/// makes.
pub proof fn lemma_frame_round_trip(key: Seq<u8>, text: Seq<u8>, count: u64, i: int)
    requires
        0 <= i < frame_count(text.len() as int),
        count + i <= u64::MAX,
        tag_of(
            key,
            seal_requests(text, count)[i].nonce,
            seal_requests(text, count)[i].aad,
            crypted(key, seal_requests(text, count)[i].nonce, chunk(text, i)),
        ).len() == TAG_LEN,
    ensures
        ({
            let request = seal_requests(text, count)[i];
            let frame = sealed_frame(key, request);
            let (to_open, taken) = open_request(frame, (count + i) as u64);
            &&& 1 <= announced_len(frame) <= MAX_FRAME_LEN
            &&& taken == frame.len()
            &&& opened(key, to_open.nonce, to_open.aad, to_open.text, to_open.tag) == Some(
                chunk(text, i),
            )
        }),
{
    let request = seal_requests(text, count)[i];
    let piece = chunk(text, i);
    let ciphertext = crypted(key, request.nonce, piece);
    let tag = tag_of(key, request.nonce, request.aad, ciphertext);
    let frame = sealed_frame(key, request);
    vstd::bytes::lemma_auto_spec_u16_to_from_le_bytes();
    assert(1 <= piece.len() <= MAX_FRAME_LEN);
    assert(request.aad.len() == 2);
    assert(frame.subrange(0, 2) =~= request.aad);
    assert(announced_len(frame) == piece.len());
    assert(ciphertext.len() == piece.len());
    let n = piece.len() as int;
    assert(frame.subrange(2, 2 + n) =~= ciphertext);
    assert(frame.subrange(2 + n, 2 + n + TAG_LEN) =~= tag);
    lemma_open_sealed(key, request.nonce, request.aad, piece);
}

impl Session {
    /// Encrypts a text for sending: its frames, sealed under the key of the
    /// direction from the accessory to the controller, each under the next
    /// count. The count advances by the number of frames. A session that
    /// refuses the text does not change.
    pub fn encrypt(&mut self, text: &[u8]) -> (result: Result<Vec<u8>, Error>)
        ensures
            (final(self)@, sent_view(result)) == sent(old(self)@, text@),
    {
        let key: [u8; 32] = match &self.state {
            SessionState::Encrypted { a2c_key, .. } => *a2c_key,
            _ => {
                return Err(Error::Protocol);
            },
        };
        let requests = self.seal(text)?;
        let ghost planned = requests_view(requests@);
        proof {
            lemma_auto_spec_u64_to_from_le_bytes();
            assert forall|j: int| 0 <= j < planned.len() implies (#[trigger] planned[j]).nonce.len()
                == 12 && planned[j].text.len() <= MAX_FRAME_LEN by {
                assert(planned[j].text == chunk(text@, j));
            }
        }
        let mut bytes: Vec<u8> = Vec::new();
        let mut i: usize = 0;
        while i < requests.len()
            invariant
                0 <= i <= requests@.len(),
                planned == requests_view(requests@),
                forall|j: int|
                    0 <= j < planned.len() ==> (#[trigger] planned[j]).nonce.len() == 12
                        && planned[j].text.len() <= MAX_FRAME_LEN,
                bytes@ == sealed_frames(key@, planned, i as int),
            decreases requests@.len() - i,
        {
            let request = &requests[i];
            assert(planned[i as int] == request@);
            let (ciphertext, tag) = seal(
                &key,
                request.nonce.as_slice(),
                request.aad.as_slice(),
                request.text.as_slice(),
            );
            let ghost before = bytes@;
            extend(&mut bytes, request.aad.as_slice());
            extend(&mut bytes, ciphertext.as_slice());
            extend(&mut bytes, tag.as_slice());
            assert(bytes@ =~= before + sealed_frame(key@, planned[i as int]));
            i += 1;
        }
        proof {
            assert(key@ == old(self)@.state->Encrypted_a2c_key);
            assert(planned == seal_requests(text@, old(self)@.state->Encrypted_a2c_nonce));
            assert(planned.len() == frame_count(text@.len() as int));
        }
        Ok(bytes)
    }

    /// Decrypts the frame at the start of the buffer, if it is there in
    /// full: its text, opened under the key of the direction from the
    /// controller to the accessory and the next count, and the number of
    /// bytes that the frame takes. The count advances by one. While the frame
    /// is not there in full the answer is `None`, and nothing changes.
    ///
    /// A frame that the session refuses, as [`Session::open`] says, changes
    /// nothing. A frame whose tag is not that of its text is refused with a
    /// crypto error, after the count has advanced: the channel is lost, and
    /// the connection is to be closed.
    pub fn decrypt(&mut self, buffer: &[u8]) -> (result: Result<Option<(Vec<u8>, usize)>, Error>)
        ensures
            (final(self)@, received_view(result)) == received(old(self)@, buffer@),
    {
        let key: [u8; 32] = match &self.state {
            SessionState::Encrypted { c2a_key, .. } => *c2a_key,
            _ => {
                return Err(Error::Protocol);
            },
        };
        let (request, taken) = match self.open(buffer)? {
            Some(frame) => frame,
            None => {
                return Ok(None);
            },
        };
        proof {
            lemma_auto_spec_u64_to_from_le_bytes();
        }
        match open(
            &key,
            request.nonce.as_slice(),
            request.aad.as_slice(),
            request.text.as_slice(),
            request.tag.as_slice(),
        ) {
            Some(text) => Ok(Some((text, taken))),
            None => Err(Error::Crypto),
        }
    }
}

impl Sessions {
    /// Encrypts a text for sending on the session in the given place, as
    /// [`Session::encrypt`] does.
    pub fn encrypt(&mut self, place: usize, text: &[u8]) -> (result: Result<Vec<u8>, Error>)
        requires
            place < old(self)@.len(),
        ensures
            final(self).fresh_id() == old(self).fresh_id(),
            final(self)@ == old(self)@.update(
                place as int,
                sent(old(self)@[place as int], text@).0,
            ),
            sent_view(result) == sent(old(self)@[place as int], text@).1,
    {
        proof {
            use_type_invariant(&*self);
        }
        let ghost before = self@;
        let mut sessions: Vec<Session> = Vec::new();
        std::mem::swap(&mut sessions, &mut self.sessions);
        let session = &mut sessions[place];
        let result = session.encrypt(text);
        proof {
            assert(sessions_view(sessions@) =~= before.update(
                place as int,
                sessions@[place as int]@,
            ));
            assert(before.update(place as int, before[place as int]) =~= before);
        }
        self.sessions = sessions;
        result
    }

    /// Decrypts the frame at the start of the buffer for the session in the
    /// given place, as [`Session::decrypt`] does. After a crypto error the
    /// session is to be closed.
    pub fn decrypt(&mut self, place: usize, buffer: &[u8]) -> (result: Result<
        Option<(Vec<u8>, usize)>,
        Error,
    >)
        requires
            place < old(self)@.len(),
        ensures
            final(self).fresh_id() == old(self).fresh_id(),
            final(self)@ == old(self)@.update(
                place as int,
                received(old(self)@[place as int], buffer@).0,
            ),
            received_view(result) == received(old(self)@[place as int], buffer@).1,
    {
        proof {
            use_type_invariant(&*self);
        }
        let ghost before = self@;
        let mut sessions: Vec<Session> = Vec::new();
        std::mem::swap(&mut sessions, &mut self.sessions);
        let session = &mut sessions[place];
        let result = session.decrypt(buffer);
        proof {
            assert(sessions_view(sessions@) =~= before.update(
                place as int,
                sessions@[place as int]@,
            ));
            assert(before.update(place as int, before[place as int]) =~= before);
        }
        self.sessions = sessions;
        result
    }
}

/// What the preparation of a text for sending comes to: the session after
/// it, and the frames that are to be sealed.
///
/// A session that is not encrypted refuses with a protocol error. Where the
/// count of the direction would pass the last 64-bit number the session
/// refuses with a crypto error, as no nonce may be used twice. Otherwise
/// every frame goes under the next count, and the count advances by the
/// number of frames.
pub open spec fn planned(session: SessionView, text: Seq<u8>) -> (
    SessionView,
    Result<Seq<FrameRequestView>, Error>,
) {
    if !(session.state is Encrypted) {
        (session, Err(Error::Protocol))
    } else {
        let count = session.state->Encrypted_a2c_nonce;
        let frames = frame_count(text.len() as int);
        if count + frames > u64::MAX {
            (session, Err(Error::Crypto))
        } else {
            (session.with_a2c_nonce((count + frames) as u64), Ok(seal_requests(text, count)))
        }
    }
}

/// What the encryption of a text for sending comes to: the session after
/// it, and the bytes of the frames, sealed under the key of the direction
/// from the accessory to the controller.
pub open spec fn sent(session: SessionView, text: Seq<u8>) -> (SessionView, Result<Seq<u8>, Error>) {
    match planned(session, text).1 {
        Ok(requests) => (
            planned(session, text).0,
            Ok(
                sealed_frames(
                    session.state->Encrypted_a2c_key,
                    requests,
                    frame_count(text.len() as int),
                ),
            ),
        ),
        Err(e) => (session, Err(e)),
    }
}

/// What taking the frame at the start of a buffer comes to: the session
/// after it, and what is to be opened with the number of bytes that the
/// frame takes, if the frame is there in full.
///
/// A session that is not encrypted refuses the frame with a protocol error,
/// and so is a frame refused that announces no text or more than 1024 bytes
/// of it. While the frame is not there in full, nothing is taken. Where the
/// count of the direction has reached the last 64-bit number the session
/// refuses with a crypto error. Otherwise the frame goes under the next
/// count, and the count advances by one.
pub open spec fn taken(session: SessionView, buffer: Seq<u8>) -> (
    SessionView,
    Result<Option<(FrameRequestView, int)>, Error>,
) {
    if !(session.state is Encrypted) {
        (session, Err(Error::Protocol))
    } else if buffer.len() < 2 {
        (session, Ok(None))
    } else if announced_len(buffer) < 1 || announced_len(buffer) > MAX_FRAME_LEN {
        (session, Err(Error::Protocol))
    } else if buffer.len() < 2 + announced_len(buffer) + TAG_LEN {
        (session, Ok(None))
    } else if session.state->Encrypted_c2a_nonce == u64::MAX {
        (session, Err(Error::Crypto))
    } else {
        (
            session.with_c2a_nonce((session.state->Encrypted_c2a_nonce + 1) as u64),
            Ok(Some(open_request(buffer, session.state->Encrypted_c2a_nonce))),
        )
    }
}

/// What the decryption of the frame at the start of a buffer comes to: the
/// session after it, and the text of the frame with the number of bytes that
/// the frame takes, if the frame is there in full. The frame is opened under
/// the key of the direction from the controller to the accessory. A frame
/// whose tag is not that of its text is refused with a crypto error, after
/// the count has advanced: the channel is lost, and the connection is to be
/// closed.
pub open spec fn received(session: SessionView, buffer: Seq<u8>) -> (
    SessionView,
    Result<Option<(Seq<u8>, int)>, Error>,
) {
    match taken(session, buffer).1 {
        Ok(Some((request, frame_len))) => (
            taken(session, buffer).0,
            match opened(
                session.state->Encrypted_c2a_key,
                request.nonce,
                request.aad,
                request.text,
                request.tag,
            ) {
                Some(text) => Ok(Some((text, frame_len))),
                None => Err(Error::Crypto),
            },
        ),
        Ok(None) => (session, Ok(None)),
        Err(e) => (session, Err(e)),
    }
}

/// The model of what the preparation of a text hands back.
pub open spec fn planned_view(result: Result<Vec<FrameRequest>, Error>) -> Result<
    Seq<FrameRequestView>,
    Error,
> {
    match result {
        Ok(requests) => Ok(requests_view(requests@)),
        Err(e) => Err(e),
    }
}

/// The model of what the encryption of a text hands back.
pub open spec fn sent_view(result: Result<Vec<u8>, Error>) -> Result<Seq<u8>, Error> {
    match result {
        Ok(bytes) => Ok(bytes@),
        Err(e) => Err(e),
    }
}

/// The model of what taking a frame hands back.
pub open spec fn taken_view(result: Result<Option<(FrameRequest, usize)>, Error>) -> Result<
    Option<(FrameRequestView, int)>,
    Error,
> {
    match result {
        Ok(Some((request, len))) => Ok(Some((request@, len as int))),
        Ok(None) => Ok(None),
        Err(e) => Err(e),
    }
}

/// The model of what the decryption of a frame hands back.
pub open spec fn received_view(result: Result<Option<(Vec<u8>, usize)>, Error>) -> Result<
    Option<(Seq<u8>, int)>,
    Error,
> {
    match result {
        Ok(Some((text, len))) => Ok(Some((text@, len as int))),
        Ok(None) => Ok(None),
        Err(e) => Err(e),
    }
}

/// The counts of frames of an encrypted session only grow, and each
/// direction has its own: sending advances the count of the direction from
/// the accessory to the controller by the number of frames, receiving a
/// frame advances the count of the other direction by one, and neither
/// touches the count of the other direction. A session stays encrypted
/// through both.
pub proof fn lemma_counts_grow(session: SessionView, text: Seq<u8>, buffer: Seq<u8>)
    requires
        session.state is Encrypted,
    ensures
        ({
            let after = sent(session, text).0;
            &&& after.state is Encrypted
            &&& after.state->Encrypted_c2a_nonce == session.state->Encrypted_c2a_nonce
            &&& after.state->Encrypted_a2c_nonce >= session.state->Encrypted_a2c_nonce
            &&& sent(session, text).1 is Ok ==> after.state->Encrypted_a2c_nonce
                == session.state->Encrypted_a2c_nonce + frame_count(text.len() as int)
            &&& sent(session, text).1 is Ok && text.len() > 0 ==> after.state->Encrypted_a2c_nonce
                > session.state->Encrypted_a2c_nonce
        }),
        ({
            let after = received(session, buffer).0;
            &&& after.state is Encrypted
            &&& after.state->Encrypted_a2c_nonce == session.state->Encrypted_a2c_nonce
            &&& after.state->Encrypted_c2a_nonce >= session.state->Encrypted_c2a_nonce
            &&& received(session, buffer).1 matches Ok(Some(_)) ==> after.state->Encrypted_c2a_nonce
                == session.state->Encrypted_c2a_nonce + 1
        }),
{
}

} // verus!
