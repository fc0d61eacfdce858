//! The accessory server over IP: its state, the rules of its routes, and
//! what follows from a change of the pairings.

use vstd::prelude::*;
use crate::accessory::{instance_count, numbered, same_but_ids, Accessory};
use crate::config::{txt_records_of, Config, ConfigView};
use crate::db::{
    database_json, identify_object, identify_target, valid, write_outcome, AccessoryList,
    AccessoryListView,
};
use crate::error::Error;
use crate::event::{events_view, Event, EventView};
use crate::json::{array_view, object_view, push_member, JsonValue, JsonView};
use crate::pairing::{
    is_paired, only_admin, pairings_view, place_of, Pairing, PairingStore, PairingView,
    AUTHENTICATION,
};
use crate::protocol::{Device, DeviceView};
use crate::text::same_text;
use crate::transport::http::handler::characteristics::{
    apply_all, get_answer, write_answer, write_state, GetCharacteristics, UpdateCharacteristics,
};
use crate::transport::http::handler::pair_setup::{self, SetupOutcome, SetupState};
use crate::transport::http::handler::pair_verify::{self, respond_state, state_response, UNKNOWN};
use crate::transport::http::handler::pairings::{
    self, list_response, parsed, PairingsRequest, PairingsRequestView,
};
use crate::transport::http::request::write_body_of;
use crate::transport::http::uri::{pairs_view, uri_query};
use crate::transport::http::{
    body_json, body_to_json, read_answer_view, write_answer_view, CharacteristicResponseBody,
    JsonResponse, ReadResponseObject, ReadResponseView, WriteResponseObject, NOT_FOUND,
    NO_CONTENT,
};
use crate::transport::session::{
    listeners, sessions_of, without_controller, SessionState, SessionStateView, SessionView,
    Sessions,
};

verus! {

/// The HTTP status with which a request is refused that needs an encrypted
/// session and came without one.
pub const CONNECTION_AUTHORIZATION_REQUIRED: u16 = 470;

/// The HTTP status with which a request is refused that names no route, or
/// a route that the state of the server does not admit.
pub const BAD_REQUEST: u16 = 400;

/// The routes of the server.
#[derive(Clone, Copy, Debug, PartialEq, Eq, Structural)]
pub enum Route {
    /// `GET /accessories`
    Accessories,
    /// `GET /characteristics`
    GetCharacteristics,
    /// `PUT /characteristics`
    UpdateCharacteristics,
    /// `POST /pair-setup`
    PairSetup,
    /// `POST /pair-verify`
    PairVerify,
    /// `POST /pairings`
    Pairings,
    /// `POST /identify`
    Identify,
}

/// The route that a method and a path name.
pub open spec fn route_of(method: Seq<char>, path: Seq<char>) -> Option<Route> {
    if method == "GET"@ && path == "/accessories"@ {
        Some(Route::Accessories)
    } else if method == "GET"@ && path == "/characteristics"@ {
        Some(Route::GetCharacteristics)
    } else if method == "PUT"@ && path == "/characteristics"@ {
        Some(Route::UpdateCharacteristics)
    } else if method == "POST"@ && path == "/pair-setup"@ {
        Some(Route::PairSetup)
    } else if method == "POST"@ && path == "/pair-verify"@ {
        Some(Route::PairVerify)
    } else if method == "POST"@ && path == "/pairings"@ {
        Some(Route::Pairings)
    } else if method == "POST"@ && path == "/identify"@ {
        Some(Route::Identify)
    } else {
        None
    }
}

/// The route that a method and a path name.
pub fn route(method: &str, path: &str) -> (route: Option<Route>)
    ensures
        route == route_of(method@, path@),
{
    if same_text(method, "GET") && same_text(path, "/accessories") {
        Some(Route::Accessories)
    } else if same_text(method, "GET") && same_text(path, "/characteristics") {
        Some(Route::GetCharacteristics)
    } else if same_text(method, "PUT") && same_text(path, "/characteristics") {
        Some(Route::UpdateCharacteristics)
    } else if same_text(method, "POST") && same_text(path, "/pair-setup") {
        Some(Route::PairSetup)
    } else if same_text(method, "POST") && same_text(path, "/pair-verify") {
        Some(Route::PairVerify)
    } else if same_text(method, "POST") && same_text(path, "/pairings") {
        Some(Route::Pairings)
    } else if same_text(method, "POST") && same_text(path, "/identify") {
        Some(Route::Identify)
    } else {
        None
    }
}

/// Whether the session belongs to a controller that is paired as an admin.
pub open spec fn is_admin_session(session: SessionStateView, pairings: Seq<PairingView>) -> bool {
    &&& session is Encrypted
    &&& is_paired(pairings, session->Encrypted_controller_id)
    &&& pairings[place_of(pairings, session->Encrypted_controller_id)].admin
}

/// Whether a session in the given state may use the route, and the error
/// with which it is refused otherwise.
///
/// The accessory database and the characteristics need an encrypted session.
/// Pair-setup is for sessions on which nothing has been agreed yet or on
/// which it is under way. Pair-verify is always admitted. The pairings need
/// an encrypted session of an admin. Identify is for sessions on which
/// nothing has been agreed yet, while no controller is paired.
pub open spec fn admission(route: Route, session: SessionStateView, pairings: Seq<PairingView>) -> Result<
    (),
    Error,
> {
    match route {
        Route::Accessories | Route::GetCharacteristics | Route::UpdateCharacteristics => {
            if session is Encrypted {
                Ok(())
            } else {
                Err(Error::HttpStatus(CONNECTION_AUTHORIZATION_REQUIRED))
            }
        },
        Route::PairSetup => {
            if session is Unpaired || session is InPairSetup {
                Ok(())
            } else {
                Err(Error::HttpStatus(BAD_REQUEST))
            }
        },
        Route::PairVerify => Ok(()),
        Route::Pairings => {
            if !(session is Encrypted) {
                Err(Error::HttpStatus(CONNECTION_AUTHORIZATION_REQUIRED))
            } else if is_admin_session(session, pairings) {
                Ok(())
            } else {
                Err(Error::PairingStatus(AUTHENTICATION))
            }
        },
        Route::Identify => {
            if session is Unpaired && pairings.len() == 0 {
                Ok(())
            } else {
                Err(Error::HttpStatus(BAD_REQUEST))
            }
        },
    }
}

/// Whether the session belongs to a controller that is paired as an admin.
pub fn admin_session(session: &SessionState, pairings: &PairingStore) -> (admin: bool)
    ensures
        admin == is_admin_session(session@, pairings@),
{
    match session {
        SessionState::Encrypted { controller_id, .. } => match pairings.get(controller_id.as_str()) {
            Some(pairing) => pairing.admin,
            None => false,
        },
        _ => false,
    }
}

/// Decides whether a session in the given state may use the route.
pub fn check_admission(route: Route, session: &SessionState, pairings: &PairingStore) -> (result: Result<
    (),
    Error,
>)
    ensures
        result == admission(route, session@, pairings@),
{
    let encrypted = matches!(session, SessionState::Encrypted { .. });
    match route {
        Route::Accessories | Route::GetCharacteristics | Route::UpdateCharacteristics => {
            if encrypted {
                Ok(())
            } else {
                Err(Error::HttpStatus(CONNECTION_AUTHORIZATION_REQUIRED))
            }
        },
        Route::PairSetup => {
            if matches!(session, SessionState::Unpaired) || matches!(
                session,
                SessionState::InPairSetup { .. }
            ) {
                Ok(())
            } else {
                Err(Error::HttpStatus(BAD_REQUEST))
            }
        },
        Route::PairVerify => Ok(()),
        Route::Pairings => {
            if !encrypted {
                Err(Error::HttpStatus(CONNECTION_AUTHORIZATION_REQUIRED))
            } else if admin_session(session, pairings) {
                Ok(())
            } else {
                Err(Error::PairingStatus(AUTHENTICATION))
            }
        },
        Route::Identify => {
            if matches!(session, SessionState::Unpaired) && pairings.len() == 0 {
                Ok(())
            } else {
                Err(Error::HttpStatus(BAD_REQUEST))
            }
        },
    }
}

/// The state of the accessory server: its configuration and identity, the
/// pairings, the open sessions and the published accessories.
#[derive(Debug)]
pub struct IpTransport {
    pub config: Config,
    pub device: Device,
    pub setup: SetupState,
    pub pairings: PairingStore,
    pub sessions: Sessions,
    pub accessories: AccessoryList,
}

/// The mathematical model of an [`IpTransport`].
pub struct IpTransportView {
    pub config: ConfigView,
    pub device: DeviceView,
    pub setup: SetupState,
    pub pairings: Seq<PairingView>,
    pub sessions: Seq<SessionView>,
    pub accessories: AccessoryListView,
}

impl View for IpTransport {
    type V = IpTransportView;

    open spec fn view(&self) -> IpTransportView {
        IpTransportView {
            config: self.config@,
            device: self.device@,
            setup: self.setup,
            pairings: self.pairings@,
            sessions: self.sessions@,
            accessories: self.accessories@,
        }
    }
}

/// The pairings after one was added: a controller that is paired already
/// keeps its place and takes the new key and admin flag.
pub open spec fn with_pairing(pairings: Seq<PairingView>, added: PairingView) -> Seq<PairingView> {
    if is_paired(pairings, added.id) {
        pairings.update(place_of(pairings, added.id), added)
    } else {
        pairings.push(added)
    }
}

/// The pairings after the one of the given controller was removed.
pub open spec fn without_pairing(pairings: Seq<PairingView>, id: Seq<char>) -> Seq<PairingView> {
    if is_paired(pairings, id) {
        pairings.remove(place_of(pairings, id))
    } else {
        pairings
    }
}

/// The configuration after a change was counted.
pub open spec fn bumped(config: ConfigView) -> ConfigView {
    ConfigView { configuration_number: (config.configuration_number + 1) as u64, ..config }
}

impl IpTransport {
    /// A server with the given configuration, identity and pairings, without
    /// sessions and accessories. The first session to be opened gets the id
    /// 0.
    pub fn new_device(config: Config, device: Device, pairings: PairingStore) -> (transport:
        IpTransport)
        ensures
            transport@.config == config@,
            transport@.device == device@,
            transport@.setup == (SetupState { failed_attempts: 0, session: None }),
            transport@.pairings == pairings@,
            transport@.sessions == Seq::<SessionView>::empty(),
            transport.sessions.fresh_id() == 0,
            transport@.accessories.accessories == Seq::<crate::accessory::AccessoryView>::empty(),
            transport@.accessories.events == Seq::<crate::event::EventView>::empty(),
    {
        IpTransport {
            config,
            device,
            setup: SetupState::new(),
            pairings,
            sessions: Sessions::new(),
            accessories: AccessoryList::new(),
        }
    }

    /// Publishes an accessory if it can be published: it must be well
    /// formed, and its instance ids and the accessory id must fit. It gets
    /// the next accessory id, counted from 1, and its instance ids. Returns
    /// the accessory id, or `None` where the accessory cannot be published,
    /// and then nothing changes.
    pub fn add_accessory(&mut self, accessory: Accessory) -> (aid: Option<u64>)
        ensures
            final(self).sessions.fresh_id() == old(self).sessions.fresh_id(),
            valid(final(self)@.accessories.accessories),
            final(self)@ == (IpTransportView {
                accessories: final(self)@.accessories,
                ..old(self)@
            }),
            final(self)@.accessories.events == old(self)@.accessories.events,
            match aid {
                Some(aid) => {
                    let before = old(self)@.accessories.accessories;
                    let after = final(self)@.accessories.accessories;
                    &&& accessory@.well_formed()
                    &&& instance_count(accessory@.services) < u64::MAX
                    &&& aid == before.len() + 1
                    &&& after.len() == before.len() + 1
                    &&& after.subrange(0, before.len() as int) == before
                    &&& after.last().id == aid
                    &&& numbered(after.last().services, aid)
                    &&& same_but_ids(after.last().services, accessory@.services)
                },
                None => {
                    &&& final(self)@ == old(self)@
                    &&& !accessory@.well_formed() || instance_count(accessory@.services)
                        >= u64::MAX || old(self)@.accessories.accessories.len() >= usize::MAX
                },
            },
    {
        self.accessories.try_add(accessory)
    }

    /// The TXT records of the advertisement. The status flag is 1 while no
    /// controller is paired.
    pub fn txt_records(&self) -> (records: Vec<(String, String)>)
        ensures
            pairs_view(records@) == txt_records_of(self@.config, self@.pairings.len() > 0),
    {
        self.config.txt_records(self.pairings.len() > 0)
    }

    /// Adds a pairing at the request of the session in the given place,
    /// which must be an encrypted session of an admin. On success the
    /// configuration number grows by exactly one. A request that is refused
    /// changes nothing.
    pub fn add_pairing(&mut self, session: usize, id: String, ltpk: [u8; 32], admin: bool) -> (result:
        Result<(), Error>)
        requires
            session < old(self)@.sessions.len(),
            old(self)@.config.configuration_number < u64::MAX,
        ensures
            final(self).sessions.fresh_id() == old(self).sessions.fresh_id(),
            match admission(
                Route::Pairings,
                old(self)@.sessions[session as int].state,
                old(self)@.pairings,
            ) {
                Err(e) => result == Err::<(), _>(e) && final(self)@ == old(self)@,
                Ok(()) => {
                    &&& result is Ok
                    &&& final(self)@ == (IpTransportView {
                        config: bumped(old(self)@.config),
                        pairings: with_pairing(
                            old(self)@.pairings,
                            PairingView { id: id@, ltpk: ltpk@, admin },
                        ),
                        ..old(self)@
                    })
                },
            },
    {
        check_admission(Route::Pairings, self.sessions.get(session).get_state(), &self.pairings)?;
        self.pairings.add(id, ltpk, admin);
        self.config.bump_configuration_number();
        Ok(())
    }

    /// Takes down the pairing that pair-setup has led to: the controller is
    /// paired as an admin, and the configuration number grows by exactly
    /// one.
    pub fn finish_pair_setup(&mut self, id: String, ltpk: [u8; 32])
        requires
            old(self)@.config.configuration_number < u64::MAX,
        ensures
            final(self).sessions.fresh_id() == old(self).sessions.fresh_id(),
            final(self)@ == (IpTransportView {
                config: bumped(old(self)@.config),
                pairings: with_pairing(
                    old(self)@.pairings,
                    PairingView { id: id@, ltpk: ltpk@, admin: true },
                ),
                ..old(self)@
            }),
    {
        self.pairings.add(id, ltpk, true);
        self.config.bump_configuration_number();
    }

    /// Removes a pairing at the request of the session in the given place,
    /// which must be an encrypted session of an admin. The removal of the
    /// only admin is refused with the error of a failed authentication. On
    /// success the configuration number grows by exactly one and the
    /// sessions of the controller are closed; their ids are returned. A
    /// request that is refused changes nothing.
    pub fn remove_pairing(&mut self, session: usize, id: &str) -> (result: Result<Vec<u64>, Error>)
        requires
            session < old(self)@.sessions.len(),
            old(self)@.config.configuration_number < u64::MAX,
        ensures
            final(self).sessions.fresh_id() == old(self).sessions.fresh_id(),
            match admission(
                Route::Pairings,
                old(self)@.sessions[session as int].state,
                old(self)@.pairings,
            ) {
                Err(e) => result == Err::<Vec<u64>, _>(e) && final(self)@ == old(self)@,
                Ok(()) => if only_admin(old(self)@.pairings, place_of(old(self)@.pairings, id@)) {
                    &&& result == Err::<Vec<u64>, _>(Error::PairingStatus(AUTHENTICATION))
                    &&& final(self)@ == old(self)@
                } else {
                    &&& result is Ok
                    &&& result->Ok_0@ == sessions_of(
                        old(self)@.sessions,
                        old(self)@.sessions.len() as int,
                        id@,
                    )
                    &&& final(self)@ == (IpTransportView {
                        config: bumped(old(self)@.config),
                        pairings: without_pairing(old(self)@.pairings, id@),
                        sessions: without_controller(
                            old(self)@.sessions,
                            old(self)@.sessions.len() as int,
                            id@,
                        ),
                        ..old(self)@
                    })
                    &&& !is_paired(final(self)@.pairings, id@)
                },
            },
    {
        check_admission(Route::Pairings, self.sessions.get(session).get_state(), &self.pairings)?;
        self.pairings.remove(id)?;
        self.config.bump_configuration_number();
        Ok(self.sessions.close_controller(id))
    }

    /// Lists the pairings at the request of the session in the given place,
    /// which must be an encrypted session of an admin.
    pub fn list_pairings(&self, session: usize) -> (result: Result<Vec<Pairing>, Error>)
        requires
            session < self@.sessions.len(),
        ensures
            match admission(Route::Pairings, self@.sessions[session as int].state, self@.pairings) {
                Err(e) => result == Err::<Vec<Pairing>, _>(e),
                Ok(()) => result is Ok && pairings_view(result->Ok_0@) == self@.pairings,
            },
    {
        check_admission(Route::Pairings, self.sessions.get(session).get_state(), &self.pairings)?;
        Ok(self.pairings.list())
    }
}

/// The body of the message that tells a session of a change: in the shape
/// of the answer to a read, with the one characteristic that changed.
pub open spec fn event_body(aid: u64, iid: u64, value: JsonView) -> JsonView {
    body_json(
        seq![
            JsonView::Object(
                seq![
                    ("aid"@, JsonView::Integer(aid as int)),
                    ("iid"@, JsonView::Integer(iid as int)),
                    ("value"@, value),
                ],
            ),
        ],
    )
}

/// The body of the message that tells a session of a change.
pub fn event_body_json(aid: u64, iid: u64, value: JsonValue) -> (body: JsonValue)
    ensures
        body@ == event_body(aid, iid, value@),
{
    let mut members: Vec<(String, JsonValue)> = Vec::new();
    assert(object_view(members@) =~= Seq::empty());
    push_member(&mut members, "aid", JsonValue::unsigned(aid));
    push_member(&mut members, "iid", JsonValue::unsigned(iid));
    push_member(&mut members, "value", value);
    assert(object_view(members@) =~= seq![
        ("aid"@, JsonView::Integer(aid as int)),
        ("iid"@, JsonView::Integer(iid as int)),
        ("value"@, value@),
    ]);
    let mut objects: Vec<JsonValue> = Vec::new();
    objects.push(JsonValue::object(members));
    assert(array_view(objects@) =~= seq![
        JsonView::Object(
            seq![
                ("aid"@, JsonView::Integer(aid as int)),
                ("iid"@, JsonView::Integer(iid as int)),
                ("value"@, value@),
            ],
        ),
    ]);
    body_to_json(objects)
}

/// A message that is to be pushed to sessions, outside any request: the
/// sessions, by their ids, and the JSON body.
#[derive(Debug)]
pub struct Push {
    pub sessions: Vec<u64>,
    pub body: JsonValue,
}

/// The mathematical model of a [`Push`].
pub struct PushView {
    pub sessions: Seq<u64>,
    pub body: JsonView,
}

impl View for Push {
    type V = PushView;

    open spec fn view(&self) -> PushView {
        PushView { sessions: self.sessions@, body: self.body@ }
    }
}

/// The models of a list of messages to push.
pub open spec fn pushes_view(pushes: Seq<Push>) -> Seq<PushView> {
    Seq::new(pushes.len(), |i: int| pushes[i]@)
}

/// What is pushed for the first `k` events: for each change of a
/// characteristic, in the order of the events, a message to the sessions
/// that hear of it. Events of other kinds are not pushed.
pub open spec fn pushes_for(
    events: Seq<EventView>,
    k: int,
    sessions: Seq<SessionView>,
    origin: Option<u64>,
) -> Seq<PushView>
    decreases k,
{
    if k <= 0 {
        Seq::empty()
    } else {
        match events[k - 1] {
            EventView::CharacteristicValueChanged { aid, iid, value } => pushes_for(
                events,
                k - 1,
                sessions,
                origin,
            ).push(
                PushView {
                    sessions: listeners(sessions, sessions.len() as int, aid, iid, origin),
                    body: event_body(aid, iid, value),
                },
            ),
            _ => pushes_for(events, k - 1, sessions, origin),
        }
    }
}

impl IpTransport {
    /// Takes the pending events and says what is to be pushed for them. The
    /// session that made the changes, if one did, hears nothing of them.
    pub fn dispatch_events(&mut self, origin: Option<u64>) -> (pushes: Vec<Push>)
        ensures
            final(self).sessions.fresh_id() == old(self).sessions.fresh_id(),
            pushes_view(pushes@) == pushes_for(
                old(self)@.accessories.events,
                old(self)@.accessories.events.len() as int,
                old(self)@.sessions,
                origin,
            ),
            final(self)@ == (IpTransportView {
                accessories: AccessoryListView {
                    events: Seq::empty(),
                    ..old(self)@.accessories
                },
                ..old(self)@
            }),
    {
        let ghost pending = self@.accessories.events;
        let ghost sessions = self@.sessions;
        let events = self.accessories.take_events();
        let mut pushes: Vec<Push> = Vec::new();
        assert(pushes_view(pushes@) =~= Seq::empty());
        for event in it: events
            invariant
                pending == events_view(it.seq()),
                sessions == self.sessions@,
                pushes_view(pushes@) == pushes_for(pending, it.index() as int, sessions, origin),
        {
            let ghost before = pushes_view(pushes@);
            assert(pending[it.index() as int] == event@);
            match event {
                Event::CharacteristicValueChanged { aid, iid, value } => {
                    let push = Push {
                        sessions: self.sessions.subscribers(aid, iid, origin),
                        body: event_body_json(aid, iid, value),
                    };
                    assert(pushes_view(pushes@.push(push)) =~= before.push(push@));
                    pushes.push(push);
                },
                _ => {},
            }
        }
        pushes
    }

    /// Answers `GET /accessories` for the session in the given place: the
    /// accessory database in JSON.
    pub fn get_accessories(&self, session: usize) -> (result: Result<JsonValue, Error>)
        requires
            session < self@.sessions.len(),
        ensures
            match admission(
                Route::Accessories,
                self@.sessions[session as int].state,
                self@.pairings,
            ) {
                Err(e) => result == Err::<JsonValue, _>(e),
                Ok(()) => result is Ok && result->Ok_0@ == database_json(
                    self@.accessories.accessories,
                ),
            },
    {
        check_admission(Route::Accessories, self.sessions.get(session).get_state(), &self.pairings)?;
        Ok(self.accessories.snapshot())
    }

    /// Answers `GET /characteristics` for the session in the given place.
    pub fn get_characteristics(&self, session: usize, uri: &hyper::Uri) -> (result: Result<
        JsonResponse<ReadResponseObject>,
        Error,
    >)
        requires
            session < self@.sessions.len(),
        ensures
            match admission(
                Route::GetCharacteristics,
                self@.sessions[session as int].state,
                self@.pairings,
            ) {
                Err(e) => result == Err::<JsonResponse<ReadResponseObject>, _>(e),
                Ok(()) => match result {
                    Ok(response) => get_answer(self@.accessories.accessories, uri_query(*uri))
                        == Ok::<_, Error>(read_answer_view(response)),
                    Err(e) => get_answer(self@.accessories.accessories, uri_query(*uri)) == Err::<
                        (u16, Option<Seq<ReadResponseView>>),
                        _,
                    >(e),
                },
            },
    {
        check_admission(
            Route::GetCharacteristics,
            self.sessions.get(session).get_state(),
            &self.pairings,
        )?;
        GetCharacteristics::new().handle(uri, &self.accessories)
    }

    /// Answers `PUT /characteristics` with the given JSON body for the
    /// session in the given place: the objects are applied one after the
    /// other, with the subscriptions of that session.
    pub fn put_characteristics(&mut self, session: usize, body: &JsonValue) -> (result: Result<
        JsonResponse<WriteResponseObject>,
        Error,
    >)
        requires
            session < old(self)@.sessions.len(),
        ensures
            final(self).sessions.fresh_id() == old(self).sessions.fresh_id(),
            final(self)@.config == old(self)@.config,
            final(self)@.pairings == old(self)@.pairings,
            final(self)@.sessions.len() == old(self)@.sessions.len(),
            match admission(
                Route::UpdateCharacteristics,
                old(self)@.sessions[session as int].state,
                old(self)@.pairings,
            ) {
                Err(e) => result == Err::<JsonResponse<WriteResponseObject>, _>(e) && final(self)@
                    == old(self)@,
                Ok(()) => match result {
                    Ok(response) => {
                        let (state, answers) = apply_all(
                            write_state(
                                old(self)@.accessories,
                                old(self)@.sessions[session as int].subscriptions,
                            ),
                            write_body_of(body@)->0,
                        );
                        &&& write_body_of(body@) is Some
                        &&& write_state(
                            final(self)@.accessories,
                            final(self)@.sessions[session as int].subscriptions,
                        ) == state
                        &&& final(self)@.sessions == old(self)@.sessions.update(
                            session as int,
                            SessionView {
                                subscriptions: state.subscriptions,
                                ..old(self)@.sessions[session as int]
                            },
                        )
                        &&& write_answer_view(response) == write_answer(answers)
                    },
                    Err(e) => {
                        &&& write_body_of(body@) is None
                        &&& e == Error::Protocol
                        &&& final(self)@ == old(self)@
                    },
                },
            },
    {
        check_admission(
            Route::UpdateCharacteristics,
            self.sessions.get(session).get_state(),
            &self.pairings,
        )?;
        let ghost before = self@.sessions;
        let mut subscriptions = self.sessions.take_subscriptions(session);
        let result = UpdateCharacteristics::new().handle(
            body,
            &mut subscriptions,
            &mut self.accessories,
        );
        self.sessions.put_subscriptions(session, subscriptions);
        proof {
            assert(self@.sessions =~= before.update(
                session as int,
                SessionView { subscriptions: subscriptions@, ..before[session as int] },
            ));
            if result is Err {
                assert(self@.sessions =~= before);
            }
        }
        result
    }
}

impl IpTransport {
    /// Answers `POST /identify` for the session in the given place: writes
    /// `true` to the Identify characteristic of the accessory 1. The answer
    /// is that of a write request with this one object.
    pub fn identify(&mut self, session: usize) -> (result: Result<
        JsonResponse<WriteResponseObject>,
        Error,
    >)
        requires
            session < old(self)@.sessions.len(),
        ensures
            final(self).sessions.fresh_id() == old(self).sessions.fresh_id(),
            final(self)@.config == old(self)@.config,
            final(self)@.pairings == old(self)@.pairings,
            final(self)@.sessions == old(self)@.sessions,
            match admission(
                Route::Identify,
                old(self)@.sessions[session as int].state,
                old(self)@.pairings,
            ) {
                Err(e) => result == Err::<JsonResponse<WriteResponseObject>, _>(e) && final(self)@
                    == old(self)@,
                Ok(()) => match identify_target(old(self)@.accessories.accessories) {
                    None => result == Err::<JsonResponse<WriteResponseObject>, _>(
                        Error::HttpStatus(NOT_FOUND),
                    ) && final(self)@ == old(self)@,
                    Some(iid) => {
                        let outcome = write_outcome(
                            old(self)@.accessories,
                            Set::empty(),
                            identify_object(iid),
                        );
                        &&& final(self)@.accessories == outcome.0
                        &&& outcome.2 is Ok
                        &&& result is Ok
                        &&& write_answer_view(result->Ok_0) == write_answer(seq![outcome.2->Ok_0])
                    },
                },
            },
    {
        check_admission(Route::Identify, self.sessions.get(session).get_state(), &self.pairings)?;
        let answer = self.accessories.identify()?;
        let mut characteristics: Vec<WriteResponseObject> = Vec::new();
        characteristics.push(answer);
        proof {
            assert(characteristics@ =~= seq![answer]);
            assert(characteristics@[0] == answer);
        }
        if answer.status != 0 {
            Ok(
                JsonResponse {
                    status: BAD_REQUEST,
                    body: Some(CharacteristicResponseBody { characteristics }),
                },
            )
        } else {
            Ok(JsonResponse { status: NO_CONTENT, body: None })
        }
    }
}

impl IpTransport {
    /// Answers `POST /pair-verify` for the session in the given place. The
    /// ephemeral secret key is to be chosen at random for each request. The
    /// session takes the state that the request leads to; where a controller
    /// is verified it is encrypted from then on.
    pub fn pair_verify(&mut self, session: usize, body: &[u8], secret: &[u8; 32]) -> (response:
        Vec<u8>)
        requires
            session < old(self)@.sessions.len(),
        ensures
            final(self).sessions.fresh_id() == old(self).sessions.fresh_id(),
            ({
                let outcome = pair_verify::handled(
                    old(self)@.device,
                    old(self)@.pairings,
                    old(self)@.sessions[session as int].state,
                    body@,
                    secret@,
                );
                &&& response@ == outcome.1
                &&& final(self)@ == (IpTransportView {
                    sessions: old(self)@.sessions.update(
                        session as int,
                        SessionView { state: outcome.0, ..old(self)@.sessions[session as int] },
                    ),
                    ..old(self)@
                })
            }),
    {
        let (next, response) = pair_verify::handle(
            &self.device,
            &self.pairings,
            self.sessions.get(session).get_state(),
            body,
            secret,
        );
        match next {
            Some(state) => {
                self.sessions.set_state(session, state);
            },
            None => {
                assert(self@.sessions =~= old(self)@.sessions.update(
                    session as int,
                    old(self)@.sessions[session as int],
                ));
            },
        }
        response
    }
}

/// The server after a step of pair-setup of the session in the given
/// place: the session has taken its state, the server keeps what the step
/// says, and the controller that the step has introduced, if it has
/// introduced one, is paired as an admin, which is counted as a change of the
/// configuration.
pub open spec fn after_setup(before: IpTransportView, session: int, outcome: SetupOutcome) -> IpTransportView {
    let stepped = IpTransportView {
        setup: outcome.setup,
        sessions: before.sessions.update(
            session,
            SessionView { state: outcome.state, ..before.sessions[session] },
        ),
        ..before
    };
    match outcome.controller {
        Some((id, ltpk)) => IpTransportView {
            config: bumped(before.config),
            pairings: with_pairing(before.pairings, PairingView { id, ltpk, admin: true }),
            ..stepped
        },
        None => stepped,
    }
}

impl IpTransport {
    /// Answers `POST /pair-setup` for the session in the given place. The
    /// salt and the secret are to be chosen at random for each request. The
    /// session takes the state that the request leads to; where the exchange
    /// is completed, the controller is paired as an admin and the
    /// configuration number grows by exactly one.
    pub fn pair_setup(&mut self, session: usize, body: &[u8], salt: &[u8], secret: &[u8]) -> (response:
        Vec<u8>)
        requires
            session < old(self)@.sessions.len(),
            old(self)@.config.configuration_number < u64::MAX,
        ensures
            final(self).sessions.fresh_id() == old(self).sessions.fresh_id(),
            ({
                let outcome = pair_setup::requested(
                    old(self)@.device,
                    old(self)@.sessions[session as int].state,
                    old(self)@.setup,
                    old(self)@.pairings.len() > 0,
                    old(self)@.sessions[session as int].id,
                    vstd::utf8::encode_utf8(old(self)@.config.pin),
                    salt@,
                    secret@,
                    body@,
                );
                &&& response@ == outcome.response
                &&& final(self)@ == after_setup(old(self)@, session as int, outcome)
            }),
    {
        let step = pair_setup::handle(
            &self.device,
            self.sessions.get(session).get_state(),
            self.setup,
            self.pairings.len() > 0,
            self.sessions.get(session).get_id(),
            self.config.pin.as_str(),
            salt,
            secret,
            body,
        );
        let ghost before = self@.sessions;
        match step.state {
            Some(state) => {
                self.sessions.set_state(session, state);
            },
            None => {
                assert(before =~= before.update(session as int, before[session as int]));
            },
        }
        self.setup = step.setup;
        match step.controller {
            Some(controller) => {
                self.finish_pair_setup(controller.id, controller.ltpk);
            },
            None => {},
        }
        step.response
    }
}

/// What a request to the pairings route comes to, for a session that the
/// route does not refuse outright: the server after it, the answer, and the
/// ids of the sessions that were closed.
///
/// A session that is no admin is answered with the error of a failed
/// authentication, a request that cannot be made sense of with the error of
/// an unknown request, and the removal of the only admin with the error of a
/// failed authentication; none of them changes anything. Adding and removing
/// are answered with the state 2 alone, listing with the pairings.
pub open spec fn pairings_outcome(before: IpTransportView, session: int, body: Seq<u8>) -> (
    IpTransportView,
    Seq<u8>,
    Seq<u64>,
) {
    if !is_admin_session(before.sessions[session].state, before.pairings) {
        (before, state_response(2, Some(AUTHENTICATION)), Seq::empty())
    } else {
        match parsed(body) {
            None => (before, state_response(2, Some(UNKNOWN)), Seq::empty()),
            Some(PairingsRequestView::Add { id, ltpk, admin }) => (
                IpTransportView {
                    config: bumped(before.config),
                    pairings: with_pairing(before.pairings, PairingView { id, ltpk, admin }),
                    ..before
                },
                state_response(2, None),
                Seq::empty(),
            ),
            Some(PairingsRequestView::Remove { id }) => if only_admin(
                before.pairings,
                place_of(before.pairings, id),
            ) {
                (before, state_response(2, Some(AUTHENTICATION)), Seq::empty())
            } else {
                (
                    IpTransportView {
                        config: bumped(before.config),
                        pairings: without_pairing(before.pairings, id),
                        sessions: without_controller(
                            before.sessions,
                            before.sessions.len() as int,
                            id,
                        ),
                        ..before
                    },
                    state_response(2, None),
                    sessions_of(before.sessions, before.sessions.len() as int, id),
                )
            },
            Some(PairingsRequestView::List) => (
                before,
                list_response(before.pairings),
                Seq::empty(),
            ),
        }
    }
}

impl IpTransport {
    /// Answers `POST /pairings` for the session in the given place. The
    /// route needs an encrypted session; for any other the request is
    /// refused with the HTTP status 470 and nothing changes. Returns the
    /// answer and the ids of the sessions that were closed because their
    /// controller was removed.
    pub fn pairings(&mut self, session: usize, body: &[u8]) -> (result: Result<
        (Vec<u8>, Vec<u64>),
        Error,
    >)
        requires
            session < old(self)@.sessions.len(),
            old(self)@.config.configuration_number < u64::MAX,
        ensures
            final(self).sessions.fresh_id() == old(self).sessions.fresh_id(),
            if !(old(self)@.sessions[session as int].state is Encrypted) {
                &&& result == Err::<(Vec<u8>, Vec<u64>), _>(
                    Error::HttpStatus(CONNECTION_AUTHORIZATION_REQUIRED),
                )
                &&& final(self)@ == old(self)@
            } else {
                let outcome = pairings_outcome(old(self)@, session as int, body@);
                &&& result is Ok
                &&& final(self)@ == outcome.0
                &&& result->Ok_0.0@ == outcome.1
                &&& result->Ok_0.1@ == outcome.2
            },
    {
        match check_admission(Route::Pairings, self.sessions.get(session).get_state(), &self.pairings) {
            Ok(()) => {},
            Err(Error::PairingStatus(code)) => {
                return Ok((respond_state(2, Some(code)), Vec::new()));
            },
            Err(e) => {
                return Err(e);
            },
        }
        let request = match pairings::parse(body) {
            Some(request) => request,
            None => {
                return Ok((respond_state(2, Some(UNKNOWN)), Vec::new()));
            },
        };
        match request {
            PairingsRequest::Add { id, ltpk, admin } => {
                match self.add_pairing(session, id, ltpk, admin) {
                    Ok(()) => Ok((respond_state(2, None), Vec::new())),
                    Err(_) => Ok((respond_state(2, Some(UNKNOWN)), Vec::new())),
                }
            },
            PairingsRequest::Remove { id } => match self.remove_pairing(session, id.as_str()) {
                Ok(closed) => Ok((respond_state(2, None), closed)),
                Err(_) => Ok((respond_state(2, Some(AUTHENTICATION)), Vec::new())),
            },
            PairingsRequest::List => match self.list_pairings(session) {
                Ok(listed) => Ok((pairings::respond_list(&listed), Vec::new())),
                Err(_) => Ok((respond_state(2, Some(UNKNOWN)), Vec::new())),
            },
        }
    }
}

/// Every change of the pairings is counted once: after a pairing was added
/// or removed at the request of an admin, or a controller was paired by
/// pair-setup, the configuration number is greater by exactly one.
pub proof fn lemma_pairing_changes_are_counted(
    before: IpTransportView,
    session: int,
    body: Seq<u8>,
    outcome: SetupOutcome,
)
    requires
        before.config.configuration_number < u64::MAX,
    ensures
        bumped(before.config).configuration_number == before.config.configuration_number + 1,
        outcome.controller is Some ==> after_setup(
            before,
            session,
            outcome,
        ).config.configuration_number == before.config.configuration_number + 1,
        outcome.controller is None ==> after_setup(before, session, outcome).config
            == before.config,
        ({
            let after = pairings_outcome(before, session, body);
            let changed = is_admin_session(before.sessions[session].state, before.pairings) && (
            parsed(body) matches Some(PairingsRequestView::Add { .. }) || (parsed(
                body,
            ) matches Some(PairingsRequestView::Remove { id }) && !only_admin(
                before.pairings,
                place_of(before.pairings, id),
            )));
            &&& changed ==> after.0.config.configuration_number
                == before.config.configuration_number + 1
            &&& !changed ==> after.0 == before
        }),
{
}

/// The number of seconds of inactivity after which the context of a pairing
/// exchange expires.
pub const PAIRING_TIMEOUT: u64 = 10;

/// Whether the pairing exchange of a session has expired: the session is in
/// pair-setup or in pair-verify, and nothing has happened on it for more
/// than ten seconds.
pub open spec fn expired(state: SessionStateView, idle_seconds: u64) -> bool {
    (state is InPairSetup || state is InPairVerify) && idle_seconds > PAIRING_TIMEOUT
}

/// The server after the pairing exchange of the session in the given place
/// was looked at, of which the last step was taken so many seconds ago: an
/// exchange that has expired is ended, and nothing is agreed on the session.
pub open spec fn after_expiry(before: IpTransportView, session: int, idle_seconds: u64) -> IpTransportView {
    if expired(before.sessions[session].state, idle_seconds) {
        IpTransportView {
            setup: pair_setup::ended(before.setup, before.sessions[session].id),
            sessions: before.sessions.update(
                session,
                SessionView { state: SessionStateView::Unpaired, ..before.sessions[session] },
            ),
            ..before
        }
    } else {
        before
    }
}

impl IpTransport {
    /// Ends the pairing exchange of the session in the given place if it has
    /// expired, given the number of seconds since its last step. Says
    /// whether it has.
    pub fn expire_pairing(&mut self, session: usize, idle_seconds: u64) -> (ended: bool)
        requires
            session < old(self)@.sessions.len(),
        ensures
            final(self).sessions.fresh_id() == old(self).sessions.fresh_id(),
            ended == expired(old(self)@.sessions[session as int].state, idle_seconds),
            final(self)@ == after_expiry(old(self)@, session as int, idle_seconds),
    {
        let pairing = match self.sessions.get(session).get_state() {
            SessionState::InPairSetup { .. } => true,
            SessionState::InPairVerify { .. } => true,
            _ => false,
        };
        if !pairing || idle_seconds <= PAIRING_TIMEOUT {
            return false;
        }
        let id = self.sessions.get(session).get_id();
        self.sessions.set_state(session, SessionState::Unpaired);
        match self.setup.session {
            Some(in_setup) => {
                if in_setup == id {
                    self.setup.session = None;
                }
            },
            None => {},
        }
        true
    }
}

} // verus!
