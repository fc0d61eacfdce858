//! The accessory list: the published accessories, addressed by accessory id
//! and instance id.

use vstd::prelude::*;
use crate::accessory::{
    accessory_json, instance_count, instances_before, lemma_instances_before_monotone, numbered,
    same_but_ids, Accessory, AccessoryView,
};
use crate::characteristic::generated::identify;
use crate::characteristic::value::{json_of_value, value_of_json, Value};
use crate::characteristic::{Characteristic, CharacteristicView, Perm};
use crate::error::Error;
use crate::event::{Event, EventEmitter, EventView};
use crate::hap_type::shortened_uuid;
use crate::json::{array_view, object_view, push_member, JsonValue, JsonView};
use crate::transport::http::server::EventSubscriptions;
use crate::transport::http::{
    ReadResponseObject, ReadResponseView, Status, WriteObject, WriteObjectView,
    WriteResponseObject, NOT_FOUND,
};

verus! {

/// The models of a list of accessories.
pub open spec fn accessories_view(accessories: Seq<Accessory>) -> Seq<AccessoryView> {
    Seq::new(accessories.len(), |i: int| accessories[i]@)
}

/// Whether the accessories are published as the server holds them: the
/// accessory ids count from 1 in the order of the list, every accessory is
/// well formed, and its instance ids are dense from 1 in the order of the
/// walk through its services.
pub open spec fn valid(accessories: Seq<AccessoryView>) -> bool {
    forall|a: int|
        0 <= a < accessories.len() ==> {
            &&& (#[trigger] accessories[a]).id == a + 1
            &&& accessories[a].well_formed()
            &&& numbered(accessories[a].services, accessories[a].id)
        }
}

/// Whether the characteristic in the place `(a, s, c)`, that is in
/// accessory `a`, service `s`, has the given accessory id and instance id.
pub open spec fn found_at(
    accessories: Seq<AccessoryView>,
    aid: u64,
    iid: u64,
    a: int,
    s: int,
    c: int,
) -> bool {
    &&& 0 <= a < accessories.len()
    &&& accessories[a].id == aid
    &&& accessories[a].has_place(s, c)
    &&& accessories[a].at(s, c).id == iid
}

/// Whether the list holds a characteristic with the given ids.
pub open spec fn knows(accessories: Seq<AccessoryView>, aid: u64, iid: u64) -> bool {
    exists|a: int, s: int, c: int| #[trigger] found_at(accessories, aid, iid, a, s, c)
}

/// The place of the characteristic with the given ids.
pub open spec fn place_of(accessories: Seq<AccessoryView>, aid: u64, iid: u64) -> (int, int, int) {
    choose|p: (int, int, int)| #[trigger] found_at(accessories, aid, iid, p.0, p.1, p.2)
}

/// The characteristic with the given ids.
pub open spec fn characteristic(
    accessories: Seq<AccessoryView>,
    aid: u64,
    iid: u64,
) -> CharacteristicView {
    let p = place_of(accessories, aid, iid);
    accessories[p.0].at(p.1, p.2)
}

/// The list with another characteristic in the place of the one with the
/// given ids.
pub open spec fn with_characteristic(
    accessories: Seq<AccessoryView>,
    aid: u64,
    iid: u64,
    characteristic: CharacteristicView,
) -> Seq<AccessoryView> {
    let p = place_of(accessories, aid, iid);
    accessories.update(p.0, accessories[p.0].with_characteristic(p.1, p.2, characteristic))
}

/// In one accessory with numbered services, two places with the same
/// instance id are the same place.
pub proof fn lemma_instance_ids_differ(
    accessory: AccessoryView,
    s1: int,
    c1: int,
    s2: int,
    c2: int,
)
    requires
        numbered(accessory.services, accessory.id),
        accessory.has_place(s1, c1),
        accessory.has_place(s2, c2),
        accessory.at(s1, c1).id == accessory.at(s2, c2).id,
    ensures
        s1 == s2,
        c1 == c2,
{
    let services = accessory.services;
    assert(services[s1].numbered_from(1 + instances_before(services, s1), accessory.id));
    assert(services[s2].numbered_from(1 + instances_before(services, s2), accessory.id));
    if s1 < s2 {
        lemma_instances_before_monotone(services, s1 + 1, s2);
        assert(instances_before(services, s1 + 1) == instances_before(services, s1)
            + services[s1].instances());
    } else if s2 < s1 {
        lemma_instances_before_monotone(services, s2 + 1, s1);
        assert(instances_before(services, s2 + 1) == instances_before(services, s2)
            + services[s2].instances());
    }
}

/// In a valid list a pair of accessory id and instance id names at most one
/// characteristic.
pub proof fn lemma_place_unique(
    accessories: Seq<AccessoryView>,
    aid: u64,
    iid: u64,
    a1: int,
    s1: int,
    c1: int,
    a2: int,
    s2: int,
    c2: int,
)
    requires
        valid(accessories),
        found_at(accessories, aid, iid, a1, s1, c1),
        found_at(accessories, aid, iid, a2, s2, c2),
    ensures
        a1 == a2,
        s1 == s2,
        c1 == c2,
{
    lemma_instance_ids_differ(accessories[a1], s1, c1, s2, c2);
}

/// In a valid list the characteristic found in a place is the one that its
/// ids name.
pub proof fn lemma_found(
    accessories: Seq<AccessoryView>,
    aid: u64,
    iid: u64,
    a: int,
    s: int,
    c: int,
)
    requires
        valid(accessories),
        found_at(accessories, aid, iid, a, s, c),
    ensures
        knows(accessories, aid, iid),
        place_of(accessories, aid, iid) == (a, s, c),
        characteristic(accessories, aid, iid) == accessories[a].at(s, c),
{
    let witness = (a, s, c);
    assert(found_at(accessories, aid, iid, witness.0, witness.1, witness.2));
    let p = place_of(accessories, aid, iid);
    lemma_place_unique(accessories, aid, iid, a, s, c, p.0, p.1, p.2);
}

/// What a read of the characteristic answers when it is asked for the
/// optional fields that the flags name. A characteristic without the
/// permission to be read answers with that status alone.
pub open spec fn read_response(
    c: CharacteristicView,
    aid: u64,
    iid: u64,
    meta: bool,
    perms: bool,
    hap_type: bool,
    ev: bool,
) -> ReadResponseView {
    if !c.has_perm(Perm::PairedRead) {
        ReadResponseView::bare(aid, iid, Status::ReadFromWriteOnlyCharacteristic.spec_code())
    } else {
        ReadResponseView {
            iid,
            aid,
            hap_type: if hap_type {
                Some(shortened_uuid(c.hap_type))
            } else {
                None
            },
            format: if meta {
                Some(c.format())
            } else {
                None
            },
            perms: if perms {
                Some(c.perms)
            } else {
                None
            },
            ev: if ev {
                Some(c.event_notifications == Some(true))
            } else {
                None
            },
            value: Some(c.value),
            unit: if meta {
                c.unit
            } else {
                None
            },
            max_value: if meta {
                c.max_value
            } else {
                None
            },
            min_value: if meta {
                c.min_value
            } else {
                None
            },
            step_value: if meta {
                c.step_value
            } else {
                None
            },
            max_len: if meta {
                c.max_len
            } else {
                None
            },
            status: Some(0),
        }
    }
}

/// Reads one characteristic.
pub fn read(
    c: &Characteristic,
    aid: u64,
    iid: u64,
    meta: bool,
    perms: bool,
    hap_type: bool,
    ev: bool,
) -> (object: ReadResponseObject)
    ensures
        object@ == read_response(c@, aid, iid, meta, perms, hap_type, ev),
{
    if !c.has_perm(Perm::PairedRead) {
        return ReadResponseObject::bare(aid, iid, Status::ReadFromWriteOnlyCharacteristic.code());
    }
    let mut object = ReadResponseObject::bare(aid, iid, 0);
    object.value = Some(c.get_value());
    if meta {
        object.format = Some(c.get_format());
        object.unit = c.get_unit();
        object.max_value = c.get_max_value();
        object.min_value = c.get_min_value();
        object.step_value = c.get_step_value();
        object.max_len = c.get_max_len();
    }
    if perms {
        object.perms = Some(c.get_perms().clone());
    }
    if hap_type {
        object.hap_type = Some(c.get_type().to_string());
    }
    if ev {
        object.ev = Some(
            match c.get_event_notifications() {
                Some(on) => on,
                None => false,
            },
        );
    }
    object
}

/// The published accessories and the emitter of their events.
#[derive(Debug)]
pub struct AccessoryList {
    accessories: Vec<Accessory>,
    emitter: EventEmitter,
}

/// The mathematical model of an [`AccessoryList`].
pub struct AccessoryListView {
    pub accessories: Seq<AccessoryView>,
    pub events: Seq<EventView>,
}

impl View for AccessoryList {
    type V = AccessoryListView;

    closed spec fn view(&self) -> AccessoryListView {
        AccessoryListView {
            accessories: accessories_view(self.accessories@),
            events: self.emitter@,
        }
    }
}

impl AccessoryList {
    #[verifier::type_invariant]
    spec fn inv(self) -> bool {
        valid(accessories_view(self.accessories@))
    }

    /// An empty list with no pending event.
    pub fn new() -> (list: AccessoryList)
        ensures
            list@.accessories == Seq::<AccessoryView>::empty(),
            list@.events == Seq::<EventView>::empty(),
    {
        let list = AccessoryList { accessories: Vec::new(), emitter: EventEmitter::new() };
        assert(list@.accessories =~= Seq::<AccessoryView>::empty());
        list
    }

    /// The number of accessories. The list is valid at all times.
    pub fn len(&self) -> (n: usize)
        ensures
            n == self@.accessories.len(),
            valid(self@.accessories),
    {
        proof {
            use_type_invariant(self);
        }
        self.accessories.len()
    }

    /// The place of the characteristic with the given ids.
    fn find(&self, aid: u64, iid: u64) -> (place: Option<(usize, usize, usize)>)
        ensures
            match place {
                Some((a, s, c)) => found_at(
                    self@.accessories,
                    aid,
                    iid,
                    a as int,
                    s as int,
                    c as int,
                ),
                None => !knows(self@.accessories, aid, iid),
            },
    {
        proof {
            use_type_invariant(self);
        }
        if aid == 0 || aid > self.accessories.len() as u64 {
            assert forall|a: int, s: int, c: int|
                !#[trigger] found_at(self@.accessories, aid, iid, a, s, c) by {}
            return None;
        }
        let a: usize = (aid - 1) as usize;
        assert(self@.accessories[a as int] == self.accessories@[a as int]@);
        match self.accessories[a].find_characteristic(iid) {
            Some((s, c)) => Some((a, s, c)),
            None => {
                assert forall|a2: int, s: int, c: int|
                    !#[trigger] found_at(self@.accessories, aid, iid, a2, s, c) by {}
                None
            },
        }
    }

    /// Reads the characteristic with the given ids. The flags ask for the
    /// optional fields of the answer. An unknown pair of ids is answered
    /// with the HTTP status 404.
    pub fn read_characteristic(
        &self,
        aid: u64,
        iid: u64,
        meta: bool,
        perms: bool,
        hap_type: bool,
        ev: bool,
    ) -> (result: Result<ReadResponseObject, Error>)
        ensures
            valid(self@.accessories),
            match result {
                Ok(object) => {
                    &&& knows(self@.accessories, aid, iid)
                    &&& object@ == read_response(
                        characteristic(self@.accessories, aid, iid),
                        aid,
                        iid,
                        meta,
                        perms,
                        hap_type,
                        ev,
                    )
                },
                Err(e) => !knows(self@.accessories, aid, iid) && e == Error::HttpStatus(NOT_FOUND),
            },
    {
        proof {
            use_type_invariant(self);
        }
        match self.find(aid, iid) {
            Some((a, s, c)) => {
                proof {
                    lemma_found(self@.accessories, aid, iid, a as int, s as int, c as int);
                    assert(self@.accessories[a as int] == self.accessories@[a as int]@);
                }
                Ok(read(self.accessories[a].get_characteristic(s, c), aid, iid, meta, perms, hap_type, ev))
            },
            None => Err(Error::HttpStatus(NOT_FOUND)),
        }
    }
}

/// Numbering keeps an accessory well formed.
pub proof fn lemma_well_formed_same_but_ids(before: AccessoryView, after: AccessoryView)
    requires
        before.well_formed(),
        same_but_ids(after.services, before.services),
    ensures
        after.well_formed(),
{
    assert forall|k: int| 0 <= k < after.services.len() implies ((
    #[trigger] after.services[k]).hap_type == crate::service::accessory_information::UUID@ <==> k
        == 0) by {
        assert(after.services[k].same_but_ids(before.services[k]));
    }
    assert forall|j: int, k: int|
        0 <= j < after.services.len() && 0 <= k < after.services.len() && (
        #[trigger] after.services[j]).primary && (#[trigger] after.services[k]).primary implies j
        == k by {
        assert(after.services[j].same_but_ids(before.services[j]));
        assert(after.services[k].same_but_ids(before.services[k]));
    }
}

/// A valid list stays valid when one characteristic is replaced by one with
/// the same ids.
pub proof fn lemma_valid_with_characteristic(
    accessories: Seq<AccessoryView>,
    a: int,
    s: int,
    c: int,
    replacement: CharacteristicView,
)
    requires
        valid(accessories),
        0 <= a < accessories.len(),
        accessories[a].has_place(s, c),
        replacement.id == accessories[a].at(s, c).id,
        replacement.accessory_id == accessories[a].at(s, c).accessory_id,
    ensures
        valid(accessories.update(a, accessories[a].with_characteristic(s, c, replacement))),
{
    let before = accessories[a];
    let after = before.with_characteristic(s, c, replacement);
    assert forall|k: int| 0 <= k < after.services.len() implies (
    #[trigger] after.services[k]).numbered_from(
        1 + instances_before(after.services, k),
        after.id,
    ) by {
        crate::accessory::lemma_instances_before_same_lengths(after.services, before.services, k);
        assert(before.services[k].numbered_from(
            1 + instances_before(before.services, k),
            before.id,
        ));
    }
    assert(after.well_formed()) by {
        assert forall|k: int| 0 <= k < after.services.len() implies ((
        #[trigger] after.services[k]).hap_type == crate::service::accessory_information::UUID@
            <==> k == 0) by {
            assert(after.services[k].hap_type == before.services[k].hap_type);
        }
        assert forall|j: int, k: int|
            0 <= j < after.services.len() && 0 <= k < after.services.len() && (
            #[trigger] after.services[j]).primary && (
            #[trigger] after.services[k]).primary implies j == k by {
            assert(after.services[j].primary == before.services[j].primary);
            assert(after.services[k].primary == before.services[k].primary);
        }
    }
}

/// The value that the write object asks the characteristic to take, where
/// its JSON value denotes one of the characteristic's format.
pub open spec fn requested_value(c: CharacteristicView, w: WriteObjectView) -> Option<
    crate::characteristic::value::ValueView,
> {
    match w.value {
        Some(json) => value_of_json(c.format(), json),
        None => None,
    }
}

/// The status with which a write object is answered. The checks are made in
/// this order: a value for a characteristic with additional authorization
/// must come with authorization data; a value needs the permission to
/// write, a subscription change the permission for events; the value must
/// be one that the characteristic admits.
pub open spec fn write_status(c: CharacteristicView, w: WriteObjectView) -> Status {
    if w.value is Some && c.has_perm(Perm::AdditionalAuthorization) && w.auth_data is None {
        Status::InsufficientAuthorization
    } else if w.value is Some && !c.has_perm(Perm::PairedWrite) {
        Status::WriteToReadOnlyCharacteristic
    } else if w.ev is Some && !c.has_perm(Perm::Events) {
        Status::NotificationNotSupported
    } else if w.value is Some && !(requested_value(c, w) is Some && c.admits(
        requested_value(c, w)->0,
    )) {
        Status::InvalidValueInRequest
    } else {
        Status::Success
    }
}

/// The characteristic after a write object was applied with success: it
/// holds the requested value, if one was given, and has its event
/// notifications switched as asked, if that was asked.
pub open spec fn written(c: CharacteristicView, w: WriteObjectView) -> CharacteristicView {
    let valued = if w.value is Some {
        c.with_value(requested_value(c, w)->0)
    } else {
        c
    };
    match w.ev {
        Some(on) => CharacteristicView { event_notifications: Some(on), ..valued },
        None => valued,
    }
}

/// The events that a write object emits when it is applied with success:
/// one change event if the requested value differs from the value before.
pub open spec fn emitted(c: CharacteristicView, w: WriteObjectView) -> Seq<EventView> {
    if w.value is Some && requested_value(c, w)->0 != c.value {
        seq![
            EventView::CharacteristicValueChanged {
                aid: w.aid,
                iid: w.iid,
                value: json_of_value(requested_value(c, w)->0),
            },
        ]
    } else {
        Seq::empty()
    }
}

/// The subscriptions of the session after a write object was applied with
/// success.
pub open spec fn subscribed(subscriptions: Set<(u64, u64)>, w: WriteObjectView) -> Set<
    (u64, u64),
> {
    match w.ev {
        Some(true) => subscriptions.insert((w.aid, w.iid)),
        Some(false) => subscriptions.remove((w.aid, w.iid)),
        None => subscriptions,
    }
}

/// What a write object comes to, for a session with the given
/// subscriptions: the list and the subscriptions after it, and the answer.
/// An unknown pair of ids is answered with the HTTP status 404; only a write
/// that succeeds changes anything.
pub open spec fn write_outcome(
    list: AccessoryListView,
    subscriptions: Set<(u64, u64)>,
    w: WriteObjectView,
) -> (AccessoryListView, Set<(u64, u64)>, Result<WriteResponseObject, Error>) {
    if !knows(list.accessories, w.aid, w.iid) {
        (list, subscriptions, Err(Error::HttpStatus(NOT_FOUND)))
    } else {
        let c = characteristic(list.accessories, w.aid, w.iid);
        let status = write_status(c, w);
        let answer = Ok(WriteResponseObject { iid: w.iid, aid: w.aid, status: status.spec_code() });
        if status == Status::Success {
            (
                AccessoryListView {
                    accessories: with_characteristic(list.accessories, w.aid, w.iid, written(c, w)),
                    events: list.events + emitted(c, w),
                },
                subscribed(subscriptions, w),
                answer,
            )
        } else {
            (list, subscriptions, answer)
        }
    }
}

impl AccessoryList {
    /// Publishes an accessory: it gets the next accessory id, counted from
    /// 1, and its instance ids. Returns the accessory id.
    pub fn add(&mut self, accessory: Accessory) -> (aid: u64)
        requires
            accessory@.well_formed(),
            instance_count(accessory@.services) < u64::MAX,
            old(self)@.accessories.len() < usize::MAX,
        ensures
            aid == old(self)@.accessories.len() + 1,
            final(self)@.events == old(self)@.events,
            final(self)@.accessories.len() == old(self)@.accessories.len() + 1,
            final(self)@.accessories.subrange(0, old(self)@.accessories.len() as int) == old(
                self,
            )@.accessories,
            final(self)@.accessories.last().id == aid,
            numbered(final(self)@.accessories.last().services, aid),
            same_but_ids(final(self)@.accessories.last().services, accessory@.services),
            valid(final(self)@.accessories),
    {
        proof {
            use_type_invariant(&*self);
        }
        let ghost given = accessory@;
        let mut accessory = accessory;
        let aid: u64 = self.accessories.len() as u64 + 1;
        accessory.set_id(aid);
        accessory.init_iids(aid);
        proof {
            lemma_well_formed_same_but_ids(given, accessory@);
        }
        let ghost published = accessory@;
        let mut accessories: Vec<Accessory> = Vec::new();
        std::mem::swap(&mut accessories, &mut self.accessories);
        accessories.push(accessory);
        proof {
            assert(accessories_view(accessories@) =~= old(self)@.accessories.push(published));
        }
        self.accessories = accessories;
        proof {
            assert(self@.accessories =~= old(self)@.accessories.push(published));
            assert(self@.accessories.subrange(0, old(self)@.accessories.len() as int) =~= old(
                self,
            )@.accessories);
        }
        aid
    }
}

/// Examines a write object against the characteristic that it addresses:
/// the status with which it is answered and, on success, the value that it
/// asks the characteristic to take.
fn examine(c: &Characteristic, w: &WriteObject) -> (outcome: (Status, Option<Value>))
    ensures
        outcome.0 == write_status(c@, w@),
        outcome.0 == Status::Success ==> crate::characteristic::value_option_view(outcome.1)
            == requested_value(c@, w@),
        outcome.0 == Status::Success && w@.value is None ==> outcome.1 is None,
{
    let has_value = w.value.is_some();
    if has_value && c.has_perm(Perm::AdditionalAuthorization) && w.auth_data.is_none() {
        return (Status::InsufficientAuthorization, None);
    }
    if has_value && !c.has_perm(Perm::PairedWrite) {
        return (Status::WriteToReadOnlyCharacteristic, None);
    }
    if w.ev.is_some() && !c.has_perm(Perm::Events) {
        return (Status::NotificationNotSupported, None);
    }
    match &w.value {
        Some(json) => match Value::from_json(c.get_format(), json) {
            Some(value) => {
                if c.admits(&value) {
                    (Status::Success, Some(value))
                } else {
                    (Status::InvalidValueInRequest, None)
                }
            },
            None => (Status::InvalidValueInRequest, None),
        },
        None => (Status::Success, None),
    }
}

impl AccessoryList {
    /// Applies one write object to the characteristic that it addresses, for
    /// the session whose subscriptions are given.
    ///
    /// An unknown pair of ids is answered with the HTTP status 404. Else the
    /// answer carries the status of the write. On success the characteristic
    /// takes the value, a change event is emitted if the value differs from
    /// the one before, and the subscription is changed as asked. With any
    /// other status nothing changes. The list stays valid.
    pub fn write_characteristic(
        &mut self,
        write_object: WriteObject,
        event_subscriptions: &mut EventSubscriptions,
    ) -> (result: Result<WriteResponseObject, Error>)
        ensures
            valid(old(self)@.accessories),
            valid(final(self)@.accessories),
            (final(self)@, final(event_subscriptions)@, result) == write_outcome(
                old(self)@,
                old(event_subscriptions)@,
                write_object@,
            ),
    {
        proof {
            use_type_invariant(&*self);
        }
        let aid = write_object.aid;
        let iid = write_object.iid;
        let (a, s, c) = match self.find(aid, iid) {
            Some(place) => place,
            None => {
                return Err(Error::HttpStatus(NOT_FOUND));
            },
        };
        let ghost before = self@.accessories;
        let ghost target = before[a as int].at(s as int, c as int);
        proof {
            lemma_found(before, aid, iid, a as int, s as int, c as int);
            assert(before[a as int] == self.accessories@[a as int]@);
        }
        let (status, value) = examine(self.accessories[a].get_characteristic(s, c), &write_object);
        if status != Status::Success {
            return Ok(WriteResponseObject { iid, aid, status: status.code() });
        }
        let mut accessories: Vec<Accessory> = Vec::new();
        std::mem::swap(&mut accessories, &mut self.accessories);
        let mut changed: Option<Event> = None;
        let characteristic = accessories[a].get_mut_characteristic(s, c);
        if let Some(value) = value {
            let json = value.to_json();
            if let Ok(differs) = characteristic.set_value(value) {
                if differs {
                    changed = Some(Event::CharacteristicValueChanged { aid, iid, value: json });
                }
            }
        }
        if let Some(on) = write_object.ev {
            characteristic.set_event_notifications(Some(on));
            if on {
                event_subscriptions.subscribe(aid, iid);
            } else {
                event_subscriptions.unsubscribe(aid, iid);
            }
        }
        proof {
            let after = accessories_view(accessories@);
            let replacement = written(target, write_object@);
            assert(accessories@[a as int]@ == before[a as int].with_characteristic(
                s as int,
                c as int,
                replacement,
            ));
            assert(after =~= before.update(
                a as int,
                before[a as int].with_characteristic(s as int, c as int, replacement),
            ));
            lemma_valid_with_characteristic(before, a as int, s as int, c as int, replacement);
        }
        self.accessories = accessories;
        if let Some(event) = changed {
            let mut emitter = EventEmitter::new();
            std::mem::swap(&mut emitter, &mut self.emitter);
            emitter.emit(event);
            self.emitter = emitter;
        } else {
            assert(self@.events =~= old(self)@.events + emitted(target, write_object@));
        }
        proof {
            let outcome = write_outcome(old(self)@, old(event_subscriptions)@, write_object@);
            assert(self@.accessories == outcome.0.accessories);
            assert(self@.events == outcome.0.events);
            assert(self@ == outcome.0);
            assert(event_subscriptions@ == outcome.1);
        }
        Ok(WriteResponseObject { iid, aid, status: status.code() })
    }
}

/// Every characteristic of a valid list carries the id of its accessory
/// and is the one that a lookup of its own ids finds: what a snapshot lists
/// under a pair of ids is what a read of that pair answers for.
pub proof fn lemma_listed_is_found(accessories: Seq<AccessoryView>, a: int, s: int, c: int)
    requires
        valid(accessories),
        0 <= a < accessories.len(),
        accessories[a].has_place(s, c),
    ensures
        accessories[a].at(s, c).accessory_id == accessories[a].id,
        knows(accessories, accessories[a].id, accessories[a].at(s, c).id),
        characteristic(accessories, accessories[a].id, accessories[a].at(s, c).id)
            == accessories[a].at(s, c),
{
    let accessory = accessories[a];
    assert(accessory.services[s].numbered_from(
        1 + instances_before(accessory.services, s),
        accessory.id,
    ));
    lemma_found(accessories, accessory.id, accessory.at(s, c).id, a, s, c);
}

/// A write object that carries a value for a characteristic without the
/// permission to be written is answered with the status -70404, and so
/// changes nothing. This holds of every object that passes the check of
/// authorization, which is made first.
pub proof fn lemma_write_to_read_only(c: CharacteristicView, w: WriteObjectView)
    requires
        w.value is Some,
        !c.has_perm(Perm::PairedWrite),
        !c.has_perm(Perm::AdditionalAuthorization) || w.auth_data is Some,
    ensures
        write_status(c, w) == Status::WriteToReadOnlyCharacteristic,
        write_status(c, w).spec_code() == -70404,
        write_status(c, w) != Status::Success,
{
}

/// The JSON objects of the accessories.
pub open spec fn accessories_json(accessories: Seq<AccessoryView>) -> Seq<JsonView> {
    Seq::new(accessories.len(), |i: int| accessory_json(accessories[i]))
}

/// The accessory database in JSON: every accessory with its services and
/// their characteristics, in the order of the list.
pub open spec fn database_json(accessories: Seq<AccessoryView>) -> JsonView {
    JsonView::Object(seq![("accessories"@, JsonView::Array(accessories_json(accessories)))])
}

impl AccessoryList {
    /// The accessory database in JSON, as `/accessories` answers with it.
    pub fn snapshot(&self) -> (json: JsonValue)
        ensures
            json@ == database_json(self@.accessories),
            valid(self@.accessories),
    {
        proof {
            use_type_invariant(self);
        }
        let mut items: Vec<JsonValue> = Vec::new();
        let mut i: usize = 0;
        while i < self.accessories.len()
            invariant
                0 <= i <= self.accessories@.len(),
                items@.len() == i,
                forall|j: int|
                    0 <= j < i ==> (#[trigger] items@[j])@ == accessory_json(
                        self.accessories@[j]@,
                    ),
            decreases self.accessories@.len() - i,
        {
            items.push(self.accessories[i].to_json());
            i += 1;
        }
        assert(array_view(items@) =~= accessories_json(self@.accessories));
        let mut members: Vec<(String, JsonValue)> = Vec::new();
        assert(object_view(members@) =~= Seq::empty());
        push_member(&mut members, "accessories", JsonValue::array(items));
        assert(object_view(members@) =~= database_json(self@.accessories)->Object_0);
        JsonValue::object(members)
    }

    /// The pending events.
    pub fn take_events(&mut self) -> (events: Vec<Event>)
        ensures
            crate::event::events_view(events@) == old(self)@.events,
            final(self)@.events == Seq::<EventView>::empty(),
            final(self)@.accessories == old(self)@.accessories,
    {
        proof {
            use_type_invariant(&*self);
        }
        let mut emitter = EventEmitter::new();
        std::mem::swap(&mut emitter, &mut self.emitter);
        emitter.take()
    }
}

/// The place of the first characteristic of the given type, or the number
/// of characteristics where there is none.
pub open spec fn first_of_type(characteristics: Seq<CharacteristicView>, uuid: Seq<char>) -> int
    decreases characteristics.len(),
{
    if characteristics.len() == 0 {
        0
    } else if characteristics[0].hap_type == uuid {
        0
    } else {
        1 + first_of_type(characteristics.drop_first(), uuid)
    }
}

/// The facts that characterise the place of the first characteristic of a
/// type.
pub proof fn lemma_first_of_type(characteristics: Seq<CharacteristicView>, uuid: Seq<char>)
    ensures
        0 <= first_of_type(characteristics, uuid) <= characteristics.len(),
        first_of_type(characteristics, uuid) < characteristics.len()
            ==> characteristics[first_of_type(characteristics, uuid)].hap_type == uuid,
    decreases characteristics.len(),
{
    if characteristics.len() == 0 || characteristics[0].hap_type == uuid {
    } else {
        let rest = characteristics.drop_first();
        lemma_first_of_type(rest, uuid);
        if first_of_type(rest, uuid) < rest.len() {
            assert(characteristics[first_of_type(rest, uuid) + 1] == rest[first_of_type(rest, uuid)]);
        }
    }
}

/// The instance id of the characteristic that identify writes to: the
/// first characteristic of the type Identify in the first service of the
/// first accessory.
pub open spec fn identify_target(accessories: Seq<AccessoryView>) -> Option<u64> {
    if accessories.len() == 0 || accessories[0].services.len() == 0 {
        None
    } else {
        let characteristics = accessories[0].services[0].characteristics;
        let place = first_of_type(characteristics, identify::UUID@);
        if 0 <= place < characteristics.len() {
            Some(characteristics[place].id)
        } else {
            None
        }
    }
}

/// The write object of identify: the value `true` for the characteristic
/// with the given instance id of the accessory 1.
pub open spec fn identify_object(iid: u64) -> WriteObjectView {
    WriteObjectView {
        iid,
        aid: 1,
        ev: None,
        value: Some(JsonView::Bool(true)),
        auth_data: None,
        remote: None,
        r: None,
    }
}

impl AccessoryList {
    /// The instance id of the characteristic that identify writes to.
    fn find_identify(&self) -> (iid: Option<u64>)
        ensures
            iid == identify_target(self@.accessories),
    {
        if self.accessories.len() == 0 {
            return None;
        }
        assert(self@.accessories[0] == self.accessories@[0]@);
        let services = self.accessories[0].get_services();
        if services.len() == 0 {
            return None;
        }
        assert(self@.accessories[0].services[0] == services@[0]@);
        let characteristics = services[0].get_characteristics();
        let ghost model = self@.accessories[0].services[0].characteristics;
        let mut i: usize = 0;
        assert(model.subrange(0, model.len() as int) =~= model);
        while i < characteristics.len()
            invariant
                0 <= i <= characteristics@.len(),
                self@.accessories.len() > 0,
                self@.accessories[0].services.len() > 0,
                model == self@.accessories[0].services[0].characteristics,
                model == crate::service::characteristics_view(characteristics@),
                first_of_type(model, identify::UUID@) == i + first_of_type(
                    model.subrange(i as int, model.len() as int),
                    identify::UUID@,
                ),
            decreases characteristics@.len() - i,
        {
            let ghost rest = model.subrange(i as int, model.len() as int);
            assert(rest[0] == characteristics@[i as int]@);
            assert(rest.drop_first() =~= model.subrange(i + 1, model.len() as int));
            if crate::text::same_text(characteristics[i].get_type().uuid(), identify::UUID) {
                return Some(characteristics[i].get_id());
            }
            i += 1;
        }
        None
    }

    /// Identifies the accessory 1: writes `true` to its Identify
    /// characteristic, as a write request of no session would. Where there
    /// is no such characteristic the answer is the HTTP status 404.
    pub fn identify(&mut self) -> (result: Result<WriteResponseObject, Error>)
        ensures
            valid(final(self)@.accessories),
            identify_target(old(self)@.accessories) is Some ==> result is Ok,
            match identify_target(old(self)@.accessories) {
                None => result == Err::<WriteResponseObject, _>(Error::HttpStatus(NOT_FOUND))
                    && final(self)@ == old(self)@,
                Some(iid) => (final(self)@, Set::<(u64, u64)>::empty(), result) == write_outcome(
                    old(self)@,
                    Set::empty(),
                    identify_object(iid),
                ),
            },
    {
        proof {
            use_type_invariant(&*self);
        }
        let iid = match self.find_identify() {
            Some(iid) => iid,
            None => {
                return Err(Error::HttpStatus(NOT_FOUND));
            },
        };
        proof {
            let characteristics = self@.accessories[0].services[0].characteristics;
            lemma_first_of_type(characteristics, identify::UUID@);
            lemma_listed_is_found(
                self@.accessories,
                0,
                0,
                first_of_type(characteristics, identify::UUID@),
            );
        }
        let write_object = WriteObject {
            iid,
            aid: 1,
            ev: None,
            value: Some(JsonValue::Bool(true)),
            auth_data: None,
            remote: None,
            r: None,
        };
        let mut subscriptions = EventSubscriptions::new();
        self.write_characteristic(write_object, &mut subscriptions)
    }
}

impl AccessoryList {
    /// Publishes an accessory if it can be published: it must be well
    /// formed, and its instance ids and the accessory id must fit. Returns
    /// the accessory id, or `None` where the accessory cannot be published,
    /// and then nothing changes.
    pub fn try_add(&mut self, accessory: Accessory) -> (aid: Option<u64>)
        ensures
            valid(final(self)@.accessories),
            final(self)@.events == old(self)@.events,
            match aid {
                Some(aid) => {
                    &&& accessory@.well_formed()
                    &&& instance_count(accessory@.services) < u64::MAX
                    &&& aid == old(self)@.accessories.len() + 1
                    &&& final(self)@.accessories.len() == old(self)@.accessories.len() + 1
                    &&& final(self)@.accessories.subrange(
                        0,
                        old(self)@.accessories.len() as int,
                    ) == old(self)@.accessories
                    &&& final(self)@.accessories.last().id == aid
                    &&& numbered(final(self)@.accessories.last().services, aid)
                    &&& same_but_ids(final(self)@.accessories.last().services, accessory@.services)
                },
                None => {
                    &&& final(self)@ == old(self)@
                    &&& !accessory@.well_formed() || instance_count(accessory@.services)
                        >= u64::MAX || old(self)@.accessories.len() >= usize::MAX
                },
            },
    {
        proof {
            use_type_invariant(&*self);
        }
        if !accessory.is_well_formed() || accessory.count_instances().is_none()
            || self.accessories.len() == usize::MAX {
            return None;
        }
        Some(self.add(accessory))
    }
}

/// A write object that carries a value for a characteristic of the list
/// which lacks the permission to be written is answered with the status
/// -70404, and leaves the list, its pending events and the subscriptions as
/// they are. This holds of every object that passes the check of
/// authorization, which is made first.
pub proof fn lemma_write_to_read_only_changes_nothing(
    list: AccessoryListView,
    subscriptions: Set<(u64, u64)>,
    w: WriteObjectView,
)
    requires
        knows(list.accessories, w.aid, w.iid),
        w.value is Some,
        !characteristic(list.accessories, w.aid, w.iid).has_perm(Perm::PairedWrite),
        !characteristic(list.accessories, w.aid, w.iid).has_perm(Perm::AdditionalAuthorization)
            || w.auth_data is Some,
    ensures
        write_outcome(list, subscriptions, w) == (
            list,
            subscriptions,
            Ok::<_, Error>(
                WriteResponseObject { iid: w.iid, aid: w.aid, status: (-70404) as i32 },
            ),
        ),
{
    lemma_write_to_read_only(characteristic(list.accessories, w.aid, w.iid), w);
}

} // verus!
