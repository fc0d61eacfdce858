//! The handlers of `GET /characteristics` and `PUT /characteristics`.

use vstd::prelude::*;
use crate::accessory::AccessoryView;
use crate::db::{
    characteristic, knows, read_response, write_outcome, AccessoryList, AccessoryListView,
};
use crate::error::Error;
use crate::event::EventView;
use crate::json::JsonValue;
use crate::text::{decimal_u64, parse_u64, same_text, split, split_text, strings_view};
use crate::transport::http::request::{parse_write_body, write_body_of};
use crate::transport::http::server::EventSubscriptions;
use crate::transport::http::uri::{form_pairs, pairs_view, parse_query, query_of, uri_query};
use crate::transport::http::{
    read_answer_view, read_objects_view, write_answer_view, write_objects_view,
    CharacteristicResponseBody, JsonResponse, ReadResponseObject, ReadResponseView, Status,
    WriteObject, WriteObjectView, WriteResponseObject, BAD_REQUEST, MULTI_STATUS, NO_CONTENT, OK,
};

verus! {

/// The value of the last pair with the given name.
pub open spec fn lookup(pairs: Seq<(Seq<char>, Seq<char>)>, name: Seq<char>) -> Option<Seq<char>>
    decreases pairs.len(),
{
    if pairs.len() == 0 {
        None
    } else if pairs.last().0 == name {
        Some(pairs.last().1)
    } else {
        lookup(pairs.drop_last(), name)
    }
}

/// Whether the query sets the flag of the given name: its value is `1`.
pub open spec fn flag(pairs: Seq<(Seq<char>, Seq<char>)>, name: Seq<char>) -> bool {
    lookup(pairs, name) == Some("1"@)
}

/// The four read flags of a query: `meta`, `perms`, `type` and `ev`.
pub open spec fn flags_of(pairs: Seq<(Seq<char>, Seq<char>)>) -> (bool, bool, bool, bool) {
    (flag(pairs, "meta"@), flag(pairs, "perms"@), flag(pairs, "type"@), flag(pairs, "ev"@))
}

/// The value of the last pair with the given name.
fn find<'a>(pairs: &'a Vec<(String, String)>, name: &str) -> (value: Option<&'a String>)
    ensures
        match value {
            Some(v) => lookup(pairs_view(pairs@), name@) == Some(v@),
            None => lookup(pairs_view(pairs@), name@) is None,
        },
{
    let ghost model = pairs_view(pairs@);
    let mut value: Option<&'a String> = None;
    let mut i: usize = 0;
    assert(model.subrange(0, 0) =~= Seq::empty());
    while i < pairs.len()
        invariant
            0 <= i <= pairs@.len(),
            model == pairs_view(pairs@),
            match value {
                Some(v) => lookup(model.subrange(0, i as int), name@) == Some(v@),
                None => lookup(model.subrange(0, i as int), name@) is None,
            },
        decreases pairs@.len() - i,
    {
        proof {
            let longer = model.subrange(0, i + 1);
            assert(longer.drop_last() =~= model.subrange(0, i as int));
            assert(longer.last() == (pairs@[i as int].0@, pairs@[i as int].1@));
        }
        if same_text(pairs[i].0.as_str(), name) {
            value = Some(&pairs[i].1);
        }
        i += 1;
    }
    assert(model.subrange(0, pairs@.len() as int) =~= model);
    value
}

/// Whether the flag of the given name is set.
fn has_flag(flags: &Vec<(String, String)>, name: &str) -> (set: bool)
    ensures
        set == flag(pairs_view(flags@), name@),
{
    match find(flags, name) {
        Some(v) => same_text(v.as_str(), "1"),
        None => false,
    }
}

/// The four read flags of a query, in the order `meta`, `perms`, `type`,
/// `ev`. A flag is set where the last pair of its name has the value `1`.
pub fn check_flags(flags: &Vec<(String, String)>) -> (set: (bool, bool, bool, bool))
    ensures
        set == flags_of(pairs_view(flags@)),
{
    (
        has_flag(flags, "meta"),
        has_flag(flags, "perms"),
        has_flag(flags, "type"),
        has_flag(flags, "ev"),
    )
}

/// The accessory id and instance id that one id of a read request names:
/// two decimal numbers with a dot between them. Another number of parts is
/// a bad request, a part that is no number a protocol error.
pub open spec fn parse_id(id: Seq<char>) -> Result<(u64, u64), Error> {
    let parts = split(id, '.');
    if parts.len() != 2 {
        Err(Error::HttpStatus(BAD_REQUEST))
    } else {
        match (decimal_u64(parts[0]), decimal_u64(parts[1])) {
            (Some(aid), Some(iid)) => Ok((aid, iid)),
            _ => Err(Error::Protocol),
        }
    }
}

/// What the read of one pair of ids answers: the answer of the
/// characteristic, or the status of a failed communication where the list
/// holds no such characteristic.
pub open spec fn read_object(
    accessories: Seq<AccessoryView>,
    aid: u64,
    iid: u64,
    flags: (bool, bool, bool, bool),
) -> ReadResponseView {
    if knows(accessories, aid, iid) {
        read_response(
            characteristic(accessories, aid, iid),
            aid,
            iid,
            flags.0,
            flags.1,
            flags.2,
            flags.3,
        )
    } else {
        ReadResponseView::bare(aid, iid, Status::ServiceCommunicationFailure.spec_code())
    }
}

/// The answers to the ids of a read request, in their order; or the error
/// of the first id that names no pair of numbers.
pub open spec fn read_all(
    accessories: Seq<AccessoryView>,
    ids: Seq<Seq<char>>,
    flags: (bool, bool, bool, bool),
) -> Result<Seq<ReadResponseView>, Error>
    decreases ids.len(),
{
    if ids.len() == 0 {
        Ok(Seq::empty())
    } else {
        match read_all(accessories, ids.drop_last(), flags) {
            Err(e) => Err(e),
            Ok(objects) => match parse_id(ids.last()) {
                Err(e) => Err(e),
                Ok((aid, iid)) => Ok(objects.push(read_object(accessories, aid, iid, flags))),
            },
        }
    }
}

/// Whether one of the answers reports a failure.
pub open spec fn some_failed(objects: Seq<ReadResponseView>) -> bool {
    exists|i: int| 0 <= i < objects.len() && (#[trigger] objects[i]).status != Some(0i32)
}

/// The answers without their status fields.
pub open spec fn without_status(objects: Seq<ReadResponseView>) -> Seq<ReadResponseView> {
    Seq::new(objects.len(), |i: int| ReadResponseView { status: None, ..objects[i] })
}

/// The answer to a read request with the given query pairs: a bad request
/// where no `id` is given; else the answers to the ids, with the status 207
/// and their status fields where one of them failed, with the status 200 and
/// without status fields where none did.
pub open spec fn read_answer(
    accessories: Seq<AccessoryView>,
    pairs: Seq<(Seq<char>, Seq<char>)>,
) -> Result<(u16, Option<Seq<ReadResponseView>>), Error> {
    match lookup(pairs, "id"@) {
        None => Err(Error::HttpStatus(BAD_REQUEST)),
        Some(ids) => match read_all(accessories, split(ids, ','), flags_of(pairs)) {
            Err(e) => Err(e),
            Ok(objects) => if some_failed(objects) {
                Ok((MULTI_STATUS, Some(objects)))
            } else {
                Ok((OK, Some(without_status(objects))))
            },
        },
    }
}

/// Reads the pair of ids that one id of a read request names.
fn read_id(id: &str) -> (pair: Result<(u64, u64), Error>)
    ensures
        pair == parse_id(id@),
{
    let parts = split_text(id, '.');
    assert(parts@.len() == strings_view(parts@).len());
    if parts.len() != 2 {
        return Err(Error::HttpStatus(BAD_REQUEST));
    }
    assert(strings_view(parts@)[0] == parts@[0]@);
    assert(strings_view(parts@)[1] == parts@[1]@);
    let aid = match parse_u64(parts[0].as_str()) {
        Some(aid) => aid,
        None => {
            return Err(Error::Protocol);
        },
    };
    let iid = match parse_u64(parts[1].as_str()) {
        Some(iid) => iid,
        None => {
            return Err(Error::Protocol);
        },
    };
    Ok((aid, iid))
}

/// Reads the characteristics that the ids name, in their order, and says
/// whether one of the reads failed.
fn read_ids(ids: &Vec<String>, accessories: &AccessoryList, flags: (bool, bool, bool, bool)) -> (result:
    Result<(Vec<ReadResponseObject>, bool), Error>)
    ensures
        match result {
            Ok((objects, some_err)) => {
                &&& read_all(accessories@.accessories, strings_view(ids@), flags) == Ok::<
                    _,
                    Error,
                >(read_objects_view(objects@))
                &&& some_err == some_failed(read_objects_view(objects@))
            },
            Err(e) => read_all(accessories@.accessories, strings_view(ids@), flags) == Err::<
                Seq<ReadResponseView>,
                _,
            >(e),
        },
{
    let ghost list = accessories@.accessories;
    let ghost names = strings_view(ids@);
    let mut characteristics: Vec<ReadResponseObject> = Vec::new();
    let mut some_err = false;
    let mut i: usize = 0;
    assert(names.subrange(0, 0) =~= Seq::empty());
    assert(read_objects_view(characteristics@) =~= Seq::empty());
    while i < ids.len()
        invariant
            0 <= i <= ids@.len(),
            names == strings_view(ids@),
            list == accessories@.accessories,
            read_all(list, names.subrange(0, i as int), flags) == Ok::<_, Error>(
                read_objects_view(characteristics@),
            ),
            some_err == some_failed(read_objects_view(characteristics@)),
        decreases ids@.len() - i,
    {
        let ghost before = read_objects_view(characteristics@);
        proof {
            let longer = names.subrange(0, i + 1);
            assert(longer.drop_last() =~= names.subrange(0, i as int));
            assert(longer.last() == ids@[i as int]@);
        }
        let (aid, iid) = match read_id(ids[i].as_str()) {
            Ok(pair) => pair,
            Err(e) => {
                proof {
                    lemma_read_all_fails(list, names, i as int + 1, flags);
                }
                return Err(e);
            },
        };
        let object = read_one(accessories, aid, iid, flags);
        let failed = match object.status {
            Some(status) => status != 0,
            None => true,
        };
        proof {
            lemma_some_failed_push(before, object@);
            assert(read_objects_view(characteristics@.push(object)) =~= before.push(object@));
        }
        if failed {
            some_err = true;
        }
        characteristics.push(object);
        i += 1;
    }
    assert(names.subrange(0, ids@.len() as int) =~= names);
    Ok((characteristics, some_err))
}

/// Reads the characteristic with the given ids, or answers for it where
/// the list holds none.
fn read_one(accessories: &AccessoryList, aid: u64, iid: u64, flags: (bool, bool, bool, bool)) -> (object:
    ReadResponseObject)
    ensures
        object@ == read_object(accessories@.accessories, aid, iid, flags),
{
    match accessories.read_characteristic(aid, iid, flags.0, flags.1, flags.2, flags.3) {
        Ok(object) => object,
        Err(_) => ReadResponseObject::bare(aid, iid, Status::ServiceCommunicationFailure.code()),
    }
}

/// One more answer has failed among them exactly if it failed itself or
/// one before it did.
pub proof fn lemma_some_failed_push(objects: Seq<ReadResponseView>, object: ReadResponseView)
    ensures
        some_failed(objects.push(object)) == (some_failed(objects) || object.status != Some(0i32)),
{
    let after = objects.push(object);
    if object.status != Some(0i32) {
        assert(after[objects.len() as int].status != Some(0i32));
    }
    if some_failed(objects) {
        let k = choose|k: int| 0 <= k < objects.len() && (#[trigger] objects[k]).status != Some(0i32);
        assert(after[k].status != Some(0i32));
    }
    if some_failed(after) {
        let k = choose|k: int| 0 <= k < after.len() && (#[trigger] after[k]).status != Some(0i32);
        if k < objects.len() {
            assert(objects[k].status != Some(0i32));
        }
    }
}

/// Takes the status field out of every answer.
fn strip_status(characteristics: &mut Vec<ReadResponseObject>)
    ensures
        read_objects_view(final(characteristics)@) == without_status(
            read_objects_view(old(characteristics)@),
        ),
{
    let ghost with_status = read_objects_view(characteristics@);
    let mut k: usize = 0;
    while k < characteristics.len()
        invariant
            0 <= k <= characteristics@.len(),
            characteristics@.len() == with_status.len(),
            forall|j: int|
                0 <= j < k ==> (#[trigger] characteristics@[j])@ == (ReadResponseView {
                    status: None,
                    ..with_status[j]
                }),
            forall|j: int|
                k <= j < characteristics@.len() ==> (#[trigger] characteristics@[j])@
                    == with_status[j],
        decreases characteristics@.len() - k,
    {
        let object = &mut characteristics[k];
        object.status = None;
        k += 1;
    }
    assert(read_objects_view(characteristics@) =~= without_status(with_status));
}

/// Answers a read request whose query lists the given pairs.
pub fn read_characteristics(queries: &Vec<(String, String)>, accessories: &AccessoryList) -> (result:
    Result<JsonResponse<ReadResponseObject>, Error>)
    ensures
        match result {
            Ok(response) => read_answer(accessories@.accessories, pairs_view(queries@)) == Ok::<
                _,
                Error,
            >(read_answer_view(response)),
            Err(e) => read_answer(accessories@.accessories, pairs_view(queries@)) == Err::<
                (u16, Option<Seq<ReadResponseView>>),
                _,
            >(e),
        },
{
    let flags = check_flags(queries);
    let q_id = match find(queries, "id") {
        Some(q_id) => q_id,
        None => {
            return Err(Error::HttpStatus(BAD_REQUEST));
        },
    };
    let ids = split_text(q_id.as_str(), ',');
    let (mut characteristics, some_err) = read_ids(&ids, accessories, flags)?;
    if some_err {
        return Ok(
            JsonResponse {
                status: MULTI_STATUS,
                body: Some(CharacteristicResponseBody { characteristics }),
            },
        );
    }
    strip_status(&mut characteristics);
    Ok(JsonResponse { status: OK, body: Some(CharacteristicResponseBody { characteristics }) })
}

/// Once the ids up to some point fail, the whole list fails with the same
/// error.
pub proof fn lemma_read_all_fails(
    accessories: Seq<AccessoryView>,
    ids: Seq<Seq<char>>,
    k: int,
    flags: (bool, bool, bool, bool),
)
    requires
        0 <= k <= ids.len(),
        read_all(accessories, ids.subrange(0, k), flags) is Err,
    ensures
        read_all(accessories, ids, flags) == read_all(accessories, ids.subrange(0, k), flags),
    decreases ids.len() - k,
{
    if k == ids.len() {
        assert(ids.subrange(0, k) =~= ids);
    } else {
        let longer = ids.subrange(0, k + 1);
        assert(longer.drop_last() =~= ids.subrange(0, k));
        lemma_read_all_fails(accessories, ids, k + 1, flags);
    }
}

/// The answer to a read request with the given query, if it has one: a bad
/// request without a body where it has none.
pub open spec fn get_answer(accessories: Seq<AccessoryView>, query: Option<Seq<char>>) -> Result<
    (u16, Option<Seq<ReadResponseView>>),
    Error,
> {
    match query {
        Some(q) => read_answer(accessories, form_pairs(q)),
        None => Ok((BAD_REQUEST, None)),
    }
}

/// The handler of `GET /characteristics`.
pub struct GetCharacteristics;

impl GetCharacteristics {
    /// The handler.
    pub fn new() -> GetCharacteristics {
        GetCharacteristics
    }

    /// Answers a read request: for each id of the query the answer of the
    /// characteristic that it names.
    pub fn handle(&mut self, uri: &hyper::Uri, accessories: &AccessoryList) -> (result: Result<
        JsonResponse<ReadResponseObject>,
        Error,
    >)
        ensures
            match result {
                Ok(response) => get_answer(accessories@.accessories, uri_query(*uri)) == Ok::<
                    _,
                    Error,
                >(read_answer_view(response)),
                Err(e) => get_answer(accessories@.accessories, uri_query(*uri)) == Err::<
                    (u16, Option<Seq<ReadResponseView>>),
                    _,
                >(e),
            },
    {
        if let Some(query) = query_of(uri) {
            let queries = parse_query(query);
            read_characteristics(&queries, accessories)
        } else {
            Ok(JsonResponse { status: BAD_REQUEST, body: None })
        }
    }
}

/// What a write request works on: the accessories with their pending events,
/// and the subscriptions of the session.
pub struct WriteState {
    pub accessories: Seq<AccessoryView>,
    pub events: Seq<EventView>,
    pub subscriptions: Set<(u64, u64)>,
}

/// The state after one write object, and the answer to it. An object that
/// addresses no characteristic of the list is answered with the status of a
/// failed communication. Only an object that succeeds changes the state.
pub open spec fn apply_one(state: WriteState, w: WriteObjectView) -> (WriteState, WriteResponseObject) {
    let outcome = write_outcome(
        AccessoryListView { accessories: state.accessories, events: state.events },
        state.subscriptions,
        w,
    );
    (
        WriteState {
            accessories: outcome.0.accessories,
            events: outcome.0.events,
            subscriptions: outcome.1,
        },
        match outcome.2 {
            Ok(answer) => answer,
            Err(_) => WriteResponseObject {
                iid: w.iid,
                aid: w.aid,
                status: Status::ServiceCommunicationFailure.spec_code(),
            },
        },
    )
}

/// The state after the write objects were applied one after the other, and
/// the answers to them in their order.
pub open spec fn apply_all(state: WriteState, objects: Seq<WriteObjectView>) -> (
    WriteState,
    Seq<WriteResponseObject>,
)
    decreases objects.len(),
{
    if objects.len() == 0 {
        (state, Seq::empty())
    } else {
        let (before, answers) = apply_all(state, objects.drop_last());
        let (after, answer) = apply_one(before, objects.last());
        (after, answers.push(answer))
    }
}

/// Whether one of the answers reports a failure.
pub open spec fn some_write_failed(answers: Seq<WriteResponseObject>) -> bool {
    exists|i: int| 0 <= i < answers.len() && (#[trigger] answers[i]).status != 0
}

/// Whether every answer reports a failure.
pub open spec fn all_writes_failed(answers: Seq<WriteResponseObject>) -> bool {
    forall|i: int| 0 <= i < answers.len() ==> (#[trigger] answers[i]).status != 0
}

/// The answer to a write request, given the answers to its objects: a bad
/// request with the answers where all of them failed, as they do where
/// there is none; the status 207 with the answers where some failed; the
/// status 204 without a body where none did.
pub open spec fn write_answer(answers: Seq<WriteResponseObject>) -> (
    u16,
    Option<Seq<WriteResponseObject>>,
) {
    if all_writes_failed(answers) {
        (BAD_REQUEST, Some(answers))
    } else if some_write_failed(answers) {
        (MULTI_STATUS, Some(answers))
    } else {
        (NO_CONTENT, None)
    }
}

/// The state that a list and the subscriptions of a session make.
pub open spec fn write_state(list: AccessoryListView, subscriptions: Set<(u64, u64)>) -> WriteState {
    WriteState { accessories: list.accessories, events: list.events, subscriptions }
}

/// Applies the objects of a write request one after the other, for the
/// session whose subscriptions are given, and answers the request.
pub fn write_characteristics(
    write_body: CharacteristicResponseBody<WriteObject>,
    event_subscriptions: &mut EventSubscriptions,
    accessories: &mut AccessoryList,
) -> (response: JsonResponse<WriteResponseObject>)
    ensures
        ({
            let (state, answers) = apply_all(
                write_state(old(accessories)@, old(event_subscriptions)@),
                write_objects_view(write_body.characteristics@),
            );
            &&& write_state(final(accessories)@, final(event_subscriptions)@) == state
            &&& write_answer_view(response) == write_answer(answers)
        }),
{
    let ghost start = write_state(accessories@, event_subscriptions@);
    let ghost objects = write_objects_view(write_body.characteristics@);
    let mut characteristics: Vec<WriteResponseObject> = Vec::new();
    let mut some_err = false;
    let mut all_err = true;
    assert(objects.subrange(0, 0) =~= Seq::empty());
    for c in it: write_body.characteristics
        invariant
            objects == write_objects_view(it.seq()),
            apply_all(start, objects.subrange(0, it.index() as int)) == (
                write_state(accessories@, event_subscriptions@),
                characteristics@,
            ),
            some_err == some_write_failed(characteristics@),
            all_err == all_writes_failed(characteristics@),
    {
        let iid = c.iid;
        let aid = c.aid;
        let ghost w = c@;
        let ghost before = characteristics@;
        proof {
            let longer = objects.subrange(0, it.index() + 1);
            assert(longer.drop_last() =~= objects.subrange(0, it.index() as int));
            assert(longer.last() == w);
        }
        let res_object = match accessories.write_characteristic(c, event_subscriptions) {
            Ok(res_object) => res_object,
            Err(_) => WriteResponseObject {
                iid,
                aid,
                status: Status::ServiceCommunicationFailure.code(),
            },
        };
        if res_object.status != 0 {
            some_err = true;
        } else {
            all_err = false;
        }
        characteristics.push(res_object);
        proof {
            lemma_write_failures_push(before, res_object);
        }
    }
    assert(objects.subrange(0, objects.len() as int) =~= objects);
    if all_err {
        JsonResponse {
            status: BAD_REQUEST,
            body: Some(CharacteristicResponseBody { characteristics }),
        }
    } else if some_err {
        JsonResponse {
            status: MULTI_STATUS,
            body: Some(CharacteristicResponseBody { characteristics }),
        }
    } else {
        JsonResponse { status: NO_CONTENT, body: None }
    }
}

/// The handler of `PUT /characteristics`.
pub struct UpdateCharacteristics {}

impl UpdateCharacteristics {
    /// The handler.
    pub fn new() -> UpdateCharacteristics {
        UpdateCharacteristics {  }
    }

    /// Answers a write request with the given JSON body: applies its objects
    /// one after the other, for the session whose subscriptions are given. A
    /// body of another shape is a protocol error, and nothing changes.
    pub fn handle(
        &mut self,
        body: &JsonValue,
        event_subscriptions: &mut EventSubscriptions,
        accessories: &mut AccessoryList,
    ) -> (result: Result<JsonResponse<WriteResponseObject>, Error>)
        ensures
            match result {
                Ok(response) => {
                    let (state, answers) = apply_all(
                        write_state(old(accessories)@, old(event_subscriptions)@),
                        write_body_of(body@)->0,
                    );
                    &&& write_body_of(body@) is Some
                    &&& write_state(final(accessories)@, final(event_subscriptions)@) == state
                    &&& write_answer_view(response) == write_answer(answers)
                },
                Err(e) => {
                    &&& write_body_of(body@) is None
                    &&& e == Error::Protocol
                    &&& final(accessories)@ == old(accessories)@
                    &&& final(event_subscriptions)@ == old(event_subscriptions)@
                },
            },
    {
        let write_body = parse_write_body(body)?;
        Ok(write_characteristics(write_body, event_subscriptions, accessories))
    }
}

/// How one more answer bears on whether some and whether all answers
/// failed.
pub proof fn lemma_write_failures_push(answers: Seq<WriteResponseObject>, answer: WriteResponseObject)
    ensures
        some_write_failed(answers.push(answer)) == (some_write_failed(answers) || answer.status != 0),
        all_writes_failed(answers.push(answer)) == (all_writes_failed(answers) && answer.status != 0),
{
    let after = answers.push(answer);
    assert(after[answers.len() as int] == answer);
    if some_write_failed(answers) {
        let k = choose|k: int| 0 <= k < answers.len() && (#[trigger] answers[k]).status != 0;
        assert(after[k].status != 0);
    }
    if some_write_failed(after) {
        let k = choose|k: int| 0 <= k < after.len() && (#[trigger] after[k]).status != 0;
        if k < answers.len() {
            assert(answers[k].status != 0);
        }
    }
    if all_writes_failed(after) {
        assert forall|k: int| 0 <= k < answers.len() implies (#[trigger] answers[k]).status != 0 by {
            assert(after[k].status != 0);
        }
    }
}

} // verus!
