//! The HAP-HTTP layer: status codes and the objects of the characteristics
//! requests and responses.

pub mod handler;
pub mod message;
pub mod request;
pub mod server;
pub mod uri;

use vstd::prelude::*;
use crate::characteristic::value::{json_of_value, Format, Value, ValueView};
use crate::characteristic::{perms_json, perms_to_json, value_option_view, Perm, Unit};
use crate::json::{
    array_view, object_view, optional, push_member, push_optional, JsonValue, JsonView,
};

verus! {

/// A HAP status, as it is embedded per characteristic in a response.
#[derive(Clone, Copy, Debug, PartialEq, Eq, Structural)]
pub enum Status {
    Success,
    InsufficientPrivileges,
    ServiceCommunicationFailure,
    ResourceBusy,
    WriteToReadOnlyCharacteristic,
    ReadFromWriteOnlyCharacteristic,
    NotificationNotSupported,
    OutOfResource,
    OperationTimedOut,
    ResourceDoesNotExist,
    InvalidValueInRequest,
    InsufficientAuthorization,
}

impl Status {
    /// The number of the status: zero for success, else a negative code.
    pub open spec fn spec_code(self) -> i32 {
        match self {
            Status::Success => 0,
            Status::InsufficientPrivileges => (-70401) as i32,
            Status::ServiceCommunicationFailure => (-70402) as i32,
            Status::ResourceBusy => (-70403) as i32,
            Status::WriteToReadOnlyCharacteristic => (-70404) as i32,
            Status::ReadFromWriteOnlyCharacteristic => (-70405) as i32,
            Status::NotificationNotSupported => (-70406) as i32,
            Status::OutOfResource => (-70407) as i32,
            Status::OperationTimedOut => (-70408) as i32,
            Status::ResourceDoesNotExist => (-70409) as i32,
            Status::InvalidValueInRequest => (-70410) as i32,
            Status::InsufficientAuthorization => (-70411) as i32,
        }
    }

    /// The number of the status.
    #[verifier::when_used_as_spec(spec_code)]
    pub fn code(self) -> (code: i32)
        ensures
            code == self.spec_code(),
    {
        match self {
            Status::Success => 0,
            Status::InsufficientPrivileges => -70401,
            Status::ServiceCommunicationFailure => -70402,
            Status::ResourceBusy => -70403,
            Status::WriteToReadOnlyCharacteristic => -70404,
            Status::ReadFromWriteOnlyCharacteristic => -70405,
            Status::NotificationNotSupported => -70406,
            Status::OutOfResource => -70407,
            Status::OperationTimedOut => -70408,
            Status::ResourceDoesNotExist => -70409,
            Status::InvalidValueInRequest => -70410,
            Status::InsufficientAuthorization => -70411,
        }
    }
}

/// The HTTP status codes that the handlers answer with.
pub const OK: u16 = 200;

pub const NO_CONTENT: u16 = 204;

pub const MULTI_STATUS: u16 = 207;

pub const BAD_REQUEST: u16 = 400;

pub const NOT_FOUND: u16 = 404;

/// The body of a characteristics request or response: a list of objects.
#[derive(Debug)]
pub struct CharacteristicResponseBody<T> {
    pub characteristics: Vec<T>,
}

/// What a read of one characteristic answers. The value is left out on
/// error, the other optional fields where the request did not ask for them.
#[derive(Debug)]
pub struct ReadResponseObject {
    pub iid: u64,
    pub aid: u64,
    pub hap_type: Option<String>,
    pub format: Option<Format>,
    pub perms: Option<Vec<Perm>>,
    pub ev: Option<bool>,
    pub value: Option<Value>,
    pub unit: Option<Unit>,
    pub max_value: Option<Value>,
    pub min_value: Option<Value>,
    pub step_value: Option<Value>,
    pub max_len: Option<u16>,
    pub status: Option<i32>,
}

/// The mathematical model of a [`ReadResponseObject`].
pub struct ReadResponseView {
    pub iid: u64,
    pub aid: u64,
    pub hap_type: Option<Seq<char>>,
    pub format: Option<Format>,
    pub perms: Option<Seq<Perm>>,
    pub ev: Option<bool>,
    pub value: Option<ValueView>,
    pub unit: Option<Unit>,
    pub max_value: Option<ValueView>,
    pub min_value: Option<ValueView>,
    pub step_value: Option<ValueView>,
    pub max_len: Option<u16>,
    pub status: Option<i32>,
}

impl ReadResponseView {
    /// The answer for a characteristic of which only the ids and a status
    /// are given.
    pub open spec fn bare(aid: u64, iid: u64, status: i32) -> ReadResponseView {
        ReadResponseView {
            iid,
            aid,
            hap_type: None,
            format: None,
            perms: None,
            ev: None,
            value: None,
            unit: None,
            max_value: None,
            min_value: None,
            step_value: None,
            max_len: None,
            status: Some(status),
        }
    }
}

impl View for ReadResponseObject {
    type V = ReadResponseView;

    open spec fn view(&self) -> ReadResponseView {
        ReadResponseView {
            iid: self.iid,
            aid: self.aid,
            hap_type: match self.hap_type {
                Some(s) => Some(s@),
                None => None,
            },
            format: self.format,
            perms: match self.perms {
                Some(p) => Some(p@),
                None => None,
            },
            ev: self.ev,
            value: value_option_view(self.value),
            unit: self.unit,
            max_value: value_option_view(self.max_value),
            min_value: value_option_view(self.min_value),
            step_value: value_option_view(self.step_value),
            max_len: self.max_len,
            status: self.status,
        }
    }
}

impl ReadResponseObject {
    /// The answer that gives only the ids and a status.
    pub fn bare(aid: u64, iid: u64, status: i32) -> (object: ReadResponseObject)
        ensures
            object@ == ReadResponseView::bare(aid, iid, status),
    {
        ReadResponseObject {
            iid,
            aid,
            hap_type: None,
            format: None,
            perms: None,
            ev: None,
            value: None,
            unit: None,
            max_value: None,
            min_value: None,
            step_value: None,
            max_len: None,
            status: Some(status),
        }
    }
}

/// One object of a write request: the characteristic addressed, and what is
/// asked of it.
#[derive(Debug)]
pub struct WriteObject {
    pub iid: u64,
    pub aid: u64,
    pub ev: Option<bool>,
    pub value: Option<JsonValue>,
    pub auth_data: Option<String>,
    pub remote: Option<bool>,
    pub r: Option<bool>,
}

/// The mathematical model of a [`WriteObject`].
pub struct WriteObjectView {
    pub iid: u64,
    pub aid: u64,
    pub ev: Option<bool>,
    pub value: Option<JsonView>,
    pub auth_data: Option<Seq<char>>,
    pub remote: Option<bool>,
    pub r: Option<bool>,
}

impl View for WriteObject {
    type V = WriteObjectView;

    open spec fn view(&self) -> WriteObjectView {
        WriteObjectView {
            iid: self.iid,
            aid: self.aid,
            ev: self.ev,
            value: match self.value {
                Some(v) => Some(v@),
                None => None,
            },
            auth_data: match self.auth_data {
                Some(s) => Some(s@),
                None => None,
            },
            remote: self.remote,
            r: self.r,
        }
    }
}

/// What a write to one characteristic answers.
#[derive(Clone, Copy, Debug, PartialEq, Eq, Structural)]
pub struct WriteResponseObject {
    pub iid: u64,
    pub aid: u64,
    pub status: i32,
}

/// What a handler answers: the HTTP status code and, where the answer has
/// one, the body.
#[derive(Debug)]
pub struct JsonResponse<T> {
    pub status: u16,
    pub body: Option<CharacteristicResponseBody<T>>,
}

/// The models of a list of read answers.
pub open spec fn read_objects_view(objects: Seq<ReadResponseObject>) -> Seq<ReadResponseView> {
    Seq::new(objects.len(), |i: int| objects[i]@)
}

/// The models of a list of write objects.
pub open spec fn write_objects_view(objects: Seq<WriteObject>) -> Seq<WriteObjectView> {
    Seq::new(objects.len(), |i: int| objects[i]@)
}

/// The model of the answer to a read request: the status code and the
/// objects of the body.
pub open spec fn read_answer_view(response: JsonResponse<ReadResponseObject>) -> (
    u16,
    Option<Seq<ReadResponseView>>,
) {
    (
        response.status,
        match response.body {
            Some(body) => Some(read_objects_view(body.characteristics@)),
            None => None,
        },
    )
}

/// The model of the answer to a write request: the status code and the
/// objects of the body.
pub open spec fn write_answer_view(response: JsonResponse<WriteResponseObject>) -> (
    u16,
    Option<Seq<WriteResponseObject>>,
) {
    (
        response.status,
        match response.body {
            Some(body) => Some(body.characteristics@),
            None => None,
        },
    )
}

/// The JSON string of an optional text.
pub open spec fn text_json(text: Option<Seq<char>>) -> Option<JsonView> {
    match text {
        Some(t) => Some(JsonView::String(t)),
        None => None,
    }
}

/// The JSON form of an optional value.
pub open spec fn value_json(value: Option<ValueView>) -> Option<JsonView> {
    match value {
        Some(v) => Some(json_of_value(v)),
        None => None,
    }
}

/// The JSON object of the answer to a read: the accessory id and instance
/// id, then those of the other fields that are there, under their HAP names.
pub open spec fn read_object_json(o: ReadResponseView) -> JsonView {
    JsonView::Object(
        seq![("aid"@, JsonView::Integer(o.aid as int)), ("iid"@, JsonView::Integer(o.iid as int))]
            + optional("type"@, text_json(o.hap_type)) + optional(
            "format"@,
            match o.format {
                Some(f) => Some(JsonView::String(f.spec_name())),
                None => None,
            },
        ) + optional(
            "perms"@,
            match o.perms {
                Some(p) => Some(perms_json(p)),
                None => None,
            },
        ) + optional(
            "ev"@,
            match o.ev {
                Some(b) => Some(JsonView::Bool(b)),
                None => None,
            },
        ) + optional("value"@, value_json(o.value)) + optional(
            "unit"@,
            match o.unit {
                Some(u) => Some(JsonView::String(u.spec_name())),
                None => None,
            },
        ) + optional("maxValue"@, value_json(o.max_value)) + optional(
            "minValue"@,
            value_json(o.min_value),
        ) + optional("minStep"@, value_json(o.step_value)) + optional(
            "maxLen"@,
            match o.max_len {
                Some(n) => Some(JsonView::Integer(n as int)),
                None => None,
            },
        ) + optional(
            "status"@,
            match o.status {
                Some(n) => Some(JsonView::Integer(n as int)),
                None => None,
            },
        ),
    )
}

/// The JSON form of an optional value.
fn value_to_json(value: &Option<Value>) -> (json: Option<JsonValue>)
    ensures
        (match json {
            Some(j) => Some(j@),
            None => None,
        }) == value_json(value_option_view(*value)),
{
    match value {
        Some(v) => Some(v.to_json()),
        None => None,
    }
}

impl ReadResponseObject {
    /// The JSON object of the answer.
    pub fn to_json(&self) -> (json: JsonValue)
        ensures
            json@ == read_object_json(self@),
    {
        let mut members: Vec<(String, JsonValue)> = Vec::new();
        assert(object_view(members@) =~= Seq::empty());
        push_member(&mut members, "aid", JsonValue::unsigned(self.aid));
        push_member(&mut members, "iid", JsonValue::unsigned(self.iid));
        assert(object_view(members@) =~= seq![
            ("aid"@, JsonView::Integer(self.aid as int)),
            ("iid"@, JsonView::Integer(self.iid as int)),
        ]);
        push_optional(
            &mut members,
            "type",
            match &self.hap_type {
                Some(t) => Some(JsonValue::text(t.as_str())),
                None => None,
            },
        );
        push_optional(
            &mut members,
            "format",
            match self.format {
                Some(f) => Some(JsonValue::text(f.name())),
                None => None,
            },
        );
        push_optional(
            &mut members,
            "perms",
            match &self.perms {
                Some(p) => Some(perms_to_json(p)),
                None => None,
            },
        );
        push_optional(
            &mut members,
            "ev",
            match self.ev {
                Some(b) => Some(JsonValue::Bool(b)),
                None => None,
            },
        );
        push_optional(&mut members, "value", value_to_json(&self.value));
        push_optional(
            &mut members,
            "unit",
            match self.unit {
                Some(u) => Some(JsonValue::text(u.name())),
                None => None,
            },
        );
        push_optional(&mut members, "maxValue", value_to_json(&self.max_value));
        push_optional(&mut members, "minValue", value_to_json(&self.min_value));
        push_optional(&mut members, "minStep", value_to_json(&self.step_value));
        push_optional(
            &mut members,
            "maxLen",
            match self.max_len {
                Some(n) => Some(JsonValue::Integer(n as i128)),
                None => None,
            },
        );
        push_optional(
            &mut members,
            "status",
            match self.status {
                Some(n) => Some(JsonValue::Integer(n as i128)),
                None => None,
            },
        );
        JsonValue::object(members)
    }
}

/// The JSON object of the answer to a write: the accessory id, the instance
/// id and the status.
pub open spec fn write_object_json(o: WriteResponseObject) -> JsonView {
    JsonView::Object(
        seq![
            ("aid"@, JsonView::Integer(o.aid as int)),
            ("iid"@, JsonView::Integer(o.iid as int)),
            ("status"@, JsonView::Integer(o.status as int)),
        ],
    )
}

impl WriteResponseObject {
    /// The JSON object of the answer.
    pub fn to_json(&self) -> (json: JsonValue)
        ensures
            json@ == write_object_json(*self),
    {
        let mut members: Vec<(String, JsonValue)> = Vec::new();
        assert(object_view(members@) =~= Seq::empty());
        push_member(&mut members, "aid", JsonValue::unsigned(self.aid));
        push_member(&mut members, "iid", JsonValue::unsigned(self.iid));
        push_member(&mut members, "status", JsonValue::Integer(self.status as i128));
        assert(object_view(members@) =~= write_object_json(*self)->Object_0);
        JsonValue::object(members)
    }
}

/// The JSON body that lists the given objects under `characteristics`.
pub open spec fn body_json(objects: Seq<JsonView>) -> JsonView {
    JsonView::Object(seq![("characteristics"@, JsonView::Array(objects))])
}

/// The JSON body that lists the given objects under `characteristics`.
pub fn body_to_json(objects: Vec<JsonValue>) -> (json: JsonValue)
    ensures
        json@ == body_json(array_view(objects@)),
{
    let mut members: Vec<(String, JsonValue)> = Vec::new();
    assert(object_view(members@) =~= Seq::empty());
    push_member(&mut members, "characteristics", JsonValue::array(objects));
    assert(object_view(members@) =~= body_json(array_view(objects@))->Object_0);
    JsonValue::object(members)
}

/// The JSON objects of the answers to reads.
pub open spec fn read_objects_json(objects: Seq<ReadResponseView>) -> Seq<JsonView> {
    Seq::new(objects.len(), |i: int| read_object_json(objects[i]))
}

/// The JSON objects of the answers to writes.
pub open spec fn write_objects_json(objects: Seq<WriteResponseObject>) -> Seq<JsonView> {
    Seq::new(objects.len(), |i: int| write_object_json(objects[i]))
}

impl CharacteristicResponseBody<ReadResponseObject> {
    /// The JSON body of the answers to reads.
    pub fn to_json(&self) -> (json: JsonValue)
        ensures
            json@ == body_json(read_objects_json(read_objects_view(self.characteristics@))),
    {
        let mut objects: Vec<JsonValue> = Vec::new();
        let mut i: usize = 0;
        while i < self.characteristics.len()
            invariant
                0 <= i <= self.characteristics@.len(),
                objects@.len() == i,
                forall|j: int|
                    0 <= j < i ==> (#[trigger] objects@[j])@ == read_object_json(
                        self.characteristics@[j]@,
                    ),
            decreases self.characteristics@.len() - i,
        {
            objects.push(self.characteristics[i].to_json());
            i += 1;
        }
        assert(array_view(objects@) =~= read_objects_json(
            read_objects_view(self.characteristics@),
        ));
        body_to_json(objects)
    }
}

impl CharacteristicResponseBody<WriteResponseObject> {
    /// The JSON body of the answers to writes.
    pub fn to_json(&self) -> (json: JsonValue)
        ensures
            json@ == body_json(write_objects_json(self.characteristics@)),
    {
        let mut objects: Vec<JsonValue> = Vec::new();
        let mut i: usize = 0;
        while i < self.characteristics.len()
            invariant
                0 <= i <= self.characteristics@.len(),
                objects@.len() == i,
                forall|j: int|
                    0 <= j < i ==> (#[trigger] objects@[j])@ == write_object_json(
                        self.characteristics@[j],
                    ),
            decreases self.characteristics@.len() - i,
        {
            objects.push(self.characteristics[i].to_json());
            i += 1;
        }
        assert(array_view(objects@) =~= write_objects_json(self.characteristics@));
        body_to_json(objects)
    }
}

} // verus!
