//! The body of a write request: from the JSON document to its objects.

use vstd::prelude::*;
use crate::error::Error;
use crate::json::{array_view, lemma_array_view, member, JsonValue, JsonView};
use crate::transport::http::{
    write_objects_view, CharacteristicResponseBody, WriteObject, WriteObjectView,
};

verus! {

/// The id that a member gives: an integer that fits in 64 bits.
pub open spec fn id_of(value: Option<JsonView>) -> Option<u64> {
    match value {
        Some(JsonView::Integer(i)) => if 0 <= i <= u64::MAX {
            Some(i as u64)
        } else {
            None
        },
        _ => None,
    }
}

/// The flag that an optional member gives. A member that is absent or null
/// gives none; one that is no boolean is an error.
pub open spec fn flag_of(value: Option<JsonView>) -> Result<Option<bool>, ()> {
    match value {
        None => Ok(None),
        Some(JsonView::Null) => Ok(None),
        Some(JsonView::Bool(b)) => Ok(Some(b)),
        _ => Err(()),
    }
}

/// The text that an optional member gives. A member that is absent or null
/// gives none; one that is no string is an error.
pub open spec fn text_of(value: Option<JsonView>) -> Result<Option<Seq<char>>, ()> {
    match value {
        None => Ok(None),
        Some(JsonView::Null) => Ok(None),
        Some(JsonView::String(s)) => Ok(Some(s)),
        _ => Err(()),
    }
}

/// The value that an optional member gives: the member itself, unless it is
/// absent or null.
pub open spec fn value_of(value: Option<JsonView>) -> Option<JsonView> {
    match value {
        None => None,
        Some(JsonView::Null) => None,
        Some(v) => Some(v),
    }
}

/// The write object that a JSON value denotes: an object with the members
/// `aid` and `iid` and, as far as they are there, `value`, `ev`, `authData`,
/// `remote` and `r`. Other members are passed over.
pub open spec fn write_object_of(json: JsonView) -> Option<WriteObjectView> {
    match json {
        JsonView::Object(members) => {
            let aid = id_of(member(members, "aid"@));
            let iid = id_of(member(members, "iid"@));
            let ev = flag_of(member(members, "ev"@));
            let auth_data = text_of(member(members, "authData"@));
            let remote = flag_of(member(members, "remote"@));
            let r = flag_of(member(members, "r"@));
            if aid is Some && iid is Some && ev is Ok && auth_data is Ok && remote is Ok && r is Ok {
                Some(
                    WriteObjectView {
                        iid: iid->0,
                        aid: aid->0,
                        ev: ev->Ok_0,
                        value: value_of(member(members, "value"@)),
                        auth_data: auth_data->Ok_0,
                        remote: remote->Ok_0,
                        r: r->Ok_0,
                    },
                )
            } else {
                None
            }
        },
        _ => None,
    }
}

/// Whether every item denotes a write object.
pub open spec fn all_write_objects(items: Seq<JsonView>) -> bool {
    forall|i: int| 0 <= i < items.len() ==> write_object_of(#[trigger] items[i]) is Some
}

/// The write objects that the body of a write request lists: those of the
/// array under `characteristics`, if every item of it denotes one.
pub open spec fn write_body_of(json: JsonView) -> Option<Seq<WriteObjectView>> {
    match json {
        JsonView::Object(members) => match member(members, "characteristics"@) {
            Some(JsonView::Array(items)) => if all_write_objects(items) {
                Some(Seq::new(items.len(), |i: int| write_object_of(items[i])->0))
            } else {
                None
            },
            _ => None,
        },
        _ => None,
    }
}

fn read_id(value: Option<&JsonValue>) -> (id: Option<u64>)
    ensures
        id == id_of(
            match value {
                Some(v) => Some(v@),
                None => None,
            },
        ),
{
    match value {
        Some(JsonValue::Integer(i)) => if 0 <= *i && *i <= 0xffff_ffff_ffff_ffff {
            Some(*i as u64)
        } else {
            None
        },
        _ => None,
    }
}

fn read_flag(value: Option<&JsonValue>) -> (flag: Result<Option<bool>, ()>)
    ensures
        flag == flag_of(
            match value {
                Some(v) => Some(v@),
                None => None,
            },
        ),
{
    match value {
        None => Ok(None),
        Some(JsonValue::Null) => Ok(None),
        Some(JsonValue::Bool(b)) => Ok(Some(*b)),
        _ => Err(()),
    }
}

fn read_text(value: Option<&JsonValue>) -> (text: Result<Option<String>, ()>)
    ensures
        match text {
            Ok(Some(t)) => text_of(
                match value {
                    Some(v) => Some(v@),
                    None => None,
                },
            ) == Ok::<_, ()>(Some(t@)),
            Ok(None) => text_of(
                match value {
                    Some(v) => Some(v@),
                    None => None,
                },
            ) == Ok::<Option<Seq<char>>, ()>(None),
            Err(_) => text_of(
                match value {
                    Some(v) => Some(v@),
                    None => None,
                },
            ) is Err,
        },
{
    match value {
        None => Ok(None),
        Some(JsonValue::Null) => Ok(None),
        Some(JsonValue::String(s)) => Ok(Some(s.clone())),
        _ => Err(()),
    }
}

fn read_value(value: Option<&JsonValue>) -> (copy: Option<JsonValue>)
    ensures
        (match copy {
            Some(c) => Some(c@),
            None => None,
        }) == value_of(
            match value {
                Some(v) => Some(v@),
                None => None,
            },
        ),
{
    match value {
        None => None,
        Some(JsonValue::Null) => None,
        Some(v) => Some(v.clone()),
    }
}

/// Reads one write object.
pub fn parse_write_object(json: &JsonValue) -> (object: Option<WriteObject>)
    ensures
        match object {
            Some(o) => write_object_of(json@) == Some(o@),
            None => write_object_of(json@) is None,
        },
{
    if !matches!(json, JsonValue::Object(_)) {
        return None;
    }
    let aid = read_id(json.get("aid"));
    let iid = read_id(json.get("iid"));
    let ev = read_flag(json.get("ev"));
    let auth_data = read_text(json.get("authData"));
    let remote = read_flag(json.get("remote"));
    let r = read_flag(json.get("r"));
    let value = read_value(json.get("value"));
    match (aid, iid, ev, auth_data, remote, r) {
        (Some(aid), Some(iid), Ok(ev), Ok(auth_data), Ok(remote), Ok(r)) => Some(
            WriteObject { iid, aid, ev, value, auth_data, remote, r },
        ),
        _ => None,
    }
}

/// Reads the body of a write request. A document of another shape is a
/// protocol error.
pub fn parse_write_body(json: &JsonValue) -> (result: Result<
    CharacteristicResponseBody<WriteObject>,
    Error,
>)
    ensures
        match result {
            Ok(body) => write_body_of(json@) == Some(write_objects_view(body.characteristics@)),
            Err(e) => write_body_of(json@) is None && e == Error::Protocol,
        },
{
    let items = match json.get("characteristics") {
        Some(JsonValue::Array(items)) => items,
        _ => {
            return Err(Error::Protocol);
        },
    };
    proof {
        lemma_array_view(*items);
    }
    let ghost model = array_view(items@);
    let mut characteristics: Vec<WriteObject> = Vec::new();
    let mut i: usize = 0;
    while i < items.len()
        invariant
            0 <= i <= items@.len(),
            model == array_view(items@),
            json@ is Object,
            member(json@->Object_0, "characteristics"@) == Some(JsonView::Array(model)),
            characteristics@.len() == i,
            forall|j: int|
                0 <= j < i ==> write_object_of(#[trigger] model[j]) == Some(characteristics@[j]@),
        decreases items@.len() - i,
    {
        assert(model[i as int] == items@[i as int]@);
        match parse_write_object(&items[i]) {
            Some(object) => {
                characteristics.push(object);
            },
            None => {
                return Err(Error::Protocol);
            },
        }
        i += 1;
    }
    assert(write_objects_view(characteristics@) =~= Seq::new(
        model.len(),
        |i: int| write_object_of(model[i])->0,
    ));
    Ok(CharacteristicResponseBody { characteristics })
}

} // verus!
