use hap::accessory::{Accessory, Information};
use hap::characteristic::value::{Format, Value};
use hap::characteristic::{Characteristic, Inner, Perm};
use hap::db::AccessoryList;
use hap::error::Error;
use hap::event::Event;
use hap::hap_type::HapType;
use hap::json::JsonValue;
use hap::service::Service;
use hap::transport::http::handler::characteristics::{
    check_flags, read_characteristics, write_characteristics, GetCharacteristics,
    UpdateCharacteristics,
};
use hap::transport::http::request::parse_write_body;
use hap::transport::http::server::EventSubscriptions;
use hap::transport::http::{CharacteristicResponseBody, JsonResponse, ReadResponseObject, WriteObject};

fn to_serde(json: &JsonValue) -> serde_json::Value {
    match json {
        JsonValue::Null => serde_json::Value::Null,
        JsonValue::Bool(b) => serde_json::Value::Bool(*b),
        JsonValue::Integer(i) => {
            if *i >= 0 {
                serde_json::Value::from(*i as u64)
            } else {
                serde_json::Value::from(*i as i64)
            }
        }
        JsonValue::Float(bits) => serde_json::Value::from(f32::from_bits(*bits)),
        JsonValue::String(s) => serde_json::Value::String(s.clone()),
        JsonValue::Array(items) => serde_json::Value::Array(items.iter().map(to_serde).collect()),
        JsonValue::Object(members) => {
            let mut map = serde_json::Map::new();
            for (name, value) in members {
                map.insert(name.clone(), to_serde(value));
            }
            serde_json::Value::Object(map)
        }
    }
}

fn from_serde(json: &serde_json::Value) -> JsonValue {
    match json {
        serde_json::Value::Null => JsonValue::Null,
        serde_json::Value::Bool(b) => JsonValue::Bool(*b),
        serde_json::Value::Number(n) => {
            if let Some(u) = n.as_u64() {
                JsonValue::Integer(u as i128)
            } else if let Some(i) = n.as_i64() {
                JsonValue::Integer(i as i128)
            } else {
                JsonValue::Float((n.as_f64().unwrap() as f32).to_bits())
            }
        }
        serde_json::Value::String(s) => JsonValue::String(s.clone()),
        serde_json::Value::Array(items) => JsonValue::Array(items.iter().map(from_serde).collect()),
        serde_json::Value::Object(map) => {
            JsonValue::Object(map.iter().map(|(k, v)| (k.clone(), from_serde(v))).collect())
        }
    }
}

fn text(json: &JsonValue) -> String {
    let mut out = String::new();
    write_json(json, &mut out);
    out
}

fn write_json(json: &JsonValue, out: &mut String) {
    match json {
        JsonValue::Array(items) => {
            out.push('[');
            for (i, item) in items.iter().enumerate() {
                if i > 0 {
                    out.push(',');
                }
                write_json(item, out);
            }
            out.push(']');
        }
        JsonValue::Object(members) => {
            out.push('{');
            for (i, (name, value)) in members.iter().enumerate() {
                if i > 0 {
                    out.push(',');
                }
                out.push_str(&serde_json::Value::String(name.clone()).to_string());
                out.push(':');
                write_json(value, out);
            }
            out.push('}');
        }
        other => out.push_str(&to_serde(other).to_string()),
    }
}

fn parse(text: &str) -> JsonValue {
    from_serde(&serde_json::from_str::<serde_json::Value>(text).unwrap())
}

fn characteristic(format: Format, perms: Vec<Perm>) -> Characteristic {
    Characteristic::new(Inner::new(
        HapType::new("00000025-0000-1000-8000-0026BB765291"),
        format,
        perms,
    ))
}

/// One accessory: the information service (instance ids 1 to 7), then a
/// service with the id 8 and three characteristics: 9 may be read, written
/// and subscribed to, 10 may be read and subscribed to, 11 needs
/// authorization.
fn list() -> AccessoryList {
    let information = Information {
        name: "youcontrol Plug".into(),
        manufacturer: "youcontrol.io".into(),
        serial_number: "12345".into(),
        ..Default::default()
    };
    let service = Service::new(
        HapType::new("00000047-0000-1000-8000-0026BB765291"),
        vec![
            characteristic(Format::Bool, vec![Perm::PairedRead, Perm::PairedWrite, Perm::Events]),
            characteristic(Format::Bool, vec![Perm::PairedRead, Perm::Events]),
            characteristic(
                Format::UInt8,
                vec![Perm::PairedRead, Perm::PairedWrite, Perm::AdditionalAuthorization],
            ),
        ],
    );
    let mut list = AccessoryList::new();
    let aid = list.add(Accessory::new(information.to_service().unwrap(), vec![service]));
    assert_eq!(aid, 1);
    list
}

fn get(list: &AccessoryList, target: &str) -> Result<JsonResponse<ReadResponseObject>, Error> {
    let uri: hyper::Uri = target.parse().unwrap();
    GetCharacteristics::new().handle(&uri, list)
}

fn body_text(response: &JsonResponse<ReadResponseObject>) -> String {
    text(&response.body.as_ref().unwrap().to_json())
}

fn put(
    list: &mut AccessoryList,
    subscriptions: &mut EventSubscriptions,
    body: &str,
) -> (u16, Option<String>) {
    let response = UpdateCharacteristics::new().handle(&parse(body), subscriptions, list).unwrap();
    (response.status, response.body.as_ref().map(|b| text(&b.to_json())))
}

#[test]
fn read_bool_characteristic_answers_200() {
    let list = list();
    let response = get(&list, "/characteristics?id=1.10").unwrap();
    assert_eq!(response.status, 200);
    assert_eq!(body_text(&response), r#"{"characteristics":[{"aid":1,"iid":10,"value":false}]}"#);
}

#[test]
fn read_several_characteristics_in_order() {
    let list = list();
    let response = get(&list, "/characteristics?id=1.5,1.10,1.3").unwrap();
    assert_eq!(response.status, 200);
    assert_eq!(
        body_text(&response),
        r#"{"characteristics":[{"aid":1,"iid":5,"value":"youcontrol Plug"},{"aid":1,"iid":10,"value":false},{"aid":1,"iid":3,"value":"youcontrol.io"}]}"#
    );
}

#[test]
fn read_with_all_flags_adds_the_optional_fields() {
    let list = list();
    let response = get(&list, "/characteristics?id=1.10&meta=1&perms=1&type=1&ev=1").unwrap();
    assert_eq!(response.status, 200);
    assert_eq!(
        body_text(&response),
        r#"{"characteristics":[{"aid":1,"iid":10,"type":"25","format":"bool","perms":["pr","ev"],"ev":false,"value":false}]}"#
    );
}

#[test]
fn read_flags_must_be_one() {
    let list = list();
    let response = get(&list, "/characteristics?id=1.10&meta=true&perms=0&type=&ev").unwrap();
    assert_eq!(body_text(&response), r#"{"characteristics":[{"aid":1,"iid":10,"value":false}]}"#);
}

#[test]
fn read_takes_the_last_of_repeated_names() {
    let list = list();
    let response = get(&list, "/characteristics?type=1&id=1.9&type=0&id=1.10").unwrap();
    assert_eq!(body_text(&response), r#"{"characteristics":[{"aid":1,"iid":10,"value":false}]}"#);
    let response = get(&list, "/characteristics?type=0&id=1.10&type=1").unwrap();
    assert_eq!(
        body_text(&response),
        r#"{"characteristics":[{"aid":1,"iid":10,"type":"25","value":false}]}"#
    );
}

#[test]
fn read_decodes_the_query() {
    let list = list();
    let response = get(&list, "/characteristics?id=1%2E10%2C1.9&m%65ta=%31").unwrap();
    assert_eq!(response.status, 200);
    assert_eq!(
        body_text(&response),
        r#"{"characteristics":[{"aid":1,"iid":10,"format":"bool","value":false},{"aid":1,"iid":9,"format":"bool","value":false}]}"#
    );
}

#[test]
fn read_of_unknown_ids_answers_207() {
    let list = list();
    let response = get(&list, "/characteristics?id=1.10,1.99,2.1,1.8").unwrap();
    assert_eq!(response.status, 207);
    assert_eq!(
        body_text(&response),
        r#"{"characteristics":[{"aid":1,"iid":10,"value":false,"status":0},{"aid":1,"iid":99,"status":-70402},{"aid":2,"iid":1,"status":-70402},{"aid":1,"iid":8,"status":-70402}]}"#
    );
}

#[test]
fn read_of_write_only_characteristic_answers_207_without_value() {
    let list = list();
    let response = get(&list, "/characteristics?id=1.2").unwrap();
    assert_eq!(response.status, 207);
    assert_eq!(body_text(&response), r#"{"characteristics":[{"aid":1,"iid":2,"status":-70405}]}"#);
    let object = &response.body.as_ref().unwrap().characteristics[0];
    assert!(object.value.is_none());
}

#[test]
fn read_without_query_is_a_bad_request() {
    let list = list();
    let response = get(&list, "/characteristics").unwrap();
    assert_eq!(response.status, 400);
    assert!(response.body.is_none());
}

#[test]
fn read_without_id_is_a_bad_request() {
    let list = list();
    assert_eq!(get(&list, "/characteristics?meta=1").unwrap_err(), Error::HttpStatus(400));
    assert_eq!(get(&list, "/characteristics?").unwrap_err(), Error::HttpStatus(400));
}

#[test]
fn read_of_malformed_ids_fails() {
    let list = list();
    assert_eq!(get(&list, "/characteristics?id=1").unwrap_err(), Error::HttpStatus(400));
    assert_eq!(get(&list, "/characteristics?id=1.2.3").unwrap_err(), Error::HttpStatus(400));
    assert_eq!(get(&list, "/characteristics?id=").unwrap_err(), Error::HttpStatus(400));
    assert_eq!(get(&list, "/characteristics?id=1.10,").unwrap_err(), Error::HttpStatus(400));
    assert_eq!(get(&list, "/characteristics?id=1.x").unwrap_err(), Error::Protocol);
    assert_eq!(get(&list, "/characteristics?id=a.1").unwrap_err(), Error::Protocol);
    assert_eq!(get(&list, "/characteristics?id=1.").unwrap_err(), Error::Protocol);
    assert_eq!(get(&list, "/characteristics?id=-1.1").unwrap_err(), Error::Protocol);
    assert_eq!(get(&list, "/characteristics?id=1.10,1.x,1").unwrap_err(), Error::Protocol);
    assert_eq!(get(&list, "/characteristics?id=1.10,1,1.x").unwrap_err(), Error::HttpStatus(400));
    assert_eq!(
        get(&list, "/characteristics?id=1.18446744073709551616").unwrap_err(),
        Error::Protocol
    );
}

#[test]
fn read_characteristics_takes_the_pairs() {
    let list = list();
    let pairs = vec![("id".to_string(), "1.10".to_string()), ("ev".to_string(), "1".to_string())];
    let response = read_characteristics(&pairs, &list).unwrap();
    assert_eq!(response.status, 200);
    assert_eq!(
        body_text(&response),
        r#"{"characteristics":[{"aid":1,"iid":10,"ev":false,"value":false}]}"#
    );
    assert_eq!(read_characteristics(&vec![], &list).unwrap_err(), Error::HttpStatus(400));
}

#[test]
fn check_flags_reads_the_four_flags() {
    let pairs = |v: &[(&str, &str)]| -> Vec<(String, String)> {
        v.iter().map(|(k, v)| (k.to_string(), v.to_string())).collect()
    };
    assert_eq!(check_flags(&pairs(&[])), (false, false, false, false));
    assert_eq!(check_flags(&pairs(&[("meta", "1")])), (true, false, false, false));
    assert_eq!(check_flags(&pairs(&[("perms", "1")])), (false, true, false, false));
    assert_eq!(check_flags(&pairs(&[("type", "1")])), (false, false, true, false));
    assert_eq!(check_flags(&pairs(&[("ev", "1")])), (false, false, false, true));
    assert_eq!(
        check_flags(&pairs(&[("meta", "1"), ("perms", "1"), ("type", "1"), ("ev", "1")])),
        (true, true, true, true)
    );
    assert_eq!(check_flags(&pairs(&[("meta", "1"), ("meta", "0")])), (false, false, false, false));
    assert_eq!(check_flags(&pairs(&[("meta", "0"), ("meta", "1")])), (true, false, false, false));
    assert_eq!(check_flags(&pairs(&[("meta", "true"), ("Meta", "1")])), (false, false, false, false));
    assert_eq!(check_flags(&pairs(&[("meta", "11"), ("ev", " 1")])), (false, false, false, false));
}

#[test]
fn write_to_read_only_characteristic() {
    let mut list = list();
    let mut subscriptions = EventSubscriptions::new();
    let (status, body) = put(
        &mut list,
        &mut subscriptions,
        r#"{"characteristics":[{"aid":1,"iid":5,"value":"x"}]}"#,
    );
    assert_eq!(status, 400);
    assert_eq!(body.unwrap(), r#"{"characteristics":[{"aid":1,"iid":5,"status":-70404}]}"#);
    let read = list.read_characteristic(1, 5, false, false, false, false).unwrap();
    assert!(read.value.unwrap().same(&Value::String("youcontrol Plug".into())));
    assert!(list.take_events().is_empty());
}

#[test]
fn write_to_read_only_among_others_answers_207() {
    let mut list = list();
    let mut subscriptions = EventSubscriptions::new();
    let (status, body) = put(
        &mut list,
        &mut subscriptions,
        r#"{"characteristics":[{"aid":1,"iid":5,"value":"x"},{"aid":1,"iid":9,"value":true}]}"#,
    );
    assert_eq!(status, 207);
    assert_eq!(
        body.unwrap(),
        r#"{"characteristics":[{"aid":1,"iid":5,"status":-70404},{"aid":1,"iid":9,"status":0}]}"#
    );
    let read = list.read_characteristic(1, 5, false, false, false, false).unwrap();
    assert!(read.value.unwrap().same(&Value::String("youcontrol Plug".into())));
    let read = list.read_characteristic(1, 9, false, false, false, false).unwrap();
    assert!(read.value.unwrap().same(&Value::Bool(true)));
}

#[test]
fn write_answers_204_and_emits_a_change() {
    let mut list = list();
    let mut subscriptions = EventSubscriptions::new();
    let (status, body) =
        put(&mut list, &mut subscriptions, r#"{"characteristics":[{"aid":1,"iid":9,"value":true}]}"#);
    assert_eq!(status, 204);
    assert!(body.is_none());
    let events = list.take_events();
    assert_eq!(events.len(), 1);
    match &events[0] {
        Event::CharacteristicValueChanged { aid, iid, value } => {
            assert_eq!((*aid, *iid), (1, 9));
            assert_eq!(text(value), "true");
        }
        other => panic!("{:?}", other),
    }
    assert!(list.take_events().is_empty());
    let (status, _) =
        put(&mut list, &mut subscriptions, r#"{"characteristics":[{"aid":1,"iid":9,"value":true}]}"#);
    assert_eq!(status, 204);
    assert!(list.take_events().is_empty());
}

#[test]
fn write_changes_the_subscription() {
    let mut list = list();
    let mut subscriptions = EventSubscriptions::new();
    let (status, _) =
        put(&mut list, &mut subscriptions, r#"{"characteristics":[{"aid":1,"iid":10,"ev":true}]}"#);
    assert_eq!(status, 204);
    assert!(subscriptions.contains(1, 10));
    assert!(!subscriptions.contains(1, 9));
    let read = list.read_characteristic(1, 10, false, false, false, true).unwrap();
    assert_eq!(read.ev, Some(true));
    let (status, _) =
        put(&mut list, &mut subscriptions, r#"{"characteristics":[{"aid":1,"iid":10,"ev":false}]}"#);
    assert_eq!(status, 204);
    assert!(!subscriptions.contains(1, 10));
    assert!(list.take_events().is_empty());
}

#[test]
fn write_statuses() {
    let mut list = list();
    let mut subscriptions = EventSubscriptions::new();
    let cases = [
        (r#"{"aid":1,"iid":99,"value":1}"#, -70402),
        (r#"{"aid":3,"iid":9,"value":true}"#, -70402),
        (r#"{"aid":1,"iid":8,"value":true}"#, -70402),
        (r#"{"aid":1,"iid":10,"value":true}"#, -70404),
        (r#"{"aid":1,"iid":5,"ev":true}"#, -70406),
        (r#"{"aid":1,"iid":9,"value":1}"#, -70410),
        (r#"{"aid":1,"iid":9,"value":"true"}"#, -70410),
        (r#"{"aid":1,"iid":11,"value":256,"authData":"secret"}"#, -70410),
        (r#"{"aid":1,"iid":11,"value":1}"#, -70411),
        (r#"{"aid":1,"iid":11,"value":1,"authData":null}"#, -70411),
    ];
    for (object, expected) in cases {
        let body = format!(r#"{{"characteristics":[{}]}}"#, object);
        let (status, answer) = put(&mut list, &mut subscriptions, &body);
        assert_eq!(status, 400, "{}", object);
        let answer = parse(&answer.unwrap());
        let status = answer.get("characteristics").and_then(|c| match c {
            JsonValue::Array(items) => items[0].get("status").map(text),
            _ => None,
        });
        assert_eq!(status.unwrap(), expected.to_string(), "{}", object);
    }
    assert!(list.take_events().is_empty());
    let (status, _) = put(
        &mut list,
        &mut subscriptions,
        r#"{"characteristics":[{"aid":1,"iid":11,"value":7,"authData":"secret","remote":true,"r":false}]}"#,
    );
    assert_eq!(status, 204);
    let read = list.read_characteristic(1, 11, false, false, false, false).unwrap();
    assert!(read.value.unwrap().same(&Value::UInt8(7)));
}

#[test]
fn write_of_nothing_is_a_bad_request() {
    let mut list = list();
    let mut subscriptions = EventSubscriptions::new();
    let (status, body) = put(&mut list, &mut subscriptions, r#"{"characteristics":[]}"#);
    assert_eq!(status, 400);
    assert_eq!(body.unwrap(), r#"{"characteristics":[]}"#);
}

#[test]
fn write_without_value_and_ev_succeeds() {
    let mut list = list();
    let mut subscriptions = EventSubscriptions::new();
    let (status, _) = put(&mut list, &mut subscriptions, r#"{"characteristics":[{"aid":1,"iid":5}]}"#);
    assert_eq!(status, 204);
    let (status, _) =
        put(&mut list, &mut subscriptions, r#"{"characteristics":[{"aid":1,"iid":5,"value":null}]}"#);
    assert_eq!(status, 204);
}

#[test]
fn write_body_of_another_shape_is_a_protocol_error() {
    let mut list = list();
    let mut subscriptions = EventSubscriptions::new();
    for body in [
        r#"[]"#,
        r#"{}"#,
        r#"{"characteristics":{}}"#,
        r#"{"characteristics":[1]}"#,
        r#"{"characteristics":[{"aid":1}]}"#,
        r#"{"characteristics":[{"iid":1}]}"#,
        r#"{"characteristics":[{"aid":"1","iid":9}]}"#,
        r#"{"characteristics":[{"aid":-1,"iid":9}]}"#,
        r#"{"characteristics":[{"aid":1.5,"iid":9}]}"#,
        r#"{"characteristics":[{"aid":1,"iid":9,"ev":1}]}"#,
        r#"{"characteristics":[{"aid":1,"iid":9,"authData":1}]}"#,
        r#"{"characteristics":[{"aid":1,"iid":9,"remote":"yes"}]}"#,
        r#"{"characteristics":[{"aid":1,"iid":9,"r":0}]}"#,
        r#"{"characteristics":[{"aid":1,"iid":9,"value":true},{"aid":1}]}"#,
    ] {
        let result = UpdateCharacteristics::new().handle(&parse(body), &mut subscriptions, &mut list);
        assert_eq!(result.unwrap_err(), Error::Protocol, "{}", body);
    }
    let read = list.read_characteristic(1, 9, false, false, false, false).unwrap();
    assert!(read.value.unwrap().same(&Value::Bool(false)));
}

#[test]
fn parse_write_body_reads_the_members() {
    let body = parse_write_body(&parse(
        r#"{"characteristics":[{"aid":1,"iid":9,"value":[1,2],"ev":true,"authData":"a","remote":false,"r":true,"other":1},{"iid":2,"aid":3}]}"#,
    ))
    .unwrap();
    assert_eq!(body.characteristics.len(), 2);
    let first = &body.characteristics[0];
    assert_eq!((first.aid, first.iid), (1, 9));
    assert_eq!(text(first.value.as_ref().unwrap()), "[1,2]");
    assert_eq!(first.ev, Some(true));
    assert_eq!(first.auth_data.as_deref(), Some("a"));
    assert_eq!(first.remote, Some(false));
    assert_eq!(first.r, Some(true));
    let second = &body.characteristics[1];
    assert_eq!((second.aid, second.iid), (3, 2));
    assert!(second.value.is_none());
    assert_eq!(second.ev, None);
    assert!(second.auth_data.is_none());
}

#[test]
fn write_characteristics_takes_the_objects() {
    let mut list = list();
    let mut subscriptions = EventSubscriptions::new();
    let body = CharacteristicResponseBody {
        characteristics: vec![
            WriteObject {
                iid: 9,
                aid: 1,
                ev: Some(true),
                value: Some(JsonValue::Bool(true)),
                auth_data: None,
                remote: None,
                r: None,
            },
            WriteObject {
                iid: 9,
                aid: 1,
                ev: None,
                value: Some(JsonValue::Bool(false)),
                auth_data: None,
                remote: None,
                r: None,
            },
        ],
    };
    let response = write_characteristics(body, &mut subscriptions, &mut list);
    assert_eq!(response.status, 204);
    assert!(response.body.is_none());
    assert!(subscriptions.contains(1, 9));
    assert_eq!(list.take_events().len(), 2);
}

#[test]
fn snapshot_lists_what_reads_find() {
    let list = list();
    let snapshot = list.snapshot();
    let accessories = match snapshot.get("accessories") {
        Some(JsonValue::Array(items)) => items,
        other => panic!("{:?}", other),
    };
    assert_eq!(accessories.len(), 1);
    let mut seen = 0;
    for accessory in accessories {
        let aid = match accessory.get("aid") {
            Some(JsonValue::Integer(aid)) => *aid as u64,
            other => panic!("{:?}", other),
        };
        let services = match accessory.get("services") {
            Some(JsonValue::Array(items)) => items,
            other => panic!("{:?}", other),
        };
        for service in services {
            let characteristics = match service.get("characteristics") {
                Some(JsonValue::Array(items)) => items,
                other => panic!("{:?}", other),
            };
            for characteristic in characteristics {
                let iid = match characteristic.get("iid") {
                    Some(JsonValue::Integer(iid)) => *iid as u64,
                    other => panic!("{:?}", other),
                };
                let read = list.read_characteristic(aid, iid, true, true, true, false).unwrap();
                assert_eq!((read.aid, read.iid), (aid, iid));
                match (characteristic.get("value"), read.value.as_ref()) {
                    (Some(listed), Some(value)) => assert_eq!(text(listed), text(&value.to_json())),
                    (None, None) => assert_eq!(read.status, Some(-70405)),
                    other => panic!("{:?}", other),
                }
                if read.status == Some(0) {
                    assert_eq!(
                        text(characteristic.get("type").unwrap()),
                        format!("{:?}", read.hap_type.as_ref().unwrap())
                    );
                    assert_eq!(
                        text(characteristic.get("format").unwrap()),
                        format!("{:?}", read.format.unwrap().name())
                    );
                }
                seen += 1;
            }
        }
    }
    assert_eq!(seen, 9);
}

#[test]
fn snapshot_text() {
    let mut list = AccessoryList::new();
    let information = Information {
        name: "n".into(),
        manufacturer: "m".into(),
        model: "o".into(),
        serial_number: "s".into(),
        firmware_revision: "f".into(),
    };
    list.add(Accessory::new(information.to_service().unwrap(), vec![]));
    assert_eq!(
        text(&list.snapshot()),
        r#"{"accessories":[{"aid":1,"services":[{"iid":1,"type":"3E","hidden":false,"primary":false,"characteristics":[{"iid":2,"type":"14","format":"bool","perms":["pw"]},{"iid":3,"type":"20","format":"string","perms":["pr"],"value":"m"},{"iid":4,"type":"21","format":"string","perms":["pr"],"value":"o"},{"iid":5,"type":"23","format":"string","perms":["pr"],"value":"n"},{"iid":6,"type":"30","format":"string","perms":["pr"],"value":"s"},{"iid":7,"type":"52","format":"string","perms":["pr"],"value":"f"}]}]}]}"#
    );
}

#[test]
fn add_gives_accessory_ids_from_one() {
    let mut list = AccessoryList::new();
    assert_eq!(list.len(), 0);
    for expected in 1..=3u64 {
        let accessory = Accessory::new(Information::default().to_service().unwrap(), vec![]);
        assert_eq!(list.add(accessory), expected);
    }
    assert_eq!(list.len(), 3);
    for aid in 1..=3u64 {
        let read = list.read_characteristic(aid, 3, false, false, false, false).unwrap();
        assert_eq!((read.aid, read.iid), (aid, 3));
    }
    assert_eq!(
        list.read_characteristic(4, 3, false, false, false, false).unwrap_err(),
        Error::HttpStatus(404)
    );
    assert_eq!(
        list.read_characteristic(0, 3, false, false, false, false).unwrap_err(),
        Error::HttpStatus(404)
    );
    assert_eq!(
        list.read_characteristic(1, 1, false, false, false, false).unwrap_err(),
        Error::HttpStatus(404)
    );
}
