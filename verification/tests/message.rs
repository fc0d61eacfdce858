use hap::event::{Event, EventEmitter};
use hap::json::{push_member, push_optional, JsonValue};
use hap::transport::http::message::{event, message, reason, response, HAP_JSON, PAIRING_TLV8};
use hap::transport::http::server::EventSubscriptions;
use hap::transport::http::{body_to_json, Status, WriteResponseObject};

#[test]
fn response_with_a_body() {
    assert_eq!(
        response(200, Some((HAP_JSON, b"{}"))),
        b"HTTP/1.1 200 OK\r\nContent-Type: application/hap+json\r\nContent-Length: 2\r\n\r\n{}".to_vec()
    );
    assert_eq!(
        response(207, Some((PAIRING_TLV8, &[6, 1, 2]))),
        b"HTTP/1.1 207 Multi-Status\r\nContent-Type: application/pairing+tlv8\r\nContent-Length: 3\r\n\r\n\x06\x01\x02".to_vec()
    );
}

#[test]
fn response_without_a_body() {
    assert_eq!(response(204, None), b"HTTP/1.1 204 No Content\r\n\r\n".to_vec());
    assert_eq!(response(400, None), b"HTTP/1.1 400 Bad Request\r\n\r\n".to_vec());
    assert_eq!(response(470, None), b"HTTP/1.1 470 Connection Authorization Required\r\n\r\n".to_vec());
}

#[test]
fn event_is_pushed_under_its_own_protocol() {
    let body = br#"{"characteristics":[{"aid":1,"iid":10,"value":true}]}"#;
    let expected = format!(
        "EVENT/1.0 200 OK\r\nContent-Type: application/hap+json\r\nContent-Length: {}\r\n\r\n{}",
        body.len(),
        std::str::from_utf8(body).unwrap()
    );
    assert_eq!(event(body), expected.into_bytes());
    assert_eq!(message("EVENT/1.0", 200, Some((HAP_JSON, body))), event(body));
}

#[test]
fn reason_phrases() {
    assert_eq!(reason(200), "OK");
    assert_eq!(reason(204), "No Content");
    assert_eq!(reason(207), "Multi-Status");
    assert_eq!(reason(400), "Bad Request");
    assert_eq!(reason(404), "Not Found");
    assert_eq!(reason(470), "Connection Authorization Required");
    assert_eq!(reason(500), "Internal Server Error");
    assert_eq!(reason(418), "Unknown");
}

#[test]
fn status_codes() {
    let codes = [
        (Status::Success, 0),
        (Status::InsufficientPrivileges, -70401),
        (Status::ServiceCommunicationFailure, -70402),
        (Status::ResourceBusy, -70403),
        (Status::WriteToReadOnlyCharacteristic, -70404),
        (Status::ReadFromWriteOnlyCharacteristic, -70405),
        (Status::NotificationNotSupported, -70406),
        (Status::OutOfResource, -70407),
        (Status::OperationTimedOut, -70408),
        (Status::ResourceDoesNotExist, -70409),
        (Status::InvalidValueInRequest, -70410),
        (Status::InsufficientAuthorization, -70411),
    ];
    for (status, code) in codes {
        assert_eq!(status.code(), code);
    }
}

#[test]
fn json_members_are_found_by_name() {
    let mut members = Vec::new();
    push_member(&mut members, "a", JsonValue::Integer(1));
    push_optional(&mut members, "b", None);
    push_optional(&mut members, "c", Some(JsonValue::Bool(true)));
    push_member(&mut members, "a", JsonValue::Integer(2));
    assert_eq!(members.len(), 3);
    let object = JsonValue::object(members);
    assert!(matches!(object.get("a"), Some(JsonValue::Integer(1))));
    assert!(matches!(object.get("c"), Some(JsonValue::Bool(true))));
    assert!(object.get("b").is_none());
    assert!(JsonValue::Null.get("a").is_none());
    assert!(JsonValue::array(vec![]).get("a").is_none());
    assert!(matches!(JsonValue::text("x"), JsonValue::String(s) if s == "x"));
    assert!(matches!(JsonValue::unsigned(u64::MAX), JsonValue::Integer(i) if i == u64::MAX as i128));
}

#[test]
fn json_clone_is_deep() {
    let tree = JsonValue::object(vec![
        ("list".to_string(), JsonValue::array(vec![JsonValue::Float(7), JsonValue::Null])),
        ("text".to_string(), JsonValue::text("t")),
    ]);
    let copy = tree.clone();
    assert_eq!(format!("{:?}", copy), format!("{:?}", tree));
}

#[test]
fn write_answers_in_json() {
    let answer = WriteResponseObject { iid: 5, aid: 1, status: -70404 };
    let body = body_to_json(vec![answer.to_json()]);
    assert_eq!(
        format!("{:?}", body),
        r#"Object([("characteristics", Array([Object([("aid", Integer(1)), ("iid", Integer(5)), ("status", Integer(-70404))])]))])"#
    );
}

#[test]
fn emitter_keeps_the_order_of_events() {
    let mut emitter = EventEmitter::new();
    assert!(emitter.take().is_empty());
    emitter.emit(Event::ControllerPaired { id: "a".into() });
    emitter.emit(Event::ControllerUnpaired { id: "b".into() });
    let events = emitter.take();
    assert_eq!(events.len(), 2);
    assert!(matches!(&events[0], Event::ControllerPaired { id } if id == "a"));
    assert!(matches!(&events[1], Event::ControllerUnpaired { id } if id == "b"));
    assert!(emitter.take().is_empty());
}

#[test]
fn subscriptions_are_a_set() {
    let mut subscriptions = EventSubscriptions::new();
    subscriptions.subscribe(1, 10);
    subscriptions.subscribe(1, 10);
    subscriptions.subscribe(2, 10);
    assert!(subscriptions.contains(1, 10));
    assert!(subscriptions.contains(2, 10));
    assert!(!subscriptions.contains(10, 1));
    subscriptions.unsubscribe(1, 10);
    assert!(!subscriptions.contains(1, 10));
    assert!(subscriptions.contains(2, 10));
    subscriptions.unsubscribe(3, 3);
    assert!(subscriptions.contains(2, 10));
}
