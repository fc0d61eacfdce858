use hap::accessory::{Accessory, Information};
use hap::characteristic::value::{Format, Value};
use hap::characteristic::{Characteristic, Inner, Perm};
use hap::config::Config;
use hap::error::Error;
use hap::hap_type::HapType;
use hap::json::JsonValue;
use hap::pairing::PairingStore;
use hap::protocol::Device;
use hap::service::Service;
use hap::transport::ip::{check_admission, event_body_json, route, IpTransport, Route};
use hap::transport::session::SessionState;

fn text(json: &JsonValue) -> String {
    match json {
        JsonValue::Null => "null".into(),
        JsonValue::Bool(b) => b.to_string(),
        JsonValue::Integer(i) => i.to_string(),
        JsonValue::Float(bits) => f32::from_bits(*bits).to_string(),
        JsonValue::String(s) => format!("{:?}", s),
        JsonValue::Array(items) => {
            format!("[{}]", items.iter().map(text).collect::<Vec<_>>().join(","))
        }
        JsonValue::Object(members) => format!(
            "{{{}}}",
            members.iter().map(|(k, v)| format!("{:?}:{}", k, text(v))).collect::<Vec<_>>().join(",")
        ),
    }
}

fn write_body(aid: u64, iid: u64, name: &str, value: JsonValue) -> JsonValue {
    JsonValue::Object(vec![(
        "characteristics".to_string(),
        JsonValue::Array(vec![JsonValue::Object(vec![
            ("aid".to_string(), JsonValue::Integer(aid as i128)),
            ("iid".to_string(), JsonValue::Integer(iid as i128)),
            (name.to_string(), value),
        ])]),
    )])
}

fn device() -> Device {
    Device::new("AB:CD:EF:12:34:56".to_string(), &[1; 32]).unwrap()
}

/// A server with one accessory, whose characteristic 10 is a readable Bool
/// that may be written and subscribed to, and with the given number of
/// sessions.
fn server(sessions: usize) -> IpTransport {
    let mut transport = IpTransport::new_device(Config::default(), device(), PairingStore::new());
    let service = Service::new(
        HapType::new("00000049-0000-1000-8000-0026BB765291"),
        vec![
            Characteristic::new(Inner::new(
                HapType::new("00000023-0000-1000-8000-0026BB765291"),
                Format::String,
                vec![Perm::PairedRead],
            )),
            Characteristic::new(Inner::new(
                HapType::new("00000025-0000-1000-8000-0026BB765291"),
                Format::Bool,
                vec![Perm::PairedRead, Perm::PairedWrite, Perm::Events],
            )),
        ],
    );
    let accessory = Accessory::new(Information::default().to_service().unwrap(), vec![service]);
    assert_eq!(transport.add_accessory(accessory), Some(1));
    for _ in 0..sessions {
        transport.sessions.open();
    }
    transport
}

fn pair(transport: &mut IpTransport, place: usize, controller: &str, admin: bool) {
    transport.pairings.add(controller.to_string(), [place as u8; 32], admin);
    transport.sessions.install_keys(place, controller.to_string(), [0; 32], [0; 32]);
}

#[test]
fn routes_are_named_by_method_and_path() {
    assert_eq!(route("GET", "/accessories"), Some(Route::Accessories));
    assert_eq!(route("GET", "/characteristics"), Some(Route::GetCharacteristics));
    assert_eq!(route("PUT", "/characteristics"), Some(Route::UpdateCharacteristics));
    assert_eq!(route("POST", "/pair-setup"), Some(Route::PairSetup));
    assert_eq!(route("POST", "/pair-verify"), Some(Route::PairVerify));
    assert_eq!(route("POST", "/pairings"), Some(Route::Pairings));
    assert_eq!(route("POST", "/identify"), Some(Route::Identify));
    assert_eq!(route("POST", "/accessories"), None);
    assert_eq!(route("GET", "/pairings"), None);
    assert_eq!(route("get", "/accessories"), None);
    assert_eq!(route("GET", "/accessories/"), None);
    assert_eq!(route("GET", "/"), None);
}

#[test]
fn admission_follows_the_state_of_the_session() {
    let mut pairings = PairingStore::new();
    let unpaired = SessionState::Unpaired;
    let in_setup = SessionState::InPairSetup { step: 2, srp_context: hap::srp::start("Pair-Setup", "111-22-333", &[0; 16], &[1; 32]), shared_secret: vec![] };
    let in_verify = SessionState::InPairVerify {
        step: 2,
        ecdh_context: hap::transport::http::handler::pair_verify::VerifyContext {
            accessory_public: [0; 32],
            controller_public: [0; 32],
            shared_secret: [0; 32],
            session_key: [0; 32],
        },
    };
    let encrypted = |id: &str| SessionState::Encrypted {
        controller_id: id.to_string(),
        c2a_key: [0; 32],
        a2c_key: [0; 32],
        c2a_nonce: 0,
        a2c_nonce: 0,
    };
    for r in [Route::Accessories, Route::GetCharacteristics, Route::UpdateCharacteristics] {
        assert_eq!(check_admission(r, &unpaired, &pairings), Err(Error::HttpStatus(470)));
        assert_eq!(check_admission(r, &in_setup, &pairings), Err(Error::HttpStatus(470)));
        assert_eq!(check_admission(r, &in_verify, &pairings), Err(Error::HttpStatus(470)));
        assert_eq!(check_admission(r, &encrypted("a"), &pairings), Ok(()));
    }
    assert_eq!(check_admission(Route::PairSetup, &unpaired, &pairings), Ok(()));
    assert_eq!(check_admission(Route::PairSetup, &in_setup, &pairings), Ok(()));
    assert_eq!(check_admission(Route::PairSetup, &in_verify, &pairings), Err(Error::HttpStatus(400)));
    assert_eq!(check_admission(Route::PairSetup, &encrypted("a"), &pairings), Err(Error::HttpStatus(400)));
    for state in [&unpaired, &in_setup, &in_verify, &encrypted("a")] {
        assert_eq!(check_admission(Route::PairVerify, state, &pairings), Ok(()));
    }
    assert_eq!(check_admission(Route::Identify, &unpaired, &pairings), Ok(()));
    assert_eq!(check_admission(Route::Identify, &in_setup, &pairings), Err(Error::HttpStatus(400)));
    assert_eq!(check_admission(Route::Pairings, &unpaired, &pairings), Err(Error::HttpStatus(470)));
    assert_eq!(check_admission(Route::Pairings, &encrypted("a"), &pairings), Err(Error::PairingStatus(2)));
    pairings.add("a".into(), [0; 32], true);
    pairings.add("u".into(), [0; 32], false);
    assert_eq!(check_admission(Route::Pairings, &encrypted("a"), &pairings), Ok(()));
    assert_eq!(check_admission(Route::Pairings, &encrypted("u"), &pairings), Err(Error::PairingStatus(2)));
    assert_eq!(check_admission(Route::Pairings, &encrypted("x"), &pairings), Err(Error::PairingStatus(2)));
    assert_eq!(check_admission(Route::Identify, &unpaired, &pairings), Err(Error::HttpStatus(400)));
}

#[test]
fn cold_boot_advertises_unpaired_then_paired() {
    let mut transport = server(1);
    let flag = |t: &IpTransport| t.txt_records().iter().find(|(k, _)| k == "sf").unwrap().1.clone();
    let number = |t: &IpTransport| t.txt_records().iter().find(|(k, _)| k == "c#").unwrap().1.clone();
    assert_eq!(flag(&transport), "1");
    assert_eq!(number(&transport), "1");
    transport.finish_pair_setup("controller".into(), [7; 32]);
    assert_eq!(flag(&transport), "0");
    assert_eq!(number(&transport), "2");
    let pairings = transport.pairings.list();
    assert_eq!(pairings.len(), 1);
    assert_eq!((pairings[0].id.as_str(), pairings[0].ltpk, pairings[0].admin), ("controller", [7; 32], true));
}

#[test]
fn configuration_number_grows_by_one_with_each_change_of_the_pairings() {
    let mut transport = server(2);
    transport.finish_pair_setup("admin".into(), [1; 32]);
    assert_eq!(transport.config.configuration_number, 2);
    transport.sessions.install_keys(0, "admin".into(), [0; 32], [0; 32]);
    assert_eq!(transport.add_pairing(0, "user".into(), [2; 32], false), Ok(()));
    assert_eq!(transport.config.configuration_number, 3);
    assert_eq!(transport.remove_pairing(0, "user"), Ok(vec![]));
    assert_eq!(transport.config.configuration_number, 4);
    assert_eq!(transport.remove_pairing(0, "admin"), Err(Error::PairingStatus(2)));
    assert_eq!(transport.config.configuration_number, 4);
    assert_eq!(transport.add_pairing(1, "other".into(), [3; 32], true), Err(Error::HttpStatus(470)));
    assert_eq!(transport.config.configuration_number, 4);
    assert_eq!(transport.pairings.len(), 1);
}

#[test]
fn removing_the_last_admin_is_refused_and_the_pairing_persists() {
    let mut transport = server(1);
    pair(&mut transport, 0, "admin", true);
    assert_eq!(transport.remove_pairing(0, "admin"), Err(Error::PairingStatus(0x02)));
    assert!(transport.pairings.contains("admin"));
    assert_eq!(transport.sessions.len(), 1);
    assert!(transport.sessions.get(0).is_encrypted());
    assert_eq!(transport.config.configuration_number, 1);
}

#[test]
fn removing_a_controller_closes_its_sessions() {
    let mut transport = server(4);
    pair(&mut transport, 0, "admin", true);
    pair(&mut transport, 1, "user", false);
    pair(&mut transport, 3, "user", false);
    for place in [1usize, 3] {
        let body = write_body(1, 10, "ev", JsonValue::Bool(true));
        assert_eq!(transport.put_characteristics(place, &body).unwrap().status, 204);
    }
    assert_eq!(transport.sessions.subscribers(1, 10, None), vec![1, 3]);
    assert_eq!(transport.remove_pairing(1, "user"), Err(Error::PairingStatus(2)));
    assert_eq!(transport.remove_pairing(0, "user"), Ok(vec![1, 3]));
    assert!(!transport.pairings.contains("user"));
    assert_eq!(transport.sessions.len(), 2);
    assert_eq!(transport.sessions.find(1), None);
    assert_eq!(transport.sessions.find(3), None);
    assert_eq!(transport.sessions.subscribers(1, 10, None), Vec::<u64>::new());
    let body = write_body(1, 10, "value", JsonValue::Bool(true));
    assert_eq!(transport.put_characteristics(0, &body).unwrap().status, 204);
    let pushes = transport.dispatch_events(Some(0));
    assert_eq!(pushes.len(), 1);
    assert!(pushes[0].sessions.is_empty());
}

#[test]
fn list_pairings_is_for_admins() {
    let mut transport = server(3);
    pair(&mut transport, 0, "admin", true);
    pair(&mut transport, 1, "user", false);
    let listed = transport.list_pairings(0).unwrap();
    assert_eq!(listed.iter().map(|p| p.id.as_str()).collect::<Vec<_>>(), vec!["admin", "user"]);
    assert_eq!(transport.list_pairings(1).unwrap_err(), Error::PairingStatus(2));
    assert_eq!(transport.list_pairings(2).unwrap_err(), Error::HttpStatus(470));
}

#[test]
fn subscribed_session_hears_of_the_write_of_another() {
    let mut transport = server(3);
    pair(&mut transport, 0, "one", true);
    pair(&mut transport, 1, "two", true);
    let subscribe = write_body(1, 10, "ev", JsonValue::Bool(true));
    assert_eq!(transport.put_characteristics(0, &subscribe).unwrap().status, 204);
    assert!(transport.dispatch_events(Some(0)).is_empty());
    let write = write_body(1, 10, "value", JsonValue::Bool(true));
    let response = transport.put_characteristics(1, &write).unwrap();
    assert_eq!(response.status, 204);
    assert!(response.body.is_none());
    let pushes = transport.dispatch_events(Some(1));
    assert_eq!(pushes.len(), 1);
    assert_eq!(pushes[0].sessions, vec![0]);
    assert_eq!(text(&pushes[0].body), r#"{"characteristics":[{"aid":1,"iid":10,"value":true}]}"#);
    assert!(transport.dispatch_events(Some(1)).is_empty());
    assert_eq!(transport.put_characteristics(1, &subscribe).unwrap().status, 204);
    let write = write_body(1, 10, "value", JsonValue::Bool(false));
    assert_eq!(transport.put_characteristics(1, &write).unwrap().status, 204);
    let pushes = transport.dispatch_events(Some(1));
    assert_eq!(pushes[0].sessions, vec![0]);
    assert_eq!(transport.put_characteristics(0, &write).unwrap().status, 204);
    assert!(transport.dispatch_events(Some(0)).is_empty());
}

#[test]
fn characteristics_need_an_encrypted_session() {
    let mut transport = server(1);
    let uri: hyper::Uri = "/characteristics?id=1.10".parse().unwrap();
    assert_eq!(transport.get_characteristics(0, &uri).unwrap_err(), Error::HttpStatus(470));
    assert_eq!(transport.get_accessories(0).unwrap_err(), Error::HttpStatus(470));
    let write = write_body(1, 10, "value", JsonValue::Bool(true));
    assert_eq!(transport.put_characteristics(0, &write).unwrap_err(), Error::HttpStatus(470));
    pair(&mut transport, 0, "one", true);
    let response = transport.get_characteristics(0, &uri).unwrap();
    assert_eq!(response.status, 200);
    assert_eq!(
        text(&response.body.unwrap().to_json()),
        r#"{"characteristics":[{"aid":1,"iid":10,"value":false}]}"#
    );
    assert!(text(&transport.get_accessories(0).unwrap()).starts_with(r#"{"accessories":[{"aid":1,"services":[{"iid":1,"type":"3E","#));
    assert_eq!(transport.put_characteristics(0, &JsonValue::Null).unwrap_err(), Error::Protocol);
}

#[test]
fn identify_writes_to_the_identify_characteristic() {
    let mut transport = server(2);
    let response = transport.identify(0).unwrap();
    assert_eq!(response.status, 204);
    assert!(response.body.is_none());
    let events = transport.accessories.take_events();
    assert_eq!(events.len(), 1);
    assert_eq!(transport.identify(0).unwrap().status, 204);
    assert!(transport.accessories.take_events().is_empty());
    transport.sessions.set_state(1, SessionState::InPairSetup { step: 1, srp_context: hap::srp::start("Pair-Setup", "111-22-333", &[0; 16], &[1; 32]), shared_secret: vec![] });
    assert_eq!(transport.identify(1).unwrap_err(), Error::HttpStatus(400));
    pair(&mut transport, 1, "one", true);
    assert_eq!(transport.identify(0).unwrap_err(), Error::HttpStatus(400));
    assert_eq!(transport.identify(1).unwrap_err(), Error::HttpStatus(400));
}

#[test]
fn identify_without_accessories_finds_nothing() {
    let mut transport = IpTransport::new_device(Config::default(), device(), PairingStore::new());
    transport.sessions.open();
    assert_eq!(transport.identify(0).unwrap_err(), Error::HttpStatus(404));
}

#[test]
fn event_body_has_the_shape_of_a_read_answer() {
    assert_eq!(
        text(&event_body_json(1, 10, Value::Bool(true).to_json())),
        r#"{"characteristics":[{"aid":1,"iid":10,"value":true}]}"#
    );
}

#[test]
fn try_add_refuses_what_cannot_be_published() {
    let mut transport = IpTransport::new_device(Config::default(), device(), PairingStore::new());
    let two_primaries = || {
        let mut a = Service::new(HapType::new("A"), vec![]);
        a.set_primary(true);
        let mut b = Service::new(HapType::new("B"), vec![]);
        b.set_primary(true);
        Accessory::new(Information::default().to_service().unwrap(), vec![a, b])
    };
    assert!(!two_primaries().is_well_formed());
    assert_eq!(transport.accessories.try_add(two_primaries()), None);
    let second_information = Accessory::new(
        Information::default().to_service().unwrap(),
        vec![Information::default().to_service().unwrap().into_service()],
    );
    assert!(!second_information.is_well_formed());
    assert_eq!(transport.accessories.try_add(second_information), None);
    assert_eq!(transport.accessories.len(), 0);
    let good = Accessory::new(Information::default().to_service().unwrap(), vec![]);
    assert!(good.is_well_formed());
    assert_eq!(good.count_instances(), Some(7));
    assert_eq!(transport.accessories.try_add(good), Some(1));
}

#[test]
fn pairing_exchanges_expire_after_ten_seconds() {
    let mut transport = server(3);
    transport.sessions.set_state(0, SessionState::InPairSetup { step: 2, srp_context: hap::srp::start("Pair-Setup", "111-22-333", &[0; 16], &[1; 32]), shared_secret: vec![] });
    transport.setup.session = Some(0);
    assert!(!transport.expire_pairing(0, 10));
    assert!(matches!(transport.sessions.get(0).get_state(), SessionState::InPairSetup { .. }));
    assert_eq!(transport.setup.session, Some(0));
    assert!(!transport.expire_pairing(1, 11));
    assert!(transport.expire_pairing(0, 11));
    assert!(matches!(transport.sessions.get(0).get_state(), SessionState::Unpaired));
    assert_eq!(transport.setup.session, None);
    pair(&mut transport, 2, "c", true);
    assert!(!transport.expire_pairing(2, 1000));
    assert!(transport.sessions.get(2).is_encrypted());
}
