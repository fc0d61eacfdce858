use hap::error::Error;
use hap::transport::session::{frame, nonce, Session, SessionState, Sessions};

fn encrypted(controller: &str) -> Session {
    let mut session = Session::new(7);
    session.install_keys(controller.to_string(), [1; 32], [2; 32]);
    session
}

fn counts(session: &Session) -> (u64, u64) {
    match session.get_state() {
        SessionState::Encrypted { c2a_nonce, a2c_nonce, .. } => (*c2a_nonce, *a2c_nonce),
        other => panic!("{:?}", other),
    }
}

#[test]
fn nonce_is_four_zero_bytes_and_the_count() {
    assert_eq!(nonce(0), vec![0; 12]);
    assert_eq!(nonce(1), vec![0, 0, 0, 0, 1, 0, 0, 0, 0, 0, 0, 0]);
    assert_eq!(nonce(0x0102030405060708), vec![0, 0, 0, 0, 8, 7, 6, 5, 4, 3, 2, 1]);
    assert_eq!(nonce(u64::MAX), vec![0, 0, 0, 0, 255, 255, 255, 255, 255, 255, 255, 255]);
}

#[test]
fn frame_is_length_ciphertext_and_tag() {
    assert_eq!(frame(&vec![3, 0], &vec![9, 8, 7], &vec![1; 16]).len(), 21);
    assert_eq!(frame(&vec![1, 0], &vec![9], &vec![5, 6]), vec![1, 0, 9, 5, 6]);
}

#[test]
fn new_session_is_unpaired() {
    let session = Session::new(3);
    assert_eq!(session.get_id(), 3);
    assert!(matches!(session.get_state(), SessionState::Unpaired));
    assert!(!session.is_encrypted());
    assert!(!session.is_bound_to("a"));
    assert!(!session.get_subscriptions().contains(1, 1));
}

#[test]
fn install_keys_starts_both_counts_at_zero() {
    let session = encrypted("controller");
    assert!(session.is_encrypted());
    assert!(session.is_bound_to("controller"));
    assert!(!session.is_bound_to("other"));
    assert_eq!(counts(&session), (0, 0));
    match session.get_state() {
        SessionState::Encrypted { controller_id, c2a_key, a2c_key, .. } => {
            assert_eq!(controller_id, "controller");
            assert_eq!(c2a_key, &[1; 32]);
            assert_eq!(a2c_key, &[2; 32]);
        }
        other => panic!("{:?}", other),
    }
}

#[test]
fn seal_splits_into_frames_of_1024_bytes() {
    let mut session = encrypted("c");
    let text: Vec<u8> = (0..2500u32).map(|i| (i % 251) as u8).collect();
    let requests = session.seal(&text).unwrap();
    assert_eq!(requests.len(), 3);
    assert_eq!(requests[0].text, text[..1024]);
    assert_eq!(requests[1].text, text[1024..2048]);
    assert_eq!(requests[2].text, text[2048..]);
    assert_eq!(requests[0].aad, vec![0x00, 0x04]);
    assert_eq!(requests[1].aad, vec![0x00, 0x04]);
    assert_eq!(requests[2].aad, vec![0xc4, 0x01]);
    assert_eq!(requests[0].nonce, nonce(0));
    assert_eq!(requests[1].nonce, nonce(1));
    assert_eq!(requests[2].nonce, nonce(2));
    assert!(requests.iter().all(|r| r.tag.is_empty()));
    assert_eq!(counts(&session), (0, 3));
    let requests = session.seal(&[1, 2, 3]).unwrap();
    assert_eq!(requests.len(), 1);
    assert_eq!(requests[0].nonce, nonce(3));
    assert_eq!(requests[0].aad, vec![3, 0]);
    assert_eq!(counts(&session), (0, 4));
}

#[test]
fn seal_of_exact_multiples_and_nothing() {
    let mut session = encrypted("c");
    assert_eq!(session.seal(&[]).unwrap().len(), 0);
    assert_eq!(counts(&session), (0, 0));
    assert_eq!(session.seal(&vec![0; 1024]).unwrap().len(), 1);
    assert_eq!(session.seal(&vec![0; 2048]).unwrap().len(), 2);
    assert_eq!(session.seal(&vec![0; 1025]).unwrap().len(), 2);
    assert_eq!(counts(&session), (0, 5));
}

#[test]
fn seal_nonces_grow_and_never_repeat() {
    let mut session = encrypted("c");
    let mut seen = std::collections::HashSet::new();
    let mut last = None;
    for round in 0..50usize {
        for request in session.seal(&vec![0; 1 + (round * 97) % 3000]).unwrap() {
            assert!(seen.insert(request.nonce.clone()));
            let count = u64::from_le_bytes(request.nonce[4..].try_into().unwrap());
            if let Some(last) = last {
                assert!(count > last);
            }
            last = Some(count);
        }
    }
}

#[test]
fn seal_needs_an_encrypted_session() {
    let mut session = Session::new(1);
    assert_eq!(session.seal(&[1]).unwrap_err(), Error::Protocol);
    session.set_state(SessionState::InPairSetup { step: 2, srp_context: hap::srp::start("Pair-Setup", "111-22-333", &[0; 16], &[1; 32]), shared_secret: vec![] });
    assert_eq!(session.seal(&[1]).unwrap_err(), Error::Protocol);
}

#[test]
fn seal_refuses_to_pass_the_last_count() {
    let mut session = Session::new(1);
    session.set_state(SessionState::Encrypted {
        controller_id: "c".into(),
        c2a_key: [0; 32],
        a2c_key: [0; 32],
        c2a_nonce: u64::MAX,
        a2c_nonce: u64::MAX - 1,
    });
    assert_eq!(session.seal(&vec![0; 1025]).unwrap_err(), Error::Crypto);
    assert_eq!(counts(&session), (u64::MAX, u64::MAX - 1));
    assert_eq!(session.seal(&[0]).unwrap().len(), 1);
    assert_eq!(counts(&session), (u64::MAX, u64::MAX));
    assert_eq!(session.seal(&[0]).unwrap_err(), Error::Crypto);
    assert_eq!(session.open(&[1, 0, 9, 1, 2, 3, 4, 5, 6, 7, 8, 9, 10, 11, 12, 13, 14, 15, 16]).unwrap_err(), Error::Crypto);
    assert_eq!(counts(&session), (u64::MAX, u64::MAX));
}

#[test]
fn open_takes_one_frame() {
    let mut session = encrypted("c");
    let mut buffer = vec![3u8, 0, 10, 11, 12];
    buffer.extend(100..116u8);
    buffer.extend([2u8, 0, 1]);
    let (request, taken) = session.open(&buffer).unwrap().unwrap();
    assert_eq!(taken, 21);
    assert_eq!(request.nonce, nonce(0));
    assert_eq!(request.aad, vec![3, 0]);
    assert_eq!(request.text, vec![10, 11, 12]);
    assert_eq!(request.tag, (100..116u8).collect::<Vec<u8>>());
    assert_eq!(counts(&session), (1, 0));
    assert!(session.open(&buffer[taken..]).unwrap().is_none());
    assert_eq!(counts(&session), (1, 0));
    let (request, _) = session.open(&buffer).unwrap().unwrap();
    assert_eq!(request.nonce, nonce(1));
    assert_eq!(counts(&session), (2, 0));
}

#[test]
fn open_waits_for_the_whole_frame() {
    let mut session = encrypted("c");
    let mut buffer = vec![2u8, 0, 10, 11];
    buffer.extend([0u8; 16]);
    for len in 0..buffer.len() {
        assert!(session.open(&buffer[..len]).unwrap().is_none(), "{}", len);
    }
    assert_eq!(counts(&session), (0, 0));
    assert!(session.open(&buffer).unwrap().is_some());
}

#[test]
fn open_refuses_bad_lengths() {
    let mut session = encrypted("c");
    assert_eq!(session.open(&[0, 0]).unwrap_err(), Error::Protocol);
    assert_eq!(session.open(&[1, 4]).unwrap_err(), Error::Protocol);
    assert_eq!(session.open(&[0xff, 0xff, 1, 2, 3]).unwrap_err(), Error::Protocol);
    assert!(session.open(&[0, 4]).unwrap().is_none());
    let mut largest = vec![0u8, 4];
    largest.extend(vec![0u8; 1024 + 16]);
    let (request, taken) = session.open(&largest).unwrap().unwrap();
    assert_eq!(request.text.len(), 1024);
    assert_eq!(taken, 1042);
    assert_eq!(counts(&session), (1, 0));
}

#[test]
fn open_needs_an_encrypted_session() {
    let mut session = Session::new(1);
    let mut buffer = vec![1u8, 0, 9];
    buffer.extend([0u8; 16]);
    assert_eq!(session.open(&buffer).unwrap_err(), Error::Protocol);
    assert_eq!(session.open(&[]).unwrap_err(), Error::Protocol);
}

#[test]
fn sessions_get_fresh_ids() {
    let mut sessions = Sessions::new();
    assert_eq!(sessions.open(), Some(0));
    assert_eq!(sessions.open(), Some(1));
    assert!(sessions.close(0));
    assert!(!sessions.close(0));
    assert_eq!(sessions.open(), Some(2));
    assert_eq!(sessions.len(), 2);
    assert_eq!(sessions.find(1), Some(0));
    assert_eq!(sessions.find(2), Some(1));
    assert_eq!(sessions.find(0), None);
    assert_eq!(sessions.get(1).get_id(), 2);
}

#[test]
fn subscribers_are_encrypted_subscribed_and_not_the_origin() {
    let mut sessions = Sessions::new();
    for _ in 0..4 {
        sessions.open();
    }
    for place in 0..3 {
        sessions.install_keys(place, format!("controller {}", place), [0; 32], [0; 32]);
    }
    for place in [0usize, 2, 3] {
        let mut subscriptions = sessions.take_subscriptions(place);
        subscriptions.subscribe(1, 10);
        sessions.put_subscriptions(place, subscriptions);
    }
    assert_eq!(sessions.subscribers(1, 10, None), vec![0, 2]);
    assert_eq!(sessions.subscribers(1, 10, Some(2)), vec![0]);
    assert_eq!(sessions.subscribers(1, 10, Some(1)), vec![0, 2]);
    assert_eq!(sessions.subscribers(1, 11, None), Vec::<u64>::new());
    sessions.set_state(0, SessionState::Unpaired);
    assert_eq!(sessions.subscribers(1, 10, None), vec![2]);
}

#[test]
fn close_controller_closes_all_its_sessions() {
    let mut sessions = Sessions::new();
    for _ in 0..5 {
        sessions.open();
    }
    sessions.install_keys(0, "a".into(), [0; 32], [0; 32]);
    sessions.install_keys(1, "b".into(), [0; 32], [0; 32]);
    sessions.install_keys(3, "a".into(), [0; 32], [0; 32]);
    for place in 0..5 {
        let mut subscriptions = sessions.take_subscriptions(place);
        subscriptions.subscribe(1, 10);
        sessions.put_subscriptions(place, subscriptions);
    }
    assert_eq!(sessions.subscribers(1, 10, None), vec![0, 1, 3]);
    assert_eq!(sessions.close_controller("a"), vec![0, 3]);
    assert_eq!(sessions.len(), 3);
    assert_eq!(sessions.find(0), None);
    assert_eq!(sessions.find(3), None);
    assert_eq!(sessions.find(1), Some(0));
    assert_eq!(sessions.find(2), Some(1));
    assert_eq!(sessions.find(4), Some(2));
    assert_eq!(sessions.subscribers(1, 10, None), vec![1]);
    assert_eq!(sessions.close_controller("a"), Vec::<u64>::new());
    assert_eq!(sessions.len(), 3);
}

#[test]
fn registry_seals_and_opens_by_place() {
    let mut sessions = Sessions::new();
    sessions.open();
    sessions.open();
    assert_eq!(sessions.seal(1, &[1]).unwrap_err(), Error::Protocol);
    sessions.install_keys(1, "a".into(), [0; 32], [0; 32]);
    assert_eq!(sessions.seal(1, &vec![0; 1500]).unwrap().len(), 2);
    let mut buffer = vec![1u8, 0, 9];
    buffer.extend([0u8; 16]);
    let (request, taken) = sessions.open_frame(1, &buffer).unwrap().unwrap();
    assert_eq!((request.text, taken), (vec![9], 19));
    assert_eq!(sessions.open_frame(0, &buffer).unwrap_err(), Error::Protocol);
    match sessions.get(1).get_state() {
        SessionState::Encrypted { c2a_nonce, a2c_nonce, .. } => assert_eq!((*c2a_nonce, *a2c_nonce), (1, 2)),
        other => panic!("{:?}", other),
    }
}

#[test]
fn encrypted_frames_open_on_the_other_side() {
    let mut accessory = Session::new(1);
    accessory.install_keys("controller".into(), [1; 32], [2; 32]);
    let mut controller = Session::new(2);
    controller.install_keys("accessory".into(), [2; 32], [1; 32]);
    let text: Vec<u8> = (0..3000u32).map(|i| (i % 253) as u8).collect();
    let bytes = accessory.encrypt(&text).unwrap();
    assert_eq!(bytes.len(), 3000 + 3 * (2 + 16));
    assert_eq!(&bytes[..2], &[0x00, 0x04]);
    let mut received = Vec::new();
    let mut rest = &bytes[..];
    while let Some((piece, taken)) = controller.decrypt(rest).unwrap() {
        received.extend(piece);
        rest = &rest[taken..];
    }
    assert!(rest.is_empty());
    assert_eq!(received, text);
    assert_eq!(counts(&accessory), (0, 3));
    assert_eq!(counts(&controller), (3, 0));
    let request = controller.encrypt(b"GET /accessories HTTP/1.1\r\n\r\n").unwrap();
    let (opened, taken) = accessory.decrypt(&request).unwrap().unwrap();
    assert_eq!(opened, b"GET /accessories HTTP/1.1\r\n\r\n");
    assert_eq!(taken, request.len());
    assert_eq!(counts(&accessory), (1, 3));
}

#[test]
fn decrypt_refuses_frames_out_of_order_or_changed() {
    let mut accessory = Session::new(1);
    accessory.install_keys("controller".into(), [1; 32], [2; 32]);
    let mut controller = Session::new(2);
    controller.install_keys("accessory".into(), [2; 32], [1; 32]);
    let first = controller.encrypt(b"one").unwrap();
    let second = controller.encrypt(b"two").unwrap();
    assert_eq!(accessory.decrypt(&second).unwrap_err(), Error::Crypto);
    assert_eq!(counts(&accessory), (1, 0));
    let mut accessory = Session::new(1);
    accessory.install_keys("controller".into(), [1; 32], [2; 32]);
    let mut changed = first.clone();
    changed[3] ^= 1;
    assert_eq!(accessory.decrypt(&changed).unwrap_err(), Error::Crypto);
    let mut accessory = Session::new(1);
    accessory.install_keys("controller".into(), [1; 32], [2; 32]);
    assert_eq!(accessory.decrypt(&first).unwrap().unwrap().0, b"one");
    assert_eq!(accessory.decrypt(&first).unwrap_err(), Error::Crypto);
    assert_eq!(accessory.decrypt(&first[..5]).unwrap(), None);
    let mut other = Session::new(3);
    other.install_keys("controller".into(), [9; 32], [2; 32]);
    assert_eq!(other.decrypt(&first).unwrap_err(), Error::Crypto);
    assert_eq!(Session::new(4).decrypt(&first).unwrap_err(), Error::Protocol);
    assert_eq!(Session::new(4).encrypt(b"x").unwrap_err(), Error::Protocol);
}
