use hap::config::Config;
use hap::pairing::PairingStore;
use hap::protocol::{derive_key, message_nonce, Device};
use hap::tlv::{decode_items, encode_items, find};
use hap::transport::http::handler::pair_verify::{
    finish, handle, open_message, respond_state, seal_message, start,
};
use hap::transport::ip::IpTransport;
use hap::transport::session::SessionState;

const DEVICE_ID: &str = "AB:CD:EF:12:34:56";
const CONTROLLER_ID: &str = "E1D5A2C4-9F3B-4C1D-8E7A-0123456789AB";

struct Controller {
    secret_key: [u8; 64],
    public_key: [u8; 32],
    ephemeral_secret: [u8; 32],
    ephemeral_public: [u8; 32],
}

fn new_controller() -> Controller {
    let (secret_key, public_key) = crypto::ed25519::keypair(&[2; 32]);
    let ephemeral_secret = [3u8; 32];
    Controller {
        secret_key,
        public_key,
        ephemeral_secret,
        ephemeral_public: crypto::curve25519::curve25519_base(&ephemeral_secret),
    }
}

fn device() -> Device {
    Device::new(DEVICE_ID.to_string(), &[1; 32]).unwrap()
}

fn server() -> IpTransport {
    let mut pairings = PairingStore::new();
    pairings.add(CONTROLLER_ID.to_string(), new_controller().public_key, true);
    let mut transport = IpTransport::new_device(Config::default(), device(), pairings);
    transport.sessions.open();
    transport
}

fn first_request(controller: &Controller) -> Vec<u8> {
    encode_items(&vec![(6, vec![1]), (3, controller.ephemeral_public.to_vec())])
}

fn second_request(controller: &Controller, accessory_public: &[u8], id: &str, session_key: &[u8; 32]) -> Vec<u8> {
    let mut info = controller.ephemeral_public.to_vec();
    info.extend(id.as_bytes());
    info.extend(accessory_public);
    let signature = crypto::ed25519::signature(&info, &controller.secret_key);
    let proof = encode_items(&vec![(1, id.as_bytes().to_vec()), (10, signature.to_vec())]);
    let sealed = seal_message(session_key, "PV-Msg03", &proof);
    encode_items(&vec![(6, vec![3]), (5, sealed)])
}

fn session_key(shared: &[u8; 32]) -> [u8; 32] {
    derive_key("Pair-Verify-Encrypt-Salt", "Pair-Verify-Encrypt-Info", shared)
}

#[test]
fn device_has_the_key_of_its_seed() {
    let device = device();
    let (_, public_key) = crypto::ed25519::keypair(&[1; 32]);
    assert_eq!(device.public_key(), public_key.to_vec());
    assert_eq!(device.pairing_id(), DEVICE_ID);
    let signature = device.sign(b"message");
    assert!(crypto::ed25519::verify(b"message", &public_key, &signature));
    assert!(!crypto::ed25519::verify(b"massage", &public_key, &signature));
    assert!(Device::new("x".repeat(255), &[1; 32]).is_some());
    assert!(Device::new("x".repeat(256), &[1; 32]).is_none());
}

#[test]
fn derive_key_is_hkdf_with_sha512() {
    let mut prk = [0u8; 64];
    crypto::hkdf::hkdf_extract(crypto::sha2::Sha512::new(), b"Control-Salt", &[7; 32], &mut prk);
    let mut okm = [0u8; 32];
    crypto::hkdf::hkdf_expand(crypto::sha2::Sha512::new(), &prk, b"Control-Read-Encryption-Key", &mut okm);
    assert_eq!(derive_key("Control-Salt", "Control-Read-Encryption-Key", &[7; 32]), okm);
    assert_ne!(derive_key("Control-Salt", "Control-Write-Encryption-Key", &[7; 32]), okm);
    assert_ne!(derive_key("Control-Read-Encryption-Key", "Control-Salt", &[7; 32]), okm);
    assert_ne!(derive_key("Control-Salt", "Control-Read-Encryption-Key", &[8; 32]), okm);
}

#[test]
fn message_nonce_is_the_label_after_four_zero_bytes() {
    assert_eq!(message_nonce("PV-Msg02"), b"\0\0\0\0PV-Msg02".to_vec());
    assert_eq!(message_nonce("PS-Msg05"), b"\0\0\0\0PS-Msg05".to_vec());
}

#[test]
fn sealed_messages_open_with_the_same_label() {
    let sealed = seal_message(&[5; 32], "PV-Msg02", b"text");
    assert_eq!(sealed.len(), 4 + 16);
    assert_eq!(open_message(&[5; 32], "PV-Msg02", &sealed), Some(b"text".to_vec()));
    assert_eq!(open_message(&[5; 32], "PV-Msg03", &sealed), None);
    assert_eq!(open_message(&[6; 32], "PV-Msg02", &sealed), None);
    assert_eq!(open_message(&[5; 32], "PV-Msg02", &sealed[..15]), None);
    assert_eq!(open_message(&[5; 32], "PV-Msg02", &[]), None);
    let empty = seal_message(&[5; 32], "PV-Msg02", b"");
    assert_eq!(open_message(&[5; 32], "PV-Msg02", &empty), Some(vec![]));
}

#[test]
fn x25519_agrees_with_the_published_example() {
    let scalar = [
        0xa5, 0x46, 0xe3, 0x6b, 0xf0, 0x52, 0x7c, 0x9d, 0x3b, 0x16, 0x15, 0x4b, 0x82, 0x46, 0x5e, 0xdd,
        0x62, 0x14, 0x4c, 0x0a, 0xc1, 0xfc, 0x5a, 0x18, 0x50, 0x6a, 0x22, 0x44, 0xba, 0x44, 0x9a, 0xc4,
    ];
    let point = [
        0xe6, 0xdb, 0x68, 0x67, 0x58, 0x30, 0x30, 0xdb, 0x35, 0x94, 0xc1, 0xa4, 0x24, 0xb1, 0x5f, 0x7c,
        0x72, 0x66, 0x24, 0xec, 0x26, 0xb3, 0x35, 0x3b, 0x10, 0xa9, 0x03, 0xa6, 0xd0, 0xab, 0x1c, 0x4c,
    ];
    let product = [
        0xc3, 0xda, 0x55, 0x37, 0x9d, 0xe9, 0xc6, 0x90, 0x8e, 0x94, 0xea, 0x4d, 0xf2, 0x8d, 0x08, 0x4f,
        0x32, 0xec, 0xcf, 0x03, 0x49, 0x1c, 0x71, 0xf7, 0x54, 0xb4, 0x07, 0x55, 0x77, 0xa2, 0x85, 0x52,
    ];
    let (context, _) = start(&device(), &scalar, &point);
    assert_eq!(context.shared_secret, product);
    assert_eq!(context.controller_public, point);
    assert_eq!(context.accessory_public, crypto::curve25519::curve25519_base(&scalar));
    assert_eq!(context.session_key, session_key(&product));
}

#[test]
fn start_answers_with_the_proof_of_the_accessory() {
    let controller = new_controller();
    let (context, response) = start(&device(), &[4; 32], &controller.ephemeral_public);
    let items = decode_items(&response).unwrap();
    assert_eq!(items.len(), 3);
    assert_eq!(find(&items, 6), Some(&vec![2]));
    let accessory_public = find(&items, 3).unwrap();
    assert_eq!(accessory_public, &context.accessory_public.to_vec());
    let shared = crypto::curve25519::curve25519(&controller.ephemeral_secret, accessory_public);
    assert_eq!(shared, context.shared_secret);
    let proof = open_message(&session_key(&shared), "PV-Msg02", find(&items, 5).unwrap()).unwrap();
    let proof = decode_items(&proof).unwrap();
    assert_eq!(find(&proof, 1), Some(&DEVICE_ID.as_bytes().to_vec()));
    let mut info = accessory_public.clone();
    info.extend(DEVICE_ID.as_bytes());
    info.extend(controller.ephemeral_public);
    assert!(crypto::ed25519::verify(&info, &device().public_key(), find(&proof, 10).unwrap()));
}

#[test]
fn pair_verify_leads_to_an_encrypted_session() {
    let controller = new_controller();
    let mut transport = server();
    let response = transport.pair_verify(0, &first_request(&controller), &[4; 32]);
    let items = decode_items(&response).unwrap();
    let accessory_public = find(&items, 3).unwrap().clone();
    assert!(matches!(transport.sessions.get(0).get_state(), SessionState::InPairVerify { step: 2, .. }));
    let shared = crypto::curve25519::curve25519(&controller.ephemeral_secret, &accessory_public);
    let request = second_request(&controller, &accessory_public, CONTROLLER_ID, &session_key(&shared));
    let response = transport.pair_verify(0, &request, &[9; 32]);
    assert_eq!(response, vec![6, 1, 4]);
    match transport.sessions.get(0).get_state() {
        SessionState::Encrypted { controller_id, c2a_key, a2c_key, c2a_nonce, a2c_nonce } => {
            assert_eq!(controller_id, CONTROLLER_ID);
            assert_eq!(c2a_key, &derive_key("Control-Salt", "Control-Read-Encryption-Key", &shared));
            assert_eq!(a2c_key, &derive_key("Control-Salt", "Control-Write-Encryption-Key", &shared));
            assert_eq!((*c2a_nonce, *a2c_nonce), (0, 0));
        }
        other => panic!("{:?}", other),
    }
    let first = transport.sessions.seal(0, b"response").unwrap();
    assert_eq!(first[0].nonce, vec![0; 12]);
}

#[test]
fn pair_verify_refuses_what_does_not_verify() {
    let controller = new_controller();
    let attempts: Vec<Box<dyn Fn(&[u8], &[u8; 32]) -> Vec<u8>>> = vec![
        Box::new(|accessory_public, key| second_request(&controller, accessory_public, "unknown controller", key)),
        Box::new(|accessory_public, key| {
            let mut other = new_controller();
            other.secret_key = crypto::ed25519::keypair(&[8; 32]).0;
            second_request(&other, accessory_public, CONTROLLER_ID, key)
        }),
        Box::new(|accessory_public, _| second_request(&controller, accessory_public, CONTROLLER_ID, &[0; 32])),
        Box::new(|_, key| second_request(&controller, &[0; 32], CONTROLLER_ID, key)),
        Box::new(|_, key| {
            let proof = encode_items(&vec![(1, CONTROLLER_ID.as_bytes().to_vec())]);
            encode_items(&vec![(6, vec![3]), (5, seal_message(key, "PV-Msg03", &proof))])
        }),
        Box::new(|_, key| {
            let proof = encode_items(&vec![(1, CONTROLLER_ID.as_bytes().to_vec()), (10, vec![1; 63])]);
            encode_items(&vec![(6, vec![3]), (5, seal_message(key, "PV-Msg03", &proof))])
        }),
        Box::new(|_, key| encode_items(&vec![(6, vec![3]), (5, seal_message(key, "PV-Msg03", &[1]))])),
        Box::new(|_, _| encode_items(&vec![(6, vec![3]), (5, vec![1, 2, 3])])),
    ];
    for attempt in attempts {
        let mut transport = server();
        let response = transport.pair_verify(0, &first_request(&controller), &[4; 32]);
        let accessory_public = find(&decode_items(&response).unwrap(), 3).unwrap().clone();
        let shared = crypto::curve25519::curve25519(&controller.ephemeral_secret, &accessory_public);
        let request = attempt(&accessory_public, &session_key(&shared));
        assert_eq!(transport.pair_verify(0, &request, &[9; 32]), vec![6, 1, 4, 7, 1, 2]);
        assert!(matches!(transport.sessions.get(0).get_state(), SessionState::Unpaired));
    }
}

#[test]
fn pair_verify_refuses_requests_out_of_place() {
    let controller = new_controller();
    let mut transport = server();
    let unknown_2 = vec![6, 1, 2, 7, 1, 1];
    let unknown_4 = vec![6, 1, 4, 7, 1, 1];
    assert_eq!(transport.pair_verify(0, &[], &[4; 32]), unknown_2);
    assert_eq!(transport.pair_verify(0, &[6], &[4; 32]), unknown_2);
    assert_eq!(transport.pair_verify(0, &[6, 1, 2], &[4; 32]), unknown_2);
    assert_eq!(transport.pair_verify(0, &[6, 1, 1], &[4; 32]), unknown_2);
    assert_eq!(transport.pair_verify(0, &[6, 1, 1, 3, 2, 0, 0], &[4; 32]), unknown_2);
    assert_eq!(transport.pair_verify(0, &[6, 2, 1, 0], &[4; 32]), unknown_2);
    assert_eq!(transport.pair_verify(0, &[6, 1, 3, 5, 1, 0], &[4; 32]), unknown_4);
    assert!(matches!(transport.sessions.get(0).get_state(), SessionState::Unpaired));
    transport.pair_verify(0, &first_request(&controller), &[4; 32]);
    assert_eq!(transport.pair_verify(0, &[6, 1, 3], &[4; 32]), unknown_4);
    assert!(matches!(transport.sessions.get(0).get_state(), SessionState::InPairVerify { .. }));
}

#[test]
fn handle_and_finish_take_plain_values() {
    let controller = new_controller();
    let mut pairings = PairingStore::new();
    pairings.add(CONTROLLER_ID.to_string(), controller.public_key, false);
    let (next, response) = handle(&device(), &pairings, &SessionState::Unpaired, &first_request(&controller), &[4; 32]);
    let context = match next {
        Some(SessionState::InPairVerify { step: 2, ecdh_context }) => ecdh_context,
        other => panic!("{:?}", other),
    };
    assert_eq!(find(&decode_items(&response).unwrap(), 3), Some(&context.accessory_public.to_vec()));
    let request = second_request(&controller, &context.accessory_public, CONTROLLER_ID, &context.session_key);
    let encrypted = find(&decode_items(&request).unwrap(), 5).unwrap().clone();
    let keys = finish(&context, &pairings, &encrypted).unwrap();
    assert_eq!(keys.controller_id, CONTROLLER_ID);
    assert!(finish(&context, &PairingStore::new(), &encrypted).is_none());
    assert_eq!(respond_state(4, None), vec![6, 1, 4]);
    assert_eq!(respond_state(6, Some(2)), vec![6, 1, 6, 7, 1, 2]);
}
