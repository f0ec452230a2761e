use crypto_box::aead::generic_array::GenericArray;
use crypto_box::aead::Aead;
use crypto_box::{PublicKey, SalsaBox, SecretKey};
use prost::encoding::{encode_key, encode_varint, string, uint32, WireType};
use streamdeck_mobile::client_message::{KeypadConfig, Size};
use streamdeck_mobile::crypto::seal_reply;
use streamdeck_mobile::identity::ServerKeys;
use streamdeck_mobile::inbound::{DeviceInfo, PayloadEvent};
use streamdeck_mobile::pairing::{streamdeck_mobile_resolve_pairing, PendingPairing};
use streamdeck_mobile::replies::{error_response, ok, send_context, ErrorCode};
use streamdeck_mobile::server_message::{
    HelloFromServer, Payload, ServerMessage, ServiceEndpoints, VirtualDevice, VirtualDeviceOpened,
};
use streamdeck_mobile::session::{
    approval_status, attach, deregister_open_deck_device, disconnect, drop_pending,
    finish_authentication, handle_client, is_mobile_device, register_open_deck_device, ApprovalWait,
    Effect, Hub, ServerProfile, Session, SocketEvent,
};

const APP: [u8; 32] = [9; 32];
const CODE: &str = "7794be";

fn nested(tag: u32, inner: &[u8]) -> Vec<u8> {
    let mut out = Vec::new();
    encode_key(tag, WireType::LengthDelimited, &mut out);
    encode_varint(inner.len() as u64, &mut out);
    out.extend_from_slice(inner);
    out
}

fn number(tag: u32, v: u32) -> Vec<u8> {
    let mut out = Vec::new();
    uint32::encode(tag, &v, &mut out);
    out
}

fn text(tag: u32, v: &str) -> Vec<u8> {
    let mut out = Vec::new();
    string::encode(tag, &v.to_owned(), &mut out);
    out
}

fn app_key() -> [u8; 32] {
    *SecretKey::from(APP).public_key().as_bytes()
}

fn server() -> ServerProfile {
    ServerProfile::new(
        &mut ServerKeys::new(),
        "studio".to_owned(),
        &None,
        Some([192, 168, 1, 7]),
        "2.5.0".to_owned(),
        "linux".to_owned(),
    )
}

fn session() -> Session {
    Session::new(1, "10.0.0.9:50000".to_owned(), "10.0.0.9".to_owned())
}

fn binary(frame: Vec<u8>) -> SocketEvent {
    SocketEvent::Binary(frame)
}

fn hello(key: &[u8]) -> SocketEvent {
    binary(nested(1, &nested(1, key)))
}

fn sealed(plaintext: &[u8]) -> SocketEvent {
    let server_key = PublicKey::from(<[u8; 32]>::try_from(server().public_key).unwrap());
    let nonce = [1u8; 24];
    let boxed = SalsaBox::new(&server_key, &SecretKey::from(APP))
        .encrypt(GenericArray::from_slice(&nonce), plaintext)
        .unwrap();
    let mut frame = nonce.to_vec();
    frame.extend_from_slice(&boxed);
    binary(frame)
}

fn opened_by_app(frame: &[u8]) -> Vec<u8> {
    let server_key = PublicKey::from(<[u8; 32]>::try_from(server().public_key).unwrap());
    SalsaBox::new(&server_key, &SecretKey::from(APP))
        .decrypt(GenericArray::from_slice(&frame[..24]), &frame[24..])
        .unwrap()
}

fn run(hub: &mut Hub, session: &mut Session, event: SocketEvent) -> Vec<Effect> {
    handle_client(hub, session, &server(), &vec![], event)
}

fn hello_reply(needs_authentication: bool) -> Vec<u8> {
    let server = server();
    ServerMessage {
        payload: Some(Payload::Hello(HelloFromServer {
            workstation_id: "DTSo93TqJmCksXlJltjlKw".to_owned(),
            hostname: "studio".to_owned(),
            version: "2.5.0".to_owned(),
            protocol_version: 2,
            public_key: server.public_key,
            client_needs_authentication: needs_authentication,
            os_name: Some("linux".to_owned()),
            os_version: None,
            endpoints: Some(ServiceEndpoints {
                addresses: vec!["192.168.1.7".to_owned()],
                port: 28198,
            }),
        })),
    }
    .encode_to_vec()
}

fn rejected(request_id: u32) -> Vec<u8> {
    error_response(
        request_id,
        ErrorCode::AuthenticationRejected,
        "Desktop did not approve this Stream Deck Mobile pairing",
    )
    .encode_to_vec()
}

fn cancelled(request_id: u32) -> Vec<u8> {
    error_response(request_id, ErrorCode::Cancelled, "Authentication cancelled by client")
        .encode_to_vec()
}

fn wait(request_id: u32, sealed: bool) -> ApprovalWait {
    ApprovalWait {
        key_id: CODE.to_owned(),
        request_id,
        sealed_for: if sealed { Some(app_key()) } else { None },
        seconds: if sealed { 120 } else { 60 },
    }
}

fn waiting() -> PendingPairing {
    PendingPairing {
        fingerprint: CODE.to_owned(),
        name: "Stream Deck Mobile".to_owned(),
        peer: "10.0.0.9:50000".to_owned(),
        approved: false,
    }
}

#[test]
fn mobile_devices_are_known_by_their_prefix() {
    assert!(is_mobile_device("sdm-a1b2c3"));
    assert!(is_mobile_device("sdm-"));
    assert!(!is_mobile_device("sdm"));
    assert!(!is_mobile_device(""));
    assert!(!is_mobile_device("sd-AL01"));
    assert!(!is_mobile_device("xsdm-a1b2c3"));
}

#[test]
fn hello_is_answered_without_a_prompt() {
    let mut hub = Hub::new();
    let mut session = session();
    let effects = run(&mut hub, &mut session, hello(&app_key()));
    assert_eq!(effects, vec![Effect::Send(hello_reply(true))]);
    assert_eq!(session.device_id, Some(format!("sdm-{}", CODE)));
    assert_eq!(session.client_fingerprint, Some(CODE.to_owned()));
    assert!(!session.authenticated);
    assert_eq!(hub.public_keys.get(CODE), Some(&app_key().to_vec()));
    assert_eq!(hub.pending.len(), 0);
    assert!(is_mobile_device(&session.device_id.unwrap()));
}

#[test]
fn hello_needs_a_key() {
    let mut hub = Hub::new();
    let mut session = session();
    assert_eq!(
        run(&mut hub, &mut session, hello(&[])),
        vec![Effect::Fail("Stream Deck Mobile sent an empty public key".to_owned())]
    );
    assert_eq!(session.client_fingerprint, None);
    assert_eq!(hub.public_keys.len(), 0);
}

#[test]
fn authentication_needs_a_hello() {
    let mut hub = Hub::new();
    let mut session = session();
    assert_eq!(
        run(&mut hub, &mut session, binary(nested(2, &number(1, 4)))),
        vec![Effect::Fail("Authenticate received before Hello".to_owned())]
    );
    assert_eq!(hub.pending.len(), 0);
    assert_eq!(run(&mut hub, &mut session, sealed(&nested(2, &number(1, 4)))), vec![]);
}

#[test]
fn request_in_the_clear_is_approved() {
    let mut hub = Hub::new();
    let mut session = session();
    run(&mut hub, &mut session, hello(&app_key()));
    let effects = run(&mut hub, &mut session, binary(nested(2, &number(1, 4))));
    assert_eq!(effects, vec![Effect::AwaitApproval(wait(4, false))]);
    assert_eq!(hub.pending.get(CODE), Some(&waiting()));
    assert_eq!(approval_status(&hub, &CODE.to_owned()), None);
    streamdeck_mobile_resolve_pairing(&mut hub.pending, CODE, false).unwrap();
    assert_eq!(approval_status(&hub, &CODE.to_owned()), None);
    streamdeck_mobile_resolve_pairing(&mut hub.pending, CODE, true).unwrap();
    assert_eq!(approval_status(&hub, &CODE.to_owned()), Some(true));
    let effects = finish_authentication(&mut hub, &mut session, wait(4, false), true);
    assert_eq!(
        effects,
        vec![Effect::Send(ok(4).encode_to_vec()), Effect::DropPending(CODE.to_owned())]
    );
    assert!(session.authenticated);
    assert!(hub.authenticated.contains_key(CODE));
    drop_pending(&mut hub, &CODE.to_owned());
    assert_eq!(approval_status(&hub, &CODE.to_owned()), Some(false));
}

#[test]
fn approval_of_a_request_in_the_clear_is_remembered() {
    let mut hub = Hub::new();
    let mut first = session();
    run(&mut hub, &mut first, hello(&app_key()));
    run(&mut hub, &mut first, binary(nested(2, &number(1, 4))));
    streamdeck_mobile_resolve_pairing(&mut hub.pending, CODE, true).unwrap();
    finish_authentication(&mut hub, &mut first, wait(4, false), true);
    drop_pending(&mut hub, &CODE.to_owned());
    disconnect(&mut hub, &first);

    let mut second = session();
    assert_eq!(
        run(&mut hub, &mut second, hello(&app_key())),
        vec![Effect::Send(hello_reply(false))]
    );
    assert!(second.authenticated);
    assert_eq!(
        run(&mut hub, &mut second, binary(nested(2, &number(1, 5)))),
        vec![Effect::Send(ok(5).encode_to_vec())]
    );
    assert_eq!(
        run(&mut hub, &mut second, sealed(&nested(2, &number(1, 6)))),
        vec![Effect::SendSealed { peer: app_key(), plaintext: ok(6).encode_to_vec() }]
    );
    assert_eq!(hub.pending.len(), 0);
}

#[test]
fn request_in_the_clear_is_refused() {
    let mut hub = Hub::new();
    let mut session = session();
    run(&mut hub, &mut session, hello(&app_key()));
    run(&mut hub, &mut session, binary(nested(2, &number(1, 4))));
    let effects = finish_authentication(&mut hub, &mut session, wait(4, false), false);
    assert_eq!(
        effects,
        vec![Effect::Send(rejected(4)), Effect::DropPending(CODE.to_owned())]
    );
    assert!(!session.authenticated);
    assert!(!hub.authenticated.contains_key(CODE));
}

#[test]
fn request_in_the_clear_replaces_an_older_one() {
    let mut hub = Hub::new();
    let mut session = session();
    run(&mut hub, &mut session, hello(&app_key()));
    run(&mut hub, &mut session, binary(nested(2, &number(1, 4))));
    streamdeck_mobile_resolve_pairing(&mut hub.pending, CODE, true).unwrap();
    run(&mut hub, &mut session, binary(nested(2, &number(1, 5))));
    assert_eq!(hub.pending.get(CODE), Some(&waiting()));
}

#[test]
fn approval_of_a_sealed_request_is_remembered() {
    let mut hub = Hub::new();
    let mut first = session();
    run(&mut hub, &mut first, hello(&app_key()));
    let effects = run(&mut hub, &mut first, sealed(&nested(2, &number(1, 6))));
    assert_eq!(effects, vec![Effect::AwaitApproval(wait(6, true))]);
    assert_eq!(hub.pending.get(CODE), Some(&waiting()));
    let effects = finish_authentication(&mut hub, &mut first, wait(6, true), true);
    let plaintext = ok(6).encode_to_vec();
    assert_eq!(
        effects,
        vec![
            Effect::SendSealed { peer: app_key(), plaintext: plaintext.clone() },
            Effect::DropPending(CODE.to_owned())
        ]
    );
    let frame = seal_reply(&app_key(), &server().secret_key, &plaintext).unwrap();
    assert_eq!(opened_by_app(&frame), plaintext);
    assert!(first.authenticated);
    assert!(hub.authenticated.contains_key(CODE));
    assert!(!hub.pending.contains_key(CODE));
    disconnect(&mut hub, &first);

    let mut second = session();
    assert_eq!(
        run(&mut hub, &mut second, hello(&app_key())),
        vec![Effect::Send(hello_reply(false))]
    );
    assert!(second.authenticated);
    assert_eq!(
        run(&mut hub, &mut second, sealed(&nested(2, &number(1, 7)))),
        vec![Effect::SendSealed { peer: app_key(), plaintext: ok(7).encode_to_vec() }]
    );
    assert_eq!(
        run(&mut hub, &mut second, binary(nested(2, &number(1, 8)))),
        vec![Effect::Send(ok(8).encode_to_vec())]
    );
    assert_eq!(hub.pending.len(), 0);
}

#[test]
fn sealed_request_is_refused() {
    let mut hub = Hub::new();
    let mut session = session();
    run(&mut hub, &mut session, hello(&app_key()));
    run(&mut hub, &mut session, sealed(&nested(2, &number(1, 6))));
    let effects = finish_authentication(&mut hub, &mut session, wait(6, true), false);
    assert_eq!(
        effects,
        vec![
            Effect::SendSealed { peer: app_key(), plaintext: rejected(6) },
            Effect::DropPending(CODE.to_owned())
        ]
    );
    assert!(!session.authenticated);
    assert!(!hub.authenticated.contains_key(CODE));
    assert!(hub.pending.contains_key(CODE));
}

#[test]
fn waiting_sealed_request_is_not_reset() {
    let mut hub = Hub::new();
    let mut first = session();
    run(&mut hub, &mut first, hello(&app_key()));
    run(&mut hub, &mut first, sealed(&nested(2, &number(1, 6))));
    streamdeck_mobile_resolve_pairing(&mut hub.pending, CODE, true).unwrap();
    let mut second = Session::new(2, "10.0.0.9:50001".to_owned(), "10.0.0.9".to_owned());
    run(&mut hub, &mut second, hello(&app_key()));
    run(&mut hub, &mut second, sealed(&nested(2, &number(1, 7))));
    assert_eq!(hub.pending.get(CODE).unwrap().peer, "10.0.0.9:50000");
    assert_eq!(approval_status(&hub, &CODE.to_owned()), Some(true));
}

#[test]
fn cancellation_is_answered() {
    let mut hub = Hub::new();
    let mut session = session();
    assert_eq!(
        run(&mut hub, &mut session, binary(nested(3, &number(1, 8)))),
        vec![Effect::Send(cancelled(8))]
    );
    run(&mut hub, &mut session, hello(&app_key()));
    run(&mut hub, &mut session, sealed(&nested(2, &number(1, 6))));
    assert_eq!(
        run(&mut hub, &mut session, sealed(&nested(3, &number(1, 9)))),
        vec![Effect::SendSealed { peer: app_key(), plaintext: cancelled(9) }]
    );
    assert!(hub.pending.contains_key(CODE));
    assert_eq!(
        run(&mut hub, &mut session, binary(nested(3, &number(1, 8)))),
        vec![Effect::Send(cancelled(8))]
    );
    assert_eq!(approval_status(&hub, &CODE.to_owned()), Some(false));
}

#[test]
fn sealed_frames_that_do_not_fit_are_ignored() {
    let mut hub = Hub::new();
    let mut session = session();
    run(&mut hub, &mut session, hello(&app_key()));
    assert_eq!(run(&mut hub, &mut session, binary(vec![0xff; 39])), vec![]);
    assert_eq!(run(&mut hub, &mut session, binary(vec![0xff; 60])), vec![]);
    assert_eq!(run(&mut hub, &mut session, sealed(&nested(21, &[]))), vec![]);
    assert_eq!(run(&mut hub, &mut session, sealed(&[0xff])), vec![]);
    assert_eq!(hub.pending.len(), 0);
    hub.public_keys.remove(CODE);
    assert_eq!(run(&mut hub, &mut session, sealed(&nested(2, &number(1, 6)))), vec![]);
    hub.public_keys.insert(CODE, vec![1; 31]);
    assert_eq!(run(&mut hub, &mut session, sealed(&nested(2, &number(1, 6)))), vec![]);
}

fn device(id: &str, name: &str, rows: u8, columns: u8) -> PayloadEvent<DeviceInfo> {
    PayloadEvent {
        payload: DeviceInfo {
            id: id.to_owned(),
            plugin: String::new(),
            name: name.to_owned(),
            rows,
            columns,
            encoders: 0,
            touchpoints: 0,
            infobars: 0,
            device_type: 3,
        },
    }
}

fn opened(request_id: u32, id: &str, name: &str) -> Vec<u8> {
    ServerMessage {
        payload: Some(Payload::VirtualDeviceOpened(VirtualDeviceOpened {
            request_id,
            device: Some(VirtualDevice { id: id.to_owned(), name: name.to_owned() }),
        })),
    }
    .encode_to_vec()
}

fn keypad(crop: Option<Size>) -> KeypadConfig {
    KeypadConfig {
        supported_icon_image_formats: vec![],
        icon_size: None,
        pressed_icon_size: None,
        high_dpi: false,
        overscale: false,
        layout_crop: crop,
        enable_context_api: false,
    }
}

#[test]
fn devices_are_created() {
    let mut hub = Hub::new();
    let mut session = session();
    let create = [number(1, 3), text(2, "Desk")].concat();
    assert_eq!(
        run(&mut hub, &mut session, binary(nested(10, &create))),
        vec![
            Effect::Register(device("sdm-10.0.0.9", "Desk", 3, 5)),
            Effect::Attach("sdm-10.0.0.9".to_owned()),
            Effect::Send(opened(3, "sdm-10.0.0.9", "Desk")),
            Effect::Send(send_context(&keypad(Some(Size { width: 5, height: 3 })))),
        ]
    );
    assert_eq!(session.device_id, None);
    run(&mut hub, &mut session, hello(&app_key()));
    let crop = [number(1, 8), number(2, 4)].concat();
    let create = [number(1, 3), text(2, "Desk"), nested(3, &nested(6, &crop))].concat();
    let id = format!("sdm-{}", CODE);
    let effects = |registered: bool| {
        let mut effects = vec![
            Effect::Attach(id.clone()),
            Effect::Send(opened(3, &id, "Desk")),
            Effect::Send(send_context(&keypad(Some(Size { width: 8, height: 4 })))),
        ];
        if !registered {
            effects.insert(0, Effect::Register(device(&id, "Desk", 4, 8)));
        }
        effects
    };
    assert_eq!(run(&mut hub, &mut session, binary(nested(10, &create))), effects(false));
    let known = vec![id.clone()];
    assert_eq!(
        handle_client(&mut hub, &mut session, &server(), &known, binary(nested(10, &create))),
        effects(true)
    );
}

#[test]
fn devices_without_a_crop_have_the_default_layout() {
    let mut hub = Hub::new();
    let mut session = session();
    let create = [text(2, "Desk"), nested(3, &[])].concat();
    let effects = run(&mut hub, &mut session, binary(nested(10, &create)));
    assert_eq!(effects[0], Effect::Register(device("sdm-10.0.0.9", "Desk", 3, 5)));
    assert_eq!(effects[3], Effect::Send(send_context(&keypad(None))));
}

#[test]
fn devices_are_opened() {
    let mut hub = Hub::new();
    let mut session = session();
    let open = [number(1, 3), text(2, "sdm-x")].concat();
    assert_eq!(
        run(&mut hub, &mut session, binary(nested(11, &open))),
        vec![
            Effect::Register(device("sdm-x", "Stream Deck Mobile", 3, 5)),
            Effect::Attach("sdm-x".to_owned()),
            Effect::Send(opened(3, "sdm-x", "Stream Deck Mobile")),
        ]
    );
    assert_eq!(session.device_id, Some("sdm-x".to_owned()));
    let crop = [number(1, 2), number(2, 1000)].concat();
    let open = [number(1, 4), text(2, "sdm-y"), nested(3, &nested(6, &crop))].concat();
    let known = vec!["sdm-x".to_owned(), "sdm-y".to_owned()];
    assert_eq!(
        handle_client(&mut hub, &mut session, &server(), &known, binary(nested(11, &open))),
        vec![
            Effect::Attach("sdm-y".to_owned()),
            Effect::Send(opened(4, "sdm-y", "Stream Deck Mobile")),
            Effect::Send(send_context(&keypad(Some(Size { width: 2, height: 1000 })))),
        ]
    );
}

#[test]
fn devices_are_given_up() {
    let mut hub = Hub::new();
    let mut session = session();
    assert_eq!(
        run(&mut hub, &mut session, binary(nested(12, &number(1, 5)))),
        vec![Effect::Send(ok(5).encode_to_vec())]
    );
    run(&mut hub, &mut session, hello(&app_key()));
    let id = format!("sdm-{}", CODE);
    attach(&mut hub, &id, session.connection);
    assert_eq!(hub.clients.get(&id), Some(&1));
    assert_eq!(
        run(&mut hub, &mut session, binary(nested(12, &number(1, 5)))),
        vec![
            Effect::Deregister(PayloadEvent { payload: id.clone() }),
            Effect::Send(ok(5).encode_to_vec())
        ]
    );
    assert!(!hub.clients.contains_key(&id));
}

#[test]
fn other_messages_change_nothing() {
    let mut hub = Hub::new();
    let mut session = session();
    run(&mut hub, &mut session, hello(&app_key()));
    for tag in [20, 21, 22, 23, 30, 31, 32, 33, 100] {
        assert_eq!(run(&mut hub, &mut session, binary(nested(tag, &[]))), vec![]);
    }
    assert_eq!(run(&mut hub, &mut session, binary(vec![])), vec![]);
    assert_eq!(run(&mut hub, &mut session, SocketEvent::Other), vec![]);
    assert_eq!(
        run(&mut hub, &mut session, SocketEvent::Ping(vec![1, 2])),
        vec![Effect::Pong(vec![1, 2])]
    );
    assert_eq!(run(&mut hub, &mut session, SocketEvent::Close), vec![Effect::Close]);
}

#[test]
fn the_app_stays_known_after_its_connection() {
    let mut hub = Hub::new();
    let mut session = session();
    run(&mut hub, &mut session, hello(&app_key()));
    run(&mut hub, &mut session, sealed(&nested(2, &number(1, 6))));
    let id = format!("sdm-{}", CODE);
    attach(&mut hub, &id, 1);
    attach(&mut hub, &"sdm-other".to_owned(), 2);
    disconnect(&mut hub, &session);
    assert!(!hub.clients.contains_key(&id));
    assert!(hub.clients.contains_key("sdm-other"));
    assert!(hub.public_keys.contains_key(CODE));
    assert!(hub.pending.contains_key(CODE));
}

#[test]
fn devices_are_made_known_once() {
    let id = "sdm-1".to_owned();
    assert_eq!(
        register_open_deck_device(&vec![], &id, "n", (2, 3)),
        Some(device("sdm-1", "n", 2, 3))
    );
    assert_eq!(register_open_deck_device(&vec![id.clone()], &id, "n", (2, 3)), None);
    assert_eq!(deregister_open_deck_device(&id), PayloadEvent { payload: id.clone() });
}

#[test]
fn keys_and_requests_are_filed_under_their_code() {
    let mut hub = Hub::new();
    for (seed, connection) in [(1u8, 1u64), (2, 2), (3, 3)] {
        let key = *SecretKey::from([seed; 32]).public_key().as_bytes();
        let mut session = Session::new(connection, format!("p{}", seed), "p".to_owned());
        run(&mut hub, &mut session, hello(&key));
        run(&mut hub, &mut session, binary(nested(2, &number(1, 1))));
        let code = session.client_fingerprint.clone().unwrap();
        assert_eq!(code, streamdeck_mobile::identity::client_key_id(&key));
        assert_eq!(hub.public_keys.get(&code), Some(&key.to_vec()));
        assert_eq!(hub.pending.get(&code).unwrap().fingerprint, code);
        assert_eq!(hub.pending.get(&code).unwrap().peer, format!("p{}", seed));
    }
    assert_eq!(hub.public_keys.len(), 3);
    assert_eq!(hub.authenticated.len(), 0);
}
