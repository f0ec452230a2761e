use prost::encoding::{bool as flag, bytes, encode_key, encode_varint, int32, string, uint32, WireType};
use streamdeck_mobile::client_message::{
    AssignShortcut, Authenticate, CancelAuthenticate, ClientCapabilities, ClientInformation,
    ClientMessage, CreateVirtualDevice, DeleteVirtualDevice, HelloFromClient, KeyPress, KeypadConfig,
    NextPage, OpenVirtualDevice, PageByIndex, Payload, PreviousPage, RemoveShortcut, Size,
    TriggerShortcut, UpdateKeypadConfig,
};
use streamdeck_mobile::replies::{
    error_response, layout, ok, send_context, ErrorCode, ImageFormat, ImageType,
};
use streamdeck_mobile::server_message::{
    Action, Context, ContextUpdate, HelloFromServer, Icon, Image, Payload as Reply, ServerMessage,
    ServiceEndpoints, VirtualDevice, VirtualDeviceList, VirtualDeviceOpened,
};

fn nested(tag: u32, inner: &[u8]) -> Vec<u8> {
    let mut out = Vec::new();
    encode_key(tag, WireType::LengthDelimited, &mut out);
    encode_varint(inner.len() as u64, &mut out);
    out.extend_from_slice(inner);
    out
}

fn number(tag: u32, v: u32) -> Vec<u8> {
    let mut out = Vec::new();
    uint32::encode(tag, &v, &mut out);
    out
}

fn text(tag: u32, v: &str) -> Vec<u8> {
    let mut out = Vec::new();
    string::encode(tag, &v.to_owned(), &mut out);
    out
}

fn raw(tag: u32, v: &[u8]) -> Vec<u8> {
    let mut out = Vec::new();
    bytes::encode(tag, &v.to_vec(), &mut out);
    out
}

fn boolean(tag: u32, v: bool) -> Vec<u8> {
    let mut out = Vec::new();
    flag::encode(tag, &v, &mut out);
    out
}

fn joined(parts: &[Vec<u8>]) -> Vec<u8> {
    parts.concat()
}

fn decoded(frame: &[u8]) -> Option<Payload> {
    ClientMessage::decode(frame).unwrap().payload
}

fn size(width: u32, height: u32) -> Vec<u8> {
    joined(&[number(1, width), number(2, height)])
}

#[test]
fn empty_frame_is_an_empty_message() {
    assert_eq!(ClientMessage::decode(&[]), Some(ClientMessage { payload: None }));
}

#[test]
fn hello_is_read() {
    let info = joined(&[
        text(1, "Phone \u{1f4f1}"),
        text(2, "SD/7"),
        number(3, 2),
        text(4, "X1"),
        text(6, "17"),
    ]);
    let frame = nested(1, &joined(&[raw(1, &[1, 2, 3]), nested(2, &info)]));
    assert_eq!(
        decoded(&frame),
        Some(Payload::Hello(HelloFromClient {
            public_key: vec![1, 2, 3],
            client_information: Some(ClientInformation {
                name: "Phone \u{1f4f1}".to_owned(),
                user_agent: "SD/7".to_owned(),
                protocol_version: 2,
                device_model: Some("X1".to_owned()),
                os_name: None,
                os_version: Some("17".to_owned()),
            }),
        }))
    );
}

#[test]
fn requests_are_read() {
    assert_eq!(
        decoded(&[0x12, 0x02, 0x08, 0x2a]),
        Some(Payload::Authenticate(Authenticate { request_id: 42 }))
    );
    assert_eq!(
        decoded(&nested(3, &number(1, u32::MAX))),
        Some(Payload::CancelAuthenticate(CancelAuthenticate { request_id: u32::MAX }))
    );
    assert_eq!(
        decoded(&nested(12, &[])),
        Some(Payload::DeleteVirtualDevice(DeleteVirtualDevice { request_id: 0 }))
    );
}

#[test]
fn devices_are_read() {
    let mut formats = Vec::new();
    int32::encode_packed(1, &[5, -1, 100], &mut formats);
    let keypad = joined(&[
        formats,
        nested(2, &size(96, 97)),
        nested(3, &size(0, 1)),
        boolean(4, true),
        nested(6, &size(8, 4)),
        boolean(7, true),
    ]);
    let expected = || KeypadConfig {
        supported_icon_image_formats: vec![5, -1, 100],
        icon_size: Some(Size { width: 96, height: 97 }),
        pressed_icon_size: Some(Size { width: 0, height: 1 }),
        high_dpi: true,
        overscale: false,
        layout_crop: Some(Size { width: 8, height: 4 }),
        enable_context_api: true,
    };
    let create = joined(&[number(1, 9), text(2, "Desk"), nested(3, &keypad), boolean(4, true)]);
    assert_eq!(
        decoded(&nested(10, &create)),
        Some(Payload::CreateVirtualDevice(CreateVirtualDevice {
            request_id: 9,
            name: "Desk".to_owned(),
            keypad_config: Some(expected()),
            skip_uniqueness_of_name_validation: true,
        }))
    );
    let open = joined(&[number(1, 9), text(2, "sdm-1"), nested(3, &keypad)]);
    assert_eq!(
        decoded(&nested(11, &open)),
        Some(Payload::OpenVirtualDevice(OpenVirtualDevice {
            request_id: 9,
            device_id: "sdm-1".to_owned(),
            keypad_config: Some(expected()),
        }))
    );
}

#[test]
fn remaining_messages_are_read() {
    assert_eq!(
        decoded(&nested(20, &joined(&[number(1, 3), boolean(2, true)]))),
        Some(Payload::KeyPress(KeyPress { index: 3, pressed: true }))
    );
    assert_eq!(decoded(&nested(21, &[])), Some(Payload::NextPage(NextPage {})));
    assert_eq!(decoded(&nested(22, &[])), Some(Payload::PreviousPage(PreviousPage {})));
    assert_eq!(
        decoded(&nested(23, &number(1, 4))),
        Some(Payload::PageByIndex(PageByIndex { index: 4 }))
    );
    assert_eq!(
        decoded(&nested(30, &joined(&[nested(1, &size(1, 2)), boolean(3, false)]))),
        Some(Payload::UpdateKeypadConfig(UpdateKeypadConfig {
            icon_size: Some(Size { width: 1, height: 2 }),
            pressed_icon_size: None,
            high_dpi: Some(false),
            layout_crop: None,
        }))
    );
    assert_eq!(
        decoded(&nested(31, &joined(&[text(1, "p"), text(2, "s"), number(3, 5)]))),
        Some(Payload::AssignShortcut(AssignShortcut {
            profile_id: "p".to_owned(),
            shortcut_id: "s".to_owned(),
            index: 5,
        }))
    );
    assert_eq!(
        decoded(&nested(32, &joined(&[number(1, 6), text(2, "s")]))),
        Some(Payload::RemoveShortcut(RemoveShortcut {
            request_id: 6,
            shortcut_id: "s".to_owned(),
        }))
    );
    assert_eq!(
        decoded(&nested(33, &joined(&[text(1, "d"), text(2, "s")]))),
        Some(Payload::TriggerShortcut(TriggerShortcut {
            device_id: "d".to_owned(),
            shortcut_id: "s".to_owned(),
        }))
    );
    assert_eq!(
        decoded(&nested(100, &boolean(1, true))),
        Some(Payload::ClientCapabilities(ClientCapabilities { is_user_pro: true }))
    );
}

#[test]
fn later_fields_win_and_embedded_messages_merge() {
    let twice = joined(&[nested(2, &number(1, 1)), nested(2, &number(1, 2))]);
    assert_eq!(decoded(&twice), Some(Payload::Authenticate(Authenticate { request_id: 2 })));
    let kept = joined(&[nested(2, &number(1, 1)), nested(2, &[])]);
    assert_eq!(decoded(&kept), Some(Payload::Authenticate(Authenticate { request_id: 1 })));
    let changed = joined(&[nested(2, &number(1, 1)), nested(3, &[])]);
    assert_eq!(
        decoded(&changed),
        Some(Payload::CancelAuthenticate(CancelAuthenticate { request_id: 0 }))
    );
    let unpacked = joined(&[number(1, 5), number(1, 3), nested(1, &[4, 0])]);
    match decoded(&nested(11, &nested(3, &unpacked))) {
        Some(Payload::OpenVirtualDevice(open)) => {
            assert_eq!(open.keypad_config.unwrap().supported_icon_image_formats, vec![5, 3, 4, 0])
        }
        other => panic!("{:?}", other),
    }
}

#[test]
fn unknown_fields_are_skipped() {
    let mut frame = Vec::new();
    frame.extend_from_slice(&number(77, 5));
    frame.extend_from_slice(&raw(78, b"abc"));
    encode_key(79, WireType::SixtyFourBit, &mut frame);
    frame.extend_from_slice(&[1, 2, 3, 4, 5, 6, 7, 8]);
    encode_key(79, WireType::ThirtyTwoBit, &mut frame);
    frame.extend_from_slice(&[1, 2, 3, 4]);
    encode_key(80, WireType::StartGroup, &mut frame);
    frame.extend_from_slice(&number(1, 1));
    encode_key(80, WireType::EndGroup, &mut frame);
    frame.extend_from_slice(&nested(2, &number(1, 8)));
    assert_eq!(decoded(&frame), Some(Payload::Authenticate(Authenticate { request_id: 8 })));
}

#[test]
fn broken_frames_are_no_messages() {
    let broken: Vec<Vec<u8>> = vec![
        vec![0x12],
        vec![0x12, 0x05, 0x08],
        vec![0x10, 0x01],
        vec![0x00, 0x01],
        vec![0x07],
        vec![0x12, 0x02, 0x0a, 0x00],
        vec![0x0a, 0x04, 0x12, 0x02, 0x0a, 0x05],
        nested(31, &raw(1, &[0xff, 0xfe])),
        vec![0xff; 11],
        vec![0x14],
        vec![0x13, 0x1c],
        vec![0x83, 0x05, 0x0b],
    ];
    for frame in broken {
        assert_eq!(ClientMessage::decode(&frame), None, "{:?}", frame);
    }
}

#[test]
fn long_numbers_are_cut_to_their_width() {
    let frame = nested(2, &[0x08, 0xff, 0xff, 0xff, 0xff, 0xff, 0xff, 0xff, 0xff, 0xff, 0x01]);
    assert_eq!(
        decoded(&frame),
        Some(Payload::Authenticate(Authenticate { request_id: u32::MAX }))
    );
    let overlong = nested(2, &[0x08, 0xff, 0xff, 0xff, 0xff, 0xff, 0xff, 0xff, 0xff, 0xff, 0x02]);
    assert_eq!(ClientMessage::decode(&overlong), None);
}

#[test]
fn groups_nest_only_so_deep() {
    let deep = |levels: u32| {
        let mut frame = Vec::new();
        for _ in 0..levels {
            encode_key(80, WireType::StartGroup, &mut frame);
        }
        for _ in 0..levels {
            encode_key(80, WireType::EndGroup, &mut frame);
        }
        frame
    };
    assert!(ClientMessage::decode(&deep(100)).is_some());
    assert!(ClientMessage::decode(&deep(101)).is_none());
}

#[test]
fn success_and_failure_are_written() {
    assert_eq!(ok(7).encode_to_vec(), vec![0x12, 0x02, 0x08, 0x07]);
    assert_eq!(ok(0).encode_to_vec(), vec![0x12, 0x00]);
    assert_eq!(
        error_response(300, ErrorCode::Cancelled, "no").encode_to_vec(),
        vec![0x0a, 0x09, 0x08, 0xac, 0x02, 0x10, 0x04, 0x1a, 0x02, b'n', b'o']
    );
    assert_eq!(
        error_response(0, ErrorCode::DeviceNotFound, "").encode_to_vec(),
        vec![0x0a, 0x02, 0x1a, 0x00]
    );
    assert_eq!(
        nested(1, &joined(&[number(1, 1), number(2, 3), text(3, "why")])),
        error_response(1, ErrorCode::AuthenticationRejected, "why").encode_to_vec()
    );
}

fn frame(reply: Reply) -> Vec<u8> {
    ServerMessage { payload: Some(reply) }.encode_to_vec()
}

#[test]
fn server_messages_are_written() {
    assert_eq!(ServerMessage { payload: None }.encode_to_vec(), Vec::<u8>::new());
    let hello = HelloFromServer {
        workstation_id: "w".to_owned(),
        hostname: "h".to_owned(),
        version: "1.2".to_owned(),
        protocol_version: 2,
        public_key: vec![1, 2],
        client_needs_authentication: true,
        os_name: Some("linux".to_owned()),
        os_version: None,
        endpoints: Some(ServiceEndpoints {
            addresses: vec!["a".to_owned(), "".to_owned()],
            port: 28198,
        }),
    };
    let endpoints = joined(&[text(1, "a"), text(1, ""), number(2, 28198)]);
    let expected = joined(&[
        text(1, "w"),
        text(2, "h"),
        text(3, "1.2"),
        number(4, 2),
        raw(5, &[1, 2]),
        boolean(6, true),
        text(7, "linux"),
        nested(9, &endpoints),
    ]);
    assert_eq!(frame(Reply::Hello(hello)), nested(10, &expected));

    let device = |id: &str, name: &str| VirtualDevice { id: id.to_owned(), name: name.to_owned() };
    let list = VirtualDeviceList { devices: vec![device("a", ""), device("", "b")] };
    assert_eq!(
        frame(Reply::VirtualDeviceList(list)),
        nested(20, &joined(&[nested(1, &text(1, "a")), nested(1, &text(2, "b"))]))
    );
    let opened = VirtualDeviceOpened { request_id: 5, device: Some(device("i", "n")) };
    let inner = joined(&[text(1, "i"), text(2, "n")]);
    assert_eq!(
        frame(Reply::VirtualDeviceOpened(opened)),
        nested(21, &joined(&[number(1, 5), nested(2, &inner)]))
    );
    let action = || Action {
        index: 2,
        title: "t".to_owned(),
        name: "n".to_owned(),
        category: "c".to_owned(),
        shortcut_id: Some("".to_owned()),
    };
    let written = joined(&[number(1, 2), text(2, "t"), text(3, "n"), text(4, "c"), text(5, "")]);
    let context = Context {
        profile_id: "p".to_owned(),
        total_pages: 3,
        current_page: 0,
        actions: vec![action()],
    };
    assert_eq!(
        frame(Reply::Context(context)),
        nested(30, &joined(&[text(1, "p"), number(2, 3), nested(4, &written)]))
    );
    let update = ContextUpdate {
        profile_id: "p".to_owned(),
        replace: vec![action(), action()],
        remove: vec![1, 300],
    };
    let mut removed = Vec::new();
    uint32::encode_packed(3, &[1, 300], &mut removed);
    assert_eq!(
        frame(Reply::ContextUpdate(update)),
        nested(31, &joined(&[text(1, "p"), nested(2, &written), nested(2, &written), removed]))
    );
    let icon = Icon {
        index: 4,
        image: Some(Image {
            format: -1,
            image_type: 1,
            size: Some(Size { width: 2, height: 0 }),
            row_bytes: 8,
            image: vec![0xaa],
        }),
    };
    let mut format = Vec::new();
    int32::encode(1, &-1, &mut format);
    let picture = joined(&[
        format,
        number(2, 1),
        nested(3, &number(1, 2)),
        number(4, 8),
        raw(5, &[0xaa]),
    ]);
    assert_eq!(
        frame(Reply::Icon(icon)),
        nested(40, &joined(&[number(1, 4), nested(2, &picture)]))
    );
}

fn keypad(crop: Option<Size>) -> KeypadConfig {
    KeypadConfig {
        supported_icon_image_formats: vec![],
        icon_size: None,
        pressed_icon_size: None,
        high_dpi: false,
        overscale: false,
        layout_crop: crop,
        enable_context_api: false,
    }
}

#[test]
fn layouts_stay_within_bounds() {
    assert_eq!(layout(&None), (3, 5));
    assert_eq!(layout(&Some(Size { width: 8, height: 4 })), (4, 8));
    assert_eq!(layout(&Some(Size { width: 0, height: 0 })), (1, 1));
    assert_eq!(layout(&Some(Size { width: 256, height: u32::MAX })), (255, 255));
    assert_eq!(layout(&Some(Size { width: 255, height: 1 })), (1, 255));
}

#[test]
fn pages_have_one_blank_key_per_place() {
    let page = |keys: u32| {
        let mut inner = joined(&[text(1, "opendeck-mobile-profile"), number(2, 1)]);
        for index in 0..keys {
            let key = if index == 0 { vec![] } else { number(1, index) };
            inner.extend_from_slice(&nested(4, &key));
        }
        nested(30, &inner)
    };
    assert_eq!(send_context(&keypad(None)), page(15));
    assert_eq!(send_context(&keypad(Some(Size { width: 2, height: 3 }))), page(6));
    assert_eq!(send_context(&keypad(Some(Size { width: 0, height: 0 }))), page(1));
    assert_eq!(send_context(&keypad(Some(Size { width: 20, height: 10 }))), page(200));
}

#[test]
fn numbers_stand_for_kinds() {
    assert_eq!(
        [
            ImageFormat::Lzf,
            ImageFormat::Lzfse,
            ImageFormat::Lz4,
            ImageFormat::Bmp,
            ImageFormat::Jpg,
            ImageFormat::Png,
            ImageFormat::Invalid
        ]
        .map(|f| f.code()),
        [0, 1, 2, 3, 4, 5, 100]
    );
    assert_eq!([ImageType::Opaque, ImageType::Transparent].map(|t| t.code()), [0, 1]);
    assert_eq!(
        [
            ErrorCode::DeviceNotFound,
            ErrorCode::DeviceNameAlreadyTaken,
            ErrorCode::ResourceLimitReached,
            ErrorCode::AuthenticationRejected,
            ErrorCode::Cancelled,
            ErrorCode::InvalidState
        ]
        .map(|c| c.code()),
        [0, 1, 2, 3, 4, 5]
    );
}

fn next(state: &mut u64) -> u64 {
    *state = state.wrapping_mul(6364136223846793005).wrapping_add(1442695040888963407);
    *state >> 33
}

#[test]
fn frames_of_unknown_fields_are_judged_as_by_the_format() {
    let mut state: u64 = 7;
    let mut good = 0;
    for _ in 0..4000 {
        let mut frame = Vec::new();
        for _ in 0..next(&mut state) % 7 {
            let kind = [0, 1, 2, 3, 3, 4, 4, 5, 6][(next(&mut state) % 9) as usize];
            encode_varint([300u64, 300, 78][(next(&mut state) % 3) as usize] * 8 + kind, &mut frame);
            match kind {
                0 => {
                    for _ in 0..next(&mut state) % 11 {
                        frame.push(0x80 | (next(&mut state) % 128) as u8);
                    }
                    frame.push((next(&mut state) % 3) as u8);
                }
                1 => frame.extend_from_slice(&[1; 8]),
                2 => frame.extend_from_slice(&[2, 7, 7]),
                5 => frame.extend_from_slice(&[1; 4]),
                _ => {}
            }
        }
        if next(&mut state) % 4 == 0 {
            frame.pop();
        }
        let expected = <() as prost::Message>::decode(frame.as_slice()).is_ok();
        good += u32::from(expected);
        assert_eq!(ClientMessage::decode(&frame).is_some(), expected, "{:?}", frame);
    }
    assert!(good > 100);
    for levels in [99, 100, 101, 102] {
        let mut frame = Vec::new();
        for _ in 0..levels {
            encode_key(80, WireType::StartGroup, &mut frame);
        }
        for _ in 0..levels {
            encode_key(80, WireType::EndGroup, &mut frame);
        }
        let expected = <() as prost::Message>::decode(frame.as_slice()).is_ok();
        assert_eq!(ClientMessage::decode(&frame).is_some(), expected);
    }
}

#[test]
fn numbers_are_read_as_by_the_format() {
    let mut state: u64 = 11;
    for _ in 0..4000 {
        let mut inner = vec![0x08];
        for _ in 0..next(&mut state) % 12 {
            let high = if next(&mut state) % 4 == 0 { 0 } else { 0x80 };
            inner.push((next(&mut state) % 128) as u8 | high);
        }
        let expected = <u32 as prost::Message>::decode(inner.as_slice()).ok();
        let read = match ClientMessage::decode(&nested(2, &inner)) {
            Some(ClientMessage { payload: Some(Payload::Authenticate(m)) }) => Some(m.request_id),
            _ => None,
        };
        assert_eq!(read, expected, "{:?}", inner);
    }
}

#[test]
fn texts_are_read_as_by_the_format() {
    let mut state: u64 = 13;
    for _ in 0..4000 {
        let mut content = Vec::new();
        for _ in 0..next(&mut state) % 6 {
            content.push([0x41, 0xc3, 0xbc, 0xe2, 0x82, 0xac, 0xf0, 0x9f, 0x80, 0xed][(next(&mut state) % 10) as usize]);
        }
        let inner = nested(1, &content);
        let expected = <String as prost::Message>::decode(inner.as_slice()).ok();
        let read = match ClientMessage::decode(&nested(31, &inner)) {
            Some(ClientMessage { payload: Some(Payload::AssignShortcut(m)) }) => Some(m.profile_id),
            _ => None,
        };
        assert_eq!(read, expected, "{:?}", content);
    }
}
