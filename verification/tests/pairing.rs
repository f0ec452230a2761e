use base64::Engine;
use qrcodegen::{QrCode, QrCodeEcc};
use streamdeck_mobile::identity::ServerKeys;
use streamdeck_mobile::pairing::{
    build_connect_url, build_qr_data_url, modules_data_url, pairing_info, qr_svg,
    streamdeck_mobile_pairing_info, streamdeck_mobile_pending_pairings,
    streamdeck_mobile_resolve_pairing, PairingCandidate, PendingPairing,
};
use streamdeck_mobile::registry::Registry;

fn request(fingerprint: &str, approved: bool) -> PendingPairing {
    PendingPairing {
        fingerprint: fingerprint.to_owned(),
        name: "Stream Deck Mobile".to_owned(),
        peer: "10.0.0.9:50000".to_owned(),
        approved,
    }
}

#[test]
fn pending_requests_are_listed_once() {
    let mut pending: Registry<PendingPairing> = Registry::new();
    assert!(streamdeck_mobile_pending_pairings(&pending).is_empty());
    pending.insert("aa", request("aa", false));
    pending.insert("bb", request("bb", true));
    pending.insert("aa", request("aa", true));
    let mut codes: Vec<String> =
        streamdeck_mobile_pending_pairings(&pending).into_iter().map(|p| p.fingerprint).collect();
    codes.sort();
    assert_eq!(codes, vec!["aa".to_owned(), "bb".to_owned()]);
    pending.remove("aa");
    assert_eq!(streamdeck_mobile_pending_pairings(&pending), vec![request("bb", true)]);
}

#[test]
fn decisions_are_noted_on_the_request() {
    let mut pending: Registry<PendingPairing> = Registry::new();
    pending.insert("aa", request("aa", false));
    pending.insert("bb", request("bb", false));
    assert_eq!(streamdeck_mobile_resolve_pairing(&mut pending, "aa", true), Ok(()));
    assert_eq!(pending.get("aa"), Some(&request("aa", true)));
    assert_eq!(pending.get("bb"), Some(&request("bb", false)));
    assert_eq!(streamdeck_mobile_resolve_pairing(&mut pending, "aa", false), Ok(()));
    assert_eq!(pending.get("aa"), Some(&request("aa", false)));
    assert_eq!(
        streamdeck_mobile_resolve_pairing(&mut pending, "cc", true),
        Err("No pending pairing for fingerprint cc".to_owned())
    );
    assert!(!pending.contains_key("cc"));
}

#[test]
fn tables_hold_one_value_per_text() {
    let mut table: Registry<u64> = Registry::new();
    assert_eq!(table.len(), 0);
    table.insert("a", 1);
    table.insert("b", 2);
    table.insert("a", 3);
    assert_eq!(table.len(), 2);
    assert_eq!(table.get("a"), Some(&3));
    assert_eq!(table.get("c"), None);
    table.remove("c");
    table.remove("a");
    assert_eq!(table.len(), 1);
    assert_eq!(*table.value_at(0), 2);
}

#[test]
fn drawing_of_single_modules() {
    assert_eq!(
        qr_svg(&vec![]),
        "<svg xmlns=\"http://www.w3.org/2000/svg\" viewBox=\"0 0 8 8\" shape-rendering=\"crispEdges\"><rect width=\"100%\" height=\"100%\" fill=\"#fff\"/><path d=\"\" fill=\"#000\"/></svg>"
    );
    let modules = vec![vec![true, false], vec![false, true]];
    assert_eq!(
        qr_svg(&modules),
        "<svg xmlns=\"http://www.w3.org/2000/svg\" viewBox=\"0 0 10 10\" shape-rendering=\"crispEdges\"><rect width=\"100%\" height=\"100%\" fill=\"#fff\"/><path d=\"M4 4h1v1h-1zM5 5h1v1h-1z\" fill=\"#000\"/></svg>"
    );
    let url = modules_data_url(&modules);
    let encoded = url.strip_prefix("data:image/svg+xml;base64,").unwrap();
    let bytes = base64::engine::general_purpose::STANDARD.decode(encoded).unwrap();
    assert_eq!(String::from_utf8(bytes).unwrap(), qr_svg(&modules));
}

fn drawn(payload: &str) -> String {
    let qr = QrCode::encode_text(payload, QrCodeEcc::Medium).unwrap();
    let view = qr.size() + 8;
    let mut path = String::new();
    for y in 0..qr.size() {
        for x in 0..qr.size() {
            if qr.get_module(x, y) {
                path.push_str(&format!("M{} {}h1v1h-1z", x + 4, y + 4));
            }
        }
    }
    let svg = format!(
        "<svg xmlns=\"http://www.w3.org/2000/svg\" viewBox=\"0 0 {} {}\" shape-rendering=\"crispEdges\"><rect width=\"100%\" height=\"100%\" fill=\"#fff\"/><path d=\"{}\" fill=\"#000\"/></svg>",
        view, view, path
    );
    format!(
        "data:image/svg+xml;base64,{}",
        base64::engine::general_purpose::STANDARD.encode(svg.as_bytes())
    )
}

#[test]
fn codes_are_drawn_with_a_border() {
    for payload in ["", "HELLO", "https://streamdeck.elgato.com/connect/?t=abc"] {
        assert_eq!(build_qr_data_url(payload), Ok(drawn(payload)));
    }
}

#[test]
fn too_long_a_text_has_no_code() {
    let error = build_qr_data_url(&"x".repeat(4000)).unwrap_err();
    assert!(error.starts_with("failed to generate QR code: "));
    assert!(error.len() > "failed to generate QR code: ".len());
}

#[test]
fn texts_of_2331_bytes_always_have_a_code() {
    assert_eq!(build_qr_data_url(&"x".repeat(2331)), Ok(drawn(&"x".repeat(2331))));
    assert!(build_qr_data_url(&"x".repeat(2332)).is_err());
    assert!(build_qr_data_url(&"\u{fc}".repeat(1165)).is_ok());
    assert!(build_qr_data_url(&"7".repeat(2331)).is_ok());
    assert!(build_qr_data_url(&"A".repeat(2331)).is_ok());
}

#[test]
fn pairing_information_shows_the_key_that_is_kept() {
    let mut keys = ServerKeys::new();
    let first = pairing_info(&mut keys, "studio", &None, None, 0, 0).unwrap();
    let later = pairing_info(&mut keys, "renamed", &Some("m".to_owned()), None, 0, 0).unwrap();
    assert_eq!(first.public_key_fingerprint, "acae53d7716363d5e2a4e10e2b479505");
    assert_eq!(later.public_key_fingerprint, first.public_key_fingerprint);
    assert_eq!(later.hostname, "renamed");
    assert_ne!(later.workstation_id, first.workstation_id);
}

#[test]
fn scanned_address_has_the_known_shape() {
    assert_eq!(
        build_connect_url("token7", "ws-1_A", "192.168.1.7"),
        "https://streamdeck.elgato.com/connect/?t=token7&w=ws-1_A&a=192.168.1.7:28197&av2=192.168.1.7:28198"
    );
    assert_eq!(
        build_connect_url("a b/\u{fc}", "x&y=~.", "h"),
        "https://streamdeck.elgato.com/connect/?t=a%20b%2F%C3%BC&w=x%26y%3D~.&a=h:28197&av2=h:28198"
    );
}

#[test]
fn pairing_information_is_complete() {
    let info = pairing_info(&mut ServerKeys::new(), "studio", &None, Some([192, 168, 1, 7]), 1, 0).unwrap();
    assert_eq!(
        info.qr_url,
        "https://streamdeck.elgato.com/connect/?t=jff9htgnp9zmarc7rfdz2tpgeaw&w=DTSo93TqJmCksXlJltjlKw&a=192.168.1.7:28197&av2=192.168.1.7:28198"
    );
    assert_eq!(info.qr_data_url, drawn(&info.qr_url));
    assert_eq!(info.address, "192.168.1.7");
    assert_eq!(info.legacy_port, 28197);
    assert_eq!(info.vsd2_port, 28198);
    assert_eq!(info.token, "jff9htgnp9zmarc7rfdz2tpgeaw");
    assert_eq!(info.workstation_id, "DTSo93TqJmCksXlJltjlKw");
    assert_eq!(info.hostname, "studio");
    assert_eq!(info.public_key_fingerprint, "acae53d7716363d5e2a4e10e2b479505");
    assert_eq!(
        streamdeck_mobile_pairing_info(&mut ServerKeys::new(), "studio", &None, Some([192, 168, 1, 7]), 1, 0),
        Ok(info)
    );
    let alone = pairing_info(&mut ServerKeys::new(), "studio", &None, None, 0, 0).unwrap();
    assert_eq!(alone.address, "127.0.0.1");
}

#[test]
fn candidates_can_be_copied() {
    let candidate = PairingCandidate { name: "n".to_owned(), payload: "p".to_owned() };
    assert_eq!(candidate.clone(), candidate);
}
