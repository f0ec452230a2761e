use streamdeck_mobile::identity::{server_key, server_secret_key, workstation_code, ServerKeys};
use streamdeck_mobile::mdns::{
    announcement, build_mdns_goodbye, build_mdns_response, dns_name, opening_packets, Announcement,
    Announcer, Turn, SERVICE_TYPE,
};

fn name(text: &str) -> Vec<u8> {
    let mut out = Vec::new();
    dns_name(text, &mut out);
    out
}

#[test]
fn names_are_labels_with_their_length() {
    assert_eq!(name("_elg._tcp.local."), b"\x04_elg\x04_tcp\x05local\x00".to_vec());
    assert_eq!(name("local"), b"\x05local\x00".to_vec());
    assert_eq!(name("a..b"), b"\x01a\x00\x01b\x00".to_vec());
    assert_eq!(name(".a"), b"\x00\x01a\x00".to_vec());
    assert_eq!(name(""), b"\x00\x00".to_vec());
    assert_eq!(name("..."), b"\x00\x00".to_vec());
    assert_eq!(name("\u{fc}.x"), b"\x02\xc3\xbc\x01x\x00".to_vec());
}

#[test]
fn dots_at_the_end_make_no_difference() {
    assert_eq!(name("studio.local..."), name("studio.local"));
}

#[test]
fn names_are_appended() {
    let mut out = vec![9, 9];
    dns_name("x", &mut out);
    assert_eq!(out, vec![9, 9, 1, b'x', 0]);
}

#[test]
fn long_labels_keep_the_low_byte_of_their_length() {
    let label = "y".repeat(300);
    let written = name(&label);
    assert_eq!(written[0], 44);
    assert_eq!(written.len(), 302);
}

fn record(out: &mut Vec<u8>, owner: &str, kind: u16, class: u16, ttl: u32, data: &[u8]) {
    out.extend_from_slice(&name(owner));
    out.extend_from_slice(&kind.to_be_bytes());
    out.extend_from_slice(&class.to_be_bytes());
    out.extend_from_slice(&ttl.to_be_bytes());
    out.extend_from_slice(&(data.len() as u16).to_be_bytes());
    out.extend_from_slice(data);
}

fn packet(service: &str, host: &str, port: u16, ttl: u32, said: &[u8], address: &[u8]) -> Vec<u8> {
    let mut out = vec![0, 0, 0x84, 0, 0, 0, 0, 4, 0, 0, 0, 0];
    record(&mut out, SERVICE_TYPE, 12, 1, ttl, &name(service));
    let mut location = vec![0, 0, 0, 0];
    location.extend_from_slice(&port.to_be_bytes());
    location.extend_from_slice(&name(host));
    record(&mut out, service, 33, 0x8001, ttl, &location);
    record(&mut out, service, 16, 0x8001, ttl, said);
    record(&mut out, host, 1, 0x8001, ttl, address);
    out
}

#[test]
fn goodbye_holds_for_no_time() {
    let service = "OpenDeck._elg._tcp.local.";
    let host = "opendeck-abc.local.";
    assert_eq!(
        build_mdns_goodbye(service, host, [192, 168, 1, 7], 28198),
        packet(service, host, 28198, 0, &[0], &[0, 0, 0, 0])
    );
}

#[test]
fn response_says_who_and_where() {
    let service = "OpenDeck-WS._elg._tcp.local.";
    let host = "opendeck-abc.local.";
    let said = b"\x05id=WS\x0dname=OpenDeck";
    assert_eq!(
        build_mdns_response(service, host, "OpenDeck-WS", "WS", [192, 168, 1, 7], 28198),
        packet(service, host, 28198, 30, said, &[192, 168, 1, 7])
    );
}

#[test]
fn response_starts_with_the_known_bytes() {
    let response = build_mdns_response("I._elg._tcp.local.", "h.local.", "I", "W", [1, 2, 3, 4], 258);
    let expected: &[u8] = b"\x00\x00\x84\x00\x00\x00\x00\x04\x00\x00\x00\x00\
        \x04_elg\x04_tcp\x05local\x00\x00\x0c\x00\x01\x00\x00\x00\x1e\x00\x13\
        \x01I\x04_elg\x04_tcp\x05local\x00\
        \x01I\x04_elg\x04_tcp\x05local\x00\x00\x21\x80\x01\x00\x00\x00\x1e\x00\x0f\
        \x00\x00\x00\x00\x01\x02\x01h\x05local\x00";
    assert_eq!(&response[..expected.len()], expected);
    assert_eq!(&response[response.len() - 4..], &[1, 2, 3, 4]);
}

#[test]
fn workstation_announces_itself_and_withdraws_former_names() {
    let code = workstation_code("studio", &None);
    let key = server_key(&server_secret_key("studio", &None));
    let host = format!("opendeck-{:02x}{:02x}{:02x}.local.", key[0], key[1], key[2]);
    assert_eq!(host, "opendeck-acae53.local.");
    let announced = announcement(&mut ServerKeys::new(), "studio", &None, [10, 0, 0, 2]);
    let ip = [10, 0, 0, 2];
    assert_eq!(
        announced.goodbyes,
        vec![
            build_mdns_goodbye("OpenDeck studio._elg._tcp.local.", &host, ip, 28198),
            build_mdns_goodbye("OpenDeck-studio._elg._tcp.local.", &host, ip, 28198),
            build_mdns_goodbye("OpenDeck._elg._tcp.local.", &host, ip, 28198),
        ]
    );
    let instance = format!("OpenDeck-{}", code);
    let service = format!("{}._elg._tcp.local.", instance);
    assert_eq!(
        announced.response,
        build_mdns_response(&service, &host, &instance, &code, ip, 28198)
    );
}

#[test]
fn withdrawals_go_first_and_three_times() {
    let announced = Announcement { goodbyes: vec![vec![1], vec![2]], response: vec![9] };
    assert_eq!(
        opening_packets(&announced),
        [1, 1, 1, 2, 2, 2, 9, 9].map(|b| vec![b]).to_vec()
    );
    let nothing_former = Announcement { goodbyes: vec![], response: vec![9] };
    assert_eq!(opening_packets(&nothing_former), vec![vec![9], vec![9]]);
}

#[test]
fn announcer_repeats_the_response_for_ever() {
    let mut keys = ServerKeys::new();
    let mut announcer = Announcer::new(&mut keys, "studio", &None, Some([10, 0, 0, 2])).unwrap();
    let announced = announcement(&mut keys, "studio", &None, [10, 0, 0, 2]);
    assert_eq!(
        announcer.next_turn(),
        Turn { packets: opening_packets(&announced), rest_seconds: 10 }
    );
    for _ in 0..5 {
        assert_eq!(
            announcer.next_turn(),
            Turn { packets: vec![announced.response.clone()], rest_seconds: 10 }
        );
    }
}

#[test]
fn without_an_address_nothing_is_announced() {
    let mut keys = ServerKeys::new();
    assert_eq!(Announcer::new(&mut keys, "studio", &None, None), None);
}

#[test]
fn host_is_named_after_the_key_that_is_kept() {
    let mut keys = ServerKeys::new();
    keys.server_key("studio", &None);
    let announced = announcement(&mut keys, "renamed", &None, [10, 0, 0, 2]);
    let goodbye = build_mdns_goodbye(
        "OpenDeck renamed._elg._tcp.local.",
        "opendeck-acae53.local.",
        [10, 0, 0, 2],
        28198,
    );
    assert_eq!(announced.goodbyes[0], goodbye);
}
