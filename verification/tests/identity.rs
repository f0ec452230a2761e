use streamdeck_mobile::identity::{
    client_key_id, endpoint_address, endpoint_addresses, hex16, hex6, hostname_string, local_ipv4,
    random_token, server_key, server_secret_key, workstation_code, LocalAddress, ServerKeys,
};

fn unhex(text: &str) -> Vec<u8> {
    (0..text.len() / 2).map(|i| u8::from_str_radix(&text[2 * i..2 * i + 2], 16).unwrap()).collect()
}

#[test]
fn hostname_comes_from_the_first_variable_that_is_set() {
    let set = |s: &str| Some(s.to_owned());
    assert_eq!(hostname_string(set("studio"), set("OTHER")), "studio");
    assert_eq!(hostname_string(None, set("OTHER")), "OTHER");
    assert_eq!(hostname_string(None, None), "OpenDeck");
    assert_eq!(hostname_string(set(""), set("OTHER")), "");
}

#[test]
fn secret_key_depends_on_hostname_and_machine() {
    let plain = server_secret_key("studio", &None);
    assert_eq!(
        plain.to_vec(),
        unhex("f790954d2acb4b1fd2e233f469952a2240d475fd31c26a7b4a474d5d173bf6ef")
    );
    let known = server_secret_key("studio", &Some("0123456789abcdef\n".to_owned()));
    assert_eq!(
        known.to_vec(),
        unhex("5c4922bd93acab6d9a2aa0e30f11b0b0ea64eaa7e8190ab2421d66a90e7a9558")
    );
}

#[test]
fn public_key_belongs_to_the_secret_key() {
    let plain = server_key(&server_secret_key("studio", &None));
    assert_eq!(plain, unhex("acae53d7716363d5e2a4e10e2b479505c92da3565275d4282dde69cc3945047f"));
    assert_eq!(
        server_key(&[9; 32]),
        unhex("57db4b359f23ae5e146e4e2512056704722506348c150c14753d0c933d04d421")
    );
}

#[test]
fn the_first_key_is_kept() {
    let mut keys = ServerKeys::new();
    let first = keys.server_secret_key("studio", &None);
    assert_eq!(first, server_secret_key("studio", &None));
    assert_eq!(keys.server_secret_key("renamed", &Some("m".to_owned())), first);
    assert_eq!(keys.server_key("renamed", &None), server_key(&first));
    let mut others = ServerKeys::new();
    let public = others.server_key("renamed", &None);
    assert_eq!(public, server_key(&server_secret_key("renamed", &None)));
    assert_eq!(others.server_secret_key("studio", &None), server_secret_key("renamed", &None));
}

#[test]
fn workstation_code_is_short_and_plain() {
    assert_eq!(workstation_code("studio", &None), "DTSo93TqJmCksXlJltjlKw");
    let padded = Some("  0123456789abcdef \n".to_owned());
    assert_eq!(workstation_code("studio", &padded), "DghaisK6QYd9nokdvFSK2w");
    for host in ["", "a", "b", "c", "d", "e", "f"] {
        let code = workstation_code(host, &None);
        assert_eq!(code.len(), 22);
        assert!(code.chars().all(|c| c.is_ascii_alphanumeric() || c == '-' || c == '_'));
    }
}

#[test]
fn verification_code_is_the_head_of_a_digest() {
    assert_eq!(client_key_id(b""), "0e5751");
    assert_eq!(client_key_id(b"abc"), "bddd81");
    assert_eq!(client_key_id(&[7; 32]), "17cdc7");
}

#[test]
fn hexadecimal_heads() {
    assert_eq!(hex6(&[0x0a, 0xff, 0x00, 0x77]), "0aff00");
    assert_eq!(hex6(&[0xab]), "ab");
    assert_eq!(hex6(&[]), "");
    assert_eq!(hex16(&[0x12; 20]), "12".repeat(16));
    assert_eq!(hex16(&[1, 2, 3]), "010203");
}

#[test]
fn loopback_is_no_local_address() {
    assert_eq!(local_ipv4(Some(LocalAddress::V4([192, 168, 1, 7]))), Some([192, 168, 1, 7]));
    assert_eq!(local_ipv4(Some(LocalAddress::V4([127, 0, 0, 1]))), None);
    assert_eq!(local_ipv4(Some(LocalAddress::V4([127, 255, 3, 9]))), None);
    assert_eq!(local_ipv4(Some(LocalAddress::V6)), None);
    assert_eq!(local_ipv4(None), None);
}

#[test]
fn address_falls_back_to_loopback() {
    assert_eq!(endpoint_addresses(Some([10, 0, 200, 255])), vec!["10.0.200.255".to_owned()]);
    assert_eq!(endpoint_addresses(None), vec!["127.0.0.1".to_owned()]);
    assert_eq!(endpoint_address(Some([0, 0, 0, 0])), "0.0.0.0");
}

#[test]
fn tokens_follow_from_time_and_process() {
    assert_eq!(random_token(0, 0), "a".repeat(27));
    assert_eq!(random_token(1, 0), "jff9htgnp9zmarc7rfdz2tpgeaw");
    assert_eq!(random_token(1700000000123456789, 4242), "k21xuv51zmrb27xno8556v9l2rm");
    assert!(random_token(u128::MAX, u32::MAX).chars().all(|c| c.is_ascii_lowercase() || c.is_ascii_digit()));
}
