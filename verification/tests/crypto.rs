use crypto_box::aead::generic_array::GenericArray;
use crypto_box::aead::Aead;
use crypto_box::{PublicKey, SalsaBox, SecretKey};
use streamdeck_mobile::crypto::{first_24, first_32, seal_reply, seal_reply_with};

fn public(secret: [u8; 32]) -> [u8; 32] {
    *SecretKey::from(secret).public_key().as_bytes()
}

#[test]
fn sealed_replies_open_for_the_peer() {
    let server = [5u8; 32];
    let app = [9u8; 32];
    let frame = seal_reply(&public(app), &server, b"hello app").unwrap();
    assert_eq!(frame.len(), 24 + 9 + 16);
    let opener = SalsaBox::new(&PublicKey::from(public(server)), &SecretKey::from(app));
    let plaintext = opener.decrypt(GenericArray::from_slice(&frame[..24]), &frame[24..]).unwrap();
    assert_eq!(plaintext, b"hello app");
}

#[test]
fn nonces_are_fresh() {
    let first = seal_reply(&public([9; 32]), &[5; 32], b"x").unwrap();
    let second = seal_reply(&public([9; 32]), &[5; 32], b"x").unwrap();
    assert_ne!(first, second);
}

#[test]
fn frames_carry_nonce_and_box() {
    let nonce = [3u8; 24];
    let frame = seal_reply_with(&public([9; 32]), &[5; 32], &nonce, b"abc").unwrap();
    let sealer = SalsaBox::new(&PublicKey::from(public([9; 32])), &SecretKey::from([5; 32]));
    let boxed = sealer.encrypt(GenericArray::from_slice(&nonce), b"abc".as_slice()).unwrap();
    assert_eq!(&frame[..24], &nonce);
    assert_eq!(&frame[24..], boxed.as_slice());
    assert_eq!(seal_reply_with(&public([9; 32]), &[5; 32], &nonce, b"").unwrap().len(), 40);
}

#[test]
fn heads_of_bytes() {
    let bytes: Vec<u8> = (0..40).collect();
    assert_eq!(first_32(&bytes).to_vec(), bytes[..32].to_vec());
    assert_eq!(first_24(&bytes).to_vec(), bytes[..24].to_vec());
}
