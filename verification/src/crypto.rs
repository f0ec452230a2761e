//! The cryptography: digests, keys and boxes.
use blake2::digest::consts::U32;
use blake2::{Blake2b, Blake2b512, Digest};
use crypto_box::aead::generic_array::GenericArray;
use crypto_box::aead::{Aead, AeadCore, OsRng};
use crypto_box::{PublicKey, SalsaBox, SecretKey};
use vstd::prelude::*;

verus! {

/// The BLAKE2b digest of 64 bytes.
pub uninterp spec fn blake2b_512(data: Seq<u8>) -> Seq<u8>;

/// The BLAKE2b digest of 32 bytes.
pub uninterp spec fn blake2b_256(data: Seq<u8>) -> Seq<u8>;

/// The X25519 public key that belongs to a secret key.
pub uninterp spec fn public_key_of(secret: Seq<u8>) -> Seq<u8>;

/// What a box holds (`crypto_box` of NaCl with XSalsa20 and Poly1305), if it was sealed with this
/// nonce between the holder of `secret` and the peer.
pub uninterp spec fn box_opened(
    peer: Seq<u8>,
    secret: Seq<u8>,
    nonce: Seq<u8>,
    boxed: Seq<u8>,
) -> Option<Seq<u8>>;

/// The box that holds a plaintext.
pub uninterp spec fn box_sealed(
    peer: Seq<u8>,
    secret: Seq<u8>,
    nonce: Seq<u8>,
    plaintext: Seq<u8>,
) -> Seq<u8>;

/// `blake2::Blake2b512::digest`: a digest of 64 bytes that depends on the data alone.
#[verifier::external_body]
pub(crate) fn digest_512(data: &[u8]) -> (r: Vec<u8>)
    ensures
        r@ == blake2b_512(data@),
        r@.len() == 64,
{
    Blake2b512::digest(data).to_vec()
}

/// `blake2::Blake2b::<U32>::digest`: a digest of 32 bytes that depends on the data alone.
#[verifier::external_body]
pub(crate) fn digest_256(data: &[u8]) -> (r: Vec<u8>)
    ensures
        r@ == blake2b_256(data@),
        r@.len() == 32,
{
    Blake2b::<U32>::digest(data).to_vec()
}

/// `crypto_box::SecretKey::public_key`: 32 bytes that depend on the secret key alone.
#[verifier::external_body]
pub(crate) fn derive_public_key(secret: &[u8; 32]) -> (r: Vec<u8>)
    ensures
        r@ == public_key_of(secret@),
        r@.len() == 32,
{
    SecretKey::from(*secret).public_key().as_bytes().to_vec()
}

/// `crypto_box::SalsaBox::decrypt`: the plaintext, or nothing if the box does not verify, which
/// depends on the keys, the nonce and the box alone.
#[verifier::external_body]
pub(crate) fn open_box(peer: &[u8; 32], secret: &[u8; 32], nonce: &[u8; 24], boxed: &[u8]) -> (r:
    Option<Vec<u8>>)
    ensures
        match r {
            Some(plaintext) => box_opened(peer@, secret@, nonce@, boxed@) == Some(plaintext@),
            None => box_opened(peer@, secret@, nonce@, boxed@) is None,
        },
{
    let salsa_box = SalsaBox::new(&PublicKey::from(*peer), &SecretKey::from(*secret));
    salsa_box.decrypt(GenericArray::from_slice(nonce), boxed).ok()
}

/// `crypto_box::SalsaBox::encrypt`: a box of 16 bytes more than the plaintext, which depends on the
/// keys, the nonce and the plaintext alone. It fails only where associated data is given, and none
/// is. The box opens to the plaintext again: with the same keys, and for the peer, with the peer's
/// secret key and the sender's public key, as both sides agree on one shared secret.
#[verifier::external_body]
pub(crate) fn seal_box(
    peer: &[u8; 32],
    secret: &[u8; 32],
    nonce: &[u8; 24],
    plaintext: &[u8],
) -> (r: Option<Vec<u8>>)
    ensures
        r is Some,
        r.unwrap()@ == box_sealed(peer@, secret@, nonce@, plaintext@),
        r.unwrap()@.len() == plaintext@.len() + 16,
        box_opened(peer@, secret@, nonce@, r.unwrap()@) == Some(plaintext@),
        forall|peer_secret: Seq<u8>|
            peer_secret.len() == 32 && #[trigger] public_key_of(peer_secret) == peer@ ==> box_opened(
                public_key_of(secret@),
                peer_secret,
                nonce@,
                r.unwrap()@,
            ) == Some(plaintext@),
{
    let salsa_box = SalsaBox::new(&PublicKey::from(*peer), &SecretKey::from(*secret));
    salsa_box.encrypt(GenericArray::from_slice(nonce), plaintext).ok()
}

/// `crypto_box::SalsaBox::generate_nonce` with the operating system's random numbers: any 24
/// bytes.
#[verifier::external_body]
pub(crate) fn fresh_nonce() -> (r: [u8; 24]) {
    SalsaBox::generate_nonce(&mut OsRng).into()
}

/// The first 32 bytes.
pub fn first_32(bytes: &[u8]) -> (r: [u8; 32])
    requires
        bytes@.len() >= 32,
    ensures
        r@ == bytes@.take(32),
{
    let mut r: [u8; 32] = [0u8; 32];
    let mut i: usize = 0;
    while i < 32
        invariant
            i <= 32 <= bytes@.len(),
            forall|j: int| 0 <= j < i ==> r@[j] == bytes@[j],
        decreases 32 - i,
    {
        r[i] = bytes[i];
        i = i + 1;
    }
    assert(r@ =~= bytes@.take(32));
    r
}

/// The first 24 bytes.
pub fn first_24(bytes: &[u8]) -> (r: [u8; 24])
    requires
        bytes@.len() >= 24,
    ensures
        r@ == bytes@.take(24),
{
    let mut r: [u8; 24] = [0u8; 24];
    let mut i: usize = 0;
    while i < 24
        invariant
            i <= 24 <= bytes@.len(),
            forall|j: int| 0 <= j < i ==> r@[j] == bytes@[j],
        decreases 24 - i,
    {
        r[i] = bytes[i];
        i = i + 1;
    }
    assert(r@ =~= bytes@.take(24));
    r
}

/// The frame that carries a box: the nonce, then the box.
pub open spec fn sealed_frame(peer: Seq<u8>, secret: Seq<u8>, nonce: Seq<u8>, plaintext: Seq<u8>) -> Seq<
    u8,
> {
    nonce + box_sealed(peer, secret, nonce, plaintext)
}

/// What a frame of nonce and box holds; nothing if it is too short for that or does not verify.
pub open spec fn frame_opened(peer: Seq<u8>, secret: Seq<u8>, frame: Seq<u8>) -> Option<Seq<u8>> {
    if frame.len() >= 40 {
        box_opened(peer, secret, frame.take(24), frame.skip(24))
    } else {
        None
    }
}

/// Seals a reply under a given nonce.
pub fn seal_reply_with(peer: &[u8; 32], secret: &[u8; 32], nonce: &[u8; 24], plaintext: &[u8]) -> (r:
    Option<Vec<u8>>)
    ensures
        r matches Some(frame) && {
            &&& frame@ == sealed_frame(peer@, secret@, nonce@, plaintext@)
            &&& frame@.len() == 24 + plaintext@.len() + 16
            &&& frame_opened(peer@, secret@, frame@) == Some(plaintext@)
            &&& forall|peer_secret: Seq<u8>|
                peer_secret.len() == 32 && #[trigger] public_key_of(peer_secret) == peer@
                    ==> frame_opened(public_key_of(secret@), peer_secret, frame@) == Some(
                    plaintext@,
                )
        },
{
    match seal_box(peer, secret, nonce, plaintext) {
        Some(boxed) => {
            let mut frame: Vec<u8> = Vec::new();
            frame.extend_from_slice(nonce);
            frame.extend_from_slice(boxed.as_slice());
            proof {
                assert(frame@ =~= nonce@ + boxed@);
                assert(frame@.take(24) =~= nonce@);
                assert(frame@.skip(24) =~= boxed@);
            }
            Some(frame)
        },
        None => None,
    }
}

/// Seals a reply under a fresh nonce. The peer can open it, and finds exactly the plaintext.
pub fn seal_reply(peer: &[u8; 32], secret: &[u8; 32], plaintext: &[u8]) -> (r: Option<Vec<u8>>)
    ensures
        r matches Some(frame) && {
            &&& exists|nonce: Seq<u8>|
                nonce.len() == 24 && frame@ == #[trigger] sealed_frame(
                    peer@,
                    secret@,
                    nonce,
                    plaintext@,
                )
            &&& frame@.len() == 24 + plaintext@.len() + 16
            &&& frame_opened(peer@, secret@, frame@) == Some(plaintext@)
            &&& forall|peer_secret: Seq<u8>|
                peer_secret.len() == 32 && #[trigger] public_key_of(peer_secret) == peer@
                    ==> frame_opened(public_key_of(secret@), peer_secret, frame@) == Some(
                    plaintext@,
                )
        },
{
    let nonce: [u8; 24] = fresh_nonce();
    seal_reply_with(peer, secret, &nonce, plaintext)
}

} // verus!
