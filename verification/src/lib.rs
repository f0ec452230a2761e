//! The verified core of a Stream Deck Mobile backend.
use vstd::prelude::*;

pub mod app_messages;
pub mod base64_text;
pub mod client_laws;
pub mod client_message;
pub mod connection_laws;
pub mod crypto;
pub mod event_laws;
pub mod identity;
pub mod identity_laws;
pub mod images;
pub mod inbound;
pub mod laws;
pub mod mdns;
pub mod mdns_laws;
pub mod message;
pub mod pairing;
pub mod picture_laws;
pub mod registry;
pub mod replies;
pub mod server_frames;
pub mod server_message;
pub mod session;
pub mod text;
pub mod text_laws;
pub mod wire;
pub mod wire_laws;

verus! {

} // verus!
