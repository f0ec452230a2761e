//! One connection of the mobile app: from the messages that come in to what is to be done.
//!
//! [`handle_client`] is a step from the state and an event to the next state and a list of
//! effects. The effects are to be performed in order; one that fails ends the connection.
use vstd::prelude::*;
use vstd::slice::slice_subrange;
use vstd::string::StringExecFns;

use crate::client_message::{
    ClientMessage, ClientMessageView, CreateVirtualDevice, CreateVirtualDeviceView, HelloFromClient,
    HelloFromClientView, KeypadConfig, KeypadConfigView, OpenVirtualDevice, OpenVirtualDeviceView,
    Payload as ClientPayload, PayloadView as ClientPayloadView, Size,
};
use crate::crypto::{first_24, first_32, frame_opened, open_box, public_key_of};
use crate::identity::{
    address_text, client_key_id, endpoint_address, kept_key, key_id, server_key, workstation_code,
    workstation_text, ServerKeys,
};
use crate::inbound::{DeviceInfo, DeviceInfoView, PayloadEvent};
use crate::message::option_text;
use crate::pairing::{PendingPairing, PendingPairingView, PORT};
use crate::registry::Registry;
use crate::replies::{
    context_payload, error_payload, error_response, layout, layout_of, ok, ok_payload, send_context,
    ErrorCode, ImageFormat, DEFAULT_COLS, DEFAULT_ROWS,
};
use crate::server_message::{
    frame_of, HelloFromServer, HelloFromServerView, Payload, PayloadView, ServerMessage,
    ServiceEndpoints, ServiceEndpointsView, VirtualDevice, VirtualDeviceOpened,
    VirtualDeviceOpenedView, VirtualDeviceView,
};
use crate::text::{has_prefix, starts_with};

verus! {

/// How long a request that came in the clear waits for the desktop, in seconds.
pub const CLEAR_WAIT_SECONDS: u64 = 60;

/// How long a request that came sealed waits for the desktop, in seconds.
pub const SEALED_WAIT_SECONDS: u64 = 120;

/// How often a waiting request is looked at, in milliseconds.
pub const POLL_MILLISECONDS: u64 = 100;

/// How often the server speaks up on a quiet connection, in seconds.
pub const HEARTBEAT_SECONDS: u64 = 2;

// ---------------------------------------------------------------------------------------------
// State
// ---------------------------------------------------------------------------------------------
/// What all connections share.
pub struct Hub {
    /// Requests that wait for the desktop, by verification code.
    pub pending: Registry<PendingPairing>,
    /// The public keys that were shown, by verification code.
    pub public_keys: Registry<Vec<u8>>,
    /// The verification codes that the desktop has approved.
    pub authenticated: Registry<()>,
    /// The connection behind each device.
    pub clients: Registry<u64>,
}

/// The values of a [`Hub`].
#[verifier::ext_equal]
pub struct HubView {
    pub pending: Map<Seq<char>, PendingPairingView>,
    pub public_keys: Map<Seq<char>, Seq<u8>>,
    pub authenticated: Set<Seq<char>>,
    pub clients: Map<Seq<char>, u64>,
}

impl View for Hub {
    type V = HubView;

    open spec fn view(&self) -> HubView {
        HubView {
            pending: self.pending@,
            public_keys: self.public_keys@,
            authenticated: self.authenticated@.dom(),
            clients: self.clients@,
        }
    }
}

impl Hub {
    /// The tables are well formed.
    pub open spec fn wf(&self) -> bool {
        &&& self.pending.wf()
        &&& self.public_keys.wf()
        &&& self.authenticated.wf()
        &&& self.clients.wf()
    }

    /// Nothing is known yet.
    pub fn new() -> (r: Hub)
        ensures
            r.wf(),
            r@.pending == Map::<Seq<char>, PendingPairingView>::empty(),
            r@.public_keys == Map::<Seq<char>, Seq<u8>>::empty(),
            r@.authenticated == Set::<Seq<char>>::empty(),
            r@.clients == Map::<Seq<char>, u64>::empty(),
    {
        let r: Hub = Hub {
            pending: Registry::new(),
            public_keys: Registry::new(),
            authenticated: Registry::new(),
            clients: Registry::new(),
        };
        assert(r@.authenticated =~= Set::<Seq<char>>::empty());
        r
    }
}

/// What one connection remembers.
#[derive(Debug, PartialEq, Eq)]
pub struct Session {
    /// The number of the connection.
    pub connection: u64,
    /// Address and port of the peer.
    pub peer: String,
    /// Address of the peer.
    pub peer_ip: String,
    pub device_id: Option<String>,
    pub client_fingerprint: Option<String>,
    pub authenticated: bool,
}

/// The values of a [`Session`].
pub struct SessionView {
    pub connection: u64,
    pub peer: Seq<char>,
    pub peer_ip: Seq<char>,
    pub device_id: Option<Seq<char>>,
    pub client_fingerprint: Option<Seq<char>>,
    pub authenticated: bool,
}

impl View for Session {
    type V = SessionView;

    open spec fn view(&self) -> SessionView {
        SessionView {
            connection: self.connection,
            peer: self.peer@,
            peer_ip: self.peer_ip@,
            device_id: option_text(self.device_id),
            client_fingerprint: option_text(self.client_fingerprint),
            authenticated: self.authenticated,
        }
    }
}

impl Session {
    /// A connection on which nothing has been said yet.
    pub fn new(connection: u64, peer: String, peer_ip: String) -> (r: Session)
        ensures
            r@ == (SessionView {
                connection,
                peer: peer@,
                peer_ip: peer_ip@,
                device_id: None,
                client_fingerprint: None,
                authenticated: false,
            }),
    {
        Session {
            connection,
            peer,
            peer_ip,
            device_id: None,
            client_fingerprint: None,
            authenticated: false,
        }
    }
}

/// What the server says about itself.
#[derive(Debug, PartialEq, Eq)]
pub struct ServerProfile {
    pub secret_key: [u8; 32],
    pub public_key: Vec<u8>,
    pub workstation_id: String,
    pub hostname: String,
    pub version: String,
    pub os_name: String,
    pub address: String,
}

/// The values of a [`ServerProfile`].
pub struct ServerProfileView {
    pub secret_key: Seq<u8>,
    pub public_key: Seq<u8>,
    pub workstation_id: Seq<char>,
    pub hostname: Seq<char>,
    pub version: Seq<char>,
    pub os_name: Seq<char>,
    pub address: Seq<char>,
}

impl View for ServerProfile {
    type V = ServerProfileView;

    open spec fn view(&self) -> ServerProfileView {
        ServerProfileView {
            secret_key: self.secret_key@,
            public_key: self.public_key@,
            workstation_id: self.workstation_id@,
            hostname: self.hostname@,
            version: self.version@,
            os_name: self.os_name@,
            address: self.address@,
        }
    }
}

impl ServerProfile {
    /// The profile of a workstation, with the key that it keeps.
    pub fn new(
        keys: &mut ServerKeys,
        hostname: String,
        machine_id: &Option<String>,
        ip: Option<[u8; 4]>,
        version: String,
        os_name: String,
    ) -> (r: ServerProfile)
        ensures
            final(keys)@ == Some(kept_key(old(keys)@, hostname@, *machine_id)),
            r@ == ({
                let secret_key = kept_key(old(keys)@, hostname@, *machine_id);
                ServerProfileView {
                    secret_key,
                    public_key: public_key_of(secret_key),
                    workstation_id: workstation_text(hostname@, *machine_id),
                    hostname: hostname@,
                    version: version@,
                    os_name: os_name@,
                    address: address_text(ip),
                }
            }),
    {
        let secret_key: [u8; 32] = keys.server_secret_key(hostname.as_str(), machine_id);
        let public_key: Vec<u8> = server_key(&secret_key);
        let workstation_id: String = workstation_code(hostname.as_str(), machine_id);
        ServerProfile {
            secret_key,
            public_key,
            workstation_id,
            hostname,
            version,
            os_name,
            address: endpoint_address(ip),
        }
    }
}

// ---------------------------------------------------------------------------------------------
// Events and effects
// ---------------------------------------------------------------------------------------------
/// What came in over the socket.
#[derive(Debug, PartialEq, Eq)]
pub enum SocketEvent {
    Binary(Vec<u8>),
    Ping(Vec<u8>),
    Close,
    Other,
}

/// The values of a [`SocketEvent`].
pub enum SocketEventView {
    Binary(Seq<u8>),
    Ping(Seq<u8>),
    Close,
    Other,
}

impl View for SocketEvent {
    type V = SocketEventView;

    open spec fn view(&self) -> SocketEventView {
        match self {
            SocketEvent::Binary(b) => SocketEventView::Binary(b@),
            SocketEvent::Ping(b) => SocketEventView::Ping(b@),
            SocketEvent::Close => SocketEventView::Close,
            SocketEvent::Other => SocketEventView::Other,
        }
    }
}

/// A request to be paired that the connection waits for.
#[derive(Debug, PartialEq, Eq)]
pub struct ApprovalWait {
    pub key_id: String,
    pub request_id: u32,
    /// For whom the answer is to be sealed, if the request came sealed.
    pub sealed_for: Option<[u8; 32]>,
    /// How long to wait.
    pub seconds: u64,
}

/// The values of an [`ApprovalWait`].
pub struct ApprovalWaitView {
    pub key_id: Seq<char>,
    pub request_id: u32,
    pub sealed_for: Option<Seq<u8>>,
    pub seconds: u64,
}

impl View for ApprovalWait {
    type V = ApprovalWaitView;

    open spec fn view(&self) -> ApprovalWaitView {
        ApprovalWaitView {
            key_id: self.key_id@,
            request_id: self.request_id,
            sealed_for: match self.sealed_for {
                Some(key) => Some(key@),
                None => None,
            },
            seconds: self.seconds,
        }
    }
}

/// What is to be done.
#[derive(Debug, PartialEq, Eq)]
pub enum Effect {
    /// Send a frame.
    Send(Vec<u8>),
    /// Seal a reply for the peer, and send it.
    SendSealed { peer: [u8; 32], plaintext: Vec<u8> },
    /// Answer a ping.
    Pong(Vec<u8>),
    /// Make a device known.
    Register(PayloadEvent<DeviceInfo>),
    /// Make a device unknown; whether that works does not matter.
    Deregister(PayloadEvent<String>),
    /// Put the connection behind a device: [`attach`].
    Attach(String),
    /// Wait for the desktop with [`approval_status`], then go on with [`finish_authentication`].
    AwaitApproval(ApprovalWait),
    /// Forget a request: [`drop_pending`].
    DropPending(String),
    /// End the connection: [`disconnect`].
    Close,
    /// End the connection with an error, and leave the tables as they are.
    Fail(String),
}

/// The values of an [`Effect`].
pub enum EffectView {
    Send(Seq<u8>),
    SendSealed { peer: Seq<u8>, plaintext: Seq<u8> },
    Pong(Seq<u8>),
    Register(DeviceInfoView),
    Deregister(Seq<char>),
    Attach(Seq<char>),
    AwaitApproval(ApprovalWaitView),
    DropPending(Seq<char>),
    Close,
    Fail(Seq<char>),
}

impl View for Effect {
    type V = EffectView;

    open spec fn view(&self) -> EffectView {
        match self {
            Effect::Send(b) => EffectView::Send(b@),
            Effect::SendSealed { peer, plaintext } => EffectView::SendSealed {
                peer: peer@,
                plaintext: plaintext@,
            },
            Effect::Pong(b) => EffectView::Pong(b@),
            Effect::Register(e) => EffectView::Register(e.payload@),
            Effect::Deregister(e) => EffectView::Deregister(e.payload@),
            Effect::Attach(id) => EffectView::Attach(id@),
            Effect::AwaitApproval(w) => EffectView::AwaitApproval(w@),
            Effect::DropPending(k) => EffectView::DropPending(k@),
            Effect::Close => EffectView::Close,
            Effect::Fail(e) => EffectView::Fail(e@),
        }
    }
}

/// The values of a list of effects.
pub open spec fn effects_view(effects: Seq<Effect>) -> Seq<EffectView> {
    effects.map_values(|e: Effect| e@)
}

/// The state after a step, and what is to be done.
#[verifier::ext_equal]
pub struct StepView {
    pub hub: HubView,
    pub session: SessionView,
    pub effects: Seq<EffectView>,
}

// ---------------------------------------------------------------------------------------------
// Devices
// ---------------------------------------------------------------------------------------------
/// Whether a device belongs to this backend.
pub fn is_mobile_device(device: &str) -> (r: bool)
    ensures
        r == has_prefix(device@, "sdm-"@),
{
    starts_with(device, "sdm-")
}

/// Whether a device is among those that are known.
pub open spec fn is_known(devices: Seq<String>, id: Seq<char>) -> bool {
    exists|i: int| 0 <= i < devices.len() && (#[trigger] devices[i])@ == id
}

fn known(devices: &Vec<String>, id: &String) -> (r: bool)
    ensures
        r == is_known(devices@, id@),
{
    let mut i: usize = 0;
    while i < devices.len()
        invariant
            i <= devices@.len(),
            forall|j: int| 0 <= j < i ==> (#[trigger] devices@[j])@ != id@,
        decreases devices@.len() - i,
    {
        if devices[i] == *id {
            return true;
        }
        i = i + 1;
    }
    false
}

/// How a mobile app is made known as a device.
pub open spec fn mobile_device(id: Seq<char>, name: Seq<char>, layout: (u8, u8)) -> DeviceInfoView {
    DeviceInfoView {
        id,
        plugin: seq![],
        name,
        rows: layout.0,
        columns: layout.1,
        encoders: 0,
        touchpoints: 0,
        infobars: 0,
        device_type: 3,
    }
}

/// Makes a device known, unless it is known.
pub open spec fn registration(
    devices: Seq<String>,
    id: Seq<char>,
    name: Seq<char>,
    layout: (u8, u8),
) -> Seq<EffectView> {
    if is_known(devices, id) {
        seq![]
    } else {
        seq![EffectView::Register(mobile_device(id, name, layout))]
    }
}

/// The event that makes a device known; none if it is known already.
pub fn register_open_deck_device(
    devices: &Vec<String>,
    device_id: &String,
    name: &str,
    layout: (u8, u8),
) -> (r: Option<PayloadEvent<DeviceInfo>>)
    ensures
        match r {
            Some(e) => !is_known(devices@, device_id@) && e.payload@ == mobile_device(
                device_id@,
                name@,
                layout,
            ),
            None => is_known(devices@, device_id@),
        },
{
    if known(devices, device_id) {
        return None;
    }
    Some(
        PayloadEvent {
            payload: DeviceInfo {
                id: device_id.clone(),
                plugin: String::new(),
                name: name.to_owned(),
                rows: layout.0,
                columns: layout.1,
                encoders: 0,
                touchpoints: 0,
                infobars: 0,
                device_type: 3,
            },
        },
    )
}

/// The event that makes a device unknown.
pub fn deregister_open_deck_device(device_id: &String) -> (r: PayloadEvent<String>)
    ensures
        r.payload@ == device_id@,
{
    PayloadEvent { payload: device_id.clone() }
}

// ---------------------------------------------------------------------------------------------
// Messages in the clear
// ---------------------------------------------------------------------------------------------
/// Nothing changes, and this is to be done.
pub open spec fn only(hub: HubView, session: SessionView, effects: Seq<EffectView>) -> StepView {
    StepView { hub, session, effects }
}

/// A request that the desktop has not decided on.
pub open spec fn fresh_request(key: Seq<char>, peer: Seq<char>) -> PendingPairingView {
    PendingPairingView { fingerprint: key, name: "Stream Deck Mobile"@, peer, approved: false }
}

/// The answer to a hello. An app that the desktop has approved need not ask again.
pub open spec fn hello_payload(server: ServerProfileView, trusted: bool) -> PayloadView {
    PayloadView::Hello(
        HelloFromServerView {
            workstation_id: server.workstation_id,
            hostname: server.hostname,
            version: server.version,
            protocol_version: 2,
            public_key: server.public_key,
            client_needs_authentication: !trusted,
            os_name: Some(server.os_name),
            os_version: None,
            endpoints: Some(
                ServiceEndpointsView { addresses: seq![server.address], port: 28198 },
            ),
        },
    )
}

/// A hello: the app is known by its key from now on.
pub open spec fn hello_step(
    hub: HubView,
    session: SessionView,
    server: ServerProfileView,
    hello: HelloFromClientView,
) -> StepView {
    if hello.public_key.len() == 0 {
        only(hub, session, seq![EffectView::Fail("Stream Deck Mobile sent an empty public key"@)])
    } else {
        let key = key_id(hello.public_key);
        let trusted = hub.authenticated.contains(key);
        StepView {
            hub: HubView { public_keys: hub.public_keys.insert(key, hello.public_key), ..hub },
            session: SessionView {
                device_id: Some("sdm-"@ + key),
                client_fingerprint: Some(key),
                authenticated: session.authenticated || trusted,
                ..session
            },
            effects: seq![EffectView::Send(frame_of(hello_payload(server, trusted)))],
        }
    }
}

/// A request to be paired, in the clear. An app that the desktop has approved is answered at once.
pub open spec fn authenticate_step(hub: HubView, session: SessionView, request_id: u32) -> StepView {
    match session.client_fingerprint {
        None => only(
            hub,
            session,
            seq![EffectView::Fail("Authenticate received before Hello"@)],
        ),
        Some(key) => if hub.authenticated.contains(key) {
            only(hub, session, seq![EffectView::Send(frame_of(ok_payload(request_id)))])
        } else {
            StepView {
                hub: HubView {
                    pending: hub.pending.insert(key, fresh_request(key, session.peer)),
                    ..hub
                },
                session,
                effects: seq![
                    EffectView::AwaitApproval(
                        ApprovalWaitView { key_id: key, request_id, sealed_for: None, seconds: 60 },
                    ),
                ],
            }
        },
    }
}

/// That the app took its request back.
pub open spec fn cancelled_payload(request_id: u32) -> PayloadView {
    error_payload(request_id, ErrorCode::Cancelled, "Authentication cancelled by client"@)
}

/// A request is taken back, in the clear.
pub open spec fn cancel_step(hub: HubView, session: SessionView, request_id: u32) -> StepView {
    StepView {
        hub: HubView {
            pending: match session.client_fingerprint {
                Some(key) => hub.pending.remove(key),
                None => hub.pending,
            },
            ..hub
        },
        session,
        effects: seq![EffectView::Send(frame_of(cancelled_payload(request_id)))],
    }
}

/// That a virtual device is ready.
pub open spec fn opened_payload(request_id: u32, id: Seq<char>, name: Seq<char>) -> PayloadView {
    PayloadView::VirtualDeviceOpened(
        VirtualDeviceOpenedView { request_id, device: Some(VirtualDeviceView { id, name }) },
    )
}

/// The crop of the layout that holds for a new device: what the app asks for, or the default
/// layout if it says nothing about the keypad.
pub open spec fn created_crop(keypad: Option<KeypadConfigView>) -> Option<Size> {
    match keypad {
        Some(k) => k.layout_crop,
        None => Some(Size { width: 5, height: 3 }),
    }
}

/// A new virtual device.
pub open spec fn create_step(
    hub: HubView,
    session: SessionView,
    devices: Seq<String>,
    create: CreateVirtualDeviceView,
) -> StepView {
    let id = match session.device_id {
        Some(id) => id,
        None => "sdm-"@ + session.peer_ip,
    };
    let crop = created_crop(create.keypad_config);
    only(
        hub,
        session,
        registration(devices, id, create.name, layout_of(crop)) + seq![
            EffectView::Attach(id),
            EffectView::Send(frame_of(opened_payload(create.request_id, id, create.name))),
            EffectView::Send(frame_of(context_payload(crop))),
        ],
    )
}

/// A virtual device that may exist already.
pub open spec fn open_step(
    hub: HubView,
    session: SessionView,
    devices: Seq<String>,
    open: OpenVirtualDeviceView,
) -> StepView {
    let crop = match open.keypad_config {
        Some(k) => k.layout_crop,
        None => None,
    };
    let name = "Stream Deck Mobile"@;
    StepView {
        hub,
        session: SessionView { device_id: Some(open.device_id), ..session },
        effects: registration(devices, open.device_id, name, layout_of(crop)) + seq![
            EffectView::Attach(open.device_id),
            EffectView::Send(frame_of(opened_payload(open.request_id, open.device_id, name))),
        ] + match open.keypad_config {
            Some(k) => seq![EffectView::Send(frame_of(context_payload(k.layout_crop)))],
            None => seq![],
        },
    }
}

/// The connection gives its device up.
pub open spec fn delete_step(hub: HubView, session: SessionView, request_id: u32) -> StepView {
    let reply = EffectView::Send(frame_of(ok_payload(request_id)));
    match session.device_id {
        Some(id) => StepView {
            hub: HubView { clients: hub.clients.remove(id), ..hub },
            session,
            effects: seq![EffectView::Deregister(id), reply],
        },
        None => only(hub, session, seq![reply]),
    }
}

/// What a message in the clear leads to.
pub open spec fn message_step(
    hub: HubView,
    session: SessionView,
    server: ServerProfileView,
    devices: Seq<String>,
    message: ClientMessageView,
) -> StepView {
    match message.payload {
        Some(ClientPayloadView::Hello(hello)) => hello_step(hub, session, server, hello),
        Some(ClientPayloadView::Authenticate(m)) => authenticate_step(hub, session, m.request_id),
        Some(ClientPayloadView::CancelAuthenticate(m)) => cancel_step(hub, session, m.request_id),
        Some(ClientPayloadView::CreateVirtualDevice(m)) => create_step(hub, session, devices, m),
        Some(ClientPayloadView::OpenVirtualDevice(m)) => open_step(hub, session, devices, m),
        Some(ClientPayloadView::DeleteVirtualDevice(m)) => delete_step(hub, session, m.request_id),
        _ => only(hub, session, seq![]),
    }
}

// ---------------------------------------------------------------------------------------------
// Sealed messages
// ---------------------------------------------------------------------------------------------
/// What a sealed request to be paired leads to. An app that the desktop has approved is answered
/// at once; a request that waits already keeps waiting as it is.
pub open spec fn sealed_authenticate_step(
    hub: HubView,
    session: SessionView,
    key: Seq<char>,
    peer_key: Seq<u8>,
    request_id: u32,
) -> StepView {
    if hub.authenticated.contains(key) {
        only(
            hub,
            session,
            seq![
                EffectView::SendSealed {
                    peer: peer_key,
                    plaintext: frame_of(ok_payload(request_id)),
                },
            ],
        )
    } else {
        StepView {
            hub: HubView {
                pending: if hub.pending.contains_key(key) {
                    hub.pending
                } else {
                    hub.pending.insert(key, fresh_request(key, session.peer))
                },
                ..hub
            },
            session,
            effects: seq![
                EffectView::AwaitApproval(
                    ApprovalWaitView {
                        key_id: key,
                        request_id,
                        sealed_for: Some(peer_key),
                        seconds: 120,
                    },
                ),
            ],
        }
    }
}

/// What a sealed message leads to: only requests to be paired come sealed.
pub open spec fn sealed_message_step(
    hub: HubView,
    session: SessionView,
    key: Seq<char>,
    peer_key: Seq<u8>,
    message: ClientMessageView,
) -> StepView {
    match message.payload {
        Some(ClientPayloadView::Authenticate(m)) => sealed_authenticate_step(
            hub,
            session,
            key,
            peer_key,
            m.request_id,
        ),
        Some(ClientPayloadView::CancelAuthenticate(m)) => only(
            hub,
            session,
            seq![
                EffectView::SendSealed {
                    peer: peer_key,
                    plaintext: frame_of(cancelled_payload(m.request_id)),
                },
            ],
        ),
        _ => only(hub, session, seq![]),
    }
}

/// What a frame leads to that is no message in the clear: it may be a nonce and a box from the
/// app whose key this connection knows.
pub open spec fn sealed_step(
    hub: HubView,
    session: SessionView,
    server: ServerProfileView,
    frame: Seq<u8>,
) -> StepView {
    match session.client_fingerprint {
        Some(key) => if hub.public_keys.contains_key(key) && hub.public_keys[key].len() == 32 {
            let peer_key = hub.public_keys[key];
            match frame_opened(peer_key, server.secret_key, frame) {
                Some(plaintext) => match ClientMessage::decoded(plaintext) {
                    Some(message) => sealed_message_step(hub, session, key, peer_key, message),
                    None => only(hub, session, seq![]),
                },
                None => only(hub, session, seq![]),
            }
        } else {
            only(hub, session, seq![])
        },
        None => only(hub, session, seq![]),
    }
}

/// What an event on the socket leads to.
pub open spec fn client_step(
    hub: HubView,
    session: SessionView,
    server: ServerProfileView,
    devices: Seq<String>,
    event: SocketEventView,
) -> StepView {
    match event {
        SocketEventView::Binary(frame) => match ClientMessage::decoded(frame) {
            Some(message) => message_step(hub, session, server, devices, message),
            None => sealed_step(hub, session, server, frame),
        },
        SocketEventView::Ping(payload) => only(hub, session, seq![EffectView::Pong(payload)]),
        SocketEventView::Close => only(hub, session, seq![EffectView::Close]),
        SocketEventView::Other => only(hub, session, seq![]),
    }
}

// ---------------------------------------------------------------------------------------------
// The steps, carried out
// ---------------------------------------------------------------------------------------------
/// The values of the state after a step, and of what is to be done.
pub open spec fn step_view(hub: Hub, session: Session, effects: Seq<Effect>) -> StepView {
    StepView { hub: hub@, session: session@, effects: effects_view(effects) }
}

fn nothing() -> (r: Vec<Effect>)
    ensures
        effects_view(r@) == Seq::<EffectView>::empty(),
{
    let r: Vec<Effect> = Vec::new();
    assert(effects_view(r@) =~= Seq::<EffectView>::empty());
    r
}

fn push(effects: &mut Vec<Effect>, effect: Effect)
    ensures
        effects_view(final(effects)@) == effects_view(old(effects)@).push(effect@),
{
    effects.push(effect);
    assert(effects_view(effects@) =~= effects_view(old(effects)@).push(effect@));
}

fn single(effect: Effect) -> (r: Vec<Effect>)
    ensures
        effects_view(r@) == seq![effect@],
{
    let mut r: Vec<Effect> = nothing();
    push(&mut r, effect);
    assert(effects_view(r@) =~= seq![effect@]);
    r
}

fn mobile_id(suffix: &str) -> (r: String)
    ensures
        r@ == "sdm-"@ + suffix@,
{
    let mut id: String = "sdm-".to_owned();
    id.append(suffix);
    id
}

fn say_hello(hub: &mut Hub, session: &mut Session, server: &ServerProfile, hello: HelloFromClient) -> (r:
    Vec<Effect>)
    requires
        old(hub).wf(),
    ensures
        final(hub).wf(),
        step_view(*final(hub), *final(session), r@) == hello_step(
            old(hub)@,
            old(session)@,
            server@,
            hello@,
        ),
{
    if hello.public_key.len() == 0 {
        return single(Effect::Fail("Stream Deck Mobile sent an empty public key".to_owned()));
    }
    let key_id: String = client_key_id(hello.public_key.as_slice());
    hub.public_keys.insert(key_id.as_str(), hello.public_key);
    let trusted: bool = hub.authenticated.contains_key(key_id.as_str());
    session.device_id = Some(mobile_id(key_id.as_str()));
    session.client_fingerprint = Some(key_id);
    if trusted {
        session.authenticated = true;
    }
    let mut addresses: Vec<String> = Vec::new();
    addresses.push(server.address.clone());
    let message: ServerMessage = ServerMessage {
        payload: Some(
            Payload::Hello(
                HelloFromServer {
                    workstation_id: server.workstation_id.clone(),
                    hostname: server.hostname.clone(),
                    version: server.version.clone(),
                    protocol_version: 2,
                    public_key: server.public_key.clone(),
                    client_needs_authentication: !trusted,
                    os_name: Some(server.os_name.clone()),
                    os_version: None,
                    endpoints: Some(ServiceEndpoints { addresses, port: PORT as u32 }),
                },
            ),
        ),
    };
    proof {
        assert(message@.payload == Some(hello_payload(server@, trusted))) by {
            assert(addresses@.map_values(|s: String| s@) =~= seq![server.address@]);
        }
    }
    single(Effect::Send(message.encode_to_vec()))
}

fn request_pairing(key_id: &String, peer: &String) -> (r: PendingPairing)
    ensures
        r@ == fresh_request(key_id@, peer@),
{
    PendingPairing {
        fingerprint: key_id.clone(),
        name: "Stream Deck Mobile".to_owned(),
        peer: peer.clone(),
        approved: false,
    }
}

fn authenticate(hub: &mut Hub, session: &Session, request_id: u32) -> (r: Vec<Effect>)
    requires
        old(hub).wf(),
    ensures
        final(hub).wf(),
        step_view(*final(hub), *session, r@) == authenticate_step(old(hub)@, session@, request_id),
{
    match &session.client_fingerprint {
        None => single(Effect::Fail("Authenticate received before Hello".to_owned())),
        Some(key_id) => {
            if hub.authenticated.contains_key(key_id.as_str()) {
                return single(Effect::Send(ok(request_id).encode_to_vec()));
            }
            hub.pending.insert(key_id.as_str(), request_pairing(key_id, &session.peer));
            single(
                Effect::AwaitApproval(
                    ApprovalWait {
                        key_id: key_id.clone(),
                        request_id,
                        sealed_for: None,
                        seconds: CLEAR_WAIT_SECONDS,
                    },
                ),
            )
        },
    }
}

fn cancelled(request_id: u32) -> (frame: Vec<u8>)
    ensures
        frame@ == frame_of(cancelled_payload(request_id)),
{
    error_response(
        request_id,
        ErrorCode::Cancelled,
        "Authentication cancelled by client",
    ).encode_to_vec()
}

fn cancel(hub: &mut Hub, session: &Session, request_id: u32) -> (r: Vec<Effect>)
    requires
        old(hub).wf(),
    ensures
        final(hub).wf(),
        step_view(*final(hub), *session, r@) == cancel_step(old(hub)@, session@, request_id),
{
    match &session.client_fingerprint {
        Some(key_id) => {
            hub.pending.remove(key_id.as_str());
        },
        None => {},
    }
    single(Effect::Send(cancelled(request_id)))
}

fn register(
    effects: &mut Vec<Effect>,
    devices: &Vec<String>,
    id: &String,
    name: &str,
    layout: (u8, u8),
)
    ensures
        effects_view(final(effects)@) == effects_view(old(effects)@) + registration(
            devices@,
            id@,
            name@,
            layout,
        ),
{
    match register_open_deck_device(devices, id, name, layout) {
        Some(event) => {
            push(effects, Effect::Register(event));
        },
        None => {},
    }
    assert(effects_view(effects@) =~= effects_view(old(effects)@) + registration(
        devices@,
        id@,
        name@,
        layout,
    ));
}

fn opened(request_id: u32, id: &String, name: &str) -> (frame: Vec<u8>)
    ensures
        frame@ == frame_of(opened_payload(request_id, id@, name@)),
{
    let message: ServerMessage = ServerMessage {
        payload: Some(
            Payload::VirtualDeviceOpened(
                VirtualDeviceOpened {
                    request_id,
                    device: Some(VirtualDevice { id: id.clone(), name: name.to_owned() }),
                },
            ),
        ),
    };
    message.encode_to_vec()
}

/// The keypad of an app that says nothing about it.
fn default_keypad() -> (r: KeypadConfig)
    ensures
        r@ == (KeypadConfigView {
            supported_icon_image_formats: seq![5i32],
            icon_size: Some(Size { width: 96, height: 96 }),
            pressed_icon_size: Some(Size { width: 96, height: 96 }),
            high_dpi: true,
            overscale: true,
            layout_crop: Some(Size { width: 5, height: 3 }),
            enable_context_api: true,
        }),
{
    let mut formats: Vec<i32> = Vec::new();
    formats.push(ImageFormat::Png.code());
    assert(formats@ =~= seq![5i32]);
    KeypadConfig {
        supported_icon_image_formats: formats,
        icon_size: Some(Size { width: 96, height: 96 }),
        pressed_icon_size: Some(Size { width: 96, height: 96 }),
        high_dpi: true,
        overscale: true,
        layout_crop: Some(Size { width: DEFAULT_COLS as u32, height: DEFAULT_ROWS as u32 }),
        enable_context_api: true,
    }
}

fn create_device(session: &Session, devices: &Vec<String>, create: CreateVirtualDevice) -> (r: Vec<
    Effect,
>)
    ensures
        forall|hub: HubView|
            (StepView { hub, session: session@, effects: effects_view(r@) })
                == #[trigger] create_step(hub, session@, devices@, create@),
{
    let id: String = match &session.device_id {
        Some(id) => id.clone(),
        None => mobile_id(session.peer_ip.as_str()),
    };
    let ghost crop = created_crop(create@.keypad_config);
    let keypad: KeypadConfig = match create.keypad_config {
        Some(keypad) => keypad,
        None => default_keypad(),
    };
    assert(keypad@.layout_crop == crop);
    let mut effects: Vec<Effect> = nothing();
    register(&mut effects, devices, &id, create.name.as_str(), layout(&keypad.layout_crop));
    push(&mut effects, Effect::Attach(id.clone()));
    push(&mut effects, Effect::Send(opened(create.request_id, &id, create.name.as_str())));
    push(&mut effects, Effect::Send(send_context(&keypad)));
    assert(effects_view(effects@) =~= registration(
        devices@,
        id@,
        create.name@,
        layout_of(crop),
    ) + seq![
        EffectView::Attach(id@),
        EffectView::Send(frame_of(opened_payload(create.request_id, id@, create.name@))),
        EffectView::Send(frame_of(context_payload(crop))),
    ]);
    effects
}

fn open_device(session: &mut Session, devices: &Vec<String>, open: OpenVirtualDevice) -> (r: Vec<
    Effect,
>)
    ensures
        forall|hub: HubView|
            (StepView { hub, session: final(session)@, effects: effects_view(r@) })
                == #[trigger] open_step(hub, old(session)@, devices@, open@),
{
    let ghost asked = open@;
    let (rows, columns): (u8, u8) = match &open.keypad_config {
        Some(keypad) => layout(&keypad.layout_crop),
        None => (DEFAULT_ROWS, DEFAULT_COLS),
    };
    let id: String = open.device_id;
    let mut effects: Vec<Effect> = nothing();
    register(&mut effects, devices, &id, "Stream Deck Mobile", (rows, columns));
    push(&mut effects, Effect::Attach(id.clone()));
    push(&mut effects, Effect::Send(opened(open.request_id, &id, "Stream Deck Mobile")));
    match &open.keypad_config {
        Some(keypad) => {
            push(&mut effects, Effect::Send(send_context(keypad)));
        },
        None => {},
    }
    session.device_id = Some(id);
    proof {
        let step = open_step(arbitrary(), old(session)@, devices@, asked);
        assert(effects_view(effects@) =~= step.effects);
    }
    effects
}

fn delete_device(hub: &mut Hub, session: &Session, request_id: u32) -> (r: Vec<Effect>)
    requires
        old(hub).wf(),
    ensures
        final(hub).wf(),
        step_view(*final(hub), *session, r@) == delete_step(old(hub)@, session@, request_id),
{
    let mut effects: Vec<Effect> = nothing();
    match &session.device_id {
        Some(id) => {
            hub.clients.remove(id.as_str());
            push(&mut effects, Effect::Deregister(deregister_open_deck_device(id)));
        },
        None => {},
    }
    push(&mut effects, Effect::Send(ok(request_id).encode_to_vec()));
    proof {
        let step = delete_step(old(hub)@, session@, request_id);
        assert(effects_view(effects@) =~= step.effects);
    }
    effects
}

fn handle_message(
    hub: &mut Hub,
    session: &mut Session,
    server: &ServerProfile,
    devices: &Vec<String>,
    message: ClientMessage,
) -> (r: Vec<Effect>)
    requires
        old(hub).wf(),
    ensures
        final(hub).wf(),
        step_view(*final(hub), *final(session), r@) == message_step(
            old(hub)@,
            old(session)@,
            server@,
            devices@,
            message@,
        ),
{
    match message.payload {
        Some(ClientPayload::Hello(hello)) => say_hello(hub, session, server, hello),
        Some(ClientPayload::Authenticate(m)) => authenticate(hub, session, m.request_id),
        Some(ClientPayload::CancelAuthenticate(m)) => cancel(hub, session, m.request_id),
        Some(ClientPayload::CreateVirtualDevice(m)) => {
            let effects: Vec<Effect> = create_device(session, devices, m);
            assert(step_view(*hub, *session, effects@) == create_step(
                hub@,
                session@,
                devices@,
                m@,
            ));
            effects
        },
        Some(ClientPayload::OpenVirtualDevice(m)) => {
            let effects: Vec<Effect> = open_device(session, devices, m);
            assert(step_view(*hub, *session, effects@) == open_step(
                hub@,
                old(session)@,
                devices@,
                m@,
            ));
            effects
        },
        Some(ClientPayload::DeleteVirtualDevice(m)) => delete_device(hub, session, m.request_id),
        _ => nothing(),
    }
}

fn handle_sealed_message(
    hub: &mut Hub,
    session: &Session,
    key_id: &String,
    peer_key: [u8; 32],
    message: ClientMessage,
) -> (r: Vec<Effect>)
    requires
        old(hub).wf(),
    ensures
        final(hub).wf(),
        step_view(*final(hub), *session, r@) == sealed_message_step(
            old(hub)@,
            session@,
            key_id@,
            peer_key@,
            message@,
        ),
{
    match message.payload {
        Some(ClientPayload::Authenticate(m)) => {
            if hub.authenticated.contains_key(key_id.as_str()) {
                return single(
                    Effect::SendSealed {
                        peer: peer_key,
                        plaintext: ok(m.request_id).encode_to_vec(),
                    },
                );
            }
            if !hub.pending.contains_key(key_id.as_str()) {
                hub.pending.insert(key_id.as_str(), request_pairing(key_id, &session.peer));
            }
            single(
                Effect::AwaitApproval(
                    ApprovalWait {
                        key_id: key_id.clone(),
                        request_id: m.request_id,
                        sealed_for: Some(peer_key),
                        seconds: SEALED_WAIT_SECONDS,
                    },
                ),
            )
        },
        Some(ClientPayload::CancelAuthenticate(m)) => single(
            Effect::SendSealed { peer: peer_key, plaintext: cancelled(m.request_id) },
        ),
        _ => nothing(),
    }
}

fn handle_sealed(hub: &mut Hub, session: &Session, server: &ServerProfile, frame: &Vec<u8>) -> (r: Vec<
    Effect,
>)
    requires
        old(hub).wf(),
    ensures
        final(hub).wf(),
        step_view(*final(hub), *session, r@) == sealed_step(
            old(hub)@,
            session@,
            server@,
            frame@,
        ),
{
    if frame.len() < 24 + 16 {
        return nothing();
    }
    let key_id: &String = match &session.client_fingerprint {
        Some(key_id) => key_id,
        None => {
            return nothing();
        },
    };
    let peer_key: [u8; 32] = match hub.public_keys.get(key_id.as_str()) {
        Some(key) => {
            if key.len() != 32 {
                return nothing();
            }
            let peer_key: [u8; 32] = first_32(key.as_slice());
            assert(peer_key@ =~= key@);
            peer_key
        },
        None => {
            return nothing();
        },
    };
    let nonce: [u8; 24] = first_24(frame.as_slice());
    let total: usize = frame.len();
    let boxed: &[u8] = slice_subrange(frame.as_slice(), 24, total);
    assert(boxed@ =~= frame@.skip(24));
    match open_box(&peer_key, &server.secret_key, &nonce, boxed) {
        Some(plaintext) => match ClientMessage::decode(plaintext.as_slice()) {
            Some(message) => handle_sealed_message(hub, session, key_id, peer_key, message),
            None => nothing(),
        },
        None => nothing(),
    }
}

/// What an event on the socket of a mobile app leads to. Each message of the app changes the state
/// as [`client_step`] says, and the effects are to be performed in their order.
pub fn handle_client(
    hub: &mut Hub,
    session: &mut Session,
    server: &ServerProfile,
    devices: &Vec<String>,
    event: SocketEvent,
) -> (effects: Vec<Effect>)
    requires
        old(hub).wf(),
    ensures
        final(hub).wf(),
        step_view(*final(hub), *final(session), effects@) == client_step(
            old(hub)@,
            old(session)@,
            server@,
            devices@,
            event@,
        ),
{
    match event {
        SocketEvent::Binary(frame) => match ClientMessage::decode(frame.as_slice()) {
            Some(message) => handle_message(hub, session, server, devices, message),
            None => handle_sealed(hub, session, server, &frame),
        },
        SocketEvent::Ping(payload) => single(Effect::Pong(payload)),
        SocketEvent::Close => single(Effect::Close),
        SocketEvent::Other => nothing(),
    }
}

// ---------------------------------------------------------------------------------------------
// After the step
// ---------------------------------------------------------------------------------------------
/// Where a request stands: approved, gone, or nothing yet, which is when to go on waiting.
pub open spec fn request_status(
    pending: Map<Seq<char>, PendingPairingView>,
    key: Seq<char>,
) -> Option<bool> {
    if !pending.contains_key(key) {
        Some(false)
    } else if pending[key].approved {
        Some(true)
    } else {
        None
    }
}

/// Whether the desktop has approved a request; nothing while it has not decided.
pub fn approval_status(hub: &Hub, key_id: &String) -> (r: Option<bool>)
    requires
        hub.wf(),
    ensures
        r == request_status(hub@.pending, key_id@),
{
    match hub.pending.get(key_id.as_str()) {
        Some(request) => if request.approved {
            Some(true)
        } else {
            None
        },
        None => Some(false),
    }
}

/// That the desktop did not approve a request.
pub open spec fn rejected_payload(request_id: u32) -> PayloadView {
    error_payload(
        request_id,
        ErrorCode::AuthenticationRejected,
        "Desktop did not approve this Stream Deck Mobile pairing"@,
    )
}

/// What the answer to a request is.
pub open spec fn decision_payload(request_id: u32, approved: bool) -> PayloadView {
    if approved {
        ok_payload(request_id)
    } else {
        rejected_payload(request_id)
    }
}

/// What the end of the wait for the desktop leads to. A request that came sealed is answered
/// sealed. An app whose request is approved is trusted from then on.
pub open spec fn decision_step(
    hub: HubView,
    session: SessionView,
    wait: ApprovalWaitView,
    approved: bool,
) -> StepView {
    let plaintext = frame_of(decision_payload(wait.request_id, approved));
    StepView {
        hub: HubView {
            authenticated: if approved {
                hub.authenticated.insert(wait.key_id)
            } else {
                hub.authenticated
            },
            pending: if approved && wait.sealed_for is Some {
                hub.pending.remove(wait.key_id)
            } else {
                hub.pending
            },
            ..hub
        },
        session: SessionView { authenticated: session.authenticated || approved, ..session },
        effects: seq![
            match wait.sealed_for {
                Some(peer) => EffectView::SendSealed { peer, plaintext },
                None => EffectView::Send(plaintext),
            },
            EffectView::DropPending(wait.key_id),
        ],
    }
}

fn decision(request_id: u32, approved: bool) -> (frame: Vec<u8>)
    ensures
        frame@ == frame_of(decision_payload(request_id, approved)),
{
    if approved {
        ok(request_id).encode_to_vec()
    } else {
        error_response(
            request_id,
            ErrorCode::AuthenticationRejected,
            "Desktop did not approve this Stream Deck Mobile pairing",
        ).encode_to_vec()
    }
}

/// Goes on after the wait for the desktop: `approved` is what it has decided, and false if it did
/// not decide in time.
pub fn finish_authentication(
    hub: &mut Hub,
    session: &mut Session,
    wait: ApprovalWait,
    approved: bool,
) -> (effects: Vec<Effect>)
    requires
        old(hub).wf(),
    ensures
        final(hub).wf(),
        step_view(*final(hub), *final(session), effects@) == decision_step(
            old(hub)@,
            old(session)@,
            wait@,
            approved,
        ),
{
    if approved {
        session.authenticated = true;
        hub.authenticated.insert(wait.key_id.as_str(), ());
    }
    let plaintext: Vec<u8> = decision(wait.request_id, approved);
    let mut effects: Vec<Effect> = nothing();
    match wait.sealed_for {
        Some(peer) => {
            if approved {
                hub.pending.remove(wait.key_id.as_str());
            }
            push(&mut effects, Effect::SendSealed { peer, plaintext });
        },
        None => {
            push(&mut effects, Effect::Send(plaintext));
        },
    }
    push(&mut effects, Effect::DropPending(wait.key_id));
    proof {
        let step = decision_step(old(hub)@, old(session)@, wait@, approved);
        assert(effects_view(effects@) =~= step.effects);
        assert(hub@ =~= step.hub);
    }
    effects
}

/// Forgets a request.
pub fn drop_pending(hub: &mut Hub, key_id: &String)
    requires
        old(hub).wf(),
    ensures
        final(hub).wf(),
        final(hub)@ == (HubView { pending: old(hub)@.pending.remove(key_id@), ..old(hub)@ }),
{
    hub.pending.remove(key_id.as_str());
}

/// Puts a connection behind a device.
pub fn attach(hub: &mut Hub, device_id: &String, connection: u64)
    requires
        old(hub).wf(),
    ensures
        final(hub).wf(),
        final(hub)@ == (HubView {
            clients: old(hub)@.clients.insert(device_id@, connection),
            ..old(hub)@
        }),
{
    hub.clients.insert(device_id.as_str(), connection);
}

/// The end of a connection: no connection stands behind its device. What is known of the app
/// stays, as it opens several short connections.
pub fn disconnect(hub: &mut Hub, session: &Session)
    requires
        old(hub).wf(),
    ensures
        final(hub).wf(),
        final(hub)@ == (HubView {
            clients: match session@.device_id {
                Some(id) => old(hub)@.clients.remove(id),
                None => old(hub)@.clients,
            },
            ..old(hub)@
        }),
{
    match &session.device_id {
        Some(id) => {
            hub.clients.remove(id.as_str());
        },
        None => {},
    }
}

} // verus!
