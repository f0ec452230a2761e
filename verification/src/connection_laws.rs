//! What the mobile app can rely on: what each of its messages changes, and what it is answered.
use vstd::prelude::*;

use crate::client_message::{
    Authenticate, CancelAuthenticate, ClientMessage, ClientMessageView, CreateVirtualDeviceView,
    DeleteVirtualDevice, HelloFromClientView, OpenVirtualDeviceView,
    PayloadView as ClientPayloadView, Size,
};
use crate::crypto::{box_opened, box_sealed, frame_opened, sealed_frame};
use crate::identity::key_id;
use crate::laws::says_sealed;
use crate::pairing::PendingPairingView;
use crate::replies::{context_payload, error_payload, layout_of, ok_payload, ErrorCode};
use crate::server_message::{
    frame_of, ContextView, ErrorReplyView, HelloFromServerView, OkReply, PayloadView,
    ServiceEndpointsView, VirtualDeviceOpenedView, VirtualDeviceView,
};
use crate::session::{
    client_step, decision_step, is_known, mobile_device, registration, request_status,
    step_view, ApprovalWaitView, Effect, EffectView, Hub, HubView, ServerProfileView, Session, SessionView, SocketEventView, StepView,
};

verus! {

// ---------------------------------------------------------------------------------------------
// Words
// ---------------------------------------------------------------------------------------------
/// A frame in the clear, and what it says.
pub open spec fn says(frame: Seq<u8>, payload: ClientPayloadView) -> bool {
    ClientMessage::decoded(frame) == Some(ClientMessageView { payload: Some(payload) })
}

/// The connection after a frame.
pub open spec fn after_frame(
    hub: HubView,
    session: SessionView,
    server: ServerProfileView,
    devices: Seq<String>,
    frame: Seq<u8>,
) -> StepView {
    client_step(hub, session, server, devices, SocketEventView::Binary(frame))
}

/// Whether a number of rows or columns is the one that was asked for, or the nearest that a device
/// can have.
pub open spec fn meets(n: u8, asked: u32) -> bool {
    &&& 1 <= asked <= 255 ==> n == asked
    &&& asked < 1 ==> n == 1
    &&& asked > 255 ==> n == 255
}

/// Whether rows and columns are the ones that were asked for; who asks for nothing gets three rows
/// of five.
pub open spec fn meets_layout(rows: u8, columns: u8, asked: Option<Size>) -> bool {
    match asked {
        Some(size) => meets(rows, size.height) && meets(columns, size.width),
        None => rows == 3 && columns == 5,
    }
}

/// Whether the desktop does not know a device.
pub open spec fn is_new(devices: Seq<String>, id: Seq<char>) -> bool {
    forall|i: int| 0 <= i < devices.len() ==> (#[trigger] devices[i])@ != id
}

/// Whether an effect makes a mobile device known, with this layout.
pub open spec fn registers(
    effect: EffectView,
    id: Seq<char>,
    name: Seq<char>,
    rows: u8,
    columns: u8,
) -> bool {
    effect matches EffectView::Register(device) && {
        &&& device.id == id
        &&& device.name == name
        &&& device.rows == rows
        &&& device.columns == columns
        &&& device.plugin.len() == 0
        &&& device.encoders == 0
        &&& device.touchpoints == 0
        &&& device.infobars == 0
        &&& device.device_type == 3
    }
}

/// Whether an effect sends the app a page with one blank key for each place.
pub open spec fn sends_page(effect: EffectView, rows: u8, columns: u8) -> bool {
    exists|page: ContextView|
        {
            &&& effect == EffectView::Send(#[trigger] frame_of(PayloadView::Context(page)))
            &&& page.profile_id == "opendeck-mobile-profile"@
            &&& page.total_pages == 1
            &&& page.current_page == 0
            &&& page.actions.len() == rows * columns
            &&& forall|i: int|
                0 <= i < rows * columns ==> (#[trigger] page.actions[i]).index == i
                    && page.actions[i].title.len() == 0 && page.actions[i].name.len() == 0
                    && page.actions[i].category.len() == 0 && page.actions[i].shortcut_id is None
        }
}

/// That a device is ready, as the app is told.
pub open spec fn ready(request_id: u32, id: Seq<char>, name: Seq<char>) -> EffectView {
    EffectView::Send(
        frame_of(
            PayloadView::VirtualDeviceOpened(
                VirtualDeviceOpenedView { request_id, device: Some(VirtualDeviceView { id, name }) },
            ),
        ),
    )
}

/// That a request succeeded, as the app is told.
pub open spec fn success(request_id: u32) -> Seq<u8> {
    frame_of(PayloadView::Success(OkReply { request_id }))
}

/// That a request failed, as the app is told.
pub open spec fn failure(request_id: u32, code: i32, reason: Seq<char>) -> Seq<u8> {
    frame_of(PayloadView::Error(ErrorReplyView { request_id, code, reason: Some(reason) }))
}

proof fn lemma_layout(rows: u8, columns: u8, asked: Option<Size>)
    requires
        meets_layout(rows, columns, asked),
    ensures
        layout_of(asked) == (rows, columns),
        sends_page(EffectView::Send(frame_of(context_payload(asked))), rows, columns),
{
    let page = context_payload(asked)->Context_0;
    assert(context_payload(asked) == PayloadView::Context(page));
    assert(0 <= rows * columns <= 255 * 255) by (nonlinear_arith)
        requires
            0 <= rows <= 255,
            0 <= columns <= 255,
    ;
    assert(EffectView::Send(frame_of(context_payload(asked))) == EffectView::Send(
        frame_of(PayloadView::Context(page)),
    ));
}

proof fn lemma_is_new(devices: Seq<String>, id: Seq<char>)
    ensures
        is_new(devices, id) == !is_known(devices, id),
{
}

// ---------------------------------------------------------------------------------------------
// Devices
// ---------------------------------------------------------------------------------------------
/// Opening a device makes it known if it is not, with the layout that the app asks for, puts the
/// connection behind it and tells the app. An app that speaks of its keypad gets a page with as many
/// keys as the device that was made known has places. The connection goes by that device from then
/// on, and nothing else changes.
pub proof fn opened_devices_have_the_layout_asked_for(
    hub: HubView,
    session: SessionView,
    server: ServerProfileView,
    devices: Seq<String>,
    frame: Seq<u8>,
    open: OpenVirtualDeviceView,
    rows: u8,
    columns: u8,
)
    requires
        says(frame, ClientPayloadView::OpenVirtualDevice(open)),
        meets_layout(
            rows,
            columns,
            match open.keypad_config {
                Some(keypad) => keypad.layout_crop,
                None => None,
            },
        ),
    ensures
        ({
            let step = after_frame(hub, session, server, devices, frame);
            let name = "Stream Deck Mobile"@;
            let first: int = if is_new(devices, open.device_id) {
                1
            } else {
                0
            };
            let pages: int = if open.keypad_config is Some {
                1
            } else {
                0
            };
            &&& step.effects.len() == first + 2 + pages
            &&& is_new(devices, open.device_id) ==> registers(
                step.effects[0],
                open.device_id,
                name,
                rows,
                columns,
            )
            &&& step.effects[first] == EffectView::Attach(open.device_id)
            &&& step.effects[first + 1] == ready(open.request_id, open.device_id, name)
            &&& open.keypad_config is Some ==> sends_page(step.effects[first + 2], rows, columns)
            &&& forall|i: int|
                first <= i < step.effects.len() ==> !((#[trigger] step.effects[i]) is Register)
            &&& step.hub == hub
            &&& step.session.device_id == Some(open.device_id)
            &&& step.session.client_fingerprint == session.client_fingerprint
            &&& step.session.authenticated == session.authenticated
            &&& step.session.connection == session.connection
            &&& step.session.peer == session.peer
            &&& step.session.peer_ip == session.peer_ip
        }),
{
    let asked = match open.keypad_config {
        Some(keypad) => keypad.layout_crop,
        None => None,
    };
    lemma_layout(rows, columns, asked);
    lemma_is_new(devices, open.device_id);
}

/// Creating a device makes it known under the name that the app gives it, if it is not, with the
/// layout that the app asks for, puts the connection behind it, tells the app and sends it a page
/// with as many keys as the device has places. The device is the one that the connection goes by, or
/// is named after the address of the app. Nothing else changes.
pub proof fn created_devices_have_the_layout_asked_for(
    hub: HubView,
    session: SessionView,
    server: ServerProfileView,
    devices: Seq<String>,
    frame: Seq<u8>,
    create: CreateVirtualDeviceView,
    rows: u8,
    columns: u8,
)
    requires
        says(frame, ClientPayloadView::CreateVirtualDevice(create)),
        meets_layout(
            rows,
            columns,
            match create.keypad_config {
                Some(keypad) => keypad.layout_crop,
                None => None,
            },
        ),
    ensures
        ({
            let step = after_frame(hub, session, server, devices, frame);
            let id = if session.device_id is Some {
                session.device_id.unwrap()
            } else {
                "sdm-"@ + session.peer_ip
            };
            let first: int = if is_new(devices, id) {
                1
            } else {
                0
            };
            &&& step.effects.len() == first + 3
            &&& is_new(devices, id) ==> registers(
                step.effects[0],
                id,
                create.name,
                rows,
                columns,
            )
            &&& step.effects[first] == EffectView::Attach(id)
            &&& step.effects[first + 1] == ready(create.request_id, id, create.name)
            &&& sends_page(step.effects[first + 2], rows, columns)
            &&& step.hub == hub
            &&& step.session == session
        }),
{
    let id = if session.device_id is Some {
        session.device_id.unwrap()
    } else {
        "sdm-"@ + session.peer_ip
    };
    match create.keypad_config {
        Some(keypad) => {
            lemma_layout(rows, columns, keypad.layout_crop);
        },
        None => {
            lemma_layout(rows, columns, Some(Size { width: 5, height: 3 }));
        },
    }
    lemma_is_new(devices, id);
}

/// Giving a device up takes the connection away from it and from no other device, makes it unknown
/// to the desktop, and is answered. A connection without a device is only answered.
pub proof fn given_up_devices_are_gone(
    hub: HubView,
    session: SessionView,
    server: ServerProfileView,
    devices: Seq<String>,
    frame: Seq<u8>,
    delete: DeleteVirtualDevice,
    other: Seq<char>,
)
    requires
        says(frame, ClientPayloadView::DeleteVirtualDevice(delete)),
        session.device_id != Some(other),
    ensures
        ({
            let step = after_frame(hub, session, server, devices, frame);
            let reply = EffectView::Send(success(delete.request_id));
            &&& session.device_id matches Some(id) ==> !step.hub.clients.contains_key(id)
                && step.effects == seq![EffectView::Deregister(id), reply]
            &&& session.device_id is None ==> step.effects == seq![reply]
            &&& step.hub.clients.contains_key(other) == hub.clients.contains_key(other)
            &&& hub.clients.contains_key(other) ==> step.hub.clients[other] == hub.clients[other]
            &&& step.hub.pending == hub.pending
            &&& step.hub.public_keys == hub.public_keys
            &&& step.hub.authenticated == hub.authenticated
            &&& step.session == session
        }),
{
}

// ---------------------------------------------------------------------------------------------
// Hello
// ---------------------------------------------------------------------------------------------
/// A hello files the app's key under its verification code, names the device after it, and is
/// answered with what the server is: its identity, its key, where it is reached, and whether the app
/// has to ask. Nothing else changes.
pub proof fn hellos_are_answered_with_the_identity(
    hub: HubView,
    session: SessionView,
    server: ServerProfileView,
    devices: Seq<String>,
    frame: Seq<u8>,
    hello: HelloFromClientView,
)
    requires
        says(frame, ClientPayloadView::Hello(hello)),
        hello.public_key.len() > 0,
    ensures
        ({
            let step = after_frame(hub, session, server, devices, frame);
            let code = key_id(hello.public_key);
            let trusted = hub.authenticated.contains(code);
            let reply = HelloFromServerView {
                workstation_id: server.workstation_id,
                hostname: server.hostname,
                version: server.version,
                protocol_version: 2,
                public_key: server.public_key,
                client_needs_authentication: !trusted,
                os_name: Some(server.os_name),
                os_version: None,
                endpoints: Some(
                    ServiceEndpointsView { addresses: seq![server.address], port: 28198 },
                ),
            };
            &&& step.effects == seq![EffectView::Send(frame_of(PayloadView::Hello(reply)))]
            &&& step.hub.public_keys == hub.public_keys.insert(code, hello.public_key)
            &&& step.hub.pending == hub.pending
            &&& step.hub.authenticated == hub.authenticated
            &&& step.hub.clients == hub.clients
            &&& step.session.client_fingerprint == Some(code)
            &&& step.session.device_id == Some("sdm-"@ + code)
            &&& step.session.authenticated == (session.authenticated || trusted)
            &&& step.session.connection == session.connection
            &&& step.session.peer == session.peer
            &&& step.session.peer_ip == session.peer_ip
        }),
{
}

/// A hello without a key ends the connection, and so does a request before the hello. Neither
/// changes anything.
pub proof fn out_of_turn_messages_end_the_connection(
    hub: HubView,
    session: SessionView,
    server: ServerProfileView,
    devices: Seq<String>,
    frame: Seq<u8>,
    hello: HelloFromClientView,
    request: Authenticate,
)
    ensures
        ({
            let step = after_frame(hub, session, server, devices, frame);
            &&& says(frame, ClientPayloadView::Hello(hello)) && hello.public_key.len() == 0
                ==> step.effects == seq![
                EffectView::Fail("Stream Deck Mobile sent an empty public key"@),
            ] && step.hub == hub && step.session == session
            &&& says(frame, ClientPayloadView::Authenticate(request))
                && session.client_fingerprint is None ==> step.effects == seq![
                EffectView::Fail("Authenticate received before Hello"@),
            ] && step.hub == hub && step.session == session
        }),
{
}

// ---------------------------------------------------------------------------------------------
// Requests to be paired
// ---------------------------------------------------------------------------------------------
/// A request of an app that is not trusted is shown to the desktop under the app's code and with
/// the address that the app has, and the connection waits for the answer: a minute if the request
/// came in the clear, two if it came sealed. A request in the clear takes the place of an older one;
/// a sealed one leaves it as it is. Nothing else changes.
pub proof fn requests_are_shown_to_the_desktop(
    hub: HubView,
    session: SessionView,
    server: ServerProfileView,
    devices: Seq<String>,
    frame: Seq<u8>,
    key: Seq<char>,
    request: Authenticate,
)
    requires
        session.client_fingerprint == Some(key),
        !hub.authenticated.contains(key),
        says(frame, ClientPayloadView::Authenticate(request)) || says_sealed(
            hub,
            session,
            server,
            frame,
            key,
            ClientPayloadView::Authenticate(request),
        ),
    ensures
        ({
            let step = after_frame(hub, session, server, devices, frame);
            let clear = says(frame, ClientPayloadView::Authenticate(request));
            let shown = PendingPairingView {
                fingerprint: key,
                name: "Stream Deck Mobile"@,
                peer: session.peer,
                approved: false,
            };
            &&& step.hub.pending == if !clear && hub.pending.contains_key(key) {
                hub.pending
            } else {
                hub.pending.insert(key, shown)
            }
            &&& step.effects.len() == 1
            &&& step.effects[0] matches EffectView::AwaitApproval(wait) && {
                &&& wait.key_id == key
                &&& wait.request_id == request.request_id
                &&& clear ==> wait.sealed_for is None && wait.seconds == 60
                &&& !clear ==> wait.sealed_for == Some(hub.public_keys[key]) && wait.seconds == 120
            }
            &&& step.hub.public_keys == hub.public_keys
            &&& step.hub.authenticated == hub.authenticated
            &&& step.hub.clients == hub.clients
            &&& step.session == session
        }),
{
}

/// A trusted app is answered at once, in the way in which it asks, and nothing changes.
pub proof fn requests_of_trusted_apps_succeed(
    hub: HubView,
    session: SessionView,
    server: ServerProfileView,
    devices: Seq<String>,
    frame: Seq<u8>,
    key: Seq<char>,
    request: Authenticate,
)
    requires
        session.client_fingerprint == Some(key),
        hub.authenticated.contains(key),
    ensures
        ({
            let step = after_frame(hub, session, server, devices, frame);
            &&& says(frame, ClientPayloadView::Authenticate(request)) ==> step.effects == seq![
                EffectView::Send(success(request.request_id)),
            ] && step.hub == hub && step.session == session
            &&& says_sealed(
                hub,
                session,
                server,
                frame,
                key,
                ClientPayloadView::Authenticate(request),
            ) ==> step.effects == seq![
                EffectView::SendSealed {
                    peer: hub.public_keys[key],
                    plaintext: success(request.request_id),
                },
            ] && step.hub == hub && step.session == session
        }),
{
}

/// A request that is taken back is answered as cancelled, in the way in which that was asked. In
/// the clear, the request of this app and of no other is dropped.
pub proof fn requests_can_be_taken_back(
    hub: HubView,
    session: SessionView,
    server: ServerProfileView,
    devices: Seq<String>,
    frame: Seq<u8>,
    key: Seq<char>,
    cancel: CancelAuthenticate,
    other: Seq<char>,
)
    requires
        session.client_fingerprint != Some(other),
    ensures
        ({
            let step = after_frame(hub, session, server, devices, frame);
            let reply = failure(
                cancel.request_id,
                4,
                "Authentication cancelled by client"@,
            );
            &&& says(frame, ClientPayloadView::CancelAuthenticate(cancel)) ==> {
                &&& step.effects == seq![EffectView::Send(reply)]
                &&& session.client_fingerprint matches Some(k) ==> !step.hub.pending.contains_key(k)
                &&& step.hub.pending.contains_key(other) == hub.pending.contains_key(other)
                &&& hub.pending.contains_key(other) ==> step.hub.pending[other]
                    == hub.pending[other]
                &&& step.hub.public_keys == hub.public_keys
                &&& step.hub.authenticated == hub.authenticated
                &&& step.hub.clients == hub.clients
                &&& step.session == session
            }
            &&& says_sealed(
                hub,
                session,
                server,
                frame,
                key,
                ClientPayloadView::CancelAuthenticate(cancel),
            ) ==> {
                &&& step.effects == seq![
                    EffectView::SendSealed { peer: hub.public_keys[key], plaintext: reply },
                ]
                &&& step.hub == hub
                &&& step.session == session
            }
        }),
{
}

/// The end of a wait is told to the app, in the way in which it asked, and the request is to be
/// dropped. An approval makes the app trusted and the connection authenticated, and if the request
/// came sealed it is dropped at once; without an approval nothing changes.
pub proof fn decisions_are_told_to_the_app(
    hub: HubView,
    session: SessionView,
    wait: ApprovalWaitView,
    approved: bool,
    other: Seq<char>,
)
    requires
        other != wait.key_id,
    ensures
        ({
            let step = decision_step(hub, session, wait, approved);
            let reply = if approved {
                success(wait.request_id)
            } else {
                failure(
                    wait.request_id,
                    3,
                    "Desktop did not approve this Stream Deck Mobile pairing"@,
                )
            };
            &&& step.effects.len() == 2
            &&& wait.sealed_for is None ==> step.effects[0] == EffectView::Send(reply)
            &&& wait.sealed_for matches Some(peer) ==> step.effects[0] == EffectView::SendSealed {
                peer,
                plaintext: reply,
            }
            &&& step.effects[1] == EffectView::DropPending(wait.key_id)
            &&& approved ==> step.hub.authenticated == hub.authenticated.insert(wait.key_id)
            &&& !approved ==> step.hub == hub
            &&& approved && wait.sealed_for is Some ==> !step.hub.pending.contains_key(wait.key_id)
            &&& wait.sealed_for is None ==> step.hub.pending == hub.pending
            &&& step.hub.pending.contains_key(other) == hub.pending.contains_key(other)
            &&& hub.pending.contains_key(other) ==> step.hub.pending[other] == hub.pending[other]
            &&& step.hub.public_keys == hub.public_keys
            &&& step.hub.clients == hub.clients
            &&& step.session.authenticated == (session.authenticated || approved)
            &&& step.session.device_id == session.device_id
            &&& step.session.client_fingerprint == session.client_fingerprint
            &&& step.session.connection == session.connection
            &&& step.session.peer == session.peer
            &&& step.session.peer_ip == session.peer_ip
        }),
{
}

/// A waiting connection goes on waiting exactly as long as the request is there and has not been
/// approved.
pub proof fn waits_end_with_the_request(
    pending: Map<Seq<char>, PendingPairingView>,
    key: Seq<char>,
)
    ensures
        request_status(pending, key) is None <==> pending.contains_key(key)
            && !pending[key].approved,
        request_status(pending, key) == Some(true) <==> pending.contains_key(key)
            && pending[key].approved,
        request_status(pending, key) == Some(false) <==> !pending.contains_key(key),
{
}

// ---------------------------------------------------------------------------------------------
// Parts of the answers
// ---------------------------------------------------------------------------------------------
/// Replies name the request that they answer, and a failure says why, in a number and in words.
pub proof fn replies_name_their_request(request_id: u32, code: ErrorCode, reason: Seq<char>)
    ensures
        ok_payload(request_id) == PayloadView::Success(OkReply { request_id }),
        error_payload(request_id, code, reason) matches PayloadView::Error(reply)
            && reply.request_id == request_id && reply.reason == Some(reason) && reply.code
            == match code {
            ErrorCode::DeviceNotFound => 0i32,
            ErrorCode::DeviceNameAlreadyTaken => 1i32,
            ErrorCode::ResourceLimitReached => 2i32,
            ErrorCode::AuthenticationRejected => 3i32,
            ErrorCode::Cancelled => 4i32,
            ErrorCode::InvalidState => 5i32,
        },
{
}

/// A layout has the rows and columns that were asked for, or the nearest that a device can have,
/// and its page has one blank key for each place.
pub proof fn layouts_are_as_asked_for(asked: Option<Size>)
    ensures
        meets_layout(layout_of(asked).0, layout_of(asked).1, asked),
        sends_page(
            EffectView::Send(frame_of(context_payload(asked))),
            layout_of(asked).0,
            layout_of(asked).1,
        ),
{
    lemma_layout(layout_of(asked).0, layout_of(asked).1, asked);
}

/// A device is made known exactly if it is not, with the identifier, the name, the rows and the
/// columns that it was given.
pub proof fn devices_are_made_known_as_given(
    devices: Seq<String>,
    id: Seq<char>,
    name: Seq<char>,
    rows: u8,
    columns: u8,
)
    ensures
        is_known(devices, id) <==> !is_new(devices, id),
        registers(
            EffectView::Register(mobile_device(id, name, (rows, columns))),
            id,
            name,
            rows,
            columns,
        ),
        registration(devices, id, name, (rows, columns)).len() == if is_new(devices, id) {
            1nat
        } else {
            0nat
        },
{
}

/// A sealed frame is its nonce and, behind it, the box; and so it is opened, if it is long enough
/// for both.
pub proof fn sealed_frames_are_nonce_and_box(
    peer: Seq<u8>,
    secret: Seq<u8>,
    nonce: Seq<u8>,
    plaintext: Seq<u8>,
    boxed: Seq<u8>,
    short: Seq<u8>,
)
    requires
        nonce.len() == 24,
        short.len() < 24 + 16,
    ensures
        sealed_frame(peer, secret, nonce, plaintext).take(24) == nonce,
        sealed_frame(peer, secret, nonce, plaintext).skip(24) == box_sealed(
            peer,
            secret,
            nonce,
            plaintext,
        ),
        boxed.len() >= 16 ==> frame_opened(peer, secret, nonce + boxed) == box_opened(
            peer,
            secret,
            nonce,
            boxed,
        ),
        frame_opened(peer, secret, short) is None,
{
    let frame = sealed_frame(peer, secret, nonce, plaintext);
    assert(frame.take(24) =~= nonce);
    assert(frame.skip(24) =~= box_sealed(peer, secret, nonce, plaintext));
    assert((nonce + boxed).take(24) =~= nonce);
    assert((nonce + boxed).skip(24) =~= boxed);
}

// ---------------------------------------------------------------------------------------------
// Everything else
// ---------------------------------------------------------------------------------------------
/// Whether a message is one that a connection acts on.
pub open spec fn is_acted_on(payload: ClientPayloadView) -> bool {
    payload is Hello || payload is Authenticate || payload is CancelAuthenticate
        || payload is CreateVirtualDevice || payload is OpenVirtualDevice
        || payload is DeleteVirtualDevice
}

/// Every other message of the app, an empty one, and every sealed message but requests change
/// nothing and are not answered.
pub proof fn other_messages_lead_to_nothing(
    hub: HubView,
    session: SessionView,
    server: ServerProfileView,
    devices: Seq<String>,
    frame: Seq<u8>,
    key: Seq<char>,
    payload: ClientPayloadView,
)
    requires
        (says(frame, payload) && !is_acted_on(payload)) || ClientMessage::decoded(frame) == Some(
            ClientMessageView { payload: None },
        ) || (says_sealed(hub, session, server, frame, key, payload) && !(payload is Authenticate)
            && !(payload is CancelAuthenticate)),
    ensures
        ({
            let step = after_frame(hub, session, server, devices, frame);
            step.hub == hub && step.session == session && step.effects.len() == 0
        }),
{
}

/// A frame that is no message changes nothing and is not answered, unless it is a box that opens
/// with the key of the app that said hello.
pub proof fn frames_that_do_not_open_lead_to_nothing(
    hub: HubView,
    session: SessionView,
    server: ServerProfileView,
    devices: Seq<String>,
    frame: Seq<u8>,
)
    requires
        ClientMessage::decoded(frame) is None,
        session.client_fingerprint matches Some(key) ==> !hub.public_keys.contains_key(key)
            || hub.public_keys[key].len() != 32 || frame.len() < 40 || box_opened(
            hub.public_keys[key],
            server.secret_key,
            frame.take(24),
            frame.skip(24),
        ) is None || ClientMessage::decoded(
            box_opened(
                hub.public_keys[key],
                server.secret_key,
                frame.take(24),
                frame.skip(24),
            ).unwrap(),
        ) is None,
    ensures
        ({
            let step = after_frame(hub, session, server, devices, frame);
            step.hub == hub && step.session == session && step.effects.len() == 0
        }),
{
}

/// What is done is what is shown of it: no effect shows anything else than it holds.
pub proof fn effects_show_what_they_hold(effect: Effect)
    ensures
        match effect {
            Effect::Send(frame) => effect@ == EffectView::Send(frame@),
            Effect::SendSealed { peer, plaintext } => effect@ == (EffectView::SendSealed {
                peer: peer@,
                plaintext: plaintext@,
            }),
            Effect::Pong(payload) => effect@ == EffectView::Pong(payload@),
            Effect::Register(event) => registers(
                effect@,
                event.payload.id@,
                event.payload.name@,
                event.payload.rows,
                event.payload.columns,
            ) <==> event.payload.plugin@.len() == 0 && event.payload.encoders == 0
                && event.payload.touchpoints == 0 && event.payload.infobars == 0
                && event.payload.device_type == 3,
            Effect::Deregister(event) => effect@ == EffectView::Deregister(event.payload@),
            Effect::Attach(id) => effect@ == EffectView::Attach(id@),
            Effect::AwaitApproval(wait) => effect@ matches EffectView::AwaitApproval(shown)
                && shown.key_id == wait.key_id@ && shown.request_id == wait.request_id
                && shown.seconds == wait.seconds && (shown.sealed_for is Some
                == wait.sealed_for is Some) && (wait.sealed_for matches Some(key)
                ==> shown.sealed_for == Some(key@)),
            Effect::DropPending(key) => effect@ == EffectView::DropPending(key@),
            Effect::Close => effect@ == EffectView::Close,
            Effect::Fail(reason) => effect@ == EffectView::Fail(reason@),
        },
{
}

/// A step shows the tables, the connection and every effect, in order, as they are.
pub proof fn steps_show_what_they_hold(hub: Hub, session: Session, effects: Seq<Effect>, i: int)
    ensures
        ({
            let step = step_view(hub, session, effects);
            &&& step.hub.pending == hub.pending@
            &&& step.hub.public_keys == hub.public_keys@
            &&& forall|key: Seq<char>| #[trigger]
                step.hub.authenticated.contains(key) <==> hub.authenticated@.contains_key(key)
            &&& step.hub.clients == hub.clients@
            &&& step.session.connection == session.connection
            &&& step.session.peer == session.peer@
            &&& step.session.peer_ip == session.peer_ip@
            &&& step.session.authenticated == session.authenticated
            &&& step.session.device_id is Some <==> session.device_id is Some
            &&& session.device_id matches Some(id) ==> step.session.device_id == Some(id@)
            &&& step.session.client_fingerprint is Some <==> session.client_fingerprint is Some
            &&& session.client_fingerprint matches Some(key) ==> step.session.client_fingerprint
                == Some(key@)
            &&& step.effects.len() == effects.len()
            &&& 0 <= i < effects.len() ==> step.effects[i] == effects[i]@
        }),
{
}

/// A ping is answered with what it carries, a close ends the connection, and neither changes
/// anything; nor does anything else that is no frame.
pub proof fn sockets_are_kept_alive(
    hub: HubView,
    session: SessionView,
    server: ServerProfileView,
    devices: Seq<String>,
    payload: Seq<u8>,
)
    ensures
        client_step(hub, session, server, devices, SocketEventView::Ping(payload)) == (StepView {
            hub,
            session,
            effects: seq![EffectView::Pong(payload)],
        }),
        client_step(hub, session, server, devices, SocketEventView::Close) == (StepView {
            hub,
            session,
            effects: seq![EffectView::Close],
        }),
        client_step(hub, session, server, devices, SocketEventView::Other) == (StepView {
            hub,
            session,
            effects: seq![],
        }),
{
}

} // verus!
