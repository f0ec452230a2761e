//! What holds of the connections as a whole.
use vstd::prelude::*;

use crate::app_messages::{app_frame, apps_are_understood};
use crate::client_message::{
    Authenticate, CancelAuthenticate, ClientMessage, ClientMessageView, HelloFromClientView,
    PayloadView as ClientPayloadView,
};
use crate::crypto::box_opened;
use crate::identity::key_id;
use crate::message::Writable;
use crate::pairing::{resolved, PendingPairingView};
use crate::replies::{error_payload, ok_payload, ErrorCode};
use crate::server_message::{frame_of, PayloadView, ServerMessage, ServerMessageView};
use crate::session::{
    authenticate_step, client_step, decision_step, fresh_request, hello_payload, hello_step, message_step, only,
    request_status, sealed_authenticate_step, ApprovalWaitView, EffectView, HubView,
    ServerProfileView, SessionView, SocketEventView,
};
use crate::text::has_prefix;
use crate::wire::{fields_of, is_legal, lemma_writable, wire_round_trip};

verus! {

// ---------------------------------------------------------------------------------------------
// What every state keeps
// ---------------------------------------------------------------------------------------------
/// Every key and every request is filed under the verification code that it belongs to.
pub open spec fn consistent(hub: HubView) -> bool {
    &&& forall|k: Seq<char>| #[trigger]
        hub.public_keys.contains_key(k) ==> key_id(hub.public_keys[k]) == k
    &&& forall|k: Seq<char>| #[trigger]
        hub.pending.contains_key(k) ==> hub.pending[k].fingerprint == k
}

/// The key of the app behind a connection is known.
pub open spec fn key_is_known(hub: HubView, session: SessionView) -> bool {
    session.client_fingerprint matches Some(k) ==> hub.public_keys.contains_key(k)
}

proof fn lemma_message_step(
    hub: HubView,
    session: SessionView,
    server: ServerProfileView,
    devices: Seq<String>,
    message: ClientMessageView,
)
    requires
        consistent(hub),
        key_is_known(hub, session),
    ensures
        consistent(message_step(hub, session, server, devices, message).hub),
        key_is_known(
            message_step(hub, session, server, devices, message).hub,
            message_step(hub, session, server, devices, message).session,
        ),
{
}

/// Nothing that comes in over a connection files a key or a request under a wrong code, and the
/// key of the app behind the connection stays known.
pub proof fn messages_keep_the_hub_consistent(
    hub: HubView,
    session: SessionView,
    server: ServerProfileView,
    devices: Seq<String>,
    event: SocketEventView,
)
    requires
        consistent(hub),
        key_is_known(hub, session),
    ensures
        consistent(client_step(hub, session, server, devices, event).hub),
        key_is_known(
            client_step(hub, session, server, devices, event).hub,
            client_step(hub, session, server, devices, event).session,
        ),
{
    match event {
        SocketEventView::Binary(frame) => match ClientMessage::decoded(frame) {
            Some(message) => {
                lemma_message_step(hub, session, server, devices, message);
            },
            None => {},
        },
        _ => {},
    }
}

/// The end of a wait keeps every key and every request filed under its code.
pub proof fn answers_keep_the_hub_consistent(
    hub: HubView,
    session: SessionView,
    wait: ApprovalWaitView,
    approved: bool,
)
    requires
        consistent(hub),
    ensures
        consistent(decision_step(hub, session, wait, approved).hub),
{
}

/// A decision of the desktop keeps every key and every request filed under its code.
pub proof fn decisions_keep_the_hub_consistent(
    hub: HubView,
    fingerprint: Seq<char>,
    approve: bool,
)
    requires
        consistent(hub),
        hub.pending.contains_key(fingerprint),
    ensures
        consistent((HubView { pending: resolved(hub.pending, fingerprint, approve), ..hub })),
{
}

/// A connection forgets no key, not its own and not that of another app: the key of an app stays
/// known to every connection on which the app has said hello.
pub proof fn keys_are_never_forgotten(
    hub: HubView,
    session: SessionView,
    server: ServerProfileView,
    devices: Seq<String>,
    event: SocketEventView,
    other: SessionView,
)
    requires
        key_is_known(hub, other),
    ensures
        key_is_known(client_step(hub, session, server, devices, event).hub, other),
        hub.public_keys.dom().subset_of(
            client_step(hub, session, server, devices, event).hub.public_keys.dom(),
        ),
{
}

// ---------------------------------------------------------------------------------------------
// Who is trusted
// ---------------------------------------------------------------------------------------------
/// Nothing that an app sends changes which apps are trusted.
pub proof fn messages_grant_no_trust(
    hub: HubView,
    session: SessionView,
    server: ServerProfileView,
    devices: Seq<String>,
    event: SocketEventView,
)
    ensures
        client_step(hub, session, server, devices, event).hub.authenticated == hub.authenticated,
{
}

/// Trust is granted by the approval of a request, to the app that made it and to no other, and is
/// never taken back.
pub proof fn trust_comes_from_approval(
    hub: HubView,
    session: SessionView,
    wait: ApprovalWaitView,
    approved: bool,
    key: Seq<char>,
)
    ensures
        decision_step(hub, session, wait, approved).hub.authenticated.contains(key) <==> (
        hub.authenticated.contains(key) || (approved && wait.key_id == key)),
{
}

/// A connection counts as authenticated only once the desktop has approved a request on it, or
/// the app behind it has said hello as one that is trusted.
pub proof fn authentication_needs_trust(
    hub: HubView,
    session: SessionView,
    server: ServerProfileView,
    devices: Seq<String>,
    event: SocketEventView,
)
    requires
        !session.authenticated,
        client_step(hub, session, server, devices, event).session.authenticated,
    ensures
        client_step(hub, session, server, devices, event).session.client_fingerprint matches Some(
            key,
        ) && hub.authenticated.contains(key),
{
}

// ---------------------------------------------------------------------------------------------
// Histories
// ---------------------------------------------------------------------------------------------
/// Something that changes what all connections share.
pub enum Change {
    /// An event came in over a connection.
    Came {
        session: SessionView,
        server: ServerProfileView,
        devices: Seq<String>,
        event: SocketEventView,
    },
    /// The wait for the desktop ended.
    Answered { session: SessionView, wait: ApprovalWaitView, approved: bool },
    /// The desktop decided on a request.
    Resolved { fingerprint: Seq<char>, approve: bool },
    /// A request was dropped.
    Dropped { key: Seq<char> },
    /// A connection was put behind a device.
    Attached { device: Seq<char>, connection: u64 },
    /// A connection ended that was behind this device, if any.
    Ended { behind: Option<Seq<char>> },
}

/// What all connections share after a change.
pub open spec fn changed(hub: HubView, change: Change) -> HubView {
    match change {
        Change::Came { session, server, devices, event } => client_step(
            hub,
            session,
            server,
            devices,
            event,
        ).hub,
        Change::Answered { session, wait, approved } => decision_step(
            hub,
            session,
            wait,
            approved,
        ).hub,
        Change::Resolved { fingerprint, approve } => if hub.pending.contains_key(fingerprint) {
            HubView { pending: resolved(hub.pending, fingerprint, approve), ..hub }
        } else {
            hub
        },
        Change::Dropped { key } => HubView { pending: hub.pending.remove(key), ..hub },
        Change::Attached { device, connection } => HubView {
            clients: hub.clients.insert(device, connection),
            ..hub
        },
        Change::Ended { behind } => match behind {
            Some(id) => HubView { clients: hub.clients.remove(id), ..hub },
            None => hub,
        },
    }
}

/// What all connections share after some changes.
pub open spec fn after(hub: HubView, changes: Seq<Change>) -> HubView
    decreases changes.len(),
{
    if changes.len() == 0 {
        hub
    } else {
        changed(after(hub, changes.drop_last()), changes.last())
    }
}

/// What all connections share before anything has happened.
pub open spec fn empty_hub() -> HubView {
    HubView {
        pending: Map::empty(),
        public_keys: Map::empty(),
        authenticated: Set::empty(),
        clients: Map::empty(),
    }
}

/// Whether a change is the approval of a request of this app.
pub open spec fn approves(change: Change, key: Seq<char>) -> bool {
    change matches Change::Answered { session, wait, approved } && approved && wait.key_id == key
}

proof fn lemma_change_keeps_consistency(hub: HubView, change: Change)
    requires
        consistent(hub),
    ensures
        consistent(changed(hub, change)),
{
}

/// Whatever happens, every key and every request is filed under the code that it belongs to.
pub proof fn the_hub_is_always_consistent(changes: Seq<Change>)
    ensures
        consistent(after(empty_hub(), changes)),
    decreases changes.len(),
{
    if changes.len() > 0 {
        the_hub_is_always_consistent(changes.drop_last());
        lemma_change_keeps_consistency(after(empty_hub(), changes.drop_last()), changes.last());
    }
}

/// Whatever happens, an app is trusted exactly if a request of it has been approved.
pub proof fn the_trusted_are_the_approved(changes: Seq<Change>, key: Seq<char>)
    ensures
        after(empty_hub(), changes).authenticated.contains(key) <==> exists|i: int|
            0 <= i < changes.len() && approves(#[trigger] changes[i], key),
    decreases changes.len(),
{
    if changes.len() > 0 {
        let init = changes.drop_last();
        let last = changes.last();
        the_trusted_are_the_approved(init, key);
        assert(changes[changes.len() - 1] == last);
        assert(after(empty_hub(), changes).authenticated.contains(key) <==> after(
            empty_hub(),
            init,
        ).authenticated.contains(key) || approves(last, key));
        if exists|i: int| 0 <= i < init.len() && approves(#[trigger] init[i], key) {
            let i = choose|i: int| 0 <= i < init.len() && approves(#[trigger] init[i], key);
            assert(approves(changes[i], key));
        }
        if exists|i: int| 0 <= i < changes.len() && approves(#[trigger] changes[i], key) {
            let i = choose|i: int| 0 <= i < changes.len() && approves(#[trigger] changes[i], key);
            if i < init.len() {
                assert(approves(init[i], key));
            }
        }
    }
}

// ---------------------------------------------------------------------------------------------
// When the desktop is asked
// ---------------------------------------------------------------------------------------------
/// A hello never asks the desktop: it adds no request, waits for none, and is answered.
pub proof fn hello_never_prompts(
    hub: HubView,
    session: SessionView,
    server: ServerProfileView,
    devices: Seq<String>,
    frame: Seq<u8>,
    hello: HelloFromClientView,
)
    requires
        ClientMessage::decoded(frame) == Some(
            ClientMessageView { payload: Some(ClientPayloadView::Hello(hello)) },
        ),
    ensures
        ({
            let step = client_step(hub, session, server, devices, SocketEventView::Binary(frame));
            &&& step.hub.pending == hub.pending
            &&& forall|i: int|
                0 <= i < step.effects.len() ==> !((#[trigger] step.effects[i]) is AwaitApproval)
        }),
{
}

/// The answer to a hello asks for authentication exactly if the desktop has not approved the app.
pub proof fn hello_tells_whether_the_app_is_trusted(
    hub: HubView,
    session: SessionView,
    server: ServerProfileView,
    devices: Seq<String>,
    frame: Seq<u8>,
    hello: HelloFromClientView,
)
    requires
        ClientMessage::decoded(frame) == Some(
            ClientMessageView { payload: Some(ClientPayloadView::Hello(hello)) },
        ),
        hello.public_key.len() > 0,
    ensures
        ({
            let step = client_step(hub, session, server, devices, SocketEventView::Binary(frame));
            let trusted = hub.authenticated.contains(key_id(hello.public_key));
            &&& step.effects == seq![EffectView::Send(frame_of(hello_payload(server, trusted)))]
            &&& hello_payload(server, trusted) matches PayloadView::Hello(reply)
                && reply.client_needs_authentication == !trusted
        }),
{
}

/// A request appears only because the app of this connection asks to be paired: it is filed under
/// the app's own code, has not been approved, and the connection waits for it.
pub proof fn only_authentication_prompts(
    hub: HubView,
    session: SessionView,
    server: ServerProfileView,
    devices: Seq<String>,
    event: SocketEventView,
    key: Seq<char>,
)
    requires
        !hub.pending.contains_key(key),
        client_step(hub, session, server, devices, event).hub.pending.contains_key(key),
    ensures
        ({
            let step = client_step(hub, session, server, devices, event);
            &&& session.client_fingerprint == Some(key)
            &&& step.hub.pending[key] == fresh_request(key, session.peer)
            &&& step.effects.len() == 1
            &&& step.effects[0] matches EffectView::AwaitApproval(wait) && wait.key_id == key
        }),
{
}

/// A sealed frame from an app whose key is known, a nonce and a box, and what it says.
pub open spec fn says_sealed(
    hub: HubView,
    session: SessionView,
    server: ServerProfileView,
    frame: Seq<u8>,
    key: Seq<char>,
    payload: ClientPayloadView,
) -> bool {
    &&& session.client_fingerprint == Some(key)
    &&& hub.public_keys.contains_key(key)
    &&& hub.public_keys[key].len() == 32
    &&& ClientMessage::decoded(frame) is None
    &&& frame.len() >= 24 + 16
    &&& box_opened(
        hub.public_keys[key],
        server.secret_key,
        frame.take(24),
        frame.skip(24),
    ) matches Some(plaintext) && ClientMessage::decoded(plaintext) == Some(
        ClientMessageView { payload: Some(payload) },
    )
}

/// An app that the desktop has approved is told so each time it asks, in the way in which it asks,
/// and the desktop is not asked again.
pub proof fn trusted_apps_are_not_asked_again(
    hub: HubView,
    session: SessionView,
    server: ServerProfileView,
    devices: Seq<String>,
    frame: Seq<u8>,
    key: Seq<char>,
    request: Authenticate,
)
    requires
        session.client_fingerprint == Some(key),
        ClientMessage::decoded(frame) == Some(
            ClientMessageView { payload: Some(ClientPayloadView::Authenticate(request)) },
        ) || says_sealed(
            hub,
            session,
            server,
            frame,
            key,
            ClientPayloadView::Authenticate(request),
        ),
        hub.authenticated.contains(key),
    ensures
        ({
            let reply = frame_of(ok_payload(request.request_id));
            client_step(hub, session, server, devices, SocketEventView::Binary(frame)) == only(
                hub,
                session,
                seq![
                    if ClientMessage::decoded(frame) is Some {
                        EffectView::Send(reply)
                    } else {
                        EffectView::SendSealed { peer: hub.public_keys[key], plaintext: reply }
                    },
                ],
            )
        }),
{
}

/// A sealed request of an app that the desktop has not approved asks the desktop. A request that
/// waits already, perhaps from another connection of the app, stays as it is, with what the
/// desktop has decided on it.
pub proof fn a_waiting_request_is_not_reset(
    hub: HubView,
    session: SessionView,
    server: ServerProfileView,
    devices: Seq<String>,
    frame: Seq<u8>,
    key: Seq<char>,
    request: Authenticate,
)
    requires
        says_sealed(hub, session, server, frame, key, ClientPayloadView::Authenticate(request)),
        !hub.authenticated.contains(key),
        hub.pending.contains_key(key),
    ensures
        ({
            let step = client_step(hub, session, server, devices, SocketEventView::Binary(frame));
            &&& step.hub == hub
            &&& step.effects == seq![
                EffectView::AwaitApproval(
                    ApprovalWaitView {
                        key_id: key,
                        request_id: request.request_id,
                        sealed_for: Some(hub.public_keys[key]),
                        seconds: 120,
                    },
                ),
            ]
        }),
{
}

// ---------------------------------------------------------------------------------------------
// What the desktop decides
// ---------------------------------------------------------------------------------------------
/// A decision of the desktop is what the waiting connection sees next: an approval ends the wait,
/// a refusal leaves it waiting, and other requests are not touched.
pub proof fn decisions_are_seen(
    pending: Map<Seq<char>, PendingPairingView>,
    fingerprint: Seq<char>,
    approve: bool,
    other: Seq<char>,
)
    requires
        pending.contains_key(fingerprint),
        other != fingerprint,
    ensures
        request_status(resolved(pending, fingerprint, approve), fingerprint) == if approve {
            Some(true)
        } else {
            None
        },
        request_status(resolved(pending, fingerprint, approve), other) == request_status(
            pending,
            other,
        ),
{
}

/// A request that was not approved is answered with the error that says so, in the way in which it
/// came; then it is dropped. The app is no more trusted than before.
pub proof fn refused_requests_are_answered(
    hub: HubView,
    session: SessionView,
    wait: ApprovalWaitView,
)
    ensures
        ({
            let step = decision_step(hub, session, wait, false);
            let reply = frame_of(
                error_payload(
                    wait.request_id,
                    ErrorCode::AuthenticationRejected,
                    "Desktop did not approve this Stream Deck Mobile pairing"@,
                ),
            );
            &&& step.hub == hub
            &&& step.session == session
            &&& step.effects.len() == 2
            &&& step.effects[0] == match wait.sealed_for {
                Some(peer) => EffectView::SendSealed { peer, plaintext: reply },
                None => EffectView::Send(reply),
            }
            &&& step.effects[1] == EffectView::DropPending(wait.key_id)
            &&& request_status(hub.pending.remove(wait.key_id), wait.key_id) == Some(false)
        }),
{
}

/// A request that was approved is answered in the way in which it came; then it is dropped.
pub proof fn approved_requests_are_answered(
    hub: HubView,
    session: SessionView,
    wait: ApprovalWaitView,
)
    ensures
        ({
            let step = decision_step(hub, session, wait, true);
            let reply = frame_of(ok_payload(wait.request_id));
            &&& step.session == (SessionView { authenticated: true, ..session })
            &&& step.effects.len() == 2
            &&& step.effects[0] == match wait.sealed_for {
                Some(peer) => EffectView::SendSealed { peer, plaintext: reply },
                None => EffectView::Send(reply),
            }
            &&& step.effects[1] == EffectView::DropPending(wait.key_id)
        }),
{
}

/// Once a request is approved, the app is known on every later connection: its hello is answered
/// without a demand for authentication, and it may ask again, in the clear or sealed, without a
/// prompt.
pub proof fn approval_is_remembered(
    hub: HubView,
    session: SessionView,
    wait: ApprovalWaitView,
    later: SessionView,
    server: ServerProfileView,
    hello: HelloFromClientView,
    peer_key: Seq<u8>,
    request_id: u32,
)
    requires
        hello.public_key.len() > 0,
        key_id(hello.public_key) == wait.key_id,
    ensures
        ({
            let approved = decision_step(hub, session, wait, true).hub;
            let greeted = hello_step(approved, later, server, hello);
            &&& greeted.session.authenticated
            &&& greeted.effects == seq![EffectView::Send(frame_of(hello_payload(server, true)))]
            &&& authenticate_step(greeted.hub, greeted.session, request_id) == only(
                greeted.hub,
                greeted.session,
                seq![EffectView::Send(frame_of(ok_payload(request_id)))],
            )
            &&& sealed_authenticate_step(
                greeted.hub,
                greeted.session,
                wait.key_id,
                peer_key,
                request_id,
            ) == only(
                greeted.hub,
                greeted.session,
                seq![
                    EffectView::SendSealed {
                        peer: peer_key,
                        plaintext: frame_of(ok_payload(request_id)),
                    },
                ],
            )
        }),
{
}

/// A request that is taken back is answered as cancelled, in the way in which that was asked. In
/// the clear it is dropped as well, so that a connection that waits for it stops.
pub proof fn cancelled_requests_are_answered(
    hub: HubView,
    session: SessionView,
    server: ServerProfileView,
    devices: Seq<String>,
    frame: Seq<u8>,
    key: Seq<char>,
    cancel: CancelAuthenticate,
)
    requires
        session.client_fingerprint == Some(key),
        ClientMessage::decoded(frame) == Some(
            ClientMessageView { payload: Some(ClientPayloadView::CancelAuthenticate(cancel)) },
        ) || says_sealed(
            hub,
            session,
            server,
            frame,
            key,
            ClientPayloadView::CancelAuthenticate(cancel),
        ),
    ensures
        ({
            let step = client_step(hub, session, server, devices, SocketEventView::Binary(frame));
            let reply = frame_of(
                error_payload(
                    cancel.request_id,
                    ErrorCode::Cancelled,
                    "Authentication cancelled by client"@,
                ),
            );
            if ClientMessage::decoded(frame) is Some {
                &&& step.effects == seq![EffectView::Send(reply)]
                &&& request_status(step.hub.pending, key) == Some(false)
            } else {
                &&& step.effects == seq![
                    EffectView::SendSealed { peer: hub.public_keys[key], plaintext: reply },
                ]
                &&& step.hub == hub
            }
        }),
{
}

// ---------------------------------------------------------------------------------------------
// Devices
// ---------------------------------------------------------------------------------------------
/// The device that a hello names is one of this backend.
pub proof fn greeted_devices_are_mobile(
    hub: HubView,
    session: SessionView,
    server: ServerProfileView,
    hello: HelloFromClientView,
)
    requires
        hello.public_key.len() > 0,
    ensures
        hello_step(hub, session, server, hello).session.device_id matches Some(id) && has_prefix(
            id,
            "sdm-"@,
        ),
{
    let id = "sdm-"@ + key_id(hello.public_key);
    assert(id.take("sdm-"@.len() as int) =~= "sdm-"@);
}

/// A connection puts itself behind no device but its own: the one it was given by its hello, the
/// one it opens, or, if it has neither, the one that is named after its address.
pub proof fn connections_attach_to_their_device(
    hub: HubView,
    session: SessionView,
    server: ServerProfileView,
    devices: Seq<String>,
    event: SocketEventView,
    i: int,
)
    requires
        0 <= i < client_step(hub, session, server, devices, event).effects.len(),
        client_step(hub, session, server, devices, event).effects[i] is Attach,
    ensures
        ({
            let step = client_step(hub, session, server, devices, event);
            step.effects[i] == EffectView::Attach(
                match step.session.device_id {
                    Some(id) => id,
                    None => "sdm-"@ + session.peer_ip,
                },
            )
        }),
{
}

// ---------------------------------------------------------------------------------------------
// Frames
// ---------------------------------------------------------------------------------------------
/// A frame that the app writes has the effect of the message in it.
pub proof fn frames_of_the_app_take_effect(
    hub: HubView,
    session: SessionView,
    server: ServerProfileView,
    devices: Seq<String>,
    payload: ClientPayloadView,
)
    requires
        app_frame(payload).len() <= u64::MAX,
    ensures
        client_step(
            hub,
            session,
            server,
            devices,
            SocketEventView::Binary(app_frame(payload)),
        ) == message_step(
            hub,
            session,
            server,
            devices,
            ClientMessageView { payload: Some(payload) },
        ),
{
    apps_are_understood(payload);
}

/// A frame of the server splits into the one field that carries its message.
pub proof fn frames_of_the_server_read_back(payload: PayloadView, budget: nat)
    requires
        budget > 0,
        frame_of(payload).len() <= u64::MAX,
    ensures
        fields_of(frame_of(payload), budget) == Some(
            ServerMessage::fields(ServerMessageView { payload: Some(payload) }),
        ),
        ServerMessage::fields(ServerMessageView { payload: Some(payload) }).len() == 1,
{
    let fs = ServerMessage::fields(ServerMessageView { payload: Some(payload) });
    assert(fs.len() == 1 && is_legal(fs[0]));
    lemma_writable(fs);
    wire_round_trip(fs, budget);
}

} // verus!
