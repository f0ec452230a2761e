//! Events that plugins and property inspectors send, and who may send which.
use serde_json::Value;
use vstd::prelude::*;
use vstd::string::StringExecFns;

use crate::message::option_text;
use crate::text::{contains, has_infix};

verus! {

/// A value of JSON, carried through unread.
#[verifier::external_type_specification]
#[verifier::external_body]
pub struct ExValue(Value);

/// A device that offers keys.
#[derive(Debug, PartialEq, Eq)]
pub struct DeviceInfo {
    pub id: String,
    pub plugin: String,
    pub name: String,
    pub rows: u8,
    pub columns: u8,
    pub encoders: u8,
    pub touchpoints: u8,
    pub infobars: u8,
    pub device_type: u8,
}

/// The values of a [`DeviceInfo`].
pub struct DeviceInfoView {
    pub id: Seq<char>,
    pub plugin: Seq<char>,
    pub name: Seq<char>,
    pub rows: u8,
    pub columns: u8,
    pub encoders: u8,
    pub touchpoints: u8,
    pub infobars: u8,
    pub device_type: u8,
}

impl View for DeviceInfo {
    type V = DeviceInfoView;

    open spec fn view(&self) -> DeviceInfoView {
        DeviceInfoView {
            id: self.id@,
            plugin: self.plugin@,
            name: self.name@,
            rows: self.rows,
            columns: self.columns,
            encoders: self.encoders,
            touchpoints: self.touchpoints,
            infobars: self.infobars,
            device_type: self.device_type,
        }
    }
}

/// The place of an action on a device, in its textual form.
#[derive(Debug, PartialEq, Eq)]
pub struct ActionContext {
    pub text: String,
}

/// How a plugin or a property inspector introduces itself.
#[derive(Debug, PartialEq, Eq)]
pub enum RegisterEvent {
    RegisterPlugin { uuid: String },
    RegisterPropertyInspector { uuid: String },
}

/// An event about a context.
#[derive(Debug, PartialEq, Eq)]
pub struct ContextEvent<C = ActionContext> {
    pub context: C,
}

/// An event that carries something.
#[derive(Debug, PartialEq, Eq)]
pub struct PayloadEvent<T> {
    pub payload: T,
}

/// An event about a context that carries something.
#[derive(Debug, PartialEq, Eq)]
pub struct ContextAndPayloadEvent<T, C = ActionContext> {
    pub context: C,
    pub payload: T,
}

/// What a plugin or a property inspector may ask for.
#[derive(Debug)]
pub enum InboundEventType {
    RegisterDevice(PayloadEvent<DeviceInfo>),
    UpdateDevice(PayloadEvent<DeviceInfo>),
    DeregisterDevice(PayloadEvent<String>),
    RerenderImages(PayloadEvent<String>),
    KeyDown(PayloadEvent<Value>),
    KeyUp(PayloadEvent<Value>),
    EncoderChange(PayloadEvent<Value>),
    EncoderDown(PayloadEvent<Value>),
    EncoderUp(PayloadEvent<Value>),
    TouchscreenPress(PayloadEvent<Value>),
    SetSettings(ContextAndPayloadEvent<Value>),
    GetSettings(ContextEvent),
    SetGlobalSettings(ContextAndPayloadEvent<Value, String>),
    GetGlobalSettings(ContextEvent<String>),
    OpenUrl(PayloadEvent<Value>),
    LogMessage(PayloadEvent<Value>),
    SetTitle(ContextAndPayloadEvent<Value>),
    SetImage(ContextAndPayloadEvent<Value>),
    SetFeedbackLayout(ContextAndPayloadEvent<Value>),
    SetFeedback(ContextAndPayloadEvent<Value>),
    SetState(ContextAndPayloadEvent<Value>),
    ShowAlert(ContextEvent),
    ShowOk(ContextEvent),
    SendToPropertyInspector(ContextAndPayloadEvent<Value>),
    SendToPlugin(ContextAndPayloadEvent<Value>),
    SwitchProfile(Value),
    DeviceBrightness(Value),
}

/// What came in over the socket.
#[derive(Debug)]
pub enum Incoming {
    /// A text that is an event.
    Event(InboundEventType),
    /// A text that is no event, and why.
    Undecodable(String),
    /// Anything else.
    Other,
}

/// On whose behalf a handler runs. The handlers of settings tell the two apart; those of devices
/// and of the log are told which plugin it is.
#[derive(Clone, Copy, Debug, PartialEq, Eq)]
pub enum Side {
    Plugin,
    PropertyInspector,
}

/// What is to be done about it.
#[derive(Debug)]
pub enum Step {
    /// Nothing.
    Ignore,
    /// Nothing, but the log is told.
    Warn(String),
    /// Nothing, as the sender may not ask for it.
    Refuse,
    /// It depends on which plugin owns the context.
    AskOwner(InboundEventType),
    /// The event goes to its handler.
    Run(InboundEventType, Side),
}

/// The context of an event that only the owner of the context may send.
pub open spec fn owned_context(event: InboundEventType) -> Option<Seq<char>> {
    match event {
        InboundEventType::SetSettings(e) => Some(e.context.text@),
        InboundEventType::GetSettings(e) => Some(e.context.text@),
        InboundEventType::SetTitle(e) => Some(e.context.text@),
        InboundEventType::SetImage(e) => Some(e.context.text@),
        InboundEventType::SetState(e) => Some(e.context.text@),
        InboundEventType::ShowAlert(e) => Some(e.context.text@),
        InboundEventType::ShowOk(e) => Some(e.context.text@),
        InboundEventType::SendToPropertyInspector(e) => Some(e.context.text@),
        _ => None,
    }
}

/// The plugins that may switch profiles and set the brightness.
pub open spec fn is_privileged(uuid: Seq<char>) -> bool {
    uuid == "com.amansprojects.starterpack.sdPlugin"@ || uuid
        == "opendeck_alternative_elgato_implementation"@
}

/// Whether a plugin may send an event that belongs to no owned context.
pub open spec fn may_send(event: InboundEventType, uuid: Seq<char>) -> bool {
    match event {
        InboundEventType::SetGlobalSettings(e) => e.context@ == uuid,
        InboundEventType::GetGlobalSettings(e) => e.context@ == uuid,
        InboundEventType::SwitchProfile(_) => is_privileged(uuid),
        InboundEventType::DeviceBrightness(_) => is_privileged(uuid),
        _ => true,
    }
}

/// What an event of a plugin leads to once it is admitted: what is meant for the plugin itself
/// leads to nothing.
pub open spec fn run_for_plugin(event: InboundEventType) -> Step {
    match event {
        InboundEventType::SendToPlugin(_) => Step::Ignore,
        _ => Step::Run(event, Side::Plugin),
    }
}

/// What an event of a plugin leads to.
pub open spec fn plugin_step(event: InboundEventType, uuid: Seq<char>, skip_auth: bool) -> Step {
    if uuid.len() == 0 && skip_auth {
        run_for_plugin(event)
    } else if owned_context(event) is Some {
        Step::AskOwner(event)
    } else if may_send(event, uuid) {
        run_for_plugin(event)
    } else {
        Step::Refuse
    }
}

/// What an event on an owned context leads to once the owner was looked up.
pub open spec fn owner_step(
    event: InboundEventType,
    owner: Option<Seq<char>>,
    uuid: Seq<char>,
) -> Step {
    if owner == Some(uuid) {
        run_for_plugin(event)
    } else {
        Step::Refuse
    }
}

fn same_text(a: &str, b: &str) -> (r: bool)
    ensures
        r == (a@ == b@),
{
    let a: String = a.to_owned();
    let b: String = b.to_owned();
    a == b
}

fn privileged(uuid: &str) -> (r: bool)
    ensures
        r == is_privileged(uuid@),
{
    same_text(uuid, "com.amansprojects.starterpack.sdPlugin") || same_text(
        uuid,
        "opendeck_alternative_elgato_implementation",
    )
}

/// The context whose owner has to be looked up before the event runs.
pub fn context_to_look_up(event: &InboundEventType) -> (r: Option<&str>)
    ensures
        match owned_context(*event) {
            Some(c) => r matches Some(s) && s@ == c,
            None => r is None,
        },
{
    match event {
        InboundEventType::SetSettings(e) => Some(e.context.text.as_str()),
        InboundEventType::GetSettings(e) => Some(e.context.text.as_str()),
        InboundEventType::SetTitle(e) => Some(e.context.text.as_str()),
        InboundEventType::SetImage(e) => Some(e.context.text.as_str()),
        InboundEventType::SetState(e) => Some(e.context.text.as_str()),
        InboundEventType::ShowAlert(e) => Some(e.context.text.as_str()),
        InboundEventType::ShowOk(e) => Some(e.context.text.as_str()),
        InboundEventType::SendToPropertyInspector(e) => Some(e.context.text.as_str()),
        _ => None,
    }
}

fn run_plugin_event(event: InboundEventType) -> (r: Step)
    ensures
        r == run_for_plugin(event),
{
    match event {
        InboundEventType::SendToPlugin(_) => Step::Ignore,
        event => Step::Run(event, Side::Plugin),
    }
}

/// What the log is told about a text of a plugin that is no event.
pub open spec fn plugin_warning(uuid: Seq<char>, error: Seq<char>) -> Seq<char> {
    if uuid.len() == 0 {
        "Failed to decode incoming event: "@ + error
    } else {
        "Failed to decode incoming event from plugin "@ + uuid + ": "@ + error
    }
}

/// Decides on a message of a plugin. An event on a context waits for the owner of the context,
/// and goes on with [`process_owned_event`].
pub fn process_incoming_message(message: Incoming, uuid: &str, skip_auth: bool) -> (r: Step)
    ensures
        match message {
            Incoming::Other => r == Step::Ignore,
            Incoming::Undecodable(error) => r matches Step::Warn(w) && w@ == plugin_warning(
                uuid@,
                error@,
            ),
            Incoming::Event(event) => r == plugin_step(event, uuid@, skip_auth),
        },
{
    match message {
        Incoming::Other => Step::Ignore,
        Incoming::Undecodable(error) => {
            let mut text: String = String::new();
            if uuid.is_empty() {
                text.append("Failed to decode incoming event: ");
            } else {
                text.append("Failed to decode incoming event from plugin ");
                text.append(uuid);
                text.append(": ");
            }
            text.append(error.as_str());
            assert(text@ =~= plugin_warning(uuid@, error@));
            Step::Warn(text)
        },
        Incoming::Event(event) => {
            if !(uuid.is_empty() && skip_auth) {
                if context_to_look_up(&event).is_some() {
                    return Step::AskOwner(event);
                }
                let allowed: bool = match &event {
                    InboundEventType::SetGlobalSettings(e) => same_text(e.context.as_str(), uuid),
                    InboundEventType::GetGlobalSettings(e) => same_text(e.context.as_str(), uuid),
                    InboundEventType::SwitchProfile(_) => privileged(uuid),
                    InboundEventType::DeviceBrightness(_) => privileged(uuid),
                    _ => true,
                };
                if !allowed {
                    return Step::Refuse;
                }
            }
            run_plugin_event(event)
        },
    }
}

/// Decides on an event on a context once the plugin that owns the instance there is known; there
/// may be none.
pub fn process_owned_event(event: InboundEventType, owner: Option<String>, uuid: &str) -> (r: Step)
    ensures
        r == owner_step(event, option_text(owner), uuid@),
{
    let own: bool = match &owner {
        Some(plugin) => same_text(plugin.as_str(), uuid),
        None => false,
    };
    if own {
        run_plugin_event(event)
    } else {
        Step::Refuse
    }
}

/// The context that a property inspector claims.
pub open spec fn claimed_context(event: InboundEventType) -> Option<Seq<char>> {
    match event {
        InboundEventType::SetSettings(e) => Some(e.context.text@),
        InboundEventType::GetSettings(e) => Some(e.context.text@),
        InboundEventType::SetGlobalSettings(e) => Some(e.context@),
        InboundEventType::GetGlobalSettings(e) => Some(e.context@),
        InboundEventType::SendToPlugin(e) => Some(e.context.text@),
        _ => None,
    }
}

/// Whether a property inspector's events of this kind have a handler.
pub open spec fn serves_property_inspector(event: InboundEventType) -> bool {
    match event {
        InboundEventType::SetSettings(_) => true,
        InboundEventType::GetSettings(_) => true,
        InboundEventType::SetGlobalSettings(_) => true,
        InboundEventType::GetGlobalSettings(_) => true,
        InboundEventType::OpenUrl(_) => true,
        InboundEventType::LogMessage(_) => true,
        InboundEventType::SendToPlugin(_) => true,
        _ => false,
    }
}

/// What an event of a property inspector leads to: it may only speak for its own context.
pub open spec fn inspector_step(event: InboundEventType, uuid: Seq<char>) -> Step {
    if claimed_context(event) is Some && claimed_context(event) != Some(uuid) {
        Step::Refuse
    } else if serves_property_inspector(event) {
        Step::Run(event, Side::PropertyInspector)
    } else {
        Step::Ignore
    }
}

/// Decides on a message of a property inspector.
pub fn process_incoming_message_pi(message: Incoming, uuid: &str) -> (r: Step)
    ensures
        match message {
            Incoming::Other => r == Step::Ignore,
            Incoming::Undecodable(error) => r matches Step::Warn(w) && w@
                == "Failed to decode incoming event from property inspector "@ + uuid@ + ": "@
                + error@,
            Incoming::Event(event) => r == inspector_step(event, uuid@),
        },
{
    match message {
        Incoming::Other => Step::Ignore,
        Incoming::Undecodable(error) => {
            let mut text: String = "Failed to decode incoming event from property inspector ".to_owned();
            text.append(uuid);
            text.append(": ");
            text.append(error.as_str());
            Step::Warn(text)
        },
        Incoming::Event(event) => {
            let foreign: bool = match &event {
                InboundEventType::SetSettings(e) => !same_text(e.context.text.as_str(), uuid),
                InboundEventType::GetSettings(e) => !same_text(e.context.text.as_str(), uuid),
                InboundEventType::SetGlobalSettings(e) => !same_text(e.context.as_str(), uuid),
                InboundEventType::GetGlobalSettings(e) => !same_text(e.context.as_str(), uuid),
                InboundEventType::SendToPlugin(e) => !same_text(e.context.text.as_str(), uuid),
                _ => false,
            };
            if foreign {
                return Step::Refuse;
            }
            let served: bool = match &event {
                InboundEventType::SetSettings(_) => true,
                InboundEventType::GetSettings(_) => true,
                InboundEventType::SetGlobalSettings(_) => true,
                InboundEventType::GetGlobalSettings(_) => true,
                InboundEventType::OpenUrl(_) => true,
                InboundEventType::LogMessage(_) => true,
                InboundEventType::SendToPlugin(_) => true,
                _ => false,
            };
            if served {
                Step::Run(event, Side::PropertyInspector)
            } else {
                Step::Ignore
            }
        },
    }
}

/// What the log is told about a handler that failed; nothing where only the connection was closed.
pub open spec fn failure_text(error: Seq<char>, side: Side) -> Option<Seq<char>> {
    if has_infix(error, "closed connection"@) {
        None
    } else {
        match side {
            Side::Plugin => Some("Failed to process incoming event from plugin: "@ + error),
            Side::PropertyInspector => Some(
                "Failed to process incoming event from property inspector: "@ + error,
            ),
        }
    }
}

/// What the log is told about a handler that failed.
pub fn failure_warning(error: &str, side: Side) -> (r: Option<String>)
    ensures
        option_text(r) == failure_text(error@, side),
{
    if contains(error, "closed connection") {
        return None;
    }
    let mut text: String = match side {
        Side::Plugin => "Failed to process incoming event from plugin: ".to_owned(),
        Side::PropertyInspector => {
            "Failed to process incoming event from property inspector: ".to_owned()
        },
    };
    text.append(error);
    Some(text)
}

// ---------------------------------------------------------------------------------------------
// What holds of every event
// ---------------------------------------------------------------------------------------------
/// A plugin with a name, or one that is not exempt, reaches a handler with an event on a context
/// only if it owns the instance there.
pub proof fn only_owners_reach_handlers(
    event: InboundEventType,
    uuid: Seq<char>,
    skip_auth: bool,
    owner: Option<Seq<char>>,
)
    requires
        owned_context(event) is Some,
        uuid.len() > 0 || !skip_auth,
    ensures
        plugin_step(event, uuid, skip_auth) == Step::AskOwner(event),
        owner_step(event, owner, uuid) is Run <==> owner == Some(uuid),
{
}

/// A property inspector reaches no handler with an event on a context that is not its own.
pub proof fn inspectors_speak_for_themselves(event: InboundEventType, uuid: Seq<char>)
    ensures
        inspector_step(event, uuid) is Run && claimed_context(event) is Some ==> claimed_context(event)
            == Some(uuid),
        inspector_step(event, uuid) !is AskOwner,
{
}

/// Only the two privileged plugins switch profiles or set the brightness, unless authentication
/// is skipped for a sender without a name.
pub proof fn profile_and_brightness_are_privileged(
    event: InboundEventType,
    uuid: Seq<char>,
    skip_auth: bool,
)
    requires
        event is SwitchProfile || event is DeviceBrightness,
        uuid.len() > 0 || !skip_auth,
    ensures
        plugin_step(event, uuid, skip_auth) is Run <==> is_privileged(uuid),
        plugin_step(event, uuid, skip_auth) is Refuse <==> !is_privileged(uuid),
{
}

} // verus!
