//! What plugins and property inspectors can rely on when they send an event.
use vstd::prelude::*;

use crate::inbound::{
    failure_text, inspector_step, owned_context, owner_step, plugin_step, plugin_warning,
    InboundEventType, Side, Step,
};

verus! {

/// Whether an event is about an instance that belongs to one plugin.
pub open spec fn is_about_an_instance(event: InboundEventType) -> bool {
    event is SetSettings || event is GetSettings || event is SetTitle || event is SetImage
        || event is SetState || event is ShowAlert || event is ShowOk
        || event is SendToPropertyInspector
}

/// Whether only some senders may send an event, though it is about no instance.
pub open spec fn is_restricted(event: InboundEventType) -> bool {
    event is SetGlobalSettings || event is GetGlobalSettings || event is SwitchProfile
        || event is DeviceBrightness
}

/// Every event of a plugin that is about no instance and is not restricted reaches its handler as
/// it is, on the side of the plugin, whoever the plugin is. Only what is meant for the plugin itself
/// leads to nothing.
pub proof fn unrestricted_events_of_plugins_are_handled(
    event: InboundEventType,
    uuid: Seq<char>,
    skip_auth: bool,
)
    requires
        !is_about_an_instance(event),
        !is_restricted(event),
    ensures
        plugin_step(event, uuid, skip_auth) == if event is SendToPlugin {
            Step::Ignore
        } else {
            Step::Run(event, Side::Plugin)
        },
{
}

/// An event about an instance waits for its owner, unless the sender is exempt. It reaches its
/// handler as it is if the plugin owns the instance, and is refused otherwise.
pub proof fn events_about_an_instance_are_for_its_owner(
    event: InboundEventType,
    uuid: Seq<char>,
    skip_auth: bool,
    owner: Option<Seq<char>>,
)
    requires
        is_about_an_instance(event),
    ensures
        plugin_step(event, uuid, skip_auth) == if uuid.len() == 0 && skip_auth {
            Step::Run(event, Side::Plugin)
        } else {
            Step::AskOwner(event)
        },
        owner == Some(uuid) ==> owner_step(event, owner, uuid) == Step::Run(event, Side::Plugin),
        owner != Some(uuid) ==> owner_step(event, owner, uuid) == Step::Refuse,
{
}

/// Whatever the event is, the owner of its context is admitted and nobody else is.
pub proof fn only_owners_are_admitted(
    event: InboundEventType,
    owner: Option<Seq<char>>,
    uuid: Seq<char>,
)
    ensures
        owner_step(event, owner, uuid) is Refuse <==> owner != Some(uuid),
        owner == Some(uuid) && !(event is SendToPlugin) ==> owner_step(event, owner, uuid)
            == Step::Run(event, Side::Plugin),
        owner == Some(uuid) && event is SendToPlugin ==> owner_step(event, owner, uuid)
            == Step::Ignore,
{
}

/// The owner that is looked up is the one of the context in the event, and only events about an
/// instance have one.
pub proof fn the_owner_of_the_context_is_looked_up(event: InboundEventType)
    ensures
        is_about_an_instance(event) <==> owned_context(event) is Some,
        event matches InboundEventType::SetSettings(e) ==> owned_context(event) == Some(
            e.context.text@,
        ),
        event matches InboundEventType::GetSettings(e) ==> owned_context(event) == Some(
            e.context.text@,
        ),
        event matches InboundEventType::SetTitle(e) ==> owned_context(event) == Some(
            e.context.text@,
        ),
        event matches InboundEventType::SetImage(e) ==> owned_context(event) == Some(
            e.context.text@,
        ),
        event matches InboundEventType::SetState(e) ==> owned_context(event) == Some(
            e.context.text@,
        ),
        event matches InboundEventType::ShowAlert(e) ==> owned_context(event) == Some(
            e.context.text@,
        ),
        event matches InboundEventType::ShowOk(e) ==> owned_context(event) == Some(e.context.text@),
        event matches InboundEventType::SendToPropertyInspector(e) ==> owned_context(event) == Some(
            e.context.text@,
        ),
{
}

/// A plugin sets and gets its own global settings, and those of no other.
pub proof fn global_settings_belong_to_their_plugin(
    event: InboundEventType,
    uuid: Seq<char>,
    skip_auth: bool,
)
    requires
        uuid.len() > 0 || !skip_auth,
    ensures
        event matches InboundEventType::SetGlobalSettings(e) ==> plugin_step(event, uuid, skip_auth)
            == if e.context@ == uuid {
            Step::Run(event, Side::Plugin)
        } else {
            Step::Refuse
        },
        event matches InboundEventType::GetGlobalSettings(e) ==> plugin_step(event, uuid, skip_auth)
            == if e.context@ == uuid {
            Step::Run(event, Side::Plugin)
        } else {
            Step::Refuse
        },
{
}

/// Two plugins switch profiles and set the brightness, and no other does.
pub proof fn two_plugins_switch_profiles(
    event: InboundEventType,
    uuid: Seq<char>,
    skip_auth: bool,
)
    requires
        event is SwitchProfile || event is DeviceBrightness,
        uuid.len() > 0 || !skip_auth,
    ensures
        plugin_step(event, uuid, skip_auth) == if uuid
            == "com.amansprojects.starterpack.sdPlugin"@ || uuid
            == "opendeck_alternative_elgato_implementation"@ {
            Step::Run(event, Side::Plugin)
        } else {
            Step::Refuse
        },
{
}

/// A sender without a name for which authentication is skipped reaches every handler but the one
/// for what is meant for plugins.
pub proof fn exempt_senders_reach_every_handler(event: InboundEventType)
    ensures
        plugin_step(event, seq![], true) == if event is SendToPlugin {
            Step::Ignore
        } else {
            Step::Run(event, Side::Plugin)
        },
{
}

/// An event changes neither on its way nor its side, and none of it is made up: what runs is the
/// event that came.
pub proof fn what_runs_is_what_came(
    event: InboundEventType,
    uuid: Seq<char>,
    skip_auth: bool,
    owner: Option<Seq<char>>,
)
    ensures
        plugin_step(event, uuid, skip_auth) matches Step::Run(e, side) ==> e == event && side
            == Side::Plugin,
        plugin_step(event, uuid, skip_auth) matches Step::AskOwner(e) ==> e == event,
        owner_step(event, owner, uuid) matches Step::Run(e, side) ==> e == event && side
            == Side::Plugin,
        inspector_step(event, uuid) matches Step::Run(e, side) ==> e == event && side
            == Side::PropertyInspector,
        plugin_step(event, uuid, skip_auth) !is Warn,
        inspector_step(event, uuid) !is Warn,
{
}

/// A property inspector reaches the handlers of settings and of its plugin for its own context, and
/// is refused for any other.
pub proof fn inspectors_reach_the_handlers_of_their_context(
    event: InboundEventType,
    uuid: Seq<char>,
)
    ensures
        event matches InboundEventType::SetSettings(e) ==> inspector_step(event, uuid)
            == if e.context.text@ == uuid {
            Step::Run(event, Side::PropertyInspector)
        } else {
            Step::Refuse
        },
        event matches InboundEventType::GetSettings(e) ==> inspector_step(event, uuid)
            == if e.context.text@ == uuid {
            Step::Run(event, Side::PropertyInspector)
        } else {
            Step::Refuse
        },
        event matches InboundEventType::SetGlobalSettings(e) ==> inspector_step(event, uuid)
            == if e.context@ == uuid {
            Step::Run(event, Side::PropertyInspector)
        } else {
            Step::Refuse
        },
        event matches InboundEventType::GetGlobalSettings(e) ==> inspector_step(event, uuid)
            == if e.context@ == uuid {
            Step::Run(event, Side::PropertyInspector)
        } else {
            Step::Refuse
        },
        event matches InboundEventType::SendToPlugin(e) ==> inspector_step(event, uuid)
            == if e.context.text@ == uuid {
            Step::Run(event, Side::PropertyInspector)
        } else {
            Step::Refuse
        },
{
}

/// A property inspector opens addresses and writes to the log whatever its context is; nothing else
/// that has no handler for it leads anywhere.
pub proof fn other_events_of_inspectors(event: InboundEventType, uuid: Seq<char>)
    ensures
        event is OpenUrl || event is LogMessage ==> inspector_step(event, uuid) == Step::Run(
            event,
            Side::PropertyInspector,
        ),
        !(event is SetSettings || event is GetSettings || event is SetGlobalSettings
            || event is GetGlobalSettings || event is SendToPlugin || event is OpenUrl
            || event is LogMessage) ==> inspector_step(event, uuid) == Step::Ignore,
{
}

/// The log is told who sent a text that is no event, if that has a name, and why it is none.
pub proof fn warnings_name_the_sender(uuid: Seq<char>, error: Seq<char>)
    ensures
        plugin_warning(seq![], error) == "Failed to decode incoming event: "@ + error,
        uuid.len() > 0 ==> plugin_warning(uuid, error)
            == "Failed to decode incoming event from plugin "@ + uuid + ": "@ + error,
{
}

/// The log is told on whose side a handler failed and why, for every error that does not speak of a
/// closed connection.
pub proof fn failures_are_told_to_the_log(error: Seq<char>, before: Seq<char>, behind: Seq<char>)
    requires
        forall|i: int, j: int|
            0 <= i <= j <= error.len() ==> #[trigger] error.subrange(i, j) != "closed connection"@,
    ensures
        failure_text(error, Side::Plugin) == Some(
            "Failed to process incoming event from plugin: "@ + error,
        ),
        failure_text(error, Side::PropertyInspector) == Some(
            "Failed to process incoming event from property inspector: "@ + error,
        ),
        failure_text(before + "closed connection"@ + behind, Side::Plugin) is None,
        failure_text(before + "closed connection"@ + behind, Side::PropertyInspector) is None,
{
    let needle = "closed connection"@;
    let closed = before + needle + behind;
    assert(closed.subrange(before.len() as int, (before.len() + needle.len()) as int) =~= needle);
    assert(crate::text::occurs_at(closed, needle, before.len() as int));
    assert(crate::text::has_infix(closed, needle));
    if crate::text::has_infix(error, needle) {
        let i = choose|i: int| #[trigger] crate::text::occurs_at(error, needle, i);
        assert(error.subrange(i, i + needle.len()) == needle);
    }
}

} // verus!
