use serde_json::Value;
use streamdeck_mobile::inbound::{
    context_to_look_up, failure_warning, process_incoming_message, process_incoming_message_pi,
    process_owned_event, ActionContext, ContextAndPayloadEvent, ContextEvent, DeviceInfo,
    InboundEventType, Incoming, PayloadEvent, RegisterEvent, Side, Step,
};

fn place(text: &str) -> ActionContext {
    ActionContext { text: text.to_owned() }
}

fn set_settings(context: &str) -> InboundEventType {
    InboundEventType::SetSettings(ContextAndPayloadEvent {
        context: place(context),
        payload: Value::Bool(true),
    })
}

fn set_global(context: &str) -> InboundEventType {
    InboundEventType::SetGlobalSettings(ContextAndPayloadEvent {
        context: context.to_owned(),
        payload: Value::Null,
    })
}

fn get_global(context: &str) -> InboundEventType {
    InboundEventType::GetGlobalSettings(ContextEvent { context: context.to_owned() })
}

fn send_to_plugin(context: &str) -> InboundEventType {
    InboundEventType::SendToPlugin(ContextAndPayloadEvent {
        context: place(context),
        payload: Value::Null,
    })
}

fn open_url() -> InboundEventType {
    InboundEventType::OpenUrl(PayloadEvent { payload: Value::Null })
}

#[test]
fn what_is_no_text_is_ignored() {
    assert!(matches!(process_incoming_message(Incoming::Other, "p", false), Step::Ignore));
    assert!(matches!(process_incoming_message_pi(Incoming::Other, "p"), Step::Ignore));
}

#[test]
fn undecodable_texts_are_logged() {
    let bad = || Incoming::Undecodable("bad json".to_owned());
    match process_incoming_message(bad(), "", true) {
        Step::Warn(text) => assert_eq!(text, "Failed to decode incoming event: bad json"),
        other => panic!("{:?}", other),
    }
    match process_incoming_message(bad(), "p", false) {
        Step::Warn(text) => {
            assert_eq!(text, "Failed to decode incoming event from plugin p: bad json")
        }
        other => panic!("{:?}", other),
    }
    match process_incoming_message_pi(bad(), "") {
        Step::Warn(text) => {
            assert_eq!(text, "Failed to decode incoming event from property inspector : bad json")
        }
        other => panic!("{:?}", other),
    }
}

#[test]
fn owned_contexts_are_looked_up_first() {
    let events = || {
        vec![
            set_settings("ctx"),
            InboundEventType::GetSettings(ContextEvent { context: place("ctx") }),
            InboundEventType::SetTitle(ContextAndPayloadEvent {
                context: place("ctx"),
                payload: Value::Null,
            }),
            InboundEventType::SetImage(ContextAndPayloadEvent {
                context: place("ctx"),
                payload: Value::Null,
            }),
            InboundEventType::SetState(ContextAndPayloadEvent {
                context: place("ctx"),
                payload: Value::Null,
            }),
            InboundEventType::ShowAlert(ContextEvent { context: place("ctx") }),
            InboundEventType::ShowOk(ContextEvent { context: place("ctx") }),
            InboundEventType::SendToPropertyInspector(ContextAndPayloadEvent {
                context: place("ctx"),
                payload: Value::Null,
            }),
        ]
    };
    for event in events() {
        assert_eq!(context_to_look_up(&event), Some("ctx"));
        match process_incoming_message(Incoming::Event(event), "p", false) {
            Step::AskOwner(event) => {
                let step = process_owned_event(event, Some("p".to_owned()), "p");
                assert!(matches!(step, Step::Run(_, Side::Plugin)));
            }
            other => panic!("{:?}", other),
        }
    }
    for event in events() {
        assert!(matches!(process_owned_event(event, Some("q".to_owned()), "p"), Step::Refuse));
    }
    for event in events() {
        assert!(matches!(process_owned_event(event, None, "p"), Step::Refuse));
    }
    for event in events() {
        let step = process_incoming_message(Incoming::Event(event), "", true);
        assert!(matches!(step, Step::Run(_, Side::Plugin)));
    }
    for event in events() {
        let step = process_incoming_message(Incoming::Event(event), "p", true);
        assert!(matches!(step, Step::AskOwner(_)));
    }
}

#[test]
fn feedback_needs_no_owner() {
    let event = InboundEventType::SetFeedback(ContextAndPayloadEvent {
        context: place("ctx"),
        payload: Value::Null,
    });
    assert_eq!(context_to_look_up(&event), None);
    let step = process_incoming_message(Incoming::Event(event), "p", false);
    assert!(matches!(step, Step::Run(InboundEventType::SetFeedback(_), Side::Plugin)));
}

#[test]
fn global_settings_belong_to_the_plugin() {
    let run = |event, uuid: &str, skip| process_incoming_message(Incoming::Event(event), uuid, skip);
    assert!(matches!(run(set_global("p"), "p", false), Step::Run(_, Side::Plugin)));
    assert!(matches!(run(set_global("q"), "p", false), Step::Refuse));
    assert!(matches!(run(get_global("p"), "p", false), Step::Run(_, Side::Plugin)));
    assert!(matches!(run(get_global("q"), "p", true), Step::Refuse));
    assert!(matches!(run(get_global("q"), "", true), Step::Run(_, Side::Plugin)));
    assert!(matches!(run(get_global("q"), "", false), Step::Refuse));
}

#[test]
fn profiles_and_brightness_are_for_two_plugins() {
    let run = |event, uuid: &str, skip| process_incoming_message(Incoming::Event(event), uuid, skip);
    for uuid in ["com.amansprojects.starterpack.sdPlugin", "opendeck_alternative_elgato_implementation"] {
        assert!(matches!(run(InboundEventType::SwitchProfile(Value::Null), uuid, false), Step::Run(_, Side::Plugin)));
        assert!(matches!(run(InboundEventType::DeviceBrightness(Value::Null), uuid, false), Step::Run(_, Side::Plugin)));
    }
    assert!(matches!(run(InboundEventType::SwitchProfile(Value::Null), "p", false), Step::Refuse));
    assert!(matches!(run(InboundEventType::DeviceBrightness(Value::Null), "p", true), Step::Refuse));
    assert!(matches!(run(InboundEventType::SwitchProfile(Value::Null), "", false), Step::Refuse));
    assert!(matches!(run(InboundEventType::SwitchProfile(Value::Null), "", true), Step::Run(_, Side::Plugin)));
}

#[test]
fn events_keep_what_they_carry() {
    let device = DeviceInfo {
        id: "d".to_owned(),
        plugin: "p".to_owned(),
        name: "n".to_owned(),
        rows: 2,
        columns: 4,
        encoders: 1,
        touchpoints: 0,
        infobars: 0,
        device_type: 7,
    };
    let event = InboundEventType::RegisterDevice(PayloadEvent { payload: device });
    match process_incoming_message(Incoming::Event(event), "p", false) {
        Step::Run(InboundEventType::RegisterDevice(e), Side::Plugin) => {
            assert_eq!(e.payload.id, "d");
            assert_eq!(e.payload.device_type, 7);
        }
        other => panic!("{:?}", other),
    }
}

#[test]
fn plugins_do_not_send_to_themselves() {
    let step = process_incoming_message(Incoming::Event(send_to_plugin("x")), "p", false);
    assert!(matches!(step, Step::Ignore));
}

#[test]
fn inspectors_speak_for_their_own_context() {
    let run = |event, uuid: &str| process_incoming_message_pi(Incoming::Event(event), uuid);
    assert!(matches!(run(set_settings("me"), "me"), Step::Run(_, Side::PropertyInspector)));
    assert!(matches!(run(set_settings("you"), "me"), Step::Refuse));
    assert!(matches!(
        run(InboundEventType::GetSettings(ContextEvent { context: place("you") }), "me"),
        Step::Refuse
    ));
    assert!(matches!(run(set_global("me"), "me"), Step::Run(_, Side::PropertyInspector)));
    assert!(matches!(run(set_global("you"), "me"), Step::Refuse));
    assert!(matches!(run(get_global("you"), "me"), Step::Refuse));
    assert!(matches!(run(send_to_plugin("me"), "me"), Step::Run(_, Side::PropertyInspector)));
    assert!(matches!(run(send_to_plugin("you"), "me"), Step::Refuse));
    assert!(matches!(run(open_url(), "me"), Step::Run(_, Side::PropertyInspector)));
    assert!(matches!(
        run(InboundEventType::LogMessage(PayloadEvent { payload: Value::Null }), "me"),
        Step::Run(_, Side::PropertyInspector)
    ));
    assert!(matches!(
        run(InboundEventType::ShowOk(ContextEvent { context: place("you") }), "me"),
        Step::Ignore
    ));
    assert!(matches!(run(InboundEventType::SwitchProfile(Value::Null), "me"), Step::Ignore));
}

#[test]
fn closed_connections_are_not_worth_a_warning() {
    assert_eq!(failure_warning("closed connection", Side::Plugin), None);
    assert_eq!(
        failure_warning("Trying to work with closed connection.", Side::PropertyInspector),
        None
    );
    assert_eq!(
        failure_warning("closed  connection", Side::Plugin),
        Some("Failed to process incoming event from plugin: closed  connection".to_owned())
    );
    assert_eq!(
        failure_warning("", Side::PropertyInspector),
        Some("Failed to process incoming event from property inspector: ".to_owned())
    );
}

#[test]
fn introductions_name_the_sender() {
    let plugin = RegisterEvent::RegisterPlugin { uuid: "p".to_owned() };
    let inspector = RegisterEvent::RegisterPropertyInspector { uuid: "p".to_owned() };
    assert_ne!(plugin, inspector);
}
