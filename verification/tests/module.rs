//! The interface to Emacs, the input method relay, and paths.
use ewm_core::event::{event_to_lisp, mode_to_lisp, Event, LispField, LispValue, OutputInfo, OutputMode};
use ewm_core::im_relay::{ImCommand, ImEvent, ProtocolEvent, RelayRequest, RelayState};
use ewm_core::ipc::{emacs_args, emacs_program, ipc_socket_path, log_path, session_environment};
use ewm_core::module::{
    configure_output_module, flag_choice, flag_is_true, intercept_keys_module, layout_module,
    view_module, LispFlag, LispKey, LispKeySpec, Module, ModuleCommand,
};
use ewm_core::KeyId;

fn shown(fields: Vec<LispField>) -> Vec<String> {
    fields
        .into_iter()
        .map(|f| match f.value {
            LispValue::Int(n) => format!("{}={}", f.key, n),
            LispValue::Bool(b) => format!("{}={}", f.key, b),
            LispValue::Text(s) => format!("{}={:?}", f.key, s),
            LispValue::Texts(v) => format!("{}={:?}", f.key, v),
            LispValue::Modes(v) => format!("{}=[{}]", f.key, v.len()),
        })
        .collect()
}

#[test]
fn events_leave_in_order() {
    let mut module = Module::new();
    assert!(module.pop_event().is_none());
    module.push_event(Event::Ready);
    module.push_event(Event::Close { id: 3 });
    assert_eq!(module.event_queue().len(), 2);
    assert!(matches!(module.pop_event(), Some(Event::Ready)));
    assert!(matches!(module.pop_event(), Some(Event::Close { id: 3 })));
    assert!(module.pop_event().is_none());
}

#[test]
fn commands_are_drained_in_order() {
    let mut module = Module::new();
    module.push_command(ModuleCommand::Hide { id: 1 });
    module.push_command(ModuleCommand::Hide { id: 2 });
    let commands = module.drain_commands();
    assert!(matches!(commands[..], [ModuleCommand::Hide { id: 1 }, ModuleCommand::Hide { id: 2 }]));
    assert!(module.drain_commands().is_empty());
}

#[test]
fn a_new_start_drops_events_and_the_request_to_stop() {
    let mut module = Module::new();
    module.push_event(Event::Ready);
    module.push_command(ModuleCommand::GetState);
    module.stop_requested = true;
    module.reset();
    assert!(module.pop_event().is_none());
    assert!(!module.stop_requested);
    assert_eq!(module.drain_commands().len(), 1);
}

#[test]
fn a_pending_focus_is_taken_once() {
    let mut module = Module::new();
    module.pending_focus = Some(3);
    assert_eq!(module.take_pending_focus(), Some(3));
    assert_eq!(module.take_pending_focus(), None);
}

#[test]
fn frame_outputs_are_taken_in_order() {
    let mut module = Module::new();
    module.push_pending_frame_output("A".to_string());
    module.push_pending_frame_output("B".to_string());
    assert_eq!(module.take_pending_frame_output(), Some("A".to_string()));
    assert_eq!(module.take_pending_frame_output(), Some("B".to_string()));
    assert_eq!(module.take_pending_frame_output(), None);
}

#[test]
fn events_become_alists() {
    assert_eq!(shown(event_to_lisp(Event::Ready)), vec!["event=\"ready\""]);
    assert_eq!(
        shown(event_to_lisp(Event::New { id: 4, app: "a".to_string(), output: None })),
        vec!["event=\"new\"", "id=4", "app=\"a\""]
    );
    assert_eq!(
        shown(event_to_lisp(Event::New { id: 4, app: "a".to_string(), output: Some("O".to_string()) })),
        vec!["event=\"new\"", "id=4", "app=\"a\"", "output=\"O\""]
    );
    assert_eq!(
        shown(event_to_lisp(Event::Layouts { layouts: vec!["us".to_string()], current: 0 })),
        vec!["event=\"layouts\"", "layouts=[\"us\"]", "current=0"]
    );
    assert_eq!(
        shown(event_to_lisp(Event::LayoutSwitched { layout: "de".to_string(), index: 1 })),
        vec!["event=\"layout-switched\"", "layout=\"de\"", "index=1"]
    );
    assert_eq!(
        shown(event_to_lisp(Event::Key { keysym: 97, utf8: Some("a".to_string()) })),
        vec!["event=\"key\"", "keysym=97", "utf8=\"a\""]
    );
    assert_eq!(
        shown(event_to_lisp(Event::Title { id: 1, app: "a".to_string(), title: "t".to_string() })),
        vec!["event=\"title\"", "id=1", "app=\"a\"", "title=\"t\""]
    );
    let mode = OutputMode {
        width: 640,
        height: 480,
        refresh: 60000,
        preferred: true,
    };
    let info = OutputInfo {
        name: "DP-1".to_string(),
        make: "m".to_string(),
        model: "n".to_string(),
        width_mm: 1,
        height_mm: 2,
        x: 3,
        y: 4,
        modes: vec![mode],
    };
    assert_eq!(info.copy().name, "DP-1");
    assert_eq!(
        shown(event_to_lisp(Event::OutputDetected(info))),
        vec![
            "event=\"output_detected\"",
            "name=\"DP-1\"",
            "make=\"m\"",
            "model=\"n\"",
            "width-mm=1",
            "height-mm=2",
            "x=3",
            "y=4",
            "modes=[1]",
        ]
    );
    assert_eq!(
        shown(mode_to_lisp(&mode)),
        vec!["width=640", "height=480", "refresh=60000", "preferred=true"]
    );
}

#[test]
fn lisp_values_become_commands() {
    assert!(matches!(
        layout_module(7, -1, 2, 30, 40),
        ModuleCommand::Layout { id: 7, x: -1, y: 2, w: 30, h: 40 }
    ));
    // Integers are cut to the width of their field.
    assert!(matches!(
        layout_module(4294967297, 0, 0, -1, 0),
        ModuleCommand::Layout { id: 1, w: 4294967295, .. }
    ));
    assert!(view_module(1, 2, 3, 4, LispFlag::Other).active);
    assert!(!view_module(1, 2, 3, 4, LispFlag::Nil).active);
    assert!(!view_module(1, 2, 3, 4, LispFlag::KeywordFalse).active);
    assert!(flag_is_true(LispFlag::KeywordUnset));
    assert_eq!(flag_choice(LispFlag::KeywordUnset), None);
    assert_eq!(flag_choice(LispFlag::Nil), Some(false));
    let change = configure_output_module(Some(1), None, Some(2), None, None, Some(9), Some(3), LispFlag::Nil);
    assert_eq!((change.x, change.y, change.width, change.height), (Some(1), None, Some(2), None));
    assert_eq!((change.scale, change.transform, change.enabled), (Some(9), Some(3), Some(false)));
}

#[test]
fn key_specifications_become_keys() {
    let spec = |key: LispKey| LispKeySpec {
        key,
        ctrl: LispFlag::Other,
        alt: LispFlag::Nil,
        shift: LispFlag::KeywordFalse,
        logo: LispFlag::Nil,
        is_prefix: LispFlag::Other,
    };
    let keys = intercept_keys_module(vec![
        spec(LispKey::Int(120)),
        spec(LispKey::Other),
        spec(LispKey::Text("left".to_string())),
    ]);
    assert_eq!(keys.len(), 2);
    assert!(matches!(keys[0].key, KeyId::Keysym(120)));
    assert!(keys[0].ctrl && !keys[0].alt && !keys[0].shift && keys[0].is_prefix);
    assert!(matches!(&keys[1].key, KeyId::Named(n) if n == "left"));
}

#[test]
fn the_relay_commits_only_while_active() {
    let mut relay = RelayState::new();
    relay.bound = true;
    let text = || ImCommand::CommitString("x".to_string());
    assert_eq!(relay.handle_command(text()), None);
    assert_eq!(relay.handle_event(ProtocolEvent::Activate), Some(ImEvent::Activated));
    assert_eq!(relay.handle_event(ProtocolEvent::Done), None);
    assert_eq!(relay.handle_event(ProtocolEvent::Other), None);
    assert_eq!(
        relay.handle_command(text()),
        Some(RelayRequest::Commit { text: "x".to_string(), serial: 1 })
    );
    assert_eq!(relay.handle_event(ProtocolEvent::Deactivate), Some(ImEvent::Deactivated));
    assert_eq!(relay.handle_command(text()), None);
    relay.serial = u32::MAX;
    relay.handle_event(ProtocolEvent::Done);
    assert_eq!(relay.serial, 0);
}

#[test]
fn paths_and_arguments() {
    let some = |s: &str| Some(s.to_string());
    assert_eq!(ipc_socket_path(some("/run/user/1")), "/run/user/1/ewm.sock");
    assert_eq!(ipc_socket_path(None), "/tmp/ewm.sock");
    assert_eq!(log_path(some("/l"), some("/r")), some("/l"));
    assert_eq!(log_path(None, some("/r")), some("/r/ewm.log"));
    assert_eq!(log_path(None, None), None);
    assert_eq!(
        emacs_args(some("init.el"), vec!["-Q".to_string()]),
        vec!["-l", "init.el", "-f", "ewm-connect", "-Q"]
    );
    assert_eq!(emacs_args(None, vec!["-Q".to_string()]), vec!["-Q"]);
    assert_eq!(emacs_program(None), "emacs");
    assert_eq!(emacs_program(some("e")), "e");
    let env = session_environment("wayland-ewm");
    assert_eq!(env[0], ("WAYLAND_DISPLAY".to_string(), "wayland-ewm".to_string()));
    assert_eq!(env.len(), 5);
}
