//! Keys and the lock.
use ewm_core::geometry::Size;
use ewm_core::action::Action;
use ewm_core::event::Event;
use ewm_core::input::{handle_device_added, KeyEvent, KeyboardAction};
use ewm_core::keys::Modifiers;
use ewm_core::redraw::RenderOutcome;
use ewm_core::testing::Fixture;
use ewm_core::{Ewm, InterceptedKey, KeyId, LockState};

const NONE: Modifiers = Modifiers {
    ctrl: false,
    alt: false,
    shift: false,
    logo: false,
};

const SUPER: Modifiers = Modifiers {
    ctrl: false,
    alt: false,
    shift: false,
    logo: true,
};

fn press(keysym: char, mods: Modifiers) -> KeyEvent {
    KeyEvent {
        pressed: true,
        modified: keysym as u32,
        raw_latin: Some(keysym as u32),
        mods,
        utf8: keysym.to_string(),
    }
}

/// Emacs is surface 1 (window 10), an application surface 2 (window 20), and
/// `s-d` is a prefix key.
fn desk() -> Fixture {
    let mut fixture = Fixture::new().unwrap();
    fixture.add_output("A", 1000, 500, Size { w: 1000, h: 500 });
    fixture.dispatch();
    let ewm = fixture.ewm();
    ewm.set_emacs_pid(5);
    ewm.handle_new_toplevel(10, Some(5), None, None);
    ewm.handle_new_toplevel(20, Some(6), None, None);
    ewm.module.intercepted_keys.push(InterceptedKey {
        key: KeyId::Keysym('d' as u32),
        ctrl: false,
        alt: false,
        shift: false,
        logo: true,
        is_prefix: true,
    });
    ewm.module.clear_events();
    ewm.focus_surface(2, false);
    ewm.sync_keyboard_focus();
    ewm.take_actions();
    fixture
}

fn next_event(ewm: &mut Ewm) -> Option<Event> {
    ewm.module.pop_event()
}

#[test]
fn intercepted_keys_go_to_emacs() {
    let mut fixture = desk();
    let ewm = fixture.ewm();
    ewm.xkb_configured("us,de");
    ewm.xkb_current_layout = 1;
    ewm.module.clear_events();
    assert_eq!(ewm.handle_keyboard_event(&press('d', SUPER), 1), KeyboardAction::RedirectToEmacs);
    assert_eq!(ewm.focused_surface_id, 1);
    assert_eq!(ewm.module.focused_id, 1);
    assert!(ewm.module.in_prefix_sequence);
    assert_eq!(ewm.xkb_current_layout, 0);
    assert_eq!(
        ewm.take_actions(),
        vec![
            Action::SetKeyboardFocus { surface: Some(10) },
            Action::SetXkbLayout { index: 0 },
            Action::ResendKey,
        ]
    );
    assert!(next_event(ewm).is_none());
    // Emacs has the focus now: the key is an ordinary one.
    assert_eq!(ewm.handle_keyboard_event(&press('d', SUPER), 0), KeyboardAction::Forward);
}

#[test]
fn keys_are_looked_up_by_their_latin_keysym() {
    let mut fixture = desk();
    let ewm = fixture.ewm();
    let ev = KeyEvent {
        pressed: true,
        modified: 0x6d7,
        raw_latin: Some('d' as u32),
        mods: SUPER,
        utf8: "в".to_string(),
    };
    assert_eq!(ewm.handle_keyboard_event(&ev, 0), KeyboardAction::RedirectToEmacs);
}

#[test]
fn releases_and_other_keys_are_forwarded() {
    let mut fixture = desk();
    let ewm = fixture.ewm();
    let mut release = press('d', SUPER);
    release.pressed = false;
    assert_eq!(ewm.handle_keyboard_event(&release, 0), KeyboardAction::Forward);
    assert_eq!(ewm.handle_keyboard_event(&press('x', NONE), 0), KeyboardAction::Forward);
    assert_eq!(ewm.take_actions(), vec![Action::NotifyActivity, Action::NotifyActivity]);
    assert_eq!(ewm.focused_surface_id, 2);
}

#[test]
fn kill_combination_and_terminals() {
    let mut fixture = desk();
    let ewm = fixture.ewm();
    let mods = Modifiers { shift: true, ..SUPER };
    assert_eq!(ewm.handle_keyboard_event(&press('E', mods), 0), KeyboardAction::Shutdown);
    let vt = KeyEvent {
        pressed: true,
        modified: 0x1008fe03,
        raw_latin: None,
        mods: NONE,
        utf8: String::new(),
    };
    assert_eq!(ewm.handle_keyboard_event(&vt, 0), KeyboardAction::ChangeVt(3));
}

#[test]
fn text_goes_to_emacs_while_it_is_intercepted() {
    let mut fixture = desk();
    let ewm = fixture.ewm();
    ewm.text_input_intercept = true;
    assert_eq!(ewm.handle_keyboard_event(&press('k', NONE), 0), KeyboardAction::TextInputIntercepted);
    assert!(matches!(
        next_event(ewm),
        Some(Event::Key { keysym: 0x6b, utf8: Some(t) }) if t == "k"
    ));
    let mods = Modifiers { ctrl: true, ..NONE };
    assert_eq!(ewm.handle_keyboard_event(&press('k', mods), 0), KeyboardAction::Forward);
    ewm.focus_surface(1, false);
    assert_eq!(ewm.handle_keyboard_event(&press('k', NONE), 0), KeyboardAction::Forward);
}

#[test]
fn pending_focus_is_taken_up_before_a_key() {
    let mut fixture = desk();
    let ewm = fixture.ewm();
    ewm.module.pending_focus = Some(1);
    ewm.handle_keyboard_event(&press('x', NONE), 0);
    assert_eq!(ewm.focused_surface_id, 1);
    assert_eq!(ewm.keyboard_focus, Some(10));
    assert_eq!(ewm.module.pending_focus, None);
    let record = ewm.module.focus_history.last().unwrap();
    assert_eq!(record.source, "pending_focus");
    assert_eq!(record.context.as_deref(), Some("keyboard_event"));
}

#[test]
fn a_layout_switched_by_a_key_is_told() {
    let mut fixture = desk();
    let ewm = fixture.ewm();
    ewm.xkb_configured("us,de");
    ewm.module.clear_events();
    ewm.handle_keyboard_event(&press('x', NONE), 1);
    assert_eq!(ewm.xkb_current_layout, 1);
    assert!(matches!(
        next_event(ewm),
        Some(Event::LayoutSwitched { layout, index: 1 }) if layout == "de"
    ));
}

#[test]
fn keys_are_released_and_focus_restored() {
    let mut fixture = desk();
    let ewm = fixture.ewm();
    ewm.release_all_keys(&vec![]);
    assert!(ewm.take_actions().is_empty());
    ewm.release_all_keys(&vec![30, 31]);
    assert_eq!(
        ewm.take_actions(),
        vec![
            Action::ReleaseKey { keycode: 30 },
            Action::ReleaseKey { keycode: 31 },
            Action::SetKeyboardFocus { surface: None },
        ]
    );
    assert_eq!(ewm.keyboard_focus, None);
    ewm.restore_focus(2);
    assert_eq!(ewm.keyboard_focus, Some(20));
    ewm.restore_focus(7);
    assert_eq!(ewm.keyboard_focus, Some(20));
}

#[test]
fn touchpads_scroll_naturally() {
    assert!(handle_device_added(3));
    assert!(!handle_device_added(0));
}

#[test]
fn the_lock_waits_for_every_output() {
    let mut fixture = desk();
    fixture.add_output("B", 800, 600, Size { w: 800, h: 600 });
    fixture.dispatch();
    let ewm = fixture.ewm();
    ewm.take_actions();
    ewm.lock(90, false);
    assert!(ewm.is_locked());
    assert!(matches!(ewm.lock_state, LockState::Locking(90)));
    ewm.new_lock_surface(50, 1, Size { w: 1, h: 1 });
    ewm.new_lock_surface(51, 2, Size { w: 1, h: 1 });
    assert!(ewm.take_actions().contains(&Action::ConfigureLockSurface { surface: 51, w: 800, h: 600 }));
    ewm.lock_frame(1, RenderOutcome::FrameQueued);
    assert!(matches!(ewm.lock_state, LockState::Locking(90)));
    ewm.lock_frame(2, RenderOutcome::FrameQueued);
    assert!(matches!(ewm.lock_state, LockState::Locked(90)));
    assert_eq!(ewm.take_actions(), vec![Action::ConfirmLock { locker: 90 }]);
    // Keys go to the lock surface under the pointer.
    assert_eq!(ewm.lock_surface_focus(), Some(50));
    assert_eq!(ewm.handle_keyboard_event(&press('d', SUPER), 0), KeyboardAction::Forward);
    assert_eq!(
        ewm.take_actions(),
        vec![Action::NotifyActivity, Action::SetKeyboardFocus { surface: Some(50) }]
    );
    ewm.handle_pointer_button(true, Some(10));
    assert_eq!(ewm.focused_surface_id, 2);
    // A second client is refused while the first one lives.
    ewm.take_actions();
    ewm.lock(91, true);
    assert!(matches!(ewm.lock_state, LockState::Locked(90)));
    assert_eq!(ewm.take_actions(), vec![Action::DropLock { locker: 91 }]);
    ewm.unlock();
    assert!(!ewm.is_locked());
    assert_eq!(ewm.focused_surface_id, 2);
    assert_eq!(ewm.pre_lock_focus, None);
    assert_eq!(ewm.lock_surface_focus(), None);
}

#[test]
fn a_lock_without_outputs_is_immediate() {
    let mut fixture = Fixture::new().unwrap();
    let ewm = fixture.ewm();
    ewm.lock(7, false);
    assert!(matches!(ewm.lock_state, LockState::Locked(7)));
    assert_eq!(ewm.take_actions(), vec![Action::ConfirmLock { locker: 7 }]);
    // The client is gone: another one may take over.
    ewm.lock(8, false);
    assert!(matches!(ewm.lock_state, LockState::Locked(8)));
}

#[test]
fn a_lock_is_given_up_where_drawing_fails() {
    let mut fixture = desk();
    let ewm = fixture.ewm();
    ewm.lock(9, false);
    ewm.lock_frame(1, RenderOutcome::Failed);
    assert!(!ewm.is_locked());
    assert_eq!(ewm.take_actions(), vec![Action::DropLock { locker: 9 }]);
    // A lock that is confirmed stays.
    ewm.lock(9, false);
    ewm.lock_frame(1, RenderOutcome::FrameQueued);
    ewm.lock_frame(1, RenderOutcome::Failed);
    assert!(matches!(ewm.lock_state, LockState::Locked(9)));
}

#[test]
fn a_removed_output_is_not_waited_for() {
    let mut fixture = desk();
    fixture.add_output("B", 800, 600, Size { w: 800, h: 600 });
    let ewm = fixture.ewm();
    ewm.lock(9, false);
    ewm.lock_frame_rendered(1);
    assert!(matches!(ewm.lock_state, LockState::Locking(9)));
    fixture.remove_output("B");
    assert!(matches!(fixture.ewm_ref().lock_state, LockState::Locked(9)));
}
