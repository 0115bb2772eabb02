//! Keyboard and pointer events.
//!
//! The keyboard library tells, of each key event, the keysyms, the modifiers
//! and the text that the key makes; what is done with the key is decided
//! here. Keys are looked up by their Latin keysym, so that intercepted keys
//! work whatever the keyboard layout is.
use vstd::prelude::*;

use crate::action::{Action, ActionView};
use crate::event::{Event, EventView};
use crate::ewm::{Ewm, EwmView};
use crate::keys::{find_match, first_match, is_kill_combo, switch_vt, vt_of_keysym, Modifiers};
use crate::module::{ModuleView, PointerLocation};
use crate::space::WindowHandle;
use crate::text::{is_printable, printable};

verus! {

/// What comes of a key event.
#[derive(Debug, Clone, Copy, PartialEq, Eq, Structural)]
pub enum KeyboardAction {
    /// The key goes to the focused surface.
    Forward,
    /// An intercepted key: the focus went to Emacs.
    RedirectToEmacs,
    /// The kill combination: the compositor is to stop.
    Shutdown,
    /// The key went to Emacs as text input.
    TextInputIntercepted,
    /// Another virtual terminal is asked for.
    ChangeVt(i32),
}

/// A key event, as the keyboard library tells it.
#[derive(Debug)]
pub struct KeyEvent {
    pub pressed: bool,
    /// The keysym with the modifiers taken into account.
    pub modified: u32,
    /// The Latin keysym of the key, or the one of the current layout.
    pub raw_latin: Option<u32>,
    pub mods: Modifiers,
    /// The text of `modified`, as the keyboard library gives it.
    pub utf8: String,
}

/// What is to be done with a key.
#[derive(Debug)]
pub enum KeyVerdict {
    Forward,
    Redirect,
    Kill,
    TextInput { keysym: u32, utf8: String },
    SwitchVt { vt: i32 },
}

/// What a [`KeyVerdict`] holds.
#[verifier::ext_equal]
pub enum KeyVerdictView {
    Forward,
    Redirect,
    Kill,
    TextInput { keysym: u32, utf8: Seq<char> },
    SwitchVt { vt: i32 },
}

impl View for KeyVerdict {
    type V = KeyVerdictView;

    open spec fn view(&self) -> KeyVerdictView {
        match self {
            KeyVerdict::Forward => KeyVerdictView::Forward,
            KeyVerdict::Redirect => KeyVerdictView::Redirect,
            KeyVerdict::Kill => KeyVerdictView::Kill,
            KeyVerdict::TextInput { keysym, utf8 } => KeyVerdictView::TextInput {
                keysym: *keysym,
                utf8: utf8@,
            },
            KeyVerdict::SwitchVt { vt } => KeyVerdictView::SwitchVt { vt: *vt },
        }
    }
}

/// The keysym by which a key is looked up.
pub open spec fn lookup_keysym(ev: KeyEvent) -> u32 {
    match ev.raw_latin {
        Some(k) => k,
        None => ev.modified,
    }
}

/// Whether the key is the kill combination.
pub open spec fn kills(ev: KeyEvent) -> bool {
    (lookup_keysym(ev) == 'e' as u32 || lookup_keysym(ev) == 'E' as u32) && ev.mods.shift
        && ev.mods.logo
}

impl EwmView {
    /// Whether the key is text for Emacs's input method.
    pub open spec fn takes_text(self, ev: KeyEvent) -> bool {
        &&& self.text_input_intercept
        &&& !self.is_focus_on_emacs()
        &&& !ev.mods.ctrl
        &&& !ev.mods.alt
        &&& !ev.mods.logo
        &&& is_printable(ev.utf8@)
    }

    /// What is to be done with a key while the session is not locked: a
    /// release goes to the focused surface; a request for another terminal
    /// and the kill combination come first; an intercepted key goes to Emacs,
    /// as it does anyway where Emacs has the focus; then text for the input
    /// method.
    pub open spec fn verdict(self, ev: KeyEvent) -> KeyVerdictView {
        if !ev.pressed {
            KeyVerdictView::Forward
        } else if vt_of_keysym(ev.modified) is Some {
            KeyVerdictView::SwitchVt { vt: vt_of_keysym(ev.modified)->0 as i32 }
        } else if kills(ev) {
            KeyVerdictView::Kill
        } else if first_match(self.module.intercepted_keys, lookup_keysym(ev), ev.mods) is Some {
            if self.is_focus_on_emacs() {
                KeyVerdictView::Forward
            } else {
                KeyVerdictView::Redirect
            }
        } else if self.takes_text(ev) {
            KeyVerdictView::TextInput { keysym: lookup_keysym(ev), utf8: ev.utf8@ }
        } else {
            KeyVerdictView::Forward
        }
    }

    /// Whether the key starts a key sequence of Emacs.
    pub open spec fn starts_prefix(self, ev: KeyEvent) -> bool {
        self.verdict(ev) is Redirect && first_match(
            self.module.intercepted_keys,
            lookup_keysym(ev),
            ev.mods,
        )->0.is_prefix
    }

    /// The state after a key was judged: a prefix key is remembered, and only
    /// Emacs forgets it.
    pub open spec fn key_judged(self, ev: KeyEvent) -> EwmView {
        if self.starts_prefix(ev) {
            EwmView {
                module: ModuleView { in_prefix_sequence: true, ..self.module },
                ..self
            }
        } else {
            self
        }
    }

    /// The pending focus of Emacs taken up.
    pub open spec fn take_pending_focus(self) -> EwmView {
        let s = EwmView {
            module: ModuleView { pending_focus: None, ..self.module },
            ..self
        };
        match self.module.pending_focus {
            Some(id) => s.focus_existing(id, "pending_focus"@, Some("keyboard_event"@)),
            None => s,
        }
    }

    /// Made ready for a key: the pending focus is taken up, and the keyboard
    /// brought in step, so that the key goes where Emacs wants it.
    pub open spec fn before_key(self) -> EwmView {
        self.take_pending_focus().sync_keyboard_focus()
    }

    /// The focus redirected to a surface of Emacs for the time of a key
    /// sequence: the keyboard layout goes back to the first one, and the key
    /// is handed over again. Emacs is not told of the focus.
    pub open spec fn redirect_to(self, id: u32) -> EwmView {
        let s = EwmView {
            focused_surface_id: id,
            module: ModuleView { focused_id: id, ..self.module },
            ..self
        }.record_focus(id, "intercept_redirect"@, Some("prefix_key"@));
        if self.id_windows.contains_key(id) {
            let surface = Some(self.id_windows[id]);
            let t = EwmView { keyboard_focus: surface, ..s }.act(
                ActionView::SetKeyboardFocus { surface },
            );
            let u = if self.xkb_current_layout != 0 && self.xkb_layout_names.len() > 0 {
                EwmView { xkb_current_layout: 0, ..t }.act(
                    ActionView::SetXkbLayout { index: 0 },
                )
            } else {
                t
            };
            u.act(ActionView::ResendKey)
        } else {
            s
        }
    }

    /// Whether `t` is the state after a redirect to Emacs.
    pub open spec fn redirected(self, t: EwmView) -> bool {
        exists|r: Option<u32>| #[trigger]
            self.emacs_surface_choice(r) && t == match r {
                Some(id) => self.redirect_to(id),
                None => self,
            }
    }

    /// The keyboard focus on the focused window.
    pub open spec fn focus_window(self) -> EwmView {
        if self.id_windows.contains_key(self.focused_surface_id) && self.keyboard_focus != Some(
            self.id_windows[self.focused_surface_id],
        ) {
            let surface = Some(self.id_windows[self.focused_surface_id]);
            EwmView { keyboard_focus: surface, ..self }.act(
                ActionView::SetKeyboardFocus { surface },
            )
        } else {
            self
        }
    }

    /// The current keyboard layout taken up, and Emacs told where it changed.
    pub open spec fn layout_is(self, current: usize) -> EwmView {
        if current != self.xkb_current_layout {
            let s = EwmView { xkb_current_layout: current, ..self };
            if self.xkb_layout_names.len() > 0 {
                s.tell(
                    EventView::LayoutSwitched {
                        layout: if current < self.xkb_layout_names.len() {
                            self.xkb_layout_names[current as int]
                        } else {
                            Seq::empty()
                        },
                        index: current,
                    },
                )
            } else {
                s
            }
        } else {
            self
        }
    }

    /// The state after a key was forwarded; `layout` is the keyboard layout
    /// then.
    pub open spec fn forwarded(self, layout: usize) -> EwmView {
        self.focus_window().layout_is(layout).act(ActionView::NotifyActivity)
    }

    /// The terminal that a key asks for while the session is locked.
    pub open spec fn locked_vt(ev: KeyEvent) -> Option<int> {
        if ev.pressed {
            vt_of_keysym(ev.modified)
        } else {
            None
        }
    }

    /// The state after a key event while the session is locked: all goes to
    /// the lock screen, but for a request for another terminal.
    pub open spec fn locked_key(self, ev: KeyEvent) -> EwmView {
        let s = self.act(ActionView::NotifyActivity);
        if EwmView::locked_vt(ev) is None && self.lock_focus() is Some {
            s.act(ActionView::SetKeyboardFocus { surface: self.lock_focus() })
        } else {
            s
        }
    }

    /// Whether `t` and `action` are what comes of a key event; `layout` is the
    /// keyboard layout after the event.
    pub open spec fn key_handled(
        self,
        ev: KeyEvent,
        layout: usize,
        t: EwmView,
        action: KeyboardAction,
    ) -> bool {
        if self.is_locked_spec() {
            &&& t == self.locked_key(ev)
            &&& action == match EwmView::locked_vt(ev) {
                Some(vt) => KeyboardAction::ChangeVt(vt as i32),
                None => KeyboardAction::Forward,
            }
        } else {
            let s = self.before_key();
            let j = s.key_judged(ev);
            match s.verdict(ev) {
                KeyVerdictView::Forward => t == j.forwarded(layout) && action
                    == KeyboardAction::Forward,
                KeyVerdictView::Redirect => j.redirected(t) && action
                    == KeyboardAction::RedirectToEmacs,
                KeyVerdictView::Kill => t == j && action == KeyboardAction::Shutdown,
                KeyVerdictView::TextInput { keysym, utf8 } => t == j.tell(
                    EventView::Key { keysym, utf8: Some(utf8) },
                ) && action == KeyboardAction::TextInputIntercepted,
                KeyVerdictView::SwitchVt { vt } => t == j && action == KeyboardAction::ChangeVt(
                    vt,
                ),
            }
        }
    }

    /// The focus moved to the window under the pointer.
    pub open spec fn focus_under_pointer(
        self,
        window: Option<WindowHandle>,
        source: Seq<char>,
    ) -> EwmView {
        match window {
            Some(w) if !self.is_locked_spec() && self.window_ids.contains_key(w) => {
                let s = self.record_focus(self.window_ids[w], source, None).set_focus(
                    self.window_ids[w],
                );
                EwmView { keyboard_focus: Some(w), ..s }.act(
                    ActionView::SetKeyboardFocus { surface: Some(w) },
                )
            },
            _ => self,
        }
    }

    /// The state after the pointer moved.
    pub open spec fn pointer_moved(self, location: PointerLocation) -> EwmView {
        EwmView { pointer_location: location, ..self }.act(ActionView::NotifyActivity)
    }

    /// The state after a button was pressed or released over a window.
    pub open spec fn button(self, pressed: bool, window: Option<WindowHandle>) -> EwmView {
        (if pressed {
            self.focus_under_pointer(window, "click"@)
        } else {
            self
        }).act(ActionView::NotifyActivity)
    }

    /// The state after something was scrolled over a window.
    pub open spec fn scrolled(self, window: Option<WindowHandle>) -> EwmView {
        self.focus_under_pointer(window, "scroll"@).act(ActionView::NotifyActivity)
    }

    /// A list of keys to be released.
    pub open spec fn release_keys(self, pressed: Seq<u32>) -> EwmView
        decreases pressed.len(),
    {
        if pressed.len() == 0 {
            self
        } else {
            self.release_keys(pressed.drop_last()).act(
                ActionView::ReleaseKey { keycode: pressed.last() },
            )
        }
    }
}

impl Ewm {
    /// Judges a key while the session is not locked.
    pub fn filter_key(&mut self, ev: &KeyEvent) -> (r: KeyVerdict)
        ensures
            r@ == old(self)@.verdict(*ev),
            final(self)@ == old(self)@.key_judged(*ev),
    {
        if !ev.pressed {
            return KeyVerdict::Forward;
        }
        if let Some(vt) = switch_vt(ev.modified) {
            return KeyVerdict::SwitchVt { vt };
        }
        let keysym: u32 = match ev.raw_latin {
            Some(k) => k,
            None => ev.modified,
        };
        if is_kill_combo(keysym, ev.mods.shift, ev.mods.logo) {
            return KeyVerdict::Kill;
        }
        let focus_on_emacs: bool = self.is_focus_on_emacs();
        if let Some(i) = find_match(&self.module.intercepted_keys, keysym, &ev.mods) {
            if !focus_on_emacs {
                if self.module.intercepted_keys[i].is_prefix {
                    self.module.in_prefix_sequence = true;
                }
                return KeyVerdict::Redirect;
            }
            return KeyVerdict::Forward;
        }
        if self.text_input_intercept && !focus_on_emacs && !ev.mods.ctrl && !ev.mods.alt
            && !ev.mods.logo && printable(ev.utf8.as_str()) {
            KeyVerdict::TextInput { keysym, utf8: ev.utf8.clone() }
        } else {
            KeyVerdict::Forward
        }
    }

    /// Takes up the focus that Emacs wants before the next key.
    pub fn apply_pending_focus(&mut self)
        ensures
            final(self)@ == old(self)@.take_pending_focus(),
    {
        let pending: Option<u32> = self.module.take_pending_focus();
        if let Some(id) = pending {
            self.focus_existing(id, "pending_focus", Some("keyboard_event"));
        }
    }

    /// Makes ready for a key.
    pub fn prepare_key(&mut self)
        ensures
            final(self)@ == old(self)@.before_key(),
    {
        self.apply_pending_focus();
        self.sync_keyboard_focus();
    }

    fn redirect_to(&mut self, id: u32)
        ensures
            final(self)@ == old(self)@.redirect_to(id),
    {
        self.module.record_focus(id, "intercept_redirect", Some("prefix_key"));
        self.focused_surface_id = id;
        self.module.focused_id = id;
        if let Some(window) = self.id_windows.get(&id) {
            let surface: Option<u64> = Some(*window);
            self.keyboard_focus = surface;
            self.act(Action::SetKeyboardFocus { surface });
            if self.xkb_current_layout != 0 && self.xkb_layout_names.len() > 0 {
                self.xkb_current_layout = 0;
                self.act(Action::SetXkbLayout { index: 0 });
            }
            self.act(Action::ResendKey);
        }
    }

    /// Redirects the focus to Emacs for the time of a key sequence.
    pub fn redirect_to_emacs(&mut self)
        ensures
            old(self)@.redirected(final(self)@),
    {
        let r: Option<u32> = self.get_emacs_surface_for_focused_output();
        proof {
            assert(self@.emacs_surface_choice(r));
        }
        if let Some(id) = r {
            self.redirect_to(id);
        }
    }

    /// Brings the keyboard focus to the focused window.
    pub fn focus_window(&mut self)
        ensures
            final(self)@ == old(self)@.focus_window(),
    {
        if let Some(window) = self.id_windows.get(&self.focused_surface_id) {
            let surface: Option<u64> = Some(*window);
            if self.keyboard_focus != surface {
                self.keyboard_focus = surface;
                self.act(Action::SetKeyboardFocus { surface });
            }
        }
    }

    /// Takes up the current keyboard layout.
    pub fn layout_is(&mut self, current: usize)
        ensures
            final(self)@ == old(self)@.layout_is(current),
    {
        if current != self.xkb_current_layout {
            self.xkb_current_layout = current;
            if self.xkb_layout_names.len() > 0 {
                let layout: String = if current < self.xkb_layout_names.len() {
                    self.xkb_layout_names[current].clone()
                } else {
                    String::new()
                };
                self.queue_event(Event::LayoutSwitched { layout, index: current });
            }
        }
    }

    /// Takes up what was made of a key, once the keyboard library is done with
    /// it; `layout` is the keyboard layout that it then has.
    pub fn after_key(&mut self, verdict: KeyVerdict, layout: usize) -> (r: KeyboardAction)
        ensures
            match verdict@ {
                KeyVerdictView::Forward => final(self)@ == old(self)@.forwarded(layout) && r
                    == KeyboardAction::Forward,
                KeyVerdictView::Redirect => old(self)@.redirected(final(self)@) && r
                    == KeyboardAction::RedirectToEmacs,
                KeyVerdictView::Kill => final(self)@ == old(self)@ && r
                    == KeyboardAction::Shutdown,
                KeyVerdictView::TextInput { keysym, utf8 } => final(self)@ == old(self)@.tell(
                    EventView::Key { keysym, utf8: Some(utf8) },
                ) && r == KeyboardAction::TextInputIntercepted,
                KeyVerdictView::SwitchVt { vt } => final(self)@ == old(self)@ && r
                    == KeyboardAction::ChangeVt(vt),
            },
    {
        match verdict {
            KeyVerdict::Forward => {
                self.focus_window();
                self.layout_is(layout);
                self.act(Action::NotifyActivity);
                KeyboardAction::Forward
            },
            KeyVerdict::Redirect => {
                self.redirect_to_emacs();
                KeyboardAction::RedirectToEmacs
            },
            KeyVerdict::Kill => KeyboardAction::Shutdown,
            KeyVerdict::TextInput { keysym, utf8 } => {
                self.queue_event(Event::Key { keysym, utf8: Some(utf8) });
                KeyboardAction::TextInputIntercepted
            },
            KeyVerdict::SwitchVt { vt } => KeyboardAction::ChangeVt(vt),
        }
    }

    /// The virtual terminal that a key asks for while the session is locked.
    pub fn filter_locked_key(&self, ev: &KeyEvent) -> (r: Option<i32>)
        ensures
            match r {
                Some(vt) => EwmView::locked_vt(*ev) == Some(vt as int),
                None => EwmView::locked_vt(*ev) is None,
            },
    {
        if ev.pressed {
            switch_vt(ev.modified)
        } else {
            None
        }
    }

    /// Carries out a key event while the session is locked.
    pub fn handle_locked_key(&mut self, ev: &KeyEvent) -> (r: KeyboardAction)
        ensures
            final(self)@ == old(self)@.locked_key(*ev),
            r == match EwmView::locked_vt(*ev) {
                Some(vt) => KeyboardAction::ChangeVt(vt as i32),
                None => KeyboardAction::Forward,
            },
    {
        self.act(Action::NotifyActivity);
        if let Some(vt) = self.filter_locked_key(ev) {
            return KeyboardAction::ChangeVt(vt);
        }
        let focus: Option<u64> = self.lock_surface_focus();
        if focus.is_some() {
            self.act(Action::SetKeyboardFocus { surface: focus });
        }
        KeyboardAction::Forward
    }

    /// Carries out a key event; `layout` is the keyboard layout after the
    /// keyboard library has taken it up.
    pub fn handle_keyboard_event(&mut self, ev: &KeyEvent, layout: usize) -> (r: KeyboardAction)
        ensures
            old(self)@.key_handled(*ev, layout, final(self)@, r),
    {
        if self.is_locked() {
            return self.handle_locked_key(ev);
        }
        self.prepare_key();
        let verdict: KeyVerdict = self.filter_key(ev);
        self.after_key(verdict, layout)
    }

    /// Releases all keys that are held down, and takes the keyboard focus
    /// away; nothing happens where none is held down.
    pub fn release_all_keys(&mut self, pressed: &Vec<u32>)
        ensures
            final(self)@ == (if pressed@.len() == 0 {
                old(self)@
            } else {
                EwmView {
                    keyboard_focus: None,
                    ..old(self)@.release_keys(pressed@).act(
                        ActionView::SetKeyboardFocus { surface: None },
                    )
                }
            }),
    {
        if pressed.len() == 0 {
            return;
        }
        let mut i: usize = 0;
        proof {
            assert(pressed@.take(0) =~= Seq::<u32>::empty());
        }
        while i < pressed.len()
            invariant
                i <= pressed@.len(),
                self@ == old(self)@.release_keys(pressed@.take(i as int)),
            decreases pressed@.len() - i,
        {
            proof {
                assert(pressed@.take(i + 1).drop_last() =~= pressed@.take(i as int));
                assert(pressed@.take(i + 1).last() == pressed@[i as int]);
            }
            self.act(Action::ReleaseKey { keycode: pressed[i] });
            i += 1;
        }
        proof {
            assert(pressed@.take(i as int) =~= pressed@);
        }
        self.act(Action::SetKeyboardFocus { surface: None });
        self.keyboard_focus = None;
    }

    /// Gives the keyboard back to a surface.
    pub fn restore_focus(&mut self, surface_id: u32)
        ensures
            final(self)@ == (if old(self)@.id_windows.contains_key(surface_id) {
                let surface = Some(old(self)@.id_windows[surface_id]);
                EwmView { keyboard_focus: surface, ..old(self)@ }.act(
                    ActionView::SetKeyboardFocus { surface },
                ).act(ActionView::SetTextInputFocus { surface })
            } else {
                old(self)@
            }),
    {
        if let Some(window) = self.id_windows.get(&surface_id) {
            let surface: Option<u64> = Some(*window);
            self.keyboard_focus = surface;
            self.act(Action::SetKeyboardFocus { surface });
            self.act(Action::SetTextInputFocus { surface });
        }
    }

    // -- pointer ------------------------------------------------------------

    /// Takes up that the pointer moved. The result says that the cursor has to
    /// be drawn anew.
    pub fn handle_pointer_motion(&mut self, location: PointerLocation) -> (needs_redraw: bool)
        ensures
            needs_redraw,
            final(self)@ == old(self)@.pointer_moved(location),
    {
        self.pointer_location = location;
        self.act(Action::NotifyActivity);
        true
    }

    /// Takes up that the pointer was put somewhere, as a tablet does.
    pub fn handle_pointer_motion_absolute(&mut self, location: PointerLocation) -> (needs_redraw:
        bool)
        ensures
            needs_redraw,
            final(self)@ == old(self)@.pointer_moved(location),
    {
        self.handle_pointer_motion(location)
    }

    fn focus_under_pointer(&mut self, window: Option<WindowHandle>, source: &str)
        ensures
            final(self)@ == old(self)@.focus_under_pointer(window, source@),
    {
        if self.is_locked() {
            return;
        }
        if let Some(w) = window {
            if let Some(id) = self.window_ids.get(&w) {
                let id: u32 = *id;
                self.module.record_focus(id, source, None);
                self.set_focus(id);
                self.keyboard_focus = Some(w);
                self.act(Action::SetKeyboardFocus { surface: Some(w) });
            }
        }
    }

    /// Takes up a pointer button over a window: pressing it focuses the
    /// window, unless the session is locked.
    pub fn handle_pointer_button(&mut self, pressed: bool, window: Option<WindowHandle>)
        ensures
            final(self)@ == old(self)@.button(pressed, window),
    {
        if pressed {
            self.focus_under_pointer(window, "click");
        }
        self.act(Action::NotifyActivity);
    }

    /// Takes up scrolling over a window: it focuses the window, unless the
    /// session is locked.
    pub fn handle_pointer_axis(&mut self, window: Option<WindowHandle>)
        ensures
            final(self)@ == old(self)@.scrolled(window),
    {
        self.focus_under_pointer(window, "scroll");
        self.act(Action::NotifyActivity);
    }
}

/// Whether a new device scrolls naturally: touchpads do, and those are the
/// devices that know of taps.
pub fn handle_device_added(tap_finger_count: u32) -> (natural_scroll: bool)
    ensures
        natural_scroll == (tap_finger_count > 0),
{
    tap_finger_count > 0
}

// ---------------------------------------------------------------------------
// Laws
// ---------------------------------------------------------------------------
/// While the session is locked a key does nothing but go to the lock screen
/// or ask for another terminal: no command of Emacs, no kill combination.
pub proof fn lemma_locked_keyboard(
    s: EwmView,
    ev: KeyEvent,
    layout: usize,
    t: EwmView,
    action: KeyboardAction,
)
    requires
        s.is_locked_spec(),
        s.key_handled(ev, layout, t, action),
    ensures
        action == KeyboardAction::Forward || action is ChangeVt,
        t == (EwmView { actions: t.actions, ..s }),
        t.focused_surface_id == s.focused_surface_id,
        t.module == s.module,
{
}

/// While the session is locked clicks and scrolling do not move the focus.
pub proof fn lemma_locked_pointer(s: EwmView, window: Option<WindowHandle>, source: Seq<char>)
    requires
        s.is_locked_spec(),
    ensures
        s.focus_under_pointer(window, source) == s,
{
}

/// A focus that Emacs asked for before a key came is there when the key is
/// judged: on the surface, and on the keyboard unless a layer surface takes
/// it.
pub proof fn lemma_pending_focus_comes_first(s: EwmView, id: u32)
    requires
        s.module.pending_focus == Some(id),
        s.id_windows.contains_key(id),
        s.focused_surface_id != id,
    ensures
        s.before_key().focused_surface_id == id,
        s.before_key().module.pending_focus is None,
        s.before_key().keyboard_focus == s.before_key().wanted_focus(),
        s.before_key().layer_focus() is None ==> s.before_key().keyboard_focus == Some(
            s.id_windows[id],
        ),
{
}

/// Releasing a key never sets anything off.
pub proof fn lemma_release_forwarded(s: EwmView, ev: KeyEvent)
    requires
        !ev.pressed,
    ensures
        s.verdict(ev) == KeyVerdictView::Forward,
        s.key_judged(ev) == s,
{
}

/// The kill combination works whatever keys Emacs intercepts.
pub proof fn lemma_kill_combo_first(s: EwmView, ev: KeyEvent)
    requires
        ev.pressed,
        kills(ev),
        vt_of_keysym(ev.modified) is None,
    ensures
        s.verdict(ev) == KeyVerdictView::Kill,
{
}

/// Where Emacs has the focus, no key is redirected and none is taken as text.
pub proof fn lemma_emacs_gets_its_keys(s: EwmView, ev: KeyEvent)
    requires
        s.is_focus_on_emacs(),
    ensures
        s.verdict(ev) !is Redirect,
        s.verdict(ev) !is TextInput,
{
}

/// A redirect tells Emacs of no focus change, and the focus that it sets is
/// on a surface of Emacs.
pub proof fn lemma_redirect_is_silent(s: EwmView, t: EwmView)
    requires
        s.redirected(t),
    ensures
        t.module.events == s.module.events,
        t == s || t.emacs_surfaces.contains(t.focused_surface_id),
{
    let r = choose|r: Option<u32>| #[trigger]
        s.emacs_surface_choice(r) && t == match r {
            Some(id) => s.redirect_to(id),
            None => s,
        };
}

/// The mark of a prefix key is set by keys and never cleared by them.
pub proof fn lemma_prefix_mark_kept(s: EwmView, ev: KeyEvent)
    requires
        s.module.in_prefix_sequence,
    ensures
        s.key_judged(ev).module.in_prefix_sequence,
{
}

} // verus!
