//! The events of the loop that drives the hardware, and what comes of each.
use vstd::prelude::*;

use crate::action::ActionView;
use crate::backend::drm::{
    scan_views, to_connect, unplugged, DrmBackendState, DrmMessage, DrmView, ScanEvent,
    SessionEvent,
};
use crate::ewm::{Ewm, EwmView};
use crate::input::{handle_device_added, KeyEvent, KeyboardAction};
use crate::module::PointerLocation;
use crate::space::WindowHandle;

verus! {

/// An event of the loop.
#[allow(inconsistent_fields)]
#[derive(Debug)]
pub enum LoopEvent {
    /// An input device was plugged in.
    DeviceAdded { tap_finger_count: u32 },
    /// A key was pressed or released; `layout` is the keyboard layout
    /// afterwards.
    Key { event: KeyEvent, layout: usize },
    /// The pointer moved to a place, which is clamped to the outputs.
    PointerMotion { location: PointerLocation },
    /// A device put the pointer somewhere.
    PointerMotionAbsolute { location: PointerLocation },
    /// A button was pressed or released, with the window under the pointer.
    PointerButton { pressed: bool, window: Option<WindowHandle> },
    /// Something was scrolled, with the window under the pointer.
    PointerAxis { window: Option<WindowHandle> },
    /// The session was paused or activated.
    Session { event: SessionEvent },
    /// Connectors changed; `found` is what a scan found.
    ConnectorsChanged { found: Vec<ScanEvent> },
    /// A screen cast was asked for; `available` tells whether there is a
    /// service to carry it.
    StartCast { session_id: usize, output_name: String, available: bool },
    /// A screen cast is to be stopped.
    StopCast { session_id: usize },
    /// The service that carries screen casts failed.
    CastServiceFailed,
}

/// What is left to do after an event.
#[derive(Debug)]
pub enum LoopEffect {
    Nothing,
    /// Make the new device scroll naturally.
    EnableNaturalScroll,
    /// Switch to another terminal.
    ChangeVt { vt: i32 },
    /// Send a message to the loop itself.
    Send { message: DrmMessage },
    /// Take the connectors at these places of the scan into use.
    Connect { found: Vec<usize> },
    /// Create a stream of this size and rate.
    CreateCast { session_id: usize, width: i32, height: i32, refresh: u32 },
}

/// What a [`LoopEffect`] holds.
#[verifier::ext_equal]
pub enum LoopEffectView {
    Nothing,
    EnableNaturalScroll,
    ChangeVt { vt: i32 },
    Send { message: DrmMessage },
    Connect { found: Seq<usize> },
    CreateCast { session_id: usize, width: i32, height: i32, refresh: u32 },
}

impl View for LoopEffect {
    type V = LoopEffectView;

    open spec fn view(&self) -> LoopEffectView {
        match self {
            LoopEffect::Nothing => LoopEffectView::Nothing,
            LoopEffect::EnableNaturalScroll => LoopEffectView::EnableNaturalScroll,
            LoopEffect::ChangeVt { vt } => LoopEffectView::ChangeVt { vt: *vt },
            LoopEffect::Send { message } => LoopEffectView::Send { message: *message },
            LoopEffect::Connect { found } => LoopEffectView::Connect { found: found@ },
            LoopEffect::CreateCast {
                session_id,
                width,
                height,
                refresh,
            } => LoopEffectView::CreateCast {
                session_id: *session_id,
                width: *width,
                height: *height,
                refresh: *refresh,
            },
        }
    }
}

/// The state after a key event that asks for the end, or not.
pub open spec fn after_action(e: EwmView, action: KeyboardAction) -> EwmView {
    if action is Shutdown && e.stop_signal {
        e.act(ActionView::StopLoop)
    } else {
        e
    }
}

/// What is left to do after a key event: switch to another terminal, where
/// there is a session.
pub open spec fn action_effect(b: DrmView, action: KeyboardAction) -> LoopEffectView {
    match action {
        KeyboardAction::ChangeVt(vt) if b.session => LoopEffectView::ChangeVt { vt },
        _ => LoopEffectView::Nothing,
    }
}

/// The message that the session's first activation gives rise to.
pub open spec fn init_effect(b: DrmView) -> LoopEffectView {
    if b.device is None && b.init_sender {
        LoopEffectView::Send { message: DrmMessage::InitializeDrm }
    } else {
        LoopEffectView::Nothing
    }
}

/// Whether `after` and `effect` are what comes of an event.
pub open spec fn handled(
    before: (DrmView, EwmView),
    event: LoopEvent,
    after: (DrmView, EwmView),
    effect: LoopEffectView,
) -> bool {
    let (b, e) = before;
    match event {
        LoopEvent::DeviceAdded { tap_finger_count } => after == before && effect == (
        if tap_finger_count > 0 {
            LoopEffectView::EnableNaturalScroll
        } else {
            LoopEffectView::Nothing
        }),
        LoopEvent::Key { event, layout } => after.0 == b && exists|
            t: EwmView,
            action: KeyboardAction,
        | #[trigger]
            e.key_handled(event, layout, t, action) && after.1 == after_action(t, action)
                && effect == action_effect(b, action),
        LoopEvent::PointerMotion { location }
        | LoopEvent::PointerMotionAbsolute { location } => after == (
            b,
            e.pointer_moved(location).queue_redraw_all(),
        ) && effect is Nothing,
        LoopEvent::PointerButton { pressed, window } => after == (b, e.button(pressed, window))
            && effect is Nothing,
        LoopEvent::PointerAxis { window } => after == (b, e.scrolled(window))
            && effect is Nothing,
        LoopEvent::Session { event: SessionEvent::PauseSession } => after == (
            DrmView { paused: true, ..b },
            match b.device {
                Some(v) => e.pause_outputs(v, b.loop_handle),
                None => e,
            },
        ) && effect is Nothing,
        LoopEvent::Session { event: SessionEvent::ActivateSession } => effect == init_effect(b)
            && after == (if b.device is Some {
            (DrmView { paused: false, ..b }, e.queue_redraw_all())
        } else {
            before
        }),
        LoopEvent::ConnectorsChanged { found } => match b.device {
            Some(v) if !b.paused => {
                let s = unplugged(v, e, b.loop_handle, scan_views(found@));
                after == (DrmView { device: Some(s.0), ..b }, s.1.queue_redraw_all()) && effect == (
                LoopEffectView::Connect { found: to_connect(scan_views(found@)) })
            },
            _ => after == (b, e.queue_redraw_all()) && effect == (LoopEffectView::Connect {
                found: Seq::empty(),
            }),
        },
        LoopEvent::StartCast { session_id, output_name, available } => after == before && effect
            == (match crate::dbus::output_named(e.dbus_outputs, output_name@) {
            Some(o) if available && b.device is Some => LoopEffectView::CreateCast {
                session_id,
                width: o.width,
                height: o.height,
                refresh: o.refresh,
            },
            _ => LoopEffectView::Nothing,
        }),
        LoopEvent::StopCast { session_id } => after == (b, e.stop_cast(session_id))
            && effect is Nothing,
        LoopEvent::CastServiceFailed => after == (
            b,
            EwmView { screen_casts: Seq::empty(), ..e },
        ) && effect is Nothing,
    }
}

impl DrmBackendState {
    fn handle_key(&self, ewm: &mut Ewm, event: &KeyEvent, layout: usize) -> (r: LoopEffect)
        ensures
            exists|t: EwmView, action: KeyboardAction| #[trigger]
                old(ewm)@.key_handled(*event, layout, t, action) && final(ewm)@ == after_action(
                    t,
                    action,
                ) && r@ == action_effect(self@, action),
    {
        let action: KeyboardAction = ewm.handle_keyboard_event(event, layout);
        let ghost t = ewm@;
        proof {
            assert(old(ewm)@.key_handled(*event, layout, t, action));
        }
        match action {
            KeyboardAction::Shutdown => {
                ewm.stop();
                LoopEffect::Nothing
            },
            KeyboardAction::ChangeVt(vt) => {
                if self.change_vt() {
                    LoopEffect::ChangeVt { vt }
                } else {
                    LoopEffect::Nothing
                }
            },
            _ => LoopEffect::Nothing,
        }
    }

    /// Takes up an event of the loop, and tells what is left to do.
    pub fn handle_event(&mut self, ewm: &mut Ewm, event: LoopEvent) -> (r: LoopEffect)
        ensures
            handled((old(self)@, old(ewm)@), event, (final(self)@, final(ewm)@), r@),
    {
        match event {
            LoopEvent::DeviceAdded { tap_finger_count } => {
                if handle_device_added(tap_finger_count) {
                    LoopEffect::EnableNaturalScroll
                } else {
                    LoopEffect::Nothing
                }
            },
            LoopEvent::Key { event, layout } => self.handle_key(ewm, &event, layout),
            LoopEvent::PointerMotion { location } => {
                if ewm.handle_pointer_motion(location) {
                    ewm.queue_redraw_all();
                }
                LoopEffect::Nothing
            },
            LoopEvent::PointerMotionAbsolute { location } => {
                if ewm.handle_pointer_motion_absolute(location) {
                    ewm.queue_redraw_all();
                }
                LoopEffect::Nothing
            },
            LoopEvent::PointerButton { pressed, window } => {
                ewm.handle_pointer_button(pressed, window);
                LoopEffect::Nothing
            },
            LoopEvent::PointerAxis { window } => {
                ewm.handle_pointer_axis(window);
                LoopEffect::Nothing
            },
            LoopEvent::Session { event } => match self.handle_session_event(event, ewm) {
                Some(message) => LoopEffect::Send { message },
                None => LoopEffect::Nothing,
            },
            LoopEvent::ConnectorsChanged { found } => {
                let found: Vec<usize> = self.on_device_changed(ewm, &found);
                ewm.queue_redraw_all();
                LoopEffect::Connect { found }
            },
            LoopEvent::StartCast { session_id, output_name, available } => {
                match self.start_cast(ewm, output_name.as_str(), available) {
                    Some((width, height, refresh)) => LoopEffect::CreateCast {
                        session_id,
                        width,
                        height,
                        refresh,
                    },
                    None => LoopEffect::Nothing,
                }
            },
            LoopEvent::StopCast { session_id } => {
                ewm.stop_cast(session_id);
                LoopEffect::Nothing
            },
            LoopEvent::CastServiceFailed => {
                ewm.clear_casts();
                LoopEffect::Nothing
            },
        }
    }
}

/// While the session is locked no key, no pointer event and no screen cast
/// moves the focus or lifts the lock.
pub proof fn lemma_locked_focus_stays(
    before: (DrmView, EwmView),
    event: LoopEvent,
    after: (DrmView, EwmView),
    effect: LoopEffectView,
)
    requires
        handled(before, event, after, effect),
        before.1.is_locked_spec(),
        event is PointerMotion || event is PointerMotionAbsolute || event is PointerButton
            || event is PointerAxis || event is StopCast || event is StartCast || event is Key,
    ensures
        after.1.focused_surface_id == before.1.focused_surface_id,
        after.1.lock_state == before.1.lock_state,
{
}

} // verus!
