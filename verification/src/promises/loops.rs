//! The turns of the loop and its events.
use vstd::prelude::*;

use crate::action::ActionView;
use crate::backend::drm::{scan_views, to_connect, DrmView, ScanEventView, SessionEvent};
use crate::backend::events::{handled, LoopEffectView, LoopEvent};
use crate::backend::winit::{window_handled, WindowEvent};
use crate::backend::BackendView;
use crate::commands::{awaits_display, batch_len};
use crate::ewm::EwmView;
use crate::geometry::{Size, Transform};
use crate::im_relay::ImEvent;
use crate::input::KeyboardAction;
use crate::module::ModuleCommand;
use crate::promises::redraws::all_asked_to_draw;
use crate::space::{OutputHandle, OutputView, Placed};
use crate::state::resumed;

verus! {

// ---------------------------------------------------------------------------
// Turns
// ---------------------------------------------------------------------------
/// Whether the display side has to act on a command before the next is carried
/// out.
pub open spec fn needs_display(cmd: ModuleCommand) -> bool {
    cmd is ConfigureOutput || cmd is ConfigureXkb || cmd is GetState
}

/// Commands are carried out together up to the first that the display side has
/// to act on, and with it; all of them where there is none.
pub proof fn lemma_batches_of_commands(cmds: Seq<ModuleCommand>)
    ensures
        batch_len(cmds) <= cmds.len(),
        cmds.len() > 0 ==> batch_len(cmds) > 0,
        forall|i: int| 0 <= i < batch_len(cmds) - 1 ==> !needs_display(#[trigger] cmds[i]),
        batch_len(cmds) < cmds.len() ==> needs_display(cmds[batch_len(cmds) - 1]),
        awaits_display(cmds) <==> exists|i: int|
            0 <= i < cmds.len() && needs_display(#[trigger] cmds[i]),
    decreases cmds.len(),
{
    if cmds.len() > 0 {
        let rest = cmds.drop_first();
        lemma_batches_of_commands(rest);
        let n = batch_len(cmds) as int;
        if !needs_display(cmds[0]) {
            assert(n == 1 + batch_len(rest));
            assert forall|i: int| 0 <= i < n - 1 implies !needs_display(#[trigger] cmds[i]) by {
                if i > 0 {
                    assert(rest[i - 1] == cmds[i]);
                }
            }
            if rest.len() > 0 {
                assert(rest[batch_len(rest) - 1] == cmds[n - 1]);
            }
            if awaits_display(cmds) {
                assert(needs_display(cmds[n - 1]));
            }
            if exists|i: int| 0 <= i < cmds.len() && needs_display(#[trigger] cmds[i]) {
                let i = choose|i: int| 0 <= i < cmds.len() && needs_display(#[trigger] cmds[i]);
                assert(rest[i - 1] == cmds[i]);
                assert(awaits_display(rest));
            }
        } else {
            assert(needs_display(cmds[0]));
        }
    }
}

/// A turn takes the commands of a batch off the queue and leaves the others
/// waiting, in their order. It is at its end exactly where no command was left
/// for the display side to act on.
pub proof fn lemma_turn_takes_a_batch(b: BackendView, e: EwmView, im_events: Seq<ImEvent>)
    ensures
        resumed(b, e, im_events).2 <==> forall|i: int|
            0 <= i < e.module.commands.len() ==> !needs_display(#[trigger] e.module.commands[i]),
        !resumed(b, e, im_events).2 ==> resumed(b, e, im_events).0 == b,
{
    lemma_batches_of_commands(e.module.commands);
}

/// A request of Emacs to stop stops the loop at the start of a turn, where the
/// loop can be stopped, and nothing else does.
pub proof fn lemma_when_the_loop_stops(s: EwmView)
    ensures
        s.check_stop().actions == (if s.module.stop_requested && s.stop_signal {
            s.actions.push(ActionView::StopLoop)
        } else {
            s.actions
        }),
        s.check_stop() == (EwmView { actions: s.check_stop().actions, ..s }),
{
}

/// The buffers of all surfaces that are waiting are imported, in their order,
/// where the backend imports; nothing waits afterwards in any case.
pub proof fn lemma_waiting_imports(s: EwmView, imports: bool)
    ensures
        ({
            let t = s.take_imports(imports);
            let n = s.actions.len() as int;
            &&& t.pending_early_imports.len() == 0
            &&& !imports ==> t.actions == s.actions
            &&& imports ==> t.actions.len() == n + s.pending_early_imports.len()
            &&& imports ==> forall|k: int|
                0 <= k < s.pending_early_imports.len() ==> #[trigger] t.actions[n + k] == (
                ActionView::EarlyImport { surface: s.pending_early_imports[k] })
            &&& t == (EwmView {
                pending_early_imports: t.pending_early_imports,
                actions: t.actions,
                ..s
            })
        }),
{
    lemma_imported(
        EwmView { pending_early_imports: Seq::empty(), ..s },
        s.pending_early_imports,
    );
}

proof fn lemma_imported(s: EwmView, surfaces: Seq<u64>)
    ensures
        ({
            let t = s.import_all(surfaces);
            &&& t == (EwmView { actions: t.actions, ..s })
            &&& t.actions.len() == s.actions.len() + surfaces.len()
            &&& forall|k: int|
                0 <= k < surfaces.len() ==> #[trigger] t.actions[s.actions.len() + k] == (
                ActionView::EarlyImport { surface: surfaces[k] })
        }),
    decreases surfaces.len(),
{
    if surfaces.len() > 0 {
        let rest = surfaces.drop_last();
        lemma_imported(s, rest);
        let t = s.import_all(surfaces);
        assert forall|k: int| 0 <= k < surfaces.len() implies #[trigger] t.actions[s.actions.len()
            + k] == (ActionView::EarlyImport { surface: surfaces[k] }) by {
            if k < rest.len() {
                assert(t.actions[s.actions.len() + k] == s.import_all(
                    rest,
                ).actions[s.actions.len() + k]);
            }
        }
    }
}

// ---------------------------------------------------------------------------
// Events of the hardware
// ---------------------------------------------------------------------------
/// A new device scrolls naturally where it is a touchpad: where it knows taps.
pub proof fn lemma_new_device(
    before: (DrmView, EwmView),
    tap_finger_count: u32,
    after: (DrmView, EwmView),
    effect: LoopEffectView,
)
    requires
        handled(before, LoopEvent::DeviceAdded { tap_finger_count }, after, effect),
    ensures
        after == before,
        effect is EnableNaturalScroll <==> tap_finger_count != 0,
        tap_finger_count == 0 ==> effect is Nothing,
{
}

/// The pointer moves, and everything is drawn anew.
pub proof fn lemma_pointer_moves(
    before: (DrmView, EwmView),
    location: crate::module::PointerLocation,
    after: (DrmView, EwmView),
    effect: LoopEffectView,
)
    requires
        handled(before, LoopEvent::PointerMotion { location }, after, effect) || handled(
            before,
            LoopEvent::PointerMotionAbsolute { location },
            after,
            effect,
        ),
    ensures
        after.0 == before.0,
        after.1.pointer_location == location,
        after.1.actions == before.1.actions.push(ActionView::NotifyActivity),
        all_asked_to_draw(before.1.output_state, after.1.output_state),
        effect is Nothing,
{
}

/// A key that asks for a terminal switches to it where there is a session, and
/// one that asks for the end stops the loop where it can be stopped; no other
/// key does either.
pub proof fn lemma_key_effects(
    before: (DrmView, EwmView),
    ev: crate::input::KeyEvent,
    layout: usize,
    after: (DrmView, EwmView),
    effect: LoopEffectView,
)
    requires
        handled(before, LoopEvent::Key { event: ev, layout }, after, effect),
    ensures
        after.0 == before.0,
        exists|t: EwmView, action: KeyboardAction| #[trigger]
            before.1.key_handled(ev, layout, t, action) && {
                &&& after.1.actions == (if action is Shutdown && t.stop_signal {
                    t.actions.push(ActionView::StopLoop)
                } else {
                    t.actions
                })
                &&& after.1 == (EwmView { actions: after.1.actions, ..t })
                &&& match action {
                    KeyboardAction::ChangeVt(vt) => if before.0.session {
                        effect == (LoopEffectView::ChangeVt { vt })
                    } else {
                        effect is Nothing
                    },
                    _ => effect is Nothing,
                }
            },
{
    let (t, action) = choose|t: EwmView, action: KeyboardAction| #[trigger]
        before.1.key_handled(ev, layout, t, action) && after.1
            == crate::backend::events::after_action(t, action) && effect
            == crate::backend::events::action_effect(before.0, action);
    assert(before.1.key_handled(ev, layout, t, action));
}

/// A session that is activated draws again and anew, and the first time has the
/// hardware set up; one that is paused draws no more.
pub proof fn lemma_session_changes(
    before: (DrmView, EwmView),
    event: SessionEvent,
    after: (DrmView, EwmView),
    effect: LoopEffectView,
)
    requires
        handled(before, LoopEvent::Session { event }, after, effect),
    ensures
        event is PauseSession ==> after.0.paused && effect is Nothing,
        event is ActivateSession && before.0.device is Some ==> !after.0.paused && effect is Nothing
            && all_asked_to_draw(before.1.output_state, after.1.output_state),
        event is ActivateSession && before.0.device is None ==> after == before,
        event is ActivateSession && before.0.device is None && before.0.init_sender
            ==> effect is Send,
        after.0.device == before.0.device,
        after.1.module == before.1.module,
{
    if event is PauseSession {
        if let Some(v) = before.0.device {
            lemma_pause_keeps(before.1, v, before.0.loop_handle);
        }
    }
}

proof fn lemma_pause_keeps(
    s: EwmView,
    v: Seq<crate::backend::drm::DrmSurfaceView>,
    loop_handle: bool,
)
    ensures
        s.pause_outputs(v, loop_handle).module == s.module,
    decreases v.len(),
{
    if v.len() > 0 {
        lemma_pause_keeps(s, v.drop_last(), loop_handle);
    }
}

/// A scan has the connectors taken into use that are plugged in and have a CRTC,
/// in their order, and no others.
pub proof fn lemma_connectors_to_use(events: Seq<ScanEventView>)
    requires
        events.len() <= usize::MAX,
    ensures
        forall|i: int|
            0 <= i < events.len() ==> (to_connect(events).contains(i as usize) <==> match
                #[trigger] events[i] {
                ScanEventView::Connected { connector, crtc, output, ready } => crtc is Some,
                _ => false,
            }),
        forall|k: int| 0 <= k < to_connect(events).len() ==> #[trigger] to_connect(events)[k]
            < events.len(),
        forall|j: int, k: int|
            0 <= j < k < to_connect(events).len() ==> #[trigger] to_connect(events)[j]
                < #[trigger] to_connect(events)[k],
    decreases events.len(),
{
    if events.len() > 0 {
        let rest = events.drop_last();
        lemma_connectors_to_use(rest);
        let before = to_connect(rest);
        let all = to_connect(events);
        let n = events.len() - 1;
        assert(events[n] == events.last());
        assert forall|i: int| 0 <= i < events.len() implies (all.contains(i as usize) <==> match
            #[trigger] events[i] {
            ScanEventView::Connected { connector, crtc, output, ready } => crtc is Some,
            _ => false,
        }) by {
            if i < n {
                assert(rest[i] == events[i]);
                if all.contains(i as usize) {
                    let k = choose|k: int| 0 <= k < all.len() && all[k] == i as usize;
                    if k < before.len() {
                        assert(before[k] == i as usize);
                    }
                    assert(before.contains(i as usize));
                }
                if before.contains(i as usize) {
                    let k = choose|k: int| 0 <= k < before.len() && before[k] == i as usize;
                    assert(all[k] == i as usize);
                }
            } else {
                if all.contains(i as usize) {
                    let k = choose|k: int| 0 <= k < all.len() && all[k] == i as usize;
                    if k < before.len() {
                        assert(before[k] < rest.len());
                    }
                }
                if all.len() > before.len() {
                    assert(all[all.len() - 1] == i as usize);
                }
            }
        }
        assert forall|k: int| 0 <= k < all.len() implies #[trigger] all[k] < events.len() by {
            if k < before.len() {
                assert(all[k] == before[k]);
            }
        }
        assert forall|j: int, k: int| 0 <= j < k < all.len() implies #[trigger] all[j]
            < #[trigger] all[k] by {
            assert(all[j] == before[j]);
            if k < before.len() {
                assert(all[k] == before[k]);
            }
        }
    }
}

/// While the session is paused, or before the hardware is set up, a change of
/// connectors only has everything drawn anew.
pub proof fn lemma_connectors_change(
    before: (DrmView, EwmView),
    found: Vec<crate::backend::drm::ScanEvent>,
    after: (DrmView, EwmView),
    effect: LoopEffectView,
)
    requires
        handled(before, LoopEvent::ConnectorsChanged { found }, after, effect),
    ensures
        before.0.paused || before.0.device is None ==> after.0 == before.0 && all_asked_to_draw(
            before.1.output_state,
            after.1.output_state,
        ) && effect == (LoopEffectView::Connect { found: Seq::empty() }),
        !before.0.paused && before.0.device is Some ==> after.0.device is Some && effect == (
        LoopEffectView::Connect { found: to_connect(scan_views(found@)) }),
{
}

/// A screen cast is created exactly where the service is there, the hardware is
/// set up and the output is known, and then with its size and rate.
pub proof fn lemma_cast_is_created(
    before: (DrmView, EwmView),
    session_id: usize,
    output_name: String,
    available: bool,
    after: (DrmView, EwmView),
    effect: LoopEffectView,
)
    requires
        handled(
            before,
            LoopEvent::StartCast { session_id, output_name, available },
            after,
            effect,
        ),
    ensures
        after == before,
        effect is CreateCast <==> available && before.0.device is Some && exists|i: int|
            0 <= i < before.1.dbus_outputs.len() && (#[trigger] before.1.dbus_outputs[i]).name
                == output_name@,
        effect is CreateCast || effect is Nothing,
        effect matches LoopEffectView::CreateCast { session_id: id, width, height, refresh } ==> {
            &&& id == session_id
            &&& exists|i: int|
                0 <= i < before.1.dbus_outputs.len() && {
                    let o = #[trigger] before.1.dbus_outputs[i];
                    o.name == output_name@ && o.width == width && o.height == height && o.refresh
                        == refresh
                }
        },
{
    lemma_cast_output(before.1.dbus_outputs, output_name@);
}

proof fn lemma_cast_output(outputs: Seq<crate::dbus::OutputInfoView>, name: Seq<char>)
    ensures
        match crate::dbus::output_named(outputs, name) {
            Some(o) => exists|i: int|
                0 <= i < outputs.len() && #[trigger] outputs[i] == o && o.name == name && forall|
                    j: int,
                |
                    0 <= j < i ==> (#[trigger] outputs[j]).name != name,
            None => forall|j: int| 0 <= j < outputs.len() ==> (#[trigger] outputs[j]).name != name,
        },
    decreases outputs.len(),
{
    if outputs.len() > 0 {
        if outputs[0].name == name {
            assert(outputs[0] == crate::dbus::output_named(outputs, name)->0);
        } else {
            let rest = outputs.drop_first();
            lemma_cast_output(rest, name);
            match crate::dbus::output_named(rest, name) {
                Some(o) => {
                    let i = choose|i: int|
                        0 <= i < rest.len() && #[trigger] rest[i] == o && o.name == name && forall|
                            j: int,
                        |
                            0 <= j < i ==> (#[trigger] rest[j]).name != name;
                    assert(outputs[i + 1] == o);
                    assert forall|j: int| 0 <= j < i + 1 implies (#[trigger] outputs[j]).name
                        != name by {
                        if j > 0 {
                            assert(rest[j - 1] == outputs[j]);
                        }
                    }
                },
                None => {
                    assert forall|j: int| 0 <= j < outputs.len() implies (
                    #[trigger] outputs[j]).name != name by {
                        if j > 0 {
                            assert(rest[j - 1] == outputs[j]);
                        }
                    }
                },
            }
        }
    }
}

// ---------------------------------------------------------------------------
// Events of the window
// ---------------------------------------------------------------------------
/// The window is an output at the origin, turned over, of its own size and with
/// all of it free.
pub proof fn lemma_window_is_an_output(s: EwmView, handle: OutputHandle, size: Size)
    ensures
        ({
            let t = s.window_opened(handle, size);
            let o = t.space.outputs.last();
            &&& t.space.outputs.drop_last() == s.space.outputs
            &&& o.handle == handle
            &&& o.name == "winit"@
            &&& o.loc.x == 0 && o.loc.y == 0
            &&& o.mode == size && o.size == size
            &&& o.transform == Transform::Flipped180
            &&& o.scale == 0x3ff0_0000_0000_0000
            &&& o.zone.loc.x == 0 && o.zone.loc.y == 0 && o.zone.size == size
            &&& t.output_size == size
            &&& t.actions == s.actions.push(
                ActionView::MapOutput { output: handle, x: 0, y: 0 },
            )
        }),
{
    assert(s.window_opened(handle, size).space.outputs.drop_last() =~= s.space.outputs);
}

proof fn lemma_all_configured(s: EwmView, elements: Seq<Placed>, size: Size)
    ensures
        ({
            let t = s.configure_all(elements, size);
            &&& t == (EwmView { actions: t.actions, ..s })
            &&& t.actions.len() == s.actions.len() + elements.len()
            &&& forall|k: int|
                0 <= k < elements.len() ==> #[trigger] t.actions[s.actions.len() + k] == (
                ActionView::Configure { window: elements[k].window, w: size.w, h: size.h })
        }),
    decreases elements.len(),
{
    if elements.len() > 0 {
        let rest = elements.drop_last();
        lemma_all_configured(s, rest, size);
        let t = s.configure_all(elements, size);
        assert forall|k: int| 0 <= k < elements.len() implies #[trigger] t.actions[s.actions.len()
            + k] == (ActionView::Configure { window: elements[k].window, w: size.w, h: size.h }) by {
            if k < rest.len() {
                assert(t.actions[s.actions.len() + k] == s.configure_all(
                    rest,
                    size,
                ).actions[s.actions.len() + k]);
            }
        }
    }
}

/// A new size of the window is that of its output and of all, and every window
/// of the space is told it.
pub proof fn lemma_window_gets_a_size(s: EwmView, i: int, size: Size)
    requires
        0 <= i < s.space.outputs.len(),
    ensures
        ({
            let t = s.window_resized(s.space.outputs[i].handle, size);
            let n = s.actions.len() as int;
            &&& t.output_size == size
            &&& t.space.outputs[i].mode == size && t.space.outputs[i].size == size
            &&& t.space.outputs[i].loc == s.space.outputs[i].loc
            &&& t.space.elements == s.space.elements
            &&& t.actions.len() == n + s.space.elements.len()
            &&& forall|k: int|
                0 <= k < s.space.elements.len() ==> #[trigger] t.actions[n + k] == (
                ActionView::Configure {
                    window: s.space.elements[k].window,
                    w: size.w,
                    h: size.h,
                })
        }),
{
    let handle = s.space.outputs[i].handle;
    lemma_all_configured(
        EwmView {
            space: s.space.change_output(
                handle,
                |o: OutputView| OutputView { mode: size, size, ..o },
            ),
            output_size: size,
            ..s
        },
        s.space.elements,
        size,
    );
}

/// A window that gets the focus gives it to the focused surface, for keys and
/// for text; one that loses it has the keys released that are held down.
pub proof fn lemma_window_focus(s: EwmView, focused: bool, pressed: Seq<u32>)
    ensures
        ({
            let t = s.window_focused_is(focused, pressed);
            &&& focused && s.id_windows.contains_key(s.focused_surface_id) ==> {
                let surface = Some(s.id_windows[s.focused_surface_id]);
                &&& t.keyboard_focus == surface
                &&& t.actions == s.actions.push(ActionView::SetKeyboardFocus { surface }).push(
                    ActionView::SetTextInputFocus { surface },
                )
            }
            &&& focused && !s.id_windows.contains_key(s.focused_surface_id) ==> t == s
            &&& !focused && pressed.len() == 0 ==> t == s
            &&& !focused && pressed.len() > 0 ==> {
                &&& t.keyboard_focus is None
                &&& t.actions.len() == s.actions.len() + pressed.len() + 1
                &&& t.actions.last() == (ActionView::SetKeyboardFocus { surface: None })
                &&& forall|k: int|
                    0 <= k < pressed.len() ==> #[trigger] t.actions[s.actions.len() + k] == (
                    ActionView::ReleaseKey { keycode: pressed[k] })
            }
            &&& t.focused_surface_id == s.focused_surface_id
        }),
{
    crate::promises::focus::lemma_keys_are_released(s, pressed);
}

/// The loop of the window ends when the window is to be closed, when the client
/// is gone, and with the key that ends the compositor, and not otherwise.
pub proof fn lemma_when_the_window_loop_ends(
    e: EwmView,
    output: OutputHandle,
    event: WindowEvent,
    after: (bool, EwmView),
)
    requires
        window_handled((true, e), output, event, after),
    ensures
        match event {
            WindowEvent::CloseRequested => !after.0 && after.1 == e,
            WindowEvent::ClientExited => !after.0 && after.1 == e,
            WindowEvent::Key { event, layout } => exists|action: KeyboardAction| #[trigger]
                e.key_handled(event, layout, after.1, action) && after.0 == (action !is Shutdown),
            _ => after.0,
        },
{
    if let WindowEvent::Key { event, layout } = event {
        let (t, action) = choose|t: EwmView, action: KeyboardAction| #[trigger]
            e.key_handled(event, layout, t, action) && after == (!(action is Shutdown), t);
        assert(e.key_handled(event, layout, after.1, action));
    }
}

} // verus!
