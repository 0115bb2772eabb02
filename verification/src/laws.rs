//! What every operation keeps: the state stays well-formed, Emacs reads the
//! focus that the compositor has, and no id is given twice.
use vstd::prelude::*;

use crate::action::ActionView;
use crate::backend::drm::{
    connector_output, next_cycle, scan_views, sessions_casting, surface_on, unplugged,
    ConnectorView, DrmSurfaceView, DrmView, ScanEventView,
};
use crate::backend::events::{
    action_effect, after_action, handled, LoopEffectView, LoopEvent,
};
use crate::backend::headless::{
    counts_can_grow, lemma_queued_unique, lemma_render_names, names_unique, new_output,
    queued_names, render_names, render_one, virtual_named, VirtualOutputView,
};
use crate::backend::winit::{window_handled, WindowEvent};
use crate::backend::BackendView;
use crate::commands::{
    awaits_display, batch_len, lemma_batch, lemma_commands_in_parts, primary_view,
};
use crate::event::text_view;
use crate::ewm::{
    is_emacs_pid, lemma_redraw_requested, lemma_state_read_back, state_in, EwmView,
    OutputEntry,
};
use crate::geometry::{Point, Rectangle, Size};
use crate::im_relay::ImEvent;
use crate::input::{KeyEvent, KeyVerdictView, KeyboardAction};
use crate::layer_shell::{LayerCommit, RequestedOutput};
use crate::layers::{Layer, LayerPlace, LayerSurfaceView};
use crate::module::{ModuleCommand, ModuleView, PointerLocation, SurfaceView};
use crate::output::{
    refresh_interval_spec, LockRenderState, LockState, OutputChange, OutputState, VideoMode,
    DEFAULT_REFRESH_INTERVAL_US,
};
use crate::outputs::{configured, infos_moved, Measured};
use crate::redraw::{RedrawState, RenderOutcome};
use crate::space::{
    first_output, lemma_filter_pairs, lemma_first_output, lemma_map_element, lemma_unmap_elem,
    lemma_unmap_output, OutputHandle, OutputView, Placed, SpaceView, WindowHandle,
};
use crate::state::{concluded, resumed, turn};
use crate::surfaces::offscreen;

verus! {

impl EwmView {
    /// Emacs reads the focus that the compositor has.
    pub open spec fn focus_published(self) -> bool {
        self.module.focused_id == self.focused_surface_id
    }

    /// The commands, imports and keyboard focus that wait are the same after.
    pub open spec fn leaves_work(self, after: EwmView) -> bool {
        &&& after.module.commands == self.module.commands
        &&& after.pending_early_imports == self.pending_early_imports
        &&& after.keyboard_focus_dirty == self.keyboard_focus_dirty
    }

    /// What an operation keeps, between the state before and after it.
    pub open spec fn kept(self, after: EwmView) -> bool {
        &&& self.wf() ==> after.wf()
        &&& self.focus_published() ==> after.focus_published()
        &&& self.next_surface_id <= after.next_surface_id
    }
}

/// The state at the start is well-formed.
pub proof fn lemma_initial_wf()
    ensures
        EwmView::initial().wf(),
        EwmView::initial().focus_published(),
{
}

// ---------------------------------------------------------------------------
// Windows and their places
// ---------------------------------------------------------------------------
proof fn lemma_elements_after_map(s: SpaceView, window: WindowHandle, at: Point, i: int)
    requires
        0 <= i < s.map_element(window, at).elements.len(),
    ensures
        ({
            let e = s.map_element(window, at).elements[i];
            e.window == window || exists|j: int| 0 <= j < s.elements.len() && s.elements[j] == e
        }),
{
    let keep = |e: Placed| e.window != window;
    let f = s.elements.filter(keep);
    if i < f.len() {
        lemma_filter_has(s.elements, keep, i);
    }
}

proof fn lemma_filter_has<A>(s: Seq<A>, keep: spec_fn(A) -> bool, i: int)
    requires
        0 <= i < s.filter(keep).len(),
    ensures
        keep(s.filter(keep)[i]),
        exists|j: int| 0 <= j < s.len() && s[j] == s.filter(keep)[i],
    decreases s.len(),
{
    reveal(Seq::filter);
    let rest = s.drop_last().filter(keep);
    if i < rest.len() {
        lemma_filter_has(s.drop_last(), keep, i);
        let j = choose|j: int| 0 <= j < s.drop_last().len() && s.drop_last()[j] == rest[i];
        assert(s[j] == rest[i]);
    } else {
        assert(s[s.len() - 1] == s.filter(keep)[i]);
    }
}

/// Placing a tracked window keeps what is kept.
pub proof fn lemma_place_kept(s: EwmView, window: WindowHandle, at: Point)
    requires
        s.wf() ==> s.window_ids.contains_key(window),
    ensures
        s.kept(EwmView { space: s.space.map_element(window, at), ..s }),
{
    if s.wf() {
        let t = EwmView { space: s.space.map_element(window, at), ..s };
        lemma_map_element(s.space, window, at);
        assert forall|i: int| 0 <= i < t.space.elements.len() implies t.window_ids.contains_key(
            (#[trigger] t.space.elements[i]).window,
        ) by {
            lemma_elements_after_map(s.space, window, at, i);
        }
    }
}

/// A toplevel that was not tracked gets an id that no surface had before, and
/// keeps what is kept.
pub proof fn lemma_new_toplevel_kept(
    s: EwmView,
    window: WindowHandle,
    client_pid: Option<i32>,
    app: Seq<char>,
)
    requires
        s.wf(),
        s.next_surface_id < u32::MAX,
        !s.window_ids.contains_key(window),
    ensures
        s.kept(s.new_toplevel(window, client_pid, app)),
        !s.id_windows.contains_key(s.next_surface_id),
        s.new_toplevel(window, client_pid, app).id_windows == s.id_windows.insert(
            s.next_surface_id,
            window,
        ),
        s.new_toplevel(window, client_pid, app).next_surface_id == s.next_surface_id + 1,
        s.new_toplevel(window, client_pid, app).focused_surface_id == s.focused_surface_id,
{
    let is_emacs = is_emacs_pid(s.emacs_pid, client_pid);
    let a = s.greet(window).track(window, is_emacs).take_frame_output();
    assert(a.wf());
    let target = match s.frame_output() {
        Some(name) => a.space.output_named(name),
        None => None,
    };
    let at = match target {
        Some(o) => o.zone_origin(),
        None => offscreen(),
    };
    lemma_place_kept(a, window, at);
}

/// A window that goes keeps what is kept; no table and not the space has it
/// afterwards, and its id is no longer in use.
pub proof fn lemma_toplevel_gone_kept(s: EwmView, window: WindowHandle)
    requires
        s.wf(),
        s.space.element_location(window) is Some,
    ensures
        s.kept(s.toplevel_gone(window)),
        !s.toplevel_gone(window).window_ids.contains_key(window),
        !s.toplevel_gone(window).space.has_element(window),
        s.window_ids.contains_key(window) ==> {
            let id = s.window_ids[window];
            let t = s.toplevel_gone(window);
            &&& !t.id_windows.contains_key(id)
            &&& !t.surface_info.contains_key(id)
            &&& !t.surface_views.contains_key(id)
            &&& !t.emacs_surfaces.contains(id)
        },
{
    let t = s.toplevel_gone(window);
    lemma_unmap_elem(s.space, window);
    let keep = |e: Placed| e.window != window;
    assert forall|i: int| 0 <= i < t.space.elements.len() implies t.window_ids.contains_key(
        (#[trigger] t.space.elements[i]).window,
    ) by {
        lemma_filter_has(s.space.elements, keep, i);
        let j = choose|j: int|
            0 <= j < s.space.elements.len() && s.space.elements[j] == t.space.elements[i];
        assert(s.window_ids.contains_key(s.space.elements[j].window));
    }
}

/// A change of a surface's description keeps what is kept.
pub proof fn lemma_surface_described_kept(
    s: EwmView,
    window: WindowHandle,
    app: Seq<char>,
    title: Seq<char>,
)
    ensures
        s.kept(s.surface_described(window, app, title)),
{
}

// ---------------------------------------------------------------------------
// Commands
// ---------------------------------------------------------------------------
/// A request for a redraw keeps what is kept.
pub proof fn lemma_queue_redraw_kept(s: EwmView, output: OutputHandle)
    ensures
        s.kept(s.queue_redraw_all()),
        s.kept(s.queue_redraw(output)),
{
}

/// A change of one output's state keeps what is kept.
pub proof fn lemma_set_output_state_kept(s: EwmView, output: OutputHandle, state: OutputState)
    ensures
        s.kept(s.set_output_state(output, state)),
{
}

/// A move of the focus to a window keeps what is kept, and both sides know of
/// it.
pub proof fn lemma_focus_kept(
    s: EwmView,
    id: u32,
    notify: bool,
    source: Seq<char>,
    context: Option<Seq<char>>,
)
    ensures
        s.kept(s.focus_from(id, notify, source, context)),
        s.kept(s.set_focus(id)),
        s.focus_from(id, notify, source, context).focused_surface_id == id,
        s.focus_from(id, notify, source, context).focus_published(),
        s.focus_from(id, notify, source, context).keyboard_focus_dirty,
{
}

proof fn lemma_show_kept(s: EwmView, id: u32, at: Point, w: i32, h: i32)
    requires
        s.id_windows.contains_key(id),
    ensures
        s.kept(s.show(s.id_windows[id], at, w, h)),
{
    lemma_place_kept(s, s.id_windows[id], at);
}

/// Every command of Emacs keeps what is kept.
pub proof fn lemma_command_kept(s: EwmView, cmd: ModuleCommand)
    ensures
        s.kept(s.run_command(cmd)),
{
    match cmd {
        ModuleCommand::Layout { id, x, y, w, h } => {
            lemma_layout_kept(s, id, x, y, w, h);
        },
        ModuleCommand::Views { id, views: list } => {
            lemma_apply_views_kept(s, id, list@);
        },
        ModuleCommand::Hide { id } => {
            lemma_hide_kept(s, id);
        },
        ModuleCommand::AssignOutput { id, output } => {
            if s.id_windows.contains_key(id) && s.space.output_named(output@) is Some {
                let o = s.space.output_named(output@)->0;
                lemma_show_kept(s, id, o.loc, o.size.w, o.size.h);
                lemma_queue_redraw_kept(s.show(s.id_windows[id], o.loc, o.size.w, o.size.h), 0);
            }
        },
        ModuleCommand::WarpPointer { location } => {
            lemma_queue_redraw_kept(
                EwmView { pointer_location: location, ..s }.act(
                    ActionView::WarpPointer { location },
                ),
                0,
            );
        },
        ModuleCommand::SwitchLayout { layout } => {},
        _ => {},
    }
}

proof fn lemma_layout_kept(s: EwmView, id: u32, x: i32, y: i32, w: u32, h: u32)
    ensures
        s.kept(s.layout(id, x, y, w, h)),
{
    if s.id_windows.contains_key(id) {
        lemma_show_kept(s, id, Point { x, y }, w as i32, h as i32);
        lemma_queue_redraw_kept(
            s.show(s.id_windows[id], Point { x, y }, w as i32, h as i32),
            0,
        );
    }
}

proof fn lemma_apply_views_kept(s: EwmView, id: u32, list: Seq<SurfaceView>)
    ensures
        s.kept(s.apply_views(id, list)),
{
    if s.id_windows.contains_key(id) {
        let t = match primary_view(list) {
            Some(v) => {
                lemma_show_kept(s, id, Point { x: v.x, y: v.y }, v.w as i32, v.h as i32);
                s.show(s.id_windows[id], Point { x: v.x, y: v.y }, v.w as i32, v.h as i32)
            },
            None => s,
        };
        let u = EwmView { surface_views: t.surface_views.insert(id, list), ..t };
        assert(t.kept(u));
        lemma_queue_redraw_kept(u, 0);
    }
}

proof fn lemma_hide_kept(s: EwmView, id: u32)
    ensures
        s.kept(s.hide_surface(id)),
{
    if s.id_windows.contains_key(id) {
        lemma_place_kept(s, s.id_windows[id], offscreen());
    }
}

/// Commands carried out one after the other keep what is kept.
pub proof fn lemma_commands_kept(s: EwmView, cmds: Seq<ModuleCommand>)
    ensures
        s.kept(s.run_commands(cmds)),
    decreases cmds.len(),
{
    if cmds.len() > 0 {
        lemma_commands_kept(s, cmds.drop_last());
        lemma_command_kept(s.run_commands(cmds.drop_last()), cmds.last());
    }
}

proof fn lemma_commands_add_none(s: EwmView, cmds: Seq<ModuleCommand>)
    ensures
        s.run_commands(cmds).module.commands == s.module.commands,
    decreases cmds.len(),
{
    if cmds.len() > 0 {
        lemma_commands_add_none(s, cmds.drop_last());
    }
}

// ---------------------------------------------------------------------------
// Focus and keys
// ---------------------------------------------------------------------------
/// Bringing the keyboard focus in step keeps what is kept.
pub proof fn lemma_sync_kept(s: EwmView)
    ensures
        s.kept(s.sync_keyboard_focus()),
{
}

/// After the keyboard focus was brought in step nothing is left to do, and
/// doing it again changes nothing.
pub proof fn lemma_sync_idempotent(s: EwmView)
    ensures
        !s.sync_keyboard_focus().keyboard_focus_dirty,
        s.sync_keyboard_focus().sync_keyboard_focus() == s.sync_keyboard_focus(),
{
}

/// The keyboard follows the focus: once a surface was focused and the keyboard
/// brought in step, the keyboard is on that surface's window, unless a layer
/// surface takes it.
pub proof fn lemma_keyboard_follows_focus(
    s: EwmView,
    id: u32,
    notify: bool,
    source: Seq<char>,
    context: Option<Seq<char>>,
)
    requires
        s.id_windows.contains_key(id),
    ensures
        ({
            let t = s.focus_from(id, notify, source, context).sync_keyboard_focus();
            &&& t.focused_surface_id == id
            &&& t.keyboard_focus == t.wanted_focus()
            &&& t.layer_focus() is None ==> t.keyboard_focus == Some(s.id_windows[id])
        }),
{
}

proof fn lemma_before_key_kept(s: EwmView, ev: KeyEvent)
    ensures
        s.kept(s.before_key()),
        s.kept(s.key_judged(ev)),
{
    let t = s.take_pending_focus();
    assert(s.kept(t));
    lemma_sync_kept(t);
}

proof fn lemma_forwarded_kept(s: EwmView, layout: usize)
    ensures
        s.kept(s.forwarded(layout)),
{
    let t = s.focus_window();
    assert(s.kept(t));
    assert(t.kept(t.layout_is(layout)));
}

proof fn lemma_redirected_kept(s: EwmView, t: EwmView)
    requires
        s.redirected(t),
    ensures
        s.kept(t),
{
    let r = choose|r: Option<u32>| #[trigger]
        s.emacs_surface_choice(r) && t == match r {
            Some(id) => s.redirect_to(id),
            None => s,
        };
    if let Some(id) = r {
        assert(s.kept(s.redirect_to(id)));
    }
}

/// A key event keeps what is kept.
pub proof fn lemma_key_kept(
    s: EwmView,
    ev: KeyEvent,
    layout: usize,
    t: EwmView,
    action: KeyboardAction,
)
    requires
        s.key_handled(ev, layout, t, action),
    ensures
        s.kept(t),
{
    if !s.is_locked_spec() {
        let u = s.before_key();
        let j = u.key_judged(ev);
        lemma_before_key_kept(s, ev);
        lemma_before_key_kept(u, ev);
        match u.verdict(ev) {
            KeyVerdictView::Forward => {
                lemma_forwarded_kept(j, layout);
            },
            KeyVerdictView::Redirect => {
                lemma_redirected_kept(j, t);
            },
            _ => {},
        }
    }
}

/// Pointer events keep what is kept.
pub proof fn lemma_pointer_kept(
    s: EwmView,
    location: PointerLocation,
    pressed: bool,
    window: Option<WindowHandle>,
)
    ensures
        s.kept(s.pointer_moved(location)),
        s.kept(s.button(pressed, window)),
        s.kept(s.scrolled(window)),
{
    lemma_queue_redraw_kept(
        EwmView { pointer_location: location, ..s }.act(ActionView::NotifyActivity),
        0,
    );
}

/// Keys released when the compositor loses its window keep what is kept.
pub proof fn lemma_release_kept(s: EwmView, pressed: Seq<u32>)
    ensures
        s.kept(s.release_keys(pressed)),
    decreases pressed.len(),
{
    if pressed.len() > 0 {
        lemma_release_kept(s, pressed.drop_last());
    }
}

/// A request for the focus by another program keeps what is kept.
pub proof fn lemma_activation_kept(s: EwmView, age_ms: u64, surface: u64, token: u64)
    ensures
        s.kept(s.activation_requested(age_ms, surface, token)),
{
}

// ---------------------------------------------------------------------------
// The lock
// ---------------------------------------------------------------------------
/// All that happens to the lock keeps what is kept.
pub proof fn lemma_lock_kept(
    s: EwmView,
    locker: u64,
    holder_alive: bool,
    surface: u64,
    output: OutputHandle,
    size: Size,
)
    ensures
        s.kept(s.lock_requested(locker, holder_alive)),
        s.kept(s.lock_complete()),
        s.kept(s.unlocked()),
        s.kept(s.lock_surface_created(surface, output, size)),
        s.kept(s.lock_aborted()),
{
    lemma_clear_locks_kept(s);
    lemma_unlocked_kept(s);
    lemma_lock_surface_kept(s, surface, output, size);
    lemma_lock_requested_kept(s, locker, holder_alive);
}

proof fn lemma_clear_locks_kept(s: EwmView)
    ensures
        s.kept(s.clear_locks()),
        s.kept(s.reset_lock_renders()),
        s.kept(s.lock_aborted()),
{
}

proof fn lemma_lock_requested_kept(s: EwmView, locker: u64, holder_alive: bool)
    ensures
        s.kept(s.lock_requested(locker, holder_alive)),
{
    let t = EwmView {
        lock_state: LockState::Locking(locker),
        ..s.remember_focus()
    };
    assert(s.kept(t));
    lemma_clear_locks_kept(t);
    lemma_queue_redraw_kept(t.reset_lock_renders(), 0);
}

proof fn lemma_unlocked_kept(s: EwmView)
    ensures
        s.kept(s.unlocked()),
{
    let t = EwmView { lock_state: LockState::Unlocked, ..s };
    lemma_clear_locks_kept(t);
    let u = t.clear_locks();
    assert(u.kept(u.restore_focus_spec()));
    lemma_queue_redraw_kept(u.restore_focus_spec(), 0);
}

proof fn lemma_lock_surface_kept(s: EwmView, surface: u64, output: OutputHandle, size: Size)
    ensures
        s.kept(s.lock_surface_created(surface, output, size)),
{
    let t = s.act(ActionView::SendScale { surface, output }).act(
        ActionView::ConfigureLockSurface {
            surface,
            w: size.w as u32,
            h: size.h as u32,
        },
    );
    assert(s.kept(t));
    match s.state_of(output) {
        Some(state) => {
            let st = OutputState { lock_surface: Some(surface), ..state };
            lemma_set_output_state_kept(t, output, st);
            lemma_queue_redraw_kept(t.set_output_state(output, st), output);
        },
        None => {
            lemma_queue_redraw_kept(t, output);
        },
    }
}

/// A frame drawn, or not, while the session is locked keeps what is kept.
pub proof fn lemma_lock_frame_kept(s: EwmView, output: OutputHandle, outcome: RenderOutcome)
    ensures
        s.kept(s.lock_frame(output, outcome)),
{
    lemma_clear_locks_kept(s);
    match s.state_of(output) {
        Some(state) => {
            lemma_set_output_state_kept(
                s,
                output,
                OutputState {
                    lock_render_state: LockRenderState::Locked,
                    ..state
                },
            );
        },
        None => {},
    }
}

// ---------------------------------------------------------------------------
// Layers and outputs
// ---------------------------------------------------------------------------
proof fn lemma_refit_kept(s: EwmView, todo: Seq<Placed>, o: OutputView)
    ensures
        s.kept(s.refit_frames(todo, o)),
        s.refit_frames(todo, o).window_ids == s.window_ids,
        s.refit_frames(todo, o).emacs_surfaces == s.emacs_surfaces,
    decreases todo.len(),
{
    if todo.len() > 0 {
        lemma_refit_kept(s, todo.drop_last(), o);
        let t = s.refit_frames(todo.drop_last(), o);
        if s.is_emacs_window(todo.last().window) {
            lemma_place_kept(t, todo.last().window, o.zone_origin());
        }
    }
}

/// A change of an output that keeps its handle keeps what is kept.
pub proof fn lemma_change_output_kept(
    s: EwmView,
    handle: OutputHandle,
    change: spec_fn(OutputView) -> OutputView,
)
    requires
        forall|o: OutputView| (#[trigger] change(o)).handle == o.handle,
    ensures
        s.kept(EwmView { space: s.space.change_output(handle, change), ..s }),
{
    let t = s.space.change_output(handle, change);
    assert forall|i: int, j: int|
        s.space.wf() && 0 <= i < j < t.outputs.len() implies (#[trigger] t.outputs[i]).handle != (
    #[trigger] t.outputs[j]).handle by {
        assert(t.outputs[i].handle == s.space.outputs[i].handle);
        assert(t.outputs[j].handle == s.space.outputs[j].handle);
    }
}

/// A change of the free area of an output keeps what is kept.
pub proof fn lemma_working_area_kept(
    s: EwmView,
    output: OutputHandle,
    name: Seq<char>,
    zone: Rectangle,
    places: Seq<LayerPlace>,
)
    ensures
        s.kept(s.check_working_area(output, zone)),
        s.kept(s.working_area_checked(output, name, zone, places)),
        s.kept(s.update_frames(output)),
{
    let t = s.arranged(places);
    assert(s.kept(t));
    lemma_area_kept(s, output, zone);
    lemma_area_kept(t, output, zone);
}

proof fn lemma_area_kept(s: EwmView, output: OutputHandle, zone: Rectangle)
    ensures
        s.kept(s.check_working_area(output, zone)),
        s.kept(s.update_frames(output)),
{
    lemma_update_frames_kept(s, output);
    if s.space.output(output) is Some {
        let o = s.space.output(output)->0;
        let change = |o: OutputView| OutputView { zone, ..o };
        lemma_change_output_kept(s, output, change);
        assert(s.space.with_zone(output, zone) =~= s.space.change_output(output, change)) by {
            assert(s.space.with_zone(output, zone).outputs =~= s.space.change_output(
                output,
                change,
            ).outputs);
        }
        let a = EwmView { space: s.space.with_zone(output, zone), ..s };
        let b = EwmView {
            working_areas: s.working_areas.insert(o.name, zone),
            module: ModuleView {
                output_offsets: s.module.output_offsets.insert(
                    o.name,
                    o.loc.offset_spec(zone.loc),
                ),
                ..s.module
            },
            ..a
        };
        assert(a.kept(b));
        lemma_update_frames_kept(b, output);
    }
}

proof fn lemma_update_frames_kept(s: EwmView, output: OutputHandle)
    ensures
        s.kept(s.update_frames(output)),
{
    if s.space.output(output) is Some {
        let o = s.space.output(output)->0;
        lemma_refit_kept(s, s.space.elements, o);
        lemma_queue_redraw_kept(s.refit_frames(s.space.elements, o), output);
    }
}

/// All that happens to layer surfaces keeps what is kept.
pub proof fn lemma_layers_kept(
    s: EwmView,
    surface: u64,
    root: u64,
    c: LayerCommit,
    requested: RequestedOutput,
    layer: Layer,
    namespace: Seq<char>,
    zone: Rectangle,
    places: Seq<LayerPlace>,
)
    ensures
        s.kept(s.layer_commit(surface, root, c)),
        s.kept(s.new_layer(surface, requested, layer, namespace)),
        s.kept(s.layer_gone(surface, zone, places)),
{
    lemma_layer_commit_kept(s, surface, root, c);
    lemma_layer_gone_kept(s, surface, zone, places);
}

proof fn lemma_layer_commit_kept(s: EwmView, surface: u64, root: u64, c: LayerCommit)
    ensures
        s.kept(s.layer_commit(surface, root, c)),
{
    if s.mapped_layer(root) is Some {
        let l = s.mapped_layer(root)->0;
        let a = s.update_layer(surface, c).map_layer(surface, c).arranged(c.places@);
        assert(s.kept(a));
        lemma_area_kept(a, l.output, c.zone);
        lemma_queue_redraw_kept(a.check_working_area(l.output, c.zone), l.output);
        lemma_queue_redraw_kept(s, l.output);
    }
}

proof fn lemma_layer_gone_kept(
    s: EwmView,
    surface: u64,
    zone: Rectangle,
    places: Seq<LayerPlace>,
)
    ensures
        s.kept(s.layer_gone(surface, zone, places)),
{
    let a = EwmView {
        unmapped_layer_surfaces: s.unmapped_layer_surfaces.remove(surface),
        layers: s.layers.filter(|l: LayerSurfaceView| l.surface != surface),
        ..s
    };
    if s.mapped_layer(surface) is Some {
        let l = s.mapped_layer(surface)->0;
        let b = EwmView {
            layer_shell_on_demand_focus: if s.layer_shell_on_demand_focus == Some(surface) {
                None
            } else {
                s.layer_shell_on_demand_focus
            },
            keyboard_focus_dirty: true,
            ..a
        }.arranged(places);
        assert(s.kept(b));
        lemma_area_kept(b, l.output, zone);
        lemma_queue_redraw_kept(b.check_working_area(l.output, zone), l.output);
    }
}

/// A commit of any surface keeps what is kept.
pub proof fn lemma_commit_kept(
    s: EwmView,
    surface: u64,
    root: u64,
    sync_subsurface: bool,
    c: LayerCommit,
    app: Seq<char>,
    title: Seq<char>,
)
    ensures
        s.kept(s.commit_spec(surface, root, sync_subsurface, c, app, title)),
{
    let t = EwmView { pending_early_imports: s.pending_early_imports.push(surface), ..s };
    assert(s.kept(t));
    lemma_layer_commit_kept(t, surface, root, c);
    let u = t.act(ActionView::CommitWindow { window: root });
    lemma_queue_redraw_kept(u, 0);
    lemma_surface_described_kept(u.queue_redraw_all(), surface, app, title);
}

/// An output with a new handle keeps what is kept.
pub proof fn lemma_add_output_kept(s: EwmView, o: OutputView, state: OutputState)
    requires
        forall|i: int|
            0 <= i < s.space.outputs.len() ==> (#[trigger] s.space.outputs[i]).handle != o.handle,
        forall|i: int|
            0 <= i < s.output_state.len() ==> (#[trigger] s.output_state[i]).output != o.handle,
    ensures
        s.kept(s.add_output(o, state)),
{
}

/// An output that goes keeps what is kept, and is neither mapped nor has a
/// state afterwards.
pub proof fn lemma_remove_output_kept(s: EwmView, output: OutputHandle)
    requires
        s.wf(),
    ensures
        s.kept(s.unmap_output(output)),
        s.kept(s.drop_state(output)),
        s.unmap_output(output).space.output(output) is None,
        forall|i: int|
            0 <= i < s.drop_state(output).output_state.len() ==> (
            #[trigger] s.drop_state(output).output_state[i]).output != output,
{
    lemma_unmap_output(s.space, output);
    lemma_drop_state(s, output);
}

proof fn lemma_drop_state(s: EwmView, output: OutputHandle)
    ensures
        s.kept(s.drop_state(output)),
        forall|i: int|
            0 <= i < s.drop_state(output).output_state.len() ==> (
            #[trigger] s.drop_state(output).output_state[i]).output != output,
{
    let keep = |e: OutputEntry| e.output != output;
    let apart = |a: OutputEntry, b: OutputEntry| a.output != b.output;
    let f = s.output_state.filter(keep);
    assert forall|i: int| 0 <= i < f.len() implies (#[trigger] f[i]).output != output by {
        lemma_filter_has(s.output_state, keep, i);
    }
    if s.wf() {
        assert forall|i: int, j: int| 0 <= i < j < s.output_state.len() implies apart(
            #[trigger] s.output_state[i],
            #[trigger] s.output_state[j],
        ) by {
        }
        lemma_filter_pairs(s.output_state, keep, apart);
        assert forall|i: int, j: int| 0 <= i < j < f.len() implies (#[trigger] f[i]).output != (
        #[trigger] f[j]).output by {
            assert(apart(f[i], f[j]));
        }
    }
}

/// Telling surfaces the scale of an output keeps what is kept.
pub proof fn lemma_send_scales_kept(s: EwmView, output: OutputHandle)
    ensures
        s.kept(s.send_scales(output)),
{
    lemma_scale_windows_kept(s, output, s.space.elements);
    lemma_scale_layers_kept(s.scale_windows(output, s.space.elements), output, s.layers);
}

proof fn lemma_scale_windows_kept(s: EwmView, output: OutputHandle, elements: Seq<Placed>)
    ensures
        s.kept(s.scale_windows(output, elements)),
    decreases elements.len(),
{
    if elements.len() > 0 {
        lemma_scale_windows_kept(s, output, elements.drop_last());
    }
}

proof fn lemma_scale_layers_kept(s: EwmView, output: OutputHandle, layers: Seq<LayerSurfaceView>)
    ensures
        s.kept(s.scale_layers(output, layers)),
    decreases layers.len(),
{
    if layers.len() > 0 {
        lemma_scale_layers_kept(s, output, layers.drop_last());
    }
}

/// Applying the stored configuration of an output keeps what is kept.
pub proof fn lemma_output_config_kept(s: EwmView, name: Seq<char>, measured: Measured)
    ensures
        s.kept(s.apply_output_config(name, measured)),
{
    if s.output_config.contains_key(name) && s.space.output_named(name) is Some {
        let config = s.output_config[name];
        let o = s.space.output_named(name)->0;
        if !config.enabled {
            if s.space.wf() {
                lemma_unmap_output(s.space, o.handle);
            }
            lemma_queue_redraw_kept(s.unmap_output(o.handle), 0);
        } else {
            let change = |p: OutputView| configured(p, config, measured.size);
            lemma_change_output_kept(s, o.handle, change);
            let a = EwmView {
                space: s.space.change_output(o.handle, change),
                outputs: infos_moved(s.outputs, name, config.position),
                ..s
            };
            assert(s.kept(a));
            let b = match config.position {
                Some((x, y)) => a.act(
                    ActionView::MapOutput { output: o.handle, x, y },
                ),
                None => a,
            };
            assert(a.kept(b));
            let c = if config.scale is Some || config.transform is Some {
                lemma_send_scales_kept(b, o.handle);
                b.send_scales(o.handle)
            } else {
                b
            };
            let d = c.recalculate_output_size().arranged(measured.places@);
            assert(c.kept(d));
            lemma_area_kept(d, o.handle, measured.zone);
            lemma_queue_redraw_kept(d.check_working_area(o.handle, measured.zone), 0);
        }
    }
}

/// A virtual output with a new handle, and one that goes, keep what is kept.
pub proof fn lemma_virtual_outputs_kept(
    s: EwmView,
    name: Seq<char>,
    mode: Size,
    handle: OutputHandle,
    scaled: Size,
)
    requires
        s.wf(),
        forall|i: int|
            0 <= i < s.space.outputs.len() ==> (#[trigger] s.space.outputs[i]).handle != handle,
        forall|i: int|
            0 <= i < s.output_state.len() ==> (#[trigger] s.output_state[i]).output != handle,
    ensures
        s.kept(s.add_virtual(name, mode, handle, scaled)),
{
    lemma_add_output_kept(
        s,
        new_output(s, name, mode, handle, scaled),
        OutputState::new_spec(DEFAULT_REFRESH_INTERVAL_US, (mode.w, mode.h)),
    );
}

/// A virtual output that is removed keeps what is kept.
pub proof fn lemma_remove_virtual_kept(s: EwmView, output: OutputHandle)
    ensures
        s.kept(s.remove_virtual(output)),
{
    lemma_drop_state(s, output);
    let a = s.drop_state(output).lock_complete();
    assert(s.drop_state(output).kept(a));
    if a.space.wf() {
        lemma_unmap_output(a.space, output);
    }
}

// ---------------------------------------------------------------------------
// Hardware
// ---------------------------------------------------------------------------
/// A connector taken into use with a new handle keeps what is kept.
pub proof fn lemma_connected_kept(
    s: EwmView,
    c: ConnectorView,
    mode: VideoMode,
    handle: OutputHandle,
)
    requires
        forall|i: int|
            0 <= i < s.space.outputs.len() ==> (#[trigger] s.space.outputs[i]).handle != handle,
        forall|i: int|
            0 <= i < s.output_state.len() ==> (#[trigger] s.output_state[i]).output != handle,
    ensures
        s.kept(s.connected(c, mode, handle)),
{
    let x = s.output_size.w;
    lemma_add_output_kept(
        s,
        connector_output(c, mode, handle, x),
        OutputState::new_spec(
            refresh_interval_spec(mode.vrefresh),
            (mode.width as i32, mode.height as i32),
        ),
    );
}

proof fn lemma_stop_casts_kept(s: EwmView, ids: Seq<usize>)
    ensures
        s.kept(s.stop_casts(ids)),
        s.stop_casts(ids).space == s.space,
    decreases ids.len(),
{
    if ids.len() > 0 {
        lemma_stop_casts_kept(s, ids.drop_last());
    }
}

/// An output that is unplugged keeps what is kept.
pub proof fn lemma_disconnected_kept(s: EwmView, d: DrmSurfaceView, loop_handle: bool)
    ensures
        s.kept(s.disconnected(d, loop_handle)),
{
    let a = s.cancel_timer(d.output, loop_handle);
    assert(s.kept(a));
    lemma_drop_state(a, d.output);
    let b = a.drop_state(d.output).lock_complete();
    assert(a.drop_state(d.output).kept(b));
    let ids = sessions_casting(b.screen_casts, d.name);
    lemma_stop_casts_kept(b, ids);
    let e = b.stop_casts(ids);
    if e.space.wf() {
        lemma_unmap_output(e.space, d.output);
    }
}

/// A vertical blank, real or estimated, and a frame that was drawn or not
/// keep what is kept.
pub proof fn lemma_frames_kept(s: EwmView, output: OutputHandle, outcome: RenderOutcome)
    ensures
        s.kept(s.vblank(output)),
        s.kept(s.estimated_vblank(output)),
        s.kept(s.rendered(output, outcome)),
        s.kept(s.virtual_frame(output)),
{
    match s.state_of(output) {
        Some(state) => {
            lemma_set_output_state_kept(
                s,
                output,
                next_cycle(
                    OutputState { redraw_state: state.redraw_state.on_vblank_spec(), ..state },
                ),
            );
            lemma_set_output_state_kept(
                s,
                output,
                next_cycle(
                    OutputState {
                        redraw_state: state.redraw_state.on_estimated_vblank_spec(),
                        ..state
                    },
                ),
            );
            lemma_set_output_state_kept(
                s,
                output,
                OutputState {
                    redraw_state: RedrawState::after_render_spec(outcome),
                    ..state
                },
            );
            lemma_set_output_state_kept(
                s,
                output,
                OutputState { redraw_state: RedrawState::Idle, ..state },
            );
        },
        None => {},
    }
}

/// A pause of the session keeps what is kept.
pub proof fn lemma_pause_kept(s: EwmView, v: Seq<DrmSurfaceView>, loop_handle: bool)
    ensures
        s.kept(s.pause_outputs(v, loop_handle)),
    decreases v.len(),
{
    if v.len() > 0 {
        lemma_pause_kept(s, v.drop_last(), loop_handle);
        let t = s.pause_outputs(v.drop_last(), loop_handle);
        let output = v.last().output;
        match t.state_of(output) {
            Some(state) => {
                lemma_set_output_state_kept(
                    t.cancel_timer(output, loop_handle),
                    output,
                    OutputState { redraw_state: RedrawState::Idle, ..state },
                );
            },
            None => {},
        }
    }
}

proof fn lemma_unplugged_kept(
    v: Seq<DrmSurfaceView>,
    s: EwmView,
    loop_handle: bool,
    events: Seq<ScanEventView>,
)
    ensures
        s.kept(unplugged(v, s, loop_handle, events).1),
    decreases events.len(),
{
    if events.len() > 0 {
        lemma_unplugged_kept(v, s, loop_handle, events.drop_last());
        let t = unplugged(v, s, loop_handle, events.drop_last());
        if let ScanEventView::Disconnected { crtc: Some(crtc) } = events.last() {
            if let Some(d) = surface_on(t.0, crtc) {
                lemma_disconnected_kept(t.1, d, loop_handle);
            }
        }
    }
}

/// Every event of the loop keeps what is kept.
pub proof fn lemma_event_kept(
    before: (DrmView, EwmView),
    event: LoopEvent,
    after: (DrmView, EwmView),
    effect: LoopEffectView,
)
    requires
        handled(before, event, after, effect),
    ensures
        before.1.kept(after.1),
{
    let (b, e) = before;
    match event {
        LoopEvent::Key { event, layout } => {
            let (t, action) = choose|t: EwmView, action: KeyboardAction| #[trigger]
                e.key_handled(event, layout, t, action) && after.1 == after_action(t, action)
                    && effect == action_effect(b, action);
            lemma_key_kept(e, event, layout, t, action);
        },
        LoopEvent::PointerMotion { location } | LoopEvent::PointerMotionAbsolute { location } => {
            lemma_pointer_kept(e, location, false, None);
        },
        LoopEvent::PointerButton { pressed, window } => {
            lemma_pointer_kept(e, e.pointer_location, pressed, window);
        },
        LoopEvent::PointerAxis { window } => {
            lemma_pointer_kept(e, e.pointer_location, false, window);
        },
        LoopEvent::Session { event } => {
            lemma_queue_redraw_kept(e, 0);
            if let Some(v) = b.device {
                lemma_pause_kept(e, v, b.loop_handle);
            }
        },
        LoopEvent::ConnectorsChanged { found } => {
            lemma_queue_redraw_kept(e, 0);
            if let Some(v) = b.device {
                let s = unplugged(v, e, b.loop_handle, scan_views(found@));
                lemma_unplugged_kept(v, e, b.loop_handle, scan_views(found@));
                lemma_queue_redraw_kept(s.1, 0);
            }
        },
        LoopEvent::StopCast { session_id } => {},
        _ => {},
    }
}

proof fn lemma_configure_all_kept(s: EwmView, elements: Seq<Placed>, size: Size)
    ensures
        s.kept(s.configure_all(elements, size)),
    decreases elements.len(),
{
    if elements.len() > 0 {
        lemma_configure_all_kept(s, elements.drop_last(), size);
    }
}

/// Every event of the window that the compositor runs in keeps what is kept.
pub proof fn lemma_window_event_kept(
    before: (bool, EwmView),
    output: OutputHandle,
    event: WindowEvent,
    after: (bool, EwmView),
)
    requires
        window_handled(before, output, event, after),
    ensures
        before.1.kept(after.1),
        after.0 ==> before.0,
{
    let e = before.1;
    match event {
        WindowEvent::Resized { size } => {
            let change = |o: OutputView| OutputView { mode: size, size, ..o };
            lemma_change_output_kept(e, output, change);
            let t = EwmView {
                space: e.space.change_output(output, change),
                output_size: size,
                ..e
            };
            assert(e.kept(t));
            lemma_configure_all_kept(t, e.space.elements, size);
        },
        WindowEvent::Focus { focused, pressed } => {
            lemma_release_kept(e, pressed@);
        },
        WindowEvent::Key { event, layout } => {
            let (t, action) = choose|t: EwmView, action: KeyboardAction| #[trigger]
                e.key_handled(event, layout, t, action) && after == (
                    before.0 && !(action is Shutdown),
                    t,
                );
            lemma_key_kept(e, event, layout, t, action);
        },
        WindowEvent::PointerMotionAbsolute { location } => {
            lemma_pointer_kept(e, location, false, None);
        },
        WindowEvent::PointerButton { pressed, window } => {
            lemma_pointer_kept(e, e.pointer_location, pressed, window);
        },
        _ => {},
    }
}

proof fn lemma_render_queued_kept(s: EwmView, v: Seq<DrmSurfaceView>)
    ensures
        s.kept(s.render_queued(v)),
        s.leaves_work(s.render_queued(v)),
    decreases v.len(),
{
    if v.len() > 0 {
        lemma_render_queued_kept(s, v.drop_last());
    }
}

proof fn lemma_render_names_kept(
    s: (Seq<VirtualOutputView>, EwmView),
    names: Seq<Seq<char>>,
)
    ensures
        s.1.kept(render_names(s, names).1),
        s.1.leaves_work(render_names(s, names).1),
    decreases names.len(),
{
    if names.len() > 0 {
        lemma_render_names_kept(s, names.drop_last());
        let t = render_names(s, names.drop_last());
        if let Some(v) = virtual_named(t.0, names.last()) {
            lemma_frames_kept(t.1, v.output, RenderOutcome::Failed);
        }
        assert(render_names(s, names) == render_one(t, names.last()));
    }
}

proof fn lemma_imports_kept(s: EwmView, surfaces: Seq<u64>)
    ensures
        s.kept(s.import_all(surfaces)),
        s.leaves_work(s.import_all(surfaces)),
    decreases surfaces.len(),
{
    if surfaces.len() > 0 {
        lemma_imports_kept(s, surfaces.drop_last());
    }
}

proof fn lemma_im_events_kept(s: EwmView, events: Seq<ImEvent>)
    ensures
        s.kept(s.im_events(events)),
        s.leaves_work(s.im_events(events)),
    decreases events.len(),
{
    if events.len() > 0 {
        lemma_im_events_kept(s, events.drop_last());
    }
}

/// A turn of the loop keeps what is kept, whatever commands it carries out.
/// Where it has to wait for the display side, the commands after that are still
/// there, and neither the keyboard nor the backend was touched. Otherwise it
/// leaves nothing behind: every command was carried out, every pending import
/// taken up, and the keyboard focus is in step.
pub proof fn lemma_turn_kept(b: BackendView, e: EwmView, im_events: Seq<ImEvent>)
    ensures
        e.kept(resumed(b, e, im_events).1),
        e.kept(turn(b, e, im_events).1),
        resumed(b, e, im_events).2 == turn(b, e, im_events).2,
        turn(b, e, im_events).2 == !awaits_display(e.module.commands),
        turn(b, e, im_events).1.module.commands == e.module.commands.skip(
            batch_len(e.module.commands) as int,
        ),
        !turn(b, e, im_events).2 ==> turn(b, e, im_events).0 == b,
        !turn(b, e, im_events).2 ==> turn(b, e, im_events).1.module.commands.len()
            < e.module.commands.len(),
        turn(b, e, im_events).2 ==> {
            &&& turn(b, e, im_events).1.module.commands.len() == 0
            &&& turn(b, e, im_events).1.pending_early_imports.len() == 0
            &&& !turn(b, e, im_events).1.keyboard_focus_dirty
        },
{
    let s = e.check_stop();
    assert(e.kept(s));
    lemma_resumed_kept(b, e, im_events);
    lemma_resumed_kept(b, s, im_events);
}

proof fn lemma_resumed_kept(b: BackendView, e: EwmView, im_events: Seq<ImEvent>)
    ensures
        e.kept(resumed(b, e, im_events).1),
        resumed(b, e, im_events).1.module.commands == e.module.commands.skip(
            batch_len(e.module.commands) as int,
        ),
        resumed(b, e, im_events).2 == !awaits_display(e.module.commands),
        !resumed(b, e, im_events).2 ==> resumed(b, e, im_events).1.module.commands.len()
            < e.module.commands.len(),
        resumed(b, e, im_events).2 ==> {
            &&& resumed(b, e, im_events).1.module.commands.len() == 0
            &&& resumed(b, e, im_events).1.pending_early_imports.len() == 0
            &&& !resumed(b, e, im_events).1.keyboard_focus_dirty
        },
{
    let n = batch_len(e.module.commands) as int;
    let s1 = EwmView {
        module: ModuleView { commands: e.module.commands.skip(n), ..e.module },
        ..e
    };
    assert(e.kept(s1));
    lemma_batch(e.module.commands);
    lemma_commands_kept(s1, e.module.commands.take(n));
    lemma_commands_add_none(s1, e.module.commands.take(n));
    let s2 = e.take_commands();
    lemma_sync_kept(s2);
    let s3 = s2.sync_keyboard_focus();
    let s4 = EwmView { pending_early_imports: Seq::empty(), ..s3 };
    assert(s3.kept(s4));
    lemma_imports_kept(s4, s3.pending_early_imports);
    let s5 = s3.take_imports(b.imports());
    match b {
        BackendView::Drm(d) => {
            if let Some(v) = d.device {
                lemma_render_queued_kept(s5, v);
            }
        },
        BackendView::Headless(v) => {
            lemma_render_names_kept((v, s5), queued_names(v, s5));
        },
    }
    lemma_im_events_kept(b.redraw(s5).1, im_events);
}

impl EwmView {
    /// With other commands waiting.
    pub open spec fn with_commands(self, commands: Seq<ModuleCommand>) -> EwmView {
        EwmView { module: ModuleView { commands, ..self.module }, ..self }
    }
}

/// The compositor and its backend after a turn that was resumed until its end,
/// where the display side changed nothing meanwhile.
pub open spec fn resumed_to_end(
    b: BackendView,
    e: EwmView,
    im_events: Seq<ImEvent>,
) -> (BackendView, EwmView)
    decreases e.module.commands.len(),
    via resumed_to_end_decreases
{
    let t = resumed(b, e, im_events);
    if t.2 {
        (t.0, t.1)
    } else {
        resumed_to_end(t.0, t.1, im_events)
    }
}

#[via_fn]
proof fn resumed_to_end_decreases(b: BackendView, e: EwmView, im_events: Seq<ImEvent>) {
    lemma_resumed_kept(b, e, im_events);
}

proof fn lemma_layout_beside(s: EwmView, id: u32, x: i32, y: i32, w: u32, h: u32, waiting: Seq<ModuleCommand>)
    ensures
        s.with_commands(waiting).layout(id, x, y, w, h) == s.layout(id, x, y, w, h).with_commands(waiting),
{
}

proof fn lemma_views_beside(s: EwmView, id: u32, list: Seq<SurfaceView>, waiting: Seq<ModuleCommand>)
    ensures
        s.with_commands(waiting).set_views(id, list) == s.set_views(id, list).with_commands(waiting),
{
}

proof fn lemma_hide_beside(s: EwmView, id: u32, waiting: Seq<ModuleCommand>)
    ensures
        s.with_commands(waiting).hide_surface(id) == s.hide_surface(id).with_commands(waiting),
{
}

proof fn lemma_close_beside(s: EwmView, id: u32, waiting: Seq<ModuleCommand>)
    ensures
        s.with_commands(waiting).close_surface(id) == s.close_surface(id).with_commands(waiting),
{
}

proof fn lemma_assign_beside(s: EwmView, id: u32, output: Seq<char>, waiting: Seq<ModuleCommand>)
    ensures
        s.with_commands(waiting).assign_output(id, output) == s.assign_output(id, output).with_commands(waiting),
{
}

proof fn lemma_focus_beside(s: EwmView, id: u32, waiting: Seq<ModuleCommand>)
    ensures
        s.with_commands(waiting).focus_existing(id, "emacs_command"@, None) == s.focus_existing(id, "emacs_command"@, None).with_commands(waiting),
{
}

proof fn lemma_configure_beside(s: EwmView, name: Seq<char>, change: OutputChange, waiting: Seq<ModuleCommand>)
    ensures
        s.with_commands(waiting).configure_output(name, change) == s.configure_output(name, change).with_commands(waiting),
{
}

proof fn lemma_layouts_beside(s: EwmView, layouts: Seq<char>, options: Option<Seq<char>>, waiting: Seq<ModuleCommand>)
    ensures
        s.with_commands(waiting).configure_xkb(layouts, options) == s.configure_xkb(layouts, options).with_commands(waiting),
{
}

proof fn lemma_switch_beside(s: EwmView, layout: Seq<char>, waiting: Seq<ModuleCommand>)
    ensures
        s.with_commands(waiting).switch_layout(layout) == s.switch_layout(layout).with_commands(waiting),
{
}

proof fn lemma_warp_beside(s: EwmView, location: PointerLocation, waiting: Seq<ModuleCommand>)
    ensures
        s.with_commands(waiting).warp_pointer(location) == s.warp_pointer(location).with_commands(waiting),
{
}

/// What a command does does not depend on those that wait, and leaves them.
proof fn lemma_command_beside_others(s: EwmView, cmd: ModuleCommand, waiting: Seq<ModuleCommand>)
    ensures
        s.with_commands(waiting).run_command(cmd) == s.run_command(cmd).with_commands(waiting),
{
    match cmd {
        ModuleCommand::Layout { id, x, y, w, h } => {
            lemma_layout_beside(s, id, x, y, w, h, waiting);
        },
        ModuleCommand::Views { id, views: list } => {
            lemma_views_beside(s, id, list@, waiting);
        },
        ModuleCommand::Hide { id } => {
            lemma_hide_beside(s, id, waiting);
        },
        ModuleCommand::Close { id } => {
            lemma_close_beside(s, id, waiting);
        },
        ModuleCommand::Focus { id } => {
            lemma_focus_beside(s, id, waiting);
        },
        ModuleCommand::WarpPointer { location } => {
            lemma_warp_beside(s, location, waiting);
        },
        ModuleCommand::AssignOutput { id, output } => {
            lemma_assign_beside(s, id, output@, waiting);
        },
        ModuleCommand::ConfigureOutput { name, change } => {
            lemma_configure_beside(s, name@, change, waiting);
        },
        ModuleCommand::ConfigureXkb { layouts, options } => {
            lemma_layouts_beside(s, layouts@, text_view(options), waiting);
        },
        ModuleCommand::SwitchLayout { layout } => {
            lemma_switch_beside(s, layout@, waiting);
        },
        _ => {
            lemma_other_command_beside(s, cmd, waiting);
        },
    }
}

proof fn lemma_other_command_beside(s: EwmView, cmd: ModuleCommand, waiting: Seq<ModuleCommand>)
    requires
        !(cmd is Layout || cmd is Views || cmd is Hide || cmd is Close || cmd is Focus || cmd
            is WarpPointer || cmd is AssignOutput || cmd is ConfigureOutput || cmd is ConfigureXkb
            || cmd is SwitchLayout),
    ensures
        s.with_commands(waiting).run_command(cmd) == s.run_command(cmd).with_commands(waiting),
{
}

proof fn lemma_commands_beside_others(
    s: EwmView,
    cmds: Seq<ModuleCommand>,
    waiting: Seq<ModuleCommand>,
)
    ensures
        s.with_commands(waiting).run_commands(cmds) == s.run_commands(cmds).with_commands(waiting),
    decreases cmds.len(),
{
    if cmds.len() > 0 {
        lemma_commands_beside_others(s, cmds.drop_last(), waiting);
        lemma_command_beside_others(s.run_commands(cmds.drop_last()), cmds.last(), waiting);
    }
}

/// A turn carries out all commands, in order, before the keyboard follows the
/// focus and anything is drawn, however often it has to wait for the display
/// side.
pub proof fn lemma_all_commands_come_first(
    b: BackendView,
    e: EwmView,
    im_events: Seq<ImEvent>,
)
    ensures
        resumed_to_end(b, e, im_events) == concluded(
            b,
            e.with_commands(Seq::empty()).run_commands(e.module.commands),
            im_events,
        ),
    decreases e.module.commands.len(),
{
    let all = e.module.commands;
    let n = batch_len(all) as int;
    let rest = all.skip(n);
    let none = Seq::<ModuleCommand>::empty();
    lemma_batch(all);
    let s = e.take_commands();
    assert(s == e.with_commands(rest).run_commands(all.take(n)));
    lemma_commands_beside_others(e, all.take(n), rest);
    lemma_commands_beside_others(e, all.take(n), none);
    if awaits_display(all) {
        lemma_resumed_kept(b, e, im_events);
        lemma_all_commands_come_first(b, s, im_events);
        assert(s.with_commands(none) == e.with_commands(none).run_commands(all.take(n)));
        lemma_commands_in_parts(e.with_commands(none), all, n);
    } else {
        assert(rest =~= none);
        assert(all.take(n) =~= all);
    }
}

// ---------------------------------------------------------------------------
// Configured outputs
// ---------------------------------------------------------------------------
/// A change that touches nothing that is searched for is seen in the output
/// that is found.
proof fn lemma_first_changed(
    outputs: Seq<OutputView>,
    wanted: spec_fn(OutputView) -> bool,
    change: spec_fn(OutputView) -> OutputView,
)
    requires
        forall|o: OutputView| wanted(#[trigger] change(o)) == wanted(o),
    ensures
        first_output(outputs.map_values(change), wanted) == (match first_output(outputs, wanted) {
            Some(o) => Some(change(o)),
            None => None,
        }),
    decreases outputs.len(),
{
    if outputs.len() > 0 {
        let all = outputs.map_values(change);
        assert(all[0] == change(outputs[0]));
        assert(all.drop_first() =~= outputs.drop_first().map_values(change));
        lemma_first_changed(outputs.drop_first(), wanted, change);
    }
}

proof fn lemma_refit_keeps_outputs(s: EwmView, todo: Seq<Placed>, o: OutputView)
    ensures
        s.refit_frames(todo, o).space.outputs == s.space.outputs,
        s.refit_frames(todo, o).output_config == s.output_config,
        s.refit_frames(todo, o).output_state == s.output_state,
    decreases todo.len(),
{
    if todo.len() > 0 {
        lemma_refit_keeps_outputs(s, todo.drop_last(), o);
    }
}

proof fn lemma_scale_windows_keeps(s: EwmView, output: OutputHandle, elements: Seq<Placed>)
    ensures
        s.scale_windows(output, elements).space == s.space,
        s.scale_windows(output, elements).output_config == s.output_config,
        s.scale_windows(output, elements).output_state == s.output_state,
    decreases elements.len(),
{
    if elements.len() > 0 {
        lemma_scale_windows_keeps(s, output, elements.drop_last());
    }
}

proof fn lemma_scale_layers_keeps(s: EwmView, output: OutputHandle, layers: Seq<LayerSurfaceView>)
    ensures
        s.scale_layers(output, layers).space == s.space,
        s.scale_layers(output, layers).output_config == s.output_config,
        s.scale_layers(output, layers).output_state == s.output_state,
    decreases layers.len(),
{
    if layers.len() > 0 {
        lemma_scale_layers_keeps(s, output, layers.drop_last());
    }
}

proof fn lemma_zone_is_set(s: EwmView, name: Seq<char>, zone: Rectangle)
    requires
        s.space.output_named(name) is Some,
    ensures
        ({
            let o = s.space.output_named(name)->0;
            let t = s.check_working_area(o.handle, zone);
            &&& t.space.output_named(name) == Some(OutputView { zone, ..o })
            &&& t.output_config == s.output_config
        }),
{
    let o = s.space.output_named(name)->0;
    let named = |p: OutputView| p.name == name;
    let same = |p: OutputView| p.handle == o.handle;
    let change = |p: OutputView|
        if p.handle == o.handle {
            OutputView { zone, ..p }
        } else {
            p
        };
    lemma_first_output(s.space.outputs, named);
    lemma_first_output(s.space.outputs, same);
    lemma_first_changed(s.space.outputs, named, change);
    let placed = s.space.with_zone(o.handle, zone);
    lemma_first_output(placed.outputs, same);
    assert(s.space.output(o.handle) is Some);
    let p = s.space.output(o.handle)->0;
    let u = EwmView {
        space: placed,
        working_areas: s.working_areas.insert(p.name, zone),
        module: ModuleView {
            output_offsets: s.module.output_offsets.insert(p.name, p.loc.offset_spec(zone.loc)),
            ..s.module
        },
        ..s
    };
    if let Some(q) = placed.output(o.handle) {
        lemma_refit_keeps_outputs(u, placed.elements, q);
    }
}

/// What is configured for an output is what the output has once it is applied:
/// its place, scale and transform where the configuration names them, and the
/// size and the free area that were measured. The configuration stays stored.
pub proof fn lemma_config_read_back(s: EwmView, name: Seq<char>, measured: Measured)
    requires
        s.output_config.contains_key(name),
        s.output_config[name].enabled,
        s.space.output_named(name) is Some,
    ensures
        s.apply_output_config(name, measured).space.output_named(name) == Some(
            OutputView {
                zone: measured.zone,
                ..configured(
                    s.space.output_named(name)->0,
                    s.output_config[name],
                    measured.size,
                )
            },
        ),
        s.apply_output_config(name, measured).output_config == s.output_config,
{
    let config = s.output_config[name];
    let o = s.space.output_named(name)->0;
    let named = |p: OutputView| p.name == name;
    let change = |p: OutputView| configured(p, config, measured.size);
    let at = |p: OutputView|
        if p.handle == o.handle {
            change(p)
        } else {
            p
        };
    lemma_first_changed(s.space.outputs, named, at);
    let a = EwmView {
        space: s.space.change_output(o.handle, change),
        outputs: infos_moved(s.outputs, name, config.position),
        ..s
    };
    assert(a.space.outputs =~= s.space.outputs.map_values(at));
    let t = match config.position {
        Some((x, y)) => a.act(ActionView::MapOutput { output: o.handle, x, y }),
        None => a,
    };
    lemma_scale_windows_keeps(t, o.handle, t.space.elements);
    let w = t.scale_windows(o.handle, t.space.elements);
    lemma_scale_layers_keeps(w, o.handle, t.layers);
    let u = if config.scale is Some || config.transform is Some {
        t.send_scales(o.handle)
    } else {
        t
    };
    let v = u.recalculate_output_size().arranged(measured.places@);
    assert(v.space.output_named(name) == Some(change(o)));
    lemma_zone_is_set(v, name, measured.zone);
}

proof fn lemma_zone_keeps_rate(
    s: EwmView,
    handle: OutputHandle,
    zone: Rectangle,
    output: OutputHandle,
)
    ensures
        s.state_of(output) is Some <==> s.check_working_area(handle, zone).state_of(output) is Some,
        s.state_of(output) is Some ==> s.check_working_area(handle, zone).state_of(
            output,
        )->0.refresh_interval_us == s.state_of(output)->0.refresh_interval_us,
{
    if let Some(p) = s.space.output(handle) {
        let u = EwmView {
            space: s.space.with_zone(handle, zone),
            working_areas: s.working_areas.insert(p.name, zone),
            module: ModuleView {
                output_offsets: s.module.output_offsets.insert(
                    p.name,
                    p.loc.offset_spec(zone.loc),
                ),
                ..s.module
            },
            ..s
        };
        if let Some(q) = u.space.output(handle) {
            lemma_refit_keeps_outputs(u, u.space.elements, q);
            lemma_redraw_requested(u.refit_frames(u.space.elements, q), handle, output);
        }
    }
}

/// A virtual output has a fixed mode and refresh rate: whatever is configured
/// for it, it keeps its mode while it is enabled, and every output keeps its
/// refresh interval.
pub proof fn lemma_virtual_mode_is_fixed(
    s: EwmView,
    name: Seq<char>,
    measured: Measured,
    output: OutputHandle,
)
    ensures
        ({
            let t = s.apply_output_config(name, measured);
            &&& s.space.output_named(name) is Some && s.stored_config(name).enabled
                ==> t.space.output_named(name) is Some && t.space.output_named(name)->0.mode
                == s.space.output_named(name)->0.mode
            &&& s.state_of(output) is Some <==> t.state_of(output) is Some
            &&& s.state_of(output) is Some ==> t.state_of(output)->0.refresh_interval_us
                == s.state_of(output)->0.refresh_interval_us
        }),
{
    if s.output_config.contains_key(name) {
        let config = s.output_config[name];
        if let Some(o) = s.space.output_named(name) {
            if !config.enabled {
                lemma_redraw_requested(s.unmap_output(o.handle), output, output);
            } else {
                lemma_config_read_back(s, name, measured);
                let change = |p: OutputView| configured(p, config, measured.size);
                let a = EwmView {
                    space: s.space.change_output(o.handle, change),
                    outputs: infos_moved(s.outputs, name, config.position),
                    ..s
                };
                let t = match config.position {
                    Some((x, y)) => a.act(ActionView::MapOutput { output: o.handle, x, y }),
                    None => a,
                };
                lemma_scale_windows_keeps(t, o.handle, t.space.elements);
                lemma_scale_layers_keeps(
                    t.scale_windows(o.handle, t.space.elements),
                    o.handle,
                    t.layers,
                );
                let u = if config.scale is Some || config.transform is Some {
                    t.send_scales(o.handle)
                } else {
                    t
                };
                let v = u.recalculate_output_size().arranged(measured.places@);
                lemma_zone_keeps_rate(v, o.handle, measured.zone, output);
                lemma_redraw_requested(
                    v.check_working_area(o.handle, measured.zone),
                    output,
                    output,
                );
            }
        }
    }
}

/// An output that is connected is given the configuration that is stored under
/// its name: the display side is told last to apply it, and once that is done
/// the output has what is configured.
pub proof fn lemma_connected_is_configured(
    s: EwmView,
    c: ConnectorView,
    mode: VideoMode,
    handle: OutputHandle,
    measured: Measured,
)
    requires
        s.output_config.contains_key(c.name),
        s.output_config[c.name].enabled,
        s.space.output_named(c.name) is None,
    ensures
        ({
            let t = s.connected(c, mode, handle);
            &&& t.actions.last() == (ActionView::ApplyOutputConfig { name: c.name })
            &&& t.apply_output_config(c.name, measured).space.output_named(c.name) == Some(
                OutputView {
                    zone: measured.zone,
                    ..configured(
                        connector_output(c, mode, handle, s.output_size.w),
                        s.output_config[c.name],
                        measured.size,
                    )
                },
            )
        }),
{
    let t = s.connected(c, mode, handle);
    let o = connector_output(c, mode, handle, s.output_size.w);
    lemma_first_pushed(s.space.outputs, o, |p: OutputView| p.name == c.name);
    assert(t.space.outputs == s.space.outputs.push(o));
    assert(t.space.output_named(c.name) == Some(o));
    lemma_config_read_back(t, c.name, measured);
}

/// The coordinates of a place that are configured one after the other add up,
/// where each change is applied before the next: the second keeps the
/// coordinate that the first has set.
pub proof fn lemma_place_in_parts(
    s: EwmView,
    name: Seq<char>,
    first: OutputChange,
    second: OutputChange,
    measured: Measured,
    last: Measured,
)
    requires
        s.space.output_named(name) is Some,
        s.stored_config(name).enabled,
        first.enabled is None,
        second.enabled is None,
        first.x is Some,
        first.y is None,
        second.x is None,
        second.y is Some,
    ensures
        s.configure_output(name, first).apply_output_config(name, measured).configure_output(
            name,
            second,
        ).apply_output_config(name, last).output_position(name) == (first.x->0, second.y->0),
{
    let a = s.configure_output(name, first);
    lemma_config_read_back(a, name, measured);
    let b = a.apply_output_config(name, measured);
    lemma_config_read_back(b.configure_output(name, second), name, last);
}

// ---------------------------------------------------------------------------
// Redraws
// ---------------------------------------------------------------------------
/// A request for a redraw of all outputs reaches every one of them.
pub proof fn lemma_redraw_all_reaches(s: EwmView, i: int)
    requires
        0 <= i < s.output_state.len(),
    ensures
        s.queue_redraw_all().output_state[i].state == s.output_state[i].state.queued(),
        s.queue_redraw_all().output_state[i].output == s.output_state[i].output,
        s.queue_redraw_all().output_state.len() == s.output_state.len(),
{
}

/// A request for a redraw of one output leaves the others as they are.
pub proof fn lemma_redraw_one(s: EwmView, output: OutputHandle, i: int)
    requires
        0 <= i < s.output_state.len(),
    ensures
        s.queue_redraw(output).output_state[i] == (if s.output_state[i].output == output {
            OutputEntry { state: s.output_state[i].state.queued(), ..s.output_state[i] }
        } else {
            s.output_state[i]
        }),
{
}

// ---------------------------------------------------------------------------
// Virtual outputs
// ---------------------------------------------------------------------------
/// Whether every virtual output is mapped under its name, and every state
/// belongs to one.
pub open spec fn virtual_outputs_mapped(v: Seq<VirtualOutputView>, ewm: EwmView) -> bool {
    &&& forall|i: int|
        0 <= i < v.len() ==> {
            let o = ewm.space.output_named((#[trigger] v[i]).name);
            o is Some && o->0.handle == v[i].output
        }
    &&& forall|k: int|
        0 <= k < ewm.output_state.len() ==> exists|i: int|
            0 <= i < v.len() && (#[trigger] v[i]).output == (
            #[trigger] ewm.output_state[k]).output
}

proof fn lemma_named_same(v: Seq<VirtualOutputView>, w: Seq<VirtualOutputView>, name: Seq<char>)
    requires
        v.len() == w.len(),
        forall|i: int|
            0 <= i < v.len() ==> (#[trigger] w[i]).name == v[i].name && w[i].output == v[i].output,
    ensures
        virtual_named(v, name) is Some <==> virtual_named(w, name) is Some,
        virtual_named(v, name) is Some ==> virtual_named(v, name)->0.output == virtual_named(
            w,
            name,
        )->0.output,
    decreases v.len(),
{
    if v.len() > 0 {
        assert(w[0].name == v[0].name);
        if v[0].name != name {
            assert forall|i: int| 0 <= i < v.drop_first().len() implies (
            #[trigger] w.drop_first()[i]).name == v.drop_first()[i].name && w.drop_first()[i].output
                == v.drop_first()[i].output by {
                assert(w[i + 1].name == v[i + 1].name);
            }
            lemma_named_same(v.drop_first(), w.drop_first(), name);
        }
    }
}

proof fn lemma_named_output(v: Seq<VirtualOutputView>, i: int)
    requires
        names_unique(v),
        0 <= i < v.len(),
    ensures
        virtual_named(v, v[i].name) == Some(v[i]),
    decreases v.len(),
{
    if i > 0 {
        assert(v[0].name != v[i].name);
        assert forall|a: int, b: int| 0 <= a < b < v.drop_first().len() implies (
        #[trigger] v.drop_first()[a]).name != (#[trigger] v.drop_first()[b]).name by {
            assert(v[a + 1].name != v[b + 1].name);
        }
        lemma_named_output(v.drop_first(), i - 1);
    }
}

/// What drawing does to the redraw state of an output: nothing, or it is idle;
/// and it is idle where the output is among those drawn.
proof fn lemma_drawn_is_idle(
    s: (Seq<VirtualOutputView>, EwmView),
    names: Seq<Seq<char>>,
    output: OutputHandle,
)
    ensures
        ({
            let t = render_names(s, names);
            &&& t.1.space == s.1.space
            &&& t.0.len() == s.0.len()
            &&& forall|i: int|
                0 <= i < s.0.len() ==> (#[trigger] t.0[i]).name == s.0[i].name && t.0[i].output
                    == s.0[i].output
            &&& s.1.state_of(output) is Some <==> t.1.state_of(output) is Some
            &&& s.1.state_of(output) is Some ==> {
                ||| t.1.state_of(output)->0.redraw_state == s.1.state_of(output)->0.redraw_state
                ||| t.1.state_of(output)->0.redraw_state is Idle
            }
            &&& forall|k: int|
                0 <= k < names.len() && virtual_named(s.0, #[trigger] names[k]) is Some
                    && virtual_named(s.0, names[k])->0.output == output && s.1.state_of(
                    output,
                ) is Some ==> t.1.state_of(output)->0.redraw_state is Idle
        }),
    decreases names.len(),
{
    if names.len() > 0 {
        let rest = names.drop_last();
        let name = names.last();
        lemma_drawn_is_idle(s, rest, output);
        let t = render_names(s, rest);
        let u = render_names(s, names);
        assert(u == render_one(t, name));
        lemma_named_same(s.0, t.0, name);
        if let Some(o) = virtual_named(t.0, name) {
            match t.1.state_of(o.output) {
                Some(state) => {
                    lemma_state_read_back(
                        t.1,
                        o.output,
                        OutputState { redraw_state: RedrawState::Idle, ..state },
                        output,
                    );
                },
                None => {},
            }
        }
        assert forall|k: int|
            0 <= k < names.len() && virtual_named(s.0, #[trigger] names[k]) is Some
                && virtual_named(s.0, names[k])->0.output == output && s.1.state_of(
                output,
            ) is Some implies u.1.state_of(output)->0.redraw_state is Idle by {
            if k < rest.len() {
                assert(rest[k] == names[k]);
            }
        }
    }
}

proof fn lemma_queued_is_listed(v: Seq<VirtualOutputView>, ewm: EwmView, i: int)
    requires
        0 <= i < v.len(),
        ewm.is_queued(v[i].name),
    ensures
        queued_names(v, ewm).contains(v[i].name),
    decreases v.len(),
{
    let before = queued_names(v.drop_last(), ewm);
    let all = queued_names(v, ewm);
    if i == v.len() - 1 {
        assert(all[before.len() as int] == v[i].name);
    } else {
        lemma_queued_is_listed(v.drop_last(), ewm, i);
        let k = choose|k: int| 0 <= k < before.len() && before[k] == v.drop_last()[i].name;
        assert(all[k] == v[i].name);
    }
}

pub proof fn lemma_state_at(entries: Seq<OutputEntry>, k: int)
    requires
        0 <= k < entries.len(),
        forall|i: int, j: int|
            0 <= i < j < entries.len() ==> (#[trigger] entries[i]).output != (
            #[trigger] entries[j]).output,
    ensures
        state_in(entries, entries[k].output) == Some(entries[k].state),
    decreases entries.len(),
{
    if k > 0 {
        assert(entries[0].output != entries[k].output);
        assert forall|i: int, j: int| 0 <= i < j < entries.drop_first().len() implies (
        #[trigger] entries.drop_first()[i]).output != (
        #[trigger] entries.drop_first()[j]).output by {
            assert(entries[i + 1].output != entries[j + 1].output);
        }
        lemma_state_at(entries.drop_first(), k - 1);
    }
}

/// Whether drawing the outputs of these names draws this one.
spec fn draws(v: Seq<VirtualOutputView>, names: Seq<Seq<char>>, output: OutputHandle) -> bool {
    exists|k: int|
        0 <= k < names.len() && virtual_named(v, #[trigger] names[k]) is Some && virtual_named(
            v,
            names[k],
        )->0.output == output
}

/// What drawing does to the state of an output: it is idle where the output is
/// drawn, and stays as it is otherwise.
proof fn lemma_drawn_state(
    s: (Seq<VirtualOutputView>, EwmView),
    names: Seq<Seq<char>>,
    output: OutputHandle,
)
    ensures
        render_names(s, names).1.state_of(output) == (match s.1.state_of(output) {
            Some(state) if draws(s.0, names, output) => Some(
                OutputState { redraw_state: RedrawState::Idle, ..state },
            ),
            state => state,
        }),
    decreases names.len(),
{
    if names.len() > 0 {
        let rest = names.drop_last();
        let name = names.last();
        lemma_drawn_state(s, rest, output);
        lemma_drawn_is_idle(s, rest, output);
        let t = render_names(s, rest);
        lemma_named_same(s.0, t.0, name);
        if draws(s.0, rest, output) {
            let k = choose|k: int|
                0 <= k < rest.len() && virtual_named(s.0, #[trigger] rest[k]) is Some
                    && virtual_named(s.0, rest[k])->0.output == output;
            assert(names[k] == rest[k]);
        }
        if draws(s.0, names, output) && !draws(s.0, rest, output) {
            let k = choose|k: int|
                0 <= k < names.len() && virtual_named(s.0, #[trigger] names[k]) is Some
                    && virtual_named(s.0, names[k])->0.output == output;
            if k < rest.len() {
                assert(rest[k] == names[k]);
            }
        }
        match virtual_named(t.0, name) {
            Some(o) => {
                if o.output == output {
                    assert(virtual_named(s.0, names[names.len() - 1]) is Some);
                }
                if let Some(state) = t.1.state_of(o.output) {
                    lemma_state_read_back(
                        t.1,
                        o.output,
                        OutputState { redraw_state: RedrawState::Idle, ..state },
                        output,
                    );
                }
            },
            None => {},
        }
    }
}

proof fn lemma_listed_is_queued(v: Seq<VirtualOutputView>, ewm: EwmView, name: Seq<char>)
    requires
        queued_names(v, ewm).contains(name),
    ensures
        ewm.is_queued(name),
        exists|i: int| 0 <= i < v.len() && (#[trigger] v[i]).name == name,
    decreases v.len(),
{
    if v.len() > 0 {
        let rest = v.drop_last();
        let before = queued_names(rest, ewm);
        if before.contains(name) {
            lemma_listed_is_queued(rest, ewm, name);
            let i = choose|i: int| 0 <= i < rest.len() && (#[trigger] rest[i]).name == name;
            assert(v[i].name == name);
        } else {
            assert(v[v.len() - 1].name == name);
        }
    }
}

/// Whether names and handles of virtual outputs agree with the outputs that
/// are mapped: none occurs twice, and an output that is mapped under the name
/// of one is that one.
pub open spec fn virtual_handles_agree(v: Seq<VirtualOutputView>, ewm: EwmView) -> bool {
    &&& names_unique(v)
    &&& forall|i: int, j: int|
        0 <= i < j < v.len() ==> (#[trigger] v[i]).output != (#[trigger] v[j]).output
    &&& forall|i: int|
        0 <= i < v.len() ==> match ewm.space.output_named((#[trigger] v[i]).name) {
            Some(o) => o.handle == v[i].output,
            None => true,
        }
}

proof fn lemma_first_pushed(
    outputs: Seq<OutputView>,
    o: OutputView,
    wanted: spec_fn(OutputView) -> bool,
)
    ensures
        first_output(outputs.push(o), wanted) == (match first_output(outputs, wanted) {
            Some(p) => Some(p),
            None => if wanted(o) {
                Some(o)
            } else {
                None
            },
        }),
    decreases outputs.len(),
{
    if outputs.len() > 0 {
        assert(outputs.push(o).drop_first() =~= outputs.drop_first().push(o));
        lemma_first_pushed(outputs.drop_first(), o, wanted);
    } else {
        assert(outputs.push(o).drop_first() =~= outputs);
    }
}

/// Names and handles of virtual outputs still agree with what is mapped after
/// one was added, under a name and with a handle that were free.
pub proof fn lemma_added_handles_agree(
    v: Seq<VirtualOutputView>,
    ewm: EwmView,
    o: VirtualOutputView,
    scaled: Size,
)
    requires
        virtual_handles_agree(v, ewm),
        ewm.space.output_named(o.name) is None,
        forall|i: int| 0 <= i < v.len() ==> (#[trigger] v[i]).name != o.name,
        forall|i: int| 0 <= i < v.len() ==> (#[trigger] v[i]).output != o.output,
    ensures
        virtual_handles_agree(v.push(o), ewm.add_virtual(o.name, o.size, o.output, scaled)),
        ewm.add_virtual(o.name, o.size, o.output, scaled).space.output_named(o.name) is Some,
{
    let w = v.push(o);
    let t = ewm.add_virtual(o.name, o.size, o.output, scaled);
    let p = new_output(ewm, o.name, o.size, o.output, scaled);
    assert(t.space.outputs == ewm.space.outputs.push(p));
    assert forall|i: int| 0 <= i < w.len() implies (match t.space.output_named(
        (#[trigger] w[i]).name,
    ) {
        Some(q) => q.handle == w[i].output,
        None => true,
    }) by {
        let name = w[i].name;
        lemma_first_pushed(ewm.space.outputs, p, |q: OutputView| q.name == name);
        if i < v.len() {
            assert(w[i] == v[i]);
        }
    }
    lemma_first_pushed(ewm.space.outputs, p, |q: OutputView| q.name == o.name);
    assert forall|i: int, j: int| 0 <= i < j < w.len() implies (#[trigger] w[i]).output != (
    #[trigger] w[j]).output && w[i].name != w[j].name by {
        assert(w[i] == v[i]);
        if j < v.len() {
            assert(w[j] == v[j]);
        }
    }
}

proof fn lemma_draws(v: Seq<VirtualOutputView>, ewm: EwmView, i: int)
    requires
        virtual_handles_agree(v, ewm),
        0 <= i < v.len(),
    ensures
        queued_names(v, ewm).contains(v[i].name) <==> ewm.is_queued(v[i].name),
        draws(v, queued_names(v, ewm), v[i].output) <==> ewm.is_queued(v[i].name),
{
    let names = queued_names(v, ewm);
    if ewm.is_queued(v[i].name) {
        lemma_queued_is_listed(v, ewm, i);
        lemma_named_output(v, i);
        let k = choose|k: int| 0 <= k < names.len() && names[k] == v[i].name;
        assert(virtual_named(v, names[k]) == Some(v[i]));
    }
    if names.contains(v[i].name) {
        lemma_listed_is_queued(v, ewm, v[i].name);
    }
    if draws(v, names, v[i].output) {
        let k = choose|k: int|
            0 <= k < names.len() && virtual_named(v, #[trigger] names[k]) is Some
                && virtual_named(v, names[k])->0.output == v[i].output;
        assert(names.contains(names[k]));
        lemma_listed_is_queued(v, ewm, names[k]);
        let j = choose|j: int| 0 <= j < v.len() && (#[trigger] v[j]).name == names[k];
        lemma_named_output(v, j);
        if i < j {
            assert(v[i].output != v[j].output);
        } else if j < i {
            assert(v[j].output != v[i].output);
        }
    }
}

/// A redraw draws each virtual output that is mapped and queued exactly once:
/// its frame is counted and it is idle after. Every other one keeps its count
/// and its state.
pub proof fn lemma_redraw_draws_queued(v: Seq<VirtualOutputView>, ewm: EwmView, i: int)
    requires
        virtual_handles_agree(v, ewm),
        counts_can_grow(v, 1),
        0 <= i < v.len(),
    ensures
        ({
            let t = render_names((v, ewm), queued_names(v, ewm));
            let queued = ewm.is_queued(v[i].name);
            &&& t.0.len() == v.len()
            &&& t.0[i].name == v[i].name
            &&& t.0[i].output == v[i].output
            &&& t.0[i].render_count == v[i].render_count + (if queued {
                1int
            } else {
                0int
            })
            &&& t.1.state_of(v[i].output) == (match ewm.state_of(v[i].output) {
                Some(state) if queued => Some(
                    OutputState { redraw_state: RedrawState::Idle, ..state },
                ),
                state => state,
            })
        }),
{
    let names = queued_names(v, ewm);
    lemma_queued_unique(v, ewm);
    lemma_render_names((v, ewm), names);
    lemma_drawn_is_idle((v, ewm), names, v[i].output);
    lemma_drawn_state((v, ewm), names, v[i].output);
    lemma_draws(v, ewm, i);
}

/// A redraw that follows a redraw at once draws nothing.
pub proof fn lemma_second_redraw_draws_nothing(v: Seq<VirtualOutputView>, ewm: EwmView)
    requires
        virtual_handles_agree(v, ewm),
        counts_can_grow(v, 1),
    ensures
        ({
            let t = BackendView::Headless(v).redraw(ewm);
            t.0.redraw(t.1) == t
        }),
{
    let names = queued_names(v, ewm);
    let t = render_names((v, ewm), names);
    lemma_drawn_is_idle((v, ewm), names, 0);
    assert forall|i: int| 0 <= i < t.0.len() implies !t.1.is_queued((#[trigger] t.0[i]).name) by {
        assert(t.0[i].name == v[i].name);
        lemma_redraw_draws_queued(v, ewm, i);
        assert(t.1.space == ewm.space);
    }
    lemma_no_request_no_frame(t.0, t.1);
}

/// After virtual outputs were redrawn, none is queued any more.
pub proof fn lemma_redraw_leaves_none_queued(v: Seq<VirtualOutputView>, ewm: EwmView, k: int)
    requires
        names_unique(v),
        virtual_outputs_mapped(v, ewm),
        ewm.outputs_wf(),
        0 <= k < ewm.output_state.len(),
    ensures
        ({
            let output = ewm.output_state[k].output;
            let after = BackendView::Headless(v).redraw(ewm).1.state_of(output);
            after is Some && !(after->0.redraw_state is Queued)
        }),
{
    let output = ewm.output_state[k].output;
    let names = queued_names(v, ewm);
    lemma_state_at(ewm.output_state, k);
    lemma_drawn_is_idle((v, ewm), names, output);
    let i = choose|i: int|
        0 <= i < v.len() && (#[trigger] v[i]).output == ewm.output_state[k].output;
    if ewm.output_state[k].state.redraw_state is Queued {
        assert(ewm.is_queued(v[i].name));
        lemma_queued_is_listed(v, ewm, i);
        lemma_named_output(v, i);
        let n = choose|n: int| 0 <= n < names.len() && names[n] == v[i].name;
        assert(virtual_named(v, names[n]) == Some(v[i]));
    }
}

proof fn lemma_none_queued(v: Seq<VirtualOutputView>, ewm: EwmView)
    requires
        forall|i: int| 0 <= i < v.len() ==> !ewm.is_queued((#[trigger] v[i]).name),
    ensures
        queued_names(v, ewm).len() == 0,
    decreases v.len(),
{
    if v.len() > 0 {
        assert forall|i: int| 0 <= i < v.drop_last().len() implies !ewm.is_queued(
            (#[trigger] v.drop_last()[i]).name,
        ) by {
            assert(v.drop_last()[i] == v[i]);
        }
        lemma_none_queued(v.drop_last(), ewm);
        assert(!ewm.is_queued(v[v.len() - 1].name));
    }
}

/// Without requests for a redraw no frame is drawn and nothing changes.
pub proof fn lemma_no_request_no_frame(v: Seq<VirtualOutputView>, ewm: EwmView)
    requires
        forall|i: int| 0 <= i < v.len() ==> !ewm.is_queued((#[trigger] v[i]).name),
    ensures
        BackendView::Headless(v).redraw(ewm) == (BackendView::Headless(v), ewm),
{
    lemma_none_queued(v, ewm);
}

} // verus!
