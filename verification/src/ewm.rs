//! The compositor's state, and what redraws, focus and outputs do to it.
//!
//! Surfaces, windows and outputs are known by handles that the display server
//! side hands out. What has to be done on that side is listed in `actions`,
//! in order.
use vstd::prelude::*;

use std::collections::{HashMap, HashSet};

use crate::action::{action_views, Action, ActionView};
use crate::event::{info_views, Event, EventView, OutputInfo, OutputInfoView};
use crate::geometry::{Point, Rectangle, Size};
use crate::layers::{
    find_layer, focus_on_output, interactivity_of, layer_focus_on_output, layer_views,
    KeyboardInteractivity, LayerSurface, LayerSurfaceView,
};
use crate::module::{
    FocusRecordView, Module, ModuleView, PointerLocation, SurfaceView,
};
use crate::names::NameMap;
use crate::output::{LockState, OutputConfig, OutputState};
use crate::pipewire::stream::{Cast, CastView};
use crate::space::{OutputHandle, OutputView, Space, SpaceView, WindowHandle};
use crate::text::{owned, same_text, str_view, views};

verus! {

/// What is known of a surface that belongs to an application.
#[derive(Debug, Clone)]
pub struct SurfaceInfo {
    pub app_id: String,
    pub title: String,
}

/// What a [`SurfaceInfo`] holds.
#[verifier::ext_equal]
pub struct SurfaceInfoView {
    pub app_id: Seq<char>,
    pub title: Seq<char>,
}

impl View for SurfaceInfo {
    type V = SurfaceInfoView;

    open spec fn view(&self) -> SurfaceInfoView {
        SurfaceInfoView { app_id: self.app_id@, title: self.title@ }
    }
}

/// A surface that an output is declared to show, with its place in the
/// output's free area.
#[derive(Debug, Clone, Copy, PartialEq, Eq, Structural)]
pub struct LayoutEntry {
    pub id: u32,
    pub x: i32,
    pub y: i32,
}

/// The state of one output, with the output's handle.
#[derive(Debug, Clone, Copy)]
pub struct OutputEntry {
    pub output: OutputHandle,
    pub state: OutputState,
}

/// A screen cast with the number of its session.
#[derive(Debug)]
pub struct CastEntry {
    pub session_id: usize,
    pub cast: Cast,
}

/// What a list of screen casts holds.
pub open spec fn cast_views(casts: Seq<CastEntry>) -> Seq<(usize, CastView)> {
    Seq::new(casts.len(), |i: int| (casts[i].session_id, casts[i].cast@))
}

/// The compositor's state.
#[derive(Debug)]
pub struct Ewm {
    /// The event loop can be told to stop.
    pub stop_signal: bool,
    pub space: Space,
    /// The id of the next surface; ids start at 1, and 0 means none.
    pub next_surface_id: u32,
    pub window_ids: HashMap<WindowHandle, u32>,
    pub id_windows: HashMap<u32, WindowHandle>,
    pub surface_info: HashMap<u32, SurfaceInfo>,
    pub surface_views: HashMap<u32, Vec<SurfaceView>>,
    /// What Emacs declared each output to show, by output name.
    pub output_layouts: NameMap<Vec<LayoutEntry>>,
    /// Extent of all outputs.
    pub output_size: Size,
    pub outputs: Vec<OutputInfo>,
    /// Desired configuration, by output name.
    pub output_config: NameMap<OutputConfig>,
    pub pointer_location: PointerLocation,
    /// The focused surface; what the keyboard focus follows.
    pub focused_surface_id: u32,
    /// The surface that has the keyboard.
    pub keyboard_focus: Option<u64>,
    /// The keyboard focus has to be brought in step.
    pub keyboard_focus_dirty: bool,
    pub emacs_pid: Option<u32>,
    /// Surfaces that belong to Emacs.
    pub emacs_surfaces: HashSet<u32>,
    pub pending_screenshot: Option<String>,
    pub output_state: Vec<OutputEntry>,
    pub pending_early_imports: Vec<u64>,
    /// Printable keys go to Emacs.
    pub text_input_intercept: bool,
    pub text_input_active: bool,
    /// Text can be committed through the input method.
    pub im_relay: bool,
    /// Layer surfaces, in the order in which they came.
    pub layers: Vec<LayerSurface>,
    pub unmapped_layer_surfaces: HashSet<u64>,
    /// The layer surface that was clicked and takes the keyboard on demand.
    pub layer_shell_on_demand_focus: Option<u64>,
    /// The part of each output that no layer surface reserves, by name.
    pub working_areas: NameMap<Rectangle>,
    pub lock_state: LockState,
    /// The surface that was focused when the session was locked.
    pub pre_lock_focus: Option<u32>,
    pub dbus_outputs: Vec<crate::dbus::OutputInfo>,
    pub screen_casts: Vec<CastEntry>,
    pub xkb_layout_names: Vec<String>,
    pub xkb_current_layout: usize,
    pub module: Module,
    pub actions: Vec<Action>,
}

/// What an [`Ewm`] holds.
#[verifier::ext_equal]
pub struct EwmView {
    pub stop_signal: bool,
    pub space: SpaceView,
    pub next_surface_id: u32,
    pub window_ids: Map<WindowHandle, u32>,
    pub id_windows: Map<u32, WindowHandle>,
    pub surface_info: Map<u32, SurfaceInfoView>,
    pub surface_views: Map<u32, Seq<SurfaceView>>,
    pub output_layouts: Map<Seq<char>, Seq<LayoutEntry>>,
    pub output_size: Size,
    pub outputs: Seq<OutputInfoView>,
    pub output_config: Map<Seq<char>, OutputConfig>,
    pub pointer_location: PointerLocation,
    pub focused_surface_id: u32,
    pub keyboard_focus: Option<u64>,
    pub keyboard_focus_dirty: bool,
    pub emacs_pid: Option<u32>,
    pub emacs_surfaces: Set<u32>,
    pub pending_screenshot: Option<Seq<char>>,
    pub output_state: Seq<OutputEntry>,
    pub pending_early_imports: Seq<u64>,
    pub text_input_intercept: bool,
    pub text_input_active: bool,
    pub im_relay: bool,
    pub layers: Seq<LayerSurfaceView>,
    pub unmapped_layer_surfaces: Set<u64>,
    pub layer_shell_on_demand_focus: Option<u64>,
    pub working_areas: Map<Seq<char>, Rectangle>,
    pub lock_state: LockState,
    pub pre_lock_focus: Option<u32>,
    pub dbus_outputs: Seq<crate::dbus::OutputInfoView>,
    pub screen_casts: Seq<(usize, CastView)>,
    pub xkb_layout_names: Seq<Seq<char>>,
    pub xkb_current_layout: usize,
    pub module: ModuleView,
    pub actions: Seq<ActionView>,
}

/// What the map of surface descriptions holds.
pub open spec fn surface_info_view(m: Map<u32, SurfaceInfo>) -> Map<u32, SurfaceInfoView> {
    Map::new(|id: u32| m.contains_key(id), |id: u32| m[id]@)
}

/// What the map of surface views holds.
pub open spec fn surface_views_view(m: Map<u32, Vec<SurfaceView>>) -> Map<u32, Seq<SurfaceView>> {
    Map::new(|id: u32| m.contains_key(id), |id: u32| m[id]@)
}

/// What the map of declared layouts holds.
pub open spec fn layouts_view(m: Map<Seq<char>, Vec<LayoutEntry>>) -> Map<
    Seq<char>,
    Seq<LayoutEntry>,
> {
    Map::new(|name: Seq<char>| m.contains_key(name), |name: Seq<char>| m[name]@)
}

impl View for Ewm {
    type V = EwmView;

    open spec fn view(&self) -> EwmView {
        EwmView {
            stop_signal: self.stop_signal,
            space: self.space@,
            next_surface_id: self.next_surface_id,
            window_ids: self.window_ids@,
            id_windows: self.id_windows@,
            surface_info: surface_info_view(self.surface_info@),
            surface_views: surface_views_view(self.surface_views@),
            output_layouts: layouts_view(self.output_layouts@),
            output_size: self.output_size,
            outputs: info_views(self.outputs@),
            output_config: self.output_config@,
            pointer_location: self.pointer_location,
            focused_surface_id: self.focused_surface_id,
            keyboard_focus: self.keyboard_focus,
            keyboard_focus_dirty: self.keyboard_focus_dirty,
            emacs_pid: self.emacs_pid,
            emacs_surfaces: self.emacs_surfaces@,
            pending_screenshot: crate::event::text_view(self.pending_screenshot),
            output_state: self.output_state@,
            pending_early_imports: self.pending_early_imports@,
            text_input_intercept: self.text_input_intercept,
            text_input_active: self.text_input_active,
            im_relay: self.im_relay,
            layers: layer_views(self.layers@),
            unmapped_layer_surfaces: self.unmapped_layer_surfaces@,
            layer_shell_on_demand_focus: self.layer_shell_on_demand_focus,
            working_areas: self.working_areas@,
            lock_state: self.lock_state,
            pre_lock_focus: self.pre_lock_focus,
            dbus_outputs: crate::dbus::info_views(self.dbus_outputs@),
            screen_casts: cast_views(self.screen_casts@),
            xkb_layout_names: views(self.xkb_layout_names@),
            xkb_current_layout: self.xkb_current_layout,
            module: self.module@,
            actions: action_views(self.actions@),
        }
    }
}

impl EwmView {
    /// The state at the start: no surface, no output, nothing focused, the
    /// keyboard layout `us`.
    pub open spec fn initial() -> EwmView {
        EwmView {
            stop_signal: false,
            space: SpaceView::empty(),
            next_surface_id: 1,
            window_ids: Map::empty(),
            id_windows: Map::empty(),
            surface_info: Map::empty(),
            surface_views: Map::empty(),
            output_layouts: Map::empty(),
            output_size: Size { w: 0, h: 0 },
            outputs: Seq::empty(),
            output_config: Map::empty(),
            pointer_location: PointerLocation::origin_spec(),
            focused_surface_id: 0,
            keyboard_focus: None,
            keyboard_focus_dirty: false,
            emacs_pid: None,
            emacs_surfaces: Set::empty(),
            pending_screenshot: None,
            output_state: Seq::empty(),
            pending_early_imports: Seq::empty(),
            text_input_intercept: false,
            text_input_active: false,
            im_relay: false,
            layers: Seq::empty(),
            unmapped_layer_surfaces: Set::empty(),
            layer_shell_on_demand_focus: None,
            working_areas: Map::empty(),
            lock_state: LockState::Unlocked,
            pre_lock_focus: None,
            dbus_outputs: Seq::empty(),
            screen_casts: Seq::empty(),
            xkb_layout_names: seq!["us"@],
            xkb_current_layout: 0,
            module: ModuleView::empty(),
            actions: Seq::empty(),
        }
    }

    /// With one more step for the display server side.
    pub open spec fn act(self, a: ActionView) -> EwmView {
        EwmView { actions: self.actions.push(a), ..self }
    }

    /// With one more event for Emacs.
    pub open spec fn tell(self, e: EventView) -> EwmView {
        EwmView { module: self.module.push_event_spec(e), ..self }
    }

    /// Surfaces, windows and outputs are tracked consistently: the two maps
    /// between windows and ids are inverse to each other, ids in use are at
    /// least 1 and below the next one, nothing is kept of a surface that is
    /// gone, the windows of the space are the tracked ones, and nothing is
    /// listed twice.
    pub open spec fn wf(self) -> bool {
        &&& self.next_surface_id >= 1
        &&& forall|w: WindowHandle| #[trigger]
            self.window_ids.contains_key(w) ==> self.id_windows.contains_key(self.window_ids[w])
                && self.id_windows[self.window_ids[w]] == w
        &&& forall|id: u32| #[trigger]
            self.id_windows.contains_key(id) ==> 1 <= id < self.next_surface_id
                && self.window_ids.contains_key(self.id_windows[id])
                && self.window_ids[self.id_windows[id]] == id
        &&& forall|id: u32| #[trigger]
            self.surface_info.contains_key(id) ==> self.id_windows.contains_key(id)
        &&& forall|id: u32| #[trigger]
            self.surface_views.contains_key(id) ==> self.id_windows.contains_key(id)
        &&& forall|id: u32| #[trigger]
            self.emacs_surfaces.contains(id) ==> self.id_windows.contains_key(id)
        &&& self.space.wf()
        &&& forall|i: int|
            0 <= i < self.space.elements.len() ==> self.window_ids.contains_key(
                (#[trigger] self.space.elements[i]).window,
            )
        &&& self.outputs_wf()
    }

    /// No output has two states.
    pub open spec fn outputs_wf(self) -> bool {
        forall|i: int, j: int|
            0 <= i < j < self.output_state.len() ==> (#[trigger] self.output_state[i]).output != (
            #[trigger] self.output_state[j]).output
    }

    // -- redraws ------------------------------------------------------------

    /// Whether an output is queued for a redraw.
    pub open spec fn any_queued(self) -> bool {
        exists|i: int|
            0 <= i < self.output_state.len() && (
            #[trigger] self.output_state[i]).state.redraw_state is Queued
    }

    /// A redraw requested of every output.
    pub open spec fn queue_redraw_all(self) -> EwmView {
        EwmView {
            output_state: self.output_state.map_values(
                |e: OutputEntry| OutputEntry { state: e.state.queued(), ..e },
            ),
            ..self
        }
    }

    /// A redraw requested of one output.
    pub open spec fn queue_redraw(self, output: OutputHandle) -> EwmView {
        EwmView {
            output_state: self.output_state.map_values(
                |e: OutputEntry|
                    if e.output == output {
                        OutputEntry { state: e.state.queued(), ..e }
                    } else {
                        e
                    },
            ),
            ..self
        }
    }

    /// One output's state replaced.
    pub open spec fn set_output_state(self, output: OutputHandle, state: OutputState) -> EwmView {
        EwmView {
            output_state: self.output_state.map_values(
                |e: OutputEntry|
                    if e.output == output {
                        OutputEntry { output, state }
                    } else {
                        e
                    },
            ),
            ..self
        }
    }

    /// The state of an output.
    pub open spec fn state_of(self, output: OutputHandle) -> Option<OutputState> {
        state_in(self.output_state, output)
    }

    // -- focus --------------------------------------------------------------

    /// The surface that text input goes to when the keyboard focus is on this
    /// one: none for a surface of Emacs, which has its own input methods.
    pub open spec fn text_focus(self, focused: Option<u64>) -> Option<u64> {
        match focused {
            Some(s) => if self.window_ids.contains_key(s) && self.emacs_surfaces.contains(
                self.window_ids[s],
            ) {
                None
            } else {
                Some(s)
            },
            None => None,
        }
    }

    /// Whether the focus is on a surface of Emacs.
    pub open spec fn is_focus_on_emacs(self) -> bool {
        self.emacs_surfaces.contains(self.focused_surface_id)
    }

    /// The focus moved to a surface, with the keyboard to follow.
    pub open spec fn focus_only(self, id: u32) -> EwmView {
        EwmView {
            focused_surface_id: id,
            keyboard_focus_dirty: true,
            module: ModuleView { focused_id: id, ..self.module },
            ..self
        }
    }

    /// The focus moved by a click or scroll: nothing changes where the surface
    /// is focused already or is none; Emacs is told unless the surface is its
    /// own.
    pub open spec fn set_focus(self, id: u32) -> EwmView {
        if id != self.focused_surface_id && id != 0 {
            if self.emacs_surfaces.contains(id) {
                self.focus_only(id)
            } else {
                self.focus_only(id).tell(EventView::Focus { id })
            }
        } else {
            self
        }
    }

    /// A change of the focus in the history.
    pub open spec fn record_focus(
        self,
        id: u32,
        source: Seq<char>,
        context: Option<Seq<char>>,
    ) -> EwmView {
        EwmView {
            module: ModuleView {
                focus_history: self.module.focus_history.push(
                    FocusRecordView { id, source, context },
                ),
                ..self.module
            },
            ..self
        }
    }

    /// The focus moved to a surface on behalf of `source`.
    pub open spec fn focus_from(
        self,
        id: u32,
        notify: bool,
        source: Seq<char>,
        context: Option<Seq<char>>,
    ) -> EwmView {
        let moved = self.record_focus(id, source, context).focus_only(id);
        if notify {
            moved.tell(EventView::Focus { id })
        } else {
            moved
        }
    }

    /// A click on a layer surface, or on none: one that takes the keyboard on
    /// demand gets it, and otherwise the one that had it loses it.
    pub open spec fn focus_layer_if_on_demand(self, surface: Option<u64>) -> EwmView {
        if surface is Some && interactivity_of(self.layers, surface->0) == Some(
            KeyboardInteractivity::OnDemand,
        ) {
            if self.layer_shell_on_demand_focus == surface {
                self
            } else {
                EwmView {
                    layer_shell_on_demand_focus: surface,
                    keyboard_focus_dirty: true,
                    ..self
                }
            }
        } else if self.layer_shell_on_demand_focus is Some {
            EwmView { layer_shell_on_demand_focus: None, keyboard_focus_dirty: true, ..self }
        } else {
            self
        }
    }

    /// Whether the focused surface is a window.
    pub open spec fn window_focused(self) -> bool {
        self.focused_surface_id != 0 && self.id_windows.contains_key(self.focused_surface_id)
    }

    /// The layer surface that takes the keyboard: that of the first mapped
    /// output that has one.
    pub open spec fn layer_focus(self) -> Option<u64> {
        first_layer_focus(
            self.space.outputs,
            self.layers,
            self.layer_shell_on_demand_focus,
            self.window_focused(),
        )
    }

    /// The layer surface that was clicked, as long as it exists and still
    /// takes the keyboard on demand.
    pub open spec fn live_on_demand(self) -> Option<u64> {
        match self.layer_shell_on_demand_focus {
            Some(s) if interactivity_of(self.layers, s) == Some(
                KeyboardInteractivity::OnDemand,
            ) => Some(s),
            _ => None,
        }
    }

    /// The surface that the keyboard focus belongs to.
    pub open spec fn wanted_focus(self) -> Option<u64> {
        if self.layer_focus() is Some {
            self.layer_focus()
        } else if self.id_windows.contains_key(self.focused_surface_id) {
            Some(self.id_windows[self.focused_surface_id])
        } else {
            None
        }
    }

    /// The keyboard focus brought in step with the focus.
    pub open spec fn sync_keyboard_focus(self) -> EwmView {
        if !self.keyboard_focus_dirty {
            self
        } else {
            let s = EwmView {
                keyboard_focus_dirty: false,
                layer_shell_on_demand_focus: self.live_on_demand(),
                ..self
            };
            if s.keyboard_focus != s.wanted_focus() {
                EwmView { keyboard_focus: s.wanted_focus(), ..s }.act(
                    ActionView::SetKeyboardFocus { surface: s.wanted_focus() },
                )
            } else {
                s
            }
        }
    }

    // -- where things are ---------------------------------------------------

    /// The output that shows the corner of a surface.
    pub open spec fn find_surface_output(self, id: u32) -> Option<OutputView> {
        if self.id_windows.contains_key(id) {
            match self.space.element_location(self.id_windows[id]) {
                Some(loc) => self.space.output_showing(loc),
                None => None,
            }
        } else {
            None
        }
    }

    /// The name of the output that a surface is on; that of the first output
    /// where none shows its corner.
    pub open spec fn surface_output(self, id: u32) -> Option<Seq<char>> {
        if !self.id_windows.contains_key(id) {
            None
        } else {
            match self.space.element_location(self.id_windows[id]) {
                Some(loc) => match self.space.output_showing(loc) {
                    Some(o) => Some(o.name),
                    None => primary_name(self.space),
                },
                None => None,
            }
        }
    }

    /// The name of the output that the focused surface is on.
    pub open spec fn focused_output(self) -> Option<Seq<char>> {
        if self.focused_surface_id == 0 {
            None
        } else {
            self.surface_output(self.focused_surface_id)
        }
    }

    /// The name of the output under the pointer.
    pub open spec fn output_under_cursor(self) -> Option<Seq<char>> {
        match self.space.output_showing(self.pointer_location.cell) {
            Some(o) => Some(o.name),
            None => None,
        }
    }

    /// The output for a new surface: the one under the pointer, or else the
    /// one of the focused surface, or else the first.
    pub open spec fn active_output(self) -> Option<Seq<char>> {
        if self.output_under_cursor() is Some {
            self.output_under_cursor()
        } else if self.focused_output() is Some {
            self.focused_output()
        } else {
            primary_name(self.space)
        }
    }

    /// Whether `id` is a good choice of an Emacs surface for the output with
    /// this name: one of those on that output where there is one.
    pub open spec fn emacs_surface_on(self, output: Seq<char>, id: u32) -> bool {
        self.emacs_surfaces.contains(id) && self.surface_output(id) == Some(output)
    }

    /// Whether `r` is the Emacs surface to go to from the focused surface:
    /// one on the same output where there is one, or else any, or none where
    /// there is none or the focused surface is on no output.
    pub open spec fn emacs_surface_choice(self, r: Option<u32>) -> bool {
        match self.focused_output() {
            None => r is None,
            Some(out) => if exists|id: u32| self.emacs_surface_on(out, id) {
                r is Some && self.emacs_surface_on(out, r->0)
            } else {
                match r {
                    Some(id) => self.emacs_surfaces.contains(id),
                    None => self.emacs_surfaces == Set::<u32>::empty(),
                }
            },
        }
    }

    // -- outputs ------------------------------------------------------------

    /// The extent of all outputs brought in step.
    pub open spec fn recalculate_output_size(self) -> EwmView {
        EwmView { output_size: self.space.total_size(), ..self }
    }

    /// Emacs told of a connected output.
    pub open spec fn send_output_detected(self, info: OutputInfoView) -> EwmView {
        EwmView {
            module: ModuleView {
                output_offsets: self.module.output_offsets.insert(
                    info.name,
                    Point { x: info.x, y: info.y },
                ),
                ..self.module
            },
            ..self
        }.tell(EventView::OutputDetected(info))
    }

    /// Emacs told of a disconnected output.
    pub open spec fn send_output_disconnected(self, name: Seq<char>) -> EwmView {
        EwmView {
            module: ModuleView {
                output_offsets: self.module.output_offsets.remove(name),
                ..self.module
            },
            ..self
        }.tell(EventView::OutputDisconnected { name })
    }
}

/// The state of the first entry for this output.
pub open spec fn state_in(entries: Seq<OutputEntry>, output: OutputHandle) -> Option<OutputState>
    decreases entries.len(),
{
    if entries.len() == 0 {
        None
    } else if entries[0].output == output {
        Some(entries[0].state)
    } else {
        state_in(entries.drop_first(), output)
    }
}

/// A change of every state that keeps the handles changes the state that is
/// found.
pub proof fn lemma_state_in_map(
    entries: Seq<OutputEntry>,
    output: OutputHandle,
    change: spec_fn(OutputEntry) -> OutputEntry,
)
    requires
        forall|e: OutputEntry| (#[trigger] change(e)).output == e.output,
    ensures
        state_in(entries.map_values(change), output) == match state_in(entries, output) {
            Some(state) => Some(change(OutputEntry { output, state }).state),
            None => None,
        },
    decreases entries.len(),
{
    if entries.len() > 0 {
        let mapped = entries.map_values(change);
        assert(mapped[0] == change(entries[0]));
        if entries[0].output == output {
            assert(entries[0] == (OutputEntry { output, state: entries[0].state }));
        } else {
            assert(mapped.drop_first() =~= entries.drop_first().map_values(change));
            lemma_state_in_map(entries.drop_first(), output, change);
        }
    }
}

/// The state that was set for an output is the one that it has; other outputs
/// keep theirs.
pub proof fn lemma_state_read_back(
    s: EwmView,
    output: OutputHandle,
    state: OutputState,
    other: OutputHandle,
)
    ensures
        s.state_of(output) is Some ==> s.set_output_state(output, state).state_of(output) == Some(
            state,
        ),
        s.state_of(output) is None ==> s.set_output_state(output, state).state_of(output) is None,
        other != output ==> s.set_output_state(output, state).state_of(other) == s.state_of(other),
{
    let change = |e: OutputEntry|
        if e.output == output {
            OutputEntry { output, state }
        } else {
            e
        };
    lemma_state_in_map(s.output_state, output, change);
    lemma_state_in_map(s.output_state, other, change);
}

/// A request for a redraw of an output changes its state, and not that of
/// others.
pub proof fn lemma_redraw_requested(s: EwmView, output: OutputHandle, other: OutputHandle)
    ensures
        s.queue_redraw(output).state_of(output) == match s.state_of(output) {
            Some(state) => Some(state.queued()),
            None => None,
        },
        other != output ==> s.queue_redraw(output).state_of(other) == s.state_of(other),
        s.queue_redraw_all().state_of(other) == match s.state_of(other) {
            Some(state) => Some(state.queued()),
            None => None,
        },
{
    let one = |e: OutputEntry|
        if e.output == output {
            OutputEntry { state: e.state.queued(), ..e }
        } else {
            e
        };
    let all = |e: OutputEntry| OutputEntry { state: e.state.queued(), ..e };
    lemma_state_in_map(s.output_state, output, one);
    lemma_state_in_map(s.output_state, other, one);
    lemma_state_in_map(s.output_state, other, all);
}

/// The name of the output that was mapped first.
pub open spec fn primary_name(space: SpaceView) -> Option<Seq<char>> {
    match space.primary() {
        Some(o) => Some(o.name),
        None => None,
    }
}

/// The layer surface that takes the keyboard: that of the first output that
/// has one.
pub open spec fn first_layer_focus(
    outputs: Seq<OutputView>,
    layers: Seq<LayerSurfaceView>,
    on_demand: Option<u64>,
    window_focused: bool,
) -> Option<u64>
    decreases outputs.len(),
{
    if outputs.len() == 0 {
        None
    } else {
        let here = focus_on_output(layers, outputs[0].handle, on_demand, window_focused);
        if here is Some {
            here
        } else {
            first_layer_focus(outputs.drop_first(), layers, on_demand, window_focused)
        }
    }
}

impl Ewm {
    /// The state at the start.
    pub fn new() -> (r: Ewm)
        ensures
            r@ == EwmView::initial(),
    {
        let mut layouts: Vec<String> = Vec::new();
        layouts.push(owned("us"));
        let r = Ewm {
            stop_signal: false,
            space: Space::new(),
            next_surface_id: 1,
            window_ids: HashMap::new(),
            id_windows: HashMap::new(),
            surface_info: HashMap::new(),
            surface_views: HashMap::new(),
            output_layouts: NameMap::new(),
            output_size: Size { w: 0, h: 0 },
            outputs: Vec::new(),
            output_config: NameMap::new(),
            pointer_location: PointerLocation::origin(),
            focused_surface_id: 0,
            keyboard_focus: None,
            keyboard_focus_dirty: false,
            emacs_pid: None,
            emacs_surfaces: HashSet::new(),
            pending_screenshot: None,
            output_state: Vec::new(),
            pending_early_imports: Vec::new(),
            text_input_intercept: false,
            text_input_active: false,
            im_relay: false,
            layers: Vec::new(),
            unmapped_layer_surfaces: HashSet::new(),
            layer_shell_on_demand_focus: None,
            working_areas: NameMap::new(),
            lock_state: LockState::Unlocked,
            pre_lock_focus: None,
            dbus_outputs: Vec::new(),
            screen_casts: Vec::new(),
            xkb_layout_names: layouts,
            xkb_current_layout: 0,
            module: Module::new(),
            actions: Vec::new(),
        };
        proof {
            assert(r@.surface_info =~= Map::empty());
            assert(r@.surface_views =~= Map::empty());
            assert(r@.output_layouts =~= Map::empty());
            assert(r@.xkb_layout_names =~= seq!["us"@]);
            assert(r@.outputs =~= Seq::empty());
            assert(r@.layers =~= Seq::empty());
            assert(r@.dbus_outputs =~= Seq::empty());
            assert(r@.screen_casts =~= Seq::empty());
            assert(r@.actions =~= Seq::empty());
        }
        r
    }

    /// Lists a step for the display server side.
    pub fn act(&mut self, action: Action)
        ensures
            final(self)@ == old(self)@.act(action@),
    {
        self.actions.push(action);
        proof {
            assert(action_views(self.actions@) =~= action_views(old(self).actions@).push(action@));
        }
    }

    /// Takes the steps listed so far.
    pub fn take_actions(&mut self) -> (r: Vec<Action>)
        ensures
            action_views(r@) == old(self)@.actions,
            final(self)@ == (EwmView { actions: Seq::empty(), ..old(self)@ }),
    {
        let mut r: Vec<Action> = Vec::new();
        core::mem::swap(&mut r, &mut self.actions);
        proof {
            assert(action_views(self.actions@) =~= Seq::empty());
        }
        r
    }

    /// Queues an event for Emacs.
    pub fn queue_event(&mut self, event: Event)
        ensures
            final(self)@ == old(self)@.tell(event@),
    {
        self.module.push_event(event);
    }

    // -- redraws ------------------------------------------------------------

    /// Requests a redraw of every output.
    pub fn queue_redraw_all(&mut self)
        ensures
            final(self)@ == old(self)@.queue_redraw_all(),
    {
        let ghost before = self.output_state@;
        let ghost goal = self@.queue_redraw_all().output_state;
        let mut i: usize = 0;
        while i < self.output_state.len()
            invariant
                i <= before.len(),
                self.output_state@.len() == before.len(),
                goal == old(self)@.queue_redraw_all().output_state,
                before == old(self)@.output_state,
                forall|j: int| 0 <= j < i ==> #[trigger] self.output_state@[j] == goal[j],
                forall|j: int|
                    i <= j < before.len() ==> #[trigger] self.output_state@[j] == before[j],
                self@ == (EwmView { output_state: self.output_state@, ..old(self)@ }),
            decreases before.len() - i,
        {
            let mut e: OutputEntry = self.output_state[i];
            e.state.redraw_state = e.state.redraw_state.queue_redraw();
            self.output_state[i] = e;
            i += 1;
        }
        proof {
            assert(self.output_state@ =~= goal);
        }
    }

    /// Requests a redraw of one output.
    pub fn queue_redraw(&mut self, output: OutputHandle)
        ensures
            final(self)@ == old(self)@.queue_redraw(output),
    {
        let ghost before = self.output_state@;
        let ghost goal = self@.queue_redraw(output).output_state;
        let mut i: usize = 0;
        while i < self.output_state.len()
            invariant
                i <= before.len(),
                self.output_state@.len() == before.len(),
                goal == old(self)@.queue_redraw(output).output_state,
                before == old(self)@.output_state,
                forall|j: int| 0 <= j < i ==> #[trigger] self.output_state@[j] == goal[j],
                forall|j: int|
                    i <= j < before.len() ==> #[trigger] self.output_state@[j] == before[j],
                self@ == (EwmView { output_state: self.output_state@, ..old(self)@ }),
            decreases before.len() - i,
        {
            let mut e: OutputEntry = self.output_state[i];
            if e.output == output {
                e.state.redraw_state = e.state.redraw_state.queue_redraw();
                self.output_state[i] = e;
            }
            i += 1;
        }
        proof {
            assert(self.output_state@ =~= goal);
        }
    }

    /// The state of an output.
    pub fn state_of(&self, output: OutputHandle) -> (r: Option<OutputState>)
        ensures
            r == self@.state_of(output),
    {
        let mut i: usize = 0;
        proof {
            assert(self.output_state@.skip(0) =~= self.output_state@);
        }
        while i < self.output_state.len()
            invariant
                i <= self.output_state@.len(),
                state_in(self.output_state@, output) == state_in(
                    self.output_state@.skip(i as int),
                    output,
                ),
            decreases self.output_state@.len() - i,
        {
            proof {
                assert(self.output_state@.skip(i as int).drop_first() =~= self.output_state@.skip(
                    i + 1,
                ));
            }
            if self.output_state[i].output == output {
                return Some(self.output_state[i].state);
            }
            i += 1;
        }
        None
    }

    /// Replaces the state of an output.
    pub fn set_output_state(&mut self, output: OutputHandle, state: OutputState)
        ensures
            final(self)@ == old(self)@.set_output_state(output, state),
    {
        let ghost before = self.output_state@;
        let ghost goal = self@.set_output_state(output, state).output_state;
        let mut i: usize = 0;
        while i < self.output_state.len()
            invariant
                i <= before.len(),
                self.output_state@.len() == before.len(),
                goal == old(self)@.set_output_state(output, state).output_state,
                before == old(self)@.output_state,
                forall|j: int| 0 <= j < i ==> #[trigger] self.output_state@[j] == goal[j],
                forall|j: int|
                    i <= j < before.len() ==> #[trigger] self.output_state@[j] == before[j],
                self@ == (EwmView { output_state: self.output_state@, ..old(self)@ }),
            decreases before.len() - i,
        {
            if self.output_state[i].output == output {
                self.output_state[i] = OutputEntry { output, state };
            }
            i += 1;
        }
        proof {
            assert(self.output_state@ =~= goal);
        }
    }

    /// Whether an output is queued for a redraw.
    pub fn has_queued_redraws(&self) -> (r: bool)
        ensures
            r == self@.any_queued(),
    {
        let mut i: usize = 0;
        while i < self.output_state.len()
            invariant
                i <= self.output_state@.len(),
                forall|j: int|
                    0 <= j < i ==> !((
                    #[trigger] self.output_state@[j]).state.redraw_state is Queued),
            decreases self.output_state@.len() - i,
        {
            if self.output_state[i].state.redraw_state.is_queued() {
                proof {
                    assert(self@.output_state[i as int].state.redraw_state is Queued);
                }
                return true;
            }
            i += 1;
        }
        false
    }

    // -- the event loop -----------------------------------------------------

    /// Remembers that the event loop can be told to stop.
    pub fn set_stop_signal(&mut self)
        ensures
            final(self)@ == (EwmView { stop_signal: true, ..old(self)@ }),
    {
        self.stop_signal = true;
    }

    /// Asks the event loop to stop, where that is possible.
    pub fn stop(&mut self)
        ensures
            final(self)@ == (if old(self)@.stop_signal {
                old(self)@.act(ActionView::StopLoop)
            } else {
                old(self)@
            }),
    {
        if self.stop_signal {
            self.act(Action::StopLoop);
        }
    }

    /// Remembers whether the input method relay is connected.
    pub fn connect_im_relay(&mut self, connected: bool)
        ensures
            final(self)@ == (EwmView { im_relay: connected, ..old(self)@ }),
    {
        self.im_relay = connected;
    }

    // -- Emacs --------------------------------------------------------------

    /// Remembers the process id of Emacs.
    pub fn set_emacs_pid(&mut self, pid: u32)
        ensures
            final(self)@ == (EwmView { emacs_pid: Some(pid), ..old(self)@ }),
    {
        self.emacs_pid = Some(pid);
    }

    /// Whether a client with this process id is Emacs. A client whose
    /// credentials are not known is not.
    pub fn is_emacs_client(&self, client_pid: Option<i32>) -> (r: bool)
        ensures
            r == is_emacs_pid(self@.emacs_pid, client_pid),
    {
        match self.emacs_pid {
            Some(emacs_pid) => match client_pid {
                Some(pid) => pid == #[verifier::truncate] (emacs_pid as i32),
                None => false,
            },
            None => false,
        }
    }

    /// Whether the focus is on a surface of Emacs.
    pub fn is_focus_on_emacs(&self) -> (r: bool)
        ensures
            r == self@.is_focus_on_emacs(),
    {
        self.emacs_surfaces.contains(&self.focused_surface_id)
    }

    // -- focus --------------------------------------------------------------

    fn focus_only(&mut self, id: u32)
        ensures
            final(self)@ == old(self)@.focus_only(id),
    {
        self.focused_surface_id = id;
        self.keyboard_focus_dirty = true;
        self.module.focused_id = id;
    }

    /// Moves the focus to a surface, and tells Emacs unless the surface is its
    /// own.
    pub fn set_focus(&mut self, id: u32)
        ensures
            final(self)@ == old(self)@.set_focus(id),
    {
        if id != self.focused_surface_id && id != 0 {
            self.focus_only(id);
            if !self.emacs_surfaces.contains(&id) {
                self.queue_event(Event::Focus { id });
            }
        }
    }

    /// Moves the focus to a surface.
    pub fn focus_surface(&mut self, id: u32, notify_emacs: bool)
        ensures
            final(self)@ == old(self)@.focus_from(id, notify_emacs, "focus_surface"@, None),
    {
        self.focus_surface_with_source(id, notify_emacs, "focus_surface", None);
    }

    /// Moves the focus to a surface on behalf of `source`, and records both
    /// `source` and `context`.
    pub fn focus_surface_with_source(
        &mut self,
        id: u32,
        notify_emacs: bool,
        source: &str,
        context: Option<&str>,
    )
        ensures
            final(self)@ == old(self)@.focus_from(id, notify_emacs, source@, str_view(context)),
    {
        self.module.record_focus(id, source, context);
        self.focus_only(id);
        if notify_emacs {
            self.queue_event(Event::Focus { id });
        }
    }

    /// Records a change of the focus.
    pub fn record_focus(&mut self, id: u32, source: &str, context: Option<&str>)
        ensures
            final(self)@ == old(self)@.record_focus(id, source@, str_view(context)),
    {
        self.module.record_focus(id, source, context);
    }

    /// Takes up a click on a layer surface, or on none.
    pub fn focus_layer_surface_if_on_demand(&mut self, surface: Option<u64>)
        ensures
            final(self)@ == old(self)@.focus_layer_if_on_demand(surface),
    {
        if let Some(s) = surface {
            if let Some(i) = find_layer(&self.layers, s) {
                if self.layers[i].interactivity == KeyboardInteractivity::OnDemand {
                    let same: bool = match self.layer_shell_on_demand_focus {
                        Some(f) => f == s,
                        None => false,
                    };
                    if !same {
                        self.layer_shell_on_demand_focus = Some(s);
                        self.keyboard_focus_dirty = true;
                    }
                    return;
                }
            }
        }
        if self.layer_shell_on_demand_focus.is_some() {
            self.layer_shell_on_demand_focus = None;
            self.keyboard_focus_dirty = true;
        }
    }

    /// The layer surface that takes the keyboard.
    pub fn resolve_layer_keyboard_focus(&self) -> (r: Option<u64>)
        ensures
            r == self@.layer_focus(),
    {
        let window_focused: bool = self.focused_surface_id != 0 && self.id_windows.contains_key(
            &self.focused_surface_id,
        );
        let ghost outputs = self@.space.outputs;
        let mut i: usize = 0;
        proof {
            assert(outputs.skip(0) =~= outputs);
        }
        while i < self.space.outputs.len()
            invariant
                i <= self.space.outputs@.len(),
                outputs == self@.space.outputs,
                window_focused == self@.window_focused(),
                self@.layer_focus() == first_layer_focus(
                    outputs.skip(i as int),
                    self@.layers,
                    self@.layer_shell_on_demand_focus,
                    window_focused,
                ),
            decreases self.space.outputs@.len() - i,
        {
            proof {
                assert(outputs.skip(i as int)[0] == self.space.outputs@[i as int]@);
                assert(outputs.skip(i as int).drop_first() =~= outputs.skip(i + 1));
            }
            let here: Option<u64> = layer_focus_on_output(
                &self.layers,
                self.space.outputs[i].handle,
                self.layer_shell_on_demand_focus,
                window_focused,
            );
            if here.is_some() {
                return here;
            }
            i += 1;
        }
        None
    }

    /// Brings the keyboard focus in step with the focus, where it may be out
    /// of step: to the layer surface that takes the keyboard, or else to the
    /// focused window.
    pub fn sync_keyboard_focus(&mut self)
        ensures
            final(self)@ == old(self)@.sync_keyboard_focus(),
    {
        if !self.keyboard_focus_dirty {
            return;
        }
        self.keyboard_focus_dirty = false;
        if let Some(s) = self.layer_shell_on_demand_focus {
            let good: bool = match find_layer(&self.layers, s) {
                Some(i) => self.layers[i].interactivity == KeyboardInteractivity::OnDemand,
                None => false,
            };
            if !good {
                self.layer_shell_on_demand_focus = None;
            }
        }
        let layer_focus: Option<u64> = self.resolve_layer_keyboard_focus();
        let new_focus: Option<u64> = if layer_focus.is_some() {
            layer_focus
        } else {
            match self.id_windows.get(&self.focused_surface_id) {
                Some(w) => Some(*w),
                None => None,
            }
        };
        if self.keyboard_focus != new_focus {
            self.keyboard_focus = new_focus;
            self.act(Action::SetKeyboardFocus { surface: new_focus });
        }
    }

    /// The surface that text input goes to when the keyboard focus is on this
    /// one: none for a surface of Emacs, which has its own input methods.
    pub fn update_text_input_focus(&mut self, surface: Option<u64>, surface_id: Option<u32>)
        ensures
            final(self)@ == old(self)@.act(
                ActionView::SetTextInputFocus {
                    surface: if surface_id is Some && old(self)@.emacs_surfaces.contains(
                        surface_id->0,
                    ) {
                        None
                    } else {
                        surface
                    },
                },
            ),
    {
        let is_emacs: bool = match surface_id {
            Some(id) => self.emacs_surfaces.contains(&id),
            None => false,
        };
        if is_emacs || surface.is_none() {
            self.act(Action::SetTextInputFocus { surface: None });
        } else {
            self.act(Action::SetTextInputFocus { surface });
        }
    }

    /// The id of the surface with this handle.
    pub fn surface_id(&self, surface: u64) -> (r: Option<u32>)
        ensures
            r == if self@.window_ids.contains_key(surface) {
                Some(self@.window_ids[surface])
            } else {
                None
            },
    {
        match self.window_ids.get(&surface) {
            Some(id) => Some(*id),
            None => None,
        }
    }

    /// Takes up that the keyboard focus moved: text input follows it.
    pub fn focus_changed(&mut self, focused: Option<u64>)
        ensures
            final(self)@ == old(self)@.act(
                ActionView::SetTextInputFocus { surface: old(self)@.text_focus(focused) },
            ),
    {
        let id: Option<u32> = match focused {
            Some(s) => self.surface_id(s),
            None => None,
        };
        self.update_text_input_focus(focused, id);
    }

    // -- where things are ---------------------------------------------------

    /// The output that shows the corner of a surface.
    pub fn find_surface_output(&self, surface_id: u32) -> (r: Option<OutputHandle>)
        ensures
            r == match self@.find_surface_output(surface_id) {
                Some(o) => Some(o.handle),
                None => None,
            },
    {
        match self.id_windows.get(&surface_id) {
            Some(w) => match self.space.element_location(*w) {
                Some(loc) => match self.space.output_index_showing(loc) {
                    Some(i) => Some(self.space.outputs[i].handle),
                    None => None,
                },
                None => None,
            },
            None => None,
        }
    }

    fn primary_name(&self) -> (r: Option<String>)
        ensures
            crate::event::text_view(r) == primary_name(self@.space),
    {
        if self.space.outputs.len() > 0 {
            Some(self.space.outputs[0].name.clone())
        } else {
            None
        }
    }

    /// The name of the output that a surface is on.
    pub fn get_surface_output(&self, surface_id: u32) -> (r: Option<String>)
        ensures
            crate::event::text_view(r) == self@.surface_output(surface_id),
    {
        match self.id_windows.get(&surface_id) {
            Some(w) => match self.space.element_location(*w) {
                Some(loc) => match self.space.output_index_showing(loc) {
                    Some(i) => Some(self.space.outputs[i].name.clone()),
                    None => self.primary_name(),
                },
                None => None,
            },
            None => None,
        }
    }

    /// The name of the output that the focused surface is on.
    pub fn get_focused_output(&self) -> (r: Option<String>)
        ensures
            crate::event::text_view(r) == self@.focused_output(),
    {
        if self.focused_surface_id == 0 {
            None
        } else {
            self.get_surface_output(self.focused_surface_id)
        }
    }

    /// The name of the output under the pointer.
    pub fn output_under_cursor(&self) -> (r: Option<String>)
        ensures
            crate::event::text_view(r) == self@.output_under_cursor(),
    {
        match self.space.output_index_showing(self.pointer_location.cell) {
            Some(i) => Some(self.space.outputs[i].name.clone()),
            None => None,
        }
    }

    /// The name of the output for a new surface.
    pub fn active_output(&self) -> (r: Option<String>)
        ensures
            crate::event::text_view(r) == self@.active_output(),
    {
        let under: Option<String> = self.output_under_cursor();
        if under.is_some() {
            return under;
        }
        let focused: Option<String> = self.get_focused_output();
        if focused.is_some() {
            return focused;
        }
        self.primary_name()
    }

    /// The output at a place, or else the first.
    pub fn output_at(&self, location: &PointerLocation) -> (r: Option<OutputHandle>)
        ensures
            r == match self@.output_at(*location) {
                Some(o) => Some(o.handle),
                None => None,
            },
    {
        match self.space.output_index_showing(location.cell) {
            Some(i) => Some(self.space.outputs[i].handle),
            None => if self.space.outputs.len() > 0 {
                Some(self.space.outputs[0].handle)
            } else {
                None
            },
        }
    }

    /// An Emacs surface on the same output as the focused surface, or else any
    /// Emacs surface.
    pub fn get_emacs_surface_for_focused_output(&self) -> (r: Option<u32>)
        ensures
            self@.emacs_surface_choice(r),
    {
        match self.get_focused_output() {
            Some(out) => {
                let mut any: Option<u32> = None;
                for id in it: self.emacs_surfaces.iter()
                    invariant
                        it.seq().unref().to_set() == self@.emacs_surfaces,
                        self@.focused_output() == Some(out@),
                        match any {
                            Some(a) => self@.emacs_surfaces.contains(a),
                            None => it.index() == 0,
                        },
                        forall|j: int|
                            0 <= j < it.index() ==> !self@.emacs_surface_on(
                                out@,
                                *(#[trigger] it.seq()[j]),
                            ),
                {
                    proof {
                        assert(it.seq().unref()[it.index()] == *id);
                        assert(it.seq().unref().to_set().contains(*id));
                    }
                    let here: bool = match self.get_surface_output(*id) {
                        Some(o) => same_text(o.as_str(), out.as_str()),
                        None => false,
                    };
                    if here {
                        return Some(*id);
                    }
                    if any.is_none() {
                        any = Some(*id);
                    }
                }
                proof {
                    assert forall|id: u32| !self@.emacs_surface_on(out@, id) by {
                        if self@.emacs_surfaces.contains(id) {
                        }
                    }
                    if any is None {
                        assert(self@.emacs_surfaces =~= Set::<u32>::empty());
                    }
                }
                any
            },
            None => None,
        }
    }

    // -- outputs ------------------------------------------------------------

    /// Brings the extent of all outputs in step.
    pub fn recalculate_output_size(&mut self)
        ensures
            final(self)@ == old(self)@.recalculate_output_size(),
    {
        self.output_size = self.space.total_size();
    }

    /// Tells Emacs of a connected output.
    pub fn send_output_detected(&mut self, output: OutputInfo)
        ensures
            final(self)@ == old(self)@.send_output_detected(output@),
    {
        self.module.set_output_offset(
            output.name.as_str(),
            Point { x: output.x, y: output.y },
        );
        self.queue_event(Event::OutputDetected(output));
    }

    /// Tells Emacs of a disconnected output.
    pub fn send_output_disconnected(&mut self, name: &str)
        ensures
            final(self)@ == old(self)@.send_output_disconnected(name@),
    {
        self.module.remove_output(name);
        self.queue_event(Event::OutputDisconnected { name: owned(name) });
    }
}

impl EwmView {
    /// The output at a place, or else the first.
    pub open spec fn output_at(self, location: PointerLocation) -> Option<OutputView> {
        match self.space.output_showing(location.cell) {
            Some(o) => Some(o),
            None => self.space.primary(),
        }
    }
}

/// Whether a client with this process id is Emacs.
pub open spec fn is_emacs_pid(emacs_pid: Option<u32>, client_pid: Option<i32>) -> bool {
    match (emacs_pid, client_pid) {
        (Some(e), Some(c)) => c == e as i32,
        _ => false,
    }
}

} // verus!
