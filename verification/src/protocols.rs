//! Activation, clipboard, foreign toplevels, frame callbacks and state
//! reports.
use vstd::prelude::*;

use crate::action::{Action, ActionView};
use crate::event::{text_view, Event, EventView};
use crate::ewm::{Ewm, EwmView};
use crate::geometry::Rectangle;
use crate::hits::contains_handle;
use crate::im_relay::ImEvent;
use crate::layers::{
    layer_views, KeyboardInteractivity, Layer, LayerSurface, LayerSurfaceView,
};
use crate::pipewire::stream::CastView;
use crate::space::{OutputHandle, OutputView, Placed};
use crate::text::{contains_text, occurs, owned, views};

verus! {

/// How long an activation token is good, in milliseconds.
pub const TOKEN_TIMEOUT_MS: u64 = 10_000;

/// After how long, in nanoseconds, a surface gets a frame callback even where
/// it is held back: 995 milliseconds.
pub const FRAME_CALLBACK_THROTTLE_NS: u64 = 995_000_000;

// ---------------------------------------------------------------------------
// Activation
// ---------------------------------------------------------------------------
/// Whether serial `a` is `b` or came later. Serials wrap around: of two that
/// are half the range apart or more, the smaller came later.
pub open spec fn no_older_than(a: u32, b: u32) -> bool {
    let distance = if a > b {
        a - b
    } else {
        b - a
    };
    if distance < u32::MAX / 2 {
        b <= a
    } else {
        a <= b
    }
}

/// Whether serial `a` is `b` or came later.
pub fn is_no_older_than(a: u32, b: u32) -> (r: bool)
    ensures
        r == no_older_than(a, b),
{
    let distance: u32 = if a > b {
        a - b
    } else {
        b - a
    };
    if distance < u32::MAX / 2 {
        b <= a
    } else {
        a <= b
    }
}

/// Whether a new activation token is accepted: it carries the serial of an
/// event of a known seat that is no older than the last time that the
/// keyboard entered a surface.
pub open spec fn token_accepted(
    serial: Option<u32>,
    seat_known: bool,
    last_enter: Option<u32>,
) -> bool {
    serial is Some && seat_known && last_enter is Some && no_older_than(serial->0, last_enter->0)
}

/// Whether a new activation token is accepted.
pub fn token_created(serial: Option<u32>, seat_known: bool, last_enter: Option<u32>) -> (r: bool)
    ensures
        r == token_accepted(serial, seat_known, last_enter),
{
    match serial {
        Some(serial) => if !seat_known {
            false
        } else {
            match last_enter {
                Some(enter) => is_no_older_than(serial, enter),
                None => false,
            }
        },
        None => false,
    }
}

impl EwmView {
    /// The state after a surface asked for the focus with a token of this age;
    /// the token is used up in any case.
    pub open spec fn activation_requested(self, age_ms: u64, surface: u64, token: u64) -> EwmView {
        let s = if age_ms < TOKEN_TIMEOUT_MS && self.window_ids.contains_key(surface) {
            self.focus_from(self.window_ids[surface], true, "xdg_activation"@, None)
        } else {
            self
        };
        s.act(ActionView::RemoveToken { token })
    }
}

// ---------------------------------------------------------------------------
// Foreign toplevels
// ---------------------------------------------------------------------------
/// A window, as other programs are told of it.
#[derive(Debug)]
pub struct WindowInfo {
    pub id: u32,
    pub surface: u64,
    pub title: Option<String>,
    pub app_id: String,
    pub output: Option<OutputHandle>,
    pub is_focused: bool,
}

/// What a [`WindowInfo`] holds.
#[verifier::ext_equal]
pub struct WindowInfoView {
    pub id: u32,
    pub surface: u64,
    pub title: Option<Seq<char>>,
    pub app_id: Seq<char>,
    pub output: Option<OutputHandle>,
    pub is_focused: bool,
}

impl View for WindowInfo {
    type V = WindowInfoView;

    open spec fn view(&self) -> WindowInfoView {
        WindowInfoView {
            id: self.id,
            surface: self.surface,
            title: text_view(self.title),
            app_id: self.app_id@,
            output: self.output,
            is_focused: self.is_focused,
        }
    }
}

impl EwmView {
    /// Whether other programs are told of this surface: it is a window that
    /// is described and does not belong to Emacs.
    pub open spec fn is_foreign(self, id: u32) -> bool {
        self.id_windows.contains_key(id) && !self.emacs_surfaces.contains(id)
            && self.surface_info.contains_key(id)
    }

    /// Whether `ids` are the ids of all windows, each once.
    pub open spec fn lists_windows(self, ids: Seq<u32>) -> bool {
        ids.no_duplicates() && ids.to_set() == self.id_windows.dom()
    }

    /// What other programs are told of the surfaces of a list.
    pub open spec fn foreign_infos(self, ids: Seq<u32>) -> Seq<WindowInfoView>
        decreases ids.len(),
    {
        if ids.len() == 0 {
            Seq::empty()
        } else {
            let before = self.foreign_infos(ids.drop_last());
            if self.is_foreign(ids.last()) {
                before.push(self.window_info(ids.last()))
            } else {
                before
            }
        }
    }

    /// What other programs are told of this surface; an empty title counts as
    /// none.
    pub open spec fn window_info(self, id: u32) -> WindowInfoView {
        let info = self.surface_info[id];
        WindowInfoView {
            id,
            surface: self.id_windows[id],
            title: if info.title.len() == 0 {
                None
            } else {
                Some(info.title)
            },
            app_id: info.app_id,
            output: match self.find_surface_output(id) {
                Some(o) => Some(o.handle),
                None => None,
            },
            is_focused: self.focused_surface_id == id,
        }
    }
}

/// What a list of windows holds.
pub open spec fn window_info_views(v: Seq<WindowInfo>) -> Seq<WindowInfoView> {
    Seq::new(v.len(), |i: int| v[i]@)
}

// ---------------------------------------------------------------------------
// Reports
// ---------------------------------------------------------------------------
/// The free area of an output, for a state report.
#[derive(Debug)]
pub struct WorkingAreaInfo {
    pub output: String,
    pub x: i32,
    pub y: i32,
    pub width: i32,
    pub height: i32,
}

/// A layer surface, for a state report.
#[derive(Debug)]
pub struct LayerSurfaceInfo {
    pub namespace: String,
    pub layer: Layer,
    pub output: String,
    pub keyboard_interactivity: KeyboardInteractivity,
    pub geometry: Rectangle,
    pub on_demand_focused: bool,
}

/// What a [`LayerSurfaceInfo`] holds.
#[verifier::ext_equal]
pub struct LayerSurfaceInfoView {
    pub namespace: Seq<char>,
    pub layer: Layer,
    pub output: Seq<char>,
    pub keyboard_interactivity: KeyboardInteractivity,
    pub geometry: Rectangle,
    pub on_demand_focused: bool,
}

impl View for LayerSurfaceInfo {
    type V = LayerSurfaceInfoView;

    open spec fn view(&self) -> LayerSurfaceInfoView {
        LayerSurfaceInfoView {
            namespace: self.namespace@,
            layer: self.layer,
            output: self.output@,
            keyboard_interactivity: self.keyboard_interactivity,
            geometry: self.geometry,
            on_demand_focused: self.on_demand_focused,
        }
    }
}

/// What a list of reports holds.
pub open spec fn layer_info_views(v: Seq<LayerSurfaceInfo>) -> Seq<LayerSurfaceInfoView> {
    Seq::new(v.len(), |i: int| v[i]@)
}

/// The report of one layer surface.
pub open spec fn layer_info(
    l: LayerSurfaceView,
    output: Seq<char>,
    on_demand: Option<u64>,
) -> LayerSurfaceInfoView {
    LayerSurfaceInfoView {
        namespace: l.namespace,
        layer: l.layer,
        output,
        keyboard_interactivity: l.interactivity,
        geometry: l.geometry,
        on_demand_focused: on_demand == Some(l.surface),
    }
}

/// The reports of the surfaces on one layer of one output, in order.
pub open spec fn layer_infos_on(
    layers: Seq<LayerSurfaceView>,
    o: OutputView,
    layer: Layer,
    on_demand: Option<u64>,
) -> Seq<LayerSurfaceInfoView>
    decreases layers.len(),
{
    if layers.len() == 0 {
        Seq::empty()
    } else {
        let before = layer_infos_on(layers.drop_last(), o, layer, on_demand);
        let l = layers.last();
        if l.output == o.handle && l.layer == layer {
            before.push(layer_info(l, o.name, on_demand))
        } else {
            before
        }
    }
}

/// The reports of the layer surfaces of the outputs, for each output from the
/// overlay layer down to the background.
pub open spec fn layer_infos(
    outputs: Seq<OutputView>,
    layers: Seq<LayerSurfaceView>,
    on_demand: Option<u64>,
) -> Seq<LayerSurfaceInfoView>
    decreases outputs.len(),
{
    if outputs.len() == 0 {
        Seq::empty()
    } else {
        let o = outputs.last();
        layer_infos(outputs.drop_last(), layers, on_demand) + layer_infos_on(
            layers,
            o,
            Layer::Overlay,
            on_demand,
        ) + layer_infos_on(layers, o, Layer::Top, on_demand) + layer_infos_on(
            layers,
            o,
            Layer::Bottom,
            on_demand,
        ) + layer_infos_on(layers, o, Layer::Background, on_demand)
    }
}

/// The name of a way to take the keyboard.
pub fn interactivity_name(k: KeyboardInteractivity) -> (r: String)
    ensures
        r@ == match k {
            KeyboardInteractivity::Never => "none"@,
            KeyboardInteractivity::Exclusive => "exclusive"@,
            KeyboardInteractivity::OnDemand => "on_demand"@,
        },
{
    match k {
        KeyboardInteractivity::Never => owned("none"),
        KeyboardInteractivity::Exclusive => owned("exclusive"),
        KeyboardInteractivity::OnDemand => owned("on_demand"),
    }
}

/// The name of a layer.
pub fn layer_name(layer: Layer) -> (r: String)
    ensures
        r@ == match layer {
            Layer::Background => "Background"@,
            Layer::Bottom => "Bottom"@,
            Layer::Top => "Top"@,
            Layer::Overlay => "Overlay"@,
        },
{
    match layer {
        Layer::Background => owned("Background"),
        Layer::Bottom => owned("Bottom"),
        Layer::Top => owned("Top"),
        Layer::Overlay => owned("Overlay"),
    }
}

// ---------------------------------------------------------------------------
// Frame callbacks
// ---------------------------------------------------------------------------
/// Whether a surface gets a frame callback for this output: it is shown there
/// first of all, and has not had one in this refresh cycle.
pub open spec fn frame_due(
    primary: Option<OutputHandle>,
    last_sent: Option<(OutputHandle, u32)>,
    output: OutputHandle,
    sequence: u32,
) -> bool {
    primary == Some(output) && last_sent != Some((output, sequence))
}

/// Decides whether a surface gets a frame callback, and remembers that it
/// did.
pub fn send_frame_callback(
    primary: Option<OutputHandle>,
    last_sent: &mut Option<(OutputHandle, u32)>,
    output: OutputHandle,
    sequence: u32,
) -> (r: bool)
    ensures
        r == frame_due(primary, *old(last_sent), output, sequence),
        *final(last_sent) == (if r {
            Some((output, sequence))
        } else {
            *old(last_sent)
        }),
{
    match primary {
        Some(p) => {
            if p != output {
                return false;
            }
        },
        None => {
            return false;
        },
    }
    if let Some((last_output, last_sequence)) = *last_sent {
        if last_output == output && last_sequence == sequence {
            return false;
        }
    }
    *last_sent = Some((output, sequence));
    true
}

/// Whether a surface has waited for a frame callback longer than it is held
/// back, or never got one this way. Times are in nanoseconds.
pub open spec fn frame_overdue(last: Option<u64>, now: u64) -> bool {
    match last {
        Some(past) => now - past > FRAME_CALLBACK_THROTTLE_NS,
        None => true,
    }
}

/// Decides whether the frame callback of a surface is overdue, and remembers
/// when it was.
pub fn throttled_callback(last: &mut Option<u64>, now: u64) -> (r: bool)
    ensures
        r == frame_overdue(*old(last), now),
        *final(last) == (if r {
            Some(now)
        } else {
            *old(last)
        }),
{
    if let Some(past) = *last {
        if now < past || now - past <= FRAME_CALLBACK_THROTTLE_NS {
            return false;
        }
    }
    *last = Some(now);
    true
}

/// A surface of a tree, with what decides on its frame callbacks.
#[derive(Clone, Copy, Debug)]
pub struct SurfaceFrame {
    /// The window, layer surface or lock surface that it is part of.
    pub root: u64,
    /// The output that shows it first of all.
    pub primary: Option<OutputHandle>,
    /// The output and refresh cycle of the last callback that its output gave
    /// it.
    pub last_sent: Option<(OutputHandle, u32)>,
    /// When a callback was last overdue, in nanoseconds.
    pub overdue_at: Option<u64>,
}

/// The layer surfaces of an output.
pub open spec fn layers_on(layers: Seq<LayerSurfaceView>, output: OutputHandle) -> Seq<u64>
    decreases layers.len(),
{
    if layers.len() == 0 {
        Seq::empty()
    } else {
        let before = layers_on(layers.drop_last(), output);
        if layers.last().output == output {
            before.push(layers.last().surface)
        } else {
            before
        }
    }
}

impl EwmView {
    /// The surfaces whose trees may get frame callbacks for an output: all
    /// windows, the output's layer surfaces, and its lock surface.
    pub open spec fn frame_roots(self, output: OutputHandle) -> Seq<u64> {
        self.space.elements.map_values(|e: Placed| e.window) + layers_on(self.layers, output)
            + match self.state_of(output) {
            Some(state) => match state.lock_surface {
                Some(surface) => seq![surface],
                None => Seq::empty(),
            },
            None => Seq::empty(),
        }
    }

    /// Whether a surface is shown by an output that has given it no frame
    /// callback in this refresh cycle.
    pub open spec fn callback_due(self, output: OutputHandle, f: SurfaceFrame) -> bool {
        self.frame_roots(output).contains(f.root) && frame_due(
            f.primary,
            f.last_sent,
            output,
            self.frame_sequence_spec(output),
        )
    }

    /// Whether a surface has to get a frame callback wherever it is shown.
    pub open spec fn callback_overdue(self, output: OutputHandle, f: SurfaceFrame, now: u64)
        -> bool {
        self.frame_roots(output).contains(f.root) && frame_overdue(f.overdue_at, now)
    }

    /// Whether a surface gets a frame callback for an output.
    pub open spec fn gets_callback(self, output: OutputHandle, f: SurfaceFrame, now: u64) -> bool {
        self.callback_due(output, f) || self.callback_overdue(output, f, now)
    }

    /// A surface once it is decided whether it gets a frame callback.
    pub open spec fn after_callback(
        self,
        output: OutputHandle,
        f: SurfaceFrame,
        now: u64,
    ) -> SurfaceFrame {
        SurfaceFrame {
            last_sent: if self.callback_due(output, f) {
                Some((output, self.frame_sequence_spec(output)))
            } else {
                f.last_sent
            },
            overdue_at: if self.callback_overdue(output, f, now) {
                Some(now)
            } else {
                f.overdue_at
            },
            ..f
        }
    }
}

impl Ewm {
    /// The surfaces whose trees may get frame callbacks for an output: all
    /// windows, the output's layer surfaces, and its lock surface.
    pub fn frame_roots(&self, output: OutputHandle) -> (r: Vec<u64>)
        ensures
            r@ == self@.frame_roots(output),
    {
        let ghost windows = self@.space.elements.map_values(|e: Placed| e.window);
        let ghost layers = self@.layers;
        let mut r: Vec<u64> = Vec::new();
        let mut i: usize = 0;
        while i < self.space.elements.len()
            invariant
                i <= self.space.elements@.len(),
                windows == self.space.elements@.map_values(|e: Placed| e.window),
                r@ == windows.take(i as int),
            decreases self.space.elements@.len() - i,
        {
            r.push(self.space.elements[i].window);
            proof {
                assert(windows.take(i + 1) =~= windows.take(i as int).push(windows[i as int]));
            }
            i += 1;
        }
        proof {
            assert(windows.take(i as int) =~= windows);
            assert(layers.take(0) =~= Seq::<LayerSurfaceView>::empty());
            assert(r@ =~= windows + layers_on(layers.take(0), output));
        }
        i = 0;
        while i < self.layers.len()
            invariant
                i <= self.layers@.len(),
                layers == layer_views(self.layers@),
                r@ == windows + layers_on(layers.take(i as int), output),
            decreases self.layers@.len() - i,
        {
            proof {
                assert(layers.take(i + 1).drop_last() =~= layers.take(i as int));
                assert(layers.take(i + 1).last() == self.layers@[i as int]@);
            }
            if self.layers[i].output == output {
                r.push(self.layers[i].surface);
                proof {
                    assert(r@ =~= windows + layers_on(layers.take(i + 1), output));
                }
            }
            i += 1;
        }
        proof {
            assert(layers.take(i as int) =~= layers);
        }
        if let Some(state) = self.state_of(output) {
            if let Some(surface) = state.lock_surface {
                r.push(surface);
            }
        }
        proof {
            assert(r@ =~= self@.frame_roots(output));
        }
        r
    }

    /// Decides which surfaces get a frame callback for an output, and
    /// remembers that they did. `now` is the time in nanoseconds.
    pub fn send_frame_callbacks(
        &self,
        output: OutputHandle,
        surfaces: &mut Vec<SurfaceFrame>,
        now: u64,
    ) -> (r: Vec<bool>)
        ensures
            r@.len() == old(surfaces)@.len(),
            final(surfaces)@.len() == old(surfaces)@.len(),
            forall|i: int|
                0 <= i < r@.len() ==> #[trigger] r@[i] == self@.gets_callback(
                    output,
                    old(surfaces)@[i],
                    now,
                ),
            forall|i: int|
                0 <= i < r@.len() ==> #[trigger] final(surfaces)@[i] == self@.after_callback(
                    output,
                    old(surfaces)@[i],
                    now,
                ),
    {
        let roots: Vec<u64> = self.frame_roots(output);
        let sequence: u32 = self.frame_sequence(output);
        let mut r: Vec<bool> = Vec::new();
        let mut i: usize = 0;
        while i < surfaces.len()
            invariant
                i <= surfaces@.len(),
                surfaces@.len() == old(surfaces)@.len(),
                r@.len() == i,
                roots@ == self@.frame_roots(output),
                sequence == self@.frame_sequence_spec(output),
                forall|j: int|
                    0 <= j < i ==> #[trigger] r@[j] == self@.gets_callback(
                        output,
                        old(surfaces)@[j],
                        now,
                    ),
                forall|j: int|
                    0 <= j < i ==> #[trigger] surfaces@[j] == self@.after_callback(
                        output,
                        old(surfaces)@[j],
                        now,
                    ),
                forall|j: int|
                    i <= j < surfaces@.len() ==> #[trigger] surfaces@[j] == old(surfaces)@[j],
            decreases surfaces@.len() - i,
        {
            let f: SurfaceFrame = surfaces[i];
            let mut last_sent: Option<(OutputHandle, u32)> = f.last_sent;
            let mut overdue_at: Option<u64> = f.overdue_at;
            let mut send: bool = false;
            if contains_handle(&roots, f.root) {
                let due: bool = send_frame_callback(f.primary, &mut last_sent, output, sequence);
                let overdue: bool = throttled_callback(&mut overdue_at, now);
                send = due || overdue;
                surfaces.set(
                    i,
                    SurfaceFrame { root: f.root, primary: f.primary, last_sent, overdue_at },
                );
            }
            r.push(send);
            i += 1;
        }
        r
    }
}

/// A surface gets at most one frame callback in a refresh cycle.
pub proof fn lemma_one_callback_per_cycle(
    primary: Option<OutputHandle>,
    output: OutputHandle,
    sequence: u32,
)
    ensures
        !frame_due(primary, Some((output, sequence)), output, sequence),
{
}

/// A surface that is shown on the output gets a frame callback in a new
/// refresh cycle.
pub proof fn lemma_callback_in_new_cycle(output: OutputHandle, sequence: u32, last: u32)
    requires
        last != sequence,
    ensures
        frame_due(Some(output), Some((output, last)), output, sequence),
{
}

/// A surface of the space gets a frame callback where it is overdue, though no
/// output shows it; and after that none before it is overdue again.
pub proof fn lemma_overdue_callback(
    s: EwmView,
    output: OutputHandle,
    f: SurfaceFrame,
    now: u64,
    later: u64,
)
    requires
        s.frame_roots(output).contains(f.root),
        f.primary is None,
        frame_overdue(f.overdue_at, now),
    ensures
        s.gets_callback(output, f, now),
        s.gets_callback(output, s.after_callback(output, f, now), later) <==> later - now
            > FRAME_CALLBACK_THROTTLE_NS,
{
}

/// Of two decisions in one refresh cycle, the second gives no surface a frame
/// callback that is not overdue by then.
pub proof fn lemma_second_decision(
    s: EwmView,
    output: OutputHandle,
    f: SurfaceFrame,
    now: u64,
    later: u64,
)
    ensures
        s.gets_callback(output, s.after_callback(output, f, now), later) <==> s.callback_overdue(
            output,
            s.after_callback(output, f, now),
            later,
        ),
{
}

impl EwmView {
    /// The number of the refresh cycle that an output is in.
    pub open spec fn frame_sequence_spec(self, output: OutputHandle) -> u32 {
        match self.state_of(output) {
            Some(state) => state.frame_callback_sequence,
            None => 0,
        }
    }

    /// Events of the input method relay taken up: Emacs is told of changes.
    pub open spec fn im_event(self, event: ImEvent) -> EwmView {
        match event {
            ImEvent::Activated => if self.text_input_active {
                self
            } else {
                EwmView { text_input_active: true, ..self }.tell(EventView::TextInputActivated)
            },
            ImEvent::Deactivated => if self.text_input_active {
                EwmView { text_input_active: false, ..self }.tell(EventView::TextInputDeactivated)
            } else {
                self
            },
        }
    }

    /// Several events taken up, one after the other.
    pub open spec fn im_events(self, events: Seq<ImEvent>) -> EwmView
        decreases events.len(),
    {
        if events.len() == 0 {
            self
        } else {
            self.im_events(events.drop_last()).im_event(events.last())
        }
    }

    /// Whether there is a screen cast for this session.
    pub open spec fn has_cast(self, session_id: usize) -> bool {
        exists|i: int|
            0 <= i < self.screen_casts.len() && (#[trigger] self.screen_casts[i]).0 == session_id
    }

    /// The screen cast of a session stopped.
    pub open spec fn stop_cast(self, session_id: usize) -> EwmView {
        if self.has_cast(session_id) {
            EwmView {
                screen_casts: self.screen_casts.filter(other_session(session_id)),
                ..self
            }.act(ActionView::StopCast { session_id })
        } else {
            self
        }
    }
}

impl EwmView {
    /// The state after another program asked for the focus of a window.
    pub open spec fn foreign_activated(self, surface: u64) -> EwmView {
        if self.window_ids.contains_key(surface) {
            self.focus_from(self.window_ids[surface], true, "foreign_toplevel"@, None)
        } else {
            self
        }
    }

    /// The state after another program asked a window to close.
    pub open spec fn foreign_closed(self, surface: u64) -> EwmView {
        if self.window_ids.contains_key(surface) {
            self.act(ActionView::SendClose { window: surface })
        } else {
            self
        }
    }

    /// The state after a client offered a new content, of the clipboard or not,
    /// with these types: text in the clipboard is to be read for Emacs.
    pub open spec fn selection_offered(
        self,
        clipboard: bool,
        mime_types: Option<Seq<Seq<char>>>,
    ) -> EwmView {
        if clipboard && mime_types is Some && offers_text(mime_types->0) {
            self.act(ActionView::ReadSelection { mime_type: "text/plain;charset=utf-8"@ })
        } else {
            self
        }
    }

    /// The state after a screen cast was created for a session, in place of one
    /// that it had.
    pub open spec fn cast_created(self, session_id: usize, cast: CastView) -> EwmView {
        EwmView {
            screen_casts: self.screen_casts.filter(other_session(session_id)).push(
                (session_id, cast),
            ),
            ..self
        }
    }
}

/// Whether the clipboard's content is text: one of its types says so.
pub open spec fn offers_text(mime_types: Seq<Seq<char>>) -> bool {
    exists|i: int| 0 <= i < mime_types.len() && occurs(#[trigger] mime_types[i], "text"@)
}

impl Ewm {
    /// Takes up that a surface asks for the focus with a token.
    pub fn request_activation(&mut self, age_ms: u64, surface: u64, token: u64)
        ensures
            final(self)@ == old(self)@.activation_requested(age_ms, surface, token),
    {
        if age_ms < TOKEN_TIMEOUT_MS {
            if let Some(id) = self.window_ids.get(&surface) {
                let id: u32 = *id;
                self.focus_surface_with_source(id, true, "xdg_activation", None);
            }
        }
        self.act(Action::RemoveToken { token });
    }

    /// Focuses a window on behalf of another program.
    pub fn foreign_activate(&mut self, surface: u64)
        ensures
            final(self)@ == old(self)@.foreign_activated(surface),
    {
        if let Some(id) = self.window_ids.get(&surface) {
            let id: u32 = *id;
            self.focus_surface_with_source(id, true, "foreign_toplevel", None);
        }
    }

    /// Asks a window to close on behalf of another program.
    pub fn foreign_close(&mut self, surface: u64)
        ensures
            final(self)@ == old(self)@.foreign_closed(surface),
    {
        if self.window_ids.contains_key(&surface) {
            self.act(Action::SendClose { window: surface });
        }
    }

    /// The ids of all windows, in no particular order.
    pub fn window_id_list(&self) -> (r: Vec<u32>)
        ensures
            self@.lists_windows(r@),
    {
        let mut r: Vec<u32> = Vec::new();
        for id in it: self.id_windows.keys()
            invariant
                it.seq().unref().to_set() == self@.id_windows.dom(),
                it.seq().no_duplicates(),
                r@.len() == it.index(),
                forall|j: int|
                    #![trigger r@[j]]
                    #![trigger it.seq().unref()[j]]
                    0 <= j < it.index() ==> r@[j] == it.seq().unref()[j],
        {
            proof {
                assert(it.seq().unref()[it.index() as int] == *id);
            }
            r.push(*id);
        }
        proof {
            assert forall|x: u32| self@.id_windows.dom().contains(x) implies r@.contains(x) by {
            }
            assert forall|x: u32| r@.contains(x) implies self@.id_windows.dom().contains(x) by {
            }
            assert(r@.to_set() =~= self@.id_windows.dom());
        }
        r
    }

    /// The windows that other programs are told of, in no particular order.
    pub fn refresh_foreign_toplevel(&self) -> (r: Vec<WindowInfo>)
        ensures
            exists|ids: Seq<u32>| #[trigger]
                self@.lists_windows(ids) && window_info_views(r@) == self@.foreign_infos(ids),
    {
        let ids: Vec<u32> = self.window_id_list();
        let mut r: Vec<WindowInfo> = Vec::new();
        let mut i: usize = 0;
        proof {
            assert(ids@.take(0) =~= Seq::<u32>::empty());
            assert(window_info_views(r@) =~= Seq::<WindowInfoView>::empty());
        }
        while i < ids.len()
            invariant
                i <= ids@.len(),
                window_info_views(r@) == self@.foreign_infos(ids@.take(i as int)),
            decreases ids@.len() - i,
        {
            let id: u32 = ids[i];
            proof {
                assert(ids@.take(i + 1).drop_last() =~= ids@.take(i as int));
                assert(ids@.take(i + 1).last() == id);
            }
            if let Some(w) = self.window_info(id) {
                let ghost before = window_info_views(r@);
                r.push(w);
                proof {
                    assert(window_info_views(r@) =~= before.push(w@));
                }
            }
            i += 1;
        }
        proof {
            assert(ids@.take(i as int) =~= ids@);
        }
        r
    }

    /// What other programs are told of this surface; none where they are told
    /// nothing.
    pub fn window_info(&self, id: u32) -> (r: Option<WindowInfo>)
        ensures
            match r {
                Some(w) => self@.is_foreign(id) && w@ == self@.window_info(id),
                None => !self@.is_foreign(id),
            },
    {
        if self.emacs_surfaces.contains(&id) {
            return None;
        }
        match self.id_windows.get(&id) {
            Some(surface) => match self.surface_info.get(&id) {
                Some(info) => {
                    proof {
                        assert(self@.surface_info[id] == info@);
                    }
                    let title: Option<String> = if info.title.as_str().is_empty() {
                        None
                    } else {
                        Some(info.title.clone())
                    };
                    Some(
                        WindowInfo {
                            id,
                            surface: *surface,
                            title,
                            app_id: info.app_id.clone(),
                            output: self.find_surface_output(id),
                            is_focused: self.focused_surface_id == id,
                        },
                    )
                },
                None => None,
            },
            None => None,
        }
    }

    /// Takes up a new content of the clipboard: text is read for Emacs.
    pub fn new_selection(&mut self, clipboard: bool, mime_types: Option<Vec<String>>)
        ensures
            final(self)@ == old(self)@.selection_offered(
                clipboard,
                match mime_types {
                    Some(types) => Some(views(types@)),
                    None => None,
                },
            ),
    {
        if !clipboard {
            return;
        }
        if let Some(types) = mime_types {
            let mut i: usize = 0;
            while i < types.len()
                invariant
                    i <= types@.len(),
                    self@ == old(self)@,
                    clipboard,
                    mime_types is Some,
                    types == mime_types->0,
                    forall|j: int|
                        0 <= j < i ==> !occurs(#[trigger] views(types@)[j], "text"@),
                decreases types@.len() - i,
            {
                if contains_text(types[i].as_str(), "text") {
                    proof {
                        assert(occurs(views(types@)[i as int], "text"@));
                    }
                    self.act(
                        Action::ReadSelection { mime_type: owned("text/plain;charset=utf-8") },
                    );
                    return;
                }
                i += 1;
            }
        }
    }

    /// Takes up the clipboard's text: Emacs is told, unless it is empty.
    pub fn selection_read(&mut self, text: String)
        ensures
            final(self)@ == (if text@.len() == 0 {
                old(self)@
            } else {
                old(self)@.tell(EventView::SelectionChanged { text: text@ })
            }),
    {
        if !text.as_str().is_empty() {
            self.queue_event(Event::SelectionChanged { text });
        }
    }

    /// The number of the refresh cycle that an output is in.
    pub fn frame_sequence(&self, output: OutputHandle) -> (r: u32)
        ensures
            r == self@.frame_sequence_spec(output),
    {
        match self.state_of(output) {
            Some(state) => state.frame_callback_sequence,
            None => 0,
        }
    }

    /// Takes up the events of the input method relay.
    pub fn process_im_events(&mut self, events: &Vec<ImEvent>)
        ensures
            final(self)@ == old(self)@.im_events(events@),
    {
        let mut i: usize = 0;
        proof {
            assert(events@.take(0) =~= Seq::<ImEvent>::empty());
        }
        while i < events.len()
            invariant
                i <= events@.len(),
                self@ == old(self)@.im_events(events@.take(i as int)),
            decreases events@.len() - i,
        {
            proof {
                assert(events@.take(i + 1).drop_last() =~= events@.take(i as int));
                assert(events@.take(i + 1).last() == events@[i as int]);
            }
            match events[i] {
                ImEvent::Activated => {
                    if !self.text_input_active {
                        self.text_input_active = true;
                        self.queue_event(Event::TextInputActivated);
                    }
                },
                ImEvent::Deactivated => {
                    if self.text_input_active {
                        self.text_input_active = false;
                        self.queue_event(Event::TextInputDeactivated);
                    }
                },
            }
            i += 1;
        }
        proof {
            assert(events@.take(i as int) =~= events@);
        }
    }

    /// The free areas of the outputs, for a state report: one entry for each,
    /// in no particular order.
    pub fn get_working_areas_info(&self) -> (r: Vec<WorkingAreaInfo>)
        ensures
            r@.len() == self@.working_areas.dom().len(),
            forall|i: int|
                0 <= i < r@.len() ==> {
                    let e = #[trigger] r@[i];
                    &&& self@.working_areas.contains_key(e.output@)
                    &&& self@.working_areas[e.output@] == area_of(e)
                },
            forall|name: Seq<char>|
                self@.working_areas.contains_key(name) ==> exists|i: int|
                    0 <= i < r@.len() && (#[trigger] r@[i]).output@ == name,
    {
        let mut r: Vec<WorkingAreaInfo> = Vec::new();
        let n: usize = self.working_areas.len();
        let mut i: usize = 0;
        while i < n
            invariant
                i <= n,
                n == self.working_areas.count(),
                n == self@.working_areas.dom().len(),
                r@.len() == i,
                forall|k: int|
                    0 <= k < r@.len() ==> {
                        let e = #[trigger] r@[k];
                        &&& self@.working_areas.contains_key(e.output@)
                        &&& self@.working_areas[e.output@] == area_of(e)
                    },
                forall|k: int|
                    0 <= k < i ==> (#[trigger] r@[k]).output@ == self.working_areas.name_at(k),
            decreases n - i,
        {
            let (name, area) = self.working_areas.entry(i);
            r.push(
                WorkingAreaInfo {
                    output: owned(name),
                    x: area.loc.x,
                    y: area.loc.y,
                    width: area.size.w,
                    height: area.size.h,
                },
            );
            i += 1;
        }
        proof {
            assert forall|name: Seq<char>| self@.working_areas.contains_key(name) implies exists|
                k: int,
            |
                0 <= k < r@.len() && (#[trigger] r@[k]).output@ == name by {
                let k = self.working_areas.index_of(name);
                assert(r@[k].output@ == name);
            }
        }
        r
    }

    fn push_layer_infos(
        &self,
        r: &mut Vec<LayerSurfaceInfo>,
        index: usize,
        layer: Layer,
    )
        requires
            index < self.space.outputs@.len(),
        ensures
            layer_info_views(final(r)@) == layer_info_views(old(r)@) + layer_infos_on(
                self@.layers,
                self@.space.outputs[index as int],
                layer,
                self@.layer_shell_on_demand_focus,
            ),
    {
        let ghost all = self@.layers;
        let ghost o = self@.space.outputs[index as int];
        let ghost start = layer_info_views(r@);
        let handle: OutputHandle = self.space.outputs[index].handle;
        let mut i: usize = 0;
        proof {
            assert(all.take(0) =~= Seq::<LayerSurfaceView>::empty());
            assert(start =~= start + layer_infos_on(
                all.take(0),
                o,
                layer,
                self@.layer_shell_on_demand_focus,
            ));
        }
        while i < self.layers.len()
            invariant
                i <= self.layers@.len(),
                all == self@.layers,
                index < self.space.outputs@.len(),
                o == self.space.outputs@[index as int]@,
                handle == o.handle,
                layer_info_views(r@) == start + layer_infos_on(
                    all.take(i as int),
                    o,
                    layer,
                    self@.layer_shell_on_demand_focus,
                ),
            decreases self.layers@.len() - i,
        {
            let l: &LayerSurface = &self.layers[i];
            proof {
                assert(all.take(i + 1).drop_last() =~= all.take(i as int));
                assert(all.take(i + 1).last() == l@);
            }
            if l.output == handle && l.layer == layer {
                let focused: bool = match self.layer_shell_on_demand_focus {
                    Some(s) => s == l.surface,
                    None => false,
                };
                let info: LayerSurfaceInfo = LayerSurfaceInfo {
                    namespace: l.namespace.clone(),
                    layer,
                    output: self.space.outputs[index].name.clone(),
                    keyboard_interactivity: l.interactivity,
                    geometry: l.geometry,
                    on_demand_focused: focused,
                };
                let ghost before = layer_info_views(r@);
                r.push(info);
                proof {
                    assert(layer_info_views(r@) =~= before.push(info@));
                    assert(info@ == layer_info(l@, o.name, self@.layer_shell_on_demand_focus));
                    assert(layer_info_views(r@) =~= start + layer_infos_on(
                        all.take(i + 1),
                        o,
                        layer,
                        self@.layer_shell_on_demand_focus,
                    ));
                }
            }
            i += 1;
        }
        proof {
            assert(all.take(i as int) =~= all);
        }
    }

    /// The layer surfaces of the mapped outputs, for a state report.
    pub fn get_layer_surfaces_info(&self) -> (r: Vec<LayerSurfaceInfo>)
        ensures
            layer_info_views(r@) == layer_infos(
                self@.space.outputs,
                self@.layers,
                self@.layer_shell_on_demand_focus,
            ),
    {
        let ghost outputs = self@.space.outputs;
        let mut r: Vec<LayerSurfaceInfo> = Vec::new();
        let mut i: usize = 0;
        proof {
            assert(outputs.take(0) =~= Seq::<OutputView>::empty());
            assert(layer_info_views(r@) =~= Seq::<LayerSurfaceInfoView>::empty());
        }
        while i < self.space.outputs.len()
            invariant
                i <= self.space.outputs@.len(),
                outputs == self@.space.outputs,
                layer_info_views(r@) == layer_infos(
                    outputs.take(i as int),
                    self@.layers,
                    self@.layer_shell_on_demand_focus,
                ),
            decreases self.space.outputs@.len() - i,
        {
            proof {
                assert(outputs.take(i + 1).drop_last() =~= outputs.take(i as int));
                assert(outputs.take(i + 1).last() == outputs[i as int]);
            }
            self.push_layer_infos(&mut r, i, Layer::Overlay);
            self.push_layer_infos(&mut r, i, Layer::Top);
            self.push_layer_infos(&mut r, i, Layer::Bottom);
            self.push_layer_infos(&mut r, i, Layer::Background);
            i += 1;
        }
        proof {
            assert(outputs.take(i as int) =~= outputs);
        }
        r
    }

    /// Stops the screen cast of a session, where there is one.
    pub fn stop_cast(&mut self, session_id: usize)
        ensures
            final(self)@ == old(self)@.stop_cast(session_id),
    {
        let ghost before = self@;
        let ghost keep = other_session(session_id);
        let ghost all = before.screen_casts;
        let mut found: bool = false;
        let mut i: usize = 0;
        let ghost mut done: int = 0;
        proof {
            reveal(Seq::filter);
            assert(all.take(0) =~= Seq::<(usize, CastView)>::empty());
            assert(self@.screen_casts =~= all.take(0).filter(keep) + all.skip(0));
        }
        while i < self.screen_casts.len()
            invariant
                before == old(self)@,
                all == before.screen_casts,
                keep == other_session(session_id),
                0 <= done <= all.len(),
                i == all.take(done).filter(keep).len(),
                self@.screen_casts == all.take(done).filter(keep) + all.skip(done),
                self@ == (EwmView { screen_casts: self@.screen_casts, ..before }),
                found == exists|k: int| 0 <= k < done && (#[trigger] all[k]).0 == session_id,
            decreases self.screen_casts@.len() - i,
        {
            let ghost prev = self@.screen_casts;
            proof {
                reveal(Seq::filter);
                assert(self.screen_casts@.len() == prev.len());
                assert(done < all.len());
                assert(all.take(done + 1).drop_last() =~= all.take(done));
                assert(all.take(done + 1).last() == all[done]);
                assert(prev[i as int] == all.skip(done)[0]);
            }
            if self.screen_casts[i].session_id == session_id {
                found = true;
                self.screen_casts.remove(i);
                proof {
                    assert(all[done].0 == session_id);
                    assert(self@.screen_casts =~= prev.remove(i as int));
                    assert(self@.screen_casts =~= all.take(done + 1).filter(keep) + all.skip(
                        done + 1,
                    ));
                }
            } else {
                i += 1;
                proof {
                    assert(self@.screen_casts =~= all.take(done + 1).filter(keep) + all.skip(
                        done + 1,
                    ));
                }
            }
            proof {
                done = done + 1;
            }
        }
        proof {
            assert(done == all.len()) by {
                assert(all.skip(done).len() == 0);
            }
            assert(all.take(done) =~= all);
            assert(self@.screen_casts =~= all.filter(keep));
            if !before.has_cast(session_id) {
                lemma_filter_all(all, keep);
            } else {
                let k = choose|k: int| 0 <= k < all.len() && (#[trigger] all[k]).0 == session_id;
                assert(0 <= k < done && all[k].0 == session_id);
            }
            assert(found == before.has_cast(session_id));
        }
        if found {
            self.act(Action::StopCast { session_id });
        }
    }

    /// Drops all screen casts, after PipeWire failed.
    pub fn clear_casts(&mut self)
        ensures
            final(self)@ == (EwmView { screen_casts: Seq::empty(), ..old(self)@ }),
    {
        self.screen_casts.clear();
        proof {
            assert(self@.screen_casts =~= Seq::empty());
        }
    }
}

/// Tells the screen casts of other sessions.
pub open spec fn other_session(session_id: usize) -> spec_fn((usize, CastView)) -> bool {
    |c: (usize, CastView)| c.0 != session_id
}

/// The area that a report tells.
pub open spec fn area_of(e: WorkingAreaInfo) -> Rectangle {
    Rectangle {
        loc: crate::geometry::Point { x: e.x, y: e.y },
        size: crate::geometry::Size { w: e.width, h: e.height },
    }
}

/// A filter that drops nothing changes nothing.
pub proof fn lemma_filter_all<A>(s: Seq<A>, keep: spec_fn(A) -> bool)
    requires
        forall|i: int| 0 <= i < s.len() ==> keep(#[trigger] s[i]),
    ensures
        s.filter(keep) == s,
    decreases s.len(),
{
    reveal(Seq::filter);
    if s.len() > 0 {
        lemma_filter_all(s.drop_last(), keep);
        assert(s.drop_last().push(s.last()) =~= s);
    }
}

/// An activation token that is too old moves no focus.
pub proof fn lemma_old_token(s: EwmView, age_ms: u64, surface: u64, token: u64)
    requires
        age_ms >= TOKEN_TIMEOUT_MS,
    ensures
        s.activation_requested(age_ms, surface, token) == s.act(ActionView::RemoveToken { token }),
{
}

/// A token is used up whether or not it moves the focus.
pub proof fn lemma_token_used_up(s: EwmView, age_ms: u64, surface: u64, token: u64)
    ensures
        s.activation_requested(age_ms, surface, token).actions == s.actions.push(
            ActionView::RemoveToken { token },
        ),
{
}

/// Repeated events of the relay reach Emacs once.
pub proof fn lemma_im_events_deduplicated(s: EwmView, e: ImEvent)
    ensures
        s.im_event(e).im_event(e) == s.im_event(e),
{
}

/// After a stop the session has no screen cast.
pub proof fn lemma_cast_stopped(s: EwmView, session_id: usize)
    ensures
        !s.stop_cast(session_id).has_cast(session_id),
{
    let keep = other_session(session_id);
    if s.has_cast(session_id) {
        let f = s.screen_casts.filter(keep);
        crate::space::lemma_filter_pairs(
            s.screen_casts,
            keep,
            |a: (usize, CastView), b: (usize, CastView)| true,
        );
        assert forall|i: int| 0 <= i < f.len() implies (#[trigger] f[i]).0 != session_id by {
            assert(keep(f[i]));
        }
    }
}

} // verus!
