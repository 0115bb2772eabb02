//! The backend on real hardware: sessions, connectors, frames.
//!
//! The hardware can be set up only while the session is active, which is told
//! some time after the start; until then set-up is pending.
use vstd::prelude::*;

use crate::action::{Action, ActionView};
use crate::event::{Event, EventView, OutputInfo, OutputInfoView, OutputMode};
use crate::ewm::{CastEntry, Ewm, EwmView};
use crate::geometry::{saturating_sum, Point, Rectangle, Size, Transform};
use crate::output::{
    choose_mode, best_mode, estimated_vblank_us, initial_mode, initial_mode_spec, millihertz,
    mode_size, rate_fits, refresh_interval_spec, refresh_interval_us, refresh_mhz, LockRenderState,
    OutputState, VideoMode,
};
use crate::outputs::SCALE_ONE;
use crate::pipewire::stream::{Cast, CastView, MODIFIER_INVALID};
use crate::redraw::{RedrawState, RenderOutcome};
use crate::space::{Output, OutputHandle, OutputView, SpaceView};
use crate::text::{digits, owned, same_text, unsigned_text};

verus! {

/// Message that starts the pending set-up.
#[derive(Clone, Copy, Debug, PartialEq, Eq, Structural)]
pub enum DrmMessage {
    InitializeDrm,
}

/// Marker of the hardware backend.
#[derive(Clone, Copy, Debug, PartialEq, Eq, Structural)]
pub struct DrmBackend;

/// Why something could not be done.
#[derive(Clone, Copy, Debug, PartialEq, Eq, Structural)]
pub enum DrmError {
    AlreadyInitialized,
    /// There is no session to open the hardware with.
    NoSession,
    NotInitialized,
    NoMode,
    /// The hardware did not take the output.
    SurfaceFailed,
}

/// What the session tells.
#[derive(Clone, Copy, Debug, PartialEq, Eq, Structural)]
pub enum SessionEvent {
    /// Another terminal was switched to.
    PauseSession,
    /// This terminal was switched to.
    ActivateSession,
}

/// An output of the hardware.
#[derive(Debug)]
pub struct DrmSurface {
    pub crtc: u32,
    pub output: OutputHandle,
    pub connector: u32,
    pub name: String,
}

/// What a [`DrmSurface`] holds.
#[verifier::ext_equal]
pub struct DrmSurfaceView {
    pub crtc: u32,
    pub output: OutputHandle,
    pub connector: u32,
    pub name: Seq<char>,
}

impl View for DrmSurface {
    type V = DrmSurfaceView;

    open spec fn view(&self) -> DrmSurfaceView {
        DrmSurfaceView {
            crtc: self.crtc,
            output: self.output,
            connector: self.connector,
            name: self.name@,
        }
    }
}

/// What a list of outputs holds.
pub open spec fn surface_seq(v: Seq<DrmSurface>) -> Seq<DrmSurfaceView> {
    Seq::new(v.len(), |i: int| v[i]@)
}

/// A connector with what is plugged into it.
#[derive(Debug)]
pub struct Connector {
    pub name: String,
    pub handle: u32,
    pub modes: Vec<VideoMode>,
    /// Physical size in millimetres.
    pub physical: Option<(u32, u32)>,
}

/// What a [`Connector`] holds.
#[verifier::ext_equal]
pub struct ConnectorView {
    pub name: Seq<char>,
    pub handle: u32,
    pub modes: Seq<VideoMode>,
    pub physical: Option<(u32, u32)>,
}

impl View for Connector {
    type V = ConnectorView;

    open spec fn view(&self) -> ConnectorView {
        ConnectorView {
            name: self.name@,
            handle: self.handle,
            modes: self.modes@,
            physical: self.physical,
        }
    }
}

/// What a scan of the connectors tells.
#[derive(Debug)]
pub enum ScanEvent {
    /// Something was plugged in. `output` is the handle of the new output, and
    /// `ready` tells whether the hardware took it.
    Connected { connector: Connector, crtc: Option<u32>, output: OutputHandle, ready: bool },
    /// Something was unplugged.
    Disconnected { crtc: Option<u32> },
}

/// What a [`ScanEvent`] holds.
#[verifier::ext_equal]
#[allow(inconsistent_fields)]
pub enum ScanEventView {
    Connected { connector: ConnectorView, crtc: Option<u32>, output: OutputHandle, ready: bool },
    Disconnected { crtc: Option<u32> },
}

impl View for ScanEvent {
    type V = ScanEventView;

    open spec fn view(&self) -> ScanEventView {
        match self {
            ScanEvent::Connected { connector, crtc, output, ready } => ScanEventView::Connected {
                connector: connector@,
                crtc: *crtc,
                output: *output,
                ready: *ready,
            },
            ScanEvent::Disconnected { crtc } => ScanEventView::Disconnected { crtc: *crtc },
        }
    }
}

/// What a list of scan events holds.
pub open spec fn scan_views(v: Seq<ScanEvent>) -> Seq<ScanEventView> {
    Seq::new(v.len(), |i: int| v[i]@)
}

/// The hardware backend.
#[derive(Debug)]
pub struct DrmBackendState {
    /// Set-up waits for the session.
    pub pending: bool,
    pub paused: bool,
    /// The outputs, once the hardware is set up.
    pub device: Option<Vec<DrmSurface>>,
    pub session: bool,
    /// Set-up can be asked for.
    pub init_sender: bool,
    /// Timers can be set.
    pub loop_handle: bool,
}

/// What a [`DrmBackendState`] holds.
#[verifier::ext_equal]
pub struct DrmView {
    pub pending: bool,
    pub paused: bool,
    pub device: Option<Seq<DrmSurfaceView>>,
    pub session: bool,
    pub init_sender: bool,
    pub loop_handle: bool,
}

impl View for DrmBackendState {
    type V = DrmView;

    open spec fn view(&self) -> DrmView {
        DrmView {
            pending: self.pending,
            paused: self.paused,
            device: match self.device {
                Some(v) => Some(surface_seq(v@)),
                None => None,
            },
            session: self.session,
            init_sender: self.init_sender,
            loop_handle: self.loop_handle,
        }
    }
}

/// The output that a CRTC drives.
pub open spec fn surface_on(v: Seq<DrmSurfaceView>, crtc: u32) -> Option<DrmSurfaceView>
    decreases v.len(),
{
    if v.len() == 0 {
        None
    } else if v[0].crtc == crtc {
        Some(v[0])
    } else {
        surface_on(v.drop_first(), crtc)
    }
}

/// The first output with this name.
pub open spec fn surface_named(v: Seq<DrmSurfaceView>, name: Seq<char>) -> Option<DrmSurfaceView>
    decreases v.len(),
{
    if v.len() == 0 {
        None
    } else if v[0].name == name {
        Some(v[0])
    } else {
        surface_named(v.drop_first(), name)
    }
}

/// The outputs of other CRTCs.
pub open spec fn without_crtc(v: Seq<DrmSurfaceView>, crtc: u32) -> Seq<DrmSurfaceView> {
    v.filter(|s: DrmSurfaceView| s.crtc != crtc)
}

impl DrmView {
    /// The output that a CRTC drives, once the hardware is set up.
    pub open spec fn surface(self, crtc: u32) -> Option<DrmSurfaceView> {
        match self.device {
            Some(v) => surface_on(v, crtc),
            None => None,
        }
    }

    /// The output of a CRTC and its refresh interval, where it is to be drawn
    /// now.
    pub open spec fn due(self, ewm: EwmView, crtc: u32, drm_active: bool) -> Option<
        (OutputHandle, u64),
    > {
        match self.surface(crtc) {
            Some(s) => match ewm.state_of(s.output) {
                Some(state) if state.redraw_state.renders_spec() && !self.paused
                    && drm_active => Some((s.output, state.refresh_interval_us)),
                _ => None,
            },
            None => None,
        }
    }
}

/// The modes of a connector, as Emacs is told them.
pub open spec fn told_modes(modes: Seq<VideoMode>) -> Seq<OutputMode> {
    modes.map_values(
        |m: VideoMode|
            OutputMode {
                width: m.width as i32,
                height: m.height as i32,
                refresh: millihertz(m.vrefresh),
                preferred: m.preferred,
            },
    )
}

/// Whether the rates of all modes can be told.
pub open spec fn rates_fit(modes: Seq<VideoMode>) -> bool {
    forall|i: int| 0 <= i < modes.len() ==> rate_fits((#[trigger] modes[i]).vrefresh)
}

/// A connector as Emacs is told it, with its output at `x`.
pub open spec fn told_info(c: ConnectorView, x: i32) -> OutputInfoView {
    OutputInfoView {
        name: c.name,
        make: "Unknown"@,
        model: "Unknown"@,
        width_mm: match c.physical {
            Some((w, h)) => w as i32,
            None => 0,
        },
        height_mm: match c.physical {
            Some((w, h)) => h as i32,
            None => 0,
        },
        x,
        y: 0,
        modes: told_modes(c.modes),
    }
}

/// A connector as the screen cast service is told it.
pub open spec fn cast_info(
    c: ConnectorView,
    mode: VideoMode,
    x: i32,
) -> crate::dbus::OutputInfoView {
    crate::dbus::OutputInfoView {
        name: c.name,
        x,
        y: 0,
        width: mode.width as i32,
        height: mode.height as i32,
        refresh: mode.vrefresh,
    }
}

/// The output of a connector at `x`.
pub open spec fn connector_output(
    c: ConnectorView,
    mode: VideoMode,
    handle: OutputHandle,
    x: i32,
) -> OutputView {
    OutputView {
        handle,
        name: c.name,
        mode: mode_size(mode),
        transform: Transform::Normal,
        scale: SCALE_ONE,
        loc: Point { x, y: 0 },
        size: mode_size(mode),
        zone: Rectangle::from_size_spec(mode_size(mode)),
    }
}

impl EwmView {
    /// A connector's output mapped and described, at `x`. What is configured for
    /// an output of its name is to be applied to it.
    pub open spec fn add_connector(
        self,
        c: ConnectorView,
        mode: VideoMode,
        handle: OutputHandle,
        x: i32,
    ) -> EwmView {
        let s = self.add_output(
            connector_output(c, mode, handle, x),
            OutputState::new_spec(
                refresh_interval_spec(mode.vrefresh),
                (mode.width as i32, mode.height as i32),
            ),
        );
        let t = EwmView {
            outputs: s.outputs.push(told_info(c, x)),
            dbus_outputs: s.dbus_outputs.push(cast_info(c, mode, x)),
            ..s
        };
        if self.output_config.contains_key(c.name) {
            t.act(ActionView::ApplyOutputConfig { name: c.name })
        } else {
            t
        }
    }

    /// The state after a connector was taken into use: its output is right of
    /// all others, and Emacs is told.
    pub open spec fn connected(
        self,
        c: ConnectorView,
        mode: VideoMode,
        handle: OutputHandle,
    ) -> EwmView {
        let x = self.output_size.w;
        self.add_connector(c, mode, handle, x).recalculate_output_size().send_output_detected(
            told_info(c, x),
        )
    }

    /// The timer of an output cancelled, where one runs.
    pub open spec fn cancel_timer(self, output: OutputHandle, loop_handle: bool) -> EwmView {
        match self.state_of(output) {
            Some(state) => match state.redraw_state.timer_spec() {
                Some(timer) if loop_handle => self.act(ActionView::CancelTimer { timer }),
                _ => self,
            },
            None => self,
        }
    }

    /// The screen casts of the listed sessions stopped.
    pub open spec fn stop_casts(self, ids: Seq<usize>) -> EwmView
        decreases ids.len(),
    {
        if ids.len() == 0 {
            self
        } else {
            self.stop_casts(ids.drop_last()).stop_cast(ids.last())
        }
    }

    /// The state after an output was unplugged: its timer, its screen casts
    /// and all that is known of it are gone, a lock no longer waits for it,
    /// and Emacs is told.
    pub open spec fn disconnected(self, s: DrmSurfaceView, loop_handle: bool) -> EwmView {
        let t = self.cancel_timer(s.output, loop_handle).drop_state(s.output).lock_complete();
        t.stop_casts(sessions_casting(t.screen_casts, s.name)).unmap_output(s.output).drop_infos(
            s.name,
        ).recalculate_output_size().send_output_disconnected(s.name)
    }

    /// One output made idle for a pause.
    pub open spec fn pause_output(self, output: OutputHandle, loop_handle: bool) -> EwmView {
        match self.state_of(output) {
            Some(state) => self.cancel_timer(output, loop_handle).set_output_state(
                output,
                OutputState { redraw_state: RedrawState::Idle, ..state },
            ),
            None => self,
        }
    }

    /// Outputs made idle for a pause.
    pub open spec fn pause_outputs(self, v: Seq<DrmSurfaceView>, loop_handle: bool) -> EwmView
        decreases v.len(),
    {
        if v.len() == 0 {
            self
        } else {
            self.pause_outputs(v.drop_last(), loop_handle).pause_output(
                v.last().output,
                loop_handle,
            )
        }
    }

    /// The state after an attempt to draw an output.
    pub open spec fn rendered(self, output: OutputHandle, outcome: RenderOutcome) -> EwmView {
        (match self.state_of(output) {
            Some(state) => self.set_output_state(
                output,
                OutputState { redraw_state: RedrawState::after_render_spec(outcome), ..state },
            ),
            None => self,
        }).act(ActionView::SendFrames { output })
    }

    /// The state after a vertical blank: a new refresh cycle begins, and a
    /// redraw that was requested meanwhile is drawn.
    pub open spec fn vblank(self, output: OutputHandle) -> EwmView {
        match self.state_of(output) {
            Some(state) => {
                let s = self.set_output_state(output, next_cycle(
                    OutputState { redraw_state: state.redraw_state.on_vblank_spec(), ..state },
                ));
                if state.redraw_state == (RedrawState::WaitingForVBlank { redraw_needed: true }) {
                    s.act(ActionView::Render { output })
                } else {
                    s
                }
            },
            None => self,
        }
    }

    /// The state after the timer that stands in for a vertical blank fired.
    pub open spec fn estimated_vblank(self, output: OutputHandle) -> EwmView {
        match self.state_of(output) {
            Some(state) => match state.redraw_state.estimated_vblank_action() {
                Some(render) => {
                    let s = self.set_output_state(output, next_cycle(
                        OutputState {
                            redraw_state: state.redraw_state.on_estimated_vblank_spec(),
                            ..state
                        },
                    ));
                    if render {
                        s.act(ActionView::Render { output })
                    } else {
                        s.act(ActionView::SendFrames { output })
                    }
                },
                None => self,
            },
            None => self,
        }
    }

    /// The queued outputs among these to be drawn.
    pub open spec fn render_queued(self, v: Seq<DrmSurfaceView>) -> EwmView
        decreases v.len(),
    {
        if v.len() == 0 {
            self
        } else {
            let s = self.render_queued(v.drop_last());
            match self.state_of(v.last().output) {
                Some(state) if state.redraw_state is Queued => s.act(
                    ActionView::Render { output: v.last().output },
                ),
                _ => s,
            }
        }
    }

    /// All these outputs to be drawn.
    pub open spec fn render_all(self, v: Seq<DrmSurfaceView>) -> EwmView
        decreases v.len(),
    {
        if v.len() == 0 {
            self
        } else {
            self.render_all(v.drop_last()).act(ActionView::Render { output: v.last().output })
        }
    }

    /// Emacs told of all outputs of a list.
    pub open spec fn tell_outputs(self, infos: Seq<OutputInfoView>) -> EwmView
        decreases infos.len(),
    {
        if infos.len() == 0 {
            self
        } else {
            self.tell_outputs(infos.drop_last()).send_output_detected(infos.last())
        }
    }

    /// The state after an output's mode changed; `size` is its logical size
    /// then.
    pub open spec fn mode_changed(
        self,
        output: OutputHandle,
        mode: VideoMode,
        size: Size,
    ) -> EwmView {
        let s = EwmView {
            space: self.space.change_output(
                output,
                |o: OutputView| OutputView { mode: mode_size(mode), size, ..o },
            ),
            ..self
        };
        match self.state_of(output) {
            Some(state) => s.set_output_state(
                output,
                OutputState {
                    refresh_interval_us: refresh_interval_spec(mode.vrefresh),
                    redraw_state: RedrawState::Queued,
                    ..state
                },
            ),
            None => s,
        }
    }

    /// The state after an output was drawn, or not, while the session is
    /// locked: the lock is confirmed once all are drawn, and one that is under
    /// way is given up where drawing failed.
    pub open spec fn lock_frame(self, output: OutputHandle, outcome: RenderOutcome) -> EwmView {
        if !self.is_locked_spec() {
            self
        } else if outcome is Failed || outcome is QueueFailed {
            self.lock_aborted()
        } else {
            match self.state_of(output) {
                Some(state) => self.set_output_state(
                    output,
                    OutputState { lock_render_state: LockRenderState::Locked, ..state },
                ).lock_complete(),
                None => self,
            }
        }
    }

    /// Whether a screen cast of this output takes a frame at this time: its
    /// output is mapped, frames are wanted, and it would not come too soon.
    pub open spec fn cast_due(self, i: int, output: Seq<char>, now: u64) -> bool {
        let c = self.screen_casts[i].1;
        self.space.output_named(c.output_name) is Some && c.is_streaming_spec() && c.output_name
            == output && !c.skips(now)
    }

    /// Whether `casts` are the screen casts that take a frame of this output,
    /// in order.
    pub open spec fn are_due(self, casts: Seq<usize>, output_name: Seq<char>, now: u64) -> bool {
        &&& forall|k: int|
            0 <= k < casts.len() ==> (#[trigger] casts[k]) < self.screen_casts.len()
                && self.cast_due(casts[k] as int, output_name, now)
        &&& forall|i: int|
            0 <= i < self.screen_casts.len() && #[trigger] self.cast_due(i, output_name, now)
                ==> casts.contains(i as usize)
        &&& forall|j: int, k: int|
            0 <= j < k < casts.len() ==> (#[trigger] casts[j]) < (#[trigger] casts[k])
    }
}

/// An output's state at the start of its next refresh cycle.
pub open spec fn next_cycle(state: OutputState) -> OutputState {
    OutputState {
        frame_callback_sequence: if state.frame_callback_sequence == u32::MAX {
            0
        } else {
            (state.frame_callback_sequence + 1) as u32
        },
        ..state
    }
}

/// The sessions that cast the output with this name.
pub open spec fn sessions_casting(casts: Seq<(usize, CastView)>, name: Seq<char>) -> Seq<usize>
    decreases casts.len(),
{
    if casts.len() == 0 {
        Seq::empty()
    } else {
        let before = sessions_casting(casts.drop_last(), name);
        if casts.last().1.output_name == name {
            before.push(casts.last().0)
        } else {
            before
        }
    }
}

/// The outputs of a set-up under way.
#[verifier::ext_equal]
pub struct Setup {
    pub surfaces: Seq<DrmSurfaceView>,
    pub ewm: EwmView,
    /// Where the next output goes.
    pub x: i32,
    pub error: Option<DrmError>,
}

impl Setup {
    /// The set-up after one more event of the first scan. Outputs stand side
    /// by side; one without a mode or that the hardware does not take ends the
    /// set-up; what has no CRTC, or was unplugged, is passed over.
    pub open spec fn step(self, e: ScanEventView) -> Setup {
        match e {
            ScanEventView::Connected { connector, crtc: Some(crtc), output, ready } => {
                match initial_mode_spec(connector.modes) {
                    None => Setup { error: Some(DrmError::NoMode), ..self },
                    Some(mode) => if !ready {
                        Setup { error: Some(DrmError::SurfaceFailed), ..self }
                    } else {
                        Setup {
                            surfaces: without_crtc(self.surfaces, crtc).push(
                                DrmSurfaceView {
                                    crtc,
                                    output,
                                    connector: connector.handle,
                                    name: connector.name,
                                },
                            ),
                            ewm: self.ewm.add_connector(connector, mode, output, self.x),
                            x: crate::geometry::clamp_i32(self.x + mode.width) as i32,
                            error: None,
                        }
                    },
                }
            },
            _ => self,
        }
    }

    /// The set-up after several events; nothing happens after an error.
    pub open spec fn run(self, events: Seq<ScanEventView>) -> Setup
        decreases events.len(),
    {
        if events.len() == 0 {
            self
        } else {
            let s = self.run(events.drop_last());
            if s.error is Some {
                s
            } else {
                s.step(events.last())
            }
        }
    }

    /// The set-up at its start.
    pub open spec fn start(ewm: EwmView) -> Setup {
        Setup { surfaces: Seq::empty(), ewm, x: 0, error: None }
    }
}

/// The state after a set-up that went well: Emacs is told of all outputs, that
/// these are all, and that the compositor is ready; and every output is drawn.
pub open spec fn setup_done(s: Setup) -> EwmView {
    let t = s.ewm.recalculate_output_size();
    t.tell_outputs(t.outputs).tell(EventView::OutputsComplete).tell(EventView::Ready).render_all(
        s.surfaces,
    )
}

/// The backend and the state after the hardware was to be set up, with what
/// came of it. That happens once: a second request is refused and changes
/// nothing.
pub open spec fn initialized(d: DrmView, ewm: EwmView, events: Seq<ScanEventView>) -> (
    DrmView,
    EwmView,
    Result<(), DrmError>,
) {
    if !d.pending {
        (d, ewm, Err(DrmError::AlreadyInitialized))
    } else if !d.session {
        (DrmView { pending: false, ..d }, ewm, Err(DrmError::NoSession))
    } else {
        let s = Setup::start(ewm).run(events);
        match s.error {
            Some(e) => (DrmView { pending: false, ..d }, s.ewm, Err(e)),
            None => (
                DrmView { pending: false, device: Some(s.surfaces), ..d },
                setup_done(s),
                Ok(()),
            ),
        }
    }
}

/// Whether the rates in all events can be told.
pub open spec fn scan_rates_fit(events: Seq<ScanEventView>) -> bool {
    forall|i: int|
        0 <= i < events.len() ==> match #[trigger] events[i] {
            ScanEventView::Connected { connector, .. } => rates_fit(connector.modes),
            _ => true,
        }
}

/// The positions of the events that bring a new output.
pub open spec fn to_connect(events: Seq<ScanEventView>) -> Seq<usize>
    decreases events.len(),
{
    if events.len() == 0 {
        Seq::empty()
    } else {
        let before = to_connect(events.drop_last());
        match events.last() {
            ScanEventView::Connected { crtc: Some(crtc), .. } => before.push(
                (events.len() - 1) as usize,
            ),
            _ => before,
        }
    }
}

/// The outputs and the state after all that was unplugged is gone.
pub open spec fn unplugged(
    v: Seq<DrmSurfaceView>,
    ewm: EwmView,
    loop_handle: bool,
    events: Seq<ScanEventView>,
) -> (Seq<DrmSurfaceView>, EwmView)
    decreases events.len(),
{
    if events.len() == 0 {
        (v, ewm)
    } else {
        let s = unplugged(v, ewm, loop_handle, events.drop_last());
        match events.last() {
            ScanEventView::Disconnected { crtc: Some(crtc) } => match surface_on(s.0, crtc) {
                Some(o) => (without_crtc(s.0, crtc), s.1.disconnected(o, loop_handle)),
                None => s,
            },
            _ => s,
        }
    }
}

/// The name of a connector, from the name of its interface and its number.
pub fn connector_name(interface: &str, id: u32) -> (r: String)
    ensures
        r@ == interface@ + "-"@ + digits(id as nat),
{
    let mut s: String = owned(interface);
    s.append("-");
    s.append(unsigned_text(id as u64).as_str());
    s
}

/// A pixel format with the layout of its memory.
#[derive(Clone, Copy, Debug, PartialEq, Eq, Structural)]
pub struct PixelFormat {
    pub code: u32,
    pub modifier: u64,
}

/// Whether a modifier is one of the compressed layouts that do not display
/// reliably.
pub open spec fn is_compressed(modifier: u64) -> bool {
    modifier == 0x0100_0000_0000_0004 || modifier == 0x0100_0000_0000_0006 || modifier
        == 0x0100_0000_0000_0007
}

/// The formats to draw with: all but those with a compressed layout.
pub fn render_formats(formats: &Vec<PixelFormat>) -> (r: Vec<PixelFormat>)
    ensures
        r@ == formats@.filter(|f: PixelFormat| !is_compressed(f.modifier)),
{
    let ghost keep = |f: PixelFormat| !is_compressed(f.modifier);
    let mut r: Vec<PixelFormat> = Vec::new();
    let mut i: usize = 0;
    proof {
        reveal(Seq::filter);
        assert(formats@.take(0) =~= Seq::<PixelFormat>::empty());
    }
    while i < formats.len()
        invariant
            i <= formats@.len(),
            keep == (|f: PixelFormat| !is_compressed(f.modifier)),
            r@ == formats@.take(i as int).filter(keep),
        decreases formats@.len() - i,
    {
        let f: PixelFormat = formats[i];
        proof {
            reveal(Seq::filter);
            assert(formats@.take(i + 1).drop_last() =~= formats@.take(i as int));
        }
        if !(f.modifier == 0x0100_0000_0000_0004 || f.modifier == 0x0100_0000_0000_0006
            || f.modifier == 0x0100_0000_0000_0007) {
            r.push(f);
        }
        i += 1;
    }
    proof {
        assert(formats@.take(i as int) =~= formats@);
    }
    r
}

/// The formats to fall back to: those without a modifier.
pub fn fallback_formats(formats: &Vec<PixelFormat>) -> (r: Vec<PixelFormat>)
    ensures
        r@ == formats@.filter(|f: PixelFormat| f.modifier == MODIFIER_INVALID),
{
    let ghost keep = |f: PixelFormat| f.modifier == MODIFIER_INVALID;
    let mut r: Vec<PixelFormat> = Vec::new();
    let mut i: usize = 0;
    proof {
        reveal(Seq::filter);
        assert(formats@.take(0) =~= Seq::<PixelFormat>::empty());
    }
    while i < formats.len()
        invariant
            i <= formats@.len(),
            keep == (|f: PixelFormat| f.modifier == MODIFIER_INVALID),
            r@ == formats@.take(i as int).filter(keep),
        decreases formats@.len() - i,
    {
        let f: PixelFormat = formats[i];
        proof {
            reveal(Seq::filter);
            assert(formats@.take(i + 1).drop_last() =~= formats@.take(i as int));
        }
        if f.modifier == MODIFIER_INVALID {
            r.push(f);
        }
        i += 1;
    }
    proof {
        assert(formats@.take(i as int) =~= formats@);
    }
    r
}

fn modes_told(modes: &Vec<VideoMode>) -> (r: Vec<OutputMode>)
    requires
        rates_fit(modes@),
    ensures
        r@ == told_modes(modes@),
{
    let mut r: Vec<OutputMode> = Vec::new();
    let mut i: usize = 0;
    while i < modes.len()
        invariant
            i <= modes@.len(),
            r@.len() == i,
            rates_fit(modes@),
            forall|j: int| 0 <= j < i ==> #[trigger] r@[j] == told_modes(modes@)[j],
        decreases modes@.len() - i,
    {
        let m: VideoMode = modes[i];
        r.push(
            OutputMode {
                width: m.width as i32,
                height: m.height as i32,
                refresh: refresh_mhz(m.vrefresh),
                preferred: m.preferred,
            },
        );
        i += 1;
    }
    proof {
        assert(r@ =~= told_modes(modes@));
    }
    r
}

impl Connector {
    /// The connector as Emacs is told it, with its output at `x`.
    pub fn info(&self, x: i32) -> (r: OutputInfo)
        requires
            rates_fit(self@.modes),
        ensures
            r@ == told_info(self@, x),
    {
        let (w, h): (u32, u32) = match self.physical {
            Some(size) => size,
            None => (0, 0),
        };
        OutputInfo {
            name: self.name.clone(),
            make: owned("Unknown"),
            model: owned("Unknown"),
            width_mm: #[verifier::truncate] (w as i32),
            height_mm: #[verifier::truncate] (h as i32),
            x,
            y: 0,
            modes: modes_told(&self.modes),
        }
    }
}

impl Ewm {
    /// Maps and describes the output of a connector, at `x`.
    fn add_connector(&mut self, c: &Connector, mode: VideoMode, handle: OutputHandle, x: i32)
        requires
            rates_fit(c@.modes),
        ensures
            final(self)@ == old(self)@.add_connector(c@, mode, handle, x),
    {
        let size: Size = Size { w: mode.width as i32, h: mode.height as i32 };
        let o: Output = Output {
            handle,
            name: c.name.clone(),
            mode: size,
            transform: Transform::Normal,
            scale: SCALE_ONE,
            loc: Point { x, y: 0 },
            size,
            zone: Rectangle::from_size(size),
        };
        proof {
            assert(o@ == connector_output(c@, mode, handle, x));
        }
        self.add_output(
            o,
            OutputState::new(
                refresh_interval_us(mode.vrefresh),
                (mode.width as i32, mode.height as i32),
            ),
        );
        let ghost outputs = self@.outputs;
        let info: OutputInfo = c.info(x);
        self.outputs.push(info);
        proof {
            assert(self@.outputs =~= outputs.push(info@));
        }
        let ghost dbus = self@.dbus_outputs;
        let told: crate::dbus::OutputInfo = crate::dbus::OutputInfo {
            name: c.name.clone(),
            x,
            y: 0,
            width: mode.width as i32,
            height: mode.height as i32,
            refresh: mode.vrefresh,
        };
        self.dbus_outputs.push(told);
        proof {
            assert(self@.dbus_outputs =~= dbus.push(told@));
        }
        if self.output_config.contains_key(c.name.as_str()) {
            self.act(Action::ApplyOutputConfig { name: c.name.clone() });
        }
    }

    fn cancel_timer(&mut self, output: OutputHandle, loop_handle: bool)
        ensures
            final(self)@ == old(self)@.cancel_timer(output, loop_handle),
    {
        if let Some(state) = self.state_of(output) {
            if let Some(timer) = state.redraw_state.timer() {
                if loop_handle {
                    self.act(Action::CancelTimer { timer });
                }
            }
        }
    }

    fn stop_casts_of(&mut self, name: &str)
        ensures
            final(self)@ == old(self)@.stop_casts(
                sessions_casting(old(self)@.screen_casts, name@),
            ),
    {
        let ghost casts = self@.screen_casts;
        let mut ids: Vec<usize> = Vec::new();
        let mut i: usize = 0;
        proof {
            assert(casts.take(0) =~= Seq::<(usize, CastView)>::empty());
        }
        while i < self.screen_casts.len()
            invariant
                i <= self.screen_casts@.len(),
                self@ == old(self)@,
                casts == self@.screen_casts,
                ids@ == sessions_casting(casts.take(i as int), name@),
            decreases self.screen_casts@.len() - i,
        {
            proof {
                assert(casts.take(i + 1).drop_last() =~= casts.take(i as int));
                assert(casts.take(i + 1).last() == casts[i as int]);
            }
            if same_text(self.screen_casts[i].cast.output_name.as_str(), name) {
                ids.push(self.screen_casts[i].session_id);
            }
            i += 1;
        }
        proof {
            assert(casts.take(i as int) =~= casts);
            assert(ids@.take(0) =~= Seq::<usize>::empty());
        }
        let mut k: usize = 0;
        while k < ids.len()
            invariant
                k <= ids@.len(),
                self@ == old(self)@.stop_casts(ids@.take(k as int)),
            decreases ids@.len() - k,
        {
            proof {
                assert(ids@.take(k + 1).drop_last() =~= ids@.take(k as int));
                assert(ids@.take(k + 1).last() == ids@[k as int]);
            }
            self.stop_cast(ids[k]);
            k += 1;
        }
        proof {
            assert(ids@.take(k as int) =~= ids@);
        }
    }

    /// Takes up how an attempt to draw an output ended. Gives whether copies
    /// and casts of the screen are to be served.
    pub fn render_done(&mut self, output: OutputHandle, outcome: RenderOutcome) -> (r: bool)
        ensures
            final(self)@ == old(self)@.rendered(output, outcome),
            r == (outcome !is Failed),
    {
        if let Some(mut state) = self.state_of(output) {
            state.redraw_state = RedrawState::after_render(outcome);
            self.set_output_state(output, state);
        }
        self.act(Action::SendFrames { output });
        match outcome {
            RenderOutcome::Failed => false,
            _ => true,
        }
    }

    /// Takes up, while the session is locked, whether an output was drawn.
    pub fn lock_frame(&mut self, output: OutputHandle, outcome: RenderOutcome)
        ensures
            final(self)@ == old(self)@.lock_frame(output, outcome),
    {
        if !self.is_locked() {
            return;
        }
        match outcome {
            RenderOutcome::Failed | RenderOutcome::QueueFailed => {
                self.abort_lock_on_render_failure();
            },
            _ => {
                self.lock_frame_rendered(output);
            },
        }
    }

    /// The screen casts of an output that take a frame at this time, as
    /// positions in the list of casts.
    pub fn casts_due(&self, output_name: &str, now: u64) -> (r: Vec<usize>)
        ensures
            self@.are_due(r@, output_name@, now),
    {
        let mut r: Vec<usize> = Vec::new();
        let mut i: usize = 0;
        while i < self.screen_casts.len()
            invariant
                i <= self.screen_casts@.len(),
                forall|k: int|
                    0 <= k < r@.len() ==> (#[trigger] r@[k]) < i && self@.cast_due(
                        r@[k] as int,
                        output_name@,
                        now,
                    ),
                forall|j: int|
                    0 <= j < i && #[trigger] self@.cast_due(j, output_name@, now)
                        ==> r@.contains(j as usize),
                forall|j: int, k: int|
                    0 <= j < k < r@.len() ==> (#[trigger] r@[j]) < (#[trigger] r@[k]),
            decreases self.screen_casts@.len() - i,
        {
            let ghost before = r@;
            let c: &Cast = &self.screen_casts[i].cast;
            proof {
                assert(self@.screen_casts[i as int].1 == c@);
            }
            if self.space.output_index_named(c.output_name.as_str()).is_some() && c.is_streaming()
                && same_text(c.output_name.as_str(), output_name) && !c.should_skip_frame(now) {
                r.push(i);
                proof {
                    assert(r@[before.len() as int] == i);
                    assert forall|j: int|
                        0 <= j < i + 1 && #[trigger] self@.cast_due(
                            j,
                            output_name@,
                            now,
                        ) implies r@.contains(j as usize) by {
                        if j < i {
                            let k = choose|k: int|
                                0 <= k < before.len() && before[k] == j as usize;
                            assert(r@[k] == j as usize);
                        }
                    }
                }
            }
            i += 1;
        }
        r
    }

    /// Takes up a screen cast that was created for a session, in place of one
    /// that it had.
    pub fn cast_created(&mut self, session_id: usize, cast: Cast)
        ensures
            final(self)@ == old(self)@.cast_created(session_id, cast@),
    {
        let ghost keep = crate::protocols::other_session(session_id);
        let ghost before = self@;
        let ghost all = before.screen_casts;
        let mut i: usize = 0;
        let ghost mut done: int = 0;
        proof {
            reveal(Seq::filter);
            assert(all.take(0) =~= Seq::<(usize, CastView)>::empty());
            assert(self@.screen_casts =~= all.take(0).filter(keep) + all.skip(0));
        }
        while i < self.screen_casts.len()
            invariant
                before == old(self)@,
                all == before.screen_casts,
                keep == crate::protocols::other_session(session_id),
                0 <= done <= all.len(),
                i == all.take(done).filter(keep).len(),
                self@.screen_casts == all.take(done).filter(keep) + all.skip(done),
                self@ == (EwmView { screen_casts: self@.screen_casts, ..before }),
            decreases self.screen_casts@.len() - i,
        {
            let ghost prev = self@.screen_casts;
            proof {
                reveal(Seq::filter);
                assert(self.screen_casts@.len() == prev.len());
                assert(done < all.len());
                assert(all.take(done + 1).drop_last() =~= all.take(done));
                assert(all.take(done + 1).last() == all[done]);
                assert(prev[i as int] == all.skip(done)[0]);
            }
            if self.screen_casts[i].session_id == session_id {
                self.screen_casts.remove(i);
                proof {
                    assert(self@.screen_casts =~= prev.remove(i as int));
                    assert(self@.screen_casts =~= all.take(done + 1).filter(keep) + all.skip(
                        done + 1,
                    ));
                }
            } else {
                i += 1;
                proof {
                    assert(self@.screen_casts =~= all.take(done + 1).filter(keep) + all.skip(
                        done + 1,
                    ));
                }
            }
            proof {
                done = done + 1;
            }
        }
        let ghost kept = self@.screen_casts;
        proof {
            assert(done == all.len()) by {
                assert(all.skip(done).len() == 0);
            }
            assert(all.take(done) =~= all);
            assert(kept =~= all.filter(keep));
        }
        self.screen_casts.push(CastEntry { session_id, cast });
        proof {
            assert(self@.screen_casts =~= kept.push((session_id, cast@)));
        }
    }
}

impl DrmBackendState {
    /// The backend at the start: set-up waits for the session.
    pub fn new() -> (r: DrmBackendState)
        ensures
            r@ == (DrmView {
                pending: true,
                paused: false,
                device: None,
                session: true,
                init_sender: true,
                loop_handle: true,
            }),
    {
        DrmBackendState {
            pending: true,
            paused: false,
            device: None,
            session: true,
            init_sender: true,
            loop_handle: true,
        }
    }

    /// Whether the hardware is set up.
    pub fn is_initialized(&self) -> (r: bool)
        ensures
            r == (self@.device is Some),
    {
        self.device.is_some()
    }

    /// Whether an output is queued for a redraw.
    pub fn has_queued_redraws(&self, ewm: &Ewm) -> (r: bool)
        ensures
            r == exists|i: int|
                0 <= i < ewm@.output_state.len() && (
                #[trigger] ewm@.output_state[i]).state.redraw_state is Queued,
    {
        ewm.has_queued_redraws()
    }

    /// Has a surface's buffer imported, once the hardware is set up.
    pub fn early_import(&self, ewm: &mut Ewm, surface: u64)
        ensures
            final(ewm)@ == (if self@.device is Some {
                old(ewm)@.act(ActionView::EarlyImport { surface })
            } else {
                old(ewm)@
            }),
    {
        if self.device.is_some() {
            ewm.act(Action::EarlyImport { surface });
        }
    }

    fn find_surface(&self, crtc: u32) -> (r: Option<(usize, OutputHandle)>)
        ensures
            match r {
                Some((i, output)) => self.device matches Some(v) && i < v@.len()
                    && self@.surface(crtc) == Some(v@[i as int]@) && output == v@[i as int].output,
                None => self@.surface(crtc) is None,
            },
    {
        match &self.device {
            Some(v) => {
                let ghost all = surface_seq(v@);
                let mut i: usize = 0;
                proof {
                    assert(all.skip(0) =~= all);
                }
                while i < v.len()
                    invariant
                        i <= v@.len(),
                        all == surface_seq(v@),
                        self.device == Some(*v),
                        surface_on(all, crtc) == surface_on(all.skip(i as int), crtc),
                    decreases v@.len() - i,
                {
                    proof {
                        assert(all.skip(i as int)[0] == v@[i as int]@);
                        assert(all.skip(i as int).drop_first() =~= all.skip(i + 1));
                    }
                    if v[i].crtc == crtc {
                        return Some((i, v[i].output));
                    }
                    i += 1;
                }
                None
            },
            None => None,
        }
    }

    /// The name of the output that a CRTC drives.
    pub fn surface_name(&self, crtc: u32) -> (r: &str)
        requires
            self@.surface(crtc) is Some,
        ensures
            r@ == self@.surface(crtc)->0.name,
    {
        match (self.find_surface(crtc), &self.device) {
            (Some((i, _)), Some(v)) => v[i].name.as_str(),
            _ => "",
        }
    }

    /// The session was switched away: outputs go idle and their timers are
    /// cancelled.
    pub fn pause(&mut self, ewm: &mut Ewm)
        ensures
            final(self)@ == (DrmView { paused: true, ..old(self)@ }),
            final(ewm)@ == match old(self)@.device {
                Some(v) => old(ewm)@.pause_outputs(v, old(self)@.loop_handle),
                None => old(ewm)@,
            },
    {
        if let Some(v) = &self.device {
            let ghost all = surface_seq(v@);
            let mut i: usize = 0;
            proof {
                assert(all.take(0) =~= Seq::<DrmSurfaceView>::empty());
            }
            while i < v.len()
                invariant
                    i <= v@.len(),
                    all == surface_seq(v@),
                    ewm@ == old(ewm)@.pause_outputs(all.take(i as int), self.loop_handle),
                decreases v@.len() - i,
            {
                let output: OutputHandle = v[i].output;
                proof {
                    assert(all.take(i + 1).drop_last() =~= all.take(i as int));
                    assert(all.take(i + 1).last() == v@[i as int]@);
                }
                if let Some(mut state) = ewm.state_of(output) {
                    ewm.cancel_timer(output, self.loop_handle);
                    state.redraw_state = RedrawState::Idle;
                    ewm.set_output_state(output, state);
                }
                i += 1;
            }
            proof {
                assert(all.take(i as int) =~= all);
            }
        }
        self.paused = true;
    }

    /// The session was switched back: all outputs are redrawn.
    pub fn resume(&mut self, ewm: &mut Ewm)
        ensures
            final(self)@ == (DrmView { paused: false, ..old(self)@ }),
            final(ewm)@ == (if old(self)@.device is Some {
                old(ewm)@.queue_redraw_all()
            } else {
                old(ewm)@
            }),
    {
        self.paused = false;
        if self.device.is_some() {
            ewm.queue_redraw_all();
        }
    }

    /// The message that starts the pending set-up.
    pub fn trigger_init(&self) -> (r: Option<DrmMessage>)
        ensures
            r == if self@.init_sender {
                Some(DrmMessage::InitializeDrm)
            } else {
                None
            },
    {
        if self.init_sender {
            Some(DrmMessage::InitializeDrm)
        } else {
            None
        }
    }

    /// Takes up what the session tells: the first activation starts the
    /// set-up.
    pub fn handle_session_event(&mut self, event: SessionEvent, ewm: &mut Ewm) -> (r: Option<
        DrmMessage,
    >)
        ensures
            match event {
                SessionEvent::PauseSession => {
                    &&& r is None
                    &&& final(self)@ == (DrmView { paused: true, ..old(self)@ })
                    &&& final(ewm)@ == match old(self)@.device {
                        Some(v) => old(ewm)@.pause_outputs(v, old(self)@.loop_handle),
                        None => old(ewm)@,
                    }
                },
                SessionEvent::ActivateSession => if old(self)@.device is None {
                    final(self)@ == old(self)@ && final(ewm)@ == old(ewm)@ && r == (if old(
                        self)@.init_sender {
                        Some(DrmMessage::InitializeDrm)
                    } else {
                        None
                    })
                } else {
                    r is None && final(self)@ == (DrmView { paused: false, ..old(self)@ })
                        && final(ewm)@ == old(ewm)@.queue_redraw_all()
                },
            },
    {
        match event {
            SessionEvent::PauseSession => {
                self.pause(ewm);
                None
            },
            SessionEvent::ActivateSession => if self.device.is_none() {
                self.trigger_init()
            } else {
                self.resume(ewm);
                None
            },
        }
    }

    /// Whether another terminal can be switched to.
    pub fn change_vt(&self) -> (r: bool)
        ensures
            r == self@.session,
    {
        self.session
    }

    /// The mode to give an output: the best one of this size among the
    /// connector's modes, with the output's handle. None where the hardware is
    /// not set up, there is no such output, or no mode has the size.
    pub fn find_mode(
        &self,
        output_name: &str,
        modes: &Vec<VideoMode>,
        width: i32,
        height: i32,
        refresh: Option<i32>,
    ) -> (r: Option<(OutputHandle, VideoMode)>)
        ensures
            r == match self@.device {
                Some(v) => match surface_named(v, output_name@) {
                    Some(s) => match best_mode(modes@, width, height, refresh) {
                        Some(m) => Some((s.output, m)),
                        None => None,
                    },
                    None => None,
                },
                None => None,
            },
    {
        match &self.device {
            Some(v) => {
                let ghost all = surface_seq(v@);
                let mut i: usize = 0;
                proof {
                    assert(all.skip(0) =~= all);
                }
                while i < v.len()
                    invariant
                        i <= v@.len(),
                        all == surface_seq(v@),
                        self@.device == Some(all),
                        surface_named(all, output_name@) == surface_named(
                            all.skip(i as int),
                            output_name@,
                        ),
                    decreases v@.len() - i,
                {
                    proof {
                        assert(all.skip(i as int)[0] == v@[i as int]@);
                        assert(all.skip(i as int).drop_first() =~= all.skip(i + 1));
                    }
                    if same_text(v[i].name.as_str(), output_name) {
                        return match choose_mode(modes, width, height, refresh) {
                            Some(m) => Some((v[i].output, m)),
                            None => None,
                        };
                    }
                    i += 1;
                }
                None
            },
            None => None,
        }
    }

    /// Takes up that an output has a new mode; `size` is its logical size
    /// then.
    pub fn mode_applied(&self, ewm: &mut Ewm, output: OutputHandle, mode: VideoMode, size: Size)
        ensures
            final(ewm)@ == old(ewm)@.mode_changed(output, mode, size),
    {
        let ghost before = ewm@;
        let ghost change = |o: OutputView| OutputView { mode: mode_size(mode), size, ..o };
        let ghost goal = before.space.change_output(output, change).outputs;
        let mode_px: Size = Size { w: mode.width as i32, h: mode.height as i32 };
        let mut i: usize = 0;
        while i < ewm.space.outputs.len()
            invariant
                i <= ewm.space.outputs@.len(),
                ewm.space.outputs@.len() == before.space.outputs.len(),
                before == old(ewm)@,
                mode_px == mode_size(mode),
                change == (|o: OutputView| OutputView { mode: mode_size(mode), size, ..o }),
                goal == before.space.change_output(output, change).outputs,
                ewm@ == (EwmView {
                    space: SpaceView { outputs: ewm@.space.outputs, ..before.space },
                    ..before
                }),
                forall|j: int| 0 <= j < i ==> #[trigger] ewm@.space.outputs[j] == goal[j],
                forall|j: int|
                    i <= j < before.space.outputs.len() ==> #[trigger] ewm@.space.outputs[j]
                        == before.space.outputs[j],
            decreases ewm.space.outputs@.len() - i,
        {
            let ghost prev = ewm@.space.outputs;
            proof {
                assert(ewm@.space.outputs[i as int] == before.space.outputs[i as int]);
            }
            if ewm.space.outputs[i].handle == output {
                let o: Output = Output {
                    handle: output,
                    name: ewm.space.outputs[i].name.clone(),
                    mode: mode_px,
                    transform: ewm.space.outputs[i].transform,
                    scale: ewm.space.outputs[i].scale,
                    loc: ewm.space.outputs[i].loc,
                    size,
                    zone: ewm.space.outputs[i].zone,
                };
                ewm.space.outputs[i] = o;
                proof {
                    assert(ewm@.space.outputs =~= prev.update(i as int, o@));
                }
            }
            i += 1;
        }
        proof {
            assert(ewm@.space.outputs =~= goal);
        }
        if let Some(mut state) = ewm.state_of(output) {
            state.refresh_interval_us = refresh_interval_us(mode.vrefresh);
            state.redraw_state = RedrawState::Queued;
            ewm.set_output_state(output, state);
        }
    }

    /// Gives an output another mode. `accepted` tells whether the hardware
    /// took the mode that [`Self::find_mode`] gives, and `size` the output's
    /// logical size then. Gives whether the mode changed.
    pub fn set_mode(
        &mut self,
        ewm: &mut Ewm,
        output_name: &str,
        modes: &Vec<VideoMode>,
        width: i32,
        height: i32,
        refresh: Option<i32>,
        accepted: bool,
        size: Size,
    ) -> (r: bool)
        ensures
            final(self)@ == old(self)@,
            match old(self)@.device {
                Some(v) => match (
                    surface_named(v, output_name@),
                    best_mode(modes@, width, height, refresh),
                ) {
                    (Some(s), Some(m)) if accepted => r && final(ewm)@ == old(ewm)@.mode_changed(
                        s.output,
                        m,
                        size,
                    ),
                    _ => !r && final(ewm)@ == old(ewm)@,
                },
                None => !r && final(ewm)@ == old(ewm)@,
            },
    {
        match self.find_mode(output_name, modes, width, height, refresh) {
            Some((output, mode)) => {
                if !accepted {
                    return false;
                }
                self.mode_applied(ewm, output, mode, size);
                true
            },
            None => false,
        }
    }

    /// Whether the output of a CRTC is to be drawn now, and then its handle
    /// and its refresh interval: it is queued, and the session and the
    /// hardware are active.
    pub fn should_render(&self, ewm: &Ewm, crtc: u32, drm_active: bool) -> (r: Option<
        (OutputHandle, u64),
    >)
        ensures
            r == self@.due(ewm@, crtc, drm_active),
    {
        match self.find_surface(crtc) {
            Some((_, output)) => match ewm.state_of(output) {
                Some(state) => if state.redraw_state.renders() && !self.paused && drm_active {
                    Some((output, state.refresh_interval_us))
                } else {
                    None
                },
                None => None,
            },
            None => None,
        }
    }

    /// How long the timer runs that stands in for a vertical blank; none where
    /// timers cannot be set or the CRTC drives no output.
    pub fn estimated_vblank_timer(&self, crtc: u32, refresh_interval_us: u64) -> (r: Option<u64>)
        ensures
            r == if self@.loop_handle && self@.surface(crtc) is Some {
                Some(crate::output::timer_spec(refresh_interval_us))
            } else {
                None
            },
    {
        if !self.loop_handle {
            return None;
        }
        match self.find_surface(crtc) {
            Some(_) => Some(estimated_vblank_us(refresh_interval_us)),
            None => None,
        }
    }

    /// Takes up that the timer of a CRTC fired.
    pub fn on_estimated_vblank_timer(&mut self, crtc: u32, ewm: &mut Ewm)
        ensures
            final(self)@ == old(self)@,
            final(ewm)@ == match old(self)@.surface(crtc) {
                Some(s) => old(ewm)@.estimated_vblank(s.output),
                None => old(ewm)@,
            },
    {
        if let Some((_, output)) = self.find_surface(crtc) {
            if let Some(mut state) = ewm.state_of(output) {
                let (next, action): (RedrawState, Option<bool>) =
                    state.redraw_state.on_estimated_vblank();
                if let Some(render) = action {
                    state.redraw_state = next;
                    state.frame_callback_sequence = state.frame_callback_sequence.wrapping_add(1);
                    ewm.set_output_state(output, state);
                    if render {
                        ewm.act(Action::Render { output });
                    } else {
                        ewm.act(Action::SendFrames { output });
                    }
                }
            }
        }
    }

    /// Takes up a vertical blank of a CRTC.
    pub fn on_vblank(&mut self, crtc: u32, ewm: &mut Ewm)
        ensures
            final(self)@ == old(self)@,
            final(ewm)@ == match old(self)@.surface(crtc) {
                Some(s) => old(ewm)@.vblank(s.output),
                None => old(ewm)@,
            },
    {
        if let Some((_, output)) = self.find_surface(crtc) {
            if let Some(mut state) = ewm.state_of(output) {
                let (next, render): (RedrawState, bool) = state.redraw_state.on_vblank();
                state.redraw_state = next;
                state.frame_callback_sequence = state.frame_callback_sequence.wrapping_add(1);
                ewm.set_output_state(output, state);
                if render {
                    ewm.act(Action::Render { output });
                }
            }
        }
    }

    /// Has all outputs drawn that are queued for a redraw.
    pub fn redraw_queued_outputs(&mut self, ewm: &mut Ewm)
        ensures
            final(self)@ == old(self)@,
            final(ewm)@ == match old(self)@.device {
                Some(v) => old(ewm)@.render_queued(v),
                None => old(ewm)@,
            },
    {
        if let Some(v) = &self.device {
            let ghost all = surface_seq(v@);
            let mut i: usize = 0;
            proof {
                assert(all.take(0) =~= Seq::<DrmSurfaceView>::empty());
            }
            while i < v.len()
                invariant
                    i <= v@.len(),
                    all == surface_seq(v@),
                    ewm@ == old(ewm)@.render_queued(all.take(i as int)),
                    ewm@.output_state == old(ewm)@.output_state,
                decreases v@.len() - i,
            {
                let output: OutputHandle = v[i].output;
                proof {
                    assert(all.take(i + 1).drop_last() =~= all.take(i as int));
                    assert(all.take(i + 1).last() == v@[i as int]@);
                }
                if let Some(state) = ewm.state_of(output) {
                    if state.redraw_state.is_queued() {
                        ewm.act(Action::Render { output });
                    }
                }
                i += 1;
            }
            proof {
                assert(all.take(i as int) =~= all);
            }
        }
    }

    /// Takes a connector into use; `output` is the handle of its output.
    pub fn connect_output(
        &mut self,
        connector: &Connector,
        crtc: u32,
        output: OutputHandle,
        ewm: &mut Ewm,
    ) -> (r: Result<(), DrmError>)
        requires
            rates_fit(connector@.modes),
        ensures
            match old(self)@.device {
                None => r == Err::<(), DrmError>(DrmError::NotInitialized) && final(self)@ == old(
                    self)@ && final(ewm)@ == old(ewm)@,
                Some(v) => match initial_mode_spec(connector@.modes) {
                    None => r == Err::<(), DrmError>(DrmError::NoMode) && final(self)@ == old(
                        self)@ && final(ewm)@ == old(ewm)@,
                    Some(mode) => {
                        &&& r == Ok::<(), DrmError>(())
                        &&& final(self)@ == (DrmView {
                            device: Some(
                                without_crtc(v, crtc).push(
                                    DrmSurfaceView {
                                        crtc,
                                        output,
                                        connector: connector@.handle,
                                        name: connector@.name,
                                    },
                                ),
                            ),
                            ..old(self)@
                        })
                        &&& final(ewm)@ == old(ewm)@.connected(connector@, mode, output)
                    },
                },
            },
    {
        if self.device.is_none() {
            return Err(DrmError::NotInitialized);
        }
        let mode: VideoMode = match initial_mode(&connector.modes) {
            Some(m) => m,
            None => return Err(DrmError::NoMode),
        };
        let x: i32 = ewm.output_size.w;
        let mut device: Option<Vec<DrmSurface>> = None;
        core::mem::swap(&mut device, &mut self.device);
        if let Some(v) = device {
            let mut v: Vec<DrmSurface> = drop_crtc(v, crtc);
            push_surface(&mut v, crtc, output, connector);
            self.device = Some(v);
        }
        ewm.add_connector(connector, mode, output, x);
        ewm.recalculate_output_size();
        ewm.send_output_detected(connector.info(x));
        Ok(())
    }

    /// Takes up that the output of a CRTC was unplugged.
    pub fn disconnect_output(&mut self, crtc: u32, ewm: &mut Ewm)
        ensures
            match old(self)@.device {
                Some(v) => match surface_on(v, crtc) {
                    Some(s) => final(self)@ == (DrmView {
                        device: Some(without_crtc(v, crtc)),
                        ..old(self)@
                    }) && final(ewm)@ == old(ewm)@.disconnected(s, old(self)@.loop_handle),
                    None => final(self)@ == old(self)@ && final(ewm)@ == old(ewm)@,
                },
                None => final(self)@ == old(self)@ && final(ewm)@ == old(ewm)@,
            },
    {
        let (index, output): (usize, OutputHandle) = match self.find_surface(crtc) {
            Some(found) => found,
            None => return,
        };
        let mut name: String = String::new();
        let mut device: Option<Vec<DrmSurface>> = None;
        core::mem::swap(&mut device, &mut self.device);
        if let Some(v) = device {
            name = v[index].name.clone();
            self.device = Some(drop_crtc(v, crtc));
        }
        let loop_handle: bool = self.loop_handle;
        ewm.cancel_timer(output, loop_handle);
        ewm.drop_state(output);
        ewm.check_lock_on_output_removed();
        ewm.stop_casts_of(name.as_str());
        ewm.unmap_output(output);
        ewm.drop_infos(name.as_str());
        ewm.recalculate_output_size();
        ewm.send_output_disconnected(name.as_str());
    }

    /// Takes up a scan of the connectors: what was unplugged goes first. Gives
    /// the positions of the events that bring a new output, for
    /// [`Self::connect_output`]; none while paused.
    pub fn on_device_changed(&mut self, ewm: &mut Ewm, events: &Vec<ScanEvent>) -> (r: Vec<usize>)
        ensures
            match old(self)@.device {
                Some(v) if !old(self)@.paused => {
                    let s = unplugged(v, old(ewm)@, old(self)@.loop_handle, scan_views(events@));
                    &&& r@ == to_connect(scan_views(events@))
                    &&& final(self)@ == (DrmView { device: Some(s.0), ..old(self)@ })
                    &&& final(ewm)@ == s.1
                },
                _ => r@ == Seq::<usize>::empty() && final(self)@ == old(self)@ && final(ewm)@
                    == old(ewm)@,
            },
    {
        let mut added: Vec<usize> = Vec::new();
        if self.paused || self.device.is_none() {
            return added;
        }
        let ghost all = scan_views(events@);
        let ghost v = self@.device->0;
        let mut i: usize = 0;
        proof {
            assert(all.take(0) =~= Seq::<ScanEventView>::empty());
        }
        while i < events.len()
            invariant
                i <= events@.len(),
                all == scan_views(events@),
                old(self)@.device == Some(v),
                !old(self)@.paused,
                added@ == to_connect(all.take(i as int)),
                ({
                    let s = unplugged(v, old(ewm)@, old(self)@.loop_handle, all.take(i as int));
                    self@ == (DrmView { device: Some(s.0), ..old(self)@ }) && ewm@ == s.1
                }),
            decreases events@.len() - i,
        {
            proof {
                assert(all.take(i + 1).drop_last() =~= all.take(i as int));
                assert(all.take(i + 1).last() == events@[i as int]@);
            }
            match &events[i] {
                ScanEvent::Connected { connector: _, crtc, output: _, ready: _ } => {
                    if crtc.is_some() {
                        added.push(i);
                    }
                },
                ScanEvent::Disconnected { crtc } => {
                    if let Some(crtc) = crtc {
                        self.disconnect_output(*crtc, ewm);
                    }
                },
            }
            i += 1;
        }
        proof {
            assert(all.take(i as int) =~= all);
        }
        added
    }

    /// Sets up the outputs that the first scan found. On success Emacs is told
    /// of them and they are drawn; after an error the hardware counts as not
    /// set up.
    pub fn initialize_drm(&mut self, ewm: &mut Ewm, events: &Vec<ScanEvent>) -> (r: Result<
        (),
        DrmError,
    >)
        requires
            scan_rates_fit(scan_views(events@)),
        ensures
            (final(self)@, final(ewm)@, r) == initialized(
                old(self)@,
                old(ewm)@,
                scan_views(events@),
            ),
    {
        if !self.pending {
            return Err(DrmError::AlreadyInitialized);
        }
        self.pending = false;
        if !self.session {
            return Err(DrmError::NoSession);
        }
        let ghost all = scan_views(events@);
        let ghost start = Setup::start(ewm@);
        let mut surfaces: Vec<DrmSurface> = Vec::new();
        let mut x: i32 = 0;
        let mut i: usize = 0;
        proof {
            assert(all.take(0) =~= Seq::<ScanEventView>::empty());
            assert(surface_seq(surfaces@) =~= Seq::<DrmSurfaceView>::empty());
        }
        while i < events.len()
            invariant
                i <= events@.len(),
                all == scan_views(events@),
                scan_rates_fit(all),
                old(self)@.pending,
                old(self)@.session,
                self@ == (DrmView { pending: false, ..old(self)@ }),
                start == Setup::start(old(ewm)@),
                start.run(all.take(i as int)) == (Setup {
                    surfaces: surface_seq(surfaces@),
                    ewm: ewm@,
                    x,
                    error: None,
                }),
            decreases events@.len() - i,
        {
            let ghost before = start.run(all.take(i as int));
            proof {
                assert(all.take(i + 1).drop_last() =~= all.take(i as int));
                assert(all.take(i + 1).last() == events@[i as int]@);
                assert(all[i as int] == events@[i as int]@);
                assert(start.run(all.take(i + 1)) == before.step(events@[i as int]@));
            }
            if let ScanEvent::Connected { connector, crtc, output, ready } = &events[i] {
                if let Some(crtc) = *crtc {
                    let mode: VideoMode = match initial_mode(&connector.modes) {
                        Some(m) => m,
                        None => {
                            proof {
                                lemma_setup_stops(start, all, i + 1);
                            }
                            return Err(DrmError::NoMode);
                        },
                    };
                    if !*ready {
                        proof {
                            lemma_setup_stops(start, all, i + 1);
                        }
                        return Err(DrmError::SurfaceFailed);
                    }
                    surfaces = drop_crtc(surfaces, crtc);
                    push_surface(&mut surfaces, crtc, *output, connector);
                    ewm.add_connector(connector, mode, *output, x);
                    x = saturating_sum(x, mode.width as i32);
                }
            }
            i += 1;
        }
        proof {
            assert(all.take(i as int) =~= all);
        }
        ewm.recalculate_output_size();
        let ghost t = ewm@;
        let ghost shown = surface_seq(surfaces@);
        let infos: Vec<OutputInfo> = copy_infos(&ewm.outputs);
        let ghost told = crate::event::info_views(infos@);
        let mut k: usize = 0;
        proof {
            assert(told.take(0) =~= Seq::<OutputInfoView>::empty());
        }
        while k < infos.len()
            invariant
                k <= infos@.len(),
                told == crate::event::info_views(infos@),
                ewm@ == t.tell_outputs(told.take(k as int)),
            decreases infos@.len() - k,
        {
            proof {
                assert(told.take(k + 1).drop_last() =~= told.take(k as int));
                assert(told.take(k + 1).last() == infos@[k as int]@);
            }
            ewm.send_output_detected(infos[k].copy());
            k += 1;
        }
        proof {
            assert(told.take(k as int) =~= told);
        }
        ewm.queue_event(Event::OutputsComplete);
        ewm.queue_event(Event::Ready);
        let ghost u = ewm@;
        let mut m: usize = 0;
        proof {
            assert(shown.take(0) =~= Seq::<DrmSurfaceView>::empty());
        }
        while m < surfaces.len()
            invariant
                m <= surfaces@.len(),
                shown == surface_seq(surfaces@),
                ewm@ == u.render_all(shown.take(m as int)),
            decreases surfaces@.len() - m,
        {
            proof {
                assert(shown.take(m + 1).drop_last() =~= shown.take(m as int));
                assert(shown.take(m + 1).last() == surfaces@[m as int]@);
            }
            ewm.act(Action::Render { output: surfaces[m].output });
            m += 1;
        }
        proof {
            assert(shown.take(m as int) =~= shown);
        }
        self.device = Some(surfaces);
        Ok(())
    }

    /// The size and refresh rate for a screen cast of an output; none where
    /// casting is not available or there is no such output.
    pub fn start_cast(&self, ewm: &Ewm, output_name: &str, available: bool) -> (r: Option<
        (i32, i32, u32),
    >)
        ensures
            r == if available && self@.device is Some {
                match crate::dbus::output_named(ewm@.dbus_outputs, output_name@) {
                    Some(o) => Some((o.width, o.height, o.refresh)),
                    None => None,
                }
            } else {
                None
            },
    {
        if !available || self.device.is_none() {
            return None;
        }
        match crate::dbus::find_output(&ewm.dbus_outputs, output_name) {
            Some(i) => {
                let o: &crate::dbus::OutputInfo = &ewm.dbus_outputs[i];
                Some((o.width, o.height, o.refresh))
            },
            None => None,
        }
    }
}

/// After an error the rest of the events changes nothing.
proof fn lemma_setup_stops(start: Setup, events: Seq<ScanEventView>, k: int)
    requires
        0 <= k <= events.len(),
        start.run(events.take(k)).error is Some,
    ensures
        start.run(events) == start.run(events.take(k)),
    decreases events.len() - k,
{
    if k < events.len() {
        assert(events.take(k + 1).drop_last() =~= events.take(k));
        lemma_setup_stops(start, events, k + 1);
    } else {
        assert(events.take(k) =~= events);
    }
}

fn copy_infos(infos: &Vec<OutputInfo>) -> (r: Vec<OutputInfo>)
    ensures
        crate::event::info_views(r@) == crate::event::info_views(infos@),
{
    let mut r: Vec<OutputInfo> = Vec::new();
    let mut i: usize = 0;
    while i < infos.len()
        invariant
            i <= infos@.len(),
            r@.len() == i,
            forall|j: int| 0 <= j < i ==> (#[trigger] r@[j])@ == infos@[j]@,
        decreases infos@.len() - i,
    {
        r.push(infos[i].copy());
        i += 1;
    }
    proof {
        assert(crate::event::info_views(r@) =~= crate::event::info_views(infos@));
    }
    r
}

fn push_surface(v: &mut Vec<DrmSurface>, crtc: u32, output: OutputHandle, connector: &Connector)
    ensures
        surface_seq(final(v)@) == surface_seq(old(v)@).push(
            DrmSurfaceView {
                crtc,
                output,
                connector: connector@.handle,
                name: connector@.name,
            },
        ),
{
    let s: DrmSurface = DrmSurface {
        crtc,
        output,
        connector: connector.handle,
        name: connector.name.clone(),
    };
    v.push(s);
    proof {
        assert(surface_seq(v@) =~= surface_seq(old(v)@).push(s@));
    }
}

fn drop_crtc(v: Vec<DrmSurface>, crtc: u32) -> (r: Vec<DrmSurface>)
    ensures
        surface_seq(r@) == without_crtc(surface_seq(v@), crtc),
{
    let ghost all = surface_seq(v@);
    let ghost keep = |s: DrmSurfaceView| s.crtc != crtc;
    let mut r: Vec<DrmSurface> = v;
    let mut i: usize = 0;
    let ghost mut done: int = 0;
    proof {
        reveal(Seq::filter);
        assert(all.take(0) =~= Seq::<DrmSurfaceView>::empty());
        assert(surface_seq(r@) =~= all.take(0).filter(keep) + all.skip(0));
    }
    while i < r.len()
        invariant
            keep == (|s: DrmSurfaceView| s.crtc != crtc),
            0 <= done <= all.len(),
            i == all.take(done).filter(keep).len(),
            surface_seq(r@) == all.take(done).filter(keep) + all.skip(done),
        decreases r@.len() - i,
    {
        let ghost prev = surface_seq(r@);
        proof {
            reveal(Seq::filter);
            assert(r@.len() == prev.len());
            assert(done < all.len());
            assert(all.take(done + 1).drop_last() =~= all.take(done));
            assert(all.take(done + 1).last() == all[done]);
            assert(prev[i as int] == all.skip(done)[0]);
        }
        if r[i].crtc == crtc {
            r.remove(i);
            proof {
                assert(surface_seq(r@) =~= prev.remove(i as int));
                assert(surface_seq(r@) =~= all.take(done + 1).filter(keep) + all.skip(done + 1));
            }
        } else {
            i += 1;
            proof {
                assert(surface_seq(r@) =~= all.take(done + 1).filter(keep) + all.skip(done + 1));
            }
        }
        proof {
            done = done + 1;
        }
    }
    proof {
        assert(done == all.len()) by {
            assert(all.skip(done).len() == 0);
        }
        assert(all.take(done) =~= all);
        assert(surface_seq(r@) =~= all.filter(keep));
    }
    r
}

// ---------------------------------------------------------------------------
// Laws
// ---------------------------------------------------------------------------
/// The events that tell Emacs of the outputs of a list, in its order.
pub open spec fn detections(infos: Seq<OutputInfoView>) -> Seq<EventView> {
    infos.map_values(|info: OutputInfoView| EventView::OutputDetected(info))
}

proof fn lemma_tell_outputs(ewm: EwmView, infos: Seq<OutputInfoView>)
    ensures
        ewm.tell_outputs(infos).module.events == ewm.module.events + detections(infos),
        ewm.tell_outputs(infos).outputs == ewm.outputs,
    decreases infos.len(),
{
    if infos.len() > 0 {
        let before = infos.drop_last();
        lemma_tell_outputs(ewm, before);
        assert(detections(infos) =~= detections(before).push(
            EventView::OutputDetected(infos.last()),
        ));
        assert(ewm.module.events + detections(infos) =~= (ewm.module.events + detections(
            before,
        )).push(EventView::OutputDetected(infos.last())));
    } else {
        assert(ewm.module.events + detections(infos) =~= ewm.module.events);
    }
}

proof fn lemma_setup_tells_nothing(start: Setup, events: Seq<ScanEventView>)
    ensures
        start.run(events).ewm.module == start.ewm.module,
    decreases events.len(),
{
    if events.len() > 0 {
        lemma_setup_tells_nothing(start, events.drop_last());
    }
}

/// Hardware that is set up is set up once. Where that goes well, Emacs is told
/// of every output in the order of the list, then that these are all, then
/// that the compositor is ready, each exactly once and nothing else; nothing
/// is pending any more and the outputs are there; and whatever a further
/// request finds, it is refused, and Emacs is told nothing.
pub proof fn lemma_initialized_once(
    d: DrmView,
    ewm: EwmView,
    events: Seq<ScanEventView>,
    again: Seq<ScanEventView>,
)
    requires
        d.pending,
        initialized(d, ewm, events).2 is Ok,
    ensures
        ({
            let (d1, ewm1, _) = initialized(d, ewm, events);
            &&& ewm1.module.events == ewm.module.events + detections(ewm1.outputs) + seq![
                EventView::OutputsComplete,
                EventView::Ready,
            ]
            &&& !d1.pending
            &&& d1.device is Some
            &&& initialized(d1, ewm1, again) == (
                d1,
                ewm1,
                Err::<(), DrmError>(DrmError::AlreadyInitialized),
            )
        }),
{
    let s = Setup::start(ewm).run(events);
    let (d1, ewm1, _) = initialized(d, ewm, events);
    lemma_setup_tells_nothing(Setup::start(ewm), events);
    let t = s.ewm.recalculate_output_size();
    lemma_tell_outputs(t, t.outputs);
    let u = t.tell_outputs(t.outputs).tell(EventView::OutputsComplete).tell(EventView::Ready);
    lemma_render_all_tells_nothing(u, s.surfaces);
    assert(ewm1.outputs == t.outputs);
    assert(ewm1.module.events =~= ewm.module.events + detections(ewm1.outputs) + seq![
        EventView::OutputsComplete,
        EventView::Ready,
    ]);
}

/// A set-up that fails is not tried again either, and Emacs is told nothing.
pub proof fn lemma_failed_setup(
    d: DrmView,
    ewm: EwmView,
    events: Seq<ScanEventView>,
    again: Seq<ScanEventView>,
)
    requires
        d.pending,
        initialized(d, ewm, events).2 is Err,
    ensures
        ({
            let (d1, ewm1, _) = initialized(d, ewm, events);
            &&& ewm1.module == ewm.module
            &&& !d1.pending
            &&& d1.device == d.device
            &&& initialized(d1, ewm1, again) == (
                d1,
                ewm1,
                Err::<(), DrmError>(DrmError::AlreadyInitialized),
            )
        }),
{
    lemma_setup_tells_nothing(Setup::start(ewm), events);
}

proof fn lemma_render_all_tells_nothing(ewm: EwmView, v: Seq<DrmSurfaceView>)
    ensures
        ewm.render_all(v).module == ewm.module,
        ewm.render_all(v).outputs == ewm.outputs,
    decreases v.len(),
{
    if v.len() > 0 {
        lemma_render_all_tells_nothing(ewm, v.drop_last());
    }
}

/// An output that was just connected is drawn after all outputs that there
/// were, side by side.
pub proof fn lemma_connected_right_of_others(
    ewm: EwmView,
    c: ConnectorView,
    mode: VideoMode,
    handle: OutputHandle,
)
    ensures
        ({
            let t = ewm.connected(c, mode, handle);
            let o = t.space.outputs.last();
            &&& o.loc == (Point { x: ewm.output_size.w, y: 0 })
            &&& o.name == c.name
            &&& t.output_size.w >= o.geometry().right_spec()
            &&& t.module.events.last() == EventView::OutputDetected(
                told_info(c, ewm.output_size.w),
            )
        }),
{
    let t = ewm.connected(c, mode, handle);
    crate::space::lemma_extent_covers(t.space.outputs, t.space.outputs.len() - 1);
}

/// While the session is paused nothing is drawn, whatever was requested
/// before or is requested meanwhile.
pub proof fn lemma_paused_draws_nothing(
    d: DrmView,
    ewm: EwmView,
    crtc: u32,
    output: OutputHandle,
    drm_active: bool,
)
    requires
        d.paused,
    ensures
        d.due(ewm, crtc, drm_active) is None,
        d.due(ewm.queue_redraw(output), crtc, drm_active) is None,
        d.due(ewm.queue_redraw_all(), crtc, drm_active) is None,
{
}

/// An unplugged output is no longer mapped, and neither Emacs nor the screen
/// cast service is told of it any more.
pub proof fn lemma_disconnected(ewm: EwmView, s: DrmSurfaceView, loop_handle: bool)
    requires
        ewm.space.wf(),
    ensures
        ({
            let t = ewm.disconnected(s, loop_handle);
            &&& t.space.output(s.output) is None
            &&& forall|i: int| 0 <= i < t.outputs.len() ==> (#[trigger] t.outputs[i]).name
                != s.name
            &&& t.module.events.last() == (EventView::OutputDisconnected { name: s.name })
        }),
{
    let a = ewm.cancel_timer(s.output, loop_handle).drop_state(s.output).lock_complete();
    let ids = sessions_casting(a.screen_casts, s.name);
    lemma_stop_casts_frame(a, ids);
    let b = a.stop_casts(ids);
    assert(b.space == ewm.space);
    crate::space::lemma_unmap_output(b.space, s.output);
    let keep = |i: OutputInfoView| i.name != s.name;
    crate::space::lemma_filter_pairs(
        b.outputs,
        keep,
        |x: OutputInfoView, y: OutputInfoView| true,
    );
    let t = ewm.disconnected(s, loop_handle);
    assert(t.outputs == b.outputs.filter(keep));
    assert forall|i: int| 0 <= i < t.outputs.len() implies (#[trigger] t.outputs[i]).name
        != s.name by {
        assert(keep(t.outputs[i]));
    }
}

proof fn lemma_stop_casts_frame(ewm: EwmView, ids: Seq<usize>)
    ensures
        ewm.stop_casts(ids).space == ewm.space,
        ewm.stop_casts(ids).outputs == ewm.outputs,
        ewm.stop_casts(ids).module == ewm.module,
    decreases ids.len(),
{
    if ids.len() > 0 {
        lemma_stop_casts_frame(ewm, ids.drop_last());
    }
}

} // verus!
