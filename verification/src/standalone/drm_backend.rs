//! Real hardware, for the standalone program: one display, drawn whenever a
//! client committed something.
//!
//! The hardware can be opened only while the session is active. Set-up
//! therefore waits for the first activation.
use vstd::prelude::*;

use crate::action::{Action, ActionView};
use crate::backend::drm::{DrmMessage, SessionEvent};
use crate::geometry::Size;
use crate::output::{initial_mode, initial_mode_spec, VideoMode};
use crate::standalone::{Ewm, StandaloneView};

verus! {

/// A connector of the hardware.
#[derive(Debug)]
pub struct Display {
    pub connected: bool,
    /// The first display controller that can drive it.
    pub crtc: Option<u32>,
    pub modes: Vec<VideoMode>,
    /// Handle of the output that stands for it.
    pub output: u64,
}

/// Why the hardware was not set up.
#[derive(Debug, Clone, Copy, PartialEq, Eq, Structural)]
pub enum InitError {
    AlreadyInitialized,
    NoCrtc,
    NoMode,
}

/// What became of a frame.
#[derive(Debug, Clone, Copy, PartialEq, Eq, Structural)]
pub enum FrameResult {
    /// Nothing had changed.
    Empty,
    /// The frame was handed to the hardware.
    Queued,
    /// The hardware refused the frame.
    NotQueued,
    /// The frame could not be drawn.
    Failed,
}

/// The state of the hardware.
#[derive(Debug)]
pub struct DrmBackendState {
    /// The display controllers in use, once the hardware is set up.
    pub device: Option<Vec<u32>>,
    /// Whether set-up is still to come.
    pub pending: bool,
    pub paused: bool,
    /// Whether set-up can be triggered.
    pub init_sender: bool,
    pub needs_redraw: bool,
}

/// What a [`DrmBackendState`] holds.
#[verifier::ext_equal]
pub struct DrmStateView {
    pub device: Option<Seq<u32>>,
    pub pending: bool,
    pub paused: bool,
    pub init_sender: bool,
    pub needs_redraw: bool,
}

impl View for DrmBackendState {
    type V = DrmStateView;

    open spec fn view(&self) -> DrmStateView {
        DrmStateView {
            device: match self.device {
                Some(v) => Some(v@),
                None => None,
            },
            pending: self.pending,
            paused: self.paused,
            init_sender: self.init_sender,
            needs_redraw: self.needs_redraw,
        }
    }
}

/// What set-up finds: the first display that is connected, or an error about
/// it.
pub open spec fn first_display(v: Seq<Display>) -> Result<
    Option<(u32, VideoMode, u64)>,
    InitError,
>
    decreases v.len(),
{
    if v.len() == 0 {
        Ok(None)
    } else if !v[0].connected {
        first_display(v.drop_first())
    } else {
        match v[0].crtc {
            None => Err(InitError::NoCrtc),
            Some(crtc) => match initial_mode_spec(v[0].modes@) {
                None => Err(InitError::NoMode),
                Some(mode) => Ok(Some((crtc, mode, v[0].output))),
            },
        }
    }
}

impl DrmStateView {
    /// The state at the start.
    pub open spec fn initial() -> DrmStateView {
        DrmStateView {
            device: None,
            pending: true,
            paused: false,
            init_sender: true,
            needs_redraw: true,
        }
    }

    /// Whether a display is drawn now.
    pub open spec fn can_render(self, crtc: u32, active: bool) -> bool {
        self.device is Some && self.device->0.contains(crtc) && !self.paused && active
    }

    /// The displays that the timer has drawn.
    pub open spec fn due(self) -> Seq<u32> {
        if self.device is Some && !self.paused && self.needs_redraw {
            self.device->0
        } else {
            Seq::empty()
        }
    }
}

impl StandaloneView {
    /// The state after a display was set up.
    pub open spec fn display_found(self, mode: VideoMode, output: u64) -> StandaloneView {
        StandaloneView {
            output_size: Size { w: mode.width as i32, h: mode.height as i32 },
            ..self.act(ActionView::MapOutput { output, x: 0, y: 0 })
        }
    }
}

impl DrmBackendState {
    /// Hardware that is not set up yet. The first frame is due.
    pub fn new() -> (r: DrmBackendState)
        ensures
            r@ == DrmStateView::initial(),
    {
        DrmBackendState {
            device: None,
            pending: true,
            paused: false,
            init_sender: true,
            needs_redraw: true,
        }
    }

    /// Whether the hardware is set up.
    pub fn is_initialized(&self) -> (r: bool)
        ensures
            r == (self@.device is Some),
    {
        self.device.is_some()
    }

    /// Asks for a redraw: a client committed something.
    pub fn queue_redraw(&mut self)
        ensures
            final(self)@ == (DrmStateView { needs_redraw: true, ..old(self)@ }),
    {
        self.needs_redraw = true;
    }

    /// Whether a redraw was asked for.
    pub fn needs_redraw(&self) -> (r: bool)
        ensures
            r == self@.needs_redraw,
    {
        self.needs_redraw
    }

    /// Whether a surface's buffer is to be imported before it is drawn.
    pub fn early_import(&self) -> (r: bool)
        ensures
            r == (self@.device is Some),
    {
        self.device.is_some()
    }

    /// Takes up that the session is paused.
    pub fn pause(&mut self)
        ensures
            final(self)@ == (DrmStateView { paused: true, ..old(self)@ }),
    {
        self.paused = true;
    }

    /// Takes up that the session is resumed.
    pub fn resume(&mut self)
        ensures
            final(self)@ == (DrmStateView { paused: false, ..old(self)@ }),
    {
        self.paused = false;
    }

    /// The message that starts the pending set-up.
    pub fn trigger_init(&self) -> (r: Option<DrmMessage>)
        ensures
            r == (if self@.init_sender {
                Some(DrmMessage::InitializeDrm)
            } else {
                None
            }),
    {
        if self.init_sender {
            Some(DrmMessage::InitializeDrm)
        } else {
            None
        }
    }

    /// Takes up what the session tells: the first activation starts the
    /// set-up.
    pub fn handle_session_event(&mut self, event: SessionEvent) -> (r: Option<DrmMessage>)
        ensures
            match event {
                SessionEvent::PauseSession => r is None && final(self)@ == (DrmStateView {
                    paused: true,
                    ..old(self)@
                }),
                SessionEvent::ActivateSession => if old(self)@.device is None {
                    final(self)@ == old(self)@ && r == (if old(self)@.init_sender {
                        Some(DrmMessage::InitializeDrm)
                    } else {
                        None
                    })
                } else {
                    r is None && final(self)@ == (DrmStateView { paused: false, ..old(self)@ })
                },
            },
    {
        match event {
            SessionEvent::PauseSession => {
                self.pause();
                None
            },
            SessionEvent::ActivateSession => {
                if self.device.is_none() {
                    self.trigger_init()
                } else {
                    self.resume();
                    None
                }
            },
        }
    }

    /// Sets the hardware up, with the first display that is connected. After
    /// an error it counts as not set up, and is not tried again.
    pub fn initialize_drm(&mut self, displays: &Vec<Display>, ewm: &mut Ewm) -> (r: Result<
        (),
        InitError,
    >)
        ensures
            if !old(self)@.pending {
                r == Err::<(), InitError>(InitError::AlreadyInitialized) && final(self)@ == old(
                    self)@ && final(ewm)@ == old(ewm)@
            } else {
                match first_display(displays@) {
                    Err(e) => r == Err::<(), InitError>(e) && final(self)@ == (DrmStateView {
                        pending: false,
                        ..old(self)@
                    }) && final(ewm)@ == old(ewm)@,
                    Ok(None) => r is Ok && final(self)@ == (DrmStateView {
                        pending: false,
                        device: Some(Seq::empty()),
                        ..old(self)@
                    }) && final(ewm)@ == old(ewm)@,
                    Ok(Some(d)) => r is Ok && final(self)@ == (DrmStateView {
                        pending: false,
                        device: Some(seq![d.0]),
                        ..old(self)@
                    }) && final(ewm)@ == old(ewm)@.display_found(d.1, d.2),
                }
            },
    {
        if !self.pending {
            return Err(InitError::AlreadyInitialized);
        }
        self.pending = false;
        let mut surfaces: Vec<u32> = Vec::new();
        let mut i: usize = 0;
        proof {
            assert(displays@.skip(0) =~= displays@);
        }
        while i < displays.len()
            invariant
                i <= displays@.len(),
                surfaces@ == Seq::<u32>::empty(),
                first_display(displays@) == first_display(displays@.skip(i as int)),
                self@ == (DrmStateView { pending: false, ..old(self)@ }),
                ewm@ == old(ewm)@,
                old(self)@.pending,
            decreases displays@.len() - i,
        {
            let d: &Display = &displays[i];
            proof {
                assert(displays@.skip(i as int)[0] == displays@[i as int]);
                assert(displays@.skip(i as int).drop_first() =~= displays@.skip(i + 1));
            }
            if d.connected {
                let crtc: u32 = match d.crtc {
                    Some(c) => c,
                    None => return Err(InitError::NoCrtc),
                };
                let mode: VideoMode = match initial_mode(&d.modes) {
                    Some(m) => m,
                    None => return Err(InitError::NoMode),
                };
                surfaces.push(crtc);
                proof {
                    assert(surfaces@ =~= seq![crtc]);
                }
                ewm.act(Action::MapOutput { output: d.output, x: 0, y: 0 });
                ewm.output_size = Size { w: mode.width as i32, h: mode.height as i32 };
                self.device = Some(surfaces);
                return Ok(());
            }
            i += 1;
        }
        proof {
            assert(displays@.skip(i as int) =~= Seq::<Display>::empty());
        }
        self.device = Some(surfaces);
        Ok(())
    }

    /// Whether a display is drawn now. `active` tells whether the hardware
    /// lets itself be driven.
    pub fn can_render(&self, crtc: u32, active: bool) -> (r: bool)
        ensures
            r == self@.can_render(crtc, active),
    {
        match &self.device {
            None => false,
            Some(v) => {
                let mut i: usize = 0;
                while i < v.len()
                    invariant
                        i <= v@.len(),
                        forall|j: int| 0 <= j < i ==> v@[j] != crtc,
                        self.device == Some(*v),
                    decreases v@.len() - i,
                {
                    if v[i] == crtc {
                        proof {
                            assert(v@[i as int] == crtc);
                            assert(v@.contains(crtc));
                        }
                        return !self.paused && active;
                    }
                    i += 1;
                }
                false
            },
        }
    }

    /// Takes up what became of a frame. Clients are sent frame callbacks
    /// unless drawing failed.
    pub fn frame_rendered(&mut self, result: FrameResult) -> (send_frames: bool)
        ensures
            send_frames == (result != FrameResult::Failed),
            final(self)@ == (DrmStateView {
                needs_redraw: old(self)@.needs_redraw && result != FrameResult::Queued,
                ..old(self)@
            }),
    {
        if result == FrameResult::Queued {
            self.needs_redraw = false;
        }
        result != FrameResult::Failed
    }

    /// The displays to draw when the timer fires. Vertical blanks drive
    /// drawing; the timer starts it again after they ceased.
    pub fn due(&self) -> (r: Vec<u32>)
        ensures
            r@ == self@.due(),
    {
        let mut r: Vec<u32> = Vec::new();
        if let Some(v) = &self.device {
            if !self.paused && self.needs_redraw {
                let mut i: usize = 0;
                while i < v.len()
                    invariant
                        i <= v@.len(),
                        r@ == v@.take(i as int),
                    decreases v@.len() - i,
                {
                    r.push(v[i]);
                    i += 1;
                }
                proof {
                    assert(r@ =~= v@);
                }
            }
        }
        r
    }
}

/// Whether a variable of the environment names a display.
pub open spec fn names_display(value: Option<Seq<char>>) -> bool {
    value is Some && value->0.len() > 0
}

fn is_set(value: Option<&str>) -> (r: bool)
    ensures
        r == names_display(
            match value {
                Some(s) => Some(s@),
                None => None,
            },
        ),
{
    match value {
        Some(s) => s.unicode_len() > 0,
        None => false,
    }
}

/// Whether the program runs inside another display server, given the values
/// of `WAYLAND_DISPLAY` and `DISPLAY`.
pub fn is_nested(wayland_display: Option<&str>, display: Option<&str>) -> (r: bool)
    ensures
        r == (names_display(
            match wayland_display {
                Some(s) => Some(s@),
                None => None,
            },
        ) || names_display(
            match display {
                Some(s) => Some(s@),
                None => None,
            },
        )),
{
    is_set(wayland_display) || is_set(display)
}

/// While the session is paused nothing is drawn, neither by the timer nor
/// after a vertical blank.
pub proof fn lemma_no_redraw_while_paused(s: DrmStateView)
    requires
        s.paused,
    ensures
        s.due() == Seq::<u32>::empty(),
        forall|crtc: u32, active: bool| !#[trigger] s.can_render(crtc, active),
{
}

} // verus!
