//! Per-output redraw state, kept in step with vertical blanking.
use vstd::prelude::*;

use crate::text::owned;

verus! {

/// Where an output stands between a request to redraw it and the picture.
///
/// A token names the timer that stands in for a vertical blank.
#[derive(Clone, Copy, Debug, PartialEq, Eq, Structural)]
pub enum RedrawState {
    /// Nothing is pending.
    Idle,
    /// A redraw was requested and has not started.
    Queued,
    /// A frame was handed over and its vertical blank is awaited;
    /// `redraw_needed` tells whether another redraw was requested meanwhile.
    WaitingForVBlank { redraw_needed: bool },
    /// There was nothing to show; a timer stands in for the vertical blank.
    WaitingForEstimatedVBlank(u64),
    /// The timer runs and a redraw was requested meanwhile.
    WaitingForEstimatedVBlankAndQueued(u64),
}

/// How the attempt to draw an output ended.
#[derive(Clone, Copy, Debug, PartialEq, Eq, Structural)]
pub enum RenderOutcome {
    /// There was damage, and the frame was queued for display.
    FrameQueued,
    /// There was damage, and queueing the frame failed.
    QueueFailed,
    /// There was no damage, and a timer was started in place of the vertical
    /// blank.
    NoDamage { timer: u64 },
    /// There was no damage, and no timer could be started.
    NoDamageNoTimer,
    /// Drawing failed.
    Failed,
}

impl RedrawState {
    /// Whether a redraw was requested that no frame has taken up.
    pub open spec fn wants_redraw(self) -> bool {
        match self {
            RedrawState::Queued => true,
            RedrawState::WaitingForVBlank { redraw_needed } => redraw_needed,
            RedrawState::WaitingForEstimatedVBlankAndQueued(_) => true,
            _ => false,
        }
    }

    /// The timer that runs for this output.
    pub open spec fn timer_spec(self) -> Option<u64> {
        match self {
            RedrawState::WaitingForEstimatedVBlank(t) => Some(t),
            RedrawState::WaitingForEstimatedVBlankAndQueued(t) => Some(t),
            _ => None,
        }
    }

    /// The state after a request to redraw.
    pub open spec fn queue_redraw_spec(self) -> RedrawState {
        match self {
            RedrawState::Idle => RedrawState::Queued,
            RedrawState::WaitingForVBlank { .. } => RedrawState::WaitingForVBlank {
                redraw_needed: true,
            },
            RedrawState::WaitingForEstimatedVBlank(t) => {
                RedrawState::WaitingForEstimatedVBlankAndQueued(t)
            },
            other => other,
        }
    }

    /// Takes up a request to redraw.
    pub fn queue_redraw(self) -> (r: RedrawState)
        ensures
            r == self.queue_redraw_spec(),
    {
        match self {
            RedrawState::Idle => RedrawState::Queued,
            RedrawState::WaitingForVBlank { redraw_needed: _ } => RedrawState::WaitingForVBlank {
                redraw_needed: true,
            },
            RedrawState::WaitingForEstimatedVBlank(t) => {
                RedrawState::WaitingForEstimatedVBlankAndQueued(t)
            },
            other => other,
        }
    }

    /// Whether the state lets a frame be drawn.
    pub open spec fn renders_spec(self) -> bool {
        self is Queued || self is WaitingForEstimatedVBlankAndQueued
    }

    /// Whether the state lets a frame be drawn.
    pub fn renders(self) -> (r: bool)
        ensures
            r == self.renders_spec(),
    {
        match self {
            RedrawState::Queued => true,
            RedrawState::WaitingForEstimatedVBlankAndQueued(_) => true,
            _ => false,
        }
    }

    /// Whether the state is `Queued`.
    pub fn is_queued(self) -> (r: bool)
        ensures
            r == (self is Queued),
    {
        match self {
            RedrawState::Queued => true,
            _ => false,
        }
    }

    /// The timer that runs for this output.
    pub fn timer(self) -> (r: Option<u64>)
        ensures
            r == self.timer_spec(),
    {
        match self {
            RedrawState::WaitingForEstimatedVBlank(t) => Some(t),
            RedrawState::WaitingForEstimatedVBlankAndQueued(t) => Some(t),
            _ => None,
        }
    }

    /// The state after an attempt to draw.
    pub open spec fn after_render_spec(outcome: RenderOutcome) -> RedrawState {
        match outcome {
            RenderOutcome::FrameQueued => RedrawState::WaitingForVBlank { redraw_needed: false },
            RenderOutcome::NoDamage { timer } => RedrawState::WaitingForEstimatedVBlank(timer),
            _ => RedrawState::Idle,
        }
    }

    /// The state after an attempt to draw.
    pub fn after_render(outcome: RenderOutcome) -> (r: RedrawState)
        ensures
            r == RedrawState::after_render_spec(outcome),
    {
        match outcome {
            RenderOutcome::FrameQueued => RedrawState::WaitingForVBlank { redraw_needed: false },
            RenderOutcome::NoDamage { timer } => RedrawState::WaitingForEstimatedVBlank(timer),
            _ => RedrawState::Idle,
        }
    }

    /// The state after a vertical blank.
    pub open spec fn on_vblank_spec(self) -> RedrawState {
        match self {
            RedrawState::WaitingForVBlank { redraw_needed } => if redraw_needed {
                RedrawState::Queued
            } else {
                RedrawState::Idle
            },
            other => other,
        }
    }

    /// Takes up a vertical blank: the next state, and whether to draw at once.
    pub fn on_vblank(self) -> (r: (RedrawState, bool))
        ensures
            r.0 == self.on_vblank_spec(),
            r.1 == (self == RedrawState::WaitingForVBlank { redraw_needed: true }),
    {
        match self {
            RedrawState::WaitingForVBlank { redraw_needed } => if redraw_needed {
                (RedrawState::Queued, true)
            } else {
                (RedrawState::Idle, false)
            },
            other => (other, false),
        }
    }

    /// The state after the timer has fired.
    pub open spec fn on_estimated_vblank_spec(self) -> RedrawState {
        match self {
            RedrawState::WaitingForEstimatedVBlank(_) => RedrawState::Idle,
            RedrawState::WaitingForEstimatedVBlankAndQueued(_) => RedrawState::Queued,
            other => other,
        }
    }

    /// What there is to do when the timer has fired: draw at once, or only
    /// tell the clients that a frame has passed, or nothing.
    pub open spec fn estimated_vblank_action(self) -> Option<bool> {
        match self {
            RedrawState::WaitingForEstimatedVBlank(_) => Some(false),
            RedrawState::WaitingForEstimatedVBlankAndQueued(_) => Some(true),
            _ => None,
        }
    }

    /// Takes up the timer: the next state, and whether to draw at once or
    /// else to send frame callbacks.
    pub fn on_estimated_vblank(self) -> (r: (RedrawState, Option<bool>))
        ensures
            r.0 == self.on_estimated_vblank_spec(),
            r.1 == self.estimated_vblank_action(),
    {
        match self {
            RedrawState::WaitingForEstimatedVBlank(_) => (RedrawState::Idle, Some(false)),
            RedrawState::WaitingForEstimatedVBlankAndQueued(_) => (RedrawState::Queued, Some(true)),
            other => (other, None),
        }
    }

    /// The name of the state.
    pub open spec fn name_spec(self) -> Seq<char> {
        match self {
            RedrawState::Idle => "Idle"@,
            RedrawState::Queued => "Queued"@,
            RedrawState::WaitingForVBlank { redraw_needed } => if redraw_needed {
                "WaitingForVBlank(redraw=true)"@
            } else {
                "WaitingForVBlank(redraw=false)"@
            },
            RedrawState::WaitingForEstimatedVBlank(_) => "WaitingForEstVBlank"@,
            RedrawState::WaitingForEstimatedVBlankAndQueued(_) => "WaitingForEstVBlank+Queued"@,
        }
    }

    /// The name of the state, for a state report.
    pub fn name(self) -> (r: String)
        ensures
            r@ == self.name_spec(),
    {
        match self {
            RedrawState::Idle => owned("Idle"),
            RedrawState::Queued => owned("Queued"),
            RedrawState::WaitingForVBlank { redraw_needed } => if redraw_needed {
                owned("WaitingForVBlank(redraw=true)")
            } else {
                owned("WaitingForVBlank(redraw=false)")
            },
            RedrawState::WaitingForEstimatedVBlank(_) => owned("WaitingForEstVBlank"),
            RedrawState::WaitingForEstimatedVBlankAndQueued(_) => {
                owned("WaitingForEstVBlank+Queued")
            },
        }
    }
}

impl Default for RedrawState {
    fn default() -> (r: RedrawState)
        ensures
            r == RedrawState::Idle,
    {
        RedrawState::Idle
    }
}

/// A request to redraw is remembered in every state, whatever was going on;
/// a timer that runs goes on, and a frame that is under way stays so.
pub proof fn lemma_request_is_kept(s: RedrawState)
    ensures
        s.queue_redraw_spec().wants_redraw(),
        s.queue_redraw_spec().timer_spec() == s.timer_spec(),
        (s is WaitingForVBlank) == (s.queue_redraw_spec() is WaitingForVBlank),
{
}

/// Requesting a redraw twice is requesting it once.
pub proof fn lemma_request_idempotent(s: RedrawState)
    ensures
        s.queue_redraw_spec().queue_redraw_spec() == s.queue_redraw_spec(),
{
}

/// A request that came while a vertical blank was awaited is taken up at the
/// vertical blank; without one the output goes idle.
pub proof fn lemma_vblank_takes_up_request(s: RedrawState)
    requires
        s is WaitingForVBlank,
    ensures
        s.queue_redraw_spec().on_vblank_spec() == RedrawState::Queued,
        !s.wants_redraw() ==> s.on_vblank_spec() == RedrawState::Idle,
{
}

/// A request that came while the timer ran is taken up when it fires;
/// without one the output goes idle.
pub proof fn lemma_timer_takes_up_request(t: u64)
    ensures
        RedrawState::WaitingForEstimatedVBlank(
            t,
        ).queue_redraw_spec().on_estimated_vblank_spec() == RedrawState::Queued,
        RedrawState::WaitingForEstimatedVBlank(t).on_estimated_vblank_spec() == RedrawState::Idle,
{
}

/// The cycle of an output: idle, queued, waiting for the vertical blank, idle.
pub proof fn lemma_redraw_cycle()
    ensures
        RedrawState::Idle.queue_redraw_spec() == RedrawState::Queued,
        RedrawState::Queued.renders_spec(),
        RedrawState::after_render_spec(RenderOutcome::FrameQueued).on_vblank_spec()
            == RedrawState::Idle,
{
}

/// Neither a vertical blank nor the timer drops a request.
pub proof fn lemma_no_request_lost(s: RedrawState)
    requires
        s.wants_redraw(),
    ensures
        s.on_vblank_spec().wants_redraw(),
        s.on_estimated_vblank_spec().wants_redraw(),
{
}

/// While a frame is under way no other one is drawn.
pub proof fn lemma_one_frame_at_a_time(s: RedrawState)
    requires
        s is WaitingForVBlank,
    ensures
        !s.renders_spec(),
        !s.queue_redraw_spec().renders_spec(),
{
}

} // verus!
