//! Requests to redraw, frames and vertical blanks.
use vstd::prelude::*;

use crate::ewm::{lemma_redraw_requested, lemma_state_read_back, EwmView, OutputEntry};
use crate::output::{LockRenderState, OutputState};
use crate::redraw::{RedrawState, RenderOutcome};
use crate::space::OutputHandle;

verus! {

/// Whether `after` is what a request to redraw makes of `before`: an idle output
/// is queued, one that waits for the hardware or a timer remembers the request
/// and goes on waiting, and a second request adds nothing.
pub open spec fn asked_to_draw(before: RedrawState, after: RedrawState) -> bool {
    match before {
        RedrawState::Idle => after is Queued,
        RedrawState::Queued => after is Queued,
        RedrawState::WaitingForVBlank { .. } => after == (RedrawState::WaitingForVBlank {
            redraw_needed: true,
        }),
        RedrawState::WaitingForEstimatedVBlank(timer) => after
            == RedrawState::WaitingForEstimatedVBlankAndQueued(timer),
        RedrawState::WaitingForEstimatedVBlankAndQueued(timer) => after
            == RedrawState::WaitingForEstimatedVBlankAndQueued(timer),
    }
}

/// Whether two states of an output differ in nothing but the redraw that is
/// pending.
pub open spec fn same_but_redraw(before: OutputState, after: OutputState) -> bool {
    &&& after.refresh_interval_us == before.refresh_interval_us
    &&& after.lock_surface == before.lock_surface
    &&& after.lock_render_state == before.lock_render_state
    &&& after.lock_background == before.lock_background
    &&& after.frame_callback_sequence == before.frame_callback_sequence
}

/// Whether every output was asked to redraw, and nothing else happened to any.
pub open spec fn all_asked_to_draw(before: Seq<OutputEntry>, after: Seq<OutputEntry>) -> bool {
    &&& after.len() == before.len()
    &&& forall|i: int|
        0 <= i < before.len() ==> (#[trigger] after[i]).output == before[i].output
            && asked_to_draw(before[i].state.redraw_state, after[i].state.redraw_state)
            && same_but_redraw(before[i].state, after[i].state)
}

/// Whether two states differ in nothing but what the outputs have pending.
pub open spec fn same_but_outputs(before: EwmView, after: EwmView) -> bool {
    after == (EwmView { output_state: after.output_state, ..before })
}

/// A request to redraw everything asks every output, and does nothing else.
pub proof fn lemma_everything_is_asked(s: EwmView)
    ensures
        all_asked_to_draw(s.output_state, s.queue_redraw_all().output_state),
        same_but_outputs(s, s.queue_redraw_all()),
{
}

/// A request to redraw one output asks that one, and does nothing else.
pub proof fn lemma_one_is_asked(s: EwmView, output: OutputHandle, i: int)
    requires
        0 <= i < s.output_state.len(),
    ensures
        ({
            let before = s.output_state[i];
            let after = s.queue_redraw(output).output_state[i];
            &&& s.queue_redraw(output).output_state.len() == s.output_state.len()
            &&& after.output == before.output
            &&& same_but_redraw(before.state, after.state)
            &&& if before.output == output {
                asked_to_draw(before.state.redraw_state, after.state.redraw_state)
            } else {
                after.state.redraw_state == before.state.redraw_state
            }
        }),
        same_but_outputs(s, s.queue_redraw(output)),
{
}

/// What a redraw leads to: a frame that the hardware took waits for its vertical
/// blank with nothing further pending; one without damage waits for its timer
/// where there is one; and one that failed waits for nothing.
pub proof fn lemma_frame_outcome(s: EwmView, output: OutputHandle, outcome: RenderOutcome)
    requires
        s.state_of(output) is Some,
    ensures
        ({
            let t = s.rendered(output, outcome);
            let before = s.state_of(output)->0;
            let after = t.state_of(output)->0;
            &&& t.state_of(output) is Some
            &&& same_but_redraw(before, after)
            &&& after.redraw_state == match outcome {
                RenderOutcome::FrameQueued => RedrawState::WaitingForVBlank {
                    redraw_needed: false,
                },
                RenderOutcome::NoDamage { timer } => RedrawState::WaitingForEstimatedVBlank(timer),
                RenderOutcome::QueueFailed
                | RenderOutcome::NoDamageNoTimer
                | RenderOutcome::Failed => RedrawState::Idle,
            }
            &&& t.actions == s.actions.push(crate::action::ActionView::SendFrames { output })
            &&& t.module == s.module
        }),
{
    lemma_state_read_back(
        s,
        output,
        OutputState {
            redraw_state: RedrawState::after_render_spec(outcome),
            ..s.state_of(output)->0
        },
        output,
    );
}

/// A vertical blank ends the wait for it: a redraw that was requested meanwhile
/// is drawn at once, and otherwise the output is idle. Another refresh cycle
/// begins in any case; states that wait for something else stay.
pub proof fn lemma_blank_ends_the_wait(s: EwmView, output: OutputHandle)
    requires
        s.state_of(output) is Some,
    ensures
        ({
            let t = s.vblank(output);
            let before = s.state_of(output)->0;
            let after = t.state_of(output)->0;
            &&& t.state_of(output) is Some
            &&& after.frame_callback_sequence == if before.frame_callback_sequence == u32::MAX {
                0
            } else {
                before.frame_callback_sequence + 1
            }
            &&& match before.redraw_state {
                RedrawState::WaitingForVBlank { redraw_needed: true } => after.redraw_state
                    is Queued && t.actions == s.actions.push(
                    crate::action::ActionView::Render { output },
                ),
                RedrawState::WaitingForVBlank { redraw_needed: false } => after.redraw_state is Idle
                    && t.actions == s.actions,
                other => after.redraw_state == other && t.actions == s.actions,
            }
            &&& after.refresh_interval_us == before.refresh_interval_us
            &&& after.lock_surface == before.lock_surface
            &&& after.lock_render_state == before.lock_render_state
            &&& after.lock_background == before.lock_background
            &&& t.module == s.module
        }),
{
    let state = s.state_of(output)->0;
    lemma_state_read_back(
        s,
        output,
        crate::backend::drm::next_cycle(
            OutputState { redraw_state: state.redraw_state.on_vblank_spec(), ..state },
        ),
        output,
    );
}

/// The timer that stands in for a vertical blank ends the wait for it: a redraw
/// that was requested meanwhile is drawn at once; otherwise the output is idle,
/// and clients are told that a frame has passed. Nothing happens where no timer
/// was waited for.
pub proof fn lemma_timer_ends_the_wait(s: EwmView, output: OutputHandle)
    requires
        s.state_of(output) is Some,
    ensures
        ({
            let t = s.estimated_vblank(output);
            let before = s.state_of(output)->0;
            let after = t.state_of(output)->0;
            &&& t.state_of(output) is Some
            &&& match before.redraw_state {
                RedrawState::WaitingForEstimatedVBlankAndQueued(_) => after.redraw_state is Queued
                    && t.actions == s.actions.push(crate::action::ActionView::Render { output }),
                RedrawState::WaitingForEstimatedVBlank(_) => after.redraw_state is Idle
                    && t.actions == s.actions.push(
                    crate::action::ActionView::SendFrames { output },
                ),
                _ => t == s,
            }
            &&& after.refresh_interval_us == before.refresh_interval_us
            &&& after.lock_surface == before.lock_surface
            &&& after.lock_render_state == before.lock_render_state
            &&& t.module == s.module
        }),
{
    let state = s.state_of(output)->0;
    lemma_state_read_back(
        s,
        output,
        crate::backend::drm::next_cycle(
            OutputState { redraw_state: state.redraw_state.on_estimated_vblank_spec(), ..state },
        ),
        output,
    );
}

/// No request to redraw is lost: an output that was asked is drawn at once, or
/// at the next vertical blank, or when its timer fires.
pub proof fn lemma_request_leads_to_a_frame(s: EwmView, output: OutputHandle)
    requires
        s.state_of(output) is Some,
    ensures
        ({
            let t = s.queue_redraw(output);
            let pending = t.state_of(output)->0.redraw_state;
            ||| pending is Queued
            ||| t.vblank(output).state_of(output)->0.redraw_state is Queued
            ||| t.estimated_vblank(output).state_of(output)->0.redraw_state is Queued
        }),
{
    lemma_redraw_requested(s, output, output);
    let t = s.queue_redraw(output);
    lemma_blank_ends_the_wait(t, output);
    lemma_timer_ends_the_wait(t, output);
}

/// The state that an output starts with: its first frame is queued, and it is
/// not locked.
pub proof fn lemma_first_frame_is_queued(interval: u64, size: (i32, i32))
    ensures
        ({
            let state = OutputState::new_spec(interval, size);
            &&& state.redraw_state is Queued
            &&& state.refresh_interval_us == interval
            &&& state.lock_background == size
            &&& state.lock_surface is None
            &&& state.lock_render_state == LockRenderState::Unlocked
            &&& state.frame_callback_sequence == 0
        }),
{
}

/// A request to redraw leaves an output queued where one was idle; otherwise
/// something is queued only where an output is.
pub proof fn lemma_when_outputs_are_queued(s: EwmView, i: int)
    requires
        0 <= i < s.output_state.len(),
    ensures
        s.output_state[i].state.redraw_state is Idle ==> s.queue_redraw(
            s.output_state[i].output,
        ).any_queued() && s.queue_redraw_all().any_queued(),
        s.output_state[i].state.redraw_state is Queued ==> s.any_queued(),
        (forall|k: int|
            0 <= k < s.output_state.len() ==> !((
            #[trigger] s.output_state[k]).state.redraw_state is Queued)) ==> !s.any_queued(),
{
    if s.output_state[i].state.redraw_state is Idle {
        let one = s.queue_redraw(s.output_state[i].output);
        assert(one.output_state[i].state.redraw_state is Queued);
        assert(s.queue_redraw_all().output_state[i].state.redraw_state is Queued);
    }
}

} // verus!
