//! One frame of a hardware output: what is drawn, and what follows.
use vstd::prelude::*;

use crate::backend::drm::{next_cycle, DrmBackendState, DrmView};
use crate::backend::BackendView;
use crate::ewm::{lemma_redraw_requested, lemma_state_read_back, Ewm, EwmView};
use crate::geometry::Rectangle;
use crate::hits::PopupBox;
use crate::protocols::{window_info_views, WindowInfo};
use crate::output::OutputState;
use crate::redraw::{RedrawState, RenderOutcome};
use crate::render::{
    after_copy, pending_copies, queue_views, Canvas, DrawItem, ScreencopyRequest, WindowSize,
};
use crate::space::OutputHandle;

verus! {

/// A frame to be drawn.
#[derive(Debug)]
pub struct Frame {
    pub output: OutputHandle,
    /// The time between two frames of the output, in microseconds.
    pub refresh_interval_us: u64,
    /// What is drawn, front to back.
    pub plan: Vec<DrawItem>,
}

/// What follows a frame.
#[derive(Debug)]
pub struct AfterFrame {
    /// The requests for copies of the screen that still wait.
    pub queues: Vec<Vec<ScreencopyRequest>>,
    /// The requests to be served now.
    pub copies: Vec<ScreencopyRequest>,
    /// What is drawn into their buffers.
    pub copy_plan: Vec<DrawItem>,
    /// The screen casts that take the frame, as positions in the list.
    pub casts: Vec<usize>,
}

impl DrmBackendState {
    /// Begins a frame: other programs are told of the windows in any case, and
    /// the frame is drawn where the output is queued and both session and
    /// hardware are active. `zone` is the free area that the display side has
    /// for the output, which counts where the output is not mapped.
    pub fn render_output(
        &self,
        ewm: &Ewm,
        crtc: u32,
        drm_active: bool,
        zone: Rectangle,
        sizes: &Vec<WindowSize>,
        popups: &Vec<PopupBox>,
    ) -> (r: (Vec<WindowInfo>, Option<Frame>))
        ensures
            exists|ids: Seq<u32>| #[trigger]
                ewm@.lists_windows(ids) && window_info_views(r.0@) == ewm@.foreign_infos(ids),
            match self@.due(ewm@, crtc, drm_active) {
                Some((output, interval)) => r.1 matches Some(f) && f.output == output
                    && f.refresh_interval_us == interval && ewm@.is_plan(
                    ewm@.canvas(output, self@.surface(crtc)->0.name, zone),
                    true,
                    sizes@,
                    popups@,
                    f.plan@,
                ),
                None => r.1 is None,
            },
    {
        let windows: Vec<WindowInfo> = ewm.refresh_foreign_toplevel();
        let frame: Option<Frame> = match self.should_render(ewm, crtc, drm_active) {
            Some((output, refresh_interval_us)) => {
                let name: &str = self.surface_name(crtc);
                let canvas: Canvas = ewm.canvas(output, name, zone);
                let plan: Vec<DrawItem> = ewm.collect_render_elements_for_output(
                    &canvas,
                    true,
                    sizes,
                    popups,
                );
                Some(Frame { output, refresh_interval_us, plan })
            },
            None => None,
        };
        (windows, frame)
    }

    /// Ends a frame: the output waits for the hardware, or is idle, clients
    /// are told that a frame has passed, and copies and casts of the screen
    /// are served, unless drawing failed. Copies also need timers.
    pub fn frame_finished(
        &self,
        ewm: &mut Ewm,
        output: OutputHandle,
        output_name: &str,
        outcome: RenderOutcome,
        queues: Vec<Vec<ScreencopyRequest>>,
        zone: Rectangle,
        sizes: &Vec<WindowSize>,
        popups: &Vec<PopupBox>,
        now: u64,
    ) -> (r: AfterFrame)
        ensures
            final(ewm)@ == old(ewm)@.rendered(output, outcome),
            if outcome is Failed {
                &&& r.queues == queues
                &&& r.copies@.len() == 0
                &&& r.copy_plan@.len() == 0
                &&& r.casts@.len() == 0
            } else {
                &&& final(ewm)@.are_due(r.casts@, output_name@, now)
                &&& if self@.loop_handle {
                    &&& r.copies@ == pending_copies(queue_views(queues@), output)
                    &&& queue_views(r.queues@) == queue_views(queues@).map_values(
                        |q: Seq<ScreencopyRequest>| after_copy(q, output),
                    )
                    &&& if r.copies@.len() == 0 {
                        r.copy_plan@.len() == 0
                    } else {
                        final(ewm)@.is_plan(
                            final(ewm)@.canvas(output, output_name@, zone),
                            true,
                            sizes@,
                            popups@,
                            r.copy_plan@,
                        )
                    }
                } else {
                    r.queues == queues && r.copies@.len() == 0 && r.copy_plan@.len() == 0
                }
            },
    {
        if !ewm.render_done(output, outcome) {
            return AfterFrame {
                queues,
                copies: Vec::new(),
                copy_plan: Vec::new(),
                casts: Vec::new(),
            };
        }
        let casts: Vec<usize> = ewm.casts_due(output_name, now);
        if !self.loop_handle {
            return AfterFrame { queues, copies: Vec::new(), copy_plan: Vec::new(), casts };
        }
        let canvas: Canvas = ewm.canvas(output, output_name, zone);
        let (rest, copies, copy_plan) = ewm.process_screencopies_for_output(
            queues,
            &canvas,
            sizes,
            popups,
        );
        AfterFrame { queues: rest, copies, copy_plan, casts }
    }
}

/// A frame that is under way holds the next one back: after the hardware took
/// a frame, the output is not drawn again before a vertical blank.
pub proof fn lemma_no_frame_before_vblank(
    b: DrmView,
    ewm: EwmView,
    crtc: u32,
    drm_active: bool,
)
    requires
        b.surface(crtc) is Some,
    ensures
        ({
            let output = b.surface(crtc)->0.output;
            let after = ewm.rendered(output, RenderOutcome::FrameQueued);
            b.due(after, crtc, drm_active) is None && b.due(
                after.queue_redraw(output),
                crtc,
                drm_active,
            ) is None
        }),
{
    let output = b.surface(crtc)->0.output;
    let after = ewm.rendered(output, RenderOutcome::FrameQueued);
    match ewm.state_of(output) {
        Some(state) => {
            let next = OutputState {
                redraw_state: RedrawState::after_render_spec(RenderOutcome::FrameQueued),
                ..state
            };
            lemma_state_read_back(ewm, output, next, output);
        },
        None => {},
    }
    lemma_redraw_requested(after, output, output);
}

/// Outputs do not share frame timing: a request, a frame, a vertical blank and
/// a timer of one output leave the states of all others as they are.
pub proof fn lemma_outputs_keep_their_own_time(
    ewm: EwmView,
    output: OutputHandle,
    other: OutputHandle,
    outcome: RenderOutcome,
)
    requires
        other != output,
    ensures
        ewm.queue_redraw(output).state_of(other) == ewm.state_of(other),
        ewm.rendered(output, outcome).state_of(other) == ewm.state_of(other),
        ewm.vblank(output).state_of(other) == ewm.state_of(other),
        ewm.estimated_vblank(output).state_of(other) == ewm.state_of(other),
{
    lemma_redraw_requested(ewm, output, other);
    if let Some(state) = ewm.state_of(output) {
        lemma_state_read_back(
            ewm,
            output,
            OutputState { redraw_state: RedrawState::after_render_spec(outcome), ..state },
            other,
        );
        lemma_state_read_back(
            ewm,
            output,
            next_cycle(OutputState { redraw_state: state.redraw_state.on_vblank_spec(), ..state }),
            other,
        );
        lemma_state_read_back(
            ewm,
            output,
            next_cycle(
                OutputState {
                    redraw_state: state.redraw_state.on_estimated_vblank_spec(),
                    ..state
                },
            ),
            other,
        );
    }
}

/// Before the hardware is set up there is nothing to draw on: no CRTC drives an
/// output, none is due, and a redraw changes nothing.
pub proof fn lemma_nothing_before_set_up(
    b: DrmView,
    ewm: EwmView,
    crtc: u32,
    drm_active: bool,
)
    requires
        b.device is None,
    ensures
        b.surface(crtc) is None,
        b.due(ewm, crtc, drm_active) is None,
        BackendView::Drm(b).redraw(ewm) == (BackendView::Drm(b), ewm),
{
}

} // verus!
