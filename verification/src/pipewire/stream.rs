//! The state of a screen cast: negotiation of the format, buffers, and the
//! pace of frames.
//!
//! Times are in nanoseconds of the monotonic clock.
use vstd::prelude::*;

verus! {

/// A delay below this does not hold a frame back.
pub const CAST_DELAY_ALLOWANCE_NS: u64 = 100_000;

/// The modifier that names no modifier.
pub const MODIFIER_INVALID: u64 = 0x00ff_ffff_ffff_ffff;

/// The linear modifier.
pub const MODIFIER_LINEAR: u64 = 0;

/// Whether the format of a cast is settled.
///
/// The scale of the damage tracker is the bit pattern of a double.
#[derive(Clone, Copy, Debug)]
pub enum CastState {
    /// Not settled.
    Pending,
    /// Settled; the tracker is made with the first frame.
    Ready { width: u32, height: u32, modifier: u64, plane_count: usize, tracker: Option<u64> },
}

/// A screen cast.
#[derive(Debug)]
pub struct Cast {
    pub is_active: bool,
    pub width: u32,
    pub height: u32,
    pub refresh: u32,
    pub node_id: Option<u32>,
    /// The output that is cast.
    pub output_name: String,
    pub state: CastState,
    /// File descriptors of the buffers that there are.
    pub buffers: Vec<i64>,
    pub last_frame_time: u64,
    pub min_time_between_frames: u64,
    pub had_error: bool,
}

/// What a [`Cast`] holds.
#[verifier::ext_equal]
pub struct CastView {
    pub is_active: bool,
    pub width: u32,
    pub height: u32,
    pub refresh: u32,
    pub node_id: Option<u32>,
    pub output_name: Seq<char>,
    pub state: CastState,
    pub buffers: Seq<i64>,
    pub last_frame_time: u64,
    pub min_time_between_frames: u64,
    pub had_error: bool,
}

impl View for Cast {
    type V = CastView;

    open spec fn view(&self) -> CastView {
        CastView {
            is_active: self.is_active,
            width: self.width,
            height: self.height,
            refresh: self.refresh,
            node_id: self.node_id,
            output_name: self.output_name@,
            state: self.state,
            buffers: self.buffers@,
            last_frame_time: self.last_frame_time,
            min_time_between_frames: self.min_time_between_frames,
            had_error: self.had_error,
        }
    }
}

/// A state that a PipeWire stream enters.
#[derive(Clone, Copy, Debug, PartialEq, Eq, Structural)]
pub enum StreamState {
    /// Paused; the stream has this node.
    Paused { node_id: u32 },
    Streaming,
    Error,
    Other,
}

/// The modifier of an offered format.
#[derive(Debug)]
pub enum OfferedModifier {
    /// To be chosen among these.
    Choice { alternatives: Vec<i64> },
    /// To be chosen, but of a form that is not understood.
    Malformed,
    /// Chosen.
    Fixed { modifier: u64 },
}

/// An offered video format.
#[derive(Debug)]
pub struct OfferedFormat {
    pub width: u32,
    pub height: u32,
    /// Highest frame rate, as a fraction.
    pub max_rate_num: u32,
    pub max_rate_denom: u32,
    pub modifier: OfferedModifier,
}

/// The trial allocation that an offered format calls for.
#[derive(Debug)]
pub struct Trial {
    pub width: u32,
    pub height: u32,
    pub modifiers: Vec<i64>,
    /// The modifier is to be chosen by the trial.
    pub fixate: bool,
    /// The modifier, where it is chosen already.
    pub modifier: u64,
}

/// The parameters to send after a trial allocation.
#[derive(Clone, Copy, Debug, PartialEq, Eq, Structural)]
pub enum ParamUpdate {
    /// The format, with its modifier chosen.
    Format { width: u32, height: u32, refresh: u32, modifier: u64 },
    /// The buffers: how many planes each has.
    Buffers { plane_count: usize },
}

/// How a buffer is to be allocated.
#[derive(Debug)]
pub enum Allocation {
    /// Without a modifier.
    Implicit,
    /// With one of these modifiers.
    Explicit { modifiers: Vec<u64> },
}

/// The least time between two frames at a highest rate of `num / denom`, in
/// whole microseconds; what it was before where there is no highest rate.
pub open spec fn min_frame_time(num: u32, denom: u32, before: u64) -> u64 {
    if num > 0 {
        ((1_000_000 * denom as int / num as int) * 1000) as u64
    } else {
        before
    }
}

/// How much longer to wait before the next frame.
pub open spec fn extra_delay(last: u64, min: u64, target: u64) -> int {
    if last == 0 || target < last || target - last >= min {
        0
    } else {
        min - (target - last)
    }
}

impl CastView {
    /// A cast that was just created.
    pub open spec fn created(width: u32, height: u32, refresh: u32, name: Seq<char>) -> CastView {
        CastView {
            is_active: false,
            width,
            height,
            refresh,
            node_id: None,
            output_name: name,
            state: CastState::Pending,
            buffers: Seq::empty(),
            last_frame_time: 0,
            min_time_between_frames: 0,
            had_error: false,
        }
    }

    /// Whether frames are wanted.
    pub open spec fn is_streaming_spec(self) -> bool {
        self.is_active && !self.had_error
    }

    /// Whether a frame at this time would come too soon.
    pub open spec fn skips(self, target: u64) -> bool {
        extra_delay(self.last_frame_time, self.min_time_between_frames, target)
            >= CAST_DELAY_ALLOWANCE_NS
    }

    /// The modifier that a trial settles: the one that the allocation chose, or
    /// the one that was fixed before.
    pub open spec fn settled_modifier(trial: Trial, chosen: u64) -> u64 {
        if trial.fixate {
            chosen
        } else {
            trial.modifier
        }
    }

    /// After a trial allocation gave this modifier and number of planes.
    pub open spec fn settled(self, trial: Trial, chosen: u64, planes: usize) -> CastView {
        CastView {
            state: CastState::Ready {
                width: trial.width,
                height: trial.height,
                modifier: CastView::settled_modifier(trial, chosen),
                plane_count: planes,
                tracker: None,
            },
            ..self
        }
    }

    /// The parameters to send after a trial allocation: the format where its
    /// modifier was just chosen, and otherwise the buffers.
    pub open spec fn update_after(self, trial: Trial, chosen: u64, planes: usize) -> ParamUpdate {
        if trial.fixate {
            ParamUpdate::Format {
                width: trial.width,
                height: trial.height,
                refresh: self.refresh,
                modifier: CastView::settled_modifier(trial, chosen),
            }
        } else {
            ParamUpdate::Buffers { plane_count: planes }
        }
    }

    /// The size and modifier of a buffer; none before the format is settled.
    pub open spec fn wanted_buffer(self) -> Option<(u32, u32, u64)> {
        match self.state {
            CastState::Ready { width, height, modifier, .. } => Some((width, height, modifier)),
            CastState::Pending => None,
        }
    }

    /// The size of the next frame, and whether its damage tracker is a new one.
    pub open spec fn next_frame(self, scale: u64) -> Option<(u32, u32, bool)> {
        match self.state {
            CastState::Ready { width, height, tracker, .. } if self.is_streaming_spec() => Some(
                (width, height, tracker != Some(scale)),
            ),
            _ => None,
        }
    }

    /// Made ready for a frame at this scale.
    pub open spec fn prepared(self, scale: u64) -> CastView {
        match self.state {
            CastState::Ready {
                width,
                height,
                modifier,
                plane_count,
                tracker,
            } if self.is_streaming_spec() => CastView {
                state: CastState::Ready {
                    width,
                    height,
                    modifier,
                    plane_count,
                    tracker: Some(scale),
                },
                ..self
            },
            _ => self,
        }
    }

    /// After the stream has entered a state.
    pub open spec fn entered(self, new: StreamState) -> CastView {
        match new {
            StreamState::Paused { node_id } => CastView {
                node_id: if self.node_id is None {
                    Some(node_id)
                } else {
                    self.node_id
                },
                is_active: false,
                ..self
            },
            StreamState::Streaming => CastView { is_active: true, ..self },
            StreamState::Error => CastView { is_active: false, had_error: true, ..self },
            StreamState::Other => self,
        }
    }
}

impl Cast {
    /// A cast of an output, given its size and refresh rate.
    pub fn new(width: i32, height: i32, refresh: u32, output_name: String) -> (r: Cast)
        ensures
            r@ == CastView::created(width as u32, height as u32, refresh, output_name@),
    {
        let r = Cast {
            is_active: false,
            width: #[verifier::truncate] (width as u32),
            height: #[verifier::truncate] (height as u32),
            refresh,
            node_id: None,
            output_name,
            state: CastState::Pending,
            buffers: Vec::new(),
            last_frame_time: 0,
            min_time_between_frames: 0,
            had_error: false,
        };
        proof {
            assert(r.buffers@ =~= Seq::<i64>::empty());
        }
        r
    }

    /// Whether frames are wanted: the stream is active and had no fatal error.
    pub fn is_streaming(&self) -> (r: bool)
        ensures
            r == self@.is_streaming_spec(),
    {
        self.is_active && !self.had_error
    }

    /// Whether the stream had a fatal error.
    pub fn has_error(&self) -> (r: bool)
        ensures
            r == self@.had_error,
    {
        self.had_error
    }

    /// Takes up a state that the stream entered. Gives the node that has to be
    /// announced, which happens once, when the stream is first paused.
    pub fn state_changed(&mut self, new: StreamState) -> (announce: Option<u32>)
        ensures
            final(self)@ == old(self)@.entered(new),
            announce == match new {
                StreamState::Paused { node_id } if old(self)@.node_id is None => Some(node_id),
                _ => None,
            },
    {
        match new {
            StreamState::Paused { node_id } => {
                let first: bool = self.node_id.is_none();
                if first {
                    self.node_id = Some(node_id);
                }
                self.is_active = false;
                if first {
                    Some(node_id)
                } else {
                    None
                }
            },
            StreamState::Streaming => {
                self.is_active = true;
                None
            },
            StreamState::Error => {
                self.is_active = false;
                self.had_error = true;
                None
            },
            StreamState::Other => None,
        }
    }

    /// Takes up that the node could not be announced.
    pub fn announce_failed(&mut self)
        ensures
            final(self)@ == (CastView { had_error: true, ..old(self)@ }),
    {
        self.had_error = true;
    }

    /// Takes up an offered format: sets the pace of frames, and gives the
    /// trial allocation that it calls for. A choice of modifiers that is not
    /// understood calls for none.
    pub fn format_offered(&mut self, format: OfferedFormat) -> (trial: Option<Trial>)
        ensures
            final(self)@ == (CastView {
                min_time_between_frames: min_frame_time(
                    format.max_rate_num,
                    format.max_rate_denom,
                    old(self)@.min_time_between_frames,
                ),
                ..old(self)@
            }),
            match format.modifier {
                OfferedModifier::Choice { alternatives } => trial matches Some(t) && t.width
                    == format.width && t.height == format.height && t.fixate && t.modifiers@
                    == alternatives@ && t.modifier == MODIFIER_INVALID,
                OfferedModifier::Malformed => trial is None,
                OfferedModifier::Fixed { modifier } => trial matches Some(t) && t.width
                    == format.width && t.height == format.height && !t.fixate && t.modifiers@
                    == seq![modifier as i64] && t.modifier == modifier,
            },
    {
        if format.max_rate_num > 0 {
            let micros: u64 = 1_000_000u64 * format.max_rate_denom as u64
                / format.max_rate_num as u64;
            proof {
                assert(1_000_000 * format.max_rate_denom as int / format.max_rate_num as int
                    <= 1_000_000 * format.max_rate_denom as int) by (nonlinear_arith)
                    requires
                        format.max_rate_num > 0,
                        format.max_rate_denom >= 0,
                ;
            }
            self.min_time_between_frames = micros * 1000;
        }
        match format.modifier {
            OfferedModifier::Choice { alternatives } => Some(
                Trial {
                    width: format.width,
                    height: format.height,
                    modifiers: alternatives,
                    fixate: true,
                    modifier: MODIFIER_INVALID,
                },
            ),
            OfferedModifier::Malformed => None,
            OfferedModifier::Fixed { modifier } => {
                let mut modifiers: Vec<i64> = Vec::new();
                modifiers.push(#[verifier::truncate] (modifier as i64));
                proof {
                    assert(modifiers@ =~= seq![modifier as i64]);
                }
                Some(
                    Trial {
                        width: format.width,
                        height: format.height,
                        modifiers,
                        fixate: false,
                        modifier,
                    },
                )
            },
        }
    }

    /// Takes up what the trial allocation gave, a modifier and a number of
    /// planes, and gives the parameters to send. Where it failed, nothing
    /// changes.
    pub fn trial_done(&mut self, trial: &Trial, allocated: Option<(u64, usize)>) -> (r: Option<
        ParamUpdate,
    >)
        ensures
            match allocated {
                Some((chosen, planes)) => {
                    &&& final(self)@ == old(self)@.settled(*trial, chosen, planes)
                    &&& r == Some(old(self)@.update_after(*trial, chosen, planes))
                },
                None => final(self)@ == old(self)@ && r is None,
            },
    {
        match allocated {
            Some((chosen, planes)) => {
                let modifier: u64 = if trial.fixate {
                    chosen
                } else {
                    trial.modifier
                };
                self.state = CastState::Ready {
                    width: trial.width,
                    height: trial.height,
                    modifier,
                    plane_count: planes,
                    tracker: None,
                };
                if trial.fixate {
                    Some(
                        ParamUpdate::Format {
                            width: trial.width,
                            height: trial.height,
                            refresh: self.refresh,
                            modifier,
                        },
                    )
                } else {
                    Some(ParamUpdate::Buffers { plane_count: planes })
                }
            },
            None => None,
        }
    }

    /// The size and modifier of a buffer to allocate; none before the format
    /// is settled.
    pub fn buffer_request(&self) -> (r: Option<(u32, u32, u64)>)
        ensures
            r == self@.wanted_buffer(),
    {
        match self.state {
            CastState::Ready { width, height, modifier, plane_count: _, tracker: _ } => Some(
                (width, height, modifier),
            ),
            CastState::Pending => None,
        }
    }

    /// Whether there is a buffer with this file descriptor.
    pub fn has_buffer(&self, fd: i64) -> (r: bool)
        ensures
            r == self@.buffers.contains(fd),
    {
        let mut i: usize = 0;
        while i < self.buffers.len()
            invariant
                i <= self.buffers@.len(),
                forall|j: int| 0 <= j < i ==> self.buffers@[j] != fd,
            decreases self.buffers@.len() - i,
        {
            if self.buffers[i] == fd {
                return true;
            }
            i += 1;
        }
        false
    }

    /// Takes up a buffer.
    pub fn buffer_added(&mut self, fd: i64)
        ensures
            final(self)@ == (CastView { buffers: old(self)@.buffers.push(fd), ..old(self)@ }),
    {
        self.buffers.push(fd);
    }

    /// Drops a buffer.
    pub fn buffer_removed(&mut self, fd: i64)
        ensures
            final(self)@ == (CastView {
                buffers: old(self)@.buffers.filter(|b: i64| b != fd),
                ..old(self)@
            }),
    {
        let ghost keep = |b: i64| b != fd;
        let ghost before = self.buffers@;
        let mut kept: Vec<i64> = Vec::new();
        let mut i: usize = 0;
        proof {
            reveal(Seq::filter);
            assert(before.take(0) =~= Seq::<i64>::empty());
        }
        while i < self.buffers.len()
            invariant
                i <= self.buffers@.len(),
                self.buffers@ == before,
                self@ == old(self)@,
                keep == (|b: i64| b != fd),
                kept@ == before.take(i as int).filter(keep),
            decreases self.buffers@.len() - i,
        {
            let b: i64 = self.buffers[i];
            proof {
                reveal(Seq::filter);
                assert(before.take(i + 1).drop_last() =~= before.take(i as int));
            }
            if b != fd {
                kept.push(b);
            }
            i += 1;
        }
        proof {
            assert(before.take(i as int) =~= before);
        }
        self.buffers = kept;
    }

    /// How much longer to wait before a frame at this time; 0 where it can be
    /// taken now.
    pub fn compute_extra_delay(&self, target_frame_time: u64) -> (r: u64)
        ensures
            r == extra_delay(
                self@.last_frame_time,
                self@.min_time_between_frames,
                target_frame_time,
            ),
    {
        let last: u64 = self.last_frame_time;
        let min: u64 = self.min_time_between_frames;
        if last == 0 {
            return 0;
        }
        if target_frame_time < last {
            return 0;
        }
        let diff: u64 = target_frame_time - last;
        if diff < min {
            return min - diff;
        }
        0
    }

    /// Whether a frame at this time would come too soon.
    pub fn should_skip_frame(&self, target_frame_time: u64) -> (r: bool)
        ensures
            r == self@.skips(target_frame_time),
    {
        self.compute_extra_delay(target_frame_time) >= CAST_DELAY_ALLOWANCE_NS
    }

    /// Makes ready for a frame at this scale: the size to draw, and whether
    /// the damage tracker is a new one. None while no frames are wanted or the
    /// format is not settled.
    pub fn prepare_frame(&mut self, scale: u64) -> (r: Option<(u32, u32, bool)>)
        ensures
            r == old(self)@.next_frame(scale),
            final(self)@ == old(self)@.prepared(scale),
    {
        if !self.is_streaming() {
            return None;
        }
        match self.state {
            CastState::Ready { width, height, modifier, plane_count, tracker } => {
                let fresh: bool = match tracker {
                    Some(s) => s != scale,
                    None => true,
                };
                self.state = CastState::Ready {
                    width,
                    height,
                    modifier,
                    plane_count,
                    tracker: Some(scale),
                };
                Some((width, height, fresh))
            },
            CastState::Pending => None,
        }
    }

    /// Whether a frame reaches the viewers: there was damage, a buffer was
    /// free and is one of this cast, and it was drawn. Then the time of the
    /// frame is remembered.
    pub fn frame_done(
        &mut self,
        damaged: bool,
        buffer: Option<i64>,
        drawn: bool,
        target_frame_time: u64,
    ) -> (r: bool)
        ensures
            r == (damaged && buffer is Some && old(self)@.buffers.contains(buffer->0) && drawn),
            final(self)@ == (if r {
                CastView { last_frame_time: target_frame_time, ..old(self)@ }
            } else {
                old(self)@
            }),
    {
        if !damaged {
            return false;
        }
        match buffer {
            Some(fd) => {
                if self.has_buffer(fd) && drawn {
                    self.last_frame_time = target_frame_time;
                    true
                } else {
                    false
                }
            },
            None => false,
        }
    }
}

/// The modifiers among these that name a modifier.
pub open spec fn named_modifiers(modifiers: Seq<i64>) -> Seq<u64> {
    modifiers.map_values(|m: i64| m as u64).filter(|m: u64| m != MODIFIER_INVALID)
}

/// How to allocate a buffer with one of these modifiers: where the only one is
/// the invalid one, without a modifier; otherwise with one of the others.
pub fn plan_allocation(modifiers: &Vec<i64>) -> (r: Allocation)
    ensures
        if modifiers@.len() == 1 && modifiers@[0] as u64 == MODIFIER_INVALID {
            r is Implicit
        } else {
            r matches Allocation::Explicit { modifiers: m } && m@ == named_modifiers(modifiers@)
        },
{
    if modifiers.len() == 1 && #[verifier::truncate] (modifiers[0] as u64) == MODIFIER_INVALID {
        return Allocation::Implicit;
    }
    let ghost all = modifiers@.map_values(|m: i64| m as u64);
    let ghost keep = |m: u64| m != MODIFIER_INVALID;
    let mut named: Vec<u64> = Vec::new();
    let mut i: usize = 0;
    proof {
        reveal(Seq::filter);
        assert(all.take(0) =~= Seq::<u64>::empty());
    }
    while i < modifiers.len()
        invariant
            i <= modifiers@.len(),
            all == modifiers@.map_values(|m: i64| m as u64),
            keep == (|m: u64| m != MODIFIER_INVALID),
            named@ == all.take(i as int).filter(keep),
        decreases modifiers@.len() - i,
    {
        let m: u64 = #[verifier::truncate] (modifiers[i] as u64);
        proof {
            reveal(Seq::filter);
            assert(all.take(i + 1).drop_last() =~= all.take(i as int));
            assert(all.take(i + 1).last() == m);
        }
        if m != MODIFIER_INVALID {
            named.push(m);
        }
        i += 1;
    }
    proof {
        assert(all.take(i as int) =~= all);
    }
    Allocation::Explicit { modifiers: named }
}

/// The first frame of a cast is never held back.
pub proof fn lemma_first_frame_not_skipped(c: CastView, target: u64)
    requires
        c.last_frame_time == 0,
    ensures
        !c.skips(target),
{
}

/// Frames that are the least time apart are not held back, and a frame that
/// follows at once is, where the least time is at least the allowance.
pub proof fn lemma_pace(c: CastView, target: u64)
    requires
        c.last_frame_time > 0,
        target >= c.last_frame_time,
    ensures
        target - c.last_frame_time >= c.min_time_between_frames ==> !c.skips(target),
        target == c.last_frame_time && c.min_time_between_frames >= CAST_DELAY_ALLOWANCE_NS
            ==> c.skips(target),
{
}

/// A later frame is held back no more than an earlier one.
pub proof fn lemma_waiting_helps(c: CastView, earlier: u64, later: u64)
    requires
        c.last_frame_time <= earlier <= later,
    ensures
        c.skips(later) ==> c.skips(earlier),
{
}

/// After a fatal error a cast never streams again.
pub proof fn lemma_error_is_final(c: CastView, new: StreamState)
    requires
        c.had_error,
    ensures
        !c.is_streaming_spec(),
        c.entered(new).had_error,
{
}

/// The node that a cast announces is the first one that it had.
pub proof fn lemma_node_is_kept(c: CastView, new: StreamState)
    requires
        c.node_id is Some,
    ensures
        c.entered(new).node_id == c.node_id,
{
}

} // verus!
