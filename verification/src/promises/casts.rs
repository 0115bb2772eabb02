//! Screen casts and screenshots.
use vstd::prelude::*;

use crate::backend::drm::is_compressed;
use crate::ewm::EwmView;
use crate::geometry::{Point, Rectangle, Size};
use crate::pipewire::stream::{
    extra_delay, min_frame_time, named_modifiers, CastView, ParamUpdate, StreamState, Trial,
};
use crate::promises::places::{is_in, is_proper, lemma_common_part};
use crate::render::{
    damage_of, reply_to, shm_layout_fits, ScreencopyReply, ScreencopyRequest,
};

verus! {

/// A new cast has the size and the rate of its output, waits for its format,
/// and sends nothing yet.
pub proof fn lemma_new_cast(width: u32, height: u32, refresh: u32, name: Seq<char>, target: u64)
    ensures
        ({
            let c = CastView::created(width, height, refresh, name);
            &&& c.width == width && c.height == height && c.refresh == refresh
            &&& c.output_name == name
            &&& c.state is Pending
            &&& c.node_id is None
            &&& c.buffers.len() == 0
            &&& !c.is_streaming_spec()
            &&& !c.had_error
            &&& !c.skips(target)
        }),
{
}

/// Frames are sent exactly from when a stream starts until it pauses or fails;
/// after a failure none is sent again.
pub proof fn lemma_when_a_cast_sends(c: CastView, new: StreamState)
    ensures
        ({
            let t = c.entered(new);
            &&& new is Streaming ==> t.is_streaming_spec() == !c.had_error
            &&& new is Paused ==> !t.is_streaming_spec() && t.had_error == c.had_error
            &&& new is Error ==> !t.is_streaming_spec() && t.had_error
            &&& new is Other ==> t == c
            &&& t.is_streaming_spec() ==> !c.had_error && (new is Streaming || new is Other)
            &&& new matches StreamState::Paused { node_id } ==> t.node_id == (if c.node_id is None {
                Some(node_id)
            } else {
                c.node_id
            })
            &&& new !is Paused ==> t.node_id == c.node_id
            &&& t.width == c.width && t.height == c.height && t.output_name == c.output_name
                && t.last_frame_time == c.last_frame_time
        }),
{
}

/// A highest rate of `num / denom` frames in a second leaves that part of a
/// second between two frames, in whole microseconds; without a highest rate
/// nothing changes.
pub proof fn lemma_least_time(num: u32, denom: u32, before: u64)
    ensures
        num == 0 ==> min_frame_time(num, denom, before) == before,
        num > 0 && denom <= 1_000_000 ==> {
            let ns = min_frame_time(num, denom, before);
            &&& ns % 1000 == 0
            &&& ns * num <= 1_000_000_000 * denom < (ns + 1000) * num
        },
{
    if num > 0 && denom <= 1_000_000 {
        let all = 1_000_000 * denom as int;
        let n = num as int;
        let us = all / n;
        vstd::arithmetic::div_mod::lemma_fundamental_div_mod(all, n);
        vstd::arithmetic::div_mod::lemma_mod_bound(all, n);
        assert(0 <= us <= all) by {
            vstd::arithmetic::div_mod::lemma_div_pos_is_pos(all, n);
            vstd::arithmetic::div_mod::lemma_div_is_ordered_by_denominator(all, 1, n);
        }
        assert(us * n <= all < (us + 1) * n) by (nonlinear_arith)
            requires
                all == n * us + all % n,
                0 <= all % n < n,
        ;
        assert((us * 1000) * n <= all * 1000 < (us * 1000 + 1000) * n) by (nonlinear_arith)
            requires
                us * n <= all < (us + 1) * n,
        ;
        assert(min_frame_time(num, denom, before) == us * 1000);
    }
}

/// A frame waits for what is left of the least time since the last one, and for
/// nothing where there was none before or time ran backwards.
pub proof fn lemma_wait_for_a_frame(last: u64, min: u64, target: u64)
    ensures
        last == 0 || target < last ==> extra_delay(last, min, target) == 0,
        last > 0 && target >= last && target - last <= min ==> target + extra_delay(
            last,
            min,
            target,
        ) == last + min,
        last > 0 && target >= last && target - last > min ==> extra_delay(last, min, target) == 0,
{
}

/// A frame is left out exactly where it would have to wait for a tenth of a
/// millisecond or more.
pub proof fn lemma_frames_left_out(c: CastView, target: u64)
    ensures
        c.skips(target) <==> c.last_frame_time > 0 && target >= c.last_frame_time
            && c.min_time_between_frames - (target - c.last_frame_time) >= 100_000,
{
}

/// A cast gets a frame of an output exactly where the output is mapped and is
/// the one that is cast, frames are wanted, and it does not come too soon.
pub proof fn lemma_frames_of_a_cast(s: EwmView, i: int, output: Seq<char>, now: u64)
    requires
        0 <= i < s.screen_casts.len(),
    ensures
        ({
            let c = s.screen_casts[i].1;
            s.cast_due(i, output, now) <==> {
                &&& c.output_name == output
                &&& c.is_active && !c.had_error
                &&& exists|k: int|
                    0 <= k < s.space.outputs.len() && (#[trigger] s.space.outputs[k]).name == output
                &&& !(c.last_frame_time > 0 && now >= c.last_frame_time
                    && c.min_time_between_frames - (now - c.last_frame_time) >= 100_000)
            }
        }),
{
    let c = s.screen_casts[i].1;
    let named = |o: crate::space::OutputView| o.name == c.output_name;
    crate::space::lemma_first_output(s.space.outputs, named);
    match s.space.output_named(c.output_name) {
        Some(o) => {
            let k = choose|k: int|
                0 <= k < s.space.outputs.len() && s.space.outputs[k] == o && named(o) && forall|
                    j: int,
                |
                    0 <= j < k ==> !named(#[trigger] s.space.outputs[j]);
            assert(s.space.outputs[k].name == c.output_name);
        },
        None => {
            if exists|k: int|
                0 <= k < s.space.outputs.len() && (#[trigger] s.space.outputs[k]).name == output {
                let k = choose|k: int|
                    0 <= k < s.space.outputs.len() && (#[trigger] s.space.outputs[k]).name
                        == output;
                assert(!named(s.space.outputs[k]));
            }
        },
    }
}

/// The modifiers that a buffer may have are those that are named, in their
/// order; the one that stands for none is left out.
pub proof fn lemma_modifiers_named(a: Seq<i64>, b: Seq<i64>, m: i64)
    ensures
        named_modifiers(a + b) == named_modifiers(a) + named_modifiers(b),
        m as u64 == 0x00ff_ffff_ffff_ffff ==> named_modifiers(seq![m]) == Seq::<u64>::empty(),
        m as u64 != 0x00ff_ffff_ffff_ffff ==> named_modifiers(seq![m]) == seq![m as u64],
{
    let as_u64 = |m: i64| m as u64;
    let keep = |m: u64| m != crate::pipewire::stream::MODIFIER_INVALID;
    assert((a + b).map_values(as_u64) =~= a.map_values(as_u64) + b.map_values(as_u64));
    Seq::filter_distributes_over_add(a.map_values(as_u64), b.map_values(as_u64), keep);
    reveal(Seq::filter);
    let one = seq![m].map_values(as_u64);
    assert(one =~= seq![m as u64]);
    assert(one.drop_last() =~= Seq::<u64>::empty());
    assert(one.last() == m as u64);
    assert(one.drop_last().filter(keep) =~= Seq::<u64>::empty());
    if m as u64 == 0x00ff_ffff_ffff_ffff {
        assert(one.filter(keep) =~= Seq::<u64>::empty());
    } else {
        assert(one.filter(keep) =~= seq![m as u64]);
    }
}

/// The layouts that are not drawn with are the three compressed ones of one
/// maker, whose number is in the top byte.
pub proof fn lemma_compressed_layouts(modifier: u64)
    ensures
        is_compressed(modifier) <==> modifier / 0x0100_0000_0000_0000 == 1 && (modifier
            % 0x0100_0000_0000_0000 == 4 || modifier % 0x0100_0000_0000_0000 == 6 || modifier
            % 0x0100_0000_0000_0000 == 7),
{
}

/// After a trial allocation buffers and frames have the size of the trial; the
/// modifier is the one that was chosen, where it was to be chosen, and then the
/// format is sent with it; where it was fixed already, it stays, and the number
/// of planes is sent.
pub proof fn lemma_trial_settles_the_format(
    c: CastView,
    trial: Trial,
    chosen: u64,
    planes: usize,
    scale: u64,
)
    ensures
        ({
            let t = c.settled(trial, chosen, planes);
            let modifier = if trial.fixate {
                chosen
            } else {
                trial.modifier
            };
            &&& t.wanted_buffer() == Some((trial.width, trial.height, modifier))
            &&& c.is_active && !c.had_error ==> t.next_frame(scale) == Some(
                (trial.width, trial.height, true),
            )
            &&& trial.fixate ==> c.update_after(trial, chosen, planes) == (ParamUpdate::Format {
                width: trial.width,
                height: trial.height,
                refresh: c.refresh,
                modifier: chosen,
            })
            &&& !trial.fixate ==> c.update_after(trial, chosen, planes) == (ParamUpdate::Buffers {
                plane_count: planes,
            })
            &&& t == (CastView { state: t.state, ..c })
        }),
{
}

/// Frames have the size of the buffers; there are none before the format is
/// settled, nor while none are wanted.
pub proof fn lemma_frames_fit_buffers(c: CastView, scale: u64)
    ensures
        match c.next_frame(scale) {
            Some((width, height, _)) => c.is_active && !c.had_error && match c.wanted_buffer() {
                Some((w, h, _)) => w == width && h == height,
                None => false,
            },
            None => !c.is_active || c.had_error || c.wanted_buffer() is None,
        },
{
}

/// The damage tracker of a frame is a new one exactly where the scale is another
/// than that of the frame before.
pub proof fn lemma_tracker_follows_the_scale(c: CastView, first: u64, second: u64)
    requires
        c.next_frame(first) is Some,
    ensures
        match (c.next_frame(first), c.prepared(first).next_frame(second)) {
            (Some((w, h, _)), Some((width, height, fresh))) => width == w && height == h && (fresh
                <==> second != first),
            _ => false,
        },
        c.prepared(first).wanted_buffer() == c.wanted_buffer(),
{
}

// ---------------------------------------------------------------------------
// Copies of the screen
// ---------------------------------------------------------------------------
/// A request is answered by its number: the copy where it was drawn, with the
/// whole buffer as its damage where that was asked for, and else that it is
/// dropped.
pub proof fn lemma_answer_to_a_copy(request: ScreencopyRequest, drawn: bool)
    ensures
        match reply_to(request, drawn) {
            ScreencopyReply::Submit { id, damage } => drawn && id == request.id && (damage is Some
                <==> request.with_damage) && (damage is Some ==> damage->0.loc.x == 0
                && damage->0.loc.y == 0 && damage->0.size == request.size),
            ScreencopyReply::Drop { id } => !drawn && id == request.id,
        },
{
}

/// A shared memory buffer that fits has room for every pixel that is drawn, and
/// no room beyond them.
pub proof fn lemma_pixels_fit(
    xrgb: bool,
    width: i32,
    height: i32,
    stride: i32,
    len: usize,
    size: Size,
    x: int,
    y: int,
)
    requires
        shm_layout_fits(xrgb, width, height, stride, len, size),
        0 <= x < size.w,
        0 <= y < size.h,
    ensures
        xrgb,
        0 <= y * stride + 4 * x,
        y * stride + 4 * x + 4 <= len,
        len == 4 * (size.w * size.h),
{
    let w = size.w as int;
    let h = size.h as int;
    assert(stride * height == 4 * (w * h)) by (nonlinear_arith)
        requires
            stride == w * 4,
            height == h,
    ;
    assert(0 <= y * stride) by (nonlinear_arith)
        requires
            0 <= y,
            stride == w * 4,
            w > 0,
    ;
    assert(y * stride + 4 * x + 4 <= 4 * (w * h)) by (nonlinear_arith)
        requires
            stride == w * 4,
            0 <= x,
            x + 1 <= w,
            0 <= y,
            y + 1 <= h,
    ;
}

/// A buffer of another format, size or stride does not fit.
pub proof fn lemma_when_a_buffer_fits(
    xrgb: bool,
    width: i32,
    height: i32,
    stride: i32,
    len: usize,
    size: Size,
)
    ensures
        shm_layout_fits(xrgb, width, height, stride, len, size) <==> xrgb && width == size.w
            && height == size.h && stride == 4 * size.w && len == 4 * (size.w * size.h),
{
    if stride == 4 * size.w && height == size.h {
        let w = size.w as int;
        let h = size.h as int;
        assert(stride * height == 4 * (w * h)) by (nonlinear_arith)
            requires
                stride == 4 * w,
                height == h,
        ;
    }
}

/// The part of an element that is drawn into a target is what lies in both: a
/// point of the element, seen from its corner, is in it exactly where the point
/// is in the target.
pub proof fn lemma_drawn_part(target: Size, dst: Rectangle, p: Point)
    requires
        is_proper(dst),
        0 <= target.w < i32::MAX,
        0 <= target.h < i32::MAX,
        is_in(p, dst),
    ensures
        ({
            let inside = 0 <= p.x < target.w && 0 <= p.y < target.h;
            match damage_of(target, dst) {
                Some(d) => inside <==> {
                    &&& 0 <= p.x - dst.loc.x - d.loc.x < d.size.w
                    &&& 0 <= p.y - dst.loc.y - d.loc.y < d.size.h
                },
                None => !inside,
            }
        }),
{
    let all = Rectangle { loc: Point { x: 0, y: 0 }, size: target };
    lemma_common_part(all, dst, p);
}

} // verus!
