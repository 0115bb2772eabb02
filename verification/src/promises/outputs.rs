//! Video modes, and the place, scale and transform of outputs.
use vstd::prelude::*;

use crate::geometry::{Size, Transform};
use crate::output::{
    best_mode, initial_mode_spec, int_of_transform, millihertz, refresh_interval_spec,
    timer_spec, transform_of_int, OutputChange, OutputConfig, VideoMode,
};
use crate::space::{extent, OutputView};

verus! {

// ---------------------------------------------------------------------------
// Modes
// ---------------------------------------------------------------------------
/// Whether a mode has a size.
pub open spec fn has_size(m: VideoMode, width: i32, height: i32) -> bool {
    m.width as int == width && m.height as int == height
}

/// Whether a refresh rate is within 1 Hz of a wanted one.
pub open spec fn near(m: VideoMode, wanted: i32) -> bool {
    -1 <= m.vrefresh as int - wanted <= 1
}

/// A mode that is chosen is one of the list and of the wanted size, and none is
/// chosen only where none has that size.
pub proof fn lemma_chosen_mode_is_offered(
    modes: Seq<VideoMode>,
    width: i32,
    height: i32,
    refresh: Option<i32>,
)
    ensures
        match best_mode(modes, width, height, refresh) {
            Some(m) => modes.contains(m) && has_size(m, width, height),
            None => forall|i: int|
                0 <= i < modes.len() ==> !has_size(#[trigger] modes[i], width, height),
        },
    decreases modes.len(),
{
    if modes.len() > 0 {
        let rest = modes.drop_last();
        let n = modes.len() - 1;
        lemma_chosen_mode_is_offered(rest, width, height, refresh);
        assert(modes[n] == modes.last());
        assert forall|i: int| 0 <= i < n implies #[trigger] modes[i] == rest[i] by {
        }
        if let Some(b) = best_mode(rest, width, height, refresh) {
            let k = choose|k: int| 0 <= k < rest.len() && rest[k] == b;
            assert(modes[k] == b);
        }
    }
}

/// Where no refresh rate is wanted, the chosen mode is the fastest of its size.
pub proof fn lemma_fastest_mode(modes: Seq<VideoMode>, width: i32, height: i32, i: int)
    requires
        0 <= i < modes.len(),
        has_size(modes[i], width, height),
    ensures
        best_mode(modes, width, height, None) is Some,
        best_mode(modes, width, height, None)->0.vrefresh >= modes[i].vrefresh,
    decreases modes.len(),
{
    if i < modes.len() - 1 {
        assert(modes.drop_last()[i] == modes[i]);
        lemma_fastest_mode(modes.drop_last(), width, height, i);
    }
}

/// Where a refresh rate is wanted and a mode of the wanted size comes within
/// 1 Hz of it, the chosen mode does, and no faster one of those is passed over.
/// Rates are below 1000 Hz.
pub proof fn lemma_mode_of_wanted_rate(
    modes: Seq<VideoMode>,
    width: i32,
    height: i32,
    wanted: i32,
    i: int,
)
    requires
        forall|k: int| 0 <= k < modes.len() ==> (#[trigger] modes[k]).vrefresh < 1000,
        0 <= i < modes.len(),
        has_size(modes[i], width, height),
        near(modes[i], wanted),
    ensures
        ({
            let m = best_mode(modes, width, height, Some(wanted));
            m is Some && near(m->0, wanted) && m->0.vrefresh >= modes[i].vrefresh
        }),
    decreases modes.len(),
{
    let rest = modes.drop_last();
    assert forall|k: int| 0 <= k < rest.len() implies (#[trigger] rest[k]).vrefresh < 1000 by {
        assert(rest[k] == modes[k]);
    }
    lemma_chosen_mode_is_offered(rest, width, height, Some(wanted));
    if let Some(b) = best_mode(rest, width, height, Some(wanted)) {
        let k = choose|k: int| 0 <= k < rest.len() && rest[k] == b;
        assert(modes[k].vrefresh < 1000);
    }
    assert(modes[modes.len() - 1].vrefresh < 1000);
    if i < modes.len() - 1 {
        assert(rest[i] == modes[i]);
        lemma_mode_of_wanted_rate(rest, width, height, wanted, i);
    }
}

/// Where a refresh rate is wanted that no mode of the wanted size comes near,
/// the chosen mode is the fastest of its size.
pub proof fn lemma_fastest_mode_without_wanted_rate(
    modes: Seq<VideoMode>,
    width: i32,
    height: i32,
    wanted: i32,
    i: int,
)
    requires
        forall|k: int|
            0 <= k < modes.len() && has_size(#[trigger] modes[k], width, height) ==> !near(
                modes[k],
                wanted,
            ),
        0 <= i < modes.len(),
        has_size(modes[i], width, height),
    ensures
        best_mode(modes, width, height, Some(wanted)) is Some,
        best_mode(modes, width, height, Some(wanted))->0.vrefresh >= modes[i].vrefresh,
    decreases modes.len(),
{
    let rest = modes.drop_last();
    assert forall|k: int|
        0 <= k < rest.len() && has_size(#[trigger] rest[k], width, height) implies !near(
        rest[k],
        wanted,
    ) by {
        assert(rest[k] == modes[k]);
    }
    lemma_chosen_mode_is_offered(rest, width, height, Some(wanted));
    if let Some(b) = best_mode(rest, width, height, Some(wanted)) {
        let k = choose|k: int| 0 <= k < rest.len() && rest[k] == b;
        assert(!near(modes[k], wanted));
    }
    assert(has_size(modes[modes.len() - 1], width, height) ==> !near(
        modes[modes.len() - 1],
        wanted,
    ));
    if i < modes.len() - 1 {
        assert(rest[i] == modes[i]);
        lemma_fastest_mode_without_wanted_rate(rest, width, height, wanted, i);
    }
}

/// The mode to start with is a preferred one where there is one, and then the
/// first of those; otherwise the first of all.
pub proof fn lemma_initial_mode(modes: Seq<VideoMode>, i: int)
    requires
        0 <= i < modes.len(),
        forall|j: int| 0 <= j < i ==> !(#[trigger] modes[j]).preferred,
    ensures
        initial_mode_spec(modes) is Some,
        modes[i].preferred ==> initial_mode_spec(modes) == Some(modes[i]),
        (forall|j: int| 0 <= j < modes.len() ==> !(#[trigger] modes[j]).preferred)
            ==> initial_mode_spec(modes) == Some(modes[0]),
{
    if modes[i].preferred {
        let k = choose|k: int|
            0 <= k < modes.len() && (#[trigger] modes[k]).preferred && forall|j: int|
                0 <= j < k ==> !(#[trigger] modes[j]).preferred;
        assert(modes[i].preferred);
        if k < i {
            assert(!modes[k].preferred);
        } else if i < k {
            assert(!modes[i].preferred);
        }
    }
}

/// The time between two vertical blanks is a second divided by their number,
/// rounded down to microseconds; 16667 where the number is not known.
pub proof fn lemma_refresh_interval(hertz: u32)
    ensures
        hertz > 0 ==> {
            let us = refresh_interval_spec(hertz);
            us * hertz <= 1_000_000 < (us + 1) * hertz
        },
        hertz == 0 ==> refresh_interval_spec(hertz) == 16_667,
{
    if hertz > 0 {
        let us = refresh_interval_spec(hertz) as int;
        vstd::arithmetic::div_mod::lemma_fundamental_div_mod(1_000_000int, hertz as int);
        vstd::arithmetic::div_mod::lemma_mod_bound(1_000_000int, hertz as int);
        assert(us == 1_000_000int / hertz as int);
        assert(us * hertz == hertz as int * us) by (nonlinear_arith);
        assert((us + 1) * hertz == us * hertz + hertz) by (nonlinear_arith);
    }
}

/// A refresh rate is told in thousandths of a hertz.
pub proof fn lemma_millihertz(hertz: u32)
    requires
        hertz * 1000 <= i32::MAX,
    ensures
        millihertz(hertz) == hertz * 1000,
{
}

// ---------------------------------------------------------------------------
// Configurations
// ---------------------------------------------------------------------------
/// Whether a value is the new one where there is one, and else the old one.
pub open spec fn new_or_old<A>(r: A, new: Option<A>, before: A) -> bool {
    r == if new is Some {
        new->0
    } else {
        before
    }
}

/// A change of a configuration sets what it names and nothing else. A place
/// needs only one coordinate named, and keeps the other where the output stands;
/// a mode needs both width and height.
pub proof fn lemma_change_sets_what_it_names(
    config: OutputConfig,
    change: OutputChange,
    current: (i32, i32),
)
    ensures
        ({
            let r = config.merge_spec(change, current);
            &&& new_or_old(r.enabled, change.enabled, config.enabled)
            &&& change.scale is Some ==> r.scale == change.scale
            &&& change.scale is None ==> r.scale == config.scale
            &&& change.transform is None ==> r.transform == config.transform
            &&& change.transform matches Some(n) ==> r.transform is Some && (0 <= n <= 7
                ==> int_of_transform(r.transform->0) == n)
            &&& change.width is Some && change.height is Some ==> r.mode == Some(
                (change.width->0, change.height->0, change.refresh),
            )
            &&& change.width is None || change.height is None ==> r.mode == config.mode
            &&& change.x is Some || change.y is Some ==> match r.position {
                Some((x, y)) => new_or_old(x, change.x, current.0) && new_or_old(
                    y,
                    change.y,
                    current.1,
                ),
                None => false,
            }
            &&& change.x is None && change.y is None ==> r.position == config.position
        }),
{
}

/// Whether a transform turns by a quarter.
pub open spec fn is_quarter_turn(t: Transform) -> bool {
    int_of_transform(t) % 2 == 1
}

/// Transforms are numbered as Wayland numbers them: 0 leaves the picture as it
/// is, each further number up to 3 turns it by another quarter, and 4 more
/// flips it first. Any other number leaves the picture as it is.
pub proof fn lemma_transform_numbering(n: i32, size: Size)
    ensures
        0 <= n <= 7 ==> int_of_transform(transform_of_int(n)) == n,
        !(0 <= n <= 7) ==> transform_of_int(n) == Transform::Normal,
        transform_of_int(0) == Transform::Normal,
        ({
            let turned = transform_of_int(n).transform_size_spec(size);
            if n == 1 || n == 3 || n == 5 || n == 7 {
                turned.w == size.h && turned.h == size.w
            } else {
                turned == size
            }
        }),
{
}

// ---------------------------------------------------------------------------
// Places
// ---------------------------------------------------------------------------
/// The extent of the outputs reaches to the right and lower edge of each, and
/// to nothing beyond all of them.
pub proof fn lemma_extent_reaches_outputs(outputs: Seq<OutputView>, i: int)
    requires
        0 <= i < outputs.len(),
        forall|k: int|
            0 <= k < outputs.len() ==> {
                let o = #[trigger] outputs[k];
                o.loc.x + o.size.w <= i32::MAX && o.loc.y + o.size.h <= i32::MAX && o.loc.x
                    + o.size.w >= i32::MIN && o.loc.y + o.size.h >= i32::MIN
            },
    ensures
        ({
            let e = extent(outputs, Size { w: 0, h: 0 });
            e.w >= outputs[i].loc.x + outputs[i].size.w && e.h >= outputs[i].loc.y
                + outputs[i].size.h
        }),
    decreases outputs.len(),
{
    let rest = outputs.drop_last();
    assert(outputs[outputs.len() - 1] == outputs.last());
    if i < outputs.len() - 1 {
        assert forall|k: int| 0 <= k < rest.len() implies {
            let o = #[trigger] rest[k];
            o.loc.x + o.size.w <= i32::MAX && o.loc.y + o.size.h <= i32::MAX && o.loc.x + o.size.w
                >= i32::MIN && o.loc.y + o.size.h >= i32::MIN
        } by {
            assert(rest[k] == outputs[k]);
        }
        lemma_extent_reaches_outputs(rest, i);
        assert(rest[i] == outputs[i]);
    }
}

/// The extent of the outputs is the edge of one of them, or nothing.
pub proof fn lemma_extent_is_an_edge(outputs: Seq<OutputView>)
    requires
        forall|k: int|
            0 <= k < outputs.len() ==> {
                let o = #[trigger] outputs[k];
                o.loc.x + o.size.w <= i32::MAX && o.loc.y + o.size.h <= i32::MAX && o.loc.x
                    + o.size.w >= i32::MIN && o.loc.y + o.size.h >= i32::MIN
            },
    ensures
        ({
            let e = extent(outputs, Size { w: 0, h: 0 });
            &&& e.w == 0 || exists|i: int|
                0 <= i < outputs.len() && e.w == (#[trigger] outputs[i]).loc.x + outputs[i].size.w
            &&& e.h == 0 || exists|i: int|
                0 <= i < outputs.len() && e.h == (#[trigger] outputs[i]).loc.y + outputs[i].size.h
        }),
    decreases outputs.len(),
{
    if outputs.len() > 0 {
        let rest = outputs.drop_last();
        let n = outputs.len() - 1;
        assert(outputs[n] == outputs.last());
        assert forall|k: int| 0 <= k < rest.len() implies {
            let o = #[trigger] rest[k];
            o.loc.x + o.size.w <= i32::MAX && o.loc.y + o.size.h <= i32::MAX && o.loc.x + o.size.w
                >= i32::MIN && o.loc.y + o.size.h >= i32::MIN
        } by {
            assert(rest[k] == outputs[k]);
        }
        lemma_extent_is_an_edge(rest);
        let before = extent(rest, Size { w: 0, h: 0 });
        let e = extent(outputs, Size { w: 0, h: 0 });
        if e.w == before.w && before.w != 0 {
            let i = choose|i: int|
                0 <= i < rest.len() && before.w == (#[trigger] rest[i]).loc.x + rest[i].size.w;
            assert(outputs[i] == rest[i]);
        }
        if e.h == before.h && before.h != 0 {
            let i = choose|i: int|
                0 <= i < rest.len() && before.h == (#[trigger] rest[i]).loc.y + rest[i].size.h;
            assert(outputs[i] == rest[i]);
        }
    }
}

/// The timer that stands in for a vertical blank runs for a refresh interval,
/// and never for less than a millisecond.
pub proof fn lemma_timer_runs_an_interval(refresh_interval_us: u64)
    ensures
        timer_spec(refresh_interval_us) >= 1_000,
        timer_spec(refresh_interval_us) >= refresh_interval_us,
        timer_spec(refresh_interval_us) == refresh_interval_us || timer_spec(refresh_interval_us)
            == 1_000,
        timer_spec(timer_spec(refresh_interval_us)) == timer_spec(refresh_interval_us),
{
}

} // verus!
