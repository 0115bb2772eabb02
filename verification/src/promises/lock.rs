//! The session lock.
use vstd::prelude::*;

use crate::action::ActionView;
use crate::ewm::{state_in, EwmView, OutputEntry};
use crate::geometry::{Size, Transform};
use crate::input::{KeyEvent, KeyboardAction};
use crate::laws::lemma_state_at;
use crate::lock::{entry_named, is_named};
use crate::output::{LockRenderState, LockState, OutputState};
use crate::promises::redraws::asked_to_draw;
use crate::redraw::RenderOutcome;
use crate::space::{first_output, OutputHandle, OutputView};

verus! {

/// The state of an output is that of the first entry with its handle.
pub proof fn lemma_state_of_an_output(entries: Seq<OutputEntry>, output: OutputHandle)
    ensures
        match state_in(entries, output) {
            Some(state) => exists|i: int|
                0 <= i < entries.len() && (#[trigger] entries[i]).output == output
                    && entries[i].state == state && forall|j: int|
                    0 <= j < i ==> (#[trigger] entries[j]).output != output,
            None => forall|j: int|
                0 <= j < entries.len() ==> (#[trigger] entries[j]).output != output,
        },
    decreases entries.len(),
{
    if entries.len() > 0 {
        if entries[0].output == output {
            assert(entries[0].state == state_in(entries, output)->0);
        } else {
            let rest = entries.drop_first();
            lemma_state_of_an_output(rest, output);
            match state_in(rest, output) {
                Some(state) => {
                    let i = choose|i: int|
                        0 <= i < rest.len() && (#[trigger] rest[i]).output == output
                            && rest[i].state == state && forall|j: int|
                            0 <= j < i ==> (#[trigger] rest[j]).output != output;
                    assert(entries[i + 1] == rest[i]);
                    assert forall|j: int| 0 <= j < i + 1 implies (#[trigger] entries[j]).output
                        != output by {
                        if j > 0 {
                            assert(rest[j - 1] == entries[j]);
                        }
                    }
                },
                None => {
                    assert forall|j: int| 0 <= j < entries.len() implies (
                    #[trigger] entries[j]).output != output by {
                        if j > 0 {
                            assert(rest[j - 1] == entries[j]);
                        }
                    }
                },
            }
        }
    }
}

/// Whether every output was asked to draw, and counts as not having drawn a lock
/// screen; `keep` says whether its lock surface stays.
pub open spec fn asked_anew(
    before: Seq<OutputEntry>,
    after: Seq<OutputEntry>,
    keep: bool,
) -> bool {
    &&& after.len() == before.len()
    &&& forall|i: int|
        0 <= i < before.len() ==> {
            let a = #[trigger] after[i];
            let b = before[i];
            &&& a.output == b.output
            &&& asked_to_draw(b.state.redraw_state, a.state.redraw_state)
            &&& a.state.lock_render_state == LockRenderState::Unlocked
            &&& a.state.lock_surface == (if keep {
                b.state.lock_surface
            } else {
                None
            })
            &&& a.state.refresh_interval_us == b.state.refresh_interval_us
            &&& a.state.lock_background == b.state.lock_background
            &&& a.state.frame_callback_sequence == b.state.frame_callback_sequence
        }
}

/// A request for a lock is refused while a lock is under way, and while the
/// client that locked the session lives: the one who asks is told, and nothing
/// else happens.
pub proof fn lemma_lock_refused(s: EwmView, locker: u64, holder_alive: bool)
    requires
        s.lock_state is Locking || s.lock_state is Locked && holder_alive,
    ensures
        s.lock_requested(locker, holder_alive) == (EwmView {
            actions: s.actions.push(ActionView::DropLock { locker }),
            ..s
        }),
{
}

/// Any other request for a lock is taken up: the session counts as locked at
/// once, the focus is remembered, and every output is asked to draw its lock
/// screen. The lock is confirmed now only where there is no output to wait for.
pub proof fn lemma_lock_taken_up(s: EwmView, locker: u64, holder_alive: bool)
    requires
        s.lock_state is Unlocked || s.lock_state is Locked && !holder_alive,
    ensures
        ({
            let t = s.lock_requested(locker, holder_alive);
            let none = s.output_state.len() == 0;
            &&& t.lock_state == (if none {
                LockState::Locked(locker)
            } else {
                LockState::Locking(locker)
            })
            &&& t.actions == (if none {
                s.actions.push(ActionView::ConfirmLock { locker })
            } else {
                s.actions
            })
            &&& t.pre_lock_focus == (if s.focused_surface_id != 0 {
                Some(s.focused_surface_id)
            } else {
                s.pre_lock_focus
            })
            &&& asked_anew(s.output_state, t.output_state, true)
            &&& t == (EwmView {
                lock_state: t.lock_state,
                actions: t.actions,
                pre_lock_focus: t.pre_lock_focus,
                output_state: t.output_state,
                ..s
            })
        }),
{
}

/// A lock is confirmed to the client that asked for it exactly when it is under
/// way and every output has drawn the lock screen.
pub proof fn lemma_lock_confirmed(s: EwmView)
    ensures
        ({
            let t = s.lock_complete();
            let drawn = forall|i: int|
                0 <= i < s.output_state.len() ==> (#[trigger] s.output_state[i]).state.lock_render_state
                    is Locked;
            &&& drawn ==> (s.lock_state matches LockState::Locking(locker) ==> t == (EwmView {
                lock_state: LockState::Locked(locker),
                actions: s.actions.push(ActionView::ConfirmLock { locker }),
                ..s
            }))
            &&& s.lock_state !is Locking || !drawn ==> t == s
        }),
{
    let drawn = forall|i: int|
        0 <= i < s.output_state.len() ==> (#[trigger] s.output_state[i]).state.lock_render_state
            is Locked;
    if drawn {
        assert(s.all_locked());
    } else {
        let i = choose|i: int|
            0 <= i < s.output_state.len() && !((
            #[trigger] s.output_state[i]).state.lock_render_state is Locked);
        assert(s.output_state[i].state.lock_render_state != LockRenderState::Locked);
    }
}

/// Lifting the lock shows the session again: no output has a lock screen, all
/// are asked to draw, and the focus is where it was, without a word to Emacs. A
/// client that is still waiting for its lock is told that it does not get it.
pub proof fn lemma_lock_lifted(s: EwmView)
    ensures
        ({
            let t = s.unlocked();
            &&& t.lock_state is Unlocked
            &&& t.pre_lock_focus is None
            &&& asked_anew(s.output_state, t.output_state, false)
            &&& t.module.events == s.module.events
            &&& match s.lock_state {
                LockState::Locking(locker) => t.actions == s.actions.push(
                    ActionView::DropLock { locker },
                ),
                _ => t.actions == s.actions,
            }
            &&& if s.pre_lock_focus is Some && s.id_windows.contains_key(s.pre_lock_focus->0) {
                &&& t.focused_surface_id == s.pre_lock_focus->0
                &&& t.module.focused_id == s.pre_lock_focus->0
                &&& t.keyboard_focus_dirty
            } else {
                &&& t.focused_surface_id == s.focused_surface_id
                &&& t.module == s.module
                &&& t.keyboard_focus_dirty == s.keyboard_focus_dirty
            }
            &&& t.id_windows == s.id_windows && t.space == s.space && t.surface_views
                == s.surface_views && t.surface_info == s.surface_info && t.keyboard_focus
                == s.keyboard_focus
        }),
{
}

/// A lock that is lifted at once leaves the focus and what is shown as they were.
pub proof fn lemma_lock_and_unlock(s: EwmView, locker: u64, holder_alive: bool)
    requires
        s.lock_state is Unlocked,
        s.focused_surface_id == 0 ==> s.pre_lock_focus is None,
    ensures
        ({
            let t = s.lock_requested(locker, holder_alive).unlocked();
            &&& t.lock_state is Unlocked
            &&& t.focused_surface_id == s.focused_surface_id
            &&& t.module.events == s.module.events
            &&& t.space == s.space
            &&& t.surface_views == s.surface_views
        }),
{
}

/// A lock that is under way is given up where drawing fails: the client is told,
/// and the session is shown again. A lock that is held stays, and no lock stays
/// none.
pub proof fn lemma_lock_given_up(s: EwmView)
    ensures
        s.lock_state !is Locking ==> s.lock_aborted() == s,
        s.lock_state matches LockState::Locking(locker) ==> {
            let t = s.lock_aborted();
            &&& t.lock_state is Unlocked
            &&& t.actions == s.actions.push(ActionView::DropLock { locker })
            &&& asked_anew(s.output_state, t.output_state, false)
            &&& t == (EwmView {
                lock_state: t.lock_state,
                actions: t.actions,
                output_state: t.output_state,
                ..s
            })
        },
{
}

/// A frame of an output that was drawn while a lock is under way counts for it:
/// that output has drawn its lock screen, the others stand where they stood, and
/// the lock is confirmed with the last of them. Where the frame failed the lock
/// is given up.
pub proof fn lemma_frames_of_a_locked_session(
    s: EwmView,
    output: OutputHandle,
    outcome: RenderOutcome,
    k: int,
)
    requires
        s.wf(),
        0 <= k < s.output_state.len(),
        s.output_state[k].output == output,
    ensures
        ({
            let t = s.lock_frame(output, outcome);
            let failed = outcome is Failed || outcome is QueueFailed;
            let last = forall|i: int|
                0 <= i < s.output_state.len() && i != k ==> (
                #[trigger] s.output_state[i]).state.lock_render_state is Locked;
            &&& s.lock_state is Unlocked ==> t == s
            &&& failed && s.lock_state is Locked ==> t == s
            &&& failed && s.lock_state is Locking ==> t.lock_state is Unlocked
            &&& !failed && s.lock_state !is Unlocked ==> {
                &&& t.output_state.len() == s.output_state.len()
                &&& t.output_state[k] == (OutputEntry {
                    output,
                    state: OutputState {
                        lock_render_state: LockRenderState::Locked,
                        ..s.output_state[k].state
                    },
                })
                &&& forall|i: int|
                    0 <= i < s.output_state.len() && i != k ==> #[trigger] t.output_state[i]
                        == s.output_state[i]
            }
            &&& !failed && s.lock_state is Locking && !last ==> t.lock_state == s.lock_state
                && t.actions == s.actions
            &&& !failed && last ==> (s.lock_state matches LockState::Locking(locker)
                ==> t.lock_state == LockState::Locked(locker) && t.actions == s.actions.push(
                ActionView::ConfirmLock { locker },
            ))
        }),
{
    lemma_state_of_an_output(s.output_state, output);
    let state = s.state_of(output)->0;
    assert forall|i: int| 0 <= i < s.output_state.len() && i != k implies (
    #[trigger] s.output_state[i]).output != output by {
        if i < k {
            assert(s.output_state[i].output != s.output_state[k].output);
        } else {
            assert(s.output_state[k].output != s.output_state[i].output);
        }
    }
    assert(state == s.output_state[k].state);
    let drawn = s.set_output_state(
        output,
        OutputState { lock_render_state: LockRenderState::Locked, ..state },
    );
    assert forall|i: int| 0 <= i < s.output_state.len() && i != k implies
        #[trigger] drawn.output_state[i] == s.output_state[i] by {
        assert(s.output_state[i].output != output);
    }
    let last = forall|i: int|
        0 <= i < s.output_state.len() && i != k ==> (
        #[trigger] s.output_state[i]).state.lock_render_state is Locked;
    if last {
        assert forall|i: int| 0 <= i < drawn.output_state.len() implies (
        #[trigger] drawn.output_state[i]).state.lock_render_state is Locked by {
            if i != k {
                assert(s.output_state[i].state.lock_render_state is Locked);
            }
        }
    } else {
        let i = choose|i: int|
            0 <= i < s.output_state.len() && i != k && !((
            #[trigger] s.output_state[i]).state.lock_render_state is Locked);
        assert(drawn.output_state[i] == s.output_state[i]);
    }
    lemma_lock_confirmed(drawn);
}

/// A lock surface covers its output: a quarter turn swaps the sides of the mode.
pub proof fn lemma_lock_surface_covers(s: EwmView, output: OutputHandle, size: Size)
    ensures
        match first_output(s.space.outputs, |o: OutputView| o.handle == output) {
            Some(o) => {
                let quarter = o.transform == Transform::Rotated90 || o.transform == Transform::Rotated270
                    || o.transform == Transform::Flipped90 || o.transform
                    == Transform::Flipped270;
                s.lock_surface_size(output, size) == (if quarter {
                    Size { w: o.mode.h, h: o.mode.w }
                } else {
                    Size { w: o.mode.w, h: o.mode.h }
                })
            },
            None => s.lock_surface_size(output, size) == size,
        },
{
}

/// A new lock surface is told its scale and then its size, in that order; it is
/// the one of its output from then on, and that output is asked to draw.
pub proof fn lemma_lock_surface_is_shown(
    s: EwmView,
    surface: u64,
    output: OutputHandle,
    size: Size,
    i: int,
)
    requires
        s.wf(),
        0 <= i < s.output_state.len(),
        size.w >= 0,
        size.h >= 0,
    ensures
        ({
            let t = s.lock_surface_created(surface, output, size);
            let before = s.output_state[i];
            let after = t.output_state[i];
            &&& t.output_state.len() == s.output_state.len()
            &&& t.actions.len() == s.actions.len() + 2
            &&& t.actions[s.actions.len() as int] == (ActionView::SendScale { surface, output })
            &&& t.actions.last() matches ActionView::ConfigureLockSurface { surface: told, w, h }
                && told == surface && w == size.w && h == size.h
            &&& if before.output == output {
                &&& after.output == output
                &&& after.state.lock_surface == Some(surface)
                &&& asked_to_draw(before.state.redraw_state, after.state.redraw_state)
                &&& after.state.lock_render_state == before.state.lock_render_state
                &&& after.state.lock_background == before.state.lock_background
            } else {
                after == before
            }
            &&& t.lock_state == s.lock_state
        }),
{
    lemma_state_of_an_output(s.output_state, output);
    if s.output_state[i].output == output {
        let state = s.state_of(output)->0;
        let k = choose|k: int|
            0 <= k < s.output_state.len() && (#[trigger] s.output_state[k]).output == output
                && s.output_state[k].state == state && forall|j: int|
                0 <= j < k ==> (#[trigger] s.output_state[j]).output != output;
        if k < i {
            assert(s.output_state[k].output != s.output_state[i].output);
        }
        assert(k == i);
    }
}

/// While the session is locked a key reaches nothing but the lock screen: one
/// that asks for a terminal does that, and any other goes to the surface that
/// shows the lock. Emacs hears nothing, and the focus stays.
pub proof fn lemma_keys_of_a_locked_session(
    s: EwmView,
    ev: KeyEvent,
    layout: usize,
    t: EwmView,
    action: KeyboardAction,
)
    requires
        s.lock_state !is Unlocked,
        s.key_handled(ev, layout, t, action),
    ensures
        ({
            let terminal = ev.pressed && 0x1008fe01 <= ev.modified <= 0x1008fe0c;
            let told = s.actions.push(ActionView::NotifyActivity);
            &&& action == (if terminal {
                KeyboardAction::ChangeVt((ev.modified - 0x1008fe00) as i32)
            } else {
                KeyboardAction::Forward
            })
            &&& t.actions == (if !terminal && s.lock_focus() is Some {
                told.push(ActionView::SetKeyboardFocus { surface: s.lock_focus() })
            } else {
                told
            })
            &&& t == (EwmView { actions: t.actions, ..s })
        }),
{
}

proof fn lemma_entry_named(
    entries: Seq<OutputEntry>,
    outputs: Seq<OutputView>,
    name: Seq<char>,
    i: int,
)
    requires
        0 <= i < entries.len(),
        is_named(outputs, entries[i].output, name),
        forall|j: int|
            0 <= j < i ==> !is_named(outputs, (#[trigger] entries[j]).output, name),
    ensures
        entry_named(entries, outputs, name) == Some(entries[i].output),
    decreases entries.len(),
{
    if i > 0 {
        let rest = entries.drop_first();
        assert(!is_named(outputs, entries[0].output, name));
        assert(rest[i - 1] == entries[i]);
        assert forall|j: int| 0 <= j < i - 1 implies !is_named(
            outputs,
            (#[trigger] rest[j]).output,
            name,
        ) by {
            assert(rest[j] == entries[j + 1]);
        }
        lemma_entry_named(rest, outputs, name, i - 1);
    }
}

proof fn lemma_no_entry_named(
    entries: Seq<OutputEntry>,
    outputs: Seq<OutputView>,
    name: Seq<char>,
)
    requires
        forall|j: int|
            0 <= j < entries.len() ==> !is_named(outputs, (#[trigger] entries[j]).output, name),
    ensures
        entry_named(entries, outputs, name) is None,
    decreases entries.len(),
{
    if entries.len() > 0 {
        let rest = entries.drop_first();
        assert(!is_named(outputs, entries[0].output, name));
        assert forall|j: int| 0 <= j < rest.len() implies !is_named(
            outputs,
            (#[trigger] rest[j]).output,
            name,
        ) by {
            assert(rest[j] == entries[j + 1]);
        }
        lemma_no_entry_named(rest, outputs, name);
    }
}

/// Whether entry `i` is that of the output under the pointer.
pub open spec fn under_pointer(s: EwmView, i: int) -> bool {
    s.output_under_cursor() is Some && is_named(
        s.space.outputs,
        s.output_state[i].output,
        s.output_under_cursor()->0,
    )
}

/// The input of a locked session goes to the lock surface of the output that
/// the pointer is on.
pub proof fn lemma_lock_focus_under_pointer(s: EwmView, i: int)
    requires
        s.outputs_wf(),
        0 <= i < s.output_state.len(),
        under_pointer(s, i),
        forall|j: int| 0 <= j < i ==> !#[trigger] under_pointer(s, j),
    ensures
        s.lock_focus() == s.output_state[i].state.lock_surface,
{
    let name = s.output_under_cursor()->0;
    assert forall|j: int| 0 <= j < i implies !is_named(
        s.space.outputs,
        (#[trigger] s.output_state[j]).output,
        name,
    ) by {
        assert(!under_pointer(s, j));
    }
    lemma_entry_named(s.output_state, s.space.outputs, name, i);
    lemma_state_at(s.output_state, i);
}

/// Where the pointer is on no output that is drawn, it goes to the lock surface
/// of the first.
pub proof fn lemma_lock_focus_elsewhere(s: EwmView)
    requires
        s.outputs_wf(),
        forall|j: int| 0 <= j < s.output_state.len() ==> !#[trigger] under_pointer(s, j),
    ensures
        s.output_state.len() > 0 ==> s.lock_focus() == s.output_state[0].state.lock_surface,
        s.output_state.len() == 0 ==> s.lock_focus() is None,
{
    if let Some(name) = s.output_under_cursor() {
        assert forall|j: int| 0 <= j < s.output_state.len() implies !is_named(
            s.space.outputs,
            (#[trigger] s.output_state[j]).output,
            name,
        ) by {
            assert(!under_pointer(s, j));
        }
        lemma_no_entry_named(s.output_state, s.space.outputs, name);
    }
    if s.output_state.len() > 0 {
        lemma_state_at(s.output_state, 0);
    }
}

} // verus!
