//! The session lock: requested by a client, confirmed once every output shows
//! the lock screen, and lifted again.
use vstd::prelude::*;

use crate::action::{Action, ActionView};
use crate::ewm::{Ewm, EwmView, OutputEntry};
use crate::geometry::Size;
use crate::output::{LockRenderState, LockState, OutputState};
use crate::space::{Output, OutputHandle, OutputView};
use crate::text::same_text;

verus! {

impl EwmView {
    /// Whether the session is locked or about to be.
    pub open spec fn is_locked_spec(self) -> bool {
        self.lock_state !is Unlocked
    }

    /// Whether every output has drawn the lock screen.
    pub open spec fn all_locked(self) -> bool {
        forall|i: int|
            0 <= i < self.output_state.len() ==> (
            #[trigger] self.output_state[i]).state.lock_render_state == LockRenderState::Locked
    }

    /// The lock confirmed, where all outputs have drawn the lock screen.
    pub open spec fn lock_complete(self) -> EwmView {
        match self.lock_state {
            LockState::Locking(locker) if self.all_locked() => EwmView {
                lock_state: LockState::Locked(locker),
                ..self
            }.act(ActionView::ConfirmLock { locker }),
            _ => self,
        }
    }

    /// Whether a request for a lock is taken up: the session is not locked,
    /// or the client that locked it is gone.
    pub open spec fn lock_accepted(self, holder_alive: bool) -> bool {
        match self.lock_state {
            LockState::Unlocked => true,
            LockState::Locked(_) => !holder_alive,
            LockState::Locking(_) => false,
        }
    }

    /// No output counted as having drawn the lock screen.
    pub open spec fn reset_lock_renders(self) -> EwmView {
        EwmView {
            output_state: self.output_state.map_values(
                |e: OutputEntry|
                    OutputEntry {
                        state: OutputState {
                            lock_render_state: LockRenderState::Unlocked,
                            ..e.state
                        },
                        ..e
                    },
            ),
            ..self
        }
    }

    /// No output with a lock screen.
    pub open spec fn clear_locks(self) -> EwmView {
        EwmView {
            output_state: self.output_state.map_values(
                |e: OutputEntry| OutputEntry { state: e.state.unlocked(), ..e },
            ),
            ..self
        }
    }

    /// The focus remembered for the time after the lock.
    pub open spec fn remember_focus(self) -> EwmView {
        if self.focused_surface_id != 0 {
            EwmView { pre_lock_focus: Some(self.focused_surface_id), ..self }
        } else {
            self
        }
    }

    /// The state after a request for a lock.
    pub open spec fn lock_requested(self, locker: u64, holder_alive: bool) -> EwmView {
        if !self.lock_accepted(holder_alive) {
            self.act(ActionView::DropLock { locker })
        } else if self.output_state.len() == 0 {
            EwmView { lock_state: LockState::Locked(locker), ..self.remember_focus() }.act(
                ActionView::ConfirmLock { locker },
            )
        } else {
            EwmView {
                lock_state: LockState::Locking(locker),
                ..self.remember_focus()
            }.reset_lock_renders().queue_redraw_all()
        }
    }

    /// The focus that was remembered restored, where its surface still exists.
    pub open spec fn restore_focus_spec(self) -> EwmView {
        let s = EwmView { pre_lock_focus: None, ..self };
        match self.pre_lock_focus {
            Some(id) if self.id_windows.contains_key(id) => s.focus_from(
                id,
                false,
                "unlock"@, None,
            ),
            _ => s,
        }
    }

    /// A request for a lock that is still under way dropped.
    pub open spec fn drop_pending_lock(self) -> EwmView {
        match self.lock_state {
            LockState::Locking(locker) => self.act(ActionView::DropLock { locker }),
            _ => self,
        }
    }

    /// The state after the lock is lifted.
    pub open spec fn unlocked(self) -> EwmView {
        EwmView {
            lock_state: LockState::Unlocked,
            ..self.drop_pending_lock()
        }.clear_locks().restore_focus_spec().queue_redraw_all()
    }

    /// The size of a lock surface: the whole output. One that is not mapped has
    /// the size `size`.
    pub open spec fn lock_surface_size(self, output: OutputHandle, size: Size) -> Size {
        match self.space.output(output) {
            Some(o) => o.transform.transform_size_spec(o.mode),
            None => size,
        }
    }

    /// The state after a client created a lock surface of this size for an
    /// output.
    pub open spec fn lock_surface_created(
        self,
        surface: u64,
        output: OutputHandle,
        size: Size,
    ) -> EwmView {
        let s = self.act(ActionView::SendScale { surface, output }).act(
            ActionView::ConfigureLockSurface { surface, w: size.w as u32, h: size.h as u32 },
        );
        match self.state_of(output) {
            Some(state) => s.set_output_state(
                output,
                OutputState { lock_surface: Some(surface), ..state },
            ),
            None => s,
        }.queue_redraw(output)
    }

    /// The state after drawing failed while a lock was under way.
    pub open spec fn lock_aborted(self) -> EwmView {
        match self.lock_state {
            LockState::Locking(locker) => EwmView {
                lock_state: LockState::Unlocked,
                ..self
            }.act(ActionView::DropLock { locker }).clear_locks().queue_redraw_all(),
            _ => self,
        }
    }

    /// The handle of the first output with a state whose name is the one of
    /// the output under the pointer.
    pub open spec fn cursor_output(self) -> Option<OutputHandle> {
        match self.output_under_cursor() {
            Some(name) => entry_named(self.output_state, self.space.outputs, name),
            None => None,
        }
    }

    /// The lock surface that gets the input: that of the output under the
    /// pointer, or else of the first.
    pub open spec fn lock_focus(self) -> Option<u64> {
        let target = if self.cursor_output() is Some {
            self.cursor_output()
        } else if self.output_state.len() > 0 {
            Some(self.output_state[0].output)
        } else {
            None
        };
        match target {
            Some(o) => match self.state_of(o) {
                Some(state) => state.lock_surface,
                None => None,
            },
            None => None,
        }
    }
}

/// The handle of the first entry whose output is mapped under this name.
pub open spec fn entry_named(
    entries: Seq<OutputEntry>,
    outputs: Seq<OutputView>,
    name: Seq<char>,
) -> Option<OutputHandle>
    decreases entries.len(),
{
    if entries.len() == 0 {
        None
    } else if is_named(outputs, entries[0].output, name) {
        Some(entries[0].output)
    } else {
        entry_named(entries.drop_first(), outputs, name)
    }
}

/// Whether the mapped output with this handle has this name.
pub open spec fn is_named(outputs: Seq<OutputView>, handle: OutputHandle, name: Seq<char>) -> bool {
    match crate::space::first_output(outputs, |o: OutputView| o.handle == handle) {
        Some(o) => o.name == name,
        None => false,
    }
}

impl Ewm {
    /// Whether the session is locked or about to be.
    pub fn is_locked(&self) -> (r: bool)
        ensures
            r == self@.is_locked_spec(),
    {
        match self.lock_state {
            LockState::Unlocked => false,
            _ => true,
        }
    }

    /// Confirms the lock, where all outputs have drawn the lock screen.
    pub fn check_lock_complete(&mut self)
        ensures
            final(self)@ == old(self)@.lock_complete(),
    {
        match self.lock_state {
            LockState::Locking(locker) => {
                let mut i: usize = 0;
                while i < self.output_state.len()
                    invariant
                        i <= self.output_state@.len(),
                        self@ == old(self)@,
                        forall|j: int|
                            0 <= j < i ==> (
                            #[trigger] self.output_state@[j]).state.lock_render_state
                                == LockRenderState::Locked,
                    decreases self.output_state@.len() - i,
                {
                    if self.output_state[i].state.lock_render_state != LockRenderState::Locked {
                        proof {
                            assert(self@.output_state[i as int].state.lock_render_state
                                != LockRenderState::Locked);
                        }
                        return;
                    }
                    i += 1;
                }
                self.lock_state = LockState::Locked(locker);
                self.act(Action::ConfirmLock { locker });
            },
            _ => {},
        }
    }

    /// Takes up that an output is gone: one that is gone need not draw the
    /// lock screen.
    pub fn check_lock_on_output_removed(&mut self)
        ensures
            final(self)@ == old(self)@.lock_complete(),
    {
        self.check_lock_complete();
    }

    fn map_states(&mut self, clear_surfaces: bool)
        ensures
            final(self)@ == (if clear_surfaces {
                old(self)@.clear_locks()
            } else {
                old(self)@.reset_lock_renders()
            }),
    {
        let ghost before = self.output_state@;
        let ghost goal = if clear_surfaces {
            self@.clear_locks().output_state
        } else {
            self@.reset_lock_renders().output_state
        };
        let mut i: usize = 0;
        while i < self.output_state.len()
            invariant
                i <= before.len(),
                self.output_state@.len() == before.len(),
                goal == (if clear_surfaces {
                    old(self)@.clear_locks().output_state
                } else {
                    old(self)@.reset_lock_renders().output_state
                }),
                before == old(self)@.output_state,
                forall|j: int| 0 <= j < i ==> #[trigger] self.output_state@[j] == goal[j],
                forall|j: int|
                    i <= j < before.len() ==> #[trigger] self.output_state@[j] == before[j],
                self@ == (EwmView { output_state: self.output_state@, ..old(self)@ }),
            decreases before.len() - i,
        {
            let mut e: OutputEntry = self.output_state[i];
            if clear_surfaces {
                e.state.lock_surface = None;
            }
            e.state.lock_render_state = LockRenderState::Unlocked;
            self.output_state[i] = e;
            i += 1;
        }
        proof {
            assert(self.output_state@ =~= goal);
        }
    }

    /// Takes up a request for a lock. It is ignored while a lock is under way
    /// or a living client holds one. Without outputs the lock is confirmed at
    /// once; otherwise once all of them have drawn the lock screen.
    pub fn lock(&mut self, locker: u64, holder_alive: bool)
        ensures
            final(self)@ == old(self)@.lock_requested(locker, holder_alive),
    {
        match self.lock_state {
            LockState::Locked(_) => {
                if holder_alive {
                    self.act(Action::DropLock { locker });
                    return;
                }
            },
            LockState::Locking(_) => {
                self.act(Action::DropLock { locker });
                return;
            },
            LockState::Unlocked => {},
        }
        if self.focused_surface_id != 0 {
            self.pre_lock_focus = Some(self.focused_surface_id);
        }
        if self.output_state.len() == 0 {
            self.lock_state = LockState::Locked(locker);
            self.act(Action::ConfirmLock { locker });
        } else {
            self.lock_state = LockState::Locking(locker);
            self.map_states(false);
            self.queue_redraw_all();
        }
    }

    /// Lifts the lock, and restores the focus that was there before.
    pub fn unlock(&mut self)
        ensures
            final(self)@ == old(self)@.unlocked(),
    {
        if let LockState::Locking(locker) = self.lock_state {
            self.act(Action::DropLock { locker });
        }
        self.lock_state = LockState::Unlocked;
        self.map_states(true);
        let focus: Option<u32> = self.pre_lock_focus.take();
        if let Some(id) = focus {
            if self.id_windows.contains_key(&id) {
                self.focus_surface_with_source(id, false, "unlock", None);
            }
        }
        self.queue_redraw_all();
    }

    /// Takes up a lock surface for an output. `size` is the mode of the output,
    /// turned as the output is, which counts where the output is not mapped.
    pub fn new_lock_surface(&mut self, surface: u64, output: OutputHandle, size: Size)
        ensures
            final(self)@ == old(self)@.lock_surface_created(
                surface,
                output,
                old(self)@.lock_surface_size(output, size),
            ),
    {
        let size: Size = match self.space.output_index(output) {
            Some(i) => {
                let o: &Output = &self.space.outputs[i];
                o.transform.transform_size(o.mode)
            },
            None => size,
        };
        self.act(Action::SendScale { surface, output });
        self.act(
            Action::ConfigureLockSurface {
                surface,
                w: #[verifier::truncate] (size.w as u32),
                h: #[verifier::truncate] (size.h as u32),
            },
        );
        if let Some(mut state) = self.state_of(output) {
            state.lock_surface = Some(surface);
            self.set_output_state(output, state);
        }
        self.queue_redraw(output);
    }

    /// Notes that an output has drawn the lock screen, and confirms the lock
    /// where it was the last one.
    pub fn lock_frame_rendered(&mut self, output: OutputHandle)
        ensures
            final(self)@ == match old(self)@.state_of(output) {
                Some(state) => old(self)@.set_output_state(
                    output,
                    OutputState { lock_render_state: LockRenderState::Locked, ..state },
                ).lock_complete(),
                None => old(self)@,
            },
    {
        if let Some(mut state) = self.state_of(output) {
            state.lock_render_state = LockRenderState::Locked;
            self.set_output_state(output, state);
            self.check_lock_complete();
        }
    }

    /// Gives up a lock that is under way, after drawing failed.
    pub fn abort_lock_on_render_failure(&mut self)
        ensures
            final(self)@ == old(self)@.lock_aborted(),
    {
        match self.lock_state {
            LockState::Locking(locker) => {
                self.lock_state = LockState::Unlocked;
                self.act(Action::DropLock { locker });
                self.map_states(true);
                self.queue_redraw_all();
            },
            _ => {},
        }
    }

    fn cursor_output(&self) -> (r: Option<OutputHandle>)
        ensures
            r == self@.cursor_output(),
    {
        match self.output_under_cursor() {
            Some(name) => {
                let mut i: usize = 0;
                proof {
                    assert(self.output_state@.skip(0) =~= self.output_state@);
                }
                while i < self.output_state.len()
                    invariant
                        i <= self.output_state@.len(),
                        self@.output_under_cursor() == Some(name@),
                        entry_named(self.output_state@, self@.space.outputs, name@) == entry_named(
                            self.output_state@.skip(i as int),
                            self@.space.outputs,
                            name@,
                        ),
                    decreases self.output_state@.len() - i,
                {
                    proof {
                        assert(self.output_state@.skip(i as int).drop_first()
                            =~= self.output_state@.skip(i + 1));
                    }
                    let handle: OutputHandle = self.output_state[i].output;
                    let here: bool = match self.space.output_index(handle) {
                        Some(k) => same_text(self.space.outputs[k].name.as_str(), name.as_str()),
                        None => false,
                    };
                    if here {
                        return Some(handle);
                    }
                    i += 1;
                }
                None
            },
            None => None,
        }
    }

    /// The lock surface that gets the input.
    pub fn lock_surface_focus(&self) -> (r: Option<u64>)
        ensures
            r == self@.lock_focus(),
    {
        let target: Option<OutputHandle> = match self.cursor_output() {
            Some(o) => Some(o),
            None => if self.output_state.len() > 0 {
                Some(self.output_state[0].output)
            } else {
                None
            },
        };
        match target {
            Some(o) => match self.state_of(o) {
                Some(state) => state.lock_surface,
                None => None,
            },
            None => None,
        }
    }
}

// ---------------------------------------------------------------------------
// Laws
// ---------------------------------------------------------------------------
/// A lock is confirmed only when every output has drawn the lock screen.
pub proof fn lemma_lock_needs_every_output(s: EwmView)
    requires
        s.lock_state is Locking,
    ensures
        s.lock_complete().lock_state is Locked <==> s.all_locked(),
        !s.all_locked() ==> s.lock_complete() == s,
{
}

/// A request for a lock never confirms it while there are outputs: none of
/// them counts as having drawn the lock screen, and each is to be redrawn.
pub proof fn lemma_lock_request_waits(s: EwmView, locker: u64, holder_alive: bool)
    requires
        s.lock_accepted(holder_alive),
        s.output_state.len() > 0,
    ensures
        ({
            let t = s.lock_requested(locker, holder_alive);
            &&& t.lock_state == LockState::Locking(locker)
            &&& t.actions == s.actions
            &&& t.output_state.len() == s.output_state.len()
            &&& forall|i: int|
                0 <= i < t.output_state.len() ==> {
                    &&& (#[trigger] t.output_state[i]).state.lock_render_state
                        == LockRenderState::Unlocked
                    &&& t.output_state[i].state.redraw_state.wants_redraw()
                }
        }),
{
    let t = s.lock_requested(locker, holder_alive);
    assert forall|i: int| 0 <= i < t.output_state.len() implies {
        &&& (#[trigger] t.output_state[i]).state.lock_render_state == LockRenderState::Unlocked
        &&& t.output_state[i].state.redraw_state.wants_redraw()
    } by {
        crate::redraw::lemma_request_is_kept(s.output_state[i].state.redraw_state);
    }
}

/// While a living client holds the lock, or a lock is under way, another
/// request is refused: its client is told that it failed, and nothing else
/// changes.
pub proof fn lemma_lock_held_is_kept(s: EwmView, locker: u64)
    requires
        s.is_locked_spec(),
    ensures
        s.lock_requested(locker, true) == s.act(ActionView::DropLock { locker }),
{
}

/// After the lock is lifted no output has a lock screen, and the focus is the
/// one from before the lock, where that surface still exists.
pub proof fn lemma_unlock(s: EwmView)
    ensures
        ({
            let t = s.unlocked();
            &&& !t.is_locked_spec()
            &&& t.pre_lock_focus is None
            &&& forall|i: int|
                0 <= i < t.output_state.len() ==> {
                    &&& (#[trigger] t.output_state[i]).state.lock_surface is None
                    &&& t.output_state[i].state.lock_render_state == LockRenderState::Unlocked
                    &&& t.output_state[i].state.redraw_state.wants_redraw()
                }
            &&& (s.pre_lock_focus is Some && s.id_windows.contains_key(s.pre_lock_focus->0))
                ==> t.focused_surface_id == s.pre_lock_focus->0
            &&& (s.pre_lock_focus is None || !s.id_windows.contains_key(s.pre_lock_focus->0))
                ==> t.focused_surface_id == s.focused_surface_id
        }),
{
    let t = s.unlocked();
    assert forall|i: int| 0 <= i < t.output_state.len() implies {
        &&& (#[trigger] t.output_state[i]).state.lock_surface is None
        &&& t.output_state[i].state.lock_render_state == LockRenderState::Unlocked
        &&& t.output_state[i].state.redraw_state.wants_redraw()
    } by {
        crate::redraw::lemma_request_is_kept(s.output_state[i].state.redraw_state);
    }
}

/// Locking and then unlocking restores the focus, as long as the focused
/// surface exists and nothing else moved the focus.
pub proof fn lemma_lock_then_unlock_restores_focus(s: EwmView, locker: u64)
    requires
        s.lock_state is Unlocked,
        s.id_windows.contains_key(s.focused_surface_id),
        s.focused_surface_id != 0,
    ensures
        s.lock_requested(locker, true).unlocked().focused_surface_id == s.focused_surface_id,
        s.lock_requested(locker, true).is_locked_spec(),
{
}

/// An aborted lock leaves the session unlocked.
pub proof fn lemma_abort(s: EwmView)
    requires
        s.lock_state is Locking,
    ensures
        !s.lock_aborted().is_locked_spec(),
{
}

/// A drawing failure does not lift a confirmed lock.
pub proof fn lemma_abort_keeps_confirmed_lock(s: EwmView)
    requires
        s.lock_state is Locked,
    ensures
        s.lock_aborted() == s,
{
}

} // verus!
