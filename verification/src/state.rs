//! The compositor with its backend, and one turn of its loop.
use vstd::prelude::*;

use crate::action::ActionView;
use crate::backend::{Backend, BackendView};
use crate::commands::{awaits_display, batch_len, last_awaits_display, lemma_batch};
use crate::ewm::{Ewm, EwmView};
use crate::im_relay::ImEvent;
use crate::module::{ModuleCommand, ModuleView};

verus! {

/// The compositor with its backend.
#[derive(Debug)]
pub struct State {
    pub backend: Backend,
    pub ewm: Ewm,
}

impl EwmView {
    /// Buffers of the listed surfaces to be imported.
    pub open spec fn import_all(self, surfaces: Seq<u64>) -> EwmView
        decreases surfaces.len(),
    {
        if surfaces.len() == 0 {
            self
        } else {
            self.import_all(surfaces.drop_last()).act(
                ActionView::EarlyImport { surface: surfaces.last() },
            )
        }
    }

    /// The event loop told to stop, where Emacs asked for it.
    pub open spec fn check_stop(self) -> EwmView {
        if self.module.stop_requested && self.stop_signal {
            self.act(ActionView::StopLoop)
        } else {
            self
        }
    }

    /// A batch of the commands of Emacs taken off the queue and carried out.
    pub open spec fn take_commands(self) -> EwmView {
        let n = batch_len(self.module.commands) as int;
        EwmView {
            module: ModuleView { commands: self.module.commands.skip(n), ..self.module },
            ..self
        }.run_commands(self.module.commands.take(n))
    }

    /// The pending imports taken up.
    pub open spec fn take_imports(self, imports: bool) -> EwmView {
        let s = EwmView { pending_early_imports: Seq::empty(), ..self };
        if imports {
            s.import_all(self.pending_early_imports)
        } else {
            s
        }
    }
}

/// The compositor and its backend after what follows the commands of Emacs in a
/// turn of the loop: the keyboard focus, pending imports, queued redraws, and the
/// input method's events, in this order.
pub open spec fn concluded(
    b: BackendView,
    e: EwmView,
    im_events: Seq<ImEvent>,
) -> (BackendView, EwmView) {
    let t = b.redraw(e.sync_keyboard_focus().take_imports(b.imports()));
    (t.0, t.1.im_events(im_events))
}

/// The compositor and its backend after a batch of the commands of Emacs, and
/// whether the turn of the loop is at its end. Where the display side has to act
/// on the last command, it is not: the rest comes when the turn is resumed.
/// Otherwise all commands are carried out, and the turn is concluded.
pub open spec fn resumed(
    b: BackendView,
    e: EwmView,
    im_events: Seq<ImEvent>,
) -> (BackendView, EwmView, bool) {
    let s = e.take_commands();
    if awaits_display(e.module.commands) {
        (b, s, false)
    } else {
        let t = concluded(b, s, im_events);
        (t.0, t.1, true)
    }
}

/// The compositor and its backend after a turn of the loop has begun, with a
/// request to stop, and went on as far as it could.
pub open spec fn turn(
    b: BackendView,
    e: EwmView,
    im_events: Seq<ImEvent>,
) -> (BackendView, EwmView, bool) {
    resumed(b, e.check_stop(), im_events)
}

impl State {
    /// Carries out a command of Emacs.
    pub fn handle_module_command(&mut self, cmd: ModuleCommand)
        ensures
            final(self).backend@ == old(self).backend@,
            final(self).ewm@ == old(self).ewm@.run_command(cmd),
    {
        self.ewm.handle_module_command(cmd);
    }

    /// Brings the keyboard focus in step with the focus.
    pub fn sync_keyboard_focus(&mut self)
        ensures
            final(self).backend@ == old(self).backend@,
            final(self).ewm@ == old(self).ewm@.sync_keyboard_focus(),
    {
        self.ewm.sync_keyboard_focus();
    }

    fn import_pending(&mut self)
        ensures
            final(self).backend@ == old(self).backend@,
            final(self).ewm@ == old(self).ewm@.take_imports(old(self).backend@.imports()),
    {
        let pending: Vec<u64> = self.ewm.take_early_imports();
        let ghost start = self.ewm@;
        let mut i: usize = 0;
        proof {
            assert(pending@.take(0) =~= Seq::<u64>::empty());
        }
        while i < pending.len()
            invariant
                i <= pending@.len(),
                self.backend@ == old(self).backend@,
                self.ewm@ == (if old(self).backend@.imports() {
                    start.import_all(pending@.take(i as int))
                } else {
                    start
                }),
            decreases pending@.len() - i,
        {
            proof {
                assert(pending@.take(i + 1).drop_last() =~= pending@.take(i as int));
                assert(pending@.take(i + 1).last() == pending@[i as int]);
            }
            self.backend.early_import(&mut self.ewm, pending[i]);
            i += 1;
        }
        proof {
            assert(pending@.take(i as int) =~= pending@);
        }
    }

    /// One turn of the loop. `im_events` are the events of the input method
    /// relay since the last turn. The result says whether the turn is at its
    /// end; where it is not, it goes on with `resume_turn` once the actions so
    /// far are performed.
    pub fn refresh_and_flush_clients(&mut self, im_events: &Vec<ImEvent>) -> (done: bool)
        requires
            old(self).backend@.can_redraw(1),
        ensures
            (final(self).backend@, final(self).ewm@, done) == turn(
                old(self).backend@,
                old(self).ewm@,
                im_events@,
            ),
    {
        if self.ewm.module.stop_requested {
            self.ewm.stop();
        }
        self.resume_turn(im_events)
    }

    /// Goes on with a turn of the loop; the result says whether it is at its
    /// end.
    pub fn resume_turn(&mut self, im_events: &Vec<ImEvent>) -> (done: bool)
        requires
            old(self).backend@.can_redraw(1),
        ensures
            (final(self).backend@, final(self).ewm@, done) == resumed(
                old(self).backend@,
                old(self).ewm@,
                im_events@,
            ),
    {
        proof {
            lemma_batch(self.ewm@.module.commands);
        }
        let commands: Vec<ModuleCommand> = self.ewm.module.take_batch();
        let waits: bool = last_awaits_display(&commands);
        self.run_all(commands);
        if waits {
            return false;
        }
        self.ewm.sync_keyboard_focus();
        self.import_pending();
        self.backend.redraw_queued_outputs(&mut self.ewm);
        self.ewm.process_im_events(im_events);
        true
    }

    fn run_all(&mut self, commands: Vec<ModuleCommand>)
        ensures
            final(self).backend@ == old(self).backend@,
            final(self).ewm@ == old(self).ewm@.run_commands(commands@),
    {
        let ghost all = commands@;
        let mut rest: Vec<ModuleCommand> = commands;
        let ghost mut done: int = 0;
        proof {
            assert(all.take(0) =~= Seq::<ModuleCommand>::empty());
            assert(all.skip(0) =~= all);
        }
        while rest.len() > 0
            invariant
                0 <= done <= all.len(),
                rest@ == all.skip(done),
                self.backend@ == old(self).backend@,
                self.ewm@ == old(self).ewm@.run_commands(all.take(done)),
            decreases rest@.len(),
        {
            proof {
                assert(all.take(done + 1).drop_last() =~= all.take(done));
                assert(all.take(done + 1).last() == all[done]);
                assert(all.skip(done)[0] == all[done]);
            }
            let cmd: ModuleCommand = rest.remove(0);
            proof {
                assert(rest@ =~= all.skip(done + 1));
                done = done + 1;
            }
            self.ewm.handle_module_command(cmd);
        }
        proof {
            assert(done == all.len()) by {
                assert(all.skip(done).len() == 0);
            }
            assert(all.take(done) =~= all);
        }
    }
}

} // verus!
