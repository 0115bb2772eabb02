//! A compositor with the headless backend, for tests.
use vstd::prelude::*;

use crate::backend::headless::{
    lemma_counts_stay, lemma_names_stay_unique, lemma_queued_unique, lemma_render_names,
    queued_names, render_names, virtual_named, without_name, HeadlessBackend, VirtualOutputView,
};
use crate::backend::{Backend, BackendView};
use crate::ewm::{Ewm, EwmView};
use crate::geometry::Size;
use crate::module::{ModuleCommand, ModuleView};
use crate::outputs::Measured;
use crate::space::OutputHandle;
use crate::state::State;
use crate::testing::client::{
    client_index, ClientId, ClientManager, TestClient, TestSurface,
};

verus! {

/// A compositor with virtual outputs and simulated clients.
#[derive(Debug)]
pub struct Fixture {
    pub state: State,
    pub clients: ClientManager,
    /// The handle of the next output.
    pub next_output: OutputHandle,
}

impl EwmView {
    /// The state after a command, as far as tests send any; others are
    /// ignored. Views are applied even where they did not change.
    pub open spec fn run_test_command(self, cmd: ModuleCommand) -> EwmView {
        match cmd {
            ModuleCommand::Layout { id, x, y, w, h } => self.layout(id, x, y, w, h),
            ModuleCommand::Focus { id } => self.focus_existing(id, "test"@, None),
            ModuleCommand::Views { id, views: list } => self.apply_views(id, list@),
            ModuleCommand::Hide { id } => self.hide_surface(id),
            ModuleCommand::Close { id } => self.close_surface(id),
            _ => self,
        }
    }

    /// The state after several commands.
    pub open spec fn run_test_commands(self, cmds: Seq<ModuleCommand>) -> EwmView
        decreases cmds.len(),
    {
        if cmds.len() == 0 {
            self
        } else {
            self.run_test_commands(cmds.drop_last()).run_test_command(cmds.last())
        }
    }
}

/// The backend and the state after one turn of the fixture's loop: commands,
/// keyboard focus, and redraws.
pub open spec fn test_turn(s: (BackendView, EwmView)) -> (BackendView, EwmView) {
    let e = EwmView {
        module: ModuleView { commands: Seq::empty(), ..s.1.module },
        ..s.1
    }.run_test_commands(s.1.module.commands).sync_keyboard_focus();
    s.0.redraw(e)
}

/// The backend and the state after several turns.
pub open spec fn test_turns(s: (BackendView, EwmView), n: nat) -> (BackendView, EwmView)
    decreases n,
{
    if n == 0 {
        s
    } else {
        test_turn(test_turns(s, (n - 1) as nat))
    }
}

/// A redraw counts at most one frame of every virtual output.
proof fn lemma_redraw_counts(b: BackendView, ewm: EwmView, n: int)
    requires
        b.can_redraw(n + 1),
        n >= 0,
    ensures
        b.redraw(ewm).0.can_redraw(n),
{
    if let BackendView::Headless(v) = b {
        let names = queued_names(v, ewm);
        assert forall|i: int| 0 <= i < v.len() implies (#[trigger] v[i]).render_count + 1
            <= usize::MAX by {
        }
        lemma_queued_unique(v, ewm);
        lemma_render_names((v, ewm), names);
        let t = render_names((v, ewm), names).0;
        assert forall|i: int| 0 <= i < t.len() implies (#[trigger] t[i]).render_count + n
            <= usize::MAX by {
            assert(v[i].render_count + (n + 1) <= usize::MAX);
        }
        assert forall|i: int, j: int| 0 <= i < j < t.len() implies (#[trigger] t[i]).name != (
        #[trigger] t[j]).name by {
            assert(v[i].name != v[j].name);
        }
    }
}

/// A virtual output without frames that is added, or one that is removed,
/// leaves room for as many frames as before.
proof fn lemma_can_redraw_stays(v: Seq<VirtualOutputView>, o: VirtualOutputView, n: int)
    requires
        o.render_count == 0,
        0 <= n <= usize::MAX,
        BackendView::Headless(v).can_redraw(n),
    ensures
        BackendView::Headless(without_name(v, o.name)).can_redraw(n),
        BackendView::Headless(without_name(v, o.name).push(o)).can_redraw(n),
{
    lemma_names_stay_unique(v, o);
    lemma_counts_stay(v, o, n);
}

impl Fixture {
    /// A compositor without outputs and clients.
    pub fn new() -> (r: Result<Fixture, String>)
        ensures
            r matches Ok(f) && f.state.backend@ == BackendView::Headless(
                Seq::<VirtualOutputView>::empty(),
            ) && f.state.ewm@ == EwmView::initial() && f.clients.clients@
                == Seq::<TestClient>::empty() && f.clients.next_client_id == 0 && f.next_output
                == 1,
    {
        let state: State = State {
            backend: Backend::Headless(HeadlessBackend::new()),
            ewm: Ewm::new(),
        };
        Ok(Fixture { state, clients: ClientManager::new(), next_output: 1 })
    }

    /// Adds a client.
    pub fn add_client(&mut self) -> (r: ClientId)
        requires
            old(self).clients.next_client_id < usize::MAX,
        ensures
            r == ClientId(old(self).clients.next_client_id),
            final(self).state == old(self).state,
            final(self).clients.clients@.len() == old(self).clients.clients@.len() + 1,
            final(self).clients.clients@.drop_last() == old(self).clients.clients@,
            final(self).clients.clients@.last().id == r,
            final(self).clients.clients@.last().surfaces@ == Seq::<TestSurface>::empty(),
            final(self).clients.clients@.last().next_surface_id == 0,
            final(self).clients.next_client_id == old(self).clients.next_client_id + 1,
            final(self).next_output == old(self).next_output,
    {
        self.clients.add_client()
    }

    /// The client with this id.
    pub fn get_client(&self, id: ClientId) -> (r: Option<&TestClient>)
        ensures
            match client_index(self.clients.clients@, id) {
                Some(i) => r == Some(&self.clients.clients@[i]),
                None => r is None,
            },
    {
        self.clients.get_client(id)
    }

    /// The client with this id, for changes.
    pub fn get_client_mut(&mut self, id: ClientId) -> (r: Option<&mut TestClient>)
        ensures
            final(self).state == old(self).state,
            final(self).clients.next_client_id == old(self).clients.next_client_id,
            final(self).next_output == old(self).next_output,
            match client_index(old(self).clients.clients@, id) {
                Some(i) => r matches Some(c) && *c == old(self).clients.clients@[i] && final(
                    self).clients.clients@ == old(self).clients.clients@.update(i, *final(c)),
                None => r is None && *final(self) == *old(self),
            },
    {
        self.clients.get_client_mut(id)
    }

    /// How many clients there are.
    pub fn client_count(&self) -> (r: usize)
        ensures
            r == self.clients.clients@.len(),
    {
        self.clients.clients.len()
    }

    /// Adds a virtual output of this size. `scaled` is its logical size at the
    /// scale that is configured for it, where there is one.
    pub fn add_output(&mut self, name: &str, width: i32, height: i32, scaled: Size)
        requires
            old(self).next_output < u64::MAX,
        ensures
            final(self).clients == old(self).clients,
            forall|n: int|
                0 <= n <= usize::MAX && old(self).state.backend@.can_redraw(n) ==> #[trigger] final(
                    self).state.backend@.can_redraw(n),
            match old(self).state.backend@ {
                BackendView::Headless(v) => {
                    &&& final(self).next_output == old(self).next_output + 1
                    &&& final(self).state.backend@ == BackendView::Headless(
                        without_name(v, name@).push(
                            VirtualOutputView {
                                name: name@,
                                output: old(self).next_output,
                                size: Size { w: width, h: height },
                                render_count: 0,
                            },
                        ),
                    )
                    &&& final(self).state.ewm@ == old(self).state.ewm@.add_virtual(
                        name@,
                        Size { w: width, h: height },
                        old(self).next_output,
                        scaled,
                    )
                },
                BackendView::Drm(_) => *final(self) == *old(self),
            },
    {
        if let Backend::Headless(headless) = &mut self.state.backend {
            let handle: OutputHandle = self.next_output;
            self.next_output = handle + 1;
            headless.add_output(name, width, height, handle, scaled, &mut self.state.ewm);
        }
        proof {
            let o = VirtualOutputView {
                name: name@,
                output: old(self).next_output,
                size: Size { w: width, h: height },
                render_count: 0,
            };
            assert forall|n: int|
                0 <= n <= usize::MAX && old(self).state.backend@.can_redraw(
                    n,
                ) implies #[trigger] self.state.backend@.can_redraw(n) by {
                if let BackendView::Headless(v) = old(self).state.backend@ {
                    lemma_can_redraw_stays(v, o, n);
                }
            }
        }
    }

    /// Removes a virtual output.
    pub fn remove_output(&mut self, name: &str)
        ensures
            final(self).clients == old(self).clients,
            final(self).next_output == old(self).next_output,
            forall|n: int|
                0 <= n <= usize::MAX && old(self).state.backend@.can_redraw(n) ==> #[trigger] final(
                    self).state.backend@.can_redraw(n),
            match old(self).state.backend@ {
                BackendView::Headless(v) => match virtual_named(v, name@) {
                    Some(o) => final(self).state.backend@ == BackendView::Headless(
                        without_name(v, name@),
                    ) && final(self).state.ewm@ == old(self).state.ewm@.remove_virtual(o.output),
                    None => final(self).state.backend@ == old(self).state.backend@ && final(
                        self).state.ewm@ == old(self).state.ewm@,
                },
                BackendView::Drm(_) => *final(self) == *old(self),
            },
    {
        if let Backend::Headless(headless) = &mut self.state.backend {
            headless.remove_output(name, &mut self.state.ewm);
        }
        proof {
            let o = VirtualOutputView {
                name: name@,
                output: 0,
                size: Size { w: 0, h: 0 },
                render_count: 0,
            };
            assert forall|n: int|
                0 <= n <= usize::MAX && old(self).state.backend@.can_redraw(
                    n,
                ) implies #[trigger] self.state.backend@.can_redraw(n) by {
                if let BackendView::Headless(v) = old(self).state.backend@ {
                    lemma_can_redraw_stays(v, o, n);
                }
            }
        }
    }

    /// How many outputs there are.
    pub fn output_count(&self) -> (r: usize)
        ensures
            r == match self.state.backend@ {
                BackendView::Headless(v) => v.len(),
                BackendView::Drm(_) => 0,
            },
    {
        match &self.state.backend {
            Backend::Headless(headless) => headless.outputs.len(),
            Backend::Drm(_) => 0,
        }
    }

    /// How many frames were drawn on an output.
    pub fn render_count(&self, output_name: &str) -> (r: usize)
        ensures
            r == match self.state.backend@ {
                BackendView::Headless(v) => match virtual_named(v, output_name@) {
                    Some(o) => o.render_count,
                    None => 0,
                },
                BackendView::Drm(_) => 0,
            },
    {
        match &self.state.backend {
            Backend::Headless(headless) => headless.render_count(output_name),
            Backend::Drm(_) => 0,
        }
    }

    /// One turn of the loop.
    pub fn dispatch(&mut self)
        requires
            old(self).state.backend@.can_redraw(1),
        ensures
            final(self).clients == old(self).clients,
            final(self).next_output == old(self).next_output,
            forall|n: int|
                0 <= n && old(self).state.backend@.can_redraw(n + 1) ==> #[trigger] final(
                    self).state.backend@.can_redraw(n),
            (final(self).state.backend@, final(self).state.ewm@) == test_turn(
                (old(self).state.backend@, old(self).state.ewm@),
            ),
    {
        let commands: Vec<ModuleCommand> = self.state.ewm.module.drain_commands();
        let ghost all = commands@;
        let ghost start = self.state.ewm@;
        let mut rest: Vec<ModuleCommand> = commands;
        let ghost mut done: int = 0;
        proof {
            assert(all.take(0) =~= Seq::<ModuleCommand>::empty());
            assert(all.skip(0) =~= all);
        }
        while rest.len() > 0
            invariant
                0 <= done <= all.len(),
                rest@ == all.skip(done),
                self.clients == old(self).clients,
                self.next_output == old(self).next_output,
                self.state.backend@ == old(self).state.backend@,
                self.state.ewm@ == start.run_test_commands(all.take(done)),
            decreases rest@.len(),
        {
            proof {
                assert(all.take(done + 1).drop_last() =~= all.take(done));
                assert(all.take(done + 1).last() == all[done]);
                assert(all.skip(done)[0] == all[done]);
            }
            let cmd: ModuleCommand = rest.remove(0);
            proof {
                assert(rest@ =~= all.skip(done + 1));
                done = done + 1;
            }
            self.handle_module_command(cmd);
        }
        proof {
            assert(done == all.len()) by {
                assert(all.skip(done).len() == 0);
            }
            assert(all.take(done) =~= all);
        }
        self.state.sync_keyboard_focus();
        let ghost b = self.state.backend@;
        let ghost e = self.state.ewm@;
        self.state.backend.redraw_queued_outputs(&mut self.state.ewm);
        proof {
            assert forall|n: int|
                0 <= n && old(self).state.backend@.can_redraw(
                    n + 1,
                ) implies #[trigger] self.state.backend@.can_redraw(n) by {
                lemma_redraw_counts(b, e, n);
            }
        }
    }

    /// Several turns of the loop.
    pub fn dispatch_roundtrip(&mut self, iterations: usize)
        requires
            old(self).state.backend@.can_redraw(iterations as int),
        ensures
            final(self).clients == old(self).clients,
            final(self).next_output == old(self).next_output,
            (final(self).state.backend@, final(self).state.ewm@) == test_turns(
                (old(self).state.backend@, old(self).state.ewm@),
                iterations as nat,
            ),
    {
        let mut i: usize = 0;
        while i < iterations
            invariant
                i <= iterations,
                self.clients == old(self).clients,
                self.next_output == old(self).next_output,
                self.state.backend@.can_redraw(iterations - i),
                (self.state.backend@, self.state.ewm@) == test_turns(
                    (old(self).state.backend@, old(self).state.ewm@),
                    i as nat,
                ),
            decreases iterations - i,
        {
            let ghost b = self.state.backend@;
            proof {
                assert(b.can_redraw(1)) by {
                    if let BackendView::Headless(v) = b {
                        assert forall|j: int| 0 <= j < v.len() implies (
                        #[trigger] v[j]).render_count + 1 <= usize::MAX by {
                            assert(v[j].render_count + (iterations - i) <= usize::MAX);
                        }
                    }
                }
            }
            self.dispatch();
            i += 1;
        }
    }

    /// The compositor's state, for changes.
    pub fn ewm(&mut self) -> (r: &mut Ewm)
        ensures
            *r == old(self).state.ewm,
            *final(self) == (Fixture {
                state: State { ewm: *final(r), backend: old(self).state.backend },
                ..*old(self)
            }),
    {
        &mut self.state.ewm
    }

    /// The compositor's state.
    pub fn ewm_ref(&self) -> (r: &Ewm)
        ensures
            *r == self.state.ewm,
    {
        &self.state.ewm
    }

    /// The focused surface.
    pub fn focused_surface_id(&self) -> (r: u32)
        ensures
            r == self.state.ewm@.focused_surface_id,
    {
        self.state.ewm.focused_surface_id
    }

    /// How many surfaces there are.
    pub fn surface_count(&self) -> (r: usize)
        ensures
            r == self.state.ewm@.id_windows.dom().len(),
    {
        self.state.ewm.id_windows.len()
    }

    /// Whether an output is queued for a redraw.
    pub fn has_queued_redraws(&self) -> (r: bool)
        ensures
            r == exists|i: int|
                0 <= i < self.state.ewm@.output_state.len() && (
                #[trigger] self.state.ewm@.output_state[i]).state.redraw_state is Queued,
    {
        self.state.backend.has_queued_redraws(&self.state.ewm)
    }

    /// Requests a redraw of every output.
    pub fn queue_redraw_all(&mut self)
        ensures
            final(self).clients == old(self).clients,
            final(self).next_output == old(self).next_output,
            final(self).state.backend == old(self).state.backend,
            final(self).state.ewm@ == old(self).state.ewm@.queue_redraw_all(),
    {
        self.state.ewm.queue_redraw_all();
    }

    /// Applies the stored configuration of an output, given what the renderer
    /// then measures of it.
    pub fn apply_output_config(&mut self, output_name: &str, measured: &Measured)
        ensures
            final(self).clients == old(self).clients,
            final(self).next_output == old(self).next_output,
            final(self).state.backend@ == old(self).state.backend@,
            final(self).state.ewm@ == old(self).state.ewm@.apply_output_config(
                output_name@,
                *measured,
            ),
    {
        self.state.backend.apply_output_config(&mut self.state.ewm, output_name, measured);
    }

    /// Whether there is a surface with this id.
    pub fn has_surface(&self, id: u32) -> (r: bool)
        ensures
            r == self.state.ewm@.id_windows.contains_key(id),
    {
        self.state.ewm.id_windows.contains_key(&id)
    }

    /// Carries out a command, as far as tests send any.
    fn handle_module_command(&mut self, cmd: ModuleCommand)
        ensures
            final(self).clients == old(self).clients,
            final(self).next_output == old(self).next_output,
            final(self).state.backend == old(self).state.backend,
            final(self).state.ewm@ == old(self).state.ewm@.run_test_command(cmd),
    {
        match cmd {
            ModuleCommand::Layout { id, x, y, w, h } => {
                self.state.ewm.layout(id, x, y, w, h);
            },
            ModuleCommand::Focus { id } => {
                self.state.ewm.focus_existing(id, "test", None);
            },
            ModuleCommand::Views { id, views: list } => {
                self.state.ewm.apply_views(id, list);
            },
            ModuleCommand::Hide { id } => {
                self.state.ewm.hide_surface(id);
            },
            ModuleCommand::Close { id } => {
                self.state.ewm.close_surface(id);
            },
            _ => {},
        }
    }
}

} // verus!
