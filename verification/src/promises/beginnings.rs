//! What there is at the start, and what tests start from.
use vstd::prelude::*;

use crate::backend::BackendView;
use crate::ewm::EwmView;
use crate::module::{ModuleCommand, ModuleView};
use crate::output::OutputConfig;
use crate::testing::fixture::test_turns;

verus! {

/// At the start there is nothing on the screen and nothing to tell or do, nobody
/// has the focus, the session is not locked, the first surface will be number 1,
/// and the keyboard has one layout, the American one.
pub proof fn lemma_state_at_the_start(id: u32, window: u64)
    ensures
        ({
            let s = EwmView::initial();
            &&& s.next_surface_id == 1
            &&& !s.id_windows.contains_key(id) && !s.window_ids.contains_key(window)
            &&& !s.surface_views.contains_key(id) && !s.surface_info.contains_key(id)
            &&& !s.emacs_surfaces.contains(id)
            &&& s.focused_surface_id == 0 && s.keyboard_focus is None && !s.keyboard_focus_dirty
            &&& s.lock_state is Unlocked && s.pre_lock_focus is None
            &&& s.space.outputs.len() == 0 && s.space.elements.len() == 0
            &&& s.output_state.len() == 0 && s.layers.len() == 0 && s.screen_casts.len() == 0
            &&& s.xkb_layout_names.len() == 1 && s.xkb_layout_names[0] == "us"@
            &&& s.xkb_current_layout == 0
            &&& s.actions.len() == 0 && s.module.events.len() == 0 && s.module.commands.len() == 0
            &&& !s.module.in_prefix_sequence && !s.module.stop_requested
            &&& s.module.intercepted_keys.len() == 0
            &&& !s.text_input_intercept && !s.text_input_active
        }),
{
}

/// An output that was never configured is on, with nothing else asked of it.
pub proof fn lemma_output_never_configured(s: EwmView, name: Seq<char>)
    requires
        !s.output_config.contains_key(name),
    ensures
        ({
            let c: OutputConfig = s.stored_config(name);
            c.enabled && c.mode is None && c.position is None && c.scale is None
                && c.transform is None
        }),
{
}

/// A command does in a test what it does when it comes from Emacs: layouts, and
/// hiding and closing, are the same; views are too where they are new; and the
/// focus goes to the same place.
pub proof fn lemma_commands_of_tests(s: EwmView, cmd: ModuleCommand)
    ensures
        ({
            let t = s.run_test_command(cmd);
            let u = s.run_command(cmd);
            match cmd {
                ModuleCommand::Layout { .. } => t == u,
                ModuleCommand::Hide { .. } => t == u,
                ModuleCommand::Close { .. } => t == u,
                ModuleCommand::Views { id, views: list } => !s.surface_views.contains_key(id)
                    || s.surface_views[id] != list@ ==> t == u,
                ModuleCommand::Focus { id } => {
                    &&& t == (EwmView {
                        module: ModuleView {
                            focus_history: t.module.focus_history,
                            ..u.module
                        },
                        ..u
                    })
                    &&& t.module.focus_history.len() == u.module.focus_history.len()
                },
                _ => t == s,
            }
        }),
{
}

/// The commands of tests are carried out in their order.
pub proof fn lemma_commands_of_tests_in_a_row(
    s: EwmView,
    a: Seq<ModuleCommand>,
    b: Seq<ModuleCommand>,
)
    ensures
        s.run_test_commands(a + b) == s.run_test_commands(a).run_test_commands(b),
    decreases b.len(),
{
    if b.len() == 0 {
        assert(a + b =~= a);
    } else {
        lemma_commands_of_tests_in_a_row(s, a, b.drop_last());
        assert((a + b).drop_last() =~= a + b.drop_last());
        assert((a + b).last() == b.last());
    }
}

/// Turns of a test add up.
pub proof fn lemma_turns_add_up(s: (BackendView, EwmView), m: nat, n: nat)
    ensures
        test_turns(test_turns(s, m), n) == test_turns(s, m + n),
    decreases n,
{
    if n > 0 {
        lemma_turns_add_up(s, m, (n - 1) as nat);
        assert((m + n - 1) as nat == m + (n - 1) as nat);
    }
}

/// A turn of a test leaves no command waiting and the keyboard in step.
pub proof fn lemma_turn_of_a_test(s: (BackendView, EwmView))
    requires
        s.1.module.commands.len() == 0,
        !s.1.keyboard_focus_dirty,
    ensures
        test_turns(s, 1) == s.0.redraw(s.1),
{
    reveal_with_fuel(test_turns, 2);
    assert(s.1.module.commands =~= Seq::<ModuleCommand>::empty());
    assert(s.1.run_test_commands(s.1.module.commands) == s.1);
    let e = EwmView { module: ModuleView { commands: Seq::empty(), ..s.1.module }, ..s.1 };
    assert(e == s.1);
}

} // verus!
