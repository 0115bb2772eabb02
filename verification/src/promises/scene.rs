//! All outputs at once, what a commit leads to, and commands in a row.
use vstd::prelude::*;

use crate::action::ActionView;
use crate::event::EventView;
use crate::ewm::EwmView;
use crate::hits::PopupBox;
use crate::layer_shell::LayerCommit;
use crate::module::ModuleCommand;
use crate::promises::redraws::all_asked_to_draw;
use crate::render::{all_popups, placed_popups, placed_views, DrawItem};
use crate::space::{Placed, WindowHandle};

verus! {

// ---------------------------------------------------------------------------
// The whole scene
// ---------------------------------------------------------------------------
/// Whether an item shows a window with its corner at a place.
pub open spec fn shows_at(item: DrawItem, window: WindowHandle, x: int, y: int) -> bool {
    match item {
        DrawItem::Window { window: shown, at } => shown == window && at.x == x && at.y == y,
        _ => false,
    }
}

/// Whether an item shows a surface with its corner at a place.
pub open spec fn shows_surface_at(item: DrawItem, surface: u64, x: int, y: int) -> bool {
    match item {
        DrawItem::Surface { surface: shown, at } => shown == surface && at.x == x && at.y == y,
        _ => false,
    }
}

/// A surface with views is drawn once for each of them, at its place, in their
/// order; a surface without views, or without a window, is not drawn this way.
/// The surfaces of a list are drawn one after the other.
pub proof fn lemma_surfaces_by_their_views(s: EwmView, a: Seq<u32>, b: Seq<u32>, id: u32)
    ensures
        s.every_view(a + b) == s.every_view(a) + s.every_view(b),
        s.id_windows.contains_key(id) && s.surface_views.contains_key(id) ==> {
            let items = s.every_view(seq![id]);
            let list = s.surface_views[id];
            &&& items.len() == list.len()
            &&& forall|k: int|
                0 <= k < list.len() ==> shows_at(
                    #[trigger] items[k],
                    s.id_windows[id],
                    list[k].x as int,
                    list[k].y as int,
                )
        },
        !s.id_windows.contains_key(id) || !s.surface_views.contains_key(id) ==> s.every_view(
            seq![id],
        ).len() == 0,
    decreases b.len(),
{
    let one = seq![id];
    reveal_with_fuel(EwmView::every_view, 2);
    assert(one.drop_last() =~= Seq::<u32>::empty());
    assert(one.last() == id);
    if s.id_windows.contains_key(id) && s.surface_views.contains_key(id) {
        assert(s.every_view(one) =~= placed_views(s.id_windows[id], s.surface_views[id]));
    }
    if b.len() == 0 {
        assert(a + b =~= a);
        assert(s.every_view(a) + s.every_view(b) =~= s.every_view(a));
    } else {
        lemma_surfaces_by_their_views(s, a, b.drop_last(), id);
        assert((a + b).drop_last() =~= a + b.drop_last());
        assert((a + b).last() == b.last());
        assert(s.every_view(a + b) =~= s.every_view(a) + s.every_view(b));
    }
}

/// The windows without views are drawn where they stand, each once, in their
/// order.
pub proof fn lemma_windows_where_they_stand(s: EwmView, elements: Seq<Placed>)
    ensures
        ({
            let shown = elements.filter(
                |e: Placed|
                    !s.surface_views.contains_key(
                        if s.window_ids.contains_key(e.window) {
                            s.window_ids[e.window]
                        } else {
                            0u32
                        },
                    ),
            );
            let items = s.every_window(elements);
            &&& items.len() == shown.len()
            &&& forall|k: int|
                0 <= k < shown.len() ==> shows_at(
                    #[trigger] items[k],
                    shown[k].window,
                    shown[k].loc.x as int,
                    shown[k].loc.y as int,
                )
        }),
    decreases elements.len(),
{
    reveal(Seq::filter);
    let keep = |e: Placed|
        !s.surface_views.contains_key(
            if s.window_ids.contains_key(e.window) {
                s.window_ids[e.window]
            } else {
                0u32
            },
        );
    if elements.len() > 0 {
        let rest = elements.drop_last();
        lemma_windows_where_they_stand(s, rest);
        let before = s.every_window(rest);
        let items = s.every_window(elements);
        let shown = elements.filter(keep);
        assert forall|k: int| 0 <= k < shown.len() implies shows_at(
            #[trigger] items[k],
            shown[k].window,
            shown[k].loc.x as int,
            shown[k].loc.y as int,
        ) by {
            if k < rest.filter(keep).len() {
                assert(items[k] == before[k]);
                assert(shown[k] == rest.filter(keep)[k]);
            }
        }
    }
}

/// The popups of one window are drawn where they hang on it, in their order.
pub proof fn lemma_popups_where_they_hang(popups: Seq<PopupBox>, e: Placed)
    requires
        forall|k: int|
            0 <= k < popups.len() ==> {
                let b = (#[trigger] popups[k]).offset;
                i32::MIN <= e.loc.x + b.x <= i32::MAX && i32::MIN <= e.loc.y + b.y <= i32::MAX
            },
    ensures
        ({
            let own = popups.filter(|b: PopupBox| b.window == e.window);
            let items = placed_popups(popups, e);
            &&& items.len() == own.len()
            &&& forall|k: int|
                0 <= k < own.len() ==> shows_surface_at(
                    #[trigger] items[k],
                    own[k].surface,
                    e.loc.x + own[k].offset.x,
                    e.loc.y + own[k].offset.y,
                )
        }),
    decreases popups.len(),
{
    reveal(Seq::filter);
    let keep = |b: PopupBox| b.window == e.window;
    if popups.len() > 0 {
        let rest = popups.drop_last();
        assert forall|k: int| 0 <= k < rest.len() implies {
            let b = (#[trigger] rest[k]).offset;
            i32::MIN <= e.loc.x + b.x <= i32::MAX && i32::MIN <= e.loc.y + b.y <= i32::MAX
        } by {
            assert(popups[k] == rest[k]);
        }
        lemma_popups_where_they_hang(rest, e);
        assert(popups[popups.len() - 1] == popups.last());
        let before = placed_popups(rest, e);
        let items = placed_popups(popups, e);
        let own = popups.filter(keep);
        assert forall|k: int| 0 <= k < own.len() implies shows_surface_at(
            #[trigger] items[k],
            own[k].surface,
            e.loc.x + own[k].offset.x,
            e.loc.y + own[k].offset.y,
        ) by {
            if k < rest.filter(keep).len() {
                assert(items[k] == before[k]);
                assert(own[k] == rest.filter(keep)[k]);
            }
        }
    }
}

/// Popups are drawn window by window.
pub proof fn lemma_popups_window_by_window(a: Seq<Placed>, e: Placed, popups: Seq<PopupBox>)
    ensures
        all_popups(a.push(e), popups) == all_popups(a, popups) + placed_popups(popups, e),
        all_popups(Seq::<Placed>::empty(), popups).len() == 0,
{
    assert(a.push(e).drop_last() =~= a);
}

/// In the whole scene surfaces with views come first, then windows without, and
/// then all popups; nothing else is in it.
pub proof fn lemma_whole_scene(s: EwmView, ids: Seq<u32>, popups: Seq<PopupBox>)
    ensures
        ({
            let scene = s.whole_scene(ids, popups);
            let a = s.every_view(ids).len() as int;
            let b = s.every_window(s.space.elements).len() as int;
            &&& scene.take(a) == s.every_view(ids)
            &&& scene.subrange(a, a + b) == s.every_window(s.space.elements)
            &&& scene.skip(a + b) == all_popups(s.space.elements, popups)
        }),
{
    let scene = s.whole_scene(ids, popups);
    let a = s.every_view(ids).len() as int;
    let b = s.every_window(s.space.elements).len() as int;
    assert(scene.take(a) =~= s.every_view(ids));
    assert(scene.subrange(a, a + b) =~= s.every_window(s.space.elements));
    assert(scene.skip(a + b) =~= all_popups(s.space.elements, popups));
}

// ---------------------------------------------------------------------------
// Commits
// ---------------------------------------------------------------------------
/// A commit of a window that is not part of a synchronous tree is taken up: the
/// display side is told, everything is drawn anew, its buffer is to be imported
/// early, and a new description of an application is told to Emacs.
pub proof fn lemma_window_commits(
    s: EwmView,
    window: WindowHandle,
    c: LayerCommit,
    app: Seq<char>,
    title: Seq<char>,
)
    requires
        s.window_ids.contains_key(window),
        !s.emacs_surfaces.contains(s.window_ids[window]),
        s.space.element_location(window) is Some,
        forall|i: int| 0 <= i < s.layers.len() ==> (#[trigger] s.layers[i]).surface != window,
        app.len() > 0 || title.len() > 0,
        !s.surface_info.contains_key(s.window_ids[window]) || s.surface_info[s.window_ids[window]].app_id
            != app || s.surface_info[s.window_ids[window]].title != title,
    ensures
        ({
            let t = s.commit_spec(window, window, false, c, app, title);
            let id = s.window_ids[window];
            &&& t.pending_early_imports == s.pending_early_imports.push(window)
            &&& t.actions == s.actions.push(ActionView::CommitWindow { window })
            &&& all_asked_to_draw(s.output_state, t.output_state)
            &&& t.surface_info.contains_key(id)
            &&& t.surface_info[id].app_id == app && t.surface_info[id].title == title
            &&& t.module.events == s.module.events.push(EventView::Title { id, app, title })
        }),
{
    lemma_no_layer(s.layers, window);
    let a = EwmView { pending_early_imports: s.pending_early_imports.push(window), ..s };
    let b = a.layer_commit(window, window, c);
    assert(b.layers =~= s.layers);
    assert(b == a);
}

proof fn lemma_no_layer(layers: Seq<crate::layers::LayerSurfaceView>, surface: u64)
    requires
        forall|i: int| 0 <= i < layers.len() ==> (#[trigger] layers[i]).surface != surface,
    ensures
        crate::layers::first_layer(
            layers,
            |l: crate::layers::LayerSurfaceView| l.surface == surface,
        ) is None,
    decreases layers.len(),
{
    if layers.len() > 0 {
        assert(layers[0].surface != surface);
        let rest = layers.drop_first();
        assert forall|i: int| 0 <= i < rest.len() implies (#[trigger] rest[i]).surface
            != surface by {
            assert(layers[i + 1].surface != surface);
        }
        lemma_no_layer(rest, surface);
    }
}

/// A commit in a synchronous tree waits for that of its parent: of a surface
/// that is no layer surface only the early import is noted.
pub proof fn lemma_synchronous_commit_waits(
    s: EwmView,
    surface: u64,
    root: WindowHandle,
    c: LayerCommit,
    app: Seq<char>,
    title: Seq<char>,
)
    requires
        surface != root,
        forall|i: int| 0 <= i < s.layers.len() ==> (#[trigger] s.layers[i]).surface != root,
    ensures
        s.commit_spec(surface, root, true, c, app, title) == (EwmView {
            pending_early_imports: s.pending_early_imports.push(surface),
            ..s
        }),
{
    lemma_no_layer(s.layers, root);
}

// ---------------------------------------------------------------------------
// Commands in a row
// ---------------------------------------------------------------------------
/// Commands are carried out in their order: those of two lists in a row as those
/// of the first and then those of the second.
pub proof fn lemma_commands_in_a_row(s: EwmView, a: Seq<ModuleCommand>, b: Seq<ModuleCommand>)
    ensures
        s.run_commands(a + b) == s.run_commands(a).run_commands(b),
    decreases b.len(),
{
    if b.len() == 0 {
        assert(a + b =~= a);
    } else {
        lemma_commands_in_a_row(s, a, b.drop_last());
        assert((a + b).drop_last() =~= a + b.drop_last());
        assert((a + b).last() == b.last());
    }
}

/// One command is carried out as it is.
pub proof fn lemma_one_command(s: EwmView, cmd: ModuleCommand)
    ensures
        s.run_commands(seq![cmd]) == s.run_command(cmd),
        s.run_commands(Seq::empty()) == s,
{
    reveal_with_fuel(EwmView::run_commands, 2);
    let one = seq![cmd];
    assert(one.drop_last() =~= Seq::<ModuleCommand>::empty());
    assert(one.last() == cmd);
}

} // verus!
