//! What an output shows.
use vstd::prelude::*;

use crate::ewm::{EwmView, LayoutEntry};
use crate::geometry::{Point, Rectangle, Size};
use crate::hits::PopupBox;
use crate::layers::{Layer, LayerSurfaceView};
use crate::module::SurfaceView;
use crate::render::{
    layer_items, popup_items, size_of_window, window_popups, CanvasView, DrawItem, WindowSize,
};
use crate::space::{OutputHandle, Placed, WindowHandle};

verus! {

/// The item of a window at a global place, on a screen.
pub open spec fn window_item(window: WindowHandle, at: Point, screen: Rectangle) -> DrawItem {
    DrawItem::Window { window, at: at.relative_spec(screen.loc) }
}

// ---------------------------------------------------------------------------
// Layers
// ---------------------------------------------------------------------------
/// What is drawn of a layer of an output are all its surfaces, each where it was
/// arranged, and the one that came last in front.
pub proof fn lemma_layer_is_drawn(
    layers: Seq<LayerSurfaceView>,
    output: OutputHandle,
    layer: Layer,
)
    ensures
        ({
            let shown = layers.filter(
                |l: LayerSurfaceView| l.output == output && l.layer == layer,
            );
            let items = layer_items(layers, output, layer);
            &&& items.len() == shown.len()
            &&& forall|k: int|
                0 <= k < items.len() ==> #[trigger] items[k] == (DrawItem::Surface {
                    surface: shown[shown.len() - 1 - k].surface,
                    at: shown[shown.len() - 1 - k].geometry.loc,
                })
        }),
    decreases layers.len(),
{
    reveal(Seq::filter);
    let keep = |l: LayerSurfaceView| l.output == output && l.layer == layer;
    if layers.len() > 0 {
        let rest = layers.drop_last();
        lemma_layer_is_drawn(rest, output, layer);
        let shown = layers.filter(keep);
        let items = layer_items(layers, output, layer);
        let before = layer_items(rest, output, layer);
        if keep(layers.last()) {
            assert(shown == rest.filter(keep).push(layers.last()));
            assert forall|k: int| 0 <= k < items.len() implies #[trigger] items[k] == (
            DrawItem::Surface {
                surface: shown[shown.len() - 1 - k].surface,
                at: shown[shown.len() - 1 - k].geometry.loc,
            }) by {
                if k > 0 {
                    assert(items[k] == before[k - 1]);
                }
            }
        }
    }
}

// ---------------------------------------------------------------------------
// Surfaces that Emacs placed
// ---------------------------------------------------------------------------
/// What Emacs declared an output to show is drawn, every entry whose surface
/// exists, in order, at the corner of the free area and as far from it as the
/// entry says.
pub proof fn lemma_declared_surfaces_are_drawn(
    s: EwmView,
    entries: Seq<LayoutEntry>,
    zone: Rectangle,
)
    ensures
        ({
            let shown = entries.filter(|e: LayoutEntry| s.id_windows.contains_key(e.id));
            let items = s.declared_items(entries, zone);
            &&& items.len() == shown.len()
            &&& forall|k: int|
                0 <= k < items.len() ==> {
                    let e = shown[k];
                    &&& #[trigger] items[k] == (DrawItem::Window {
                        window: s.id_windows[e.id],
                        at: zone.loc.offset_spec(Point { x: e.x, y: e.y }),
                    })
                }
        }),
    decreases entries.len(),
{
    reveal(Seq::filter);
    let keep = |e: LayoutEntry| s.id_windows.contains_key(e.id);
    if entries.len() > 0 {
        let rest = entries.drop_last();
        lemma_declared_surfaces_are_drawn(s, rest, zone);
        let shown = entries.filter(keep);
        let items = s.declared_items(entries, zone);
        let before = s.declared_items(rest, zone);
        if keep(entries.last()) {
            assert(shown == rest.filter(keep).push(entries.last()));
            assert forall|k: int| 0 <= k < items.len() implies #[trigger] items[k] == (
            DrawItem::Window {
                window: s.id_windows[shown[k].id],
                at: zone.loc.offset_spec(Point { x: shown[k].x, y: shown[k].y }),
            }) by {
                if k < before.len() {
                    assert(items[k] == before[k]);
                }
            }
        }
    }
}

proof fn lemma_entry_is_drawn(s: EwmView, entries: Seq<LayoutEntry>, zone: Rectangle, i: int)
    requires
        0 <= i < entries.len(),
        s.id_windows.contains_key(entries[i].id),
    ensures
        s.declared_items(entries, zone).contains(
            DrawItem::Window {
                window: s.id_windows[entries[i].id],
                at: zone.loc.offset_spec(Point { x: entries[i].x, y: entries[i].y }),
            },
        ),
    decreases entries.len(),
{
    let item = DrawItem::Window {
        window: s.id_windows[entries[i].id],
        at: zone.loc.offset_spec(Point { x: entries[i].x, y: entries[i].y }),
    };
    let all = s.declared_items(entries, zone);
    if i < entries.len() - 1 {
        let rest = entries.drop_last();
        assert(rest[i] == entries[i]);
        lemma_entry_is_drawn(s, rest, zone, i);
        let before = s.declared_items(rest, zone);
        let k = choose|k: int| 0 <= k < before.len() && before[k] == item;
        assert(all[k] == item);
    } else {
        assert(all[all.len() - 1] == item);
    }
}

// ---------------------------------------------------------------------------
// Views and windows
// ---------------------------------------------------------------------------
/// Of the views of a surface those are drawn that the screen overlaps, each
/// where it is, in order.
pub proof fn lemma_views_are_drawn(
    s: EwmView,
    window: WindowHandle,
    list: Seq<SurfaceView>,
    size: Size,
    screen: Rectangle,
)
    ensures
        ({
            let shown = list.filter(
                |v: SurfaceView|
                    screen.overlaps_spec(Rectangle { loc: Point { x: v.x, y: v.y }, size }),
            );
            let items = s.view_items(window, list, size, screen);
            &&& items.len() == shown.len()
            &&& forall|k: int|
                0 <= k < items.len() ==> #[trigger] items[k] == window_item(
                    window,
                    Point { x: shown[k].x, y: shown[k].y },
                    screen,
                )
        }),
    decreases list.len(),
{
    reveal(Seq::filter);
    let keep = |v: SurfaceView|
        screen.overlaps_spec(Rectangle { loc: Point { x: v.x, y: v.y }, size });
    if list.len() > 0 {
        let rest = list.drop_last();
        lemma_views_are_drawn(s, window, rest, size, screen);
        let shown = list.filter(keep);
        let items = s.view_items(window, list, size, screen);
        let before = s.view_items(window, rest, size, screen);
        if keep(list.last()) {
            assert(shown == rest.filter(keep).push(list.last()));
            assert forall|k: int| 0 <= k < items.len() implies #[trigger] items[k] == window_item(
                window,
                Point { x: shown[k].x, y: shown[k].y },
                screen,
            ) by {
                if k < before.len() {
                    assert(items[k] == before[k]);
                }
            }
        }
    }
}

/// Whether Emacs declared some output to show a surface.
pub open spec fn declared_somewhere(s: EwmView, id: u32) -> bool {
    exists|name: Seq<char>, i: int|
        #![trigger s.output_layouts[name][i]]
        s.output_layouts.contains_key(name) && 0 <= i < s.output_layouts[name].len()
            && s.output_layouts[name][i].id == id
}

/// A surface counts as declared exactly where some output was declared to show
/// it.
pub proof fn lemma_declared_surfaces(s: EwmView, id: u32)
    ensures
        s.is_declared(id) <==> declared_somewhere(s, id),
{
    if s.is_declared(id) {
        let name = choose|name: Seq<char>| #[trigger]
            s.output_layouts.contains_key(name) && crate::render::has_entry(
                s.output_layouts[name],
                id,
            );
        let i = choose|i: int|
            0 <= i < s.output_layouts[name].len() && (#[trigger] s.output_layouts[name][i]).id
                == id;
        assert(s.output_layouts[name][i].id == id);
    }
    if declared_somewhere(s, id) {
        let (name, i) = choose|name: Seq<char>, i: int|
            #![trigger s.output_layouts[name][i]]
            s.output_layouts.contains_key(name) && 0 <= i < s.output_layouts[name].len()
                && s.output_layouts[name][i].id == id;
        assert(crate::render::has_entry(s.output_layouts[name], id));
    }
}

/// A view of a surface that Emacs declared nowhere is drawn where it is, if the
/// screen overlaps it.
pub proof fn lemma_view_is_drawn(
    s: EwmView,
    ids: Seq<u32>,
    sizes: Seq<WindowSize>,
    screen: Rectangle,
    n: int,
    i: int,
)
    requires
        0 <= n < ids.len(),
        s.id_windows.contains_key(ids[n]),
        s.surface_views.contains_key(ids[n]),
        !declared_somewhere(s, ids[n]),
        0 <= i < s.surface_views[ids[n]].len(),
        screen.overlaps_spec(
            Rectangle {
                loc: Point {
                    x: s.surface_views[ids[n]][i].x,
                    y: s.surface_views[ids[n]][i].y,
                },
                size: size_of_window(sizes, s.id_windows[ids[n]]),
            },
        ),
    ensures
        s.all_view_items(ids, sizes, screen).contains(
            window_item(
                s.id_windows[ids[n]],
                Point { x: s.surface_views[ids[n]][i].x, y: s.surface_views[ids[n]][i].y },
                screen,
            ),
        ),
    decreases ids.len(),
{
    let id = ids[n];
    let all = s.all_view_items(ids, sizes, screen);
    let item = window_item(
        s.id_windows[id],
        Point { x: s.surface_views[id][i].x, y: s.surface_views[id][i].y },
        screen,
    );
    lemma_declared_surfaces(s, id);
    let rest = ids.drop_last();
    let before = s.all_view_items(rest, sizes, screen);
    if n < ids.len() - 1 {
        assert(rest[n] == id);
        lemma_view_is_drawn(s, rest, sizes, screen, n, i);
        let k = choose|k: int| 0 <= k < before.len() && before[k] == item;
        assert(all[k] == item);
    } else {
        let size = size_of_window(sizes, s.id_windows[id]);
        let mine = s.view_items(s.id_windows[id], s.surface_views[id], size, screen);
        lemma_single_view_is_drawn(s, s.id_windows[id], s.surface_views[id], size, screen, i);
        let k = choose|k: int| 0 <= k < mine.len() && mine[k] == item;
        assert(all[before.len() + k] == item);
    }
}

/// A surface that Emacs declared somewhere is not drawn by its views on top of
/// that, nor is one without a window or without views; any other is drawn by all
/// its views. Surfaces are drawn one after the other.
pub proof fn lemma_who_is_drawn_by_views(
    s: EwmView,
    a: Seq<u32>,
    b: Seq<u32>,
    id: u32,
    sizes: Seq<WindowSize>,
    screen: Rectangle,
)
    ensures
        s.all_view_items(a + b, sizes, screen) == s.all_view_items(a, sizes, screen)
            + s.all_view_items(b, sizes, screen),
        declared_somewhere(s, id) || !s.id_windows.contains_key(id)
            || !s.surface_views.contains_key(id) ==> s.all_view_items(
            seq![id],
            sizes,
            screen,
        ).len() == 0,
        !declared_somewhere(s, id) && s.id_windows.contains_key(id)
            && s.surface_views.contains_key(id) ==> s.all_view_items(seq![id], sizes, screen)
            == s.view_items(
            s.id_windows[id],
            s.surface_views[id],
            size_of_window(sizes, s.id_windows[id]),
            screen,
        ),
    decreases b.len(),
{
    let one = seq![id];
    lemma_declared_surfaces(s, id);
    reveal_with_fuel(EwmView::all_view_items, 2);
    assert(one.drop_last() =~= Seq::<u32>::empty());
    assert(one.last() == id);
    if s.drawn_by_views(id) {
        assert(s.all_view_items(one, sizes, screen) =~= s.view_items(
            s.id_windows[id],
            s.surface_views[id],
            size_of_window(sizes, s.id_windows[id]),
            screen,
        ));
    }
    if b.len() == 0 {
        assert(a + b =~= a);
        assert(s.all_view_items(a, sizes, screen) + s.all_view_items(b, sizes, screen)
            =~= s.all_view_items(a, sizes, screen));
    } else {
        lemma_who_is_drawn_by_views(s, a, b.drop_last(), id, sizes, screen);
        assert((a + b).drop_last() =~= a + b.drop_last());
        assert((a + b).last() == b.last());
        assert(s.all_view_items(a + b, sizes, screen) =~= s.all_view_items(a, sizes, screen)
            + s.all_view_items(b, sizes, screen));
    }
}

proof fn lemma_single_view_is_drawn(
    s: EwmView,
    window: WindowHandle,
    list: Seq<SurfaceView>,
    size: Size,
    screen: Rectangle,
    i: int,
)
    requires
        0 <= i < list.len(),
        screen.overlaps_spec(
            Rectangle { loc: Point { x: list[i].x, y: list[i].y }, size },
        ),
    ensures
        s.view_items(window, list, size, screen).contains(
            window_item(window, Point { x: list[i].x, y: list[i].y }, screen),
        ),
    decreases list.len(),
{
    let item = window_item(window, Point { x: list[i].x, y: list[i].y }, screen);
    let all = s.view_items(window, list, size, screen);
    if i < list.len() - 1 {
        let rest = list.drop_last();
        assert(rest[i] == list[i]);
        lemma_single_view_is_drawn(s, window, rest, size, screen, i);
        let before = s.view_items(window, rest, size, screen);
        let k = choose|k: int| 0 <= k < before.len() && before[k] == item;
        assert(all[k] == item);
    } else {
        assert(all[all.len() - 1] == item);
    }
}

/// Whether a window of the space is drawn where it stands: it has no views, and
/// Emacs declared no output to show it.
pub open spec fn stands_for_itself(s: EwmView, window: WindowHandle) -> bool {
    let id = if s.window_ids.contains_key(window) {
        s.window_ids[window]
    } else {
        0u32
    };
    !s.surface_views.contains_key(id) && !declared_somewhere(s, id)
}

/// The windows that stand for themselves are drawn where the screen overlaps
/// them, in stacking order and at their places; no other window is.
pub proof fn lemma_windows_are_drawn(
    s: EwmView,
    elements: Seq<Placed>,
    sizes: Seq<WindowSize>,
    screen: Rectangle,
)
    ensures
        ({
            let shown = elements.filter(
                |e: Placed|
                    stands_for_itself(s, e.window) && screen.overlaps_spec(
                        Rectangle { loc: e.loc, size: size_of_window(sizes, e.window) },
                    ),
            );
            let items = s.window_items(elements, sizes, screen);
            &&& items.len() == shown.len()
            &&& forall|k: int|
                0 <= k < items.len() ==> #[trigger] items[k] == window_item(
                    shown[k].window,
                    shown[k].loc,
                    screen,
                )
        }),
    decreases elements.len(),
{
    reveal(Seq::filter);
    let keep = |e: Placed|
        stands_for_itself(s, e.window) && screen.overlaps_spec(
            Rectangle { loc: e.loc, size: size_of_window(sizes, e.window) },
        );
    if elements.len() > 0 {
        let rest = elements.drop_last();
        lemma_windows_are_drawn(s, rest, sizes, screen);
        lemma_declared_surfaces(s, s.id_of(elements.last().window));
        let shown = elements.filter(keep);
        let items = s.window_items(elements, sizes, screen);
        let before = s.window_items(rest, sizes, screen);
        if keep(elements.last()) {
            assert(shown == rest.filter(keep).push(elements.last()));
            assert forall|k: int| 0 <= k < items.len() implies #[trigger] items[k] == window_item(
                shown[k].window,
                shown[k].loc,
                screen,
            ) by {
                if k < before.len() {
                    assert(items[k] == before[k]);
                }
            }
        }
    }
}

/// The size of a window is the first that is listed for it; one that is not
/// listed has none.
pub proof fn lemma_size_is_listed(sizes: Seq<WindowSize>, window: WindowHandle, i: int)
    requires
        0 <= i < sizes.len(),
        sizes[i].window == window,
        forall|j: int| 0 <= j < i ==> (#[trigger] sizes[j]).window != window,
    ensures
        size_of_window(sizes, window) == sizes[i].size,
    decreases sizes.len(),
{
    if i > 0 {
        assert(sizes[0].window != window);
        let rest = sizes.drop_first();
        assert forall|j: int| 0 <= j < i - 1 implies (#[trigger] rest[j]).window != window by {
            assert(rest[j] == sizes[j + 1]);
        }
        lemma_size_is_listed(rest, window, i - 1);
    }
}

// ---------------------------------------------------------------------------
// Popups
// ---------------------------------------------------------------------------
/// A popup of a window of the space is drawn as far from the window as it says,
/// if the screen overlaps it.
pub proof fn lemma_popup_is_drawn(
    elements: Seq<Placed>,
    popups: Seq<PopupBox>,
    screen: Rectangle,
    n: int,
    i: int,
)
    requires
        0 <= n < elements.len(),
        0 <= i < popups.len(),
        popups[i].window == elements[n].window,
        screen.overlaps_spec(
            Rectangle {
                loc: elements[n].loc.offset_spec(popups[i].offset),
                size: popups[i].size,
            },
        ),
    ensures
        popup_items(elements, popups, screen).contains(
            DrawItem::Surface {
                surface: popups[i].surface,
                at: elements[n].loc.offset_spec(popups[i].offset).relative_spec(screen.loc),
            },
        ),
    decreases elements.len(),
{
    let item = DrawItem::Surface {
        surface: popups[i].surface,
        at: elements[n].loc.offset_spec(popups[i].offset).relative_spec(screen.loc),
    };
    let all = popup_items(elements, popups, screen);
    let rest = elements.drop_last();
    let before = popup_items(rest, popups, screen);
    if n < elements.len() - 1 {
        assert(rest[n] == elements[n]);
        lemma_popup_is_drawn(rest, popups, screen, n, i);
        let k = choose|k: int| 0 <= k < before.len() && before[k] == item;
        assert(all[k] == item);
    } else {
        let mine = window_popups(popups, elements[n], screen);
        lemma_popup_of_window_is_drawn(popups, elements[n], screen, i);
        let k = choose|k: int| 0 <= k < mine.len() && mine[k] == item;
        assert(all[before.len() + k] == item);
    }
}

proof fn lemma_popup_of_window_is_drawn(
    popups: Seq<PopupBox>,
    e: Placed,
    screen: Rectangle,
    i: int,
)
    requires
        0 <= i < popups.len(),
        popups[i].window == e.window,
        screen.overlaps_spec(
            Rectangle { loc: e.loc.offset_spec(popups[i].offset), size: popups[i].size },
        ),
    ensures
        window_popups(popups, e, screen).contains(
            DrawItem::Surface {
                surface: popups[i].surface,
                at: e.loc.offset_spec(popups[i].offset).relative_spec(screen.loc),
            },
        ),
    decreases popups.len(),
{
    let item = DrawItem::Surface {
        surface: popups[i].surface,
        at: e.loc.offset_spec(popups[i].offset).relative_spec(screen.loc),
    };
    let all = window_popups(popups, e, screen);
    if i < popups.len() - 1 {
        let rest = popups.drop_last();
        assert(rest[i] == popups[i]);
        lemma_popup_of_window_is_drawn(rest, e, screen, i);
        let before = window_popups(rest, e, screen);
        let k = choose|k: int| 0 <= k < before.len() && before[k] == item;
        assert(all[k] == item);
    } else {
        assert(all[all.len() - 1] == item);
    }
}

/// The popups of one window that are drawn are those of this window that the
/// screen overlaps, in order.
pub proof fn lemma_popups_of_a_window(popups: Seq<PopupBox>, e: Placed, screen: Rectangle)
    ensures
        ({
            let shown = popups.filter(
                |b: PopupBox|
                    b.window == e.window && screen.overlaps_spec(
                        Rectangle { loc: e.loc.offset_spec(b.offset), size: b.size },
                    ),
            );
            let items = window_popups(popups, e, screen);
            &&& items.len() == shown.len()
            &&& forall|k: int|
                0 <= k < items.len() ==> #[trigger] items[k] == (DrawItem::Surface {
                    surface: shown[k].surface,
                    at: e.loc.offset_spec(shown[k].offset).relative_spec(screen.loc),
                })
        }),
    decreases popups.len(),
{
    reveal(Seq::filter);
    let keep = |b: PopupBox|
        b.window == e.window && screen.overlaps_spec(
            Rectangle { loc: e.loc.offset_spec(b.offset), size: b.size },
        );
    if popups.len() > 0 {
        let rest = popups.drop_last();
        lemma_popups_of_a_window(rest, e, screen);
        let shown = popups.filter(keep);
        let items = window_popups(popups, e, screen);
        let before = window_popups(rest, e, screen);
        if keep(popups.last()) {
            assert(shown == rest.filter(keep).push(popups.last()));
            assert forall|k: int| 0 <= k < items.len() implies #[trigger] items[k] == (
            DrawItem::Surface {
                surface: shown[k].surface,
                at: e.loc.offset_spec(shown[k].offset).relative_spec(screen.loc),
            }) by {
                if k < before.len() {
                    assert(items[k] == before[k]);
                }
            }
        }
    }
}

// ---------------------------------------------------------------------------
// The whole plan
// ---------------------------------------------------------------------------
/// The surfaces that an output was declared to show.
pub open spec fn entries_of(s: EwmView, name: Seq<char>) -> Seq<LayoutEntry> {
    if s.output_layouts.contains_key(name) {
        s.output_layouts[name]
    } else {
        Seq::empty()
    }
}

/// What an output shows, front to back, while the session is not locked: the
/// cursor where it is wanted and the pointer is on the screen; the overlay
/// layer; the top layer; popups; the surfaces that Emacs declared; the views of
/// other surfaces; the windows that stand for themselves; the bottom layer; and
/// the background.
pub proof fn lemma_plan_front_to_back(
    s: EwmView,
    c: CanvasView,
    include_cursor: bool,
    sizes: Seq<WindowSize>,
    popups: Seq<PopupBox>,
    plan: Seq<DrawItem>,
)
    requires
        s.is_plan(c, include_cursor, sizes, popups, plan),
        s.lock_state is Unlocked,
    ensures
        exists|ids: Seq<u32>| #[trigger]
            s.lists_windows(ids) && plan == (if include_cursor && c.screen.contains_spec(
                s.pointer_location.cell,
            ) {
                seq![DrawItem::Cursor]
            } else {
                Seq::<DrawItem>::empty()
            }) + layer_items(s.layers, c.output, Layer::Overlay) + layer_items(
                s.layers,
                c.output,
                Layer::Top,
            ) + popup_items(s.space.elements, popups, c.screen) + s.declared_items(
                entries_of(s, c.name),
                c.zone,
            ) + s.all_view_items(ids, sizes, c.screen) + s.window_items(
                s.space.elements,
                sizes,
                c.screen,
            ) + layer_items(s.layers, c.output, Layer::Bottom) + layer_items(
                s.layers,
                c.output,
                Layer::Background,
            ),
{
    let ids = choose|ids: Seq<u32>| #[trigger]
        s.lists_windows(ids) && plan == s.scene(c, include_cursor, ids, sizes, popups);
    assert(s.lists_windows(ids));
}

/// Every surface that Emacs declared an output to show, and that exists, is part
/// of what the output shows: at the corner of the free area, and as far from it
/// as Emacs said.
pub proof fn lemma_declared_surface_is_in_the_plan(
    s: EwmView,
    c: CanvasView,
    include_cursor: bool,
    sizes: Seq<WindowSize>,
    popups: Seq<PopupBox>,
    plan: Seq<DrawItem>,
    i: int,
)
    requires
        s.is_plan(c, include_cursor, sizes, popups, plan),
        s.lock_state is Unlocked,
        s.output_layouts.contains_key(c.name),
        0 <= i < s.output_layouts[c.name].len(),
        s.id_windows.contains_key(s.output_layouts[c.name][i].id),
        i32::MIN <= c.zone.loc.x + s.output_layouts[c.name][i].x <= i32::MAX,
        i32::MIN <= c.zone.loc.y + s.output_layouts[c.name][i].y <= i32::MAX,
    ensures
        ({
            let e = s.output_layouts[c.name][i];
            plan.contains(
                DrawItem::Window {
                    window: s.id_windows[e.id],
                    at: Point {
                        x: (c.zone.loc.x + e.x) as i32,
                        y: (c.zone.loc.y + e.y) as i32,
                    },
                },
            )
        }),
{
    let entries = s.output_layouts[c.name];
    let e = entries[i];
    let item = DrawItem::Window {
        window: s.id_windows[e.id],
        at: Point { x: (c.zone.loc.x + e.x) as i32, y: (c.zone.loc.y + e.y) as i32 },
    };
    lemma_plan_front_to_back(s, c, include_cursor, sizes, popups, plan);
    lemma_entry_is_drawn(s, entries, c.zone, i);
    let ids = choose|ids: Seq<u32>| #[trigger]
        s.lists_windows(ids) && plan == (if include_cursor && c.screen.contains_spec(
            s.pointer_location.cell,
        ) {
            seq![DrawItem::Cursor]
        } else {
            Seq::<DrawItem>::empty()
        }) + layer_items(s.layers, c.output, Layer::Overlay) + layer_items(
            s.layers,
            c.output,
            Layer::Top,
        ) + popup_items(s.space.elements, popups, c.screen) + s.declared_items(
            entries_of(s, c.name),
            c.zone,
        ) + s.all_view_items(ids, sizes, c.screen) + s.window_items(
            s.space.elements,
            sizes,
            c.screen,
        ) + layer_items(s.layers, c.output, Layer::Bottom) + layer_items(
            s.layers,
            c.output,
            Layer::Background,
        );
    let declared = s.declared_items(entries, c.zone);
    let k = choose|k: int| 0 <= k < declared.len() && declared[k] == item;
    let front = (if include_cursor && c.screen.contains_spec(s.pointer_location.cell) {
        seq![DrawItem::Cursor]
    } else {
        Seq::<DrawItem>::empty()
    }) + layer_items(s.layers, c.output, Layer::Overlay) + layer_items(
        s.layers,
        c.output,
        Layer::Top,
    ) + popup_items(s.space.elements, popups, c.screen);
    assert(plan[front.len() + k] == item);
}

/// While the session is locked an output shows its lock surface, where it has
/// one, and behind it the background, and nothing else; one without a state
/// shows nothing.
pub proof fn lemma_locked_plan(
    s: EwmView,
    c: CanvasView,
    include_cursor: bool,
    sizes: Seq<WindowSize>,
    popups: Seq<PopupBox>,
    plan: Seq<DrawItem>,
)
    requires
        s.is_plan(c, include_cursor, sizes, popups, plan),
        !(s.lock_state is Unlocked),
    ensures
        match s.state_of(c.output) {
            Some(state) => {
                let background = DrawItem::LockBackground {
                    w: state.lock_background.0,
                    h: state.lock_background.1,
                };
                plan == match state.lock_surface {
                    Some(surface) => seq![DrawItem::LockSurface { surface }, background],
                    None => seq![background],
                }
            },
            None => plan.len() == 0,
        },
{
    if let Some(state) = s.state_of(c.output) {
        let background = DrawItem::LockBackground {
            w: state.lock_background.0,
            h: state.lock_background.1,
        };
        match state.lock_surface {
            Some(surface) => {
                assert(plan =~= seq![DrawItem::LockSurface { surface }, background]);
            },
            None => {
                assert(plan =~= seq![background]);
            },
        }
    }
}

/// A canvas is the mapped output with its place, size and free area; without one
/// it has no extent.
pub proof fn lemma_canvas(s: EwmView, output: OutputHandle, name: Seq<char>, zone: Rectangle)
    ensures
        ({
            let c = s.canvas(output, name, zone);
            &&& c.output == output
            &&& match s.space.output(output) {
                Some(o) => c.name == o.name && c.screen.loc == o.loc && c.screen.size == o.size
                    && c.zone == o.zone,
                None => c.name == name && c.zone == zone && c.screen.size.w == 0
                    && c.screen.size.h == 0 && c.screen.loc == (Point { x: 0, y: 0 }),
            }
        }),
{
}

// ---------------------------------------------------------------------------
// Copies of the screen
// ---------------------------------------------------------------------------
/// Of every queue the request at its head is served where it is for this output,
/// and the others keep waiting in their order.
pub proof fn lemma_copies_are_served(
    queues: Seq<Seq<crate::render::ScreencopyRequest>>,
    output: OutputHandle,
)
    ensures
        ({
            let heads = queues.filter(
                |q: Seq<crate::render::ScreencopyRequest>| q.len() > 0 && q[0].output == output,
            );
            let served = crate::render::pending_copies(queues, output);
            &&& served.len() == heads.len()
            &&& forall|k: int| 0 <= k < served.len() ==> #[trigger] served[k] == heads[k][0]
        }),
        forall|q: Seq<crate::render::ScreencopyRequest>| #[trigger]
            crate::render::after_copy(q, output) == if q.len() > 0 && q[0].output == output {
                q.skip(1)
            } else {
                q
            },
    decreases queues.len(),
{
    reveal(Seq::filter);
    let keep = |q: Seq<crate::render::ScreencopyRequest>| q.len() > 0 && q[0].output == output;
    assert forall|q: Seq<crate::render::ScreencopyRequest>| #[trigger]
        crate::render::after_copy(q, output) == (if q.len() > 0 && q[0].output == output {
            q.skip(1)
        } else {
            q
        }) by {
        if q.len() > 0 {
            assert(q.drop_first() =~= q.skip(1));
        }
    }
    if queues.len() > 0 {
        let rest = queues.drop_last();
        lemma_copies_are_served(rest, output);
        let heads = queues.filter(keep);
        let served = crate::render::pending_copies(queues, output);
        let before = crate::render::pending_copies(rest, output);
        if keep(queues.last()) {
            assert(heads == rest.filter(keep).push(queues.last()));
            assert forall|k: int| 0 <= k < served.len() implies #[trigger] served[k]
                == heads[k][0] by {
                if k < before.len() {
                    assert(served[k] == before[k]);
                }
            }
        }
    }
}

/// What Emacs declares an output to show replaces what it declared before, and
/// changes nothing for other outputs.
pub proof fn lemma_last_declaration_counts(
    s: EwmView,
    name: Seq<char>,
    entries: Seq<LayoutEntry>,
    other: Seq<char>,
)
    ensures
        ({
            let t = s.layout_declared(name, entries);
            &&& t.output_layouts.contains_key(name) && t.output_layouts[name] == entries
            &&& other != name ==> t.output_layouts.contains_key(other)
                == s.output_layouts.contains_key(other) && (s.output_layouts.contains_key(other)
                ==> t.output_layouts[other] == s.output_layouts[other])
            &&& t == (EwmView { output_layouts: t.output_layouts, ..s })
        }),
{
}

} // verus!
