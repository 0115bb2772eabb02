//! What is under the pointer, and which outputs a window is on.
use vstd::prelude::*;

use crate::ewm::EwmView;
use crate::geometry::{Point, Rectangle, Size};
use crate::hits::{
    hit_on, outputs_at, outputs_of_views, popup_hit, popups_hit, top_hit, with_new, Hit, LayerHit,
    PopupBox,
};
use crate::layers::{Layer, LayerSurfaceView};
use crate::module::{PointerLocation, SurfaceView};
use crate::promises::places::{
    first_with_point, is_in, is_proper, lemma_output_showing, lemma_overlap_is_a_common_point,
    off_all, outputs_proper,
};
use crate::space::{OutputHandle, OutputView, Placed, WindowHandle};

verus! {

// ---------------------------------------------------------------------------
// Layer surfaces
// ---------------------------------------------------------------------------
/// Whether the pointer hits a layer surface of a layer of an output.
pub open spec fn is_hit(
    l: LayerSurfaceView,
    hits: Seq<LayerHit>,
    output: OutputHandle,
    layer: Layer,
) -> bool {
    l.output == output && l.layer == layer && exists|k: int|
        0 <= k < hits.len() && (#[trigger] hits[k]).layer == l.surface
}

proof fn lemma_hit_on(hits: Seq<LayerHit>, layer: u64)
    ensures
        match hit_on(hits, layer) {
            Some(h) => h.layer == layer && exists|k: int|
                0 <= k < hits.len() && #[trigger] hits[k] == h,
            None => forall|k: int| 0 <= k < hits.len() ==> (#[trigger] hits[k]).layer != layer,
        },
    decreases hits.len(),
{
    if hits.len() > 0 {
        if hits[0].layer == layer {
            assert(hits[0] == hit_on(hits, layer)->0);
        } else {
            let rest = hits.drop_first();
            lemma_hit_on(rest, layer);
            match hit_on(rest, layer) {
                Some(h) => {
                    let k = choose|k: int| 0 <= k < rest.len() && #[trigger] rest[k] == h;
                    assert(hits[k + 1] == h);
                },
                None => {
                    assert forall|k: int| 0 <= k < hits.len() implies (#[trigger] hits[k]).layer
                        != layer by {
                        if k > 0 {
                            assert(rest[k - 1] == hits[k]);
                        }
                    }
                },
            }
        }
    }
}

/// Of the surfaces of one layer the one that came last is on top: the hit is on
/// a surface of this layer of this output that the pointer hits, and no later
/// one is hit; and there is one wherever one is hit.
pub proof fn lemma_topmost_layer_surface(
    layers: Seq<LayerSurfaceView>,
    hits: Seq<LayerHit>,
    output: OutputHandle,
    layer: Layer,
)
    ensures
        match top_hit(layers, hits, output, layer) {
            Some(h) => (exists|k: int| 0 <= k < hits.len() && #[trigger] hits[k] == h) && exists|
                i: int,
            |
                0 <= i < layers.len() && is_hit(#[trigger] layers[i], hits, output, layer)
                    && layers[i].surface == h.layer && forall|j: int|
                    i < j < layers.len() ==> !is_hit(#[trigger] layers[j], hits, output, layer),
            None => forall|j: int|
                0 <= j < layers.len() ==> !is_hit(#[trigger] layers[j], hits, output, layer),
        },
    decreases layers.len(),
{
    if layers.len() > 0 {
        let rest = layers.drop_last();
        let l = layers.last();
        lemma_hit_on(hits, l.surface);
        if l.output == output && l.layer == layer && hit_on(hits, l.surface) is Some {
            assert(is_hit(layers[layers.len() - 1], hits, output, layer));
        } else {
            assert(!is_hit(layers[layers.len() - 1], hits, output, layer));
            lemma_topmost_layer_surface(rest, hits, output, layer);
            match top_hit(rest, hits, output, layer) {
                Some(h) => {
                    let i = choose|i: int|
                        0 <= i < rest.len() && is_hit(#[trigger] rest[i], hits, output, layer)
                            && rest[i].surface == h.layer && forall|j: int|
                            i < j < rest.len() ==> !is_hit(#[trigger] rest[j], hits, output, layer);
                    assert(layers[i] == rest[i]);
                    assert forall|j: int| i < j < layers.len() implies !is_hit(
                        #[trigger] layers[j],
                        hits,
                        output,
                        layer,
                    ) by {
                        if j < rest.len() {
                            assert(rest[j] == layers[j]);
                        }
                    }
                },
                None => {
                    assert forall|j: int| 0 <= j < layers.len() implies !is_hit(
                        #[trigger] layers[j],
                        hits,
                        output,
                        layer,
                    ) by {
                        if j < rest.len() {
                            assert(rest[j] == layers[j]);
                        }
                    }
                },
            }
        }
    }
}

/// The layers that are asked are those of the output at the pointer, or of the
/// first output where the pointer is on none; a hit on one counts at its place
/// on that output.
pub proof fn lemma_layers_at_the_pointer(
    s: EwmView,
    location: PointerLocation,
    hits: Seq<LayerHit>,
    layer: Layer,
    i: int,
)
    requires
        outputs_proper(s.space.outputs),
        0 <= i < s.space.outputs.len(),
        first_with_point(s.space.outputs, location.cell, i) || i == 0 && off_all(
            s.space.outputs,
            location.cell,
        ),
    ensures
        ({
            let o = s.space.outputs[i];
            match top_hit(s.layers, hits, o.handle, layer) {
                Some(h) => {
                    let r = s.layer_hit(location, hits, layer);
                    &&& r is Some
                    &&& r->0.surface == h.surface
                    &&& i32::MIN <= h.loc.x + o.loc.x <= i32::MAX ==> r->0.loc.x == h.loc.x
                        + o.loc.x
                    &&& i32::MIN <= h.loc.y + o.loc.y <= i32::MAX ==> r->0.loc.y == h.loc.y
                        + o.loc.y
                },
                None => s.layer_hit(location, hits, layer) is None,
            }
        }),
{
    lemma_output_showing(s.space, location.cell);
    match s.space.output_showing(location.cell) {
        Some(o) => {
            let k = choose|k: int| #[trigger]
                first_with_point(s.space.outputs, location.cell, k) && s.space.outputs[k] == o;
            assert(k == i);
        },
        None => {
            assert(i == 0);
        },
    }
}

// ---------------------------------------------------------------------------
// Popups
// ---------------------------------------------------------------------------
/// Whether a popup of a window at `at` holds a point.
pub open spec fn holds(b: PopupBox, window: WindowHandle, at: Point, p: Point) -> bool {
    &&& b.window == window
    &&& 0 <= p.x - (at.x + b.offset.x) < b.size.w
    &&& 0 <= p.y - (at.y + b.offset.y) < b.size.h
}

/// Whether every popup has a corner, wherever its window is.
pub open spec fn popups_placed(elements: Seq<Placed>, popups: Seq<PopupBox>) -> bool {
    forall|i: int, k: int|
        0 <= i < elements.len() && 0 <= k < popups.len() ==> {
            let at = (#[trigger] elements[i]).loc;
            let b = (#[trigger] popups[k]).offset;
            i32::MIN <= at.x + b.x <= i32::MAX && i32::MIN <= at.y + b.y <= i32::MAX
        }
}

proof fn lemma_popup_hit(popups: Seq<PopupBox>, e: Placed, p: Point)
    requires
        popups_placed(seq![e], popups),
    ensures
        match popup_hit(popups, e.window, e.loc, p) {
            Some(h) => exists|k: int|
                0 <= k < popups.len() && holds(#[trigger] popups[k], e.window, e.loc, p)
                    && popups[k].surface == h.surface && h.loc.x == e.loc.x + popups[k].offset.x
                    && h.loc.y == e.loc.y + popups[k].offset.y && forall|j: int|
                    0 <= j < k ==> !holds(#[trigger] popups[j], e.window, e.loc, p),
            None => forall|j: int|
                0 <= j < popups.len() ==> !holds(#[trigger] popups[j], e.window, e.loc, p),
        },
    decreases popups.len(),
{
    if popups.len() > 0 {
        let b = popups[0];
        let rest = popups.drop_first();
        let one = seq![e];
        assert(one[0].loc == e.loc);
        assert(i32::MIN <= one[0].loc.x + popups[0].offset.x <= i32::MAX);
        assert forall|i: int, k: int| 0 <= i < one.len() && 0 <= k < rest.len() implies ({
            let at = (#[trigger] one[i]).loc;
            let b = (#[trigger] rest[k]).offset;
            i32::MIN <= at.x + b.x <= i32::MAX && i32::MIN <= at.y + b.y <= i32::MAX
        }) by {
            assert(popups[k + 1] == rest[k]);
        }
        if holds(b, e.window, e.loc, p) {
            assert(popup_hit(popups, e.window, e.loc, p) is Some);
        } else {
            lemma_popup_hit(rest, e, p);
            match popup_hit(rest, e.window, e.loc, p) {
                Some(h) => {
                    let k = choose|k: int|
                        0 <= k < rest.len() && holds(#[trigger] rest[k], e.window, e.loc, p)
                            && rest[k].surface == h.surface && h.loc.x == e.loc.x
                            + rest[k].offset.x && h.loc.y == e.loc.y + rest[k].offset.y && forall|
                            j: int,
                        |
                            0 <= j < k ==> !holds(#[trigger] rest[j], e.window, e.loc, p);
                    assert(popups[k + 1] == rest[k]);
                    assert forall|j: int| 0 <= j < k + 1 implies !holds(
                        #[trigger] popups[j],
                        e.window,
                        e.loc,
                        p,
                    ) by {
                        if j > 0 {
                            assert(rest[j - 1] == popups[j]);
                        }
                    }
                },
                None => {
                    assert forall|j: int| 0 <= j < popups.len() implies !holds(
                        #[trigger] popups[j],
                        e.window,
                        e.loc,
                        p,
                    ) by {
                        if j > 0 {
                            assert(rest[j - 1] == popups[j]);
                        }
                    }
                },
            }
        }
    }
}

/// Whether window `i` of the space has a popup that holds a point.
pub open spec fn popup_at(
    elements: Seq<Placed>,
    popups: Seq<PopupBox>,
    p: Point,
    i: int,
) -> bool {
    exists|k: int|
        0 <= k < popups.len() && holds(
            #[trigger] popups[k],
            elements[i].window,
            elements[i].loc,
            p,
        )
}

/// The popup under a point is one that holds it, at the place where it hangs on
/// its window; windows are taken in order, and of one window the popups in
/// order. There is one wherever a popup holds the point.
pub proof fn lemma_popup_under_the_pointer(
    elements: Seq<Placed>,
    popups: Seq<PopupBox>,
    p: Point,
)
    requires
        popups_placed(elements, popups),
    ensures
        match popups_hit(elements, popups, p) {
            Some(h) => exists|i: int, k: int|
                0 <= i < elements.len() && 0 <= k < popups.len() && holds(
                    #[trigger] popups[k],
                    (#[trigger] elements[i]).window,
                    elements[i].loc,
                    p,
                ) && h.surface == popups[k].surface && h.loc.x == elements[i].loc.x
                    + popups[k].offset.x && h.loc.y == elements[i].loc.y + popups[k].offset.y && (
                forall|j: int| 0 <= j < i ==> !#[trigger] popup_at(elements, popups, p, j)),
            None => forall|i: int|
                0 <= i < elements.len() ==> !#[trigger] popup_at(elements, popups, p, i),
        },
    decreases elements.len(),
{
    if elements.len() > 0 {
        let e = elements[0];
        let rest = elements.drop_first();
        let one = seq![e];
        assert forall|i: int, k: int| 0 <= i < one.len() && 0 <= k < popups.len() implies ({
            let at = (#[trigger] one[i]).loc;
            let b = (#[trigger] popups[k]).offset;
            i32::MIN <= at.x + b.x <= i32::MAX && i32::MIN <= at.y + b.y <= i32::MAX
        }) by {
            assert(elements[0].loc == one[i].loc);
        }
        assert forall|i: int, k: int| 0 <= i < rest.len() && 0 <= k < popups.len() implies ({
            let at = (#[trigger] rest[i]).loc;
            let b = (#[trigger] popups[k]).offset;
            i32::MIN <= at.x + b.x <= i32::MAX && i32::MIN <= at.y + b.y <= i32::MAX
        }) by {
            assert(elements[i + 1] == rest[i]);
        }
        lemma_popup_hit(popups, e, p);
        match popup_hit(popups, e.window, e.loc, p) {
            Some(h) => {
                let k = choose|k: int|
                    0 <= k < popups.len() && holds(#[trigger] popups[k], e.window, e.loc, p)
                        && popups[k].surface == h.surface && h.loc.x == e.loc.x
                        + popups[k].offset.x && h.loc.y == e.loc.y + popups[k].offset.y && forall|
                        j: int,
                    |
                        0 <= j < k ==> !holds(#[trigger] popups[j], e.window, e.loc, p);
                assert(holds(popups[k], elements[0].window, elements[0].loc, p));
            },
            None => {
                assert(!popup_at(elements, popups, p, 0));
                lemma_popup_under_the_pointer(rest, popups, p);
                match popups_hit(rest, popups, p) {
                    Some(h) => {
                        let (i, k) = choose|i: int, k: int|
                            0 <= i < rest.len() && 0 <= k < popups.len() && holds(
                                #[trigger] popups[k],
                                (#[trigger] rest[i]).window,
                                rest[i].loc,
                                p,
                            ) && h.surface == popups[k].surface && h.loc.x == rest[i].loc.x
                                + popups[k].offset.x && h.loc.y == rest[i].loc.y
                                + popups[k].offset.y && (forall|j: int|
                                0 <= j < i ==> !#[trigger] popup_at(rest, popups, p, j));
                        assert(elements[i + 1] == rest[i]);
                        assert forall|j: int| 0 <= j < i + 1 implies !#[trigger] popup_at(
                            elements,
                            popups,
                            p,
                            j,
                        ) by {
                            if j > 0 {
                                assert(rest[j - 1] == elements[j]);
                                assert(!popup_at(rest, popups, p, j - 1));
                            }
                        }
                        assert(holds(popups[k], elements[i + 1].window, elements[i + 1].loc, p));
                    },
                    None => {
                        assert forall|j: int| 0 <= j < elements.len() implies !#[trigger] popup_at(
                            elements,
                            popups,
                            p,
                            j,
                        ) by {
                            if j > 0 {
                                assert(rest[j - 1] == elements[j]);
                                assert(!popup_at(rest, popups, p, j - 1));
                            }
                        }
                    },
                }
            },
        }
    }
}

// ---------------------------------------------------------------------------
// All together
// ---------------------------------------------------------------------------
/// What is in front gets the pointer: the overlay layer before the top layer,
/// before popups, before windows, before the bottom layer, before the
/// background.
pub proof fn lemma_front_gets_the_pointer(
    s: EwmView,
    location: PointerLocation,
    hits: Seq<LayerHit>,
    popups: Seq<PopupBox>,
    window: Option<Hit>,
)
    ensures
        ({
            let r = s.surface_under(location, hits, popups, window);
            let overlay = s.layer_hit(location, hits, Layer::Overlay);
            let top = s.layer_hit(location, hits, Layer::Top);
            let popup = popups_hit(s.space.elements, popups, location.floor);
            let bottom = s.layer_hit(location, hits, Layer::Bottom);
            let background = s.layer_hit(location, hits, Layer::Background);
            &&& overlay is Some ==> r == overlay
            &&& overlay is None && top is Some ==> r == top
            &&& overlay is None && top is None && popup is Some ==> r == popup
            &&& overlay is None && top is None && popup is None && window is Some ==> r == window
            &&& overlay is None && top is None && popup is None && window is None && bottom is Some
                ==> r == bottom
            &&& overlay is None && top is None && popup is None && window is None && bottom is None
                ==> r == background
        }),
{
}

/// The layer surface under the pointer is on the highest layer that is hit at
/// all.
pub proof fn lemma_highest_layer_surface(s: EwmView, location: PointerLocation, hits: Seq<LayerHit>)
    ensures
        ({
            let r = s.layer_under(location, hits);
            let at = |layer: Layer|
                match s.output_at(location) {
                    Some(o) => top_hit(s.layers, hits, o.handle, layer),
                    None => None,
                };
            let overlay = at(Layer::Overlay);
            let top = at(Layer::Top);
            let bottom = at(Layer::Bottom);
            let background = at(Layer::Background);
            &&& overlay is Some ==> r == Some(overlay->0.layer)
            &&& overlay is None && top is Some ==> r == Some(top->0.layer)
            &&& overlay is None && top is None && bottom is Some ==> r == Some(bottom->0.layer)
            &&& overlay is None && top is None && bottom is None && background is Some ==> r
                == Some(background->0.layer)
            &&& overlay is None && top is None && bottom is None && background is None ==> r is None
        }),
{
}

/// While the session is locked the pointer reaches nothing but the lock screen.
pub proof fn lemma_pointer_of_a_locked_session(
    s: EwmView,
    location: PointerLocation,
    hits: Seq<LayerHit>,
    popups: Seq<PopupBox>,
    window: Option<Hit>,
)
    ensures
        s.lock_state !is Unlocked ==> match s.pointer_focus(location, hits, popups, window) {
            Some(h) => s.lock_focus() == Some(h.surface) && h.loc.x == 0 && h.loc.y == 0,
            None => s.lock_focus() is None,
        },
        s.lock_state is Unlocked ==> s.pointer_focus(location, hits, popups, window)
            == s.surface_under(location, hits, popups, window),
{
}

// ---------------------------------------------------------------------------
// Outputs of a window
// ---------------------------------------------------------------------------
/// Whether some output of this handle has a point in common with a rectangle.
pub open spec fn meets(outputs: Seq<OutputView>, r: Rectangle, handle: OutputHandle) -> bool {
    exists|i: int|
        0 <= i < outputs.len() && (#[trigger] outputs[i]).handle == handle && exists|p: Point|
            is_in(p, r) && is_in(p, Rectangle { loc: outputs[i].loc, size: outputs[i].size })
}

/// Whether all outputs have a proper size that is not nothing.
pub open spec fn outputs_shown(outputs: Seq<OutputView>) -> bool {
    forall|i: int|
        0 <= i < outputs.len() ==> {
            let o = #[trigger] outputs[i];
            is_proper(Rectangle { loc: o.loc, size: o.size }) && o.size.w > 0 && o.size.h > 0
        }
}

proof fn lemma_outputs_at(outputs: Seq<OutputView>, r: Rectangle, handle: OutputHandle)
    requires
        outputs_shown(outputs),
        is_proper(r),
        r.size.w > 0,
        r.size.h > 0,
    ensures
        outputs_at(outputs, r).contains(handle) <==> meets(outputs, r, handle),
    decreases outputs.len(),
{
    if outputs.len() > 0 {
        let rest = outputs.drop_last();
        let o = outputs.last();
        let all = outputs_at(outputs, r);
        let before = outputs_at(rest, r);
        assert forall|i: int| 0 <= i < rest.len() implies {
            let o = #[trigger] rest[i];
            is_proper(Rectangle { loc: o.loc, size: o.size }) && o.size.w > 0 && o.size.h > 0
        } by {
            assert(outputs[i] == rest[i]);
        }
        lemma_outputs_at(rest, r, handle);
        assert(outputs[outputs.len() - 1] == o);
        lemma_overlap_is_a_common_point(o.geometry(), r);
        if all.contains(handle) {
            let k = choose|k: int| 0 <= k < all.len() && all[k] == handle;
            if k < before.len() {
                assert(before[k] == handle);
                let i = choose|i: int|
                    0 <= i < rest.len() && (#[trigger] rest[i]).handle == handle && exists|p: Point|
                        is_in(p, r) && is_in(
                            p,
                            Rectangle { loc: rest[i].loc, size: rest[i].size },
                        );
                assert(outputs[i] == rest[i]);
            } else {
                assert(outputs[outputs.len() - 1].handle == handle);
            }
        }
        if meets(outputs, r, handle) {
            let i = choose|i: int|
                0 <= i < outputs.len() && (#[trigger] outputs[i]).handle == handle && exists|
                    p: Point,
                |
                    is_in(p, r) && is_in(
                        p,
                        Rectangle { loc: outputs[i].loc, size: outputs[i].size },
                    );
            if i < rest.len() {
                assert(rest[i] == outputs[i]);
                assert(meets(rest, r, handle));
                let k = choose|k: int| 0 <= k < before.len() && before[k] == handle;
                assert(all[k] == handle);
            } else {
                assert(all[all.len() - 1] == handle);
            }
        }
    }
}

proof fn lemma_with_new(found: Seq<OutputHandle>, more: Seq<OutputHandle>, handle: OutputHandle)
    ensures
        with_new(found, more).contains(handle) <==> found.contains(handle) || more.contains(handle),
        found.no_duplicates() ==> with_new(found, more).no_duplicates(),
    decreases more.len(),
{
    if more.len() > 0 {
        let rest = more.drop_last();
        lemma_with_new(found, rest, handle);
        let before = with_new(found, rest);
        let all = with_new(found, more);
        if all.contains(handle) {
            let k = choose|k: int| 0 <= k < all.len() && all[k] == handle;
            if k < before.len() {
                assert(before[k] == handle);
                if !found.contains(handle) {
                    let m = choose|m: int| 0 <= m < rest.len() && rest[m] == handle;
                    assert(more[m] == handle);
                }
            } else {
                assert(more[more.len() - 1] == handle);
            }
        }
        if found.contains(handle) || rest.contains(handle) {
            let k = choose|k: int| 0 <= k < before.len() && before[k] == handle;
            assert(all[k] == handle);
        } else if more.contains(handle) {
            let m = choose|m: int| 0 <= m < more.len() && more[m] == handle;
            if m < rest.len() {
                assert(rest[m] == handle);
            }
            assert(all[all.len() - 1] == handle);
        }
    }
}

proof fn lemma_outputs_of_views(
    outputs: Seq<OutputView>,
    list: Seq<SurfaceView>,
    size: Size,
    handle: OutputHandle,
)
    requires
        outputs_shown(outputs),
        size.w > 0,
        size.h > 0,
        forall|i: int|
            0 <= i < list.len() ==> (#[trigger] list[i]).x + size.w <= i32::MAX && list[i].y
                + size.h <= i32::MAX,
    ensures
        outputs_of_views(outputs, list, size).no_duplicates(),
        outputs_of_views(outputs, list, size).contains(handle) <==> exists|i: int|
            0 <= i < list.len() && meets(
                outputs,
                Rectangle { loc: Point { x: (#[trigger] list[i]).x, y: list[i].y }, size },
                handle,
            ),
    decreases list.len(),
{
    if list.len() > 0 {
        let rest = list.drop_last();
        let v = list.last();
        let r = Rectangle { loc: Point { x: v.x, y: v.y }, size };
        assert(list[list.len() - 1] == v);
        assert forall|i: int| 0 <= i < rest.len() implies (#[trigger] rest[i]).x + size.w
            <= i32::MAX && rest[i].y + size.h <= i32::MAX by {
            assert(list[i] == rest[i]);
        }
        lemma_outputs_of_views(outputs, rest, size, handle);
        lemma_outputs_at(outputs, r, handle);
        lemma_with_new(
            outputs_of_views(outputs, rest, size),
            outputs_at(outputs, r),
            handle,
        );
        if outputs_of_views(outputs, rest, size).contains(handle) {
            let i = choose|i: int|
                0 <= i < rest.len() && meets(
                    outputs,
                    Rectangle { loc: Point { x: (#[trigger] rest[i]).x, y: rest[i].y }, size },
                    handle,
                );
            assert(list[i] == rest[i]);
        }
        if exists|i: int|
            0 <= i < list.len() && meets(
                outputs,
                Rectangle { loc: Point { x: (#[trigger] list[i]).x, y: list[i].y }, size },
                handle,
            ) {
            let i = choose|i: int|
                0 <= i < list.len() && meets(
                    outputs,
                    Rectangle { loc: Point { x: (#[trigger] list[i]).x, y: list[i].y }, size },
                    handle,
                );
            if i < rest.len() {
                assert(rest[i] == list[i]);
            }
        }
    }
}

/// A window of known size is on an output exactly where one of its views has a
/// point in common with it; it is on none twice.
pub proof fn lemma_outputs_of_a_declared_window(
    s: EwmView,
    id: u32,
    size: Size,
    handle: OutputHandle,
)
    requires
        s.surface_views.contains_key(id),
        s.id_windows.contains_key(id),
        outputs_shown(s.space.outputs),
        size.w > 0,
        size.h > 0,
        forall|i: int|
            0 <= i < s.surface_views[id].len() ==> (#[trigger] s.surface_views[id][i]).x + size.w
                <= i32::MAX && s.surface_views[id][i].y + size.h <= i32::MAX,
    ensures
        s.window_outputs(id, Some(size)).no_duplicates(),
        s.window_outputs(id, Some(size)).contains(handle) <==> exists|i: int|
            0 <= i < s.surface_views[id].len() && meets(
                s.space.outputs,
                Rectangle {
                    loc: Point {
                        x: (#[trigger] s.surface_views[id][i]).x,
                        y: s.surface_views[id][i].y,
                    },
                    size,
                },
                handle,
            ),
{
    lemma_outputs_of_views(s.space.outputs, s.surface_views[id], size, handle);
}

/// A window without views is on the outputs that it has a point in common with
/// at its place.
pub proof fn lemma_outputs_of_a_placed_window(
    s: EwmView,
    id: u32,
    size: Size,
    handle: OutputHandle,
)
    requires
        !s.surface_views.contains_key(id),
        s.id_windows.contains_key(id),
        s.space.element_location(s.id_windows[id]) is Some,
        outputs_shown(s.space.outputs),
        ({
            let loc = s.space.element_location(s.id_windows[id])->0;
            is_proper(Rectangle { loc, size }) && size.w > 0 && size.h > 0
        }),
    ensures
        s.window_outputs(id, Some(size)).contains(handle) <==> meets(
            s.space.outputs,
            Rectangle { loc: s.space.element_location(s.id_windows[id])->0, size },
            handle,
        ),
{
    lemma_outputs_at(
        s.space.outputs,
        Rectangle { loc: s.space.element_location(s.id_windows[id])->0, size },
        handle,
    );
}

/// A window that is neither declared nor placed is on no output, and one of
/// unknown size that is declared counts as 100 wide and high.
pub proof fn lemma_outputs_of_other_windows(s: EwmView, id: u32)
    ensures
        !s.surface_views.contains_key(id) && (!s.id_windows.contains_key(id)
            || s.space.element_location(s.id_windows[id]) is None) ==> s.window_outputs(
            id,
            None,
        ).len() == 0,
        s.surface_views.contains_key(id) && s.id_windows.contains_key(id) ==> s.window_outputs(
            id,
            None,
        ) == s.window_outputs(id, Some(Size { w: 100, h: 100 })),
{
}

} // verus!
