//! What is under the pointer, and what is on which output.
//!
//! Whether a point hits a surface is for the display server side to tell,
//! which knows the input regions; in which order surfaces are asked is decided
//! here.
use vstd::prelude::*;

use crate::ewm::{Ewm, EwmView};
use crate::geometry::{Point, Rectangle, Size};
use crate::layers::{layer_views, Layer, LayerSurface, LayerSurfaceView};
use crate::module::{PointerLocation, SurfaceView};
use crate::space::{OutputHandle, OutputView, Placed, WindowHandle};

verus! {

/// A surface under the pointer, with its global place.
#[derive(Clone, Copy, Debug, PartialEq, Eq, Structural)]
pub struct Hit {
    pub surface: u64,
    pub loc: Point,
}

/// A layer surface that the pointer hits: the surface of its tree that is
/// hit, and that surface's place on the output.
#[derive(Clone, Copy, Debug, PartialEq, Eq, Structural)]
pub struct LayerHit {
    pub layer: u64,
    pub surface: u64,
    pub loc: Point,
}

/// A popup of a window: its surface, its corner relative to the window, and
/// its size.
#[derive(Clone, Copy, Debug, PartialEq, Eq, Structural)]
pub struct PopupBox {
    pub window: WindowHandle,
    pub surface: u64,
    pub offset: Point,
    pub size: Size,
}

/// The hit on a layer surface.
pub open spec fn hit_on(hits: Seq<LayerHit>, layer: u64) -> Option<LayerHit>
    decreases hits.len(),
{
    if hits.len() == 0 {
        None
    } else if hits[0].layer == layer {
        Some(hits[0])
    } else {
        hit_on(hits.drop_first(), layer)
    }
}

/// The topmost hit on this layer of this output: of the surfaces that came
/// later the first that is hit.
pub open spec fn top_hit(
    layers: Seq<LayerSurfaceView>,
    hits: Seq<LayerHit>,
    output: OutputHandle,
    layer: Layer,
) -> Option<LayerHit>
    decreases layers.len(),
{
    if layers.len() == 0 {
        None
    } else {
        let l = layers.last();
        if l.output == output && l.layer == layer && hit_on(hits, l.surface) is Some {
            hit_on(hits, l.surface)
        } else {
            top_hit(layers.drop_last(), hits, output, layer)
        }
    }
}

/// Whether the point, rounded down, lies in the box of this corner and size.
pub open spec fn in_box(p: Point, corner: Point, size: Size) -> bool {
    corner.x <= p.x && p.x - corner.x < size.w && corner.y <= p.y && p.y - corner.y < size.h
}

/// The first popup of this window that holds the point.
pub open spec fn popup_hit(
    popups: Seq<PopupBox>,
    window: WindowHandle,
    at: Point,
    p: Point,
) -> Option<Hit>
    decreases popups.len(),
{
    if popups.len() == 0 {
        None
    } else {
        let b = popups[0];
        let corner = at.offset_spec(b.offset);
        if b.window == window && in_box(p, corner, b.size) {
            Some(Hit { surface: b.surface, loc: corner })
        } else {
            popup_hit(popups.drop_first(), window, at, p)
        }
    }
}

/// The first popup that holds the point, windows taken from the lowest to the
/// topmost.
pub open spec fn popups_hit(
    elements: Seq<Placed>,
    popups: Seq<PopupBox>,
    p: Point,
) -> Option<Hit>
    decreases elements.len(),
{
    if elements.len() == 0 {
        None
    } else if popup_hit(popups, elements[0].window, elements[0].loc, p) is Some {
        popup_hit(popups, elements[0].window, elements[0].loc, p)
    } else {
        popups_hit(elements.drop_first(), popups, p)
    }
}

/// A hit on a layer surface, in global coordinates.
pub open spec fn global_hit(h: Option<LayerHit>, output_loc: Point) -> Option<Hit> {
    match h {
        Some(h) => Some(Hit { surface: h.surface, loc: h.loc.offset_spec(output_loc) }),
        None => None,
    }
}

impl EwmView {
    /// The hit on one layer of the output at the pointer.
    pub open spec fn layer_hit(
        self,
        location: PointerLocation,
        hits: Seq<LayerHit>,
        layer: Layer,
    ) -> Option<Hit> {
        match self.output_at(location) {
            Some(o) => global_hit(top_hit(self.layers, hits, o.handle, layer), o.loc),
            None => None,
        }
    }

    /// The surface under the pointer: on the overlay layer, the top layer, a
    /// popup, a window, the bottom layer, or the background.
    pub open spec fn surface_under(
        self,
        location: PointerLocation,
        hits: Seq<LayerHit>,
        popups: Seq<PopupBox>,
        window: Option<Hit>,
    ) -> Option<Hit> {
        if self.layer_hit(location, hits, Layer::Overlay) is Some {
            self.layer_hit(location, hits, Layer::Overlay)
        } else if self.layer_hit(location, hits, Layer::Top) is Some {
            self.layer_hit(location, hits, Layer::Top)
        } else if popups_hit(self.space.elements, popups, location.floor) is Some {
            popups_hit(self.space.elements, popups, location.floor)
        } else if window is Some {
            window
        } else if self.layer_hit(location, hits, Layer::Bottom) is Some {
            self.layer_hit(location, hits, Layer::Bottom)
        } else {
            self.layer_hit(location, hits, Layer::Background)
        }
    }

    /// The layer surface under the pointer, the highest layer first.
    pub open spec fn layer_under(
        self,
        location: PointerLocation,
        hits: Seq<LayerHit>,
    ) -> Option<u64> {
        match self.output_at(location) {
            Some(o) => {
                let overlay = top_hit(self.layers, hits, o.handle, Layer::Overlay);
                let top = top_hit(self.layers, hits, o.handle, Layer::Top);
                let bottom = top_hit(self.layers, hits, o.handle, Layer::Bottom);
                let background = top_hit(self.layers, hits, o.handle, Layer::Background);
                if overlay is Some {
                    Some(overlay->0.layer)
                } else if top is Some {
                    Some(top->0.layer)
                } else if bottom is Some {
                    Some(bottom->0.layer)
                } else if background is Some {
                    Some(background->0.layer)
                } else {
                    None
                }
            },
            None => None,
        }
    }

    /// Where the pointer's events go: to the lock screen while the session is
    /// locked, and otherwise to the surface under the pointer.
    pub open spec fn pointer_focus(
        self,
        location: PointerLocation,
        hits: Seq<LayerHit>,
        popups: Seq<PopupBox>,
        window: Option<Hit>,
    ) -> Option<Hit> {
        if self.is_locked_spec() {
            match self.lock_focus() {
                Some(surface) => Some(Hit { surface, loc: Point { x: 0, y: 0 } }),
                None => None,
            }
        } else {
            self.surface_under(location, hits, popups, window)
        }
    }
}

fn find_hit(hits: &Vec<LayerHit>, layer: u64) -> (r: Option<LayerHit>)
    ensures
        r == hit_on(hits@, layer),
{
    let mut i: usize = 0;
    proof {
        assert(hits@.skip(0) =~= hits@);
    }
    while i < hits.len()
        invariant
            i <= hits@.len(),
            hit_on(hits@, layer) == hit_on(hits@.skip(i as int), layer),
        decreases hits@.len() - i,
    {
        proof {
            assert(hits@.skip(i as int).drop_first() =~= hits@.skip(i + 1));
        }
        if hits[i].layer == layer {
            return Some(hits[i]);
        }
        i += 1;
    }
    None
}

fn find_top_hit(
    layers: &Vec<LayerSurface>,
    hits: &Vec<LayerHit>,
    output: OutputHandle,
    layer: Layer,
) -> (r: Option<LayerHit>)
    ensures
        r == top_hit(layer_views(layers@), hits@, output, layer),
{
    let ghost all = layer_views(layers@);
    let mut i: usize = layers.len();
    proof {
        assert(all.take(i as int) =~= all);
    }
    while i > 0
        invariant
            i <= layers@.len(),
            all == layer_views(layers@),
            top_hit(all, hits@, output, layer) == top_hit(
                all.take(i as int),
                hits@,
                output,
                layer,
            ),
        decreases i,
    {
        let l: &LayerSurface = &layers[i - 1];
        proof {
            assert(all.take(i as int).last() == layers@[i - 1]@);
            assert(all.take(i as int).drop_last() =~= all.take(i - 1));
        }
        if l.output == output && l.layer == layer {
            let h: Option<LayerHit> = find_hit(hits, l.surface);
            if h.is_some() {
                return h;
            }
        }
        i -= 1;
    }
    None
}

fn find_popup(popups: &Vec<PopupBox>, window: WindowHandle, at: Point, p: Point) -> (r: Option<
    Hit,
>)
    ensures
        r == popup_hit(popups@, window, at, p),
{
    let mut i: usize = 0;
    proof {
        assert(popups@.skip(0) =~= popups@);
    }
    while i < popups.len()
        invariant
            i <= popups@.len(),
            popup_hit(popups@, window, at, p) == popup_hit(
                popups@.skip(i as int),
                window,
                at,
                p,
            ),
        decreases popups@.len() - i,
    {
        proof {
            assert(popups@.skip(i as int).drop_first() =~= popups@.skip(i + 1));
        }
        let b: PopupBox = popups[i];
        if b.window == window {
            let corner: Point = at.offset(b.offset);
            let dx: i64 = p.x as i64 - corner.x as i64;
            let dy: i64 = p.y as i64 - corner.y as i64;
            if 0 <= dx && dx < b.size.w as i64 && 0 <= dy && dy < b.size.h as i64 {
                return Some(Hit { surface: b.surface, loc: corner });
            }
        }
        i += 1;
    }
    None
}

fn to_global(h: Option<LayerHit>, output_loc: Point) -> (r: Option<Hit>)
    ensures
        r == global_hit(h, output_loc),
{
    match h {
        Some(h) => Some(Hit { surface: h.surface, loc: h.loc.offset(output_loc) }),
        None => None,
    }
}

impl Ewm {
    fn output_place(&self, location: &PointerLocation) -> (r: Option<(OutputHandle, Point)>)
        ensures
            r == match self@.output_at(*location) {
                Some(o) => Some((o.handle, o.loc)),
                None => None,
            },
    {
        match self.space.output_index_showing(location.cell) {
            Some(i) => Some((self.space.outputs[i].handle, self.space.outputs[i].loc)),
            None => if self.space.outputs.len() > 0 {
                Some((self.space.outputs[0].handle, self.space.outputs[0].loc))
            } else {
                None
            },
        }
    }

    /// The topmost surface of one layer under the pointer.
    pub fn layer_surface_under(
        &self,
        location: &PointerLocation,
        hits: &Vec<LayerHit>,
        layer: Layer,
    ) -> (r: Option<Hit>)
        ensures
            r == self@.layer_hit(*location, hits@, layer),
    {
        match self.output_place(location) {
            Some((output, loc)) => to_global(find_top_hit(&self.layers, hits, output, layer), loc),
            None => None,
        }
    }

    /// The layer surface under the pointer.
    pub fn layer_under_point(&self, location: &PointerLocation, hits: &Vec<LayerHit>) -> (r: Option<
        u64,
    >)
        ensures
            r == self@.layer_under(*location, hits@),
    {
        let (output, _) = match self.output_place(location) {
            Some(place) => place,
            None => return None,
        };
        if let Some(h) = find_top_hit(&self.layers, hits, output, Layer::Overlay) {
            return Some(h.layer);
        }
        if let Some(h) = find_top_hit(&self.layers, hits, output, Layer::Top) {
            return Some(h.layer);
        }
        if let Some(h) = find_top_hit(&self.layers, hits, output, Layer::Bottom) {
            return Some(h.layer);
        }
        if let Some(h) = find_top_hit(&self.layers, hits, output, Layer::Background) {
            return Some(h.layer);
        }
        None
    }

    /// The surface under the pointer. `hits` are the layer surfaces that it
    /// hits, `popups` the popups of all windows, and `window` the topmost
    /// window that it hits.
    pub fn surface_under_point(
        &self,
        location: &PointerLocation,
        hits: &Vec<LayerHit>,
        popups: &Vec<PopupBox>,
        window: Option<Hit>,
    ) -> (r: Option<Hit>)
        ensures
            r == self@.surface_under(*location, hits@, popups@, window),
    {
        let overlay: Option<Hit> = self.layer_surface_under(location, hits, Layer::Overlay);
        if overlay.is_some() {
            return overlay;
        }
        let top: Option<Hit> = self.layer_surface_under(location, hits, Layer::Top);
        if top.is_some() {
            return top;
        }
        let ghost elements = self@.space.elements;
        let mut i: usize = 0;
        proof {
            assert(elements.skip(0) =~= elements);
        }
        while i < self.space.elements.len()
            invariant
                i <= elements.len(),
                elements == self.space.elements@,
                self@.layer_hit(*location, hits@, Layer::Overlay) is None,
                self@.layer_hit(*location, hits@, Layer::Top) is None,
                elements == self@.space.elements,
                popups_hit(elements, popups@, location.floor) == popups_hit(
                    elements.skip(i as int),
                    popups@,
                    location.floor,
                ),
            decreases elements.len() - i,
        {
            proof {
                assert(elements.skip(i as int).drop_first() =~= elements.skip(i + 1));
            }
            let e: Placed = self.space.elements[i];
            let h: Option<Hit> = find_popup(popups, e.window, e.loc, location.floor);
            if h.is_some() {
                return h;
            }
            i += 1;
        }
        if window.is_some() {
            return window;
        }
        let bottom: Option<Hit> = self.layer_surface_under(location, hits, Layer::Bottom);
        if bottom.is_some() {
            return bottom;
        }
        self.layer_surface_under(location, hits, Layer::Background)
    }

    /// Where the pointer's events go.
    pub fn pointer_focus(
        &self,
        location: &PointerLocation,
        hits: &Vec<LayerHit>,
        popups: &Vec<PopupBox>,
        window: Option<Hit>,
    ) -> (r: Option<Hit>)
        ensures
            r == self@.pointer_focus(*location, hits@, popups@, window),
    {
        if self.is_locked() {
            match self.lock_surface_focus() {
                Some(surface) => Some(Hit { surface, loc: Point { x: 0, y: 0 } }),
                None => None,
            }
        } else {
            self.surface_under_point(location, hits, popups, window)
        }
    }
}

// ---------------------------------------------------------------------------
// Outputs that a window is on
// ---------------------------------------------------------------------------
/// The handles of the outputs that overlap the rectangle, in order.
pub open spec fn outputs_at(outputs: Seq<OutputView>, r: Rectangle) -> Seq<OutputHandle>
    decreases outputs.len(),
{
    if outputs.len() == 0 {
        Seq::empty()
    } else {
        let before = outputs_at(outputs.drop_last(), r);
        if outputs.last().geometry().overlaps_spec(r) {
            before.push(outputs.last().handle)
        } else {
            before
        }
    }
}

/// `found` with the handles of `more` that it does not have, in order.
pub open spec fn with_new(found: Seq<OutputHandle>, more: Seq<OutputHandle>) -> Seq<OutputHandle>
    decreases more.len(),
{
    if more.len() == 0 {
        found
    } else {
        let before = with_new(found, more.drop_last());
        if before.contains(more.last()) {
            before
        } else {
            before.push(more.last())
        }
    }
}

/// The rectangle of a view of a window of this size.
pub open spec fn view_rectangle(v: SurfaceView, size: Size) -> Rectangle {
    Rectangle { loc: Point { x: v.x, y: v.y }, size }
}

/// The outputs that some view overlaps: those of the first view, then those
/// that the further views add.
pub open spec fn outputs_of_views(
    outputs: Seq<OutputView>,
    list: Seq<SurfaceView>,
    size: Size,
) -> Seq<OutputHandle>
    decreases list.len(),
{
    if list.len() == 0 {
        Seq::empty()
    } else {
        with_new(
            outputs_of_views(outputs, list.drop_last(), size),
            outputs_at(outputs, view_rectangle(list.last(), size)),
        )
    }
}

impl EwmView {
    /// The outputs that a window is on: those that its views overlap, or,
    /// where it has no views, those that it overlaps at its place. `size` is
    /// the window's size; 100x100 is taken where it is not known.
    pub open spec fn window_outputs(self, id: u32, size: Option<Size>) -> Seq<OutputHandle> {
        if self.surface_views.contains_key(id) {
            outputs_of_views(
                self.space.outputs,
                self.surface_views[id],
                match size {
                    Some(s) if self.id_windows.contains_key(id) => s,
                    _ => Size { w: 100, h: 100 },
                },
            )
        } else if self.id_windows.contains_key(id) && size is Some {
            match self.space.element_location(self.id_windows[id]) {
                Some(loc) => outputs_at(self.space.outputs, Rectangle { loc, size: size->0 }),
                None => Seq::empty(),
            }
        } else {
            Seq::empty()
        }
    }
}

/// Whether a list holds a handle.
pub fn contains_handle(found: &Vec<u64>, h: u64) -> (r: bool)
    ensures
        r == found@.contains(h),
{
    let mut i: usize = 0;
    while i < found.len()
        invariant
            i <= found@.len(),
            forall|j: int| 0 <= j < i ==> found@[j] != h,
        decreases found@.len() - i,
    {
        if found[i] == h {
            return true;
        }
        i += 1;
    }
    false
}

impl Ewm {
    fn outputs_overlapping(&self, rect: Rectangle) -> (r: Vec<OutputHandle>)
        ensures
            r@ == outputs_at(self@.space.outputs, rect),
    {
        let ghost outputs = self@.space.outputs;
        let mut r: Vec<OutputHandle> = Vec::new();
        let mut i: usize = 0;
        proof {
            assert(outputs.take(0) =~= Seq::<OutputView>::empty());
        }
        while i < self.space.outputs.len()
            invariant
                i <= self.space.outputs@.len(),
                outputs == self@.space.outputs,
                r@ == outputs_at(outputs.take(i as int), rect),
            decreases self.space.outputs@.len() - i,
        {
            proof {
                assert(outputs.take(i + 1).drop_last() =~= outputs.take(i as int));
                assert(outputs.take(i + 1).last() == self.space.outputs@[i as int]@);
            }
            if self.space.outputs[i].geometry().overlaps(rect) {
                r.push(self.space.outputs[i].handle);
            }
            i += 1;
        }
        proof {
            assert(outputs.take(i as int) =~= outputs);
        }
        r
    }

    /// The outputs that a window of this size is on.
    pub fn outputs_for_window(&self, window_id: u32, size: Option<Size>) -> (r: Vec<OutputHandle>)
        ensures
            r@ == self@.window_outputs(window_id, size),
    {
        match self.surface_views.get(&window_id) {
            Some(list) => {
                proof {
                    assert(self@.surface_views[window_id] == list@);
                }
                let known: bool = self.id_windows.contains_key(&window_id);
                let size: Size = match size {
                    Some(s) => if known {
                        s
                    } else {
                        Size { w: 100, h: 100 }
                    },
                    None => Size { w: 100, h: 100 },
                };
                let ghost outputs = self@.space.outputs;
                let mut found: Vec<OutputHandle> = Vec::new();
                let mut i: usize = 0;
                proof {
                    assert(list@.take(0) =~= Seq::<SurfaceView>::empty());
                }
                while i < list.len()
                    invariant
                        i <= list@.len(),
                        outputs == self@.space.outputs,
                        found@ == outputs_of_views(outputs, list@.take(i as int), size),
                    decreases list@.len() - i,
                {
                    let v: SurfaceView = list[i];
                    proof {
                        assert(list@.take(i + 1).drop_last() =~= list@.take(i as int));
                        assert(list@.take(i + 1).last() == v);
                    }
                    let here: Vec<OutputHandle> = self.outputs_overlapping(
                        Rectangle { loc: Point { x: v.x, y: v.y }, size },
                    );
                    let ghost before = found@;
                    let mut k: usize = 0;
                    proof {
                        assert(here@.take(0) =~= Seq::<OutputHandle>::empty());
                    }
                    while k < here.len()
                        invariant
                            k <= here@.len(),
                            found@ == with_new(before, here@.take(k as int)),
                        decreases here@.len() - k,
                    {
                        proof {
                            assert(here@.take(k + 1).drop_last() =~= here@.take(k as int));
                            assert(here@.take(k + 1).last() == here@[k as int]);
                        }
                        if !contains_handle(&found, here[k]) {
                            found.push(here[k]);
                        }
                        k += 1;
                    }
                    proof {
                        assert(here@.take(k as int) =~= here@);
                    }
                    i += 1;
                }
                proof {
                    assert(list@.take(i as int) =~= list@);
                }
                found
            },
            None => match self.id_windows.get(&window_id) {
                Some(window) => match size {
                    Some(size) => match self.space.element_location(*window) {
                        Some(loc) => self.outputs_overlapping(Rectangle { loc, size }),
                        None => Vec::new(),
                    },
                    None => Vec::new(),
                },
                None => Vec::new(),
            },
        }
    }
}

/// An output is listed for a rectangle exactly where it overlaps it.
pub proof fn lemma_outputs_at(outputs: Seq<OutputView>, r: Rectangle, h: OutputHandle)
    ensures
        outputs_at(outputs, r).contains(h) <==> exists|i: int|
            0 <= i < outputs.len() && (#[trigger] outputs[i]).handle == h
                && outputs[i].geometry().overlaps_spec(r),
    decreases outputs.len(),
{
    if outputs.len() > 0 {
        let rest = outputs.drop_last();
        let n = outputs.len() - 1;
        lemma_outputs_at(rest, r, h);
        let before = outputs_at(rest, r);
        let all = outputs_at(outputs, r);
        if all.contains(h) {
            let k = choose|k: int| 0 <= k < all.len() && all[k] == h;
            if k < before.len() {
                assert(before[k] == h);
                let i = choose|i: int|
                    0 <= i < rest.len() && (#[trigger] rest[i]).handle == h
                        && rest[i].geometry().overlaps_spec(r);
                assert(outputs[i] == rest[i]);
            } else {
                assert(outputs[n].handle == h);
            }
        }
        if exists|i: int|
            0 <= i < outputs.len() && (#[trigger] outputs[i]).handle == h
                && outputs[i].geometry().overlaps_spec(r) {
            let i = choose|i: int|
                0 <= i < outputs.len() && (#[trigger] outputs[i]).handle == h
                    && outputs[i].geometry().overlaps_spec(r);
            if i < n {
                assert(rest[i] == outputs[i]);
                let k = choose|k: int| 0 <= k < before.len() && before[k] == h;
                assert(all[k] == h);
            } else {
                assert(all[all.len() - 1] == h);
            }
        }
    }
}

/// Adding handles adds exactly the new ones, and none twice.
pub proof fn lemma_with_new(found: Seq<OutputHandle>, more: Seq<OutputHandle>, h: OutputHandle)
    requires
        found.no_duplicates(),
    ensures
        with_new(found, more).contains(h) <==> found.contains(h) || more.contains(h),
        with_new(found, more).no_duplicates(),
    decreases more.len(),
{
    if more.len() > 0 {
        let rest = more.drop_last();
        lemma_with_new(found, rest, h);
        let before = with_new(found, rest);
        let all = with_new(found, more);
        assert(more[more.len() - 1] == more.last());
        if more.contains(h) && h != more.last() {
            let k = choose|k: int| 0 <= k < more.len() && more[k] == h;
            assert(rest[k] == h);
        }
        if rest.contains(h) {
            let k = choose|k: int| 0 <= k < rest.len() && rest[k] == h;
            assert(more[k] == h);
        }
        if !before.contains(more.last()) {
            assert(all == before.push(more.last()));
            assert(all[all.len() - 1] == more.last());
            if before.contains(h) {
                let k = choose|k: int| 0 <= k < before.len() && before[k] == h;
                assert(all[k] == h);
            }
            if all.contains(h) {
                let k = choose|k: int| 0 <= k < all.len() && all[k] == h;
                if k < before.len() {
                    assert(before[k] == h);
                }
            }
        }
    }
}

/// While the session is locked the pointer reaches nothing but the lock
/// screen.
pub proof fn lemma_locked_pointer_focus(
    s: EwmView,
    location: PointerLocation,
    hits: Seq<LayerHit>,
    popups: Seq<PopupBox>,
    window: Option<Hit>,
)
    requires
        s.is_locked_spec(),
    ensures
        match s.pointer_focus(location, hits, popups, window) {
            Some(h) => s.lock_focus() == Some(h.surface),
            None => s.lock_focus() is None,
        },
{
}

/// A hit on the overlay layer hides everything else from the pointer.
pub proof fn lemma_overlay_is_topmost(
    s: EwmView,
    location: PointerLocation,
    hits: Seq<LayerHit>,
    popups: Seq<PopupBox>,
    window: Option<Hit>,
)
    requires
        s.layer_hit(location, hits, Layer::Overlay) is Some,
    ensures
        s.surface_under(location, hits, popups, window) == s.layer_hit(
            location,
            hits,
            Layer::Overlay,
        ),
{
}

} // verus!
