//! The global space: outputs with their places, and windows with theirs in
//! stacking order.
use vstd::prelude::*;

use crate::geometry::{Point, Rectangle, Size, Transform};
use crate::text::same_text;

verus! {

/// A window's handle, the number by which the display server side knows it.
pub type WindowHandle = u64;

/// An output's handle.
pub type OutputHandle = u64;

/// An output with its place in the space.
///
/// The scale is the bit pattern of a double and is only carried.
#[derive(Debug)]
pub struct Output {
    pub handle: OutputHandle,
    pub name: String,
    /// Size of the current mode, in physical pixels.
    pub mode: Size,
    pub transform: Transform,
    pub scale: u64,
    pub loc: Point,
    /// Logical size, after scale and transform.
    pub size: Size,
    /// The part, relative to the output, that no layer surface reserves.
    pub zone: Rectangle,
}

/// What an [`Output`] holds.
#[verifier::ext_equal]
pub struct OutputView {
    pub handle: OutputHandle,
    pub name: Seq<char>,
    pub mode: Size,
    pub transform: Transform,
    pub scale: u64,
    pub loc: Point,
    pub size: Size,
    pub zone: Rectangle,
}

impl View for Output {
    type V = OutputView;

    open spec fn view(&self) -> OutputView {
        OutputView {
            handle: self.handle,
            name: self.name@,
            mode: self.mode,
            transform: self.transform,
            scale: self.scale,
            loc: self.loc,
            size: self.size,
            zone: self.zone,
        }
    }
}

impl OutputView {
    /// The rectangle that the output shows.
    pub open spec fn geometry(self) -> Rectangle {
        Rectangle { loc: self.loc, size: self.size }
    }

    /// The global place of the corner of the part that no layer surface
    /// reserves.
    pub open spec fn zone_origin(self) -> Point {
        self.loc.offset_spec(self.zone.loc)
    }
}

impl Output {
    /// The rectangle that the output shows.
    pub fn geometry(&self) -> (r: Rectangle)
        ensures
            r == self@.geometry(),
    {
        Rectangle { loc: self.loc, size: self.size }
    }
}

/// A window with its place.
#[derive(Clone, Copy, Debug, PartialEq, Eq, Structural)]
pub struct Placed {
    pub window: WindowHandle,
    pub loc: Point,
}

/// The space.
#[derive(Debug)]
pub struct Space {
    /// In the order in which they were mapped.
    pub outputs: Vec<Output>,
    /// From the lowest to the topmost.
    pub elements: Vec<Placed>,
}

/// What a list of outputs holds.
pub open spec fn output_views(outputs: Seq<Output>) -> Seq<OutputView> {
    Seq::new(outputs.len(), |i: int| outputs[i]@)
}

/// What a [`Space`] holds.
#[verifier::ext_equal]
pub struct SpaceView {
    pub outputs: Seq<OutputView>,
    pub elements: Seq<Placed>,
}

impl View for Space {
    type V = SpaceView;

    open spec fn view(&self) -> SpaceView {
        SpaceView { outputs: output_views(self.outputs@), elements: self.elements@ }
    }
}

/// The first output that `wanted` holds of.
pub open spec fn first_output(
    outputs: Seq<OutputView>,
    wanted: spec_fn(OutputView) -> bool,
) -> Option<OutputView>
    decreases outputs.len(),
{
    if outputs.len() == 0 {
        None
    } else if wanted(outputs[0]) {
        Some(outputs[0])
    } else {
        first_output(outputs.drop_first(), wanted)
    }
}

/// The extent of all outputs from the origin, at least `from`.
pub open spec fn extent(outputs: Seq<OutputView>, from: Size) -> Size
    decreases outputs.len(),
{
    if outputs.len() == 0 {
        from
    } else {
        let before = extent(outputs.drop_last(), from);
        let geo = outputs.last().geometry();
        Size {
            w: (if before.w > geo.right_spec() {
                before.w as int
            } else {
                geo.right_spec()
            }) as i32,
            h: (if before.h > geo.bottom_spec() {
                before.h as int
            } else {
                geo.bottom_spec()
            }) as i32,
        }
    }
}

impl SpaceView {
    /// The space with nothing in it.
    pub open spec fn empty() -> SpaceView {
        SpaceView { outputs: Seq::empty(), elements: Seq::empty() }
    }

    /// The mapped output with this handle.
    pub open spec fn output(self, handle: OutputHandle) -> Option<OutputView> {
        first_output(self.outputs, |o: OutputView| o.handle == handle)
    }

    /// The first mapped output with this name.
    pub open spec fn output_named(self, name: Seq<char>) -> Option<OutputView> {
        first_output(self.outputs, |o: OutputView| o.name == name)
    }

    /// The first mapped output that shows this point.
    pub open spec fn output_showing(self, p: Point) -> Option<OutputView> {
        first_output(self.outputs, |o: OutputView| o.geometry().contains_spec(p))
    }

    /// The output that was mapped first.
    pub open spec fn primary(self) -> Option<OutputView> {
        if self.outputs.len() == 0 {
            None
        } else {
            Some(self.outputs[0])
        }
    }

    /// Whether the window is mapped.
    pub open spec fn has_element(self, window: WindowHandle) -> bool {
        exists|i: int| 0 <= i < self.elements.len() && #[trigger] self.elements[i].window == window
    }

    /// Where the window is mapped.
    pub open spec fn element_location(self, window: WindowHandle) -> Option<Point> {
        location_of(self.elements, window)
    }

    /// The elements without this window.
    pub open spec fn elements_without(self, window: WindowHandle) -> Seq<Placed> {
        self.elements.filter(|e: Placed| e.window != window)
    }

    /// The space with the window at this place, on top of all others.
    pub open spec fn map_element(self, window: WindowHandle, loc: Point) -> SpaceView {
        SpaceView {
            elements: self.elements_without(window).push(Placed { window, loc }),
            ..self
        }
    }

    /// The space without the window.
    pub open spec fn unmap_elem(self, window: WindowHandle) -> SpaceView {
        SpaceView { elements: self.elements_without(window), ..self }
    }

    /// The space without the output.
    pub open spec fn unmap_output(self, handle: OutputHandle) -> SpaceView {
        SpaceView { outputs: self.outputs.filter(|o: OutputView| o.handle != handle), ..self }
    }

    /// The extent of all outputs from the origin.
    pub open spec fn total_size(self) -> Size {
        extent(self.outputs, Size { w: 0, h: 0 })
    }

    /// No window and no output is mapped twice.
    pub open spec fn wf(self) -> bool {
        &&& forall|i: int, j: int|
            0 <= i < j < self.elements.len() ==> (#[trigger] self.elements[i]).window != (
            #[trigger] self.elements[j]).window
        &&& forall|i: int, j: int|
            0 <= i < j < self.outputs.len() ==> (#[trigger] self.outputs[i]).handle != (
            #[trigger] self.outputs[j]).handle
    }
}

/// Where the first element of this window stands.
pub open spec fn location_of(elements: Seq<Placed>, window: WindowHandle) -> Option<Point>
    decreases elements.len(),
{
    if elements.len() == 0 {
        None
    } else if elements[0].window == window {
        Some(elements[0].loc)
    } else {
        location_of(elements.drop_first(), window)
    }
}

/// The output found is one of the list, has the property, and no earlier one
/// has it; none is found only where none has it.
pub proof fn lemma_first_output(outputs: Seq<OutputView>, wanted: spec_fn(OutputView) -> bool)
    ensures
        match first_output(outputs, wanted) {
            Some(o) => exists|i: int|
                0 <= i < outputs.len() && outputs[i] == o && wanted(o) && forall|j: int|
                    0 <= j < i ==> !wanted(#[trigger] outputs[j]),
            None => forall|j: int| 0 <= j < outputs.len() ==> !wanted(#[trigger] outputs[j]),
        },
    decreases outputs.len(),
{
    if outputs.len() > 0 {
        if wanted(outputs[0]) {
            assert(outputs[0] == first_output(outputs, wanted)->0);
        } else {
            let rest = outputs.drop_first();
            lemma_first_output(rest, wanted);
            match first_output(rest, wanted) {
                Some(o) => {
                    let i = choose|i: int|
                        0 <= i < rest.len() && rest[i] == o && wanted(o) && forall|j: int|
                            0 <= j < i ==> !wanted(#[trigger] rest[j]);
                    assert(outputs[i + 1] == o);
                    assert forall|j: int| 0 <= j < i + 1 implies !wanted(#[trigger] outputs[j]) by {
                        if j > 0 {
                            assert(rest[j - 1] == outputs[j]);
                        }
                    }
                },
                None => {
                    assert forall|j: int| 0 <= j < outputs.len() implies !wanted(
                        #[trigger] outputs[j],
                    ) by {
                        if j > 0 {
                            assert(rest[j - 1] == outputs[j]);
                        }
                    }
                },
            }
        }
    }
}

/// An output that the predicate skips before position `i` is the one found
/// from there on.
proof fn lemma_first_output_skip(
    outputs: Seq<OutputView>,
    wanted: spec_fn(OutputView) -> bool,
    i: int,
)
    requires
        0 <= i <= outputs.len(),
        forall|j: int| 0 <= j < i ==> !wanted(#[trigger] outputs[j]),
    ensures
        first_output(outputs, wanted) == first_output(outputs.skip(i), wanted),
    decreases i,
{
    if i > 0 {
        lemma_first_output_skip(outputs, wanted, i - 1);
        assert(outputs.skip(i - 1).drop_first() =~= outputs.skip(i));
        assert(outputs.skip(i - 1)[0] == outputs[i - 1]);
    } else {
        assert(outputs.skip(0) =~= outputs);
    }
}

/// What a search by position tells of the first output.
proof fn lemma_found(outputs: Seq<OutputView>, wanted: spec_fn(OutputView) -> bool, i: int)
    requires
        0 <= i < outputs.len(),
        wanted(outputs[i]),
        forall|j: int| 0 <= j < i ==> !wanted(#[trigger] outputs[j]),
    ensures
        first_output(outputs, wanted) == Some(outputs[i]),
{
    lemma_first_output_skip(outputs, wanted, i);
    assert(outputs.skip(i)[0] == outputs[i]);
}

impl Space {
    /// An empty space.
    pub fn new() -> (r: Space)
        ensures
            r@ == SpaceView::empty(),
    {
        let r = Space { outputs: Vec::new(), elements: Vec::new() };
        proof {
            assert(r@ =~= SpaceView::empty());
        }
        r
    }

    /// Position of the mapped output with this handle.
    pub fn output_index(&self, handle: OutputHandle) -> (r: Option<usize>)
        ensures
            match r {
                Some(i) => i < self.outputs@.len() && self@.output(handle) == Some(
                    self.outputs@[i as int]@,
                ) && self.outputs@[i as int].handle == handle && (forall|j: int|
                    0 <= j < i ==> (#[trigger] self.outputs@[j]).handle != handle),
                None => self@.output(handle) is None && (forall|j: int|
                    0 <= j < self.outputs@.len() ==> (#[trigger] self.outputs@[j]).handle
                        != handle),
            },
    {
        let ghost wanted = |o: OutputView| o.handle == handle;
        let mut i: usize = 0;
        while i < self.outputs.len()
            invariant
                i <= self.outputs@.len(),
                wanted == (|o: OutputView| o.handle == handle),
                forall|j: int| 0 <= j < i ==> !wanted(#[trigger] self@.outputs[j]),
                forall|j: int| 0 <= j < i ==> (#[trigger] self.outputs@[j]).handle != handle,
            decreases self.outputs@.len() - i,
        {
            if self.outputs[i].handle == handle {
                proof {
                    lemma_found(self@.outputs, wanted, i as int);
                }
                return Some(i);
            }
            i += 1;
        }
        proof {
            lemma_first_output_skip(self@.outputs, wanted, i as int);
        }
        None
    }

    /// Position of the first mapped output with this name.
    pub fn output_index_named(&self, name: &str) -> (r: Option<usize>)
        ensures
            match r {
                Some(i) => i < self.outputs@.len() && self@.output_named(name@) == Some(
                    self.outputs@[i as int]@,
                ),
                None => self@.output_named(name@) is None,
            },
    {
        let ghost wanted = |o: OutputView| o.name == name@;
        let mut i: usize = 0;
        while i < self.outputs.len()
            invariant
                i <= self.outputs@.len(),
                wanted == (|o: OutputView| o.name == name@),
                forall|j: int| 0 <= j < i ==> !wanted(#[trigger] self@.outputs[j]),
            decreases self.outputs@.len() - i,
        {
            if same_text(self.outputs[i].name.as_str(), name) {
                proof {
                    lemma_found(self@.outputs, wanted, i as int);
                }
                return Some(i);
            }
            i += 1;
        }
        proof {
            lemma_first_output_skip(self@.outputs, wanted, i as int);
        }
        None
    }

    /// Position of the first mapped output that shows this point.
    pub fn output_index_showing(&self, p: Point) -> (r: Option<usize>)
        ensures
            match r {
                Some(i) => i < self.outputs@.len() && self@.output_showing(p) == Some(
                    self.outputs@[i as int]@,
                ),
                None => self@.output_showing(p) is None,
            },
    {
        let ghost wanted = |o: OutputView| o.geometry().contains_spec(p);
        let mut i: usize = 0;
        while i < self.outputs.len()
            invariant
                i <= self.outputs@.len(),
                wanted == (|o: OutputView| o.geometry().contains_spec(p)),
                forall|j: int| 0 <= j < i ==> !wanted(#[trigger] self@.outputs[j]),
            decreases self.outputs@.len() - i,
        {
            if self.outputs[i].geometry().contains(p) {
                proof {
                    lemma_found(self@.outputs, wanted, i as int);
                }
                return Some(i);
            }
            i += 1;
        }
        proof {
            lemma_first_output_skip(self@.outputs, wanted, i as int);
        }
        None
    }

    /// The rectangle that a mapped output shows.
    pub fn output_geometry(&self, handle: OutputHandle) -> (r: Option<Rectangle>)
        ensures
            r == match self@.output(handle) {
                Some(o) => Some(o.geometry()),
                None => None,
            },
    {
        match self.output_index(handle) {
            Some(i) => Some(self.outputs[i].geometry()),
            None => None,
        }
    }

    /// Where the window is mapped.
    pub fn element_location(&self, window: WindowHandle) -> (r: Option<Point>)
        ensures
            r == self@.element_location(window),
    {
        let mut i: usize = 0;
        proof {
            assert(self.elements@.skip(0) =~= self.elements@);
        }
        while i < self.elements.len()
            invariant
                i <= self.elements@.len(),
                location_of(self.elements@, window) == location_of(
                    self.elements@.skip(i as int),
                    window,
                ),
            decreases self.elements@.len() - i,
        {
            proof {
                assert(self.elements@.skip(i as int).drop_first() =~= self.elements@.skip(i + 1));
            }
            if self.elements[i].window == window {
                return Some(self.elements[i].loc);
            }
            i += 1;
        }
        None
    }

    /// Removes the window from the space.
    pub fn unmap_elem(&mut self, window: WindowHandle)
        ensures
            final(self)@ == old(self)@.unmap_elem(window),
    {
        let ghost before = self.elements@;
        let ghost keep = |e: Placed| e.window != window;
        let mut kept: Vec<Placed> = Vec::new();
        let mut i: usize = 0;
        proof {
            reveal(Seq::filter);
            assert(before.take(0) =~= Seq::<Placed>::empty());
        }
        while i < self.elements.len()
            invariant
                i <= self.elements@.len(),
                self.elements@ == before,
                keep == (|e: Placed| e.window != window),
                kept@ == before.take(i as int).filter(keep),
            decreases self.elements@.len() - i,
        {
            let e: Placed = self.elements[i];
            proof {
                reveal(Seq::filter);
                assert(before.take(i + 1).drop_last() =~= before.take(i as int));
            }
            if e.window != window {
                kept.push(e);
            }
            i += 1;
        }
        proof {
            assert(before.take(i as int) =~= before);
        }
        self.elements = kept;
    }

    /// Maps the window at this place, on top of all others; one that is mapped
    /// already is moved.
    pub fn map_element(&mut self, window: WindowHandle, loc: Point)
        ensures
            final(self)@ == old(self)@.map_element(window, loc),
    {
        self.unmap_elem(window);
        self.elements.push(Placed { window, loc });
    }

    /// Removes the output from the space.
    pub fn unmap_output(&mut self, handle: OutputHandle)
        ensures
            final(self)@ == old(self)@.unmap_output(handle),
    {
        let ghost all = self@.outputs;
        let ghost keep = |o: OutputView| o.handle != handle;
        let mut i: usize = 0;
        let ghost mut done: int = 0;
        proof {
            reveal(Seq::filter);
            assert(all.take(0) =~= Seq::<OutputView>::empty());
            assert(all.take(0).filter(keep) + all.skip(0) =~= all);
        }
        while i < self.outputs.len()
            invariant
                keep == (|o: OutputView| o.handle != handle),
                0 <= done <= all.len(),
                i == all.take(done).filter(keep).len(),
                self@.outputs == all.take(done).filter(keep) + all.skip(done),
                self.elements@ == old(self).elements@,
            decreases self.outputs@.len() - i,
        {
            let ghost prev = self@.outputs;
            proof {
                reveal(Seq::filter);
                assert(prev.len() == i + (all.len() - done));
                assert(all.take(done + 1).drop_last() =~= all.take(done));
                assert(prev[i as int] == all[done]);
                assert(prev[i as int] == self.outputs@[i as int]@);
            }
            if self.outputs[i].handle == handle {
                let _ = self.outputs.remove(i);
                proof {
                    assert(self@.outputs =~= prev.remove(i as int));
                    assert(self@.outputs =~= all.take(done + 1).filter(keep) + all.skip(done + 1));
                }
            } else {
                proof {
                    assert(self@.outputs =~= all.take(done + 1).filter(keep) + all.skip(done + 1));
                }
                i += 1;
            }
            proof {
                done = done + 1;
            }
        }
        proof {
            assert(done == all.len()) by {
                assert(self@.outputs.len() == i + (all.len() - done));
            }
            assert(all.take(done) =~= all);
            assert(all.filter(keep) + all.skip(done) =~= all.filter(keep));
        }
    }

    /// The extent of all outputs from the origin.
    pub fn total_size(&self) -> (r: Size)
        ensures
            r == self@.total_size(),
    {
        let mut w: i32 = 0;
        let mut h: i32 = 0;
        let mut i: usize = 0;
        proof {
            assert(self@.outputs.take(0) =~= Seq::<OutputView>::empty());
        }
        while i < self.outputs.len()
            invariant
                i <= self.outputs@.len(),
                (Size { w, h }) == extent(self@.outputs.take(i as int), Size { w: 0, h: 0 }),
            decreases self.outputs@.len() - i,
        {
            let geo: Rectangle = self.outputs[i].geometry();
            proof {
                assert(self@.outputs.take(i + 1).drop_last() =~= self@.outputs.take(i as int));
                assert(self@.outputs.take(i + 1).last() == self.outputs@[i as int]@);
            }
            let right: i32 = geo.right();
            let bottom: i32 = geo.bottom();
            if right > w {
                w = right;
            }
            if bottom > h {
                h = bottom;
            }
            i += 1;
        }
        proof {
            assert(self@.outputs.take(i as int) =~= self@.outputs);
        }
        Size { w, h }
    }
}

/// The extent holds every output.
pub proof fn lemma_extent_covers(outputs: Seq<OutputView>, i: int)
    requires
        0 <= i < outputs.len(),
    ensures
        extent(outputs, Size { w: 0, h: 0 }).w >= outputs[i].geometry().right_spec(),
        extent(outputs, Size { w: 0, h: 0 }).h >= outputs[i].geometry().bottom_spec(),
        extent(outputs, Size { w: 0, h: 0 }).w >= 0,
        extent(outputs, Size { w: 0, h: 0 }).h >= 0,
    decreases outputs.len(),
{
    reveal_with_fuel(extent, 2);
    if i < outputs.len() - 1 {
        lemma_extent_covers(outputs.drop_last(), i);
    } else if outputs.len() > 1 {
        lemma_extent_covers(outputs.drop_last(), 0);
    } else {
        assert(outputs.drop_last() =~= Seq::<OutputView>::empty());
    }
}

/// The extent is no larger than it has to be: each side is 0 or reaches the
/// edge of some output.
pub proof fn lemma_extent_tight(outputs: Seq<OutputView>)
    ensures
        ({
            let e = extent(outputs, Size { w: 0, h: 0 });
            &&& e.w == 0 || exists|i: int|
                0 <= i < outputs.len() && e.w == (#[trigger] outputs[i]).geometry().right_spec()
            &&& e.h == 0 || exists|i: int|
                0 <= i < outputs.len() && e.h == (#[trigger] outputs[i]).geometry().bottom_spec()
        }),
    decreases outputs.len(),
{
    if outputs.len() > 0 {
        let rest = outputs.drop_last();
        lemma_extent_tight(rest);
        let e = extent(outputs, Size { w: 0, h: 0 });
        let r = extent(rest, Size { w: 0, h: 0 });
        let last = outputs.len() - 1;
        if e.w == outputs[last].geometry().right_spec() {
        } else if r.w != 0 {
            let i = choose|i: int|
                0 <= i < rest.len() && r.w == (#[trigger] rest[i]).geometry().right_spec();
            assert(outputs[i] == rest[i]);
        }
        if e.h == outputs[last].geometry().bottom_spec() {
        } else if r.h != 0 {
            let i = choose|i: int|
                0 <= i < rest.len() && r.h == (#[trigger] rest[i]).geometry().bottom_spec();
            assert(outputs[i] == rest[i]);
        }
    }
}

/// Filtering keeps items apart: what holds of every pair before holds of every
/// pair after.
pub proof fn lemma_filter_pairs<A>(
    s: Seq<A>,
    keep: spec_fn(A) -> bool,
    apart: spec_fn(A, A) -> bool,
)
    requires
        forall|i: int, j: int|
            0 <= i < j < s.len() ==> apart(#[trigger] s[i], #[trigger] s[j]),
    ensures
        forall|i: int, j: int|
            0 <= i < j < s.filter(keep).len() ==> apart(
                #[trigger] s.filter(keep)[i],
                #[trigger] s.filter(keep)[j],
            ),
        forall|i: int|
            0 <= i < s.filter(keep).len() ==> keep(#[trigger] s.filter(keep)[i]) && s.contains(
                s.filter(keep)[i],
            ),
    decreases s.len(),
{
    reveal(Seq::filter);
    if s.len() > 0 {
        let rest = s.drop_last();
        assert forall|i: int, j: int| 0 <= i < j < rest.len() implies apart(
            #[trigger] rest[i],
            #[trigger] rest[j],
        ) by {
            assert(rest[i] == s[i] && rest[j] == s[j]);
        }
        lemma_filter_pairs(rest, keep, apart);
        let f = s.filter(keep);
        let g = rest.filter(keep);
        assert forall|i: int| 0 <= i < f.len() implies keep(#[trigger] f[i]) && s.contains(
            f[i],
        ) by {
            if i < g.len() {
                assert(f[i] == g[i]);
                let k = choose|k: int| 0 <= k < rest.len() && rest[k] == g[i];
                assert(s[k] == f[i]);
            } else {
                assert(s[s.len() - 1] == f[i]);
            }
        }
        assert forall|i: int, j: int| 0 <= i < j < f.len() implies apart(
            #[trigger] f[i],
            #[trigger] f[j],
        ) by {
            assert(f[i] == g[i]);
            if j < g.len() {
                assert(f[j] == g[j]);
            } else {
                let k = choose|k: int| 0 <= k < rest.len() && rest[k] == g[i];
                assert(s[k] == f[i]);
                assert(s[s.len() - 1] == f[j]);
            }
        }
    }
}

/// Mapping a window keeps the space well formed, and puts the window at its
/// place on top.
pub proof fn lemma_map_element(s: SpaceView, window: WindowHandle, loc: Point)
    requires
        s.wf(),
    ensures
        s.map_element(window, loc).wf(),
        s.map_element(window, loc).elements.last() == (Placed { window, loc }),
        s.map_element(window, loc).outputs == s.outputs,
{
    let keep = |e: Placed| e.window != window;
    let apart = |a: Placed, b: Placed| a.window != b.window;
    assert forall|i: int, j: int| 0 <= i < j < s.elements.len() implies apart(
        #[trigger] s.elements[i],
        #[trigger] s.elements[j],
    ) by {
    }
    lemma_filter_pairs(s.elements, keep, apart);
    let f = s.elements.filter(keep);
    assert forall|i: int, j: int|
        0 <= i < j < f.push(Placed { window, loc }).len() implies (#[trigger] f.push(
        Placed { window, loc },
    )[i]).window != (#[trigger] f.push(Placed { window, loc })[j]).window by {
        assert(keep(f[i]));
        if j < f.len() {
            assert(apart(f[i], f[j]));
        }
    }
}

/// Unmapping a window keeps the space well formed, and the window is gone.
pub proof fn lemma_unmap_elem(s: SpaceView, window: WindowHandle)
    requires
        s.wf(),
    ensures
        s.unmap_elem(window).wf(),
        !s.unmap_elem(window).has_element(window),
{
    let keep = |e: Placed| e.window != window;
    let apart = |a: Placed, b: Placed| a.window != b.window;
    assert forall|i: int, j: int| 0 <= i < j < s.elements.len() implies apart(
        #[trigger] s.elements[i],
        #[trigger] s.elements[j],
    ) by {
    }
    lemma_filter_pairs(s.elements, keep, apart);
    let f = s.elements.filter(keep);
    assert forall|i: int, j: int| 0 <= i < j < f.len() implies (#[trigger] f[i]).window != (
    #[trigger] f[j]).window by {
        assert(apart(f[i], f[j]));
    }
    assert forall|i: int| 0 <= i < f.len() implies (#[trigger] f[i]).window != window by {
        assert(keep(f[i]));
    }
}

/// Unmapping an output keeps the space well formed, and the output is gone.
pub proof fn lemma_unmap_output(s: SpaceView, handle: OutputHandle)
    requires
        s.wf(),
    ensures
        s.unmap_output(handle).wf(),
        s.unmap_output(handle).output(handle) is None,
{
    let keep = |o: OutputView| o.handle != handle;
    let apart = |a: OutputView, b: OutputView| a.handle != b.handle;
    assert forall|i: int, j: int| 0 <= i < j < s.outputs.len() implies apart(
        #[trigger] s.outputs[i],
        #[trigger] s.outputs[j],
    ) by {
    }
    lemma_filter_pairs(s.outputs, keep, apart);
    let f = s.outputs.filter(keep);
    assert forall|i: int, j: int| 0 <= i < j < f.len() implies (#[trigger] f[i]).handle != (
    #[trigger] f[j]).handle by {
        assert(apart(f[i], f[j]));
    }
    let wanted = |o: OutputView| o.handle == handle;
    lemma_first_output(f, wanted);
    if first_output(f, wanted) is Some {
        let i = choose|i: int|
            0 <= i < f.len() && f[i] == first_output(f, wanted)->0 && wanted(f[i]) && forall|j: int|
                0 <= j < i ==> !wanted(#[trigger] f[j]);
        assert(keep(f[i]));
    }
}

} // verus!
