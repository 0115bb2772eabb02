//! What each output shows, front to back.
//!
//! A plan lists what is drawn and where, in the logical coordinates of the
//! output; turning it into pixels is left to the renderer.
use vstd::prelude::*;

use crate::ewm::{layouts_view, Ewm, EwmView, LayoutEntry};
use crate::geometry::{Point, Rectangle, Size};
use crate::hits::PopupBox;
use crate::layers::{layer_views, Layer, LayerSurface, LayerSurfaceView};
use crate::module::SurfaceView;
use crate::space::{Output, OutputHandle, Placed, WindowHandle};
use crate::text::owned;

verus! {

/// Something to draw.
#[derive(Clone, Copy, Debug, PartialEq, Eq, Structural)]
pub enum DrawItem {
    /// The cursor, at the pointer.
    Cursor,
    /// The tree of a layer surface or popup.
    Surface { surface: u64, at: Point },
    /// A window.
    Window { window: WindowHandle, at: Point },
    /// The surface of the lock screen, over the whole output.
    LockSurface { surface: u64 },
    /// The background of the lock screen.
    LockBackground { w: i32, h: i32 },
}

/// The size of a window's content.
#[derive(Clone, Copy, Debug, PartialEq, Eq, Structural)]
pub struct WindowSize {
    pub window: WindowHandle,
    pub size: Size,
}

/// An output as it is drawn.
#[derive(Debug)]
pub struct Canvas {
    pub output: OutputHandle,
    pub name: String,
    /// The part of the space that is drawn.
    pub screen: Rectangle,
    /// The free area, relative to the output.
    pub zone: Rectangle,
}

/// What a [`Canvas`] holds.
#[verifier::ext_equal]
pub struct CanvasView {
    pub output: OutputHandle,
    pub name: Seq<char>,
    pub screen: Rectangle,
    pub zone: Rectangle,
}

impl View for Canvas {
    type V = CanvasView;

    open spec fn view(&self) -> CanvasView {
        CanvasView {
            output: self.output,
            name: self.name@,
            screen: self.screen,
            zone: self.zone,
        }
    }
}

/// The size of a window; nothing where it is not listed.
pub open spec fn size_of_window(sizes: Seq<WindowSize>, window: WindowHandle) -> Size
    decreases sizes.len(),
{
    if sizes.len() == 0 {
        Size { w: 0, h: 0 }
    } else if sizes[0].window == window {
        sizes[0].size
    } else {
        size_of_window(sizes.drop_first(), window)
    }
}

/// The surfaces of one layer of one output, the one that came last in front.
pub open spec fn layer_items(
    layers: Seq<LayerSurfaceView>,
    output: OutputHandle,
    layer: Layer,
) -> Seq<DrawItem>
    decreases layers.len(),
{
    if layers.len() == 0 {
        Seq::empty()
    } else {
        let l = layers.last();
        let rest = layer_items(layers.drop_last(), output, layer);
        if l.output == output && l.layer == layer {
            seq![DrawItem::Surface { surface: l.surface, at: l.geometry.loc }] + rest
        } else {
            rest
        }
    }
}

/// The popups of one window that the output shows.
pub open spec fn window_popups(
    popups: Seq<PopupBox>,
    e: Placed,
    screen: Rectangle,
) -> Seq<DrawItem>
    decreases popups.len(),
{
    if popups.len() == 0 {
        Seq::empty()
    } else {
        let before = window_popups(popups.drop_last(), e, screen);
        let b = popups.last();
        let corner = e.loc.offset_spec(b.offset);
        if b.window == e.window && screen.overlaps_spec(Rectangle { loc: corner, size: b.size }) {
            before.push(
                DrawItem::Surface { surface: b.surface, at: corner.relative_spec(screen.loc) },
            )
        } else {
            before
        }
    }
}

/// The popups that the output shows, window by window.
pub open spec fn popup_items(
    elements: Seq<Placed>,
    popups: Seq<PopupBox>,
    screen: Rectangle,
) -> Seq<DrawItem>
    decreases elements.len(),
{
    if elements.len() == 0 {
        Seq::empty()
    } else {
        popup_items(elements.drop_last(), popups, screen) + window_popups(
            popups,
            elements.last(),
            screen,
        )
    }
}

impl EwmView {
    /// Whether Emacs declared where the surface is shown.
    pub open spec fn is_declared(self, id: u32) -> bool {
        exists|name: Seq<char>| #[trigger]
            self.output_layouts.contains_key(name) && has_entry(self.output_layouts[name], id)
    }

    /// The surfaces that a list of entries places in the free area of an
    /// output.
    pub open spec fn declared_items(self, entries: Seq<LayoutEntry>, zone: Rectangle) -> Seq<
        DrawItem,
    >
        decreases entries.len(),
    {
        if entries.len() == 0 {
            Seq::empty()
        } else {
            let before = self.declared_items(entries.drop_last(), zone);
            let e = entries.last();
            if self.id_windows.contains_key(e.id) {
                before.push(
                    DrawItem::Window {
                        window: self.id_windows[e.id],
                        at: zone.loc.offset_spec(Point { x: e.x, y: e.y }),
                    },
                )
            } else {
                before
            }
        }
    }

    /// The views of one surface that the output shows.
    pub open spec fn view_items(
        self,
        window: WindowHandle,
        list: Seq<SurfaceView>,
        size: Size,
        screen: Rectangle,
    ) -> Seq<DrawItem>
        decreases list.len(),
    {
        if list.len() == 0 {
            Seq::empty()
        } else {
            let before = self.view_items(window, list.drop_last(), size, screen);
            let v = list.last();
            let at = Point { x: v.x, y: v.y };
            if screen.overlaps_spec(Rectangle { loc: at, size }) {
                before.push(DrawItem::Window { window, at: at.relative_spec(screen.loc) })
            } else {
                before
            }
        }
    }

    /// Whether the surface is drawn where its views are.
    pub open spec fn drawn_by_views(self, id: u32) -> bool {
        self.id_windows.contains_key(id) && self.surface_views.contains_key(id)
            && !self.is_declared(id)
    }

    /// The views of the surfaces of a list that the output shows.
    pub open spec fn all_view_items(
        self,
        ids: Seq<u32>,
        sizes: Seq<WindowSize>,
        screen: Rectangle,
    ) -> Seq<DrawItem>
        decreases ids.len(),
    {
        if ids.len() == 0 {
            Seq::empty()
        } else {
            let before = self.all_view_items(ids.drop_last(), sizes, screen);
            let id = ids.last();
            if self.drawn_by_views(id) {
                before + self.view_items(
                    self.id_windows[id],
                    self.surface_views[id],
                    size_of_window(sizes, self.id_windows[id]),
                    screen,
                )
            } else {
                before
            }
        }
    }

    /// The id of a window; 0 where it has none.
    pub open spec fn id_of(self, window: WindowHandle) -> u32 {
        if self.window_ids.contains_key(window) {
            self.window_ids[window]
        } else {
            0
        }
    }

    /// Whether a window of the space is drawn at its own place: it has no
    /// views and Emacs declared no place for it.
    pub open spec fn drawn_by_place(self, window: WindowHandle) -> bool {
        !self.surface_views.contains_key(self.id_of(window)) && !self.is_declared(
            self.id_of(window),
        )
    }

    /// The windows of the space that the output shows at their own place, in
    /// stacking order.
    pub open spec fn window_items(
        self,
        elements: Seq<Placed>,
        sizes: Seq<WindowSize>,
        screen: Rectangle,
    ) -> Seq<DrawItem>
        decreases elements.len(),
    {
        if elements.len() == 0 {
            Seq::empty()
        } else {
            let before = self.window_items(elements.drop_last(), sizes, screen);
            let e = elements.last();
            if self.drawn_by_place(e.window) && screen.overlaps_spec(
                Rectangle { loc: e.loc, size: size_of_window(sizes, e.window) },
            ) {
                before.push(
                    DrawItem::Window { window: e.window, at: e.loc.relative_spec(screen.loc) },
                )
            } else {
                before
            }
        }
    }

    /// The lock screen of an output: its surface, where there is one, and a
    /// background behind it.
    pub open spec fn lock_items(self, output: OutputHandle) -> Seq<DrawItem> {
        match self.state_of(output) {
            Some(state) => (match state.lock_surface {
                Some(surface) => seq![DrawItem::LockSurface { surface }],
                None => Seq::empty(),
            }).push(
                DrawItem::LockBackground {
                    w: state.lock_background.0,
                    h: state.lock_background.1,
                },
            ),
            None => Seq::empty(),
        }
    }

    /// The state after Emacs declared what an output shows, in place of what it
    /// declared before.
    pub open spec fn layout_declared(
        self,
        output: Seq<char>,
        entries: Seq<LayoutEntry>,
    ) -> EwmView {
        EwmView { output_layouts: self.output_layouts.insert(output, entries), ..self }
    }

    /// What Emacs declared the output to show.
    pub open spec fn layout_of(self, name: Seq<char>) -> Seq<LayoutEntry> {
        if self.output_layouts.contains_key(name) {
            self.output_layouts[name]
        } else {
            Seq::empty()
        }
    }

    /// The cursor, where it is wanted and the output shows the pointer.
    pub open spec fn cursor_items(self, include_cursor: bool, screen: Rectangle) -> Seq<DrawItem> {
        if include_cursor && screen.contains_spec(self.pointer_location.cell) {
            seq![DrawItem::Cursor]
        } else {
            Seq::empty()
        }
    }

    /// What an output shows while the session is not locked, front to back:
    /// the cursor, the overlay layer, the top layer, popups, the surfaces that
    /// Emacs placed, other windows, the bottom layer, and the background.
    /// `ids` are the windows in the order in which their views are drawn.
    pub open spec fn scene(
        self,
        c: CanvasView,
        include_cursor: bool,
        ids: Seq<u32>,
        sizes: Seq<WindowSize>,
        popups: Seq<PopupBox>,
    ) -> Seq<DrawItem> {
        self.cursor_items(include_cursor, c.screen) + layer_items(
            self.layers,
            c.output,
            Layer::Overlay,
        ) + layer_items(self.layers, c.output, Layer::Top) + popup_items(
            self.space.elements,
            popups,
            c.screen,
        ) + self.declared_items(self.layout_of(c.name), c.zone) + self.all_view_items(
            ids,
            sizes,
            c.screen,
        ) + self.window_items(self.space.elements, sizes, c.screen) + layer_items(
            self.layers,
            c.output,
            Layer::Bottom,
        ) + layer_items(self.layers, c.output, Layer::Background)
    }

    /// An output as it is drawn: as it is mapped. One that is not mapped has
    /// no place in the space, but still its layers and what Emacs declared it
    /// to show, under this name and with this free area.
    pub open spec fn canvas(
        self,
        output: OutputHandle,
        name: Seq<char>,
        zone: Rectangle,
    ) -> CanvasView {
        match self.space.output(output) {
            Some(o) => CanvasView { output, name: o.name, screen: o.geometry(), zone: o.zone },
            None => CanvasView {
                output,
                name,
                screen: Rectangle::from_size_spec(Size { w: 0, h: 0 }),
                zone,
            },
        }
    }

    /// Whether `plan` is what an output shows.
    pub open spec fn is_plan(
        self,
        c: CanvasView,
        include_cursor: bool,
        sizes: Seq<WindowSize>,
        popups: Seq<PopupBox>,
        plan: Seq<DrawItem>,
    ) -> bool {
        if self.is_locked_spec() {
            plan == self.lock_items(c.output)
        } else {
            exists|ids: Seq<u32>| #[trigger]
                self.lists_windows(ids) && plan == self.scene(
                    c,
                    include_cursor,
                    ids,
                    sizes,
                    popups,
                )
        }
    }
}

/// Whether the surface has an entry.
pub open spec fn has_entry(entries: Seq<LayoutEntry>, id: u32) -> bool {
    exists|i: int| 0 <= i < entries.len() && (#[trigger] entries[i]).id == id
}

fn find_size(sizes: &Vec<WindowSize>, window: WindowHandle) -> (r: Size)
    ensures
        r == size_of_window(sizes@, window),
{
    let mut i: usize = 0;
    proof {
        assert(sizes@.skip(0) =~= sizes@);
    }
    while i < sizes.len()
        invariant
            i <= sizes@.len(),
            size_of_window(sizes@, window) == size_of_window(sizes@.skip(i as int), window),
        decreases sizes@.len() - i,
    {
        proof {
            assert(sizes@.skip(i as int).drop_first() =~= sizes@.skip(i + 1));
        }
        if sizes[i].window == window {
            return sizes[i].size;
        }
        i += 1;
    }
    Size { w: 0, h: 0 }
}

/// Appends the surfaces of one layer, the one that came last first.
fn push_layer(
    plan: &mut Vec<DrawItem>,
    layers: &Vec<LayerSurface>,
    output: OutputHandle,
    layer: Layer,
)
    ensures
        final(plan)@ == old(plan)@ + layer_items(layer_views(layers@), output, layer),
{
    let ghost all = layer_views(layers@);
    let ghost start = plan@;
    let mut i: usize = layers.len();
    proof {
        assert(all.take(i as int) =~= all);
        assert(start + layer_items(all, output, layer) =~= plan@ + layer_items(
            all.take(i as int),
            output,
            layer,
        ));
    }
    while i > 0
        invariant
            i <= layers@.len(),
            all == layer_views(layers@),
            start + layer_items(all, output, layer) == plan@ + layer_items(
                all.take(i as int),
                output,
                layer,
            ),
        decreases i,
    {
        let l: &LayerSurface = &layers[i - 1];
        let ghost before = plan@;
        proof {
            assert(all.take(i as int).last() == layers@[i - 1]@);
            assert(all.take(i as int).drop_last() =~= all.take(i - 1));
        }
        if l.output == output && l.layer == layer {
            plan.push(DrawItem::Surface { surface: l.surface, at: l.geometry.loc });
            proof {
                assert(plan@ + layer_items(all.take(i - 1), output, layer) =~= before + (seq![
                    DrawItem::Surface { surface: l.surface, at: l.geometry.loc },
                ] + layer_items(all.take(i - 1), output, layer)));
            }
        }
        i -= 1;
    }
    proof {
        assert(all.take(0) =~= Seq::<LayerSurfaceView>::empty());
        assert(plan@ + layer_items(all.take(0), output, layer) =~= plan@);
    }
}

fn push_popups(
    plan: &mut Vec<DrawItem>,
    elements: &Vec<Placed>,
    popups: &Vec<PopupBox>,
    screen: Rectangle,
)
    ensures
        final(plan)@ == old(plan)@ + popup_items(elements@, popups@, screen),
{
    let ghost start = plan@;
    let mut i: usize = 0;
    proof {
        assert(elements@.take(0) =~= Seq::<Placed>::empty());
        assert(start =~= start + popup_items(elements@.take(0), popups@, screen));
    }
    while i < elements.len()
        invariant
            i <= elements@.len(),
            plan@ == start + popup_items(elements@.take(i as int), popups@, screen),
        decreases elements@.len() - i,
    {
        let e: Placed = elements[i];
        let ghost mid = plan@;
        let mut k: usize = 0;
        proof {
            assert(elements@.take(i + 1).drop_last() =~= elements@.take(i as int));
            assert(elements@.take(i + 1).last() == e);
            assert(popups@.take(0) =~= Seq::<PopupBox>::empty());
            assert(mid =~= mid + window_popups(popups@.take(0), e, screen));
        }
        while k < popups.len()
            invariant
                k <= popups@.len(),
                plan@ == mid + window_popups(popups@.take(k as int), e, screen),
            decreases popups@.len() - k,
        {
            let b: PopupBox = popups[k];
            proof {
                assert(popups@.take(k + 1).drop_last() =~= popups@.take(k as int));
                assert(popups@.take(k + 1).last() == b);
            }
            let corner: Point = e.loc.offset(b.offset);
            if b.window == e.window && screen.overlaps(Rectangle { loc: corner, size: b.size }) {
                plan.push(
                    DrawItem::Surface { surface: b.surface, at: corner.relative(screen.loc) },
                );
                proof {
                    assert(plan@ =~= mid + window_popups(popups@.take(k + 1), e, screen));
                }
            }
            k += 1;
        }
        proof {
            assert(popups@.take(k as int) =~= popups@);
            assert(plan@ =~= start + popup_items(elements@.take(i + 1), popups@, screen));
        }
        i += 1;
    }
    proof {
        assert(elements@.take(i as int) =~= elements@);
    }
}

impl Ewm {
    /// Declares what an output shows.
    pub fn set_output_layout(&mut self, output: String, entries: Vec<LayoutEntry>)
        ensures
            final(self)@ == old(self)@.layout_declared(output@, entries@),
    {
        let ghost before = self.output_layouts@;
        let ghost name = output@;
        self.output_layouts.insert(output, entries);
        proof {
            assert(layouts_view(self.output_layouts@) =~= layouts_view(before).insert(
                name,
                entries@,
            ));
        }
    }

    /// Whether Emacs declared where the surface is shown.
    pub fn is_declared(&self, id: u32) -> (r: bool)
        ensures
            r == self@.is_declared(id),
    {
        let mut i: usize = 0;
        while i < self.output_layouts.len()
            invariant
                i <= self.output_layouts.count(),
                forall|k: int|
                    0 <= k < i ==> !has_entry((#[trigger] self.output_layouts.value_at(k))@, id),
            decreases self.output_layouts.count() - i,
        {
            let (name, entries) = self.output_layouts.entry(i);
            let mut k: usize = 0;
            while k < entries.len()
                invariant
                    k <= entries@.len(),
                    self@.output_layouts.contains_key(name@),
                    self@.output_layouts[name@] == entries@,
                    forall|j: int| 0 <= j < k ==> (#[trigger] entries@[j]).id != id,
                decreases entries@.len() - k,
            {
                if entries[k].id == id {
                    proof {
                        assert(has_entry(self@.output_layouts[name@], id));
                    }
                    return true;
                }
                k += 1;
            }
            proof {
                assert(!has_entry(entries@, id));
                assert(self.output_layouts.value_at(i as int) == *entries);
            }
            i += 1;
        }
        proof {
            assert forall|name: Seq<char>| #[trigger]
                self@.output_layouts.contains_key(name) implies !has_entry(
                self@.output_layouts[name],
                id,
            ) by {
                let k = self.output_layouts.index_of(name);
                assert(self.output_layouts.name_at(k) == name);
            }
        }
        false
    }

    fn push_declared(&self, plan: &mut Vec<DrawItem>, name: &str, zone: Rectangle)
        ensures
            final(plan)@ == old(plan)@ + self@.declared_items(self@.layout_of(name@), zone),
    {
        let ghost start = plan@;
        match self.output_layouts.get(name) {
            Some(entries) => {
                proof {
                    assert(self@.output_layouts[name@] == entries@);
                    assert(entries@.take(0) =~= Seq::<LayoutEntry>::empty());
                    assert(start =~= start + self@.declared_items(entries@.take(0), zone));
                }
                let mut i: usize = 0;
                while i < entries.len()
                    invariant
                        i <= entries@.len(),
                        plan@ == start + self@.declared_items(entries@.take(i as int), zone),
                    decreases entries@.len() - i,
                {
                    let e: LayoutEntry = entries[i];
                    proof {
                        assert(entries@.take(i + 1).drop_last() =~= entries@.take(i as int));
                        assert(entries@.take(i + 1).last() == e);
                    }
                    if let Some(window) = self.id_windows.get(&e.id) {
                        plan.push(
                            DrawItem::Window {
                                window: *window,
                                at: zone.loc.offset(Point { x: e.x, y: e.y }),
                            },
                        );
                        proof {
                            assert(plan@ =~= start + self@.declared_items(
                                entries@.take(i + 1),
                                zone,
                            ));
                        }
                    }
                    i += 1;
                }
                proof {
                    assert(entries@.take(i as int) =~= entries@);
                }
            },
            None => {
                proof {
                    assert(plan@ =~= start + self@.declared_items(Seq::empty(), zone));
                }
            },
        }
    }

    fn push_views(
        &self,
        plan: &mut Vec<DrawItem>,
        window: WindowHandle,
        list: &Vec<SurfaceView>,
        size: Size,
        screen: Rectangle,
    )
        ensures
            final(plan)@ == old(plan)@ + self@.view_items(window, list@, size, screen),
    {
        let ghost start = plan@;
        let mut i: usize = 0;
        proof {
            assert(list@.take(0) =~= Seq::<SurfaceView>::empty());
            assert(start =~= start + self@.view_items(window, list@.take(0), size, screen));
        }
        while i < list.len()
            invariant
                i <= list@.len(),
                plan@ == start + self@.view_items(window, list@.take(i as int), size, screen),
            decreases list@.len() - i,
        {
            let v: SurfaceView = list[i];
            let at: Point = Point { x: v.x, y: v.y };
            proof {
                assert(list@.take(i + 1).drop_last() =~= list@.take(i as int));
                assert(list@.take(i + 1).last() == v);
            }
            if screen.overlaps(Rectangle { loc: at, size }) {
                plan.push(DrawItem::Window { window, at: at.relative(screen.loc) });
                proof {
                    assert(plan@ =~= start + self@.view_items(
                        window,
                        list@.take(i + 1),
                        size,
                        screen,
                    ));
                }
            }
            i += 1;
        }
        proof {
            assert(list@.take(i as int) =~= list@);
        }
    }

    fn push_all_views(
        &self,
        plan: &mut Vec<DrawItem>,
        ids: &Vec<u32>,
        sizes: &Vec<WindowSize>,
        screen: Rectangle,
    )
        ensures
            final(plan)@ == old(plan)@ + self@.all_view_items(ids@, sizes@, screen),
    {
        let ghost start = plan@;
        let mut i: usize = 0;
        proof {
            assert(ids@.take(0) =~= Seq::<u32>::empty());
            assert(start =~= start + self@.all_view_items(ids@.take(0), sizes@, screen));
        }
        while i < ids.len()
            invariant
                i <= ids@.len(),
                plan@ == start + self@.all_view_items(ids@.take(i as int), sizes@, screen),
            decreases ids@.len() - i,
        {
            let id: u32 = ids[i];
            proof {
                assert(ids@.take(i + 1).drop_last() =~= ids@.take(i as int));
                assert(ids@.take(i + 1).last() == id);
            }
            if let Some(window) = self.id_windows.get(&id) {
                if let Some(list) = self.surface_views.get(&id) {
                    proof {
                        assert(self@.surface_views[id] == list@);
                    }
                    if !self.is_declared(id) {
                        let size: Size = find_size(sizes, *window);
                        self.push_views(plan, *window, list, size, screen);
                        proof {
                            assert(plan@ =~= start + self@.all_view_items(
                                ids@.take(i + 1),
                                sizes@,
                                screen,
                            ));
                        }
                    }
                }
            }
            i += 1;
        }
        proof {
            assert(ids@.take(i as int) =~= ids@);
        }
    }

    fn push_windows(
        &self,
        plan: &mut Vec<DrawItem>,
        sizes: &Vec<WindowSize>,
        screen: Rectangle,
    )
        ensures
            final(plan)@ == old(plan)@ + self@.window_items(
                self@.space.elements,
                sizes@,
                screen,
            ),
    {
        let ghost start = plan@;
        let ghost elements = self@.space.elements;
        let mut i: usize = 0;
        proof {
            assert(elements.take(0) =~= Seq::<Placed>::empty());
            assert(start =~= start + self@.window_items(elements.take(0), sizes@, screen));
        }
        while i < self.space.elements.len()
            invariant
                i <= elements.len(),
                elements == self.space.elements@,
                plan@ == start + self@.window_items(elements.take(i as int), sizes@, screen),
            decreases elements.len() - i,
        {
            let e: Placed = self.space.elements[i];
            proof {
                assert(elements.take(i + 1).drop_last() =~= elements.take(i as int));
                assert(elements.take(i + 1).last() == e);
            }
            let id: u32 = match self.window_ids.get(&e.window) {
                Some(id) => *id,
                None => 0,
            };
            if !self.surface_views.contains_key(&id) && !self.is_declared(id) && screen.overlaps(
                Rectangle { loc: e.loc, size: find_size(sizes, e.window) },
            ) {
                plan.push(
                    DrawItem::Window { window: e.window, at: e.loc.relative(screen.loc) },
                );
                proof {
                    assert(plan@ =~= start + self@.window_items(
                        elements.take(i + 1),
                        sizes@,
                        screen,
                    ));
                }
            }
            i += 1;
        }
        proof {
            assert(elements.take(i as int) =~= elements);
        }
    }

    /// An output as it is drawn. `name` and `zone` are what the display side
    /// knows of it, and count where it is not mapped.
    pub fn canvas(&self, output: OutputHandle, name: &str, zone: Rectangle) -> (r: Canvas)
        ensures
            r@ == self@.canvas(output, name@, zone),
    {
        match self.space.output_index(output) {
            Some(index) => {
                let o: &Output = &self.space.outputs[index];
                Canvas { output, name: owned(o.name.as_str()), screen: o.geometry(), zone: o.zone }
            },
            None => Canvas {
                output,
                name: owned(name),
                screen: Rectangle::from_size(Size { w: 0, h: 0 }),
                zone,
            },
        }
    }

    /// What an output shows, front to back. While the session is locked that
    /// is the lock screen and nothing else.
    pub fn collect_render_elements_for_output(
        &self,
        canvas: &Canvas,
        include_cursor: bool,
        sizes: &Vec<WindowSize>,
        popups: &Vec<PopupBox>,
    ) -> (plan: Vec<DrawItem>)
        ensures
            self@.is_plan(canvas@, include_cursor, sizes@, popups@, plan@),
    {
        let output: OutputHandle = canvas.output;
        let screen: Rectangle = canvas.screen;
        let mut plan: Vec<DrawItem> = Vec::new();
        if self.is_locked() {
            if let Some(state) = self.state_of(output) {
                if let Some(surface) = state.lock_surface {
                    plan.push(DrawItem::LockSurface { surface });
                }
                plan.push(
                    DrawItem::LockBackground {
                        w: state.lock_background.0,
                        h: state.lock_background.1,
                    },
                );
            }
            proof {
                assert(plan@ =~= self@.lock_items(output));
            }
            return plan;
        }
        let ids: Vec<u32> = self.window_id_list();
        if include_cursor && screen.contains(self.pointer_location.cell) {
            plan.push(DrawItem::Cursor);
        }
        proof {
            assert(plan@ =~= self@.cursor_items(include_cursor, screen));
        }
        push_layer(&mut plan, &self.layers, output, Layer::Overlay);
        push_layer(&mut plan, &self.layers, output, Layer::Top);
        push_popups(&mut plan, &self.space.elements, popups, screen);
        self.push_declared(&mut plan, canvas.name.as_str(), canvas.zone);
        self.push_all_views(&mut plan, &ids, sizes, screen);
        self.push_windows(&mut plan, sizes, screen);
        push_layer(&mut plan, &self.layers, output, Layer::Bottom);
        push_layer(&mut plan, &self.layers, output, Layer::Background);
        proof {
            assert(plan@ == self@.scene(canvas@, include_cursor, ids@, sizes@, popups@));
            assert(self@.lists_windows(ids@));
        }
        plan
    }
}

// ---------------------------------------------------------------------------
// All outputs at once
// ---------------------------------------------------------------------------
/// A window at the place of each of its views.
pub open spec fn placed_views(window: WindowHandle, list: Seq<SurfaceView>) -> Seq<DrawItem> {
    Seq::new(
        list.len(),
        |i: int| DrawItem::Window { window, at: Point { x: list[i].x, y: list[i].y } },
    )
}

/// The popups of one window, wherever they are.
pub open spec fn placed_popups(popups: Seq<PopupBox>, e: Placed) -> Seq<DrawItem>
    decreases popups.len(),
{
    if popups.len() == 0 {
        Seq::empty()
    } else {
        let before = placed_popups(popups.drop_last(), e);
        let b = popups.last();
        if b.window == e.window {
            before.push(
                DrawItem::Surface { surface: b.surface, at: e.loc.offset_spec(b.offset) },
            )
        } else {
            before
        }
    }
}

/// The popups of all windows, window by window.
pub open spec fn all_popups(elements: Seq<Placed>, popups: Seq<PopupBox>) -> Seq<DrawItem>
    decreases elements.len(),
{
    if elements.len() == 0 {
        Seq::empty()
    } else {
        all_popups(elements.drop_last(), popups) + placed_popups(popups, elements.last())
    }
}

impl EwmView {
    /// The surfaces of a list at the places of their views.
    pub open spec fn every_view(self, ids: Seq<u32>) -> Seq<DrawItem>
        decreases ids.len(),
    {
        if ids.len() == 0 {
            Seq::empty()
        } else {
            let before = self.every_view(ids.drop_last());
            let id = ids.last();
            if self.id_windows.contains_key(id) && self.surface_views.contains_key(id) {
                before + placed_views(self.id_windows[id], self.surface_views[id])
            } else {
                before
            }
        }
    }

    /// The windows without views, at their own place.
    pub open spec fn every_window(self, elements: Seq<Placed>) -> Seq<DrawItem>
        decreases elements.len(),
    {
        if elements.len() == 0 {
            Seq::empty()
        } else {
            let before = self.every_window(elements.drop_last());
            let e = elements.last();
            if self.surface_views.contains_key(self.id_of(e.window)) {
                before
            } else {
                before.push(DrawItem::Window { window: e.window, at: e.loc })
            }
        }
    }

    /// All that is shown, in global coordinates: surfaces at the places of
    /// their views, windows without views at their own place, then popups.
    pub open spec fn whole_scene(self, ids: Seq<u32>, popups: Seq<PopupBox>) -> Seq<DrawItem> {
        self.every_view(ids) + self.every_window(self.space.elements) + all_popups(
            self.space.elements,
            popups,
        )
    }
}

fn push_placed_views(plan: &mut Vec<DrawItem>, window: WindowHandle, list: &Vec<SurfaceView>)
    ensures
        final(plan)@ == old(plan)@ + placed_views(window, list@),
{
    let ghost start = plan@;
    let mut i: usize = 0;
    proof {
        assert(start =~= start + placed_views(window, list@).take(0));
    }
    while i < list.len()
        invariant
            i <= list@.len(),
            plan@ == start + placed_views(window, list@).take(i as int),
        decreases list@.len() - i,
    {
        let v: SurfaceView = list[i];
        plan.push(DrawItem::Window { window, at: Point { x: v.x, y: v.y } });
        i += 1;
        proof {
            assert(plan@ =~= start + placed_views(window, list@).take(i as int));
        }
    }
    proof {
        assert(placed_views(window, list@).take(i as int) =~= placed_views(window, list@));
    }
}

fn push_all_popups(plan: &mut Vec<DrawItem>, elements: &Vec<Placed>, popups: &Vec<PopupBox>)
    ensures
        final(plan)@ == old(plan)@ + all_popups(elements@, popups@),
{
    let ghost start = plan@;
    let mut i: usize = 0;
    proof {
        assert(elements@.take(0) =~= Seq::<Placed>::empty());
        assert(start =~= start + all_popups(elements@.take(0), popups@));
    }
    while i < elements.len()
        invariant
            i <= elements@.len(),
            plan@ == start + all_popups(elements@.take(i as int), popups@),
        decreases elements@.len() - i,
    {
        let e: Placed = elements[i];
        let ghost here = plan@;
        let mut k: usize = 0;
        proof {
            assert(popups@.take(0) =~= Seq::<PopupBox>::empty());
            assert(here =~= here + placed_popups(popups@.take(0), e));
        }
        while k < popups.len()
            invariant
                k <= popups@.len(),
                plan@ == here + placed_popups(popups@.take(k as int), e),
            decreases popups@.len() - k,
        {
            let b: PopupBox = popups[k];
            proof {
                assert(popups@.take(k + 1).drop_last() =~= popups@.take(k as int));
                assert(popups@.take(k + 1).last() == b);
            }
            if b.window == e.window {
                plan.push(DrawItem::Surface { surface: b.surface, at: e.loc.offset(b.offset) });
                proof {
                    assert(plan@ =~= here + placed_popups(popups@.take(k + 1), e));
                }
            }
            k += 1;
        }
        proof {
            assert(popups@.take(k as int) =~= popups@);
            assert(elements@.take(i + 1).drop_last() =~= elements@.take(i as int));
            assert(elements@.take(i + 1).last() == e);
            assert(plan@ =~= start + all_popups(elements@.take(i + 1), popups@));
        }
        i += 1;
    }
    proof {
        assert(elements@.take(i as int) =~= elements@);
    }
}

impl Ewm {
    fn push_every_view(&self, plan: &mut Vec<DrawItem>, ids: &Vec<u32>)
        ensures
            final(plan)@ == old(plan)@ + self@.every_view(ids@),
    {
        let ghost start = plan@;
        let mut i: usize = 0;
        proof {
            assert(ids@.take(0) =~= Seq::<u32>::empty());
            assert(start =~= start + self@.every_view(ids@.take(0)));
        }
        while i < ids.len()
            invariant
                i <= ids@.len(),
                plan@ == start + self@.every_view(ids@.take(i as int)),
            decreases ids@.len() - i,
        {
            let id: u32 = ids[i];
            proof {
                assert(ids@.take(i + 1).drop_last() =~= ids@.take(i as int));
                assert(ids@.take(i + 1).last() == id);
            }
            if let Some(window) = self.id_windows.get(&id) {
                if let Some(list) = self.surface_views.get(&id) {
                    proof {
                        assert(self@.surface_views[id] == list@);
                    }
                    push_placed_views(plan, *window, list);
                    proof {
                        assert(plan@ =~= start + self@.every_view(ids@.take(i + 1)));
                    }
                }
            }
            i += 1;
        }
        proof {
            assert(ids@.take(i as int) =~= ids@);
        }
    }

    fn push_every_window(&self, plan: &mut Vec<DrawItem>)
        ensures
            final(plan)@ == old(plan)@ + self@.every_window(self@.space.elements),
    {
        let ghost start = plan@;
        let ghost elements = self@.space.elements;
        let mut i: usize = 0;
        proof {
            assert(elements.take(0) =~= Seq::<Placed>::empty());
            assert(start =~= start + self@.every_window(elements.take(0)));
        }
        while i < self.space.elements.len()
            invariant
                i <= elements.len(),
                elements == self.space.elements@,
                plan@ == start + self@.every_window(elements.take(i as int)),
            decreases elements.len() - i,
        {
            let e: Placed = self.space.elements[i];
            proof {
                assert(elements.take(i + 1).drop_last() =~= elements.take(i as int));
                assert(elements.take(i + 1).last() == e);
            }
            let id: u32 = match self.window_ids.get(&e.window) {
                Some(id) => *id,
                None => 0,
            };
            if !self.surface_views.contains_key(&id) {
                plan.push(DrawItem::Window { window: e.window, at: e.loc });
                proof {
                    assert(plan@ =~= start + self@.every_window(elements.take(i + 1)));
                }
            }
            i += 1;
        }
        proof {
            assert(elements.take(i as int) =~= elements);
        }
    }

    /// All that is shown, in global coordinates and whatever the outputs are:
    /// surfaces at the places of their views, windows without views at their
    /// own place, then popups. Surfaces with views come in no particular
    /// order.
    pub fn collect_render_elements(&self, popups: &Vec<PopupBox>) -> (plan: Vec<DrawItem>)
        ensures
            exists|ids: Seq<u32>| #[trigger]
                self@.lists_windows(ids) && plan@ == self@.whole_scene(ids, popups@),
    {
        let ids: Vec<u32> = self.window_id_list();
        let mut plan: Vec<DrawItem> = Vec::new();
        self.push_every_view(&mut plan, &ids);
        self.push_every_window(&mut plan);
        push_all_popups(&mut plan, &self.space.elements, popups);
        proof {
            assert(plan@ =~= self@.whole_scene(ids@, popups@));
            assert(self@.lists_windows(ids@));
        }
        plan
    }
}

// ---------------------------------------------------------------------------
// Copies of the screen
// ---------------------------------------------------------------------------
/// A request for a copy of the screen.
#[derive(Clone, Copy, Debug, PartialEq, Eq, Structural)]
pub struct ScreencopyRequest {
    pub id: u64,
    pub output: OutputHandle,
    pub with_damage: bool,
    /// Size of the client's buffer.
    pub size: Size,
    /// Corner of the region that is copied.
    pub region: Point,
}

/// What the client is answered.
#[derive(Clone, Copy, Debug, PartialEq, Eq, Structural)]
pub enum ScreencopyReply {
    /// The copy is in the buffer; the damage, where it was asked for, is the
    /// whole buffer.
    Submit { id: u64, damage: Option<Rectangle> },
    /// The copy failed; the request is dropped.
    Drop { id: u64 },
}

/// The requests at the head of the queues that are for this output.
pub open spec fn pending_copies(queues: Seq<Seq<ScreencopyRequest>>, output: OutputHandle) -> Seq<
    ScreencopyRequest,
>
    decreases queues.len(),
{
    if queues.len() == 0 {
        Seq::empty()
    } else {
        let before = pending_copies(queues.drop_last(), output);
        let q = queues.last();
        if q.len() > 0 && q[0].output == output {
            before.push(q[0])
        } else {
            before
        }
    }
}

/// A queue after its head was taken, where that is for this output.
pub open spec fn after_copy(q: Seq<ScreencopyRequest>, output: OutputHandle) -> Seq<
    ScreencopyRequest,
> {
    if q.len() > 0 && q[0].output == output {
        q.drop_first()
    } else {
        q
    }
}

/// What a list of queues holds.
pub open spec fn queue_views(queues: Seq<Vec<ScreencopyRequest>>) -> Seq<Seq<ScreencopyRequest>> {
    Seq::new(queues.len(), |i: int| queues[i]@)
}

/// Takes the requests for this output off the heads of the queues, at most
/// one from each.
pub fn take_screencopies(
    queues: Vec<Vec<ScreencopyRequest>>,
    output: OutputHandle,
) -> (r: (Vec<Vec<ScreencopyRequest>>, Vec<ScreencopyRequest>))
    ensures
        r.1@ == pending_copies(queue_views(queues@), output),
        queue_views(r.0@) == queue_views(queues@).map_values(
            |q: Seq<ScreencopyRequest>| after_copy(q, output),
        ),
{
    let ghost all = queue_views(queues@);
    let ghost step = |q: Seq<ScreencopyRequest>| after_copy(q, output);
    let n: usize = queues.len();
    let mut rest: Vec<Vec<ScreencopyRequest>> = Vec::new();
    let mut taken: Vec<ScreencopyRequest> = Vec::new();
    let mut i: usize = 0;
    proof {
        assert(all.take(0) =~= Seq::<Seq<ScreencopyRequest>>::empty());
        assert(queue_views(rest@) =~= Seq::<Seq<ScreencopyRequest>>::empty());
    }
    while i < n
        invariant
            n == queues@.len(),
            i <= n,
            all == queue_views(queues@),
            step == (|q: Seq<ScreencopyRequest>| after_copy(q, output)),
            rest@.len() == i,
            forall|j: int| 0 <= j < i ==> (#[trigger] rest@[j])@ == after_copy(all[j], output),
            taken@ == pending_copies(all.take(i as int), output),
        decreases n - i,
    {
        let q: &Vec<ScreencopyRequest> = &queues[i];
        proof {
            assert(all.take(i + 1).drop_last() =~= all.take(i as int));
            assert(all.take(i + 1).last() == q@);
            assert(all[i as int] == q@);
        }
        let take: bool = q.len() > 0 && q[0].output == output;
        let start: usize = if take {
            1
        } else {
            0
        };
        if take {
            taken.push(q[0]);
        }
        let mut left: Vec<ScreencopyRequest> = Vec::new();
        let mut k: usize = start;
        while k < q.len()
            invariant
                start <= k <= q@.len(),
                left@ == q@.subrange(start as int, k as int),
            decreases q@.len() - k,
        {
            left.push(q[k]);
            proof {
                assert(q@.subrange(start as int, k + 1) =~= q@.subrange(
                    start as int,
                    k as int,
                ).push(q@[k as int]));
            }
            k += 1;
        }
        proof {
            assert(left@ =~= after_copy(q@, output));
        }
        rest.push(left);
        i += 1;
    }
    proof {
        assert(all.take(n as int) =~= all);
        assert(queue_views(rest@) =~= all.map_values(step));
    }
    (rest, taken)
}

impl Ewm {
    /// Whether a request for a copy of the screen waits, for any output.
    pub fn has_pending_screencopies(&self, queues: &Vec<Vec<ScreencopyRequest>>) -> (r: bool)
        ensures
            r == exists|i: int| 0 <= i < queues@.len() && (#[trigger] queues@[i])@.len() > 0,
    {
        let mut i: usize = 0;
        while i < queues.len()
            invariant
                i <= queues@.len(),
                forall|j: int| 0 <= j < i ==> (#[trigger] queues@[j])@.len() == 0,
            decreases queues@.len() - i,
        {
            if queues[i].len() > 0 {
                proof {
                    assert(queues@[i as int]@.len() > 0);
                }
                return true;
            }
            i += 1;
        }
        false
    }

    /// Takes the requests for copies of this output off the queues, and gives
    /// what is to be drawn into each of their buffers: all that the output
    /// shows, the cursor included. Without requests nothing is collected.
    pub fn process_screencopies_for_output(
        &self,
        queues: Vec<Vec<ScreencopyRequest>>,
        canvas: &Canvas,
        sizes: &Vec<WindowSize>,
        popups: &Vec<PopupBox>,
    ) -> (r: (Vec<Vec<ScreencopyRequest>>, Vec<ScreencopyRequest>, Vec<DrawItem>))
        ensures
            r.1@ == pending_copies(queue_views(queues@), canvas@.output),
            queue_views(r.0@) == queue_views(queues@).map_values(
                |q: Seq<ScreencopyRequest>| after_copy(q, canvas@.output),
            ),
            if r.1@.len() == 0 {
                r.2@ == Seq::<DrawItem>::empty()
            } else {
                self@.is_plan(canvas@, true, sizes@, popups@, r.2@)
            },
    {
        let (rest, taken) = take_screencopies(queues, canvas.output);
        if taken.len() == 0 {
            return (rest, taken, Vec::new());
        }
        let plan: Vec<DrawItem> = self.collect_render_elements_for_output(
            canvas,
            true,
            sizes,
            popups,
        );
        (rest, taken, plan)
    }
}

/// The answer to a request after it was drawn or not.
pub open spec fn reply_to(request: ScreencopyRequest, drawn: bool) -> ScreencopyReply {
    if drawn {
        ScreencopyReply::Submit {
            id: request.id,
            damage: if request.with_damage {
                Some(Rectangle::from_size_spec(request.size))
            } else {
                None
            },
        }
    } else {
        ScreencopyReply::Drop { id: request.id }
    }
}

/// The answer to a request after it was drawn or not.
pub fn screencopy_reply(request: &ScreencopyRequest, drawn: bool) -> (r: ScreencopyReply)
    ensures
        r == reply_to(*request, drawn),
{
    if drawn {
        let damage: Option<Rectangle> = if request.with_damage {
            Some(Rectangle::from_size(request.size))
        } else {
            None
        };
        ScreencopyReply::Submit { id: request.id, damage }
    } else {
        ScreencopyReply::Drop { id: request.id }
    }
}

/// Whether a DMA buffer has exactly the size of what is drawn into it.
pub fn dmabuf_fits(width: u32, height: u32, size: Size) -> (r: bool)
    ensures
        r == (width == size.w as u32 && height == size.h as u32),
{
    width == #[verifier::truncate] (size.w as u32) && height == #[verifier::truncate] (
    size.h as u32)
}

/// Whether a shared memory buffer fits what is drawn into it: four bytes to a
/// pixel, rows without gaps, and exactly the size. `xrgb` tells whether its
/// format is the one that is drawn.
pub open spec fn shm_layout_fits(
    xrgb: bool,
    width: i32,
    height: i32,
    stride: i32,
    len: usize,
    size: Size,
) -> bool {
    xrgb && width == size.w && height == size.h && stride == size.w * 4 && len == stride * height
}

/// Whether a shared memory buffer fits what is drawn into it.
pub fn shm_fits(xrgb: bool, width: i32, height: i32, stride: i32, len: usize, size: Size) -> (r:
    bool)
    requires
        size.w >= 0,
        size.h >= 0,
    ensures
        r == shm_layout_fits(xrgb, width, height, stride, len, size),
{
    if !xrgb || width != size.w || height != size.h || stride as i64 != size.w as i64 * 4 {
        return false;
    }
    proof {
        assert(stride * height <= i32::MAX * i32::MAX) by (nonlinear_arith)
            requires
                0 <= stride <= i32::MAX,
                0 <= height <= i32::MAX,
        ;
        assert(stride * height >= 0) by (nonlinear_arith)
            requires
                0 <= stride,
                0 <= height,
        ;
    }
    len as u64 == stride as u64 * height as u64
}

/// The part of an element, relative to it, that has to be drawn into a target
/// of this size; none where it is outside.
pub open spec fn damage_of(target: Size, dst: Rectangle) -> Option<Rectangle> {
    match Rectangle::from_size_spec(target).intersection_spec(dst) {
        Some(common) => Some(
            Rectangle { loc: common.loc.relative_spec(dst.loc), size: common.size },
        ),
        None => None,
    }
}

/// The part of an element, relative to it, that has to be drawn into a target
/// of this size; none where it is outside.
pub fn element_damage(target: Size, dst: Rectangle) -> (r: Option<Rectangle>)
    ensures
        r == damage_of(target, dst),
{
    match Rectangle::from_size(target).intersection(dst) {
        Some(common) => Some(
            Rectangle { loc: common.loc.relative(dst.loc), size: common.size },
        ),
        None => None,
    }
}

// ---------------------------------------------------------------------------
// Laws
// ---------------------------------------------------------------------------
/// While the session is locked an output shows its lock screen and nothing
/// else: no window, no layer surface, no cursor.
pub proof fn lemma_locked_shows_only_lock(
    s: EwmView,
    c: CanvasView,
    include_cursor: bool,
    sizes: Seq<WindowSize>,
    popups: Seq<PopupBox>,
    plan: Seq<DrawItem>,
)
    requires
        s.is_locked_spec(),
        s.is_plan(c, include_cursor, sizes, popups, plan),
    ensures
        forall|i: int|
            0 <= i < plan.len() ==> (#[trigger] plan[i]) is LockSurface || plan[i]
                is LockBackground,
{
}

/// A layer's part of a plan holds surfaces only.
proof fn lemma_layer_items(layers: Seq<LayerSurfaceView>, output: OutputHandle, layer: Layer)
    ensures
        forall|i: int|
            0 <= i < layer_items(layers, output, layer).len() ==> (#[trigger] layer_items(
                layers,
                output,
                layer,
            )[i]) is Surface,
    decreases layers.len(),
{
    if layers.len() > 0 {
        lemma_layer_items(layers.drop_last(), output, layer);
    }
}

/// A cursor that is shown is in front of all else.
pub proof fn lemma_cursor_in_front(
    s: EwmView,
    c: CanvasView,
    include_cursor: bool,
    ids: Seq<u32>,
    sizes: Seq<WindowSize>,
    popups: Seq<PopupBox>,
)
    requires
        include_cursor,
        c.screen.contains_spec(s.pointer_location.cell),
    ensures
        s.scene(c, include_cursor, ids, sizes, popups)[0] == DrawItem::Cursor,
{
}

/// Every window of the space that has no views and no declared place, and
/// that the output overlaps, is part of what the output shows.
pub proof fn lemma_window_is_shown(
    s: EwmView,
    elements: Seq<Placed>,
    sizes: Seq<WindowSize>,
    screen: Rectangle,
    i: int,
)
    requires
        0 <= i < elements.len(),
        s.drawn_by_place(elements[i].window),
        screen.overlaps_spec(
            Rectangle {
                loc: elements[i].loc,
                size: size_of_window(sizes, elements[i].window),
            },
        ),
    ensures
        s.window_items(elements, sizes, screen).contains(
            DrawItem::Window {
                window: elements[i].window,
                at: elements[i].loc.relative_spec(screen.loc),
            },
        ),
    decreases elements.len(),
{
    let all = s.window_items(elements, sizes, screen);
    let item = DrawItem::Window {
        window: elements[i].window,
        at: elements[i].loc.relative_spec(screen.loc),
    };
    if i < elements.len() - 1 {
        let rest = elements.drop_last();
        lemma_window_is_shown(s, rest, sizes, screen, i);
        let before = s.window_items(rest, sizes, screen);
        let k = choose|k: int| 0 <= k < before.len() && before[k] == item;
        assert(all[k] == item);
    } else {
        assert(all[all.len() - 1] == item);
    }
}

/// Every window that the output shows at its own place is one of the space that
/// has no views and no declared place, and that the output overlaps.
pub proof fn lemma_shown_window_overlaps(
    s: EwmView,
    elements: Seq<Placed>,
    sizes: Seq<WindowSize>,
    screen: Rectangle,
    k: int,
)
    requires
        0 <= k < s.window_items(elements, sizes, screen).len(),
    ensures
        exists|i: int| #[trigger] s.shows_window(elements, sizes, screen, i, k),
    decreases elements.len(),
{
    let rest = elements.drop_last();
    let n = elements.len() - 1;
    let before = s.window_items(rest, sizes, screen);
    if k < before.len() {
        lemma_shown_window_overlaps(s, rest, sizes, screen, k);
        let i = choose|i: int| #[trigger] s.shows_window(rest, sizes, screen, i, k);
        assert(elements[i] == rest[i]);
        assert(s.shows_window(elements, sizes, screen, i, k));
    } else {
        assert(s.shows_window(elements, sizes, screen, n, k));
    }
}

/// Every view of a surface that the output shows is one that it overlaps.
pub proof fn lemma_shown_view_overlaps(
    s: EwmView,
    window: WindowHandle,
    list: Seq<SurfaceView>,
    size: Size,
    screen: Rectangle,
    k: int,
)
    requires
        0 <= k < s.view_items(window, list, size, screen).len(),
    ensures
        exists|i: int| #[trigger] s.shows_view(window, list, size, screen, i, k),
    decreases list.len(),
{
    let rest = list.drop_last();
    let n = list.len() - 1;
    let before = s.view_items(window, rest, size, screen);
    if k < before.len() {
        lemma_shown_view_overlaps(s, window, rest, size, screen, k);
        let i = choose|i: int| #[trigger] s.shows_view(window, rest, size, screen, i, k);
        assert(list[i] == rest[i]);
        assert(s.shows_view(window, list, size, screen, i, k));
    } else {
        assert(s.shows_view(window, list, size, screen, n, k));
    }
}

impl EwmView {
    /// Whether item `k` of the windows that the output shows is element `i`,
    /// which the output overlaps.
    pub open spec fn shows_window(
        self,
        elements: Seq<Placed>,
        sizes: Seq<WindowSize>,
        screen: Rectangle,
        i: int,
        k: int,
    ) -> bool {
        &&& 0 <= i < elements.len()
        &&& self.drawn_by_place(elements[i].window)
        &&& screen.overlaps_spec(
            Rectangle {
                loc: elements[i].loc,
                size: size_of_window(sizes, elements[i].window),
            },
        )
        &&& self.window_items(elements, sizes, screen)[k] == (DrawItem::Window {
            window: elements[i].window,
            at: elements[i].loc.relative_spec(screen.loc),
        })
    }

    /// Whether item `k` of the views that the output shows is view `i`, which
    /// the output overlaps.
    pub open spec fn shows_view(
        self,
        window: WindowHandle,
        list: Seq<SurfaceView>,
        size: Size,
        screen: Rectangle,
        i: int,
        k: int,
    ) -> bool {
        let at = Point { x: list[i].x, y: list[i].y };
        &&& 0 <= i < list.len()
        &&& screen.overlaps_spec(Rectangle { loc: at, size })
        &&& self.view_items(window, list, size, screen)[k] == (DrawItem::Window {
            window,
            at: at.relative_spec(screen.loc),
        })
    }
}

/// What is drawn of a layer comes from that layer of that output.
pub proof fn lemma_layer_items_come_from_layer(
    layers: Seq<LayerSurfaceView>,
    output: OutputHandle,
    layer: Layer,
    k: int,
)
    requires
        0 <= k < layer_items(layers, output, layer).len(),
    ensures
        exists|i: int|
            0 <= i < layers.len() && (#[trigger] layers[i]).output == output && layers[i].layer
                == layer && layer_items(layers, output, layer)[k] == (DrawItem::Surface {
                surface: layers[i].surface,
                at: layers[i].geometry.loc,
            }),
    decreases layers.len(),
{
    let l = layers.last();
    let rest = layers.drop_last();
    let n = layers.len() - 1;
    if l.output == output && l.layer == layer {
        if k == 0 {
            assert(layers[n] == l);
        } else {
            lemma_layer_items_come_from_layer(rest, output, layer, k - 1);
            let i = choose|i: int|
                0 <= i < rest.len() && (#[trigger] rest[i]).output == output && rest[i].layer
                    == layer && layer_items(rest, output, layer)[k - 1] == (DrawItem::Surface {
                    surface: rest[i].surface,
                    at: rest[i].geometry.loc,
                });
            assert(layers[i] == rest[i]);
        }
    } else {
        lemma_layer_items_come_from_layer(rest, output, layer, k);
        let i = choose|i: int|
            0 <= i < rest.len() && (#[trigger] rest[i]).output == output && rest[i].layer == layer
                && layer_items(rest, output, layer)[k] == (DrawItem::Surface {
                surface: rest[i].surface,
                at: rest[i].geometry.loc,
            });
        assert(layers[i] == rest[i]);
    }
}

} // verus!
