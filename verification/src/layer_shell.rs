//! Layer surfaces as they come, commit and go, and commits in general.
use vstd::prelude::*;

use crate::action::{Action, ActionView};
use crate::ewm::{Ewm, EwmView};
use crate::geometry::{Point, Rectangle, Size};
use crate::layers::{
    find_layer, first_layer, KeyboardInteractivity, Layer, LayerPlace, LayerSurface,
    LayerSurfaceView,
};
use crate::space::{OutputHandle, WindowHandle};

verus! {

/// What the display server side knows when a layer surface commits, and how
/// the layers of its output are arranged then: the free area that they leave,
/// and the place of each.
#[derive(Clone, Debug)]
pub struct LayerCommit {
    pub initial_configure_sent: bool,
    pub has_buffer: bool,
    pub layer: Layer,
    pub interactivity: KeyboardInteractivity,
    pub zone: Rectangle,
    pub places: Vec<LayerPlace>,
}

/// The output that a new layer surface asks for.
#[derive(Clone, Copy, Debug, PartialEq, Eq, Structural)]
pub enum RequestedOutput {
    /// None in particular.
    Unspecified,
    /// One that is not known.
    Unknown,
    Known(OutputHandle),
}

impl EwmView {
    /// The layer surface with this handle, where its output is mapped.
    pub open spec fn mapped_layer(self, surface: u64) -> Option<LayerSurfaceView> {
        match first_layer(self.layers, |l: LayerSurfaceView| l.surface == surface) {
            Some(l) if self.space.output(l.output) is Some => Some(l),
            _ => None,
        }
    }

    /// What a layer surface committed taken up.
    pub open spec fn update_layer(self, surface: u64, c: LayerCommit) -> EwmView {
        EwmView {
            layers: self.layers.map_values(
                |l: LayerSurfaceView|
                    if l.surface == surface {
                        LayerSurfaceView {
                            layer: c.layer,
                            interactivity: c.interactivity,
                            ..l
                        }
                    } else {
                        l
                    },
            ),
            ..self
        }
    }

    /// A layer surface mapped or unmapped by its commit. One that takes the
    /// keyboard on demand gets it when it is mapped.
    pub open spec fn map_layer(self, surface: u64, c: LayerCommit) -> EwmView {
        if !c.initial_configure_sent {
            self.act(ActionView::ConfigureLayer { surface })
        } else if !c.has_buffer {
            EwmView {
                unmapped_layer_surfaces: self.unmapped_layer_surfaces.insert(surface),
                ..self
            }
        } else if self.unmapped_layer_surfaces.contains(surface) {
            EwmView {
                unmapped_layer_surfaces: self.unmapped_layer_surfaces.remove(surface),
                keyboard_focus_dirty: true,
                layer_shell_on_demand_focus: if c.interactivity
                    == KeyboardInteractivity::OnDemand {
                    Some(surface)
                } else {
                    self.layer_shell_on_demand_focus
                },
                ..self
            }
        } else {
            self
        }
    }

    /// The state after a commit in the tree of a layer surface. Of one whose
    /// output is not mapped only what it asked for is taken up.
    pub open spec fn layer_commit(self, surface: u64, root: u64, c: LayerCommit) -> EwmView {
        match self.mapped_layer(root) {
            Some(l) => if surface == root {
                self.update_layer(surface, c).map_layer(surface, c).arranged(
                    c.places@,
                ).check_working_area(l.output, c.zone).queue_redraw(l.output)
            } else {
                self.queue_redraw(l.output)
            },
            None => if surface == root {
                self.update_layer(surface, c)
            } else {
                self
            },
        }
    }

    /// The output for a new layer surface.
    pub open spec fn layer_output(self, requested: RequestedOutput) -> Option<OutputHandle> {
        match requested {
            RequestedOutput::Known(h) => Some(h),
            RequestedOutput::Unknown => None,
            RequestedOutput::Unspecified => match self.space.primary() {
                Some(o) => Some(o.handle),
                None => None,
            },
        }
    }

    /// The state after a new layer surface.
    pub open spec fn new_layer(
        self,
        surface: u64,
        requested: RequestedOutput,
        layer: Layer,
        namespace: Seq<char>,
    ) -> EwmView {
        match self.layer_output(requested) {
            None => self.act(ActionView::CloseLayer { surface }),
            Some(output) => EwmView {
                unmapped_layer_surfaces: self.unmapped_layer_surfaces.insert(surface),
                layers: self.layers.push(
                    LayerSurfaceView {
                        surface,
                        output,
                        namespace,
                        layer,
                        interactivity: KeyboardInteractivity::Never,
                        geometry: Rectangle::from_size_spec(Size { w: 0, h: 0 }),
                    },
                ),
                ..self
            }.act(ActionView::SendScale { surface, output }),
        }
    }

    /// The state after a layer surface is destroyed.
    pub open spec fn layer_gone(
        self,
        surface: u64,
        zone: Rectangle,
        places: Seq<LayerPlace>,
    ) -> EwmView {
        let s = EwmView {
            unmapped_layer_surfaces: self.unmapped_layer_surfaces.remove(surface),
            layers: self.layers.filter(|l: LayerSurfaceView| l.surface != surface),
            ..self
        };
        match self.mapped_layer(surface) {
            Some(l) => EwmView {
                layer_shell_on_demand_focus: if self.layer_shell_on_demand_focus == Some(surface) {
                    None
                } else {
                    self.layer_shell_on_demand_focus
                },
                keyboard_focus_dirty: true,
                ..s
            }.arranged(places).check_working_area(l.output, zone).queue_redraw(l.output),
            None => s,
        }
    }

    /// The window of the space that the surface belongs to.
    pub open spec fn committed_window(self, root: u64) -> bool {
        self.space.element_location(root) is Some && self.window_ids.contains_key(root)
    }

    /// The state after a commit.
    pub open spec fn commit_spec(
        self,
        surface: u64,
        root: u64,
        sync_subsurface: bool,
        c: LayerCommit,
        app: Seq<char>,
        title: Seq<char>,
    ) -> EwmView {
        let s = EwmView {
            pending_early_imports: self.pending_early_imports.push(surface),
            ..self
        };
        let t = s.layer_commit(surface, root, c);
        if s.mapped_layer(root) is Some || sync_subsurface || !s.committed_window(root) {
            t
        } else {
            t.act(ActionView::CommitWindow { window: root }).queue_redraw_all().surface_described(
                surface,
                app,
                title,
            )
        }
    }
}

impl Ewm {
    /// Position of the layer surface with this handle, where its output is
    /// mapped.
    fn mapped_layer_index(&self, surface: u64) -> (r: Option<usize>)
        ensures
            match r {
                Some(i) => i < self.layers@.len() && self@.mapped_layer(surface) == Some(
                    self.layers@[i as int]@,
                ),
                None => self@.mapped_layer(surface) is None,
            },
    {
        match find_layer(&self.layers, surface) {
            Some(i) => if self.space.output_index(self.layers[i].output).is_some() {
                Some(i)
            } else {
                None
            },
            None => None,
        }
    }

    fn update_layer(&mut self, surface: u64, c: &LayerCommit)
        ensures
            final(self)@ == old(self)@.update_layer(surface, *c),
    {
        let ghost before = self@;
        let ghost goal = self@.update_layer(surface, *c).layers;
        let mut i: usize = 0;
        while i < self.layers.len()
            invariant
                i <= self.layers@.len(),
                self.layers@.len() == before.layers.len(),
                before == old(self)@,
                goal == before.update_layer(surface, *c).layers,
                self@ == (EwmView { layers: self@.layers, ..before }),
                forall|j: int| 0 <= j < i ==> #[trigger] self@.layers[j] == goal[j],
                forall|j: int|
                    i <= j < before.layers.len() ==> #[trigger] self@.layers[j]
                        == before.layers[j],
            decreases self.layers@.len() - i,
        {
            let ghost prev = self@.layers;
            proof {
                assert(self@.layers[i as int] == before.layers[i as int]);
            }
            if self.layers[i].surface == surface {
                let l: LayerSurface = LayerSurface {
                    surface,
                    output: self.layers[i].output,
                    namespace: self.layers[i].namespace.clone(),
                    layer: c.layer,
                    interactivity: c.interactivity,
                    geometry: self.layers[i].geometry,
                };
                self.layers[i] = l;
                proof {
                    assert(self@.layers =~= prev.update(i as int, l@));
                }
            }
            i += 1;
        }
        proof {
            assert(self@.layers =~= goal);
        }
    }

    /// Takes up a commit in the tree of a layer surface whose root is `root`.
    /// Gives whether it was one.
    pub fn handle_layer_surface_commit(&mut self, surface: u64, root: u64, c: &LayerCommit) -> (r:
        bool)
        ensures
            r == (old(self)@.mapped_layer(root) is Some),
            final(self)@ == old(self)@.layer_commit(surface, root, *c),
    {
        let output: OutputHandle = match self.mapped_layer_index(root) {
            Some(i) => self.layers[i].output,
            None => {
                if surface == root {
                    self.update_layer(surface, c);
                }
                return false;
            },
        };
        if surface == root {
            self.update_layer(surface, c);
            if c.initial_configure_sent {
                if c.has_buffer {
                    let was_unmapped: bool = self.unmapped_layer_surfaces.contains(&surface);
                    if was_unmapped {
                        self.unmapped_layer_surfaces.remove(&surface);
                        self.keyboard_focus_dirty = true;
                        if c.interactivity == KeyboardInteractivity::OnDemand {
                            self.layer_shell_on_demand_focus = Some(surface);
                        }
                    }
                } else {
                    self.unmapped_layer_surfaces.insert(surface);
                }
            } else {
                self.act(Action::ConfigureLayer { surface });
            }
            proof {
                assert(self@ == old(self)@.update_layer(surface, *c).map_layer(surface, *c));
            }
            self.arrange_layers(&c.places);
            self.check_mapped_area(output, c.zone);
            self.queue_redraw(output);
        } else {
            self.queue_redraw(output);
        }
        true
    }

    /// Takes up a new layer surface: it goes to the output that it asks for,
    /// or to the first one, and is closed where there is none.
    pub fn new_layer_surface(
        &mut self,
        surface: u64,
        requested: RequestedOutput,
        layer: Layer,
        namespace: String,
    )
        ensures
            final(self)@ == old(self)@.new_layer(surface, requested, layer, namespace@),
    {
        let output: Option<OutputHandle> = match requested {
            RequestedOutput::Known(h) => Some(h),
            RequestedOutput::Unknown => None,
            RequestedOutput::Unspecified => if self.space.outputs.len() > 0 {
                Some(self.space.outputs[0].handle)
            } else {
                None
            },
        };
        match output {
            None => {
                self.act(Action::CloseLayer { surface });
            },
            Some(output) => {
                self.unmapped_layer_surfaces.insert(surface);
                let l: LayerSurface = LayerSurface {
                    surface,
                    output,
                    namespace,
                    layer,
                    interactivity: KeyboardInteractivity::Never,
                    geometry: Rectangle::from_size(Size { w: 0, h: 0 }),
                };
                let ghost before = self@.layers;
                self.layers.push(l);
                proof {
                    assert(self@.layers =~= before.push(l@));
                }
                self.act(Action::SendScale { surface, output });
            },
        }
    }

    fn drop_layer(&mut self, surface: u64)
        ensures
            final(self)@ == (EwmView {
                layers: old(self)@.layers.filter(|l: LayerSurfaceView| l.surface != surface),
                ..old(self)@
            }),
    {
        let ghost before = self@;
        let ghost keep = |l: LayerSurfaceView| l.surface != surface;
        let mut i: usize = 0;
        let ghost mut done: int = 0;
        proof {
            reveal(Seq::filter);
            assert(before.layers.take(0) =~= Seq::<LayerSurfaceView>::empty());
            assert(before.layers.skip(0) =~= before.layers);
            assert(self@.layers =~= before.layers.take(0).filter(keep) + before.layers.skip(0));
        }
        while i < self.layers.len()
            invariant
                before == old(self)@,
                keep == (|l: LayerSurfaceView| l.surface != surface),
                0 <= done <= before.layers.len(),
                i == before.layers.take(done).filter(keep).len(),
                self@.layers == before.layers.take(done).filter(keep) + before.layers.skip(done),
                self@ == (EwmView { layers: self@.layers, ..before }),
            decreases self.layers@.len() - i,
        {
            let ghost prev = self@.layers;
            proof {
                reveal(Seq::filter);
                assert(self.layers@.len() == prev.len());
                assert(done < before.layers.len());
                assert(before.layers.take(done + 1).drop_last() =~= before.layers.take(done));
                assert(before.layers.take(done + 1).last() == before.layers[done]);
                assert(prev[i as int] == before.layers.skip(done)[0]);
                assert(prev[i as int] == self.layers@[i as int]@);
            }
            if self.layers[i].surface == surface {
                self.layers.remove(i);
                proof {
                    assert(self@.layers =~= prev.remove(i as int));
                    assert(self@.layers =~= before.layers.take(done + 1).filter(keep)
                        + before.layers.skip(done + 1));
                }
            } else {
                i += 1;
                proof {
                    assert(self@.layers =~= before.layers.take(done + 1).filter(keep)
                        + before.layers.skip(done + 1));
                }
            }
            proof {
                done = done + 1;
            }
        }
        proof {
            assert(done == before.layers.len()) by {
                assert(before.layers.skip(done).len() == 0);
            }
            assert(before.layers.take(done) =~= before.layers);
            assert(self@.layers =~= before.layers.filter(keep));
        }
    }

    /// Takes up that a layer surface is destroyed; `zone` is the free area of
    /// its output after the remaining ones were arranged, and `places` are
    /// their places.
    pub fn layer_destroyed(&mut self, surface: u64, zone: Rectangle, places: &Vec<LayerPlace>)
        ensures
            final(self)@ == old(self)@.layer_gone(surface, zone, places@),
    {
        let output: Option<OutputHandle> = match self.mapped_layer_index(surface) {
            Some(i) => Some(self.layers[i].output),
            None => None,
        };
        self.unmapped_layer_surfaces.remove(&surface);
        self.drop_layer(surface);
        if let Some(output) = output {
            if let Some(f) = self.layer_shell_on_demand_focus {
                if f == surface {
                    self.layer_shell_on_demand_focus = None;
                }
            }
            self.keyboard_focus_dirty = true;
            self.arrange_layers(places);
            self.check_mapped_area(output, zone);
            self.queue_redraw(output);
        }
    }

    /// Takes up a commit. `root` is the surface at the root of the tree;
    /// `layer`, `app_id` and `title` tell what the client set.
    pub fn commit(
        &mut self,
        surface: u64,
        root: u64,
        sync_subsurface: bool,
        layer: &LayerCommit,
        app_id: String,
        title: String,
    )
        ensures
            final(self)@ == old(self)@.commit_spec(
                surface,
                root,
                sync_subsurface,
                *layer,
                app_id@,
                title@,
            ),
    {
        self.pending_early_imports.push(surface);
        if self.handle_layer_surface_commit(surface, root, layer) {
            return;
        }
        if sync_subsurface {
            return;
        }
        if self.space.element_location(root).is_some() && self.window_ids.contains_key(&root) {
            self.act(Action::CommitWindow { window: root });
            self.queue_redraw_all();
            self.check_surface_info_changes(surface, app_id, title);
        }
    }

    /// Takes the surfaces whose buffers are to be imported.
    pub fn take_early_imports(&mut self) -> (r: Vec<u64>)
        ensures
            r@ == old(self)@.pending_early_imports,
            final(self)@ == (EwmView { pending_early_imports: Seq::empty(), ..old(self)@ }),
    {
        let mut r: Vec<u64> = Vec::new();
        core::mem::swap(&mut r, &mut self.pending_early_imports);
        r
    }

    /// Tells a surface the scale of the first output, where there is one.
    pub fn new_fractional_scale(&mut self, surface: u64)
        ensures
            final(self)@ == match old(self)@.space.primary() {
                Some(o) => old(self)@.act(
                    ActionView::SendScale { surface, output: o.handle },
                ),
                None => old(self)@,
            },
    {
        if self.space.outputs.len() > 0 {
            let output: OutputHandle = self.space.outputs[0].handle;
            self.act(Action::SendScale { surface, output });
        }
    }

    /// Redraws after a popup is gone.
    pub fn popup_destroyed(&mut self)
        ensures
            final(self)@ == old(self)@.queue_redraw_all(),
    {
        self.queue_redraw_all();
    }

    /// The rectangle, relative to a popup, that the popup has to stay in: all
    /// outputs, seen from the window that is the root of the popup.
    /// `window_corner` is the corner of the window's geometry within it, and
    /// `popup_offset` that of the popup within the window.
    pub fn unconstrain_popup(
        &self,
        window: WindowHandle,
        window_corner: Point,
        popup_offset: Point,
    ) -> (r: Option<Rectangle>)
        ensures
            r == match self@.space.element_location(window) {
                Some(loc) => Some(
                    popup_target(self@.output_size, loc, window_corner, popup_offset),
                ),
                None => None,
            },
    {
        match self.space.element_location(window) {
            Some(loc) => {
                let at: Point = loc.offset(window_corner);
                let corner: Point = Point {
                    x: crate::geometry::saturating_difference(
                        crate::geometry::saturating_difference(0, at.x),
                        popup_offset.x,
                    ),
                    y: crate::geometry::saturating_difference(
                        crate::geometry::saturating_difference(0, at.y),
                        popup_offset.y,
                    ),
                };
                Some(Rectangle { loc: corner, size: self.output_size })
            },
            None => None,
        }
    }
}

/// All outputs, seen from a popup.
pub open spec fn popup_target(
    output_size: Size,
    window_loc: Point,
    window_corner: Point,
    popup_offset: Point,
) -> Rectangle {
    let at = window_loc.offset_spec(window_corner);
    Rectangle {
        loc: Point {
            x: crate::geometry::clamp_i32(
                crate::geometry::clamp_i32(0 - at.x) - popup_offset.x,
            ) as i32,
            y: crate::geometry::clamp_i32(
                crate::geometry::clamp_i32(0 - at.y) - popup_offset.y,
            ) as i32,
        },
        size: output_size,
    }
}

} // verus!
