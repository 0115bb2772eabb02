//! The life of toplevel surfaces, and the areas that panels leave to Emacs.
use vstd::prelude::*;

use crate::action::{Action, ActionView};
use crate::event::{text_view, Event, EventView};
use crate::ewm::{
    is_emacs_pid, surface_info_view, surface_views_view, Ewm, EwmView, SurfaceInfo,
    SurfaceInfoView,
};
use crate::geometry::{Point, Rectangle};
use crate::layers::{find_place, place_in, LayerPlace, LayerSurface, LayerSurfaceView};
use crate::module::{ModuleView};
use crate::space::{Output, OutputHandle, OutputView, Placed, Space, SpaceView, WindowHandle};
use crate::text::{from_chars, owned, same_text, to_chars, trim, trim_bounds};

verus! {

/// Where windows are that are not shown.
pub const OFFSCREEN: i32 = -10000;

/// The place of windows that are not shown.
pub open spec fn offscreen() -> Point {
    Point { x: OFFSCREEN, y: OFFSCREEN }
}

/// The name of an application: its app id, or else the name of its process,
/// or else `unknown`.
pub open spec fn app_name(app_id: Option<Seq<char>>, comm: Option<Seq<char>>) -> Seq<char> {
    match app_id {
        Some(a) => a,
        None => match comm {
            Some(c) => trim(c),
            None => "unknown"@,
        },
    }
}

/// The name of an application. `comm` is what the kernel tells of the
/// process's name, white space around it included.
pub fn application_name(app_id: Option<String>, comm: Option<String>) -> (r: String)
    ensures
        r@ == app_name(text_view(app_id), text_view(comm)),
{
    match app_id {
        Some(a) => a,
        None => match comm {
            Some(c) => {
                let chars: Vec<char> = to_chars(c.as_str());
                let n: usize = chars.len();
                let bounds: (usize, usize) = trim_bounds(&chars, 0, n);
                proof {
                    assert(chars@.subrange(0, n as int) =~= c@);
                }
                from_chars(&chars, bounds.0, bounds.1)
            },
            None => owned("unknown"),
        },
    }
}

impl SpaceView {
    /// The space with the area of one output that no layer surface reserves
    /// replaced.
    pub open spec fn with_zone(self, output: OutputHandle, zone: Rectangle) -> SpaceView {
        SpaceView {
            outputs: self.outputs.map_values(
                |o: OutputView|
                    if o.handle == output {
                        OutputView { zone, ..o }
                    } else {
                        o
                    },
            ),
            ..self
        }
    }
}

impl EwmView {
    // -- working areas ------------------------------------------------------

    /// The area of an output that no layer surface reserves; `zone` where the
    /// output is not mapped.
    pub open spec fn free_area(self, output: OutputHandle, zone: Rectangle) -> Rectangle {
        match self.space.output(output) {
            Some(o) => o.zone,
            None => zone,
        }
    }

    /// Whether the window is a surface of Emacs.
    pub open spec fn is_emacs_window(self, window: WindowHandle) -> bool {
        self.window_ids.contains_key(window) && self.emacs_surfaces.contains(
            self.window_ids[window],
        )
    }

    /// One Emacs frame moved to the corner of the free area of its output and
    /// given its size.
    pub open spec fn refit(self, window: WindowHandle, o: OutputView) -> EwmView {
        EwmView { space: self.space.map_element(window, o.zone_origin()), ..self }.act(
            ActionView::Place {
                window,
                x: o.zone_origin().x,
                y: o.zone_origin().y,
                activate: false,
            },
        ).act(ActionView::Configure { window, w: o.zone.size.w, h: o.zone.size.h })
    }

    /// The Emacs frames among `todo` that the output shows made to fit, from
    /// the lowest to the topmost.
    pub open spec fn refit_frames(self, todo: Seq<Placed>, o: OutputView) -> EwmView
        decreases todo.len(),
    {
        if todo.len() == 0 {
            self
        } else {
            let s = self.refit_frames(todo.drop_last(), o);
            let e = todo.last();
            if self.is_emacs_window(e.window) && o.geometry().contains_spec(e.loc) {
                s.refit(e.window, o)
            } else {
                s
            }
        }
    }

    /// The Emacs frames of an output made to fit its free area.
    pub open spec fn update_frames(self, output: OutputHandle) -> EwmView {
        match self.space.output(output) {
            Some(o) => self.refit_frames(self.space.elements, o).queue_redraw(output),
            None => self,
        }
    }

    /// The layer surfaces of a list at their places.
    pub open spec fn arranged(self, places: Seq<LayerPlace>) -> EwmView {
        EwmView {
            layers: self.layers.map_values(
                |l: LayerSurfaceView|
                    LayerSurfaceView {
                        geometry: place_in(places, l.surface, l.geometry),
                        ..l
                    },
            ),
            ..self
        }
    }

    /// The free area of an output brought in step with `zone`: where it
    /// changed, the frames are made to fit and Emacs is told.
    pub open spec fn check_working_area(self, output: OutputHandle, zone: Rectangle) -> EwmView {
        match self.space.output(output) {
            None => self,
            Some(o) => {
                let s = EwmView { space: self.space.with_zone(output, zone), ..self };
                if self.working_areas.contains_key(o.name) && self.working_areas[o.name] == zone {
                    s
                } else {
                    EwmView {
                        working_areas: self.working_areas.insert(o.name, zone),
                        module: ModuleView {
                            output_offsets: self.module.output_offsets.insert(
                                o.name,
                                o.loc.offset_spec(zone.loc),
                            ),
                            ..self.module
                        },
                        ..s
                    }.update_frames(output).tell(
                        EventView::WorkingArea {
                            output: o.name,
                            x: zone.loc.x,
                            y: zone.loc.y,
                            width: zone.size.w,
                            height: zone.size.h,
                        },
                    )
                }
            },
        }
    }

    /// The layers of an output arranged, and its free area brought in step with
    /// `zone`. Of one that is not mapped, under the name `name`, the area is
    /// only kept and told: there is no place that Emacs would have to know, and
    /// no frame to fit.
    pub open spec fn working_area_checked(
        self,
        output: OutputHandle,
        name: Seq<char>,
        zone: Rectangle,
        places: Seq<LayerPlace>,
    ) -> EwmView {
        let s = self.arranged(places);
        if self.space.output(output) is Some {
            s.check_working_area(output, zone)
        } else if self.working_areas.contains_key(name) && self.working_areas[name] == zone {
            s
        } else {
            EwmView { working_areas: self.working_areas.insert(name, zone), ..s }.tell(
                EventView::WorkingArea {
                    output: name,
                    x: zone.loc.x,
                    y: zone.loc.y,
                    width: zone.size.w,
                    height: zone.size.h,
                },
            )
        }
    }

    // -- toplevels ----------------------------------------------------------

    /// The output for which Emacs is about to open a frame.
    pub open spec fn frame_output(self) -> Option<Seq<char>> {
        if self.module.pending_frame_outputs.len() > 0 {
            Some(self.module.pending_frame_outputs[0])
        } else {
            None
        }
    }

    /// A new window entered in the maps, under the next id.
    pub open spec fn track(self, window: WindowHandle, is_emacs: bool) -> EwmView {
        let id = self.next_surface_id;
        EwmView {
            next_surface_id: (id + 1) as u32,
            emacs_surfaces: if is_emacs {
                self.emacs_surfaces.insert(id)
            } else {
                self.emacs_surfaces
            },
            window_ids: self.window_ids.insert(window, id),
            id_windows: self.id_windows.insert(id, window),
            ..self
        }
    }

    /// A new window configured to fill the outputs, and told the scale of the
    /// first one.
    pub open spec fn greet(self, window: WindowHandle) -> EwmView {
        let s = self.act(
            ActionView::ConfigureNew { window, w: self.output_size.w, h: self.output_size.h },
        );
        match self.space.primary() {
            Some(o) => s.act(ActionView::SendScale { surface: window, output: o.handle }),
            None => s,
        }
    }

    /// The first pending frame output taken.
    pub open spec fn take_frame_output(self) -> EwmView {
        if self.module.pending_frame_outputs.len() > 0 {
            EwmView {
                module: ModuleView {
                    pending_frame_outputs: self.module.pending_frame_outputs.drop_first(),
                    ..self.module
                },
                ..self
            }
        } else {
            self
        }
    }

    /// A new window placed: a frame in the free area of its output, of that
    /// size, and any other window out of sight.
    pub open spec fn place_new(self, window: WindowHandle, frame: Option<Seq<char>>) -> EwmView {
        let target = match frame {
            Some(name) => self.space.output_named(name),
            None => None,
        };
        let at = match target {
            Some(o) => o.zone_origin(),
            None => offscreen(),
        };
        let s = EwmView { space: self.space.map_element(window, at), ..self }.act(
            ActionView::Place { window, x: at.x, y: at.y, activate: false },
        );
        match target {
            Some(o) => s.act(
                ActionView::Configure { window, w: o.zone.size.w, h: o.zone.size.h },
            ),
            None => s,
        }
    }

    /// The state after a new toplevel.
    pub open spec fn new_toplevel(
        self,
        window: WindowHandle,
        client_pid: Option<i32>,
        app: Seq<char>,
    ) -> EwmView {
        let id = self.next_surface_id;
        let is_emacs = is_emacs_pid(self.emacs_pid, client_pid);
        let frame = self.frame_output();
        let s = self.greet(window).track(window, is_emacs).take_frame_output();
        let output = if frame is Some {
            frame
        } else {
            s.active_output()
        };
        let t = s.place_new(window, frame);
        let u = if is_emacs {
            t
        } else {
            EwmView {
                surface_info: t.surface_info.insert(
                    id,
                    SurfaceInfoView { app_id: app, title: Seq::empty() },
                ),
                ..t
            }
        };
        u.tell(EventView::New { id, app, output })
    }

    /// Everything about a tracked window forgotten, and Emacs told.
    pub open spec fn forget(self, window: WindowHandle) -> EwmView {
        let id = self.window_ids[window];
        EwmView {
            window_ids: self.window_ids.remove(window),
            id_windows: self.id_windows.remove(id),
            surface_info: self.surface_info.remove(id),
            surface_views: self.surface_views.remove(id),
            emacs_surfaces: self.emacs_surfaces.remove(id),
            ..self
        }.tell(EventView::Close { id })
    }

    /// A window taken out of the space.
    pub open spec fn unmap(self, window: WindowHandle) -> EwmView {
        EwmView { space: self.space.unmap_elem(window), ..self }.act(ActionView::Remove { window })
    }

    /// The state after a toplevel is destroyed.
    pub open spec fn toplevel_gone(self, window: WindowHandle) -> EwmView {
        if self.space.element_location(window) is None {
            self
        } else if self.window_ids.contains_key(window) {
            self.forget(window).unmap(window)
        } else {
            self.unmap(window)
        }
    }

    /// Whether `r` is where the focus goes from a surface that was on this
    /// output: an Emacs surface on the same output, or else surface 1.
    pub open spec fn refocus_choice(self, output: Option<Seq<char>>, r: Option<u32>) -> bool {
        match output {
            Some(out) => if exists|id: u32| self.emacs_surface_on(out, id) {
                r is Some && self.emacs_surface_on(out, r->0)
            } else {
                r == Some(1u32)
            },
            None => r == Some(1u32),
        }
    }

    /// The state after the client may have changed a surface's description.
    pub open spec fn surface_described(
        self,
        window: WindowHandle,
        app: Seq<char>,
        title: Seq<char>,
    ) -> EwmView {
        if self.space.element_location(window) is None || !self.window_ids.contains_key(window)
            || self.is_emacs_window(window) {
            self
        } else {
            let id = self.window_ids[window];
            let info = SurfaceInfoView { app_id: app, title };
            if (self.surface_info.contains_key(id) && self.surface_info[id] == info) || (app.len()
                == 0 && title.len() == 0) {
                self
            } else {
                EwmView { surface_info: self.surface_info.insert(id, info), ..self }.tell(
                    EventView::Title { id, app, title },
                )
            }
        }
    }
}

impl Space {
    /// Replaces the area of an output that no layer surface reserves.
    pub fn set_zone(&mut self, output: OutputHandle, zone: Rectangle)
        ensures
            final(self)@ == old(self)@.with_zone(output, zone),
    {
        let ghost goal = self@.with_zone(output, zone).outputs;
        let ghost before = self@;
        let mut i: usize = 0;
        while i < self.outputs.len()
            invariant
                i <= self.outputs@.len(),
                self.outputs@.len() == before.outputs.len(),
                goal == before.with_zone(output, zone).outputs,
                self@.elements == before.elements,
                forall|j: int| 0 <= j < i ==> #[trigger] self@.outputs[j] == goal[j],
                forall|j: int|
                    i <= j < before.outputs.len() ==> #[trigger] self@.outputs[j]
                        == before.outputs[j],
            decreases self.outputs@.len() - i,
        {
            let ghost prev = self@;
            proof {
                assert(self@.outputs[i as int] == before.outputs[i as int]);
            }
            if self.outputs[i].handle == output {
                let mut o: Output = Output {
                    handle: output,
                    name: self.outputs[i].name.clone(),
                    mode: self.outputs[i].mode,
                    transform: self.outputs[i].transform,
                    scale: self.outputs[i].scale,
                    loc: self.outputs[i].loc,
                    size: self.outputs[i].size,
                    zone,
                };
                self.outputs[i] = o;
                proof {
                    assert(self@.outputs =~= prev.outputs.update(i as int, o@));
                }
            }
            i += 1;
        }
        proof {
            assert(self@.outputs =~= goal);
        }
    }
}

impl Ewm {
    // -- working areas ------------------------------------------------------

    /// The area of an output that no layer surface reserves. `zone` is what the
    /// display side has, which counts where the output is not mapped.
    pub fn get_working_area(&self, output: OutputHandle, zone: Rectangle) -> (r: Rectangle)
        ensures
            r == self@.free_area(output, zone),
    {
        match self.space.output_index(output) {
            Some(i) => self.space.outputs[i].zone,
            None => zone,
        }
    }

    /// Places a window in the space.
    pub fn place(&mut self, window: WindowHandle, at: Point, activate: bool)
        ensures
            final(self)@ == (EwmView {
                space: old(self)@.space.map_element(window, at),
                ..old(self)@
            }).act(ActionView::Place { window, x: at.x, y: at.y, activate }),
    {
        self.space.map_element(window, at);
        self.act(Action::Place { window, x: at.x, y: at.y, activate });
    }

    /// Makes the Emacs frames of an output fit its free area.
    pub fn update_frames_for_working_area(&mut self, output: OutputHandle)
        ensures
            final(self)@ == old(self)@.update_frames(output),
    {
        let index: usize = match self.space.output_index(output) {
            Some(i) => i,
            None => return,
        };
        let ghost start = self@;
        let ghost o = self.space.outputs@[index as int]@;
        let geo: Rectangle = self.space.outputs[index].geometry();
        let zone: Rectangle = self.space.outputs[index].zone;
        let origin: Point = self.space.outputs[index].loc.offset(zone.loc);
        let elements: Vec<Placed> = copy_elements(&self.space.elements);
        let mut i: usize = 0;
        proof {
            assert(start.space.elements.take(0) =~= Seq::<Placed>::empty());
        }
        while i < elements.len()
            invariant
                i <= elements@.len(),
                elements@ == start.space.elements,
                start == old(self)@,
                geo == o.geometry(),
                zone == o.zone,
                origin == o.zone_origin(),
                self@ == start.refit_frames(start.space.elements.take(i as int), o),
                self@.window_ids == start.window_ids,
                self@.emacs_surfaces == start.emacs_surfaces,
            decreases elements@.len() - i,
        {
            let e: Placed = elements[i];
            proof {
                assert(start.space.elements.take(i + 1).drop_last()
                    =~= start.space.elements.take(i as int));
                assert(start.space.elements.take(i + 1).last() == e);
            }
            let is_emacs: bool = match self.window_ids.get(&e.window) {
                Some(id) => self.emacs_surfaces.contains(id),
                None => false,
            };
            if is_emacs && geo.contains(e.loc) {
                self.place(e.window, origin, false);
                self.act(Action::Configure { window: e.window, w: zone.size.w, h: zone.size.h });
            }
            i += 1;
        }
        proof {
            assert(start.space.elements.take(i as int) =~= start.space.elements);
        }
        self.queue_redraw(output);
    }

    /// Takes up the free area that an output has after its layer surfaces were
    /// arranged, and their places. `name` is the name of the output, which
    /// counts where it is not mapped.
    pub fn check_working_area_change(
        &mut self,
        output: OutputHandle,
        name: &str,
        zone: Rectangle,
        places: &Vec<LayerPlace>,
    )
        ensures
            final(self)@ == old(self)@.working_area_checked(output, name@, zone, places@),
    {
        self.arrange_layers(places);
        if self.space.output_index(output).is_some() {
            self.check_mapped_area(output, zone);
            return;
        }
        let changed: bool = match self.working_areas.get(name) {
            Some(prev) => *prev != zone,
            None => true,
        };
        if changed {
            self.working_areas.insert(owned(name), zone);
            self.queue_event(
                Event::WorkingArea {
                    output: owned(name),
                    x: zone.loc.x,
                    y: zone.loc.y,
                    width: zone.size.w,
                    height: zone.size.h,
                },
            );
        }
    }

    /// Takes up the places of layer surfaces.
    pub(crate) fn arrange_layers(&mut self, places: &Vec<LayerPlace>)
        ensures
            final(self)@ == old(self)@.arranged(places@),
    {
        let ghost before = self@;
        let ghost goal = self@.arranged(places@).layers;
        let mut i: usize = 0;
        while i < self.layers.len()
            invariant
                i <= self.layers@.len(),
                self.layers@.len() == before.layers.len(),
                before == old(self)@,
                goal == before.arranged(places@).layers,
                self@ == (EwmView { layers: self@.layers, ..before }),
                forall|j: int| 0 <= j < i ==> #[trigger] self@.layers[j] == goal[j],
                forall|j: int|
                    i <= j < before.layers.len() ==> #[trigger] self@.layers[j]
                        == before.layers[j],
            decreases self.layers@.len() - i,
        {
            let ghost prev = self@.layers;
            proof {
                assert(self@.layers[i as int] == before.layers[i as int]);
            }
            let l: LayerSurface = LayerSurface {
                surface: self.layers[i].surface,
                output: self.layers[i].output,
                namespace: self.layers[i].namespace.clone(),
                layer: self.layers[i].layer,
                interactivity: self.layers[i].interactivity,
                geometry: find_place(places, self.layers[i].surface, self.layers[i].geometry),
            };
            self.layers[i] = l;
            proof {
                assert(self@.layers =~= prev.update(i as int, l@));
            }
            i += 1;
        }
        proof {
            assert(self@.layers =~= goal);
        }
    }

    /// Takes up the free area that an output that is mapped has after its layer
    /// surfaces were arranged.
    pub(crate) fn check_mapped_area(&mut self, output: OutputHandle, zone: Rectangle)
        ensures
            final(self)@ == old(self)@.check_working_area(output, zone),
    {
        let index: usize = match self.space.output_index(output) {
            Some(i) => i,
            None => return,
        };
        let name: String = self.space.outputs[index].name.clone();
        let loc: Point = self.space.outputs[index].loc;
        self.space.set_zone(output, zone);
        let changed: bool = match self.working_areas.get(name.as_str()) {
            Some(prev) => *prev != zone,
            None => true,
        };
        if changed {
            self.working_areas.insert(name.clone(), zone);
            self.module.set_output_offset(name.as_str(), loc.offset(zone.loc));
            self.update_frames_for_working_area(output);
            self.queue_event(
                Event::WorkingArea {
                    output: name,
                    x: zone.loc.x,
                    y: zone.loc.y,
                    width: zone.size.w,
                    height: zone.size.h,
                },
            );
        }
    }

    // -- toplevels ----------------------------------------------------------

    /// Takes up a new toplevel: gives it the next id, configures it to fill
    /// the outputs, and tells Emacs. A frame that Emacs announced goes to its
    /// output; any other window stays out of sight until Emacs places it.
    pub fn handle_new_toplevel(
        &mut self,
        window: WindowHandle,
        client_pid: Option<i32>,
        app_id: Option<String>,
        comm: Option<String>,
    )
        requires
            old(self)@.next_surface_id < u32::MAX,
        ensures
            final(self)@ == old(self)@.new_toplevel(
                window,
                client_pid,
                app_name(text_view(app_id), text_view(comm)),
            ),
    {
        let ghost start = self@;
        let is_emacs: bool = self.is_emacs_client(client_pid);
        let app: String = application_name(app_id, comm);
        self.act(
            Action::ConfigureNew { window, w: self.output_size.w, h: self.output_size.h },
        );
        if self.space.outputs.len() > 0 {
            let output: OutputHandle = self.space.outputs[0].handle;
            self.act(Action::SendScale { surface: window, output });
        }
        proof {
            assert(self@ == start.greet(window));
        }
        let id: u32 = self.next_surface_id;
        self.next_surface_id = id + 1;
        if is_emacs {
            self.emacs_surfaces.insert(id);
        }
        self.window_ids.insert(window, id);
        self.id_windows.insert(id, window);
        let frame: Option<String> = self.module.take_pending_frame_output();
        let ghost s = self@;
        proof {
            assert(s == start.greet(window).track(window, is_emacs).take_frame_output());
            assert(text_view(frame) == start.frame_output());
        }
        let output: Option<String> = match &frame {
            Some(name) => Some(name.clone()),
            None => self.active_output(),
        };
        let target: Option<usize> = match &frame {
            Some(name) => self.space.output_index_named(name.as_str()),
            None => None,
        };
        match target {
            Some(i) => {
                let zone: Rectangle = self.space.outputs[i].zone;
                let at: Point = self.space.outputs[i].loc.offset(zone.loc);
                self.place(window, at, false);
                self.act(Action::Configure { window, w: zone.size.w, h: zone.size.h });
            },
            None => {
                self.place(window, Point { x: OFFSCREEN, y: OFFSCREEN }, false);
            },
        }
        proof {
            assert(self@ == s.place_new(window, start.frame_output()));
        }
        if !is_emacs {
            let ghost infos = self.surface_info@;
            let info: SurfaceInfo = SurfaceInfo { app_id: app.clone(), title: String::new() };
            self.surface_info.insert(id, info);
            proof {
                assert(surface_info_view(self.surface_info@) =~= surface_info_view(infos).insert(
                    id,
                    info@,
                ));
                assert(info@ =~= SurfaceInfoView { app_id: app@, title: Seq::empty() });
            }
        }
        self.queue_event(Event::New { id, app, output });
    }

    /// Takes up that a toplevel is destroyed: it is forgotten everywhere and
    /// Emacs is told. Gives the surface to focus in its place, if it was
    /// focused.
    pub fn handle_toplevel_destroyed(&mut self, window: WindowHandle) -> (r: Option<u32>)
        ensures
            final(self)@ == old(self)@.toplevel_gone(window),
            if old(self)@.space.element_location(window) is Some && old(
                self)@.window_ids.contains_key(window) && old(self)@.focused_surface_id == old(
                self)@.window_ids[window] {
                final(self)@.refocus_choice(
                    old(self)@.surface_output(old(self)@.window_ids[window]),
                    r,
                )
            } else {
                r is None
            },
    {
        if self.space.element_location(window).is_none() {
            return None;
        }
        let ghost start = self@;
        match self.window_ids.remove(&window) {
            Some(id) => {
                let was_focused: bool = self.focused_surface_id == id;
                let output: Option<String> = self.get_surface_output(id);
                proof {
                    assert(text_view(output) == start.surface_output(id));
                }
                let ghost infos = self.surface_info@;
                let ghost surface_views = self.surface_views@;
                self.id_windows.remove(&id);
                self.surface_info.remove(&id);
                self.surface_views.remove(&id);
                self.emacs_surfaces.remove(&id);
                proof {
                    assert(surface_info_view(self.surface_info@) =~= surface_info_view(
                        infos,
                    ).remove(id));
                    assert(surface_views_view(self.surface_views@) =~= surface_views_view(
                        surface_views,
                    ).remove(id));
                }
                self.queue_event(Event::Close { id });
                proof {
                    assert(self@ == start.forget(window));
                }
                self.space.unmap_elem(window);
                self.act(Action::Remove { window });
                if was_focused {
                    let on_output: Option<u32> = match &output {
                        Some(out) => self.find_emacs_surface_on(out.as_str()),
                        None => None,
                    };
                    let refocus: Option<u32> = match on_output {
                        Some(id) => Some(id),
                        None => Some(1),
                    };
                    proof {
                        assert(self@.refocus_choice(text_view(output), refocus));
                    }
                    refocus
                } else {
                    None
                }
            },
            None => {
                self.space.unmap_elem(window);
                self.act(Action::Remove { window });
                None
            },
        }
    }

    /// An Emacs surface on the output with this name.
    fn find_emacs_surface_on(&self, output: &str) -> (r: Option<u32>)
        ensures
            match r {
                Some(id) => self@.emacs_surface_on(output@, id),
                None => forall|id: u32| !self@.emacs_surface_on(output@, id),
            },
    {
        for id in it: self.emacs_surfaces.iter()
            invariant
                it.seq().unref().to_set() == self@.emacs_surfaces,
                forall|j: int|
                    0 <= j < it.index() ==> !self@.emacs_surface_on(
                        output@,
                        *(#[trigger] it.seq()[j]),
                    ),
        {
            proof {
                assert(it.seq().unref()[it.index()] == *id);
                assert(it.seq().unref().to_set().contains(*id));
            }
            let here: bool = match self.get_surface_output(*id) {
                Some(o) => same_text(o.as_str(), output),
                None => false,
            };
            if here {
                return Some(*id);
            }
        }
        proof {
            assert forall|id: u32| !self@.emacs_surface_on(output@, id) by {
                if self@.emacs_surfaces.contains(id) {
                }
            }
        }
        None
    }

    /// Takes up that a toplevel is destroyed, and moves the focus on where it
    /// had it.
    pub fn toplevel_destroyed(&mut self, window: WindowHandle)
        ensures
            exists|r: Option<u32>| #[trigger]
                old(self)@.toplevel_gone_to(window, r) && final(self)@ == match r {
                    Some(id) => old(self)@.toplevel_gone(window).focus_from(
                        id,
                        true,
                        "focus_surface"@, None,
                    ).sync_keyboard_focus(),
                    None => old(self)@.toplevel_gone(window),
                },
    {
        let r: Option<u32> = self.handle_toplevel_destroyed(window);
        proof {
            assert(old(self)@.toplevel_gone_to(window, r));
        }
        if let Some(id) = r {
            self.focus_surface(id, true);
            self.sync_keyboard_focus();
        }
    }

    /// Takes up a surface's app id and title, and tells Emacs where they
    /// changed.
    pub fn check_surface_info_changes(
        &mut self,
        window: WindowHandle,
        app_id: String,
        title: String,
    )
        ensures
            final(self)@ == old(self)@.surface_described(window, app_id@, title@),
    {
        if self.space.element_location(window).is_none() {
            return;
        }
        let id: u32 = match self.window_ids.get(&window) {
            Some(id) => *id,
            None => return,
        };
        if self.emacs_surfaces.contains(&id) {
            return;
        }
        let changed: bool = match self.surface_info.get(&id) {
            Some(info) => {
                proof {
                    assert(self@.surface_info[id] == info@);
                }
                !same_text(info.app_id.as_str(), app_id.as_str()) || !same_text(
                    info.title.as_str(),
                    title.as_str(),
                )
            },
            None => true,
        };
        if changed && (!app_id.as_str().is_empty() || !title.as_str().is_empty()) {
            let ghost infos = self.surface_info@;
            let info: SurfaceInfo = SurfaceInfo { app_id: app_id.clone(), title: title.clone() };
            self.surface_info.insert(id, info);
            proof {
                assert(surface_info_view(self.surface_info@) =~= surface_info_view(infos).insert(
                    id,
                    info@,
                ));
            }
            self.queue_event(Event::Title { id, app: app_id, title });
        }
    }
}

impl EwmView {
    /// Whether the focus goes to `r` when the window is destroyed; none where
    /// it did not have the focus.
    pub open spec fn toplevel_gone_to(self, window: WindowHandle, r: Option<u32>) -> bool {
        if self.space.element_location(window) is Some && self.window_ids.contains_key(window)
            && self.focused_surface_id == self.window_ids[window] {
            self.toplevel_gone(window).refocus_choice(
                self.surface_output(self.window_ids[window]),
                r,
            )
        } else {
            r is None
        }
    }
}

fn copy_elements(elements: &Vec<Placed>) -> (r: Vec<Placed>)
    ensures
        r@ == elements@,
{
    let mut r: Vec<Placed> = Vec::new();
    let mut i: usize = 0;
    while i < elements.len()
        invariant
            i <= elements@.len(),
            r@ == elements@.take(i as int),
        decreases elements@.len() - i,
    {
        r.push(elements[i]);
        proof {
            assert(elements@.take(i + 1) =~= elements@.take(i as int).push(elements@[i as int]));
        }
        i += 1;
    }
    proof {
        assert(elements@.take(i as int) =~= elements@);
    }
    r
}

} // verus!
