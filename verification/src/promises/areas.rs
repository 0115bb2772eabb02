//! Free areas of outputs, the frames that fill them, and the layer surfaces that
//! reserve the rest.
use vstd::prelude::*;

use crate::action::ActionView;
use crate::event::EventView;
use crate::ewm::EwmView;
use crate::geometry::{Point, Rectangle};
use crate::layer_shell::{LayerCommit, RequestedOutput};
use crate::layers::{
    first_layer, place_in, KeyboardInteractivity, Layer, LayerPlace, LayerSurfaceView,
};
use crate::promises::commands::lemma_mapped_window_is_found;
use crate::promises::places::{is_in, is_proper, lemma_contained_points};
use crate::promises::redraws::asked_to_draw;
use crate::space::{OutputHandle, OutputView, Placed, SpaceView, WindowHandle};

verus! {

// ---------------------------------------------------------------------------
// Frames
// ---------------------------------------------------------------------------
/// Whether a list of placed windows holds a frame of Emacs in the part that an
/// output shows, with this window.
pub open spec fn frame_on(s: EwmView, todo: Seq<Placed>, o: OutputView, window: WindowHandle) -> bool {
    &&& s.window_ids.contains_key(window)
    &&& s.emacs_surfaces.contains(s.window_ids[window])
    &&& exists|k: int|
        0 <= k < todo.len() && (#[trigger] todo[k]).window == window && is_in(
            todo[k].loc,
            Rectangle { loc: o.loc, size: o.size },
        )
}

/// Whether an action puts a window to the corner of the free area of an output,
/// or gives it the size of that area.
pub open spec fn fits(a: ActionView, o: OutputView) -> bool {
    match a {
        ActionView::Place { window, x, y, activate } => x == o.loc.x + o.zone.loc.x && y == o.loc.y
            + o.zone.loc.y && !activate,
        ActionView::Configure { window, w, h } => w == o.zone.size.w && h == o.zone.size.h,
        _ => false,
    }
}

/// Whether the corner of the free area of an output is a place.
pub open spec fn has_corner(o: OutputView) -> bool {
    &&& i32::MIN <= o.loc.x + o.zone.loc.x <= i32::MAX
    &&& i32::MIN <= o.loc.y + o.zone.loc.y <= i32::MAX
}

proof fn lemma_refit(s: EwmView, todo: Seq<Placed>, o: OutputView, window: WindowHandle)
    requires
        has_corner(o),
        is_proper(Rectangle { loc: o.loc, size: o.size }),
    ensures
        ({
            let t = s.refit_frames(todo, o);
            let n = s.actions.len() as int;
            &&& t == (EwmView { space: t.space, actions: t.actions, ..s })
            &&& t.space.outputs == s.space.outputs
            &&& frame_on(s, todo, o, window) ==> {
                &&& t.space.element_location(window) is Some
                &&& t.space.element_location(window)->0.x == o.loc.x + o.zone.loc.x
                &&& t.space.element_location(window)->0.y == o.loc.y + o.zone.loc.y
                &&& exists|k: int|
                    n <= k < t.actions.len() && #[trigger] t.actions[k] == (ActionView::Configure {
                        window,
                        w: o.zone.size.w,
                        h: o.zone.size.h,
                    })
            }
            &&& !frame_on(s, todo, o, window) ==> t.space.element_location(window)
                == s.space.element_location(window)
            &&& n <= t.actions.len()
            &&& forall|k: int| 0 <= k < n ==> #[trigger] t.actions[k] == s.actions[k]
            &&& forall|k: int| n <= k < t.actions.len() ==> fits(#[trigger] t.actions[k], o)
        }),
    decreases todo.len(),
{
    if todo.len() > 0 {
        let rest = todo.drop_last();
        let e = todo.last();
        lemma_refit(s, rest, o, window);
        lemma_contained_points(o.geometry(), e.loc);
        let before = s.refit_frames(rest, o);
        let t = s.refit_frames(todo, o);
        let n = s.actions.len() as int;
        if frame_on(s, rest, o, window) {
            let k = choose|k: int|
                0 <= k < rest.len() && (#[trigger] rest[k]).window == window && is_in(
                    rest[k].loc,
                    Rectangle { loc: o.loc, size: o.size },
                );
            assert(todo[k] == rest[k]);
            assert(frame_on(s, todo, o, window));
            let m = choose|m: int|
                n <= m < before.actions.len() && #[trigger] before.actions[m] == (
                ActionView::Configure { window, w: o.zone.size.w, h: o.zone.size.h });
            assert(t.actions[m] == before.actions[m]);
        } else if frame_on(s, todo, o, window) {
            let k = choose|k: int|
                0 <= k < todo.len() && (#[trigger] todo[k]).window == window && is_in(
                    todo[k].loc,
                    Rectangle { loc: o.loc, size: o.size },
                );
            if k < rest.len() {
                assert(rest[k] == todo[k]);
            }
            assert(e.window == window);
            assert(t.actions[t.actions.len() - 1] == (ActionView::Configure {
                window,
                w: o.zone.size.w,
                h: o.zone.size.h,
            }));
        }
        if s.is_emacs_window(e.window) && o.geometry().contains_spec(e.loc) {
            lemma_mapped_window_is_found(before.space, e.window, o.zone_origin(), window);
            if e.window == window {
                assert(todo[todo.len() - 1].window == window);
                assert(frame_on(s, todo, o, window));
            }
        }
    }
}

// ---------------------------------------------------------------------------
// Free areas
// ---------------------------------------------------------------------------
/// Whether output `i` of a space is the first with its handle.
pub open spec fn first_of_handle(space: SpaceView, i: int) -> bool {
    &&& 0 <= i < space.outputs.len()
    &&& forall|j: int|
        0 <= j < i ==> (#[trigger] space.outputs[j]).handle != space.outputs[i].handle
}

/// The mapped output of a handle is the first that has it.
pub proof fn lemma_output_of_a_handle(space: SpaceView, i: int)
    requires
        first_of_handle(space, i),
    ensures
        space.output(space.outputs[i].handle) == Some(space.outputs[i]),
{
    let handle = space.outputs[i].handle;
    let wanted = |o: OutputView| o.handle == handle;
    crate::space::lemma_first_output(space.outputs, wanted);
    match space.output(handle) {
        Some(o) => {
            let k = choose|k: int|
                0 <= k < space.outputs.len() && space.outputs[k] == o && wanted(o) && forall|j: int|
                    0 <= j < k ==> !wanted(#[trigger] space.outputs[j]);
            if k < i {
                assert(space.outputs[k].handle != handle);
            } else if i < k {
                assert(!wanted(space.outputs[i]));
            }
        },
        None => {
            assert(!wanted(space.outputs[i]));
        },
    }
}

/// A free area that Emacs knows already is told to nobody, and moves no frame.
pub proof fn lemma_known_area(s: EwmView, i: int, zone: Rectangle)
    requires
        first_of_handle(s.space, i),
        s.working_areas.contains_key(s.space.outputs[i].name),
        s.working_areas[s.space.outputs[i].name] == zone,
    ensures
        ({
            let t = s.check_working_area(s.space.outputs[i].handle, zone);
            &&& t == (EwmView { space: t.space, ..s })
            &&& t.space.elements == s.space.elements
            &&& t.space.outputs.len() == s.space.outputs.len()
            &&& t.space.outputs[i] == (OutputView { zone, ..s.space.outputs[i] })
        }),
{
    lemma_output_of_a_handle(s.space, i);
}

/// A free area that changed is kept and told to Emacs last, with its place on
/// the output and its size; Emacs learns where its corner is; every frame of
/// Emacs on the output is put to that corner and given that size, and told so;
/// and no other window moves.
pub proof fn lemma_changed_area(s: EwmView, i: int, zone: Rectangle, window: WindowHandle)
    requires
        first_of_handle(s.space, i),
        !s.working_areas.contains_key(s.space.outputs[i].name)
            || s.working_areas[s.space.outputs[i].name] != zone,
        has_corner(OutputView { zone, ..s.space.outputs[i] }),
        is_proper(Rectangle { loc: s.space.outputs[i].loc, size: s.space.outputs[i].size }),
    ensures
        ({
            let o = OutputView { zone, ..s.space.outputs[i] };
            let t = s.check_working_area(o.handle, zone);
            let n = s.actions.len() as int;
            &&& t.working_areas == s.working_areas.insert(o.name, zone)
            &&& t.module.events == s.module.events.push(
                EventView::WorkingArea {
                    output: o.name,
                    x: zone.loc.x,
                    y: zone.loc.y,
                    width: zone.size.w,
                    height: zone.size.h,
                },
            )
            &&& t.module.output_offsets.contains_key(o.name)
            &&& t.module.output_offsets[o.name].x == o.loc.x + zone.loc.x
            &&& t.module.output_offsets[o.name].y == o.loc.y + zone.loc.y
            &&& t.space.outputs.len() == s.space.outputs.len()
            &&& t.space.outputs[i] == o
            &&& frame_on(s, s.space.elements, o, window) ==> {
                &&& t.space.element_location(window) is Some
                &&& t.space.element_location(window)->0.x == o.loc.x + zone.loc.x
                &&& t.space.element_location(window)->0.y == o.loc.y + zone.loc.y
                &&& exists|k: int|
                    n <= k < t.actions.len() && #[trigger] t.actions[k] == (ActionView::Configure {
                        window,
                        w: zone.size.w,
                        h: zone.size.h,
                    })
            }
            &&& !frame_on(s, s.space.elements, o, window) ==> t.space.element_location(window)
                == s.space.element_location(window)
            &&& n <= t.actions.len()
            &&& forall|k: int| 0 <= k < n ==> #[trigger] t.actions[k] == s.actions[k]
            &&& forall|k: int| n <= k < t.actions.len() ==> fits(#[trigger] t.actions[k], o)
            &&& t.focused_surface_id == s.focused_surface_id
        }),
{
    let o = OutputView { zone, ..s.space.outputs[i] };
    let space = s.space.with_zone(o.handle, zone);
    lemma_output_of_a_handle(s.space, i);
    assert(space.outputs[i] == o);
    assert forall|j: int| 0 <= j < i implies (#[trigger] space.outputs[j]).handle != o.handle by {
        assert(s.space.outputs[j].handle != o.handle);
    }
    lemma_output_of_a_handle(space, i);
    let a = EwmView {
        space,
        working_areas: s.working_areas.insert(o.name, zone),
        module: crate::module::ModuleView {
            output_offsets: s.module.output_offsets.insert(o.name, o.loc.offset_spec(zone.loc)),
            ..s.module
        },
        ..s
    };
    lemma_refit(a, space.elements, o, window);
}

/// What the free area of an output is changes nothing else about the outputs,
/// the layer surfaces or the focus.
proof fn lemma_area_keeps(s: EwmView, output: OutputHandle, zone: Rectangle)
    ensures
        ({
            let t = s.check_working_area(output, zone);
            t == (EwmView {
                space: t.space,
                working_areas: t.working_areas,
                module: t.module,
                actions: t.actions,
                output_state: t.output_state,
                ..s
            })
        }),
{
    if let Some(o) = s.space.output(output) {
        let a = EwmView {
            space: s.space.with_zone(output, zone),
            working_areas: s.working_areas.insert(o.name, zone),
            module: crate::module::ModuleView {
                output_offsets: s.module.output_offsets.insert(
                    o.name,
                    o.loc.offset_spec(zone.loc),
                ),
                ..s.module
            },
            ..s
        };
        if let Some(p) = a.space.output(output) {
            lemma_refit_keeps(a, a.space.elements, p);
        }
    }
}

proof fn lemma_refit_keeps(s: EwmView, todo: Seq<Placed>, o: OutputView)
    ensures
        s.refit_frames(todo, o) == (EwmView {
            space: s.refit_frames(todo, o).space,
            actions: s.refit_frames(todo, o).actions,
            ..s
        }),
    decreases todo.len(),
{
    if todo.len() > 0 {
        lemma_refit_keeps(s, todo.drop_last(), o);
    }
}

/// The free area of an output that is not mapped is kept and told where it
/// changed; nothing moves.
pub proof fn lemma_area_of_an_unmapped_output(
    s: EwmView,
    output: OutputHandle,
    name: Seq<char>,
    zone: Rectangle,
    places: Seq<LayerPlace>,
)
    requires
        forall|j: int|
            0 <= j < s.space.outputs.len() ==> (#[trigger] s.space.outputs[j]).handle != output,
    ensures
        ({
            let t = s.working_area_checked(output, name, zone, places);
            let known = s.working_areas.contains_key(name) && s.working_areas[name] == zone;
            &&& t.working_areas.contains_key(name) && t.working_areas[name] == zone
            &&& t.module.events == (if known {
                s.module.events
            } else {
                s.module.events.push(
                    EventView::WorkingArea {
                        output: name,
                        x: zone.loc.x,
                        y: zone.loc.y,
                        width: zone.size.w,
                        height: zone.size.h,
                    },
                )
            })
            &&& t.space == s.space
            &&& t.actions == s.actions
            &&& t.output_state == s.output_state
        }),
{
    let wanted = |o: OutputView| o.handle == output;
    crate::space::lemma_first_output(s.space.outputs, wanted);
    if let Some(o) = s.space.output(output) {
        let k = choose|k: int|
            0 <= k < s.space.outputs.len() && s.space.outputs[k] == o && wanted(o) && forall|
                j: int,
            |
                0 <= j < k ==> !wanted(#[trigger] s.space.outputs[j]);
        assert(s.space.outputs[k].handle != output);
    }
}

// ---------------------------------------------------------------------------
// Layer surfaces
// ---------------------------------------------------------------------------
/// A new layer surface goes to the output that it asks for, or to the first
/// where it asks for none, under its name and on its layer, and is told the
/// scale there. It is not shown and takes no keyboard until it commits. Where
/// there is no such output it is closed, and nothing else happens.
pub proof fn lemma_new_layer_surface(
    s: EwmView,
    surface: u64,
    requested: RequestedOutput,
    layer: Layer,
    namespace: Seq<char>,
)
    ensures
        ({
            let t = s.new_layer(surface, requested, layer, namespace);
            let refused = match requested {
                RequestedOutput::Known(_) => false,
                RequestedOutput::Unknown => true,
                RequestedOutput::Unspecified => s.space.outputs.len() == 0,
            };
            let output = match requested {
                RequestedOutput::Known(h) => h,
                _ => s.space.outputs[0].handle,
            };
            if refused {
                t == (EwmView {
                    actions: s.actions.push(ActionView::CloseLayer { surface }),
                    ..s
                })
            } else {
                &&& t.layers.drop_last() == s.layers
                &&& t.layers.len() == s.layers.len() + 1
                &&& t.layers.last().surface == surface
                &&& t.layers.last().output == output
                &&& t.layers.last().namespace == namespace
                &&& t.layers.last().layer == layer
                &&& t.layers.last().interactivity == KeyboardInteractivity::Never
                &&& t.unmapped_layer_surfaces == s.unmapped_layer_surfaces.insert(surface)
                &&& t.actions == s.actions.push(ActionView::SendScale { surface, output })
                &&& t == (EwmView {
                    layers: t.layers,
                    unmapped_layer_surfaces: t.unmapped_layer_surfaces,
                    actions: t.actions,
                    ..s
                })
            }
        }),
{
    let t = s.new_layer(surface, requested, layer, namespace);
    if t.layers.len() > s.layers.len() {
        assert(t.layers.drop_last() =~= s.layers);
    }
}

/// The place of a layer surface is the one that is listed for it first, and its
/// old one where none is listed.
pub proof fn lemma_place_of_a_layer(places: Seq<LayerPlace>, surface: u64, before: Rectangle)
    ensures
        (forall|j: int| 0 <= j < places.len() ==> (#[trigger] places[j]).surface != surface)
            ==> place_in(places, surface, before) == before,
        forall|i: int|
            0 <= i < places.len() && (#[trigger] places[i]).surface == surface && (forall|j: int|
                0 <= j < i ==> (#[trigger] places[j]).surface != surface) ==> place_in(
                places,
                surface,
                before,
            ) == places[i].geometry,
    decreases places.len(),
{
    if places.len() > 0 {
        let rest = places.drop_first();
        lemma_place_of_a_layer(rest, surface, before);
        if forall|j: int| 0 <= j < places.len() ==> (#[trigger] places[j]).surface != surface {
            assert(places[0].surface != surface);
            assert forall|j: int| 0 <= j < rest.len() implies (#[trigger] rest[j]).surface
                != surface by {
                assert(places[j + 1].surface != surface);
            }
        }
        assert forall|i: int|
            0 <= i < places.len() && (#[trigger] places[i]).surface == surface && (forall|j: int|
                0 <= j < i ==> (#[trigger] places[j]).surface != surface) implies place_in(
            places,
            surface,
            before,
        ) == places[i].geometry by {
            if i > 0 {
                assert(places[0].surface != surface);
                assert(rest[i - 1] == places[i]);
                assert forall|j: int| 0 <= j < i - 1 implies (#[trigger] rest[j]).surface
                    != surface by {
                    assert(places[j + 1].surface != surface);
                }
            }
        }
    }
}

/// Whether layer surface `i` is the first of its handle, and its output is
/// mapped.
pub open spec fn is_mapped_layer(s: EwmView, i: int) -> bool {
    &&& 0 <= i < s.layers.len()
    &&& forall|j: int| 0 <= j < i ==> (#[trigger] s.layers[j]).surface != s.layers[i].surface
    &&& exists|k: int|
        0 <= k < s.space.outputs.len() && (#[trigger] s.space.outputs[k]).handle
            == s.layers[i].output
}

proof fn lemma_mapped_layer(s: EwmView, i: int)
    requires
        is_mapped_layer(s, i),
    ensures
        s.mapped_layer(s.layers[i].surface) == Some(s.layers[i]),
{
    let surface = s.layers[i].surface;
    let wanted = |l: LayerSurfaceView| l.surface == surface;
    lemma_first_layer_at(s.layers, surface, i);
    let k = choose|k: int|
        0 <= k < s.space.outputs.len() && (#[trigger] s.space.outputs[k]).handle
            == s.layers[i].output;
    let handle = s.layers[i].output;
    let here = |o: OutputView| o.handle == handle;
    crate::space::lemma_first_output(s.space.outputs, here);
    if s.space.output(handle) is None {
        assert(!here(s.space.outputs[k]));
    }
}

proof fn lemma_first_layer_at(layers: Seq<LayerSurfaceView>, surface: u64, i: int)
    requires
        0 <= i < layers.len(),
        layers[i].surface == surface,
        forall|j: int| 0 <= j < i ==> (#[trigger] layers[j]).surface != surface,
    ensures
        first_layer(layers, |l: LayerSurfaceView| l.surface == surface) == Some(layers[i]),
    decreases layers.len(),
{
    if i > 0 {
        assert(layers[0].surface != surface);
        let rest = layers.drop_first();
        assert(rest[i - 1] == layers[i]);
        assert forall|j: int| 0 <= j < i - 1 implies (#[trigger] rest[j]).surface != surface by {
            assert(layers[j + 1].surface != surface);
        }
        lemma_first_layer_at(rest, surface, i - 1);
    }
}

/// A layer surface that commits is on the layer and takes the keyboard as it
/// says from then on; the others stay as they are, but for their places. Its
/// first commit is answered with its configuration. With a buffer it is shown;
/// when that is new the keyboard is settled again, and one that takes the
/// keyboard on demand gets it. Without a buffer it is shown no more. Its output
/// is asked to draw.
pub proof fn lemma_layer_commits(s: EwmView, i: int, c: LayerCommit, k: int)
    requires
        is_mapped_layer(s, i),
        0 <= k < s.layers.len(),
    ensures
        ({
            let surface = s.layers[i].surface;
            let t = s.layer_commit(surface, surface, c);
            let before = s.layers[k];
            let after = t.layers[k];
            let shown = c.initial_configure_sent && c.has_buffer
                && s.unmapped_layer_surfaces.contains(surface);
            &&& t.layers.len() == s.layers.len()
            &&& after.surface == before.surface && after.output == before.output
                && after.namespace == before.namespace
            &&& before.surface == surface ==> after.layer == c.layer && after.interactivity
                == c.interactivity
            &&& before.surface != surface ==> after.layer == before.layer && after.interactivity
                == before.interactivity
            &&& after.geometry == place_in(c.places@, before.surface, before.geometry)
            &&& t.unmapped_layer_surfaces == (if shown {
                s.unmapped_layer_surfaces.remove(surface)
            } else if c.initial_configure_sent && !c.has_buffer {
                s.unmapped_layer_surfaces.insert(surface)
            } else {
                s.unmapped_layer_surfaces
            })
            &&& t.keyboard_focus_dirty == (s.keyboard_focus_dirty || shown)
            &&& t.layer_shell_on_demand_focus == (if shown && c.interactivity
                == KeyboardInteractivity::OnDemand {
                Some(surface)
            } else {
                s.layer_shell_on_demand_focus
            })
            &&& t.focused_surface_id == s.focused_surface_id
        }),
{
    let surface = s.layers[i].surface;
    lemma_mapped_layer(s, i);
    let a = s.update_layer(surface, c).map_layer(surface, c).arranged(c.places@);
    lemma_area_keeps(a, s.layers[i].output, c.zone);
}

/// The first commit of a layer surface is answered with its configuration.
pub proof fn lemma_first_commit_is_answered(s: EwmView, i: int, c: LayerCommit)
    requires
        is_mapped_layer(s, i),
        s.working_areas.contains_key(s.space.output(s.layers[i].output)->0.name),
        s.working_areas[s.space.output(s.layers[i].output)->0.name] == c.zone,
    ensures
        ({
            let surface = s.layers[i].surface;
            let t = s.layer_commit(surface, surface, c);
            &&& !c.initial_configure_sent ==> t.actions == s.actions.push(
                ActionView::ConfigureLayer { surface },
            )
            &&& c.initial_configure_sent ==> t.actions == s.actions
            &&& t.module == s.module
        }),
{
    lemma_mapped_layer(s, i);
}

/// A commit of a part of a layer surface only asks the output to draw.
pub proof fn lemma_part_of_a_layer_commits(s: EwmView, i: int, part: u64, c: LayerCommit, k: int)
    requires
        is_mapped_layer(s, i),
        part != s.layers[i].surface,
        0 <= k < s.output_state.len(),
    ensures
        ({
            let t = s.layer_commit(part, s.layers[i].surface, c);
            &&& t == (EwmView { output_state: t.output_state, ..s })
            &&& if s.output_state[k].output == s.layers[i].output {
                asked_to_draw(
                    s.output_state[k].state.redraw_state,
                    t.output_state[k].state.redraw_state,
                )
            } else {
                t.output_state[k] == s.output_state[k]
            }
        }),
{
    lemma_mapped_layer(s, i);
}

/// A layer surface that is destroyed is in no list any more, the others stay in
/// their order, and the keyboard is settled again, off that surface.
pub proof fn lemma_layer_is_gone(s: EwmView, i: int, zone: Rectangle, places: Seq<LayerPlace>)
    requires
        is_mapped_layer(s, i),
    ensures
        ({
            let surface = s.layers[i].surface;
            let t = s.layer_gone(surface, zone, places);
            let rest = s.layers.filter(|l: LayerSurfaceView| l.surface != surface);
            &&& !t.unmapped_layer_surfaces.contains(surface)
            &&& t.keyboard_focus_dirty
            &&& t.layer_shell_on_demand_focus != Some(surface)
            &&& s.layer_shell_on_demand_focus != Some(surface) ==> t.layer_shell_on_demand_focus
                == s.layer_shell_on_demand_focus
            &&& t.layers.len() == rest.len()
            &&& forall|k: int|
                0 <= k < rest.len() ==> {
                    &&& (#[trigger] t.layers[k]).surface == rest[k].surface
                    &&& t.layers[k].surface != surface
                    &&& t.layers[k].output == rest[k].output
                    &&& t.layers[k].layer == rest[k].layer
                    &&& t.layers[k].interactivity == rest[k].interactivity
                    &&& t.layers[k].geometry == place_in(
                        places,
                        rest[k].surface,
                        rest[k].geometry,
                    )
                }
        }),
{
    let surface = s.layers[i].surface;
    let keep = |l: LayerSurfaceView| l.surface != surface;
    lemma_mapped_layer(s, i);
    let rest = s.layers.filter(keep);
    broadcast use vstd::seq_lib::group_filter_ensures;
    let a = EwmView {
        unmapped_layer_surfaces: s.unmapped_layer_surfaces.remove(surface),
        layers: rest,
        layer_shell_on_demand_focus: if s.layer_shell_on_demand_focus == Some(surface) {
            None
        } else {
            s.layer_shell_on_demand_focus
        },
        keyboard_focus_dirty: true,
        ..s
    }.arranged(places);
    lemma_area_keeps(a, s.layers[i].output, zone);
    let t = s.layer_gone(surface, zone, places);
    assert forall|k: int| 0 <= k < rest.len() implies (#[trigger] t.layers[k]).surface
        != surface by {
        assert(keep(rest[k]));
    }
}

// ---------------------------------------------------------------------------
// Popups
// ---------------------------------------------------------------------------
/// A popup may take the room of all outputs: seen from where it hangs, the room
/// starts at the origin of the space and has the size of all outputs.
pub proof fn lemma_room_of_a_popup(
    output_size: crate::geometry::Size,
    window_loc: Point,
    window_corner: Point,
    popup_offset: Point,
)
    requires
        i32::MIN < window_loc.x + window_corner.x <= i32::MAX,
        i32::MIN < window_loc.y + window_corner.y <= i32::MAX,
        i32::MIN <= -(window_loc.x + window_corner.x) - popup_offset.x <= i32::MAX,
        i32::MIN <= -(window_loc.y + window_corner.y) - popup_offset.y <= i32::MAX,
    ensures
        ({
            let r = crate::layer_shell::popup_target(
                output_size,
                window_loc,
                window_corner,
                popup_offset,
            );
            &&& r.loc.x + popup_offset.x + window_corner.x + window_loc.x == 0
            &&& r.loc.y + popup_offset.y + window_corner.y + window_loc.y == 0
            &&& r.size == output_size
        }),
{
}

/// The free area of a mapped output is its own, and that of one that is not
/// mapped is the one that the display side has.
pub proof fn lemma_whose_area_counts(s: EwmView, output: OutputHandle, zone: Rectangle, i: int)
    ensures
        first_of_handle(s.space, i) && s.space.outputs[i].handle == output ==> s.free_area(
            output,
            zone,
        ) == s.space.outputs[i].zone,
        (forall|j: int|
            0 <= j < s.space.outputs.len() ==> (#[trigger] s.space.outputs[j]).handle != output)
            ==> s.free_area(output, zone) == zone,
{
    if first_of_handle(s.space, i) {
        lemma_output_of_a_handle(s.space, i);
    }
    let wanted = |o: OutputView| o.handle == output;
    crate::space::lemma_first_output(s.space.outputs, wanted);
    if forall|j: int|
        0 <= j < s.space.outputs.len() ==> (#[trigger] s.space.outputs[j]).handle != output {
        if let Some(o) = s.space.output(output) {
            let k = choose|k: int|
                0 <= k < s.space.outputs.len() && s.space.outputs[k] == o && wanted(o) && forall|
                    j: int,
                |
                    0 <= j < k ==> !wanted(#[trigger] s.space.outputs[j]);
            assert(s.space.outputs[k].handle != output);
        }
    }
}

} // verus!
