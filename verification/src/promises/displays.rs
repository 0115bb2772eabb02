//! Outputs as they come, are configured, and go.
use vstd::prelude::*;

use crate::action::ActionView;
use crate::backend::drm::{
    initialized, sessions_casting, surface_named, surface_on, unplugged, without_crtc,
    ConnectorView, DrmSurfaceView, DrmView, ScanEventView, Setup,
};
use crate::backend::headless::{counted, queued_names, VirtualOutputView};
use crate::event::{EventView, OutputInfoView};
use crate::ewm::{lemma_state_read_back, EwmView, OutputEntry};
use crate::geometry::{Rectangle, Size, Transform};
use crate::layers::LayerSurfaceView;
use crate::outputs::Measured;
use crate::pipewire::stream::CastView;
use crate::promises::areas::first_of_handle;
use crate::promises::commands::lemma_first_with_name;
use crate::promises::redraws::{asked_to_draw, same_but_redraw};
use crate::redraw::RedrawState;
use crate::output::{OutputState, VideoMode};
use crate::space::{OutputHandle, OutputView, Placed, SpaceView};

verus! {

// ---------------------------------------------------------------------------
// Configuration
// ---------------------------------------------------------------------------
/// Nothing happens without a stored configuration, or without an output of the
/// name.
pub proof fn lemma_nothing_to_configure(s: EwmView, name: Seq<char>, measured: Measured)
    requires
        !s.output_config.contains_key(name) || forall|i: int|
            0 <= i < s.space.outputs.len() ==> (#[trigger] s.space.outputs[i]).name != name,
    ensures
        s.apply_output_config(name, measured) == s,
{
    let named = |o: OutputView| o.name == name;
    crate::space::lemma_first_output(s.space.outputs, named);
    if s.output_config.contains_key(name) {
        if let Some(o) = s.space.output_named(name) {
            let k = choose|k: int|
                0 <= k < s.space.outputs.len() && s.space.outputs[k] == o && named(o) && forall|
                    j: int,
                |
                    0 <= j < k ==> !named(#[trigger] s.space.outputs[j]);
            assert(s.space.outputs[k].name != name);
        }
    }
}

/// Whether output `i` of a space is the first with this name, and no other has
/// its handle.
pub open spec fn only_of_name(space: SpaceView, name: Seq<char>, i: int) -> bool {
    &&& 0 <= i < space.outputs.len()
    &&& space.outputs[i].name == name
    &&& forall|j: int| 0 <= j < i ==> (#[trigger] space.outputs[j]).name != name
    &&& forall|j: int|
        0 <= j < space.outputs.len() && j != i ==> (#[trigger] space.outputs[j]).handle
            != space.outputs[i].handle
}

/// An output that is disabled is shown no more: it is off the space, the others
/// stay, the display side is told, and all are asked to draw.
pub proof fn lemma_disabled_output(s: EwmView, name: Seq<char>, measured: Measured, i: int)
    requires
        only_of_name(s.space, name, i),
        s.output_config.contains_key(name),
        !s.output_config[name].enabled,
    ensures
        ({
            let t = s.apply_output_config(name, measured);
            let output = s.space.outputs[i].handle;
            &&& forall|k: int|
                0 <= k < t.space.outputs.len() ==> (#[trigger] t.space.outputs[k]).handle != output
            &&& forall|k: int|
                0 <= k < s.space.outputs.len() && k != i ==> t.space.outputs.contains(
                    #[trigger] s.space.outputs[k],
                )
            &&& t.space.elements == s.space.elements
            &&& t.actions == s.actions.push(ActionView::UnmapOutput { output })
            &&& t.output_state.len() == s.output_state.len()
            &&& forall|k: int|
                0 <= k < s.output_state.len() ==> asked_to_draw(
                    s.output_state[k].state.redraw_state,
                    (#[trigger] t.output_state[k]).state.redraw_state,
                )
        }),
{
    lemma_first_with_name(s.space, name, i);
    let output = s.space.outputs[i].handle;
    lemma_unmapped(s.space, output);
    let t = s.apply_output_config(name, measured);
    assert forall|k: int| 0 <= k < s.space.outputs.len() && k != i implies t.space.outputs.contains(
        #[trigger] s.space.outputs[k],
    ) by {
        assert(s.space.outputs[k].handle != output);
    }
}

/// What a filter keeps was there before.
pub proof fn lemma_kept_was_there<A>(s: Seq<A>, keep: spec_fn(A) -> bool, k: int)
    requires
        0 <= k < s.filter(keep).len(),
    ensures
        s.contains(s.filter(keep)[k]),
    decreases s.len(),
{
    reveal(Seq::filter);
    if s.len() > 0 {
        let rest = s.drop_last();
        let before = rest.filter(keep);
        if k < before.len() {
            lemma_kept_was_there(rest, keep, k);
            let i = choose|i: int| 0 <= i < rest.len() && rest[i] == before[k];
            assert(s[i] == s.filter(keep)[k]);
        } else {
            assert(s[s.len() - 1] == s.filter(keep)[k]);
        }
    }
}

proof fn lemma_unmapped(space: SpaceView, output: OutputHandle)
    ensures
        ({
            let t = space.unmap_output(output);
            &&& forall|k: int|
                0 <= k < t.outputs.len() ==> (#[trigger] t.outputs[k]).handle != output
                    && space.outputs.contains(t.outputs[k])
            &&& forall|k: int|
                0 <= k < space.outputs.len() && (#[trigger] space.outputs[k]).handle != output
                    ==> t.outputs.contains(space.outputs[k])
            &&& t.elements == space.elements
        }),
{
    let keep = |o: OutputView| o.handle != output;
    broadcast use vstd::seq_lib::group_filter_ensures;
    let t = space.unmap_output(output);
    assert forall|k: int| 0 <= k < t.outputs.len() implies (#[trigger] t.outputs[k]).handle
        != output && space.outputs.contains(t.outputs[k]) by {
        assert(keep(space.outputs.filter(keep)[k]));
        lemma_kept_was_there(space.outputs, keep, k);
    }
    assert forall|k: int|
        0 <= k < space.outputs.len() && (#[trigger] space.outputs[k]).handle
            != output implies t.outputs.contains(space.outputs[k]) by {
        assert(keep(space.outputs[k]));
    }
}

proof fn lemma_refit_outputs(s: EwmView, todo: Seq<Placed>, o: OutputView)
    ensures
        ({
            let t = s.refit_frames(todo, o);
            &&& t == (EwmView { space: t.space, actions: t.actions, ..s })
            &&& t.space.outputs == s.space.outputs
            &&& s.actions.len() <= t.actions.len()
            &&& forall|k: int|
                0 <= k < s.actions.len() ==> #[trigger] t.actions[k] == s.actions[k]
        }),
    decreases todo.len(),
{
    if todo.len() > 0 {
        lemma_refit_outputs(s, todo.drop_last(), o);
    }
}

proof fn lemma_area_outputs(s: EwmView, output: OutputHandle, zone: Rectangle)
    ensures
        ({
            let t = s.check_working_area(output, zone);
            &&& s.space.output(output) is Some ==> t.space.outputs == s.space.with_zone(
                output,
                zone,
            ).outputs
            &&& t == (EwmView {
                space: t.space,
                working_areas: t.working_areas,
                module: t.module,
                actions: t.actions,
                output_state: t.output_state,
                ..s
            })
            &&& s.actions.len() <= t.actions.len()
            &&& forall|k: int|
                0 <= k < s.actions.len() ==> #[trigger] t.actions[k] == s.actions[k]
            &&& t.output_state == s.output_state || t.output_state == s.queue_redraw(
                output,
            ).output_state
        }),
{
    if let Some(o) = s.space.output(output) {
        let a = EwmView {
            space: s.space.with_zone(output, zone),
            working_areas: s.working_areas.insert(o.name, zone),
            module: crate::module::ModuleView {
                output_offsets: s.module.output_offsets.insert(
                    o.name,
                    o.loc.offset_spec(zone.loc),
                ),
                ..s.module
            },
            ..s
        };
        if let Some(p) = a.space.output(output) {
            lemma_refit_outputs(a, a.space.elements, p);
        }
    }
}

proof fn lemma_windows_told(s: EwmView, output: OutputHandle, elements: Seq<Placed>)
    ensures
        ({
            let t = s.scale_windows(output, elements);
            &&& t == (EwmView { actions: t.actions, ..s })
            &&& t.actions.len() == s.actions.len() + elements.len()
            &&& forall|k: int|
                0 <= k < s.actions.len() ==> #[trigger] t.actions[k] == s.actions[k]
            &&& forall|k: int|
                0 <= k < elements.len() ==> #[trigger] t.actions[s.actions.len() + k] == (
                ActionView::SendScale { surface: elements[k].window, output })
        }),
    decreases elements.len(),
{
    if elements.len() > 0 {
        let rest = elements.drop_last();
        lemma_windows_told(s, output, rest);
        let t = s.scale_windows(output, elements);
        assert forall|k: int| 0 <= k < elements.len() implies #[trigger] t.actions[s.actions.len()
            + k] == (ActionView::SendScale { surface: elements[k].window, output }) by {
            if k < rest.len() {
                assert(t.actions[s.actions.len() + k] == s.scale_windows(
                    output,
                    rest,
                ).actions[s.actions.len() + k]);
            }
        }
    }
}

/// Whether a list of actions from `n` on tells a surface the scale of an
/// output.
pub open spec fn is_told_scale(
    actions: Seq<ActionView>,
    n: int,
    surface: u64,
    output: OutputHandle,
) -> bool {
    exists|k: int|
        n <= k < actions.len() && #[trigger] actions[k] == (ActionView::SendScale {
            surface,
            output,
        })
}

proof fn lemma_layers_told(s: EwmView, output: OutputHandle, layers: Seq<LayerSurfaceView>)
    ensures
        ({
            let t = s.scale_layers(output, layers);
            &&& t == (EwmView { actions: t.actions, ..s })
            &&& t.actions.len() >= s.actions.len()
            &&& forall|k: int|
                0 <= k < s.actions.len() ==> #[trigger] t.actions[k] == s.actions[k]
            &&& forall|i: int|
                0 <= i < layers.len() && (#[trigger] layers[i]).output == output ==> is_told_scale(
                    t.actions,
                    s.actions.len() as int,
                    layers[i].surface,
                    output,
                )
        }),
    decreases layers.len(),
{
    if layers.len() > 0 {
        let rest = layers.drop_last();
        lemma_layers_told(s, output, rest);
        let before = s.scale_layers(output, rest);
        let t = s.scale_layers(output, layers);
        let n = s.actions.len() as int;
        assert forall|i: int|
            0 <= i < layers.len() && (#[trigger] layers[i]).output == output implies is_told_scale(
            t.actions,
            n,
            layers[i].surface,
            output,
        ) by {
            if i < rest.len() {
                assert(rest[i] == layers[i]);
                let k = choose|k: int|
                    n <= k < before.actions.len() && #[trigger] before.actions[k] == (
                    ActionView::SendScale { surface: rest[i].surface, output });
                assert(t.actions[k] == before.actions[k]);
            } else {
                assert(t.actions[t.actions.len() - 1] == (ActionView::SendScale {
                    surface: layers[i].surface,
                    output,
                }));
            }
        }
    }
}

proof fn lemma_twice_asked(a: RedrawState, b: RedrawState, c: RedrawState)
    requires
        a == b || asked_to_draw(a, b),
        asked_to_draw(b, c),
    ensures
        asked_to_draw(a, c),
{
}

/// A configuration applied, up to the place of the output.
spec fn config_placed(s: EwmView, name: Seq<char>, measured: Measured, o: OutputView) -> EwmView {
    let config = s.output_config[name];
    let a = EwmView {
        space: s.space.change_output(
            o.handle,
            |p: OutputView| crate::outputs::configured(p, config, measured.size),
        ),
        outputs: crate::outputs::infos_moved(s.outputs, name, config.position),
        ..s
    };
    match config.position {
        Some((x, y)) => a.act(ActionView::MapOutput { output: o.handle, x, y }),
        None => a,
    }
}

/// A configuration applied, up to what surfaces are told.
spec fn config_told(s: EwmView, name: Seq<char>, measured: Measured, o: OutputView) -> EwmView {
    let config = s.output_config[name];
    let b = config_placed(s, name, measured, o);
    if config.scale is Some || config.transform is Some {
        b.send_scales(o.handle)
    } else {
        b
    }
}

proof fn lemma_config_steps(s: EwmView, name: Seq<char>, measured: Measured, i: int)
    requires
        only_of_name(s.space, name, i),
        s.output_config.contains_key(name),
        s.output_config[name].enabled,
    ensures
        ({
            let o = s.space.outputs[i];
            let b = config_placed(s, name, measured, o);
            let u = config_told(s, name, measured, o);
            let v = u.recalculate_output_size().arranged(measured.places@);
            let w = v.check_working_area(o.handle, measured.zone);
            &&& s.apply_output_config(name, measured) == w.queue_redraw_all()
            &&& u == (EwmView { actions: u.actions, ..b })
            &&& u.actions.len() >= b.actions.len()
            &&& forall|k: int|
                0 <= k < b.actions.len() ==> #[trigger] u.actions[k] == b.actions[k]
            &&& w.space.outputs == b.space.with_zone(o.handle, measured.zone).outputs
            &&& w == (EwmView {
                space: w.space,
                working_areas: w.working_areas,
                module: w.module,
                actions: w.actions,
                output_state: w.output_state,
                ..v
            })
            &&& u.actions.len() <= w.actions.len()
            &&& forall|k: int|
                0 <= k < u.actions.len() ==> #[trigger] w.actions[k] == u.actions[k]
            &&& w.output_state == s.output_state || w.output_state == s.queue_redraw(
                o.handle,
            ).output_state
        }),
{
    lemma_first_with_name(s.space, name, i);
    let o = s.space.outputs[i];
    let b = config_placed(s, name, measured, o);
    lemma_windows_told(b, o.handle, b.space.elements);
    let c = b.scale_windows(o.handle, b.space.elements);
    lemma_layers_told(c, o.handle, b.layers);
    let u = config_told(s, name, measured, o);
    assert forall|k: int| 0 <= k < b.actions.len() implies #[trigger] u.actions[k]
        == b.actions[k] by {
        assert(c.actions[k] == b.actions[k]);
    }
    let v = u.recalculate_output_size().arranged(measured.places@);
    lemma_area_outputs(v, o.handle, measured.zone);
    assert(v.space.outputs[i].handle == o.handle);
    let here = |p: OutputView| p.handle == o.handle;
    crate::space::lemma_first_output(v.space.outputs, here);
    if v.space.output(o.handle) is None {
        assert(!here(v.space.outputs[i]));
    }
}

/// An output that is configured has the scale, the transform and the place that
/// its configuration names, and keeps those that it does not name. Its logical
/// size and free area are the measured ones. No other output changes.
pub proof fn lemma_configured_output(s: EwmView, name: Seq<char>, measured: Measured, i: int)
    requires
        only_of_name(s.space, name, i),
        s.output_config.contains_key(name),
        s.output_config[name].enabled,
    ensures
        ({
            let t = s.apply_output_config(name, measured);
            let config = s.output_config[name];
            let before = s.space.outputs[i];
            let after = t.space.outputs[i];
            &&& t.space.outputs.len() == s.space.outputs.len()
            &&& after.handle == before.handle && after.name == before.name && after.mode
                == before.mode
            &&& config.scale is Some ==> after.scale == config.scale->0
            &&& config.scale is None ==> after.scale == before.scale
            &&& config.transform is Some ==> after.transform == config.transform->0
            &&& config.transform is None ==> after.transform == before.transform
            &&& match config.position {
                Some((x, y)) => after.loc.x == x && after.loc.y == y,
                None => after.loc == before.loc,
            }
            &&& after.size == measured.size
            &&& after.zone == measured.zone
            &&& forall|k: int|
                0 <= k < s.space.outputs.len() && k != i ==> #[trigger] t.space.outputs[k]
                    == s.space.outputs[k]
            &&& t.output_config == s.output_config
            &&& t.focused_surface_id == s.focused_surface_id
        }),
{
    lemma_config_steps(s, name, measured, i);
    let o = s.space.outputs[i];
    let t = s.apply_output_config(name, measured);
    assert forall|k: int| 0 <= k < s.space.outputs.len() && k != i implies
        #[trigger] t.space.outputs[k] == s.space.outputs[k] by {
        assert(s.space.outputs[k].handle != o.handle);
    }
}

/// The display side learns of the place of an output that is configured, and
/// every window and every layer surface of the output learns of a new scale or
/// transform.
pub proof fn lemma_configuration_is_told(s: EwmView, name: Seq<char>, measured: Measured, i: int)
    requires
        only_of_name(s.space, name, i),
        s.output_config.contains_key(name),
        s.output_config[name].enabled,
    ensures
        ({
            let t = s.apply_output_config(name, measured);
            let config = s.output_config[name];
            let output = s.space.outputs[i].handle;
            let n = s.actions.len() as int;
            &&& match config.position {
                Some((x, y)) => t.actions.len() > n && t.actions[n] == (ActionView::MapOutput {
                    output,
                    x,
                    y,
                }),
                None => true,
            }
            &&& config.scale is Some || config.transform is Some ==> {
                &&& forall|k: int|
                    0 <= k < s.space.elements.len() ==> is_told_scale(
                        t.actions,
                        n,
                        (#[trigger] s.space.elements[k]).window,
                        output,
                    )
                &&& forall|k: int|
                    0 <= k < s.layers.len() && (#[trigger] s.layers[k]).output == output
                        ==> is_told_scale(t.actions, n, s.layers[k].surface, output)
            }
        }),
{
    lemma_config_steps(s, name, measured, i);
    let config = s.output_config[name];
    let o = s.space.outputs[i];
    let n = s.actions.len() as int;
    let b = config_placed(s, name, measured, o);
    let u = config_told(s, name, measured, o);
    lemma_windows_told(b, o.handle, b.space.elements);
    let c = b.scale_windows(o.handle, b.space.elements);
    lemma_layers_told(c, o.handle, b.layers);
    let t = s.apply_output_config(name, measured);
    if config.scale is Some || config.transform is Some {
        assert forall|k: int| 0 <= k < s.space.elements.len() implies is_told_scale(
            t.actions,
            n,
            (#[trigger] s.space.elements[k]).window,
            o.handle,
        ) by {
            let at = b.actions.len() + k;
            assert(c.actions[at] == (ActionView::SendScale {
                surface: s.space.elements[k].window,
                output: o.handle,
            }));
            assert(u.actions[at] == c.actions[at]);
            assert(t.actions[at] == u.actions[at]);
        }
        assert forall|k: int|
            0 <= k < s.layers.len() && (#[trigger] s.layers[k]).output
                == o.handle implies is_told_scale(
            t.actions,
            n,
            s.layers[k].surface,
            o.handle,
        ) by {
            assert(b.layers[k] == s.layers[k]);
            let at = choose|at: int|
                c.actions.len() <= at < u.actions.len() && #[trigger] u.actions[at] == (
                ActionView::SendScale { surface: s.layers[k].surface, output: o.handle });
            assert(t.actions[at] == u.actions[at]);
        }
    }
    if config.position is Some {
        assert(u.actions[n] == b.actions[n]);
        assert(t.actions[n] == u.actions[n]);
    }
}

/// What Emacs would be told of an output moves with it, and of no other.
pub proof fn lemma_description_moves(
    s: EwmView,
    name: Seq<char>,
    measured: Measured,
    i: int,
    k: int,
)
    requires
        only_of_name(s.space, name, i),
        s.output_config.contains_key(name),
        s.output_config[name].enabled,
        0 <= k < s.outputs.len(),
    ensures
        ({
            let t = s.apply_output_config(name, measured);
            let told = t.outputs[k];
            &&& t.outputs.len() == s.outputs.len()
            &&& match s.output_config[name].position {
                Some((x, y)) => if s.outputs[k].name == name {
                    told.x == x && told.y == y && told.name == name && told.modes
                        == s.outputs[k].modes
                } else {
                    told == s.outputs[k]
                },
                None => told == s.outputs[k],
            }
        }),
{
    lemma_config_steps(s, name, measured, i);
}

/// All outputs are asked to draw after one was configured.
pub proof fn lemma_configuration_is_drawn(
    s: EwmView,
    name: Seq<char>,
    measured: Measured,
    i: int,
    k: int,
)
    requires
        only_of_name(s.space, name, i),
        s.output_config.contains_key(name),
        s.output_config[name].enabled,
        0 <= k < s.output_state.len(),
    ensures
        ({
            let t = s.apply_output_config(name, measured);
            &&& t.output_state.len() == s.output_state.len()
            &&& t.output_state[k].output == s.output_state[k].output
            &&& asked_to_draw(
                s.output_state[k].state.redraw_state,
                t.output_state[k].state.redraw_state,
            )
        }),
{
    lemma_config_steps(s, name, measured, i);
    let o = s.space.outputs[i];
    let u = config_told(s, name, measured, o);
    let v = u.recalculate_output_size().arranged(measured.places@);
    let w = v.check_working_area(o.handle, measured.zone);
    lemma_twice_asked(
        s.output_state[k].state.redraw_state,
        w.output_state[k].state.redraw_state,
        w.queue_redraw_all().output_state[k].state.redraw_state,
    );
}

// ---------------------------------------------------------------------------
// Virtual outputs
// ---------------------------------------------------------------------------
/// A virtual output is mapped last, under its name and with its mode, where its
/// configuration puts it or else right of all others, with the scale and the
/// transform of its configuration or none. Its first frame is queued, its free
/// area is the whole of it, and the display side is told where it is.
pub proof fn lemma_new_virtual_output(
    s: EwmView,
    name: Seq<char>,
    mode: Size,
    handle: OutputHandle,
    scaled: Size,
)
    ensures
        ({
            let t = s.add_virtual(name, mode, handle, scaled);
            let o = t.space.outputs.last();
            let stored = s.output_config.contains_key(name);
            let config = s.output_config[name];
            let quarter = o.transform == Transform::Rotated90 || o.transform
                == Transform::Rotated270 || o.transform == Transform::Flipped90 || o.transform
                == Transform::Flipped270;
            &&& t.space.outputs.len() == s.space.outputs.len() + 1
            &&& t.space.outputs.drop_last() == s.space.outputs
            &&& t.space.elements == s.space.elements
            &&& o.handle == handle && o.name == name && o.mode == mode
            &&& stored && config.position is Some ==> match config.position {
                Some((x, y)) => o.loc.x == x && o.loc.y == y,
                None => false,
            }
            &&& !stored || config.position is None ==> o.loc.x == s.output_size.w && o.loc.y == 0
            &&& stored && config.transform is Some ==> o.transform == config.transform->0
            &&& !stored || config.transform is None ==> o.transform == Transform::Normal
            &&& stored && config.scale is Some ==> o.scale == config.scale->0 && o.size == scaled
            &&& !stored || config.scale is None ==> o.scale == 0x3ff0_0000_0000_0000 && o.size == (
            if quarter {
                Size { w: mode.h, h: mode.w }
            } else {
                mode
            })
            &&& o.zone.loc.x == 0 && o.zone.loc.y == 0 && o.zone.size == o.size
            &&& t.output_state.len() == s.output_state.len() + 1
            &&& t.output_state.drop_last() == s.output_state
            &&& t.output_state.last().output == handle
            &&& t.output_state.last().state.redraw_state is Queued
            &&& t.output_state.last().state.refresh_interval_us == 16_667
            &&& t.working_areas.contains_key(name)
            &&& t.working_areas[name].loc.x == 0 && t.working_areas[name].loc.y == 0
            &&& t.working_areas[name].size == mode
            &&& t.actions == s.actions.push(
                ActionView::MapOutput { output: handle, x: o.loc.x, y: o.loc.y },
            )
            &&& t.module == s.module
        }),
{
    let t = s.add_virtual(name, mode, handle, scaled);
    assert(t.space.outputs.drop_last() =~= s.space.outputs);
    assert(t.output_state.drop_last() =~= s.output_state);
}

/// A virtual output that is removed is off the space and has no state; the
/// others stay, and the display side is told last.
pub proof fn lemma_removed_virtual_output(s: EwmView, output: OutputHandle)
    ensures
        ({
            let t = s.remove_virtual(output);
            &&& forall|k: int|
                0 <= k < t.space.outputs.len() ==> (#[trigger] t.space.outputs[k]).handle != output
                    && s.space.outputs.contains(t.space.outputs[k])
            &&& forall|k: int|
                0 <= k < s.space.outputs.len() && (#[trigger] s.space.outputs[k]).handle != output
                    ==> t.space.outputs.contains(s.space.outputs[k])
            &&& forall|k: int|
                0 <= k < t.output_state.len() ==> (#[trigger] t.output_state[k]).output != output
            &&& forall|k: int|
                0 <= k < s.output_state.len() && (#[trigger] s.output_state[k]).output != output
                    ==> t.output_state.contains(s.output_state[k])
            &&& t.actions.last() == (ActionView::UnmapOutput { output })
            &&& t.module == s.module
        }),
{
    lemma_unmapped(s.space, output);
    lemma_dropped_state(s, output);
}

proof fn lemma_dropped_state(s: EwmView, output: OutputHandle)
    ensures
        ({
            let t = s.drop_state(output);
            &&& forall|k: int|
                0 <= k < t.output_state.len() ==> (#[trigger] t.output_state[k]).output != output
            &&& forall|k: int|
                0 <= k < s.output_state.len() && (#[trigger] s.output_state[k]).output != output
                    ==> t.output_state.contains(s.output_state[k])
        }),
{
    let keep = |e: OutputEntry| e.output != output;
    broadcast use vstd::seq_lib::group_filter_ensures;
    let t = s.drop_state(output);
    assert forall|k: int| 0 <= k < t.output_state.len() implies (
    #[trigger] t.output_state[k]).output != output by {
        assert(keep(s.output_state.filter(keep)[k]));
    }
    assert forall|k: int|
        0 <= k < s.output_state.len() && (#[trigger] s.output_state[k]).output
            != output implies t.output_state.contains(s.output_state[k]) by {
        assert(keep(s.output_state[k]));
    }
}

/// A frame counts for the virtual outputs of its name, once, and for no other.
pub proof fn lemma_frame_is_counted(v: Seq<VirtualOutputView>, name: Seq<char>, i: int)
    requires
        0 <= i < v.len(),
        v[i].render_count < usize::MAX,
    ensures
        counted(v, name).len() == v.len(),
        counted(v, name)[i].name == v[i].name,
        counted(v, name)[i].output == v[i].output,
        counted(v, name)[i].render_count == v[i].render_count + (if v[i].name == name {
            1int
        } else {
            0int
        }),
{
}

/// A virtual output that is drawn waits for nothing any more, and its clients are
/// told that a frame has passed; no other output changes.
pub proof fn lemma_virtual_output_is_drawn(s: EwmView, output: OutputHandle, other: OutputHandle)
    ensures
        ({
            let t = s.virtual_frame(output);
            &&& t.actions == s.actions.push(ActionView::SendFrames { output })
            &&& t.state_of(output) is Some == s.state_of(output) is Some
            &&& s.state_of(output) is Some ==> {
                let before = s.state_of(output)->0;
                let after = t.state_of(output)->0;
                after.redraw_state is Idle && same_but_redraw(before, after)
            }
            &&& other != output ==> t.state_of(other) == s.state_of(other)
            &&& t == (EwmView { output_state: t.output_state, actions: t.actions, ..s })
        }),
{
    if let Some(state) = s.state_of(output) {
        lemma_state_read_back(
            s,
            output,
            OutputState { redraw_state: RedrawState::Idle, ..state },
            other,
        );
    }
}

proof fn lemma_queued_one(v: Seq<VirtualOutputView>, s: EwmView, name: Seq<char>)
    ensures
        queued_names(v, s).contains(name) <==> s.is_queued(name) && exists|i: int|
            0 <= i < v.len() && (#[trigger] v[i]).name == name,
    decreases v.len(),
{
    if v.len() > 0 {
        let rest = v.drop_last();
        lemma_queued_one(rest, s, name);
        let before = queued_names(rest, s);
        let all = queued_names(v, s);
        if all.contains(name) {
            let k = choose|k: int| 0 <= k < all.len() && all[k] == name;
            if k < before.len() {
                assert(before[k] == name);
                let i = choose|i: int| 0 <= i < rest.len() && (#[trigger] rest[i]).name == name;
                assert(v[i] == rest[i]);
            } else {
                assert(v[v.len() - 1].name == name);
            }
        }
        if s.is_queued(name) && exists|i: int| 0 <= i < v.len() && (#[trigger] v[i]).name == name {
            let i = choose|i: int| 0 <= i < v.len() && (#[trigger] v[i]).name == name;
            if i < rest.len() {
                assert(rest[i] == v[i]);
                let k = choose|k: int| 0 <= k < before.len() && before[k] == name;
                assert(all[k] == name);
            } else {
                assert(all[all.len() - 1] == name);
            }
        }
    }
}

/// The virtual outputs that are drawn are those whose redraw is queued.
pub proof fn lemma_which_virtual_outputs_are_drawn(
    v: Seq<VirtualOutputView>,
    s: EwmView,
    i: int,
    k: int,
)
    requires
        0 <= i < v.len(),
        only_of_name(s.space, v[i].name, k),
    ensures
        queued_names(v, s).contains(v[i].name) <==> {
            let state = s.state_of(s.space.outputs[k].handle);
            state is Some && state->0.redraw_state is Queued
        },
{
    lemma_queued_one(v, s, v[i].name);
    lemma_first_with_name(s.space, v[i].name, k);
    assert(v[i].name == v[i].name);
}

// ---------------------------------------------------------------------------
// Hardware
// ---------------------------------------------------------------------------
/// Whether Emacs is told truly of a connector with its output at `x`.
pub open spec fn describes(info: OutputInfoView, c: ConnectorView, x: i32) -> bool {
    &&& info.name == c.name
    &&& info.x == x && info.y == 0
    &&& match c.physical {
        Some((w, h)) => (w <= i32::MAX ==> info.width_mm == w) && (h <= i32::MAX
            ==> info.height_mm == h),
        None => info.width_mm == 0 && info.height_mm == 0,
    }
    &&& info.modes.len() == c.modes.len()
    &&& forall|k: int|
        0 <= k < c.modes.len() ==> {
            let told = #[trigger] info.modes[k];
            &&& told.width == c.modes[k].width
            &&& told.height == c.modes[k].height
            &&& told.preferred == c.modes[k].preferred
            &&& c.modes[k].vrefresh * 1000 <= i32::MAX ==> told.refresh == c.modes[k].vrefresh
                * 1000
        }
}

/// A connector that is taken into use shows an output right of all others, of
/// the size of its mode and with all of it free; its first frame is queued;
/// Emacs and the screen cast service are told of it; and what is configured for
/// its name is to be applied.
pub proof fn lemma_connected_output(
    s: EwmView,
    c: ConnectorView,
    mode: VideoMode,
    handle: OutputHandle,
)
    ensures
        ({
            let t = s.connected(c, mode, handle);
            let o = t.space.outputs.last();
            let x = s.output_size.w;
            let map = s.actions.push(ActionView::MapOutput { output: handle, x, y: 0 });
            &&& t.space.outputs.len() == s.space.outputs.len() + 1
            &&& t.space.outputs.drop_last() == s.space.outputs
            &&& o.handle == handle && o.name == c.name
            &&& o.loc.x == x && o.loc.y == 0
            &&& o.mode.w == mode.width && o.mode.h == mode.height
            &&& o.size == o.mode
            &&& o.transform == Transform::Normal
            &&& o.scale == 0x3ff0_0000_0000_0000
            &&& o.zone.loc.x == 0 && o.zone.loc.y == 0 && o.zone.size == o.size
            &&& t.output_state.len() == s.output_state.len() + 1
            &&& t.output_state.drop_last() == s.output_state
            &&& t.output_state.last().output == handle
            &&& t.output_state.last().state.redraw_state is Queued
            &&& t.output_state.last().state.refresh_interval_us == (if mode.vrefresh == 0 {
                16_667
            } else {
                1_000_000u64 / (mode.vrefresh as u64)
            })
            &&& t.module.events.drop_last() == s.module.events
            &&& t.module.events.len() == s.module.events.len() + 1
            &&& t.module.events.last() matches EventView::OutputDetected(info) && describes(
                info,
                c,
                x,
            )
            &&& t.outputs.drop_last() == s.outputs
            &&& describes(t.outputs.last(), c, x)
            &&& t.dbus_outputs.drop_last() == s.dbus_outputs
            &&& t.dbus_outputs.last().name == c.name
            &&& t.dbus_outputs.last().x == x && t.dbus_outputs.last().y == 0
            &&& t.dbus_outputs.last().width == mode.width
            &&& t.dbus_outputs.last().height == mode.height
            &&& t.dbus_outputs.last().refresh == mode.vrefresh
            &&& t.actions == (if s.output_config.contains_key(c.name) {
                map.push(ActionView::ApplyOutputConfig { name: c.name })
            } else {
                map
            })
            &&& t.module.output_offsets.contains_key(c.name)
            &&& t.module.output_offsets[c.name].x == x && t.module.output_offsets[c.name].y == 0
        }),
{
    let t = s.connected(c, mode, handle);
    assert(t.space.outputs.drop_last() =~= s.space.outputs);
    assert(t.output_state.drop_last() =~= s.output_state);
    assert(t.module.events.drop_last() =~= s.module.events);
    assert(t.outputs.drop_last() =~= s.outputs);
    assert(t.dbus_outputs.drop_last() =~= s.dbus_outputs);
}

proof fn lemma_sessions(casts: Seq<(usize, CastView)>, name: Seq<char>)
    ensures
        forall|i: int|
            0 <= i < casts.len() && (#[trigger] casts[i]).1.output_name == name
                ==> sessions_casting(casts, name).contains(casts[i].0),
        forall|id: usize| #[trigger]
            sessions_casting(casts, name).contains(id) ==> exists|i: int|
                0 <= i < casts.len() && (#[trigger] casts[i]).0 == id && casts[i].1.output_name
                    == name,
    decreases casts.len(),
{
    if casts.len() > 0 {
        let rest = casts.drop_last();
        lemma_sessions(rest, name);
        let before = sessions_casting(rest, name);
        let all = sessions_casting(casts, name);
        assert forall|i: int|
            0 <= i < casts.len() && (#[trigger] casts[i]).1.output_name
                == name implies all.contains(casts[i].0) by {
            if i < rest.len() {
                assert(rest[i] == casts[i]);
                let k = choose|k: int| 0 <= k < before.len() && before[k] == casts[i].0;
                assert(all[k] == casts[i].0);
            } else {
                assert(all[all.len() - 1] == casts[i].0);
            }
        }
        assert forall|id: usize| #[trigger] all.contains(id) implies exists|i: int|
            0 <= i < casts.len() && (#[trigger] casts[i]).0 == id && casts[i].1.output_name
                == name by {
            let k = choose|k: int| 0 <= k < all.len() && all[k] == id;
            if k < before.len() {
                assert(before[k] == id);
                assert(before.contains(id));
                let i = choose|i: int|
                    0 <= i < rest.len() && (#[trigger] rest[i]).0 == id && rest[i].1.output_name
                        == name;
                assert(casts[i] == rest[i]);
            } else {
                assert(casts[casts.len() - 1].0 == id);
            }
        }
    }
}

proof fn lemma_stopped(s: EwmView, ids: Seq<usize>)
    ensures
        ({
            let t = s.stop_casts(ids);
            &&& t == (EwmView { screen_casts: t.screen_casts, actions: t.actions, ..s })
            &&& forall|k: int|
                0 <= k < t.screen_casts.len() ==> !ids.contains((#[trigger] t.screen_casts[k]).0)
                    && s.screen_casts.contains(t.screen_casts[k])
            &&& forall|i: int|
                0 <= i < s.screen_casts.len() && !ids.contains((#[trigger] s.screen_casts[i]).0)
                    ==> t.screen_casts.contains(s.screen_casts[i])
        }),
    decreases ids.len(),
{
    if ids.len() > 0 {
        let rest = ids.drop_last();
        let id = ids.last();
        lemma_stopped(s, rest);
        let before = s.stop_casts(rest);
        let t = s.stop_casts(ids);
        crate::promises::protocols::lemma_stopped_cast(before, id);
        let keep = crate::protocols::other_session(id);
        broadcast use vstd::seq_lib::group_filter_ensures;
        assert forall|k: int| 0 <= k < t.screen_casts.len() implies !ids.contains(
            (#[trigger] t.screen_casts[k]).0,
        ) && s.screen_casts.contains(t.screen_casts[k]) by {
            let c = t.screen_casts[k];
            if before.has_cast(id) {
                lemma_kept_was_there(before.screen_casts, keep, k);
            } else {
                assert(before.screen_casts[k] == c);
            }
            let m = choose|m: int| 0 <= m < before.screen_casts.len() && before.screen_casts[m] == c;
            assert(!rest.contains(before.screen_casts[m].0));
            if ids.contains(c.0) {
                let j = choose|j: int| 0 <= j < ids.len() && ids[j] == c.0;
                if j < rest.len() {
                    assert(rest[j] == c.0);
                }
            }
        }
        assert forall|i: int|
            0 <= i < s.screen_casts.len() && !ids.contains(
                (#[trigger] s.screen_casts[i]).0,
            ) implies t.screen_casts.contains(s.screen_casts[i]) by {
            let c = s.screen_casts[i];
            if rest.contains(c.0) {
                let j = choose|j: int| 0 <= j < rest.len() && rest[j] == c.0;
                assert(ids[j] == c.0);
            }
            assert(ids[ids.len() - 1] == id);
            assert(before.screen_casts.contains(c));
            let m = choose|m: int| 0 <= m < before.screen_casts.len() && before.screen_casts[m] == c;
            assert(before.screen_casts[m].0 != id);
        }
    }
}

/// Of an output that is unplugged nothing is left: it is off the space, has no
/// state, is described to nobody, and no screen cast shows it. Casts of sessions
/// that do not show it go on. Emacs is told last that it is gone.
pub proof fn lemma_unplugged_output(s: EwmView, d: DrmSurfaceView, loop_handle: bool)
    ensures
        ({
            let t = s.disconnected(d, loop_handle);
            &&& forall|k: int|
                0 <= k < t.space.outputs.len() ==> (#[trigger] t.space.outputs[k]).handle
                    != d.output && s.space.outputs.contains(t.space.outputs[k])
            &&& forall|k: int|
                0 <= k < s.space.outputs.len() && (#[trigger] s.space.outputs[k]).handle
                    != d.output ==> t.space.outputs.contains(s.space.outputs[k])
            &&& forall|k: int|
                0 <= k < t.output_state.len() ==> (#[trigger] t.output_state[k]).output != d.output
            &&& forall|k: int|
                0 <= k < s.output_state.len() && (#[trigger] s.output_state[k]).output != d.output
                    ==> t.output_state.contains(s.output_state[k])
            &&& t.module.events == s.module.events.push(
                EventView::OutputDisconnected { name: d.name },
            )
            &&& !t.module.output_offsets.contains_key(d.name)
            &&& forall|k: int|
                0 <= k < t.screen_casts.len() ==> (#[trigger] t.screen_casts[k]).1.output_name
                    != d.name
            &&& forall|i: int|
                0 <= i < s.screen_casts.len() && (forall|j: int|
                    0 <= j < s.screen_casts.len() && (#[trigger] s.screen_casts[j]).0
                        == s.screen_casts[i].0 ==> s.screen_casts[j].1.output_name != d.name)
                    ==> t.screen_casts.contains(#[trigger] s.screen_casts[i])
            &&& forall|k: int|
                0 <= k < t.dbus_outputs.len() ==> (#[trigger] t.dbus_outputs[k]).name != d.name
        }),
{
    let a = s.cancel_timer(d.output, loop_handle).drop_state(d.output).lock_complete();
    let ids = sessions_casting(a.screen_casts, d.name);
    lemma_sessions(a.screen_casts, d.name);
    lemma_stopped(a, ids);
    let b = a.stop_casts(ids);
    lemma_unmapped(s.space, d.output);
    lemma_dropped_state(s, d.output);
    let keep = |i: crate::dbus::OutputInfoView| i.name != d.name;
    broadcast use vstd::seq_lib::group_filter_ensures;
    let t = s.disconnected(d, loop_handle);
    assert(a.screen_casts == s.screen_casts);
    assert(a.space == s.space);
    assert(a.output_state == s.drop_state(d.output).output_state);
    assert forall|k: int| 0 <= k < t.screen_casts.len() implies (
    #[trigger] t.screen_casts[k]).1.output_name != d.name by {
        let c = t.screen_casts[k];
        assert(a.screen_casts.contains(c));
        let m = choose|m: int| 0 <= m < a.screen_casts.len() && a.screen_casts[m] == c;
        assert(!ids.contains(t.screen_casts[k].0));
        assert(a.screen_casts[m].1.output_name != d.name);
    }
    assert forall|i: int|
        0 <= i < s.screen_casts.len() && (forall|j: int|
            0 <= j < s.screen_casts.len() && (#[trigger] s.screen_casts[j]).0
                == s.screen_casts[i].0 ==> s.screen_casts[j].1.output_name
                != d.name) implies t.screen_casts.contains(#[trigger] s.screen_casts[i]) by {
        if ids.contains(s.screen_casts[i].0) {
            let j = choose|j: int|
                0 <= j < a.screen_casts.len() && (#[trigger] a.screen_casts[j]).0
                    == s.screen_casts[i].0 && a.screen_casts[j].1.output_name == d.name;
            assert(s.screen_casts[j].1.output_name == d.name);
        }
    }
    assert forall|k: int| 0 <= k < t.dbus_outputs.len() implies (
    #[trigger] t.dbus_outputs[k]).name != d.name by {
        assert(keep(b.dbus_outputs.filter(keep)[k]));
    }
}

/// The timer of an output that is paused or unplugged is cancelled.
pub proof fn lemma_timer_is_cancelled(s: EwmView, output: OutputHandle, loop_handle: bool)
    ensures
        ({
            let t = s.cancel_timer(output, loop_handle);
            match s.state_of(output) {
                Some(state) => match state.redraw_state {
                    RedrawState::WaitingForEstimatedVBlank(timer)
                    | RedrawState::WaitingForEstimatedVBlankAndQueued(timer) => loop_handle
                        ==> t.actions == s.actions.push(ActionView::CancelTimer { timer }),
                    _ => t == s,
                },
                None => t == s,
            }
        }),
{
}

/// While the session is paused every output of the hardware waits for nothing;
/// other outputs stay as they are.
pub proof fn lemma_paused_outputs(
    s: EwmView,
    v: Seq<DrmSurfaceView>,
    loop_handle: bool,
    output: OutputHandle,
)
    ensures
        ({
            let t = s.pause_outputs(v, loop_handle);
            let listed = exists|i: int| 0 <= i < v.len() && (#[trigger] v[i]).output == output;
            &&& t.state_of(output) is Some == s.state_of(output) is Some
            &&& listed && s.state_of(output) is Some ==> t.state_of(output)->0.redraw_state is Idle
            &&& !listed ==> t.state_of(output) == s.state_of(output)
        }),
    decreases v.len(),
{
    if v.len() > 0 {
        let rest = v.drop_last();
        lemma_paused_outputs(s, rest, loop_handle, output);
        let before = s.pause_outputs(rest, loop_handle);
        let last = v.last().output;
        assert(v[v.len() - 1].output == last);
        if let Some(state) = before.state_of(last) {
            lemma_state_read_back(
                before.cancel_timer(last, loop_handle),
                last,
                OutputState { redraw_state: RedrawState::Idle, ..state },
                output,
            );
        }
        let listed = exists|i: int| 0 <= i < v.len() && (#[trigger] v[i]).output == output;
        if listed {
            let i = choose|i: int| 0 <= i < v.len() && (#[trigger] v[i]).output == output;
            if i < rest.len() {
                assert(rest[i] == v[i]);
            }
        }
        if exists|i: int| 0 <= i < rest.len() && (#[trigger] rest[i]).output == output {
            let i = choose|i: int| 0 <= i < rest.len() && (#[trigger] rest[i]).output == output;
            assert(v[i] == rest[i]);
        }
    }
}

/// Every queued output is drawn in a turn, and no other.
pub proof fn lemma_queued_outputs_are_drawn(s: EwmView, v: Seq<DrmSurfaceView>)
    ensures
        ({
            let t = s.render_queued(v);
            let n = s.actions.len() as int;
            &&& t == (EwmView { actions: t.actions, ..s })
            &&& t.actions.len() >= n
            &&& forall|k: int| 0 <= k < n ==> #[trigger] t.actions[k] == s.actions[k]
            &&& forall|i: int|
                0 <= i < v.len() && s.state_of((#[trigger] v[i]).output) is Some && s.state_of(
                    v[i].output,
                )->0.redraw_state is Queued ==> exists|k: int|
                    n <= k < t.actions.len() && #[trigger] t.actions[k] == (ActionView::Render {
                        output: v[i].output,
                    })
            &&& forall|k: int|
                n <= k < t.actions.len() ==> match #[trigger] t.actions[k] {
                    ActionView::Render { output } => s.state_of(output) is Some && s.state_of(
                        output,
                    )->0.redraw_state is Queued,
                    _ => false,
                }
        }),
    decreases v.len(),
{
    if v.len() > 0 {
        let rest = v.drop_last();
        lemma_queued_outputs_are_drawn(s, rest);
        let before = s.render_queued(rest);
        let t = s.render_queued(v);
        let n = s.actions.len() as int;
        assert forall|i: int|
            0 <= i < v.len() && s.state_of((#[trigger] v[i]).output) is Some && s.state_of(
                v[i].output,
            )->0.redraw_state is Queued implies exists|k: int|
            n <= k < t.actions.len() && #[trigger] t.actions[k] == (ActionView::Render {
                output: v[i].output,
            }) by {
            if i < rest.len() {
                assert(rest[i] == v[i]);
                let k = choose|k: int|
                    n <= k < before.actions.len() && #[trigger] before.actions[k] == (
                    ActionView::Render { output: rest[i].output });
                assert(t.actions[k] == before.actions[k]);
            } else {
                assert(t.actions[t.actions.len() - 1] == (ActionView::Render {
                    output: v[i].output,
                }));
            }
        }
    }
}

/// The output that a CRTC drives is the first that is listed for it.
pub proof fn lemma_output_of_a_crtc(v: Seq<DrmSurfaceView>, crtc: u32)
    ensures
        match surface_on(v, crtc) {
            Some(d) => exists|i: int|
                0 <= i < v.len() && #[trigger] v[i] == d && d.crtc == crtc && forall|j: int|
                    0 <= j < i ==> (#[trigger] v[j]).crtc != crtc,
            None => forall|j: int| 0 <= j < v.len() ==> (#[trigger] v[j]).crtc != crtc,
        },
    decreases v.len(),
{
    if v.len() > 0 {
        if v[0].crtc == crtc {
            assert(v[0] == surface_on(v, crtc)->0);
        } else {
            let rest = v.drop_first();
            lemma_output_of_a_crtc(rest, crtc);
            match surface_on(rest, crtc) {
                Some(d) => {
                    let i = choose|i: int|
                        0 <= i < rest.len() && #[trigger] rest[i] == d && d.crtc == crtc && forall|
                            j: int,
                        |
                            0 <= j < i ==> (#[trigger] rest[j]).crtc != crtc;
                    assert(v[i + 1] == d);
                    assert forall|j: int| 0 <= j < i + 1 implies (#[trigger] v[j]).crtc
                        != crtc by {
                        if j > 0 {
                            assert(rest[j - 1] == v[j]);
                        }
                    }
                },
                None => {
                    assert forall|j: int| 0 <= j < v.len() implies (#[trigger] v[j]).crtc
                        != crtc by {
                        if j > 0 {
                            assert(rest[j - 1] == v[j]);
                        }
                    }
                },
            }
        }
    }
}

/// An output is drawn exactly where a redraw is queued, the session is not
/// paused and the device is active.
pub proof fn lemma_when_an_output_is_drawn(d: DrmView, s: EwmView, crtc: u32, drm_active: bool)
    ensures
        ({
            let r = d.due(s, crtc, drm_active);
            let on = if d.device is Some {
                surface_on(d.device->0, crtc)
            } else {
                None
            };
            let state = s.state_of(on->0.output)->0;
            &&& r is Some <==> !d.paused && drm_active && on is Some && s.state_of(on->0.output)
                is Some && (state.redraw_state is Queued
                || state.redraw_state is WaitingForEstimatedVBlankAndQueued)
            &&& r is Some ==> {
                let (output, interval) = r->0;
                output == on->0.output && interval == state.refresh_interval_us
            }
        }),
{
}

/// A change of mode shows in the output at once, and a frame of it is queued.
pub proof fn lemma_changed_mode(
    s: EwmView,
    i: int,
    mode: VideoMode,
    size: Size,
)
    requires
        first_of_handle(s.space, i),
        s.state_of(s.space.outputs[i].handle) is Some,
    ensures
        ({
            let output = s.space.outputs[i].handle;
            let t = s.mode_changed(output, mode, size);
            let o = t.space.outputs[i];
            &&& o.mode.w == mode.width && o.mode.h == mode.height
            &&& o.size == size
            &&& o.loc == s.space.outputs[i].loc && o.name == s.space.outputs[i].name && o.scale
                == s.space.outputs[i].scale
            &&& t.state_of(output) is Some
            &&& t.state_of(output)->0.redraw_state is Queued
            &&& t.state_of(output)->0.refresh_interval_us == (if mode.vrefresh == 0 {
                16_667
            } else {
                1_000_000u64 / (mode.vrefresh as u64)
            })
        }),
{
    let output = s.space.outputs[i].handle;
    let state = s.state_of(output)->0;
    let a = EwmView { space: s.mode_changed(output, mode, size).space, ..s };
    lemma_state_read_back(
        a,
        output,
        OutputState {
            refresh_interval_us: crate::output::refresh_interval_spec(mode.vrefresh),
            redraw_state: RedrawState::Queued,
            ..state
        },
        0,
    );
}

/// The hardware is set up exactly where that is pending, there is a session,
/// and every connector that has a CRTC has a mode and is taken by the hardware;
/// it is not tried twice.
pub proof fn lemma_when_hardware_is_set_up(d: DrmView, s: EwmView, events: Seq<ScanEventView>)
    ensures
        ({
            let r = initialized(d, s, events);
            let fine = forall|i: int|
                0 <= i < events.len() ==> match #[trigger] events[i] {
                    ScanEventView::Connected { connector, crtc: Some(_), output, ready } => ready
                        && crate::output::initial_mode_spec(connector.modes) is Some,
                    _ => true,
                };
            &&& r.2 is Ok <==> d.pending && d.session && fine
            &&& !r.0.pending
            &&& !d.pending ==> r.0 == d && r.1 == s
            &&& r.2 is Ok ==> r.0.device is Some
        }),
{
    lemma_setup_goes_well(s, events);
}

proof fn lemma_setup_goes_well(s: EwmView, events: Seq<ScanEventView>)
    ensures
        Setup::start(s).run(events).error is None <==> forall|i: int|
            0 <= i < events.len() ==> match #[trigger] events[i] {
                ScanEventView::Connected { connector, crtc: Some(_), output, ready } => ready
                    && crate::output::initial_mode_spec(connector.modes) is Some,
                _ => true,
            },
    decreases events.len(),
{
    if events.len() > 0 {
        let rest = events.drop_last();
        lemma_setup_goes_well(s, rest);
        assert(events[events.len() - 1] == events.last());
        if Setup::start(s).run(events).error is None {
            assert forall|i: int| 0 <= i < events.len() implies match #[trigger] events[i] {
                ScanEventView::Connected { connector, crtc: Some(_), output, ready } => ready
                    && crate::output::initial_mode_spec(connector.modes) is Some,
                _ => true,
            } by {
                if i < rest.len() {
                    assert(rest[i] == events[i]);
                }
            }
        }
        if forall|i: int|
            0 <= i < events.len() ==> match #[trigger] events[i] {
                ScanEventView::Connected { connector, crtc: Some(_), output, ready } => ready
                    && crate::output::initial_mode_spec(connector.modes) is Some,
                _ => true,
            } {
            assert forall|i: int| 0 <= i < rest.len() implies match #[trigger] rest[i] {
                ScanEventView::Connected { connector, crtc: Some(_), output, ready } => ready
                    && crate::output::initial_mode_spec(connector.modes) is Some,
                _ => true,
            } by {
                assert(rest[i] == events[i]);
            }
        }
    }
}

/// Outputs of a first scan stand side by side: each one is mapped where the one
/// before it ends, and starts at the top.
pub proof fn lemma_outputs_side_by_side(s: Setup, e: ScanEventView)
    requires
        s.step(e).error is None,
    ensures
        ({
            let t = s.step(e);
            match e {
                ScanEventView::Connected { connector, crtc: Some(crtc), output, ready } => {
                    let o = t.ewm.space.outputs.last();
                    &&& t.ewm.space.outputs.drop_last() == s.ewm.space.outputs
                    &&& o.handle == output && o.name == connector.name
                    &&& o.loc.x == s.x && o.loc.y == 0
                    &&& i32::MIN <= s.x + o.size.w <= i32::MAX ==> t.x == o.loc.x + o.size.w
                    &&& t.surfaces.last().crtc == crtc
                    &&& t.surfaces.last().output == output
                    &&& t.surfaces.last().name == connector.name
                    &&& t.surfaces.last().connector == connector.handle
                },
                _ => t == s,
            }
        }),
{
    let t = s.step(e);
    if let ScanEventView::Connected { connector, crtc: Some(crtc), output, ready } = e {
        assert(t.ewm.space.outputs.drop_last() =~= s.ewm.space.outputs);
    }
}

/// The output of a name is the first that is listed under it.
pub proof fn lemma_output_of_a_name(v: Seq<DrmSurfaceView>, name: Seq<char>)
    ensures
        match surface_named(v, name) {
            Some(d) => exists|i: int|
                0 <= i < v.len() && #[trigger] v[i] == d && d.name == name && forall|j: int|
                    0 <= j < i ==> (#[trigger] v[j]).name != name,
            None => forall|j: int| 0 <= j < v.len() ==> (#[trigger] v[j]).name != name,
        },
    decreases v.len(),
{
    if v.len() > 0 {
        if v[0].name == name {
            assert(v[0] == surface_named(v, name)->0);
        } else {
            let rest = v.drop_first();
            lemma_output_of_a_name(rest, name);
            match surface_named(rest, name) {
                Some(d) => {
                    let i = choose|i: int|
                        0 <= i < rest.len() && #[trigger] rest[i] == d && d.name == name && forall|
                            j: int,
                        |
                            0 <= j < i ==> (#[trigger] rest[j]).name != name;
                    assert(v[i + 1] == d);
                    assert forall|j: int| 0 <= j < i + 1 implies (#[trigger] v[j]).name
                        != name by {
                        if j > 0 {
                            assert(rest[j - 1] == v[j]);
                        }
                    }
                },
                None => {
                    assert forall|j: int| 0 <= j < v.len() implies (#[trigger] v[j]).name
                        != name by {
                        if j > 0 {
                            assert(rest[j - 1] == v[j]);
                        }
                    }
                },
            }
        }
    }
}

/// Of the outputs of the hardware none is left for a CRTC that is taken away,
/// and all others are.
pub proof fn lemma_crtc_taken_away(v: Seq<DrmSurfaceView>, crtc: u32)
    ensures
        forall|k: int|
            0 <= k < without_crtc(v, crtc).len() ==> (#[trigger] without_crtc(v, crtc)[k]).crtc
                != crtc && v.contains(without_crtc(v, crtc)[k]),
        forall|i: int|
            0 <= i < v.len() && (#[trigger] v[i]).crtc != crtc ==> without_crtc(v, crtc).contains(
                v[i],
            ),
{
    broadcast use vstd::seq_lib::group_filter_ensures;

    let keep = |s: DrmSurfaceView| s.crtc != crtc;
    let rest = v.filter(keep);
    assert forall|k: int| 0 <= k < rest.len() implies (#[trigger] rest[k]).crtc != crtc
        && v.contains(rest[k]) by {
        assert(keep(rest[k]));
        lemma_kept_was_there(v, keep, k);
    }
    assert forall|i: int| 0 <= i < v.len() && (#[trigger] v[i]).crtc != crtc implies rest.contains(
        v[i],
    ) by {
        assert(keep(v[i]));
    }
}

/// Every output is drawn once the hardware is set up.
pub proof fn lemma_all_are_drawn(s: EwmView, v: Seq<DrmSurfaceView>)
    ensures
        ({
            let t = s.render_all(v);
            &&& t == (EwmView { actions: t.actions, ..s })
            &&& t.actions.len() == s.actions.len() + v.len()
            &&& forall|k: int|
                0 <= k < v.len() ==> #[trigger] t.actions[s.actions.len() + k] == (
                ActionView::Render { output: v[k].output })
        }),
    decreases v.len(),
{
    if v.len() > 0 {
        let rest = v.drop_last();
        lemma_all_are_drawn(s, rest);
        let t = s.render_all(v);
        assert forall|k: int| 0 <= k < v.len() implies #[trigger] t.actions[s.actions.len() + k]
            == (ActionView::Render { output: v[k].output }) by {
            if k < rest.len() {
                assert(t.actions[s.actions.len() + k] == s.render_all(
                    rest,
                ).actions[s.actions.len() + k]);
            }
        }
    }
}

/// Whether a scan tells that what a CRTC drove was unplugged.
pub open spec fn tells_unplugged(events: Seq<ScanEventView>, crtc: u32) -> bool {
    exists|i: int|
        0 <= i < events.len() && #[trigger] events[i] == (ScanEventView::Disconnected {
            crtc: Some(crtc),
        })
}

/// After a scan nothing is left of what was unplugged, and all that was not
/// unplugged is still there.
pub proof fn lemma_unplugged_outputs(
    v: Seq<DrmSurfaceView>,
    s: EwmView,
    loop_handle: bool,
    events: Seq<ScanEventView>,
    crtc: u32,
)
    ensures
        ({
            let left = unplugged(v, s, loop_handle, events).0;
            &&& tells_unplugged(events, crtc) ==> surface_on(left, crtc) is None
            &&& forall|i: int|
                0 <= i < v.len() && (#[trigger] v[i]).crtc == crtc && !tells_unplugged(
                    events,
                    crtc,
                ) ==> left.contains(v[i])
            &&& forall|k: int| 0 <= k < left.len() ==> v.contains(#[trigger] left[k])
        }),
    decreases events.len(),
{
    let left = unplugged(v, s, loop_handle, events).0;
    if events.len() > 0 {
        let rest = events.drop_last();
        lemma_unplugged_outputs(v, s, loop_handle, rest, crtc);
        let before = unplugged(v, s, loop_handle, rest).0;
        assert(events[events.len() - 1] == events.last());
        if tells_unplugged(rest, crtc) {
            let i = choose|i: int|
                0 <= i < rest.len() && #[trigger] rest[i] == (ScanEventView::Disconnected {
                    crtc: Some(crtc),
                });
            assert(events[i] == rest[i]);
            assert(tells_unplugged(events, crtc));
        }
        if tells_unplugged(events, crtc) && !tells_unplugged(rest, crtc) {
            let i = choose|i: int|
                0 <= i < events.len() && #[trigger] events[i] == (ScanEventView::Disconnected {
                    crtc: Some(crtc),
                });
            if i < rest.len() {
                assert(rest[i] == events[i]);
            }
        }
        lemma_output_of_a_crtc(before, crtc);
        lemma_output_of_a_crtc(left, crtc);
        if let ScanEventView::Disconnected { crtc: Some(gone) } = events.last() {
            lemma_crtc_taken_away(before, gone);
            if surface_on(before, gone) is Some {
                assert(left == without_crtc(before, gone));
                if surface_on(left, crtc) is Some {
                    let d = surface_on(left, crtc)->0;
                    let k = choose|k: int| 0 <= k < left.len() && #[trigger] left[k] == d
                        && d.crtc == crtc && forall|j: int|
                        0 <= j < k ==> (#[trigger] left[j]).crtc != crtc;
                    assert(before.contains(left[k]));
                    let m = choose|m: int| 0 <= m < before.len() && before[m] == left[k];
                    assert(before[m].crtc == crtc);
                }
            }
            assert forall|i: int|
                0 <= i < v.len() && (#[trigger] v[i]).crtc == crtc && !tells_unplugged(
                    events,
                    crtc,
                ) implies left.contains(v[i]) by {
                assert(before.contains(v[i]));
                if surface_on(before, gone) is Some {
                    let m = choose|m: int| 0 <= m < before.len() && before[m] == v[i];
                    assert(before[m].crtc != gone);
                }
            }
            assert forall|k: int| 0 <= k < left.len() implies v.contains(#[trigger] left[k]) by {
                if surface_on(before, gone) is Some {
                    assert(before.contains(left[k]));
                    let m = choose|m: int| 0 <= m < before.len() && before[m] == left[k];
                    assert(v.contains(before[m]));
                }
            }
        }
    } else {
        assert forall|i: int| 0 <= i < v.len() implies left.contains(#[trigger] v[i]) by {
            assert(left[i] == v[i]);
        }
        assert forall|k: int| 0 <= k < left.len() implies v.contains(#[trigger] left[k]) by {
            assert(v[k] == left[k]);
        }
    }
}

} // verus!
