//! Activation, foreign toplevels, frame callbacks, the input method and reports.
use vstd::prelude::*;

use crate::action::ActionView;
use crate::event::EventView;
use crate::ewm::EwmView;
use crate::im_relay::{ImEvent, ProtocolEvent, RelayState};
use crate::layers::{Layer, LayerSurfaceView};
use crate::pipewire::stream::CastView;
use crate::promises::focus::focus_moved;
use crate::protocols::{
    layer_infos, layer_infos_on, layers_on, no_older_than, offers_text, token_accepted,
    LayerSurfaceInfoView, SurfaceFrame, WindowInfoView,
};
use crate::space::{OutputHandle, OutputView, Placed};

verus! {

// ---------------------------------------------------------------------------
// Activation
// ---------------------------------------------------------------------------
/// The serial that comes `d` events after `a`; serials start over behind the
/// last.
pub open spec fn later_serial(a: u32, d: nat) -> u32 {
    ((a + d) % 0x1_0000_0000) as u32
}

/// A serial that came later is no older, also where serials started over in
/// between, and one that came earlier is older; this holds of serials less than
/// half their range apart.
pub proof fn lemma_later_serials(a: u32, d: nat)
    requires
        d < 0x7fff_ffff,
    ensures
        no_older_than(later_serial(a, d), a),
        d > 0 ==> !no_older_than(a, later_serial(a, d)),
{
}

/// A surface of a window gets the focus with a token that is younger than ten
/// seconds, and Emacs is told; any other request changes no focus. The token is
/// used up either way.
pub proof fn lemma_activation(s: EwmView, age_ms: u64, surface: u64, token: u64)
    ensures
        ({
            let t = s.activation_requested(age_ms, surface, token);
            &&& t.actions == s.actions.push(ActionView::RemoveToken { token })
            &&& if age_ms < 10_000 && s.window_ids.contains_key(surface) {
                let id = s.window_ids[surface];
                &&& focus_moved(EwmView { actions: t.actions, ..s }, t, id)
                &&& t.module.events == s.module.events.push(EventView::Focus { id })
                &&& t.module.focus_history.last().id == id
                &&& t.module.focus_history.last().source == "xdg_activation"@
            } else {
                t == (EwmView { actions: t.actions, ..s })
            }
        }),
{
}

// ---------------------------------------------------------------------------
// Foreign toplevels
// ---------------------------------------------------------------------------
/// Whether an entry tells the truth about a window: its id and surface, its
/// application, its title unless that is empty, and whether it has the focus.
pub open spec fn tells_of(s: EwmView, w: WindowInfoView, id: u32) -> bool {
    let info = s.surface_info[id];
    &&& w.id == id
    &&& w.surface == s.id_windows[id]
    &&& w.app_id == info.app_id
    &&& w.title == (if info.title == Seq::<char>::empty() {
        None
    } else {
        Some(info.title)
    })
    &&& w.is_focused <==> s.focused_surface_id == id
    &&& w.output is Some <==> s.find_surface_output(id) is Some
    &&& w.output is Some ==> w.output->0 == s.find_surface_output(id)->0.handle
}

/// Whether other programs are told of a window: it is described, and not one of
/// Emacs.
pub open spec fn is_told(s: EwmView, id: u32) -> bool {
    s.id_windows.contains_key(id) && s.surface_info.contains_key(id) && !s.emacs_surfaces.contains(
        id,
    )
}

proof fn lemma_foreign_entries(s: EwmView, ids: Seq<u32>)
    ensures
        forall|k: int|
            0 <= k < s.foreign_infos(ids).len() ==> is_told(
                s,
                (#[trigger] s.foreign_infos(ids)[k]).id,
            ) && tells_of(s, s.foreign_infos(ids)[k], s.foreign_infos(ids)[k].id) && ids.contains(
                s.foreign_infos(ids)[k].id,
            ),
        ids.no_duplicates() ==> forall|j: int, k: int|
            0 <= j < k < s.foreign_infos(ids).len() ==> (#[trigger] s.foreign_infos(ids)[j]).id
                != (#[trigger] s.foreign_infos(ids)[k]).id,
        forall|i: int|
            0 <= i < ids.len() && is_told(s, #[trigger] ids[i]) ==> exists|k: int|
                0 <= k < s.foreign_infos(ids).len() && (#[trigger] s.foreign_infos(ids)[k]).id
                    == ids[i],
    decreases ids.len(),
{
    if ids.len() > 0 {
        let rest = ids.drop_last();
        lemma_foreign_entries(s, rest);
        let before = s.foreign_infos(rest);
        let all = s.foreign_infos(ids);
        assert(ids[ids.len() - 1] == ids.last());
        assert forall|k: int| 0 <= k < all.len() implies is_told(s, (#[trigger] all[k]).id)
            && tells_of(s, all[k], all[k].id) && ids.contains(all[k].id) by {
            if k < before.len() {
                assert(all[k] == before[k]);
                let m = choose|m: int| 0 <= m < rest.len() && rest[m] == before[k].id;
                assert(ids[m] == all[k].id);
            } else {
                assert(s.surface_info[ids.last()].title.len() == 0
                    ==> s.surface_info[ids.last()].title =~= Seq::<char>::empty());
                assert(ids[ids.len() - 1] == all[k].id);
            }
        }
        if ids.no_duplicates() {
            assert(rest.no_duplicates());
            assert forall|j: int, k: int| 0 <= j < k < all.len() implies (#[trigger] all[j]).id != (
            #[trigger] all[k]).id by {
                assert(all[j] == before[j]);
                let m = choose|m: int| 0 <= m < rest.len() && rest[m] == before[j].id;
                assert(ids[m] == all[j].id);
                if k < before.len() {
                    assert(all[k] == before[k]);
                }
            }
        }
        assert forall|i: int| 0 <= i < ids.len() && is_told(s, #[trigger] ids[i]) implies exists|
            k: int,
        |
            0 <= k < all.len() && (#[trigger] all[k]).id == ids[i] by {
            if i < rest.len() {
                assert(rest[i] == ids[i]);
                let k = choose|k: int| 0 <= k < before.len() && (#[trigger] before[k]).id == rest[i];
                assert(all[k] == before[k]);
            } else {
                assert(all[all.len() - 1].id == ids[i]);
            }
        }
    }
}

/// Other programs are told of every window that is described and not one of
/// Emacs, of each once, and of nothing else; and what they are told is true.
pub proof fn lemma_foreign_toplevels(s: EwmView, ids: Seq<u32>)
    requires
        s.lists_windows(ids),
    ensures
        forall|k: int|
            0 <= k < s.foreign_infos(ids).len() ==> is_told(
                s,
                (#[trigger] s.foreign_infos(ids)[k]).id,
            ) && tells_of(s, s.foreign_infos(ids)[k], s.foreign_infos(ids)[k].id),
        forall|j: int, k: int|
            0 <= j < k < s.foreign_infos(ids).len() ==> (#[trigger] s.foreign_infos(ids)[j]).id
                != (#[trigger] s.foreign_infos(ids)[k]).id,
        forall|id: u32| #[trigger]
            is_told(s, id) ==> exists|k: int|
                0 <= k < s.foreign_infos(ids).len() && (#[trigger] s.foreign_infos(ids)[k]).id
                    == id,
{
    lemma_foreign_entries(s, ids);
    assert forall|id: u32| #[trigger] is_told(s, id) implies exists|k: int|
        0 <= k < s.foreign_infos(ids).len() && (#[trigger] s.foreign_infos(ids)[k]).id == id by {
        assert(ids.to_set().contains(id));
        let i = choose|i: int| 0 <= i < ids.len() && ids[i] == id;
        assert(is_told(s, ids[i]));
    }
}

// ---------------------------------------------------------------------------
// Frame callbacks
// ---------------------------------------------------------------------------
proof fn lemma_layers_on(layers: Seq<LayerSurfaceView>, output: OutputHandle, surface: u64)
    ensures
        layers_on(layers, output).contains(surface) <==> exists|i: int|
            0 <= i < layers.len() && (#[trigger] layers[i]).output == output && layers[i].surface
                == surface,
    decreases layers.len(),
{
    if layers.len() > 0 {
        let rest = layers.drop_last();
        lemma_layers_on(rest, output, surface);
        let before = layers_on(rest, output);
        let all = layers_on(layers, output);
        if all.contains(surface) {
            let k = choose|k: int| 0 <= k < all.len() && all[k] == surface;
            if k < before.len() {
                assert(before[k] == surface);
                let i = choose|i: int|
                    0 <= i < rest.len() && (#[trigger] rest[i]).output == output && rest[i].surface
                        == surface;
                assert(layers[i] == rest[i]);
            } else {
                assert(layers[layers.len() - 1].surface == surface);
            }
        }
        if exists|i: int|
            0 <= i < layers.len() && (#[trigger] layers[i]).output == output && layers[i].surface
                == surface {
            let i = choose|i: int|
                0 <= i < layers.len() && (#[trigger] layers[i]).output == output
                    && layers[i].surface == surface;
            if i < rest.len() {
                assert(rest[i] == layers[i]);
                let k = choose|k: int| 0 <= k < before.len() && before[k] == surface;
                assert(all[k] == surface);
            } else {
                assert(all[all.len() - 1] == surface);
            }
        }
    }
}

/// Whether an output may give a surface a frame callback: the surface is a
/// window of the space, a layer surface of the output, or its lock surface.
pub open spec fn may_get_frames(s: EwmView, output: OutputHandle, root: u64) -> bool {
    ||| exists|i: int|
        0 <= i < s.space.elements.len() && (#[trigger] s.space.elements[i]).window == root
    ||| exists|i: int|
        0 <= i < s.layers.len() && (#[trigger] s.layers[i]).output == output && s.layers[i].surface
            == root
    ||| s.state_of(output) is Some && s.state_of(output)->0.lock_surface == Some(root)
}

proof fn lemma_frame_roots(s: EwmView, output: OutputHandle, root: u64)
    ensures
        s.frame_roots(output).contains(root) <==> may_get_frames(s, output, root),
{
    let windows = s.space.elements.map_values(|e: Placed| e.window);
    let layers = layers_on(s.layers, output);
    let all = s.frame_roots(output);
    lemma_layers_on(s.layers, output, root);
    if all.contains(root) {
        let k = choose|k: int| 0 <= k < all.len() && all[k] == root;
        if k < windows.len() {
            assert(s.space.elements[k].window == root);
        } else if k < windows.len() + layers.len() {
            assert(layers[k - windows.len()] == root);
        }
    }
    if exists|i: int|
        0 <= i < s.space.elements.len() && (#[trigger] s.space.elements[i]).window == root {
        let i = choose|i: int|
            0 <= i < s.space.elements.len() && (#[trigger] s.space.elements[i]).window == root;
        assert(all[i] == root);
    }
    if layers.contains(root) {
        let k = choose|k: int| 0 <= k < layers.len() && layers[k] == root;
        assert(all[windows.len() + k] == root);
    }
    if s.state_of(output) is Some && s.state_of(output)->0.lock_surface == Some(root) {
        assert(all[all.len() - 1] == root);
    }
}

/// A surface gets a frame callback for an output exactly where the output may
/// give it one and either shows it first of all and has given it none in this
/// refresh cycle, or has let it wait for more than 995 milliseconds.
pub proof fn lemma_frame_callbacks(s: EwmView, output: OutputHandle, f: SurfaceFrame, now: u64)
    ensures
        s.gets_callback(output, f, now) <==> {
            &&& may_get_frames(s, output, f.root)
            &&& {
                ||| f.primary == Some(output) && !(f.last_sent matches Some(last) && last.0
                    == output && last.1 == (if s.state_of(output) is Some {
                    s.state_of(output)->0.frame_callback_sequence
                } else {
                    0
                }))
                ||| f.overdue_at is None
                ||| now - f.overdue_at->0 > 995_000_000
            }
        },
{
    lemma_frame_roots(s, output, f.root);
}

/// A surface that got its callback is not due again in the same refresh cycle.
pub proof fn lemma_one_callback_a_cycle(s: EwmView, output: OutputHandle, f: SurfaceFrame, now: u64)
    ensures
        !s.callback_due(output, s.after_callback(output, f, now)) || !may_get_frames(
            s,
            output,
            f.root,
        ),
        s.callback_overdue(output, f, now) ==> !s.callback_overdue(
            output,
            s.after_callback(output, f, now),
            now,
        ),
        s.after_callback(output, f, now).root == f.root,
        s.after_callback(output, f, now).primary == f.primary,
{
    lemma_frame_roots(s, output, f.root);
}

// ---------------------------------------------------------------------------
// Input method
// ---------------------------------------------------------------------------
/// Whether a text field is active is what the last event said.
pub proof fn lemma_last_event_decides(s: EwmView, events: Seq<ImEvent>)
    ensures
        ({
            let t = s.im_events(events);
            &&& events.len() == 0 ==> t == s
            &&& events.len() > 0 ==> t.text_input_active == (events.last() is Activated)
            &&& t.actions == s.actions
            &&& t.focused_surface_id == s.focused_surface_id
        }),
    decreases events.len(),
{
    if events.len() > 0 {
        lemma_last_event_decides(s, events.drop_last());
    }
}

/// Emacs is told of a change, and of nothing that it knows.
pub proof fn lemma_change_is_told(s: EwmView, event: ImEvent)
    ensures
        ({
            let t = s.im_event(event);
            &&& t.text_input_active == (event is Activated)
            &&& t.text_input_active == s.text_input_active ==> t == s
            &&& t.text_input_active && !s.text_input_active ==> t.module.events
                == s.module.events.push(EventView::TextInputActivated)
            &&& !t.text_input_active && s.text_input_active ==> t.module.events
                == s.module.events.push(EventView::TextInputDeactivated)
        }),
{
}

/// The serial of the input method counts the batches that were completed, and
/// nothing else.
pub proof fn lemma_batches_are_counted(s: RelayState, e: ProtocolEvent)
    ensures
        e !is Done ==> s.after(e).serial == s.serial,
        e is Done ==> s.after(e).serial == later_serial(s.serial, 1),
        s.after(e).bound == s.bound,
        e is Done || e is Other ==> s.after(e).active == s.active,
        e is Activate ==> s.after(e).active,
        e is Deactivate ==> !s.after(e).active,
{
}

// ---------------------------------------------------------------------------
// Clipboard
// ---------------------------------------------------------------------------
/// A clipboard offers text exactly where one of its types has the letters t, e,
/// x, t in a row.
pub proof fn lemma_offered_text(mime_types: Seq<Seq<char>>)
    ensures
        offers_text(mime_types) <==> exists|i: int, k: int|
            0 <= i < mime_types.len() && 0 <= k && k + 4 <= mime_types[i].len()
                && #[trigger] mime_types[i][k] == 't' && mime_types[i][k + 1] == 'e'
                && mime_types[i][k + 2] == 'x' && mime_types[i][k + 3] == 't',
{
    reveal_strlit("text");
    if offers_text(mime_types) {
        let i = choose|i: int|
            0 <= i < mime_types.len() && crate::text::occurs(#[trigger] mime_types[i], "text"@);
        let m = mime_types[i];
        let k = choose|k: int|
            0 <= k && k + "text"@.len() <= m.len() && #[trigger] m.subrange(
                k,
                k + "text"@.len(),
            ) == "text"@;
        let part = m.subrange(k, k + 4);
        assert(part[0] == m[k] && part[1] == m[k + 1] && part[2] == m[k + 2] && part[3] == m[k
            + 3]);
        assert(mime_types[i][k] == 't');
    }
    if exists|i: int, k: int|
        0 <= i < mime_types.len() && 0 <= k && k + 4 <= mime_types[i].len()
            && #[trigger] mime_types[i][k] == 't' && mime_types[i][k + 1] == 'e'
            && mime_types[i][k + 2] == 'x' && mime_types[i][k + 3] == 't' {
        let (i, k) = choose|i: int, k: int|
            0 <= i < mime_types.len() && 0 <= k && k + 4 <= mime_types[i].len()
                && #[trigger] mime_types[i][k] == 't' && mime_types[i][k + 1] == 'e'
                && mime_types[i][k + 2] == 'x' && mime_types[i][k + 3] == 't';
        let m = mime_types[i];
        assert(m.subrange(k, k + "text"@.len()) =~= "text"@);
        assert(crate::text::occurs(m, "text"@));
    }
}

// ---------------------------------------------------------------------------
// Screen casts
// ---------------------------------------------------------------------------
/// Stopping the screen cast of a session ends all that the session has, and no
/// other; the display side is told once, and only where there was one.
pub proof fn lemma_stopped_cast(s: EwmView, session_id: usize)
    ensures
        ({
            let t = s.stop_cast(session_id);
            let had = exists|i: int|
                0 <= i < s.screen_casts.len() && (#[trigger] s.screen_casts[i]).0 == session_id;
            &&& !had ==> t == s
            &&& had ==> t.actions == s.actions.push(ActionView::StopCast { session_id })
            &&& forall|k: int|
                0 <= k < t.screen_casts.len() ==> (#[trigger] t.screen_casts[k]).0 != session_id
            &&& forall|i: int|
                0 <= i < s.screen_casts.len() && (#[trigger] s.screen_casts[i]).0 != session_id
                    ==> t.screen_casts.contains(s.screen_casts[i])
            &&& t == (EwmView { screen_casts: t.screen_casts, actions: t.actions, ..s })
        }),
{
    let keep = crate::protocols::other_session(session_id);
    broadcast use vstd::seq_lib::group_filter_ensures;
    let t = s.stop_cast(session_id);
    assert forall|k: int| 0 <= k < t.screen_casts.len() implies (#[trigger] t.screen_casts[k]).0
        != session_id by {
        if s.has_cast(session_id) {
            assert(keep(s.screen_casts.filter(keep)[k]));
        }
    }
    assert forall|i: int|
        0 <= i < s.screen_casts.len() && (#[trigger] s.screen_casts[i]).0
            != session_id implies t.screen_casts.contains(s.screen_casts[i]) by {
        assert(keep(s.screen_casts[i]));
        if !s.has_cast(session_id) {
            assert(t.screen_casts[i] == s.screen_casts[i]);
        }
    }
}

// ---------------------------------------------------------------------------
// Reports of layer surfaces
// ---------------------------------------------------------------------------
/// Whether a report tells the truth about a layer surface of an output.
pub open spec fn reports(
    r: LayerSurfaceInfoView,
    l: LayerSurfaceView,
    o: OutputView,
    clicked: Option<u64>,
) -> bool {
    &&& r.namespace == l.namespace
    &&& r.layer == l.layer
    &&& r.output == o.name
    &&& r.keyboard_interactivity == l.interactivity
    &&& r.geometry == l.geometry
    &&& r.on_demand_focused <==> clicked == Some(l.surface)
}

/// The surfaces of one layer of an output, in order.
pub open spec fn surfaces_of(
    layers: Seq<LayerSurfaceView>,
    o: OutputView,
    layer: Layer,
) -> Seq<LayerSurfaceView> {
    layers.filter(|l: LayerSurfaceView| l.output == o.handle && l.layer == layer)
}

proof fn lemma_infos_on(
    layers: Seq<LayerSurfaceView>,
    o: OutputView,
    layer: Layer,
    clicked: Option<u64>,
)
    ensures
        ({
            let r = layer_infos_on(layers, o, layer, clicked);
            let here = surfaces_of(layers, o, layer);
            &&& r.len() == here.len()
            &&& forall|k: int| 0 <= k < here.len() ==> reports(#[trigger] r[k], here[k], o, clicked)
        }),
    decreases layers.len(),
{
    reveal(Seq::filter);
    if layers.len() > 0 {
        let rest = layers.drop_last();
        let last = layers.last();
        lemma_infos_on(rest, o, layer, clicked);
        let r = layer_infos_on(layers, o, layer, clicked);
        let here = surfaces_of(layers, o, layer);
        let before = layer_infos_on(rest, o, layer, clicked);
        let were = surfaces_of(rest, o, layer);
        if last.output == o.handle && last.layer == layer {
            assert(here == were.push(last));
        } else {
            assert(here == were);
        }
        assert forall|k: int| 0 <= k < here.len() implies reports(
            #[trigger] r[k],
            here[k],
            o,
            clicked,
        ) by {
            if k < were.len() {
                assert(reports(before[k], were[k], o, clicked));
            }
        }
    }
}

/// The report of one output lists each of its layer surfaces once and truly:
/// those of the overlay layer, then those of the top layer, of the bottom layer
/// and of the background, and of one layer in the order in which they came.
pub proof fn lemma_report_of_an_output(
    o: OutputView,
    layers: Seq<LayerSurfaceView>,
    clicked: Option<u64>,
)
    ensures
        ({
            let r = layer_infos(seq![o], layers, clicked);
            let all = surfaces_of(layers, o, Layer::Overlay) + surfaces_of(layers, o, Layer::Top)
                + surfaces_of(layers, o, Layer::Bottom) + surfaces_of(layers, o, Layer::Background);
            &&& r.len() == all.len()
            &&& forall|k: int| 0 <= k < all.len() ==> reports(#[trigger] r[k], all[k], o, clicked)
        }),
{
    reveal_with_fuel(layer_infos, 2);
    lemma_infos_on(layers, o, Layer::Overlay, clicked);
    lemma_infos_on(layers, o, Layer::Top, clicked);
    lemma_infos_on(layers, o, Layer::Bottom, clicked);
    lemma_infos_on(layers, o, Layer::Background, clicked);
    let a = layer_infos_on(layers, o, Layer::Overlay, clicked);
    let b = layer_infos_on(layers, o, Layer::Top, clicked);
    let c = layer_infos_on(layers, o, Layer::Bottom, clicked);
    let d = layer_infos_on(layers, o, Layer::Background, clicked);
    let one = seq![o];
    assert(one.drop_last() =~= Seq::<OutputView>::empty());
    assert(one.last() == o);
    let r = layer_infos(one, layers, clicked);
    assert(r =~= a + b + c + d);
    let all = surfaces_of(layers, o, Layer::Overlay) + surfaces_of(layers, o, Layer::Top)
        + surfaces_of(layers, o, Layer::Bottom) + surfaces_of(layers, o, Layer::Background);
    assert forall|k: int| 0 <= k < all.len() implies reports(
        #[trigger] r[k],
        all[k],
        o,
        clicked,
    ) by {
        if k < a.len() {
            assert(reports(a[k], surfaces_of(layers, o, Layer::Overlay)[k], o, clicked));
        } else if k < a.len() + b.len() {
            let m = k - a.len();
            assert(reports(b[m], surfaces_of(layers, o, Layer::Top)[m], o, clicked));
        } else if k < a.len() + b.len() + c.len() {
            let m = k - a.len() - b.len();
            assert(reports(c[m], surfaces_of(layers, o, Layer::Bottom)[m], o, clicked));
        } else {
            let m = k - a.len() - b.len() - c.len();
            assert(reports(d[m], surfaces_of(layers, o, Layer::Background)[m], o, clicked));
        }
    }
}

/// The report of several outputs is the reports of each, one after the other.
pub proof fn lemma_reports_in_a_row(
    a: Seq<OutputView>,
    b: Seq<OutputView>,
    layers: Seq<LayerSurfaceView>,
    clicked: Option<u64>,
)
    ensures
        layer_infos(a + b, layers, clicked) == layer_infos(a, layers, clicked) + layer_infos(
            b,
            layers,
            clicked,
        ),
    decreases b.len(),
{
    if b.len() == 0 {
        assert(a + b =~= a);
        assert(layer_infos(a, layers, clicked) + layer_infos(b, layers, clicked) =~= layer_infos(
            a,
            layers,
            clicked,
        ));
    } else {
        lemma_reports_in_a_row(a, b.drop_last(), layers, clicked);
        assert((a + b).drop_last() =~= a + b.drop_last());
        assert((a + b).last() == b.last());
        assert(layer_infos(a + b, layers, clicked) =~= layer_infos(a, layers, clicked)
            + layer_infos(b, layers, clicked));
    }
}

/// A token is accepted exactly where it carries a serial, its seat is known, the
/// keyboard has entered a surface, and the serial is not from before that.
pub proof fn lemma_accepted_tokens(
    serial: Option<u32>,
    seat_known: bool,
    last_enter: Option<u32>,
    enter: u32,
    d: nat,
)
    requires
        d < 0x7fff_ffff,
    ensures
        serial is None || !seat_known || last_enter is None ==> !token_accepted(
            serial,
            seat_known,
            last_enter,
        ),
        token_accepted(Some(later_serial(enter, d)), true, Some(enter)),
        d > 0 ==> !token_accepted(Some(enter), true, Some(later_serial(enter, d))),
{
    lemma_later_serials(enter, d);
}

/// A window that another program activates gets the focus, and Emacs is told;
/// one that it closes is asked to close. A surface that is no window gets
/// neither.
pub proof fn lemma_requests_of_other_programs(s: EwmView, surface: u64)
    ensures
        !s.window_ids.contains_key(surface) ==> s.foreign_activated(surface) == s
            && s.foreign_closed(surface) == s,
        s.window_ids.contains_key(surface) ==> {
            let id = s.window_ids[surface];
            let t = s.foreign_activated(surface);
            &&& focus_moved(s, t, id)
            &&& t.module.events == s.module.events.push(EventView::Focus { id })
            &&& t.module.focus_history.last().source == "foreign_toplevel"@
            &&& s.foreign_closed(surface) == (EwmView {
                actions: s.actions.push(ActionView::SendClose { window: surface }),
                ..s
            })
        },
{
}

/// Text that is offered in the clipboard is read, as plain text; nothing else
/// is.
pub proof fn lemma_offered_selections(
    s: EwmView,
    clipboard: bool,
    mime_types: Option<Seq<Seq<char>>>,
)
    ensures
        !clipboard || mime_types is None || !offers_text(mime_types->0) ==> s.selection_offered(
            clipboard,
            mime_types,
        ) == s,
        clipboard && mime_types is Some && offers_text(mime_types->0) ==> s.selection_offered(
            clipboard,
            mime_types,
        ) == (EwmView {
            actions: s.actions.push(
                ActionView::ReadSelection { mime_type: "text/plain;charset=utf-8"@ },
            ),
            ..s
        }),
{
}

/// A session has one screen cast: the one that was created for it last. Those of
/// other sessions stay.
pub proof fn lemma_one_cast_a_session(s: EwmView, session_id: usize, cast: CastView)
    ensures
        ({
            let t = s.cast_created(session_id, cast);
            let n = t.screen_casts.len() - 1;
            &&& t.screen_casts.last().0 == session_id && t.screen_casts.last().1 == cast
            &&& forall|k: int| 0 <= k < n ==> (#[trigger] t.screen_casts[k]).0 != session_id
            &&& forall|i: int|
                0 <= i < s.screen_casts.len() && (#[trigger] s.screen_casts[i]).0 != session_id
                    ==> t.screen_casts.contains(s.screen_casts[i])
            &&& t == (EwmView { screen_casts: t.screen_casts, ..s })
        }),
{
    broadcast use vstd::seq_lib::group_filter_ensures;

    let keep = crate::protocols::other_session(session_id);
    let rest = s.screen_casts.filter(keep);
    let t = s.cast_created(session_id, cast);
    assert forall|k: int| 0 <= k < rest.len() implies (#[trigger] t.screen_casts[k]).0
        != session_id by {
        assert(keep(rest[k]));
    }
    assert forall|i: int|
        0 <= i < s.screen_casts.len() && (#[trigger] s.screen_casts[i]).0
            != session_id implies t.screen_casts.contains(s.screen_casts[i]) by {
        assert(keep(s.screen_casts[i]));
        assert(rest.contains(s.screen_casts[i]));
        let k = choose|k: int| 0 <= k < rest.len() && rest[k] == s.screen_casts[i];
        assert(t.screen_casts[k] == s.screen_casts[i]);
    }
}

} // verus!
