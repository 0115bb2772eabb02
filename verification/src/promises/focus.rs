//! Which surface has the focus, and which the keyboard.
use vstd::prelude::*;

use crate::action::ActionView;
use crate::event::EventView;
use crate::ewm::{first_layer_focus, EwmView};
use crate::input::KeyboardAction;
use crate::layers::{
    exclusive_on, first_layer, focus_on_output, interactivity_of, is_on, KeyboardInteractivity,
    Layer, LayerSurfaceView,
};
use crate::module::ModuleView;
use crate::space::{OutputHandle, OutputView, WindowHandle};

verus! {

// ---------------------------------------------------------------------------
// Layer surfaces
// ---------------------------------------------------------------------------
/// Whether layer surface `i` is the first of the list that `wanted` holds of.
pub open spec fn is_first(
    layers: Seq<LayerSurfaceView>,
    wanted: spec_fn(LayerSurfaceView) -> bool,
    i: int,
) -> bool {
    &&& 0 <= i < layers.len()
    &&& wanted(layers[i])
    &&& forall|j: int| 0 <= j < i ==> !wanted(#[trigger] layers[j])
}

proof fn lemma_first(layers: Seq<LayerSurfaceView>, wanted: spec_fn(LayerSurfaceView) -> bool)
    ensures
        match first_layer(layers, wanted) {
            Some(l) => exists|i: int| #[trigger] is_first(layers, wanted, i) && layers[i] == l,
            None => forall|j: int| 0 <= j < layers.len() ==> !wanted(#[trigger] layers[j]),
        },
    decreases layers.len(),
{
    if layers.len() > 0 {
        if wanted(layers[0]) {
            assert(is_first(layers, wanted, 0));
        } else {
            let rest = layers.drop_first();
            lemma_first(rest, wanted);
            match first_layer(rest, wanted) {
                Some(l) => {
                    let i = choose|i: int| #[trigger] is_first(rest, wanted, i) && rest[i] == l;
                    assert forall|j: int| 0 <= j < i + 1 implies !wanted(#[trigger] layers[j]) by {
                        if j > 0 {
                            assert(rest[j - 1] == layers[j]);
                        }
                    }
                    assert(layers[i + 1] == l);
                    assert(is_first(layers, wanted, i + 1));
                },
                None => {
                    assert forall|j: int| 0 <= j < layers.len() implies !wanted(
                        #[trigger] layers[j],
                    ) by {
                        if j > 0 {
                            assert(rest[j - 1] == layers[j]);
                        }
                    }
                },
            }
        }
    }
}

/// Whether a layer surface wants the keyboard for itself, on a layer of an
/// output.
pub open spec fn wants_keyboard(l: LayerSurfaceView, output: OutputHandle, layer: Layer) -> bool {
    l.output == output && l.layer == layer && l.interactivity == KeyboardInteractivity::Exclusive
}

/// Whether a layer of an output holds a surface that wants the keyboard for
/// itself.
pub open spec fn layer_wants_keyboard(
    layers: Seq<LayerSurfaceView>,
    output: OutputHandle,
    layer: Layer,
) -> bool {
    exists|i: int| 0 <= i < layers.len() && wants_keyboard(#[trigger] layers[i], output, layer)
}

/// Whether a surface is the first on a layer of an output that wants the
/// keyboard for itself.
pub open spec fn takes_keyboard(
    layers: Seq<LayerSurfaceView>,
    output: OutputHandle,
    layer: Layer,
    surface: u64,
) -> bool {
    exists|i: int|
        0 <= i < layers.len() && wants_keyboard(#[trigger] layers[i], output, layer)
            && layers[i].surface == surface && forall|j: int|
            0 <= j < i ==> !wants_keyboard(#[trigger] layers[j], output, layer)
}

proof fn lemma_exclusive(layers: Seq<LayerSurfaceView>, output: OutputHandle, layer: Layer)
    ensures
        match exclusive_on(layers, output, layer) {
            Some(surface) => takes_keyboard(layers, output, layer, surface)
                && layer_wants_keyboard(layers, output, layer),
            None => !layer_wants_keyboard(layers, output, layer),
        },
{
    let wanted = |l: LayerSurfaceView|
        l.output == output && l.layer == layer && l.interactivity
            == KeyboardInteractivity::Exclusive;
    lemma_first(layers, wanted);
    assert forall|i: int| 0 <= i < layers.len() implies wanted(#[trigger] layers[i])
        == wants_keyboard(layers[i], output, layer) by {
    }
    match first_layer(layers, wanted) {
        Some(l) => {
            let i = choose|i: int| #[trigger] is_first(layers, wanted, i) && layers[i] == l;
            assert(wants_keyboard(layers[i], output, layer));
            assert forall|j: int| 0 <= j < i implies !wants_keyboard(
                #[trigger] layers[j],
                output,
                layer,
            ) by {
                assert(!wanted(layers[j]));
            }
        },
        None => {
            if layer_wants_keyboard(layers, output, layer) {
                let i = choose|i: int|
                    0 <= i < layers.len() && wants_keyboard(#[trigger] layers[i], output, layer);
                assert(!wanted(layers[i]));
            }
        },
    }
}

/// The keyboard of an output goes to a surface that wants it for itself on the
/// overlay layer, before one on the top layer, before the surface that was
/// clicked, before a focused window, before one on the bottom layer, before one
/// on the background.
pub proof fn lemma_keyboard_by_layers(
    layers: Seq<LayerSurfaceView>,
    output: OutputHandle,
    clicked: Option<u64>,
    window_focused: bool,
)
    ensures
        ({
            let r = focus_on_output(layers, output, clicked, window_focused);
            let overlay = layer_wants_keyboard(layers, output, Layer::Overlay);
            let top = layer_wants_keyboard(layers, output, Layer::Top);
            let bottom = layer_wants_keyboard(layers, output, Layer::Bottom);
            let background = layer_wants_keyboard(layers, output, Layer::Background);
            let here = clicked is Some && exists|i: int|
                0 <= i < layers.len() && (#[trigger] layers[i]).output == output
                    && layers[i].surface == clicked->0;
            &&& overlay ==> r is Some && takes_keyboard(layers, output, Layer::Overlay, r->0)
            &&& !overlay && top ==> r is Some && takes_keyboard(layers, output, Layer::Top, r->0)
            &&& !overlay && !top && here ==> r == clicked
            &&& !overlay && !top && !here && window_focused ==> r is None
            &&& !overlay && !top && !here && !window_focused && bottom ==> r is Some
                && takes_keyboard(layers, output, Layer::Bottom, r->0)
            &&& !overlay && !top && !here && !window_focused && !bottom && background ==> r is Some
                && takes_keyboard(layers, output, Layer::Background, r->0)
            &&& !overlay && !top && !here && !bottom && !background ==> r is None
        }),
{
    lemma_exclusive(layers, output, Layer::Overlay);
    lemma_exclusive(layers, output, Layer::Top);
    lemma_exclusive(layers, output, Layer::Bottom);
    lemma_exclusive(layers, output, Layer::Background);
    if clicked is Some {
        let wanted = |l: LayerSurfaceView| l.output == output && l.surface == clicked->0;
        lemma_first(layers, wanted);
        if is_on(layers, output, clicked->0) {
            let l = first_layer(layers, wanted)->0;
            let i = choose|i: int| #[trigger] is_first(layers, wanted, i) && layers[i] == l;
            assert(layers[i].output == output);
        } else if exists|i: int|
            0 <= i < layers.len() && (#[trigger] layers[i]).output == output && layers[i].surface
                == clicked->0 {
            let i = choose|i: int|
                0 <= i < layers.len() && (#[trigger] layers[i]).output == output
                    && layers[i].surface == clicked->0;
            assert(!wanted(layers[i]));
        }
    }
}

/// The first output whose layers claim the keyboard decides; outputs before it
/// claim nothing.
pub proof fn lemma_first_output_claims(
    outputs: Seq<OutputView>,
    layers: Seq<LayerSurfaceView>,
    clicked: Option<u64>,
    window_focused: bool,
)
    ensures
        match first_layer_focus(outputs, layers, clicked, window_focused) {
            Some(surface) => exists|i: int|
                0 <= i < outputs.len() && focus_on_output(
                    layers,
                    (#[trigger] outputs[i]).handle,
                    clicked,
                    window_focused,
                ) == Some(surface) && forall|j: int|
                    0 <= j < i ==> focus_on_output(
                        layers,
                        (#[trigger] outputs[j]).handle,
                        clicked,
                        window_focused,
                    ) is None,
            None => forall|j: int|
                0 <= j < outputs.len() ==> focus_on_output(
                    layers,
                    (#[trigger] outputs[j]).handle,
                    clicked,
                    window_focused,
                ) is None,
        },
    decreases outputs.len(),
{
    if outputs.len() > 0 {
        if focus_on_output(layers, outputs[0].handle, clicked, window_focused) is Some {
            assert(focus_on_output(layers, outputs[0].handle, clicked, window_focused) is Some);
        } else {
            let rest = outputs.drop_first();
            lemma_first_output_claims(rest, layers, clicked, window_focused);
            match first_layer_focus(rest, layers, clicked, window_focused) {
                Some(surface) => {
                    let i = choose|i: int|
                        0 <= i < rest.len() && focus_on_output(
                            layers,
                            (#[trigger] rest[i]).handle,
                            clicked,
                            window_focused,
                        ) == Some(surface) && forall|j: int|
                            0 <= j < i ==> focus_on_output(
                                layers,
                                (#[trigger] rest[j]).handle,
                                clicked,
                                window_focused,
                            ) is None;
                    assert(outputs[i + 1] == rest[i]);
                    assert forall|j: int| 0 <= j < i + 1 implies focus_on_output(
                        layers,
                        (#[trigger] outputs[j]).handle,
                        clicked,
                        window_focused,
                    ) is None by {
                        if j > 0 {
                            assert(rest[j - 1] == outputs[j]);
                        }
                    }
                },
                None => {
                    assert forall|j: int| 0 <= j < outputs.len() implies focus_on_output(
                        layers,
                        (#[trigger] outputs[j]).handle,
                        clicked,
                        window_focused,
                    ) is None by {
                        if j > 0 {
                            assert(rest[j - 1] == outputs[j]);
                        }
                    }
                },
            }
        }
    }
}

/// The layers are asked in the order of the mapped outputs, with the surface
/// that was clicked, and a window counts as focused where one has the focus.
pub proof fn lemma_layers_are_asked(s: EwmView)
    ensures
        s.layer_focus() == first_layer_focus(
            s.space.outputs,
            s.layers,
            s.layer_shell_on_demand_focus,
            s.focused_surface_id != 0 && s.id_windows.contains_key(s.focused_surface_id),
        ),
{
}

// ---------------------------------------------------------------------------
// Keyboard
// ---------------------------------------------------------------------------
/// Whether a layer surface exists and takes the keyboard when it is clicked; the
/// first of its handle counts.
pub open spec fn takes_clicks(s: EwmView, surface: u64) -> bool {
    exists|i: int|
        0 <= i < s.layers.len() && (#[trigger] s.layers[i]).surface == surface
            && s.layers[i].interactivity == KeyboardInteractivity::OnDemand && forall|j: int|
            0 <= j < i ==> (#[trigger] s.layers[j]).surface != surface
}

proof fn lemma_takes_clicks(s: EwmView, surface: u64)
    ensures
        takes_clicks(s, surface) <==> interactivity_of(s.layers, surface) == Some(
            KeyboardInteractivity::OnDemand,
        ),
{
    let wanted = |l: LayerSurfaceView| l.surface == surface;
    lemma_first(s.layers, wanted);
    match first_layer(s.layers, wanted) {
        Some(l) => {
            let i = choose|i: int| #[trigger] is_first(s.layers, wanted, i) && s.layers[i] == l;
            assert forall|j: int| 0 <= j < i implies (#[trigger] s.layers[j]).surface
                != surface by {
                assert(!wanted(s.layers[j]));
            }
            assert(s.layers[i].surface == surface);
            if takes_clicks(s, surface) {
                let k = choose|k: int|
                    0 <= k < s.layers.len() && (#[trigger] s.layers[k]).surface == surface
                        && s.layers[k].interactivity == KeyboardInteractivity::OnDemand && forall|
                        j: int,
                    |
                        0 <= j < k ==> (#[trigger] s.layers[j]).surface != surface;
                assert(k == i);
            }
        },
        None => {
            assert forall|j: int| 0 <= j < s.layers.len() implies (#[trigger] s.layers[j]).surface
                != surface by {
                assert(!wanted(s.layers[j]));
            }
        },
    }
}

/// Bringing the keyboard in step puts it on the layer surface that claims it, or
/// else on the window of the focused surface, or else on nothing; the display
/// side is told exactly where that is a change; and nothing happens where the
/// focus did not move. A clicked layer surface that is gone, or no longer takes
/// clicks, is forgotten first.
pub proof fn lemma_keyboard_in_step(s: EwmView)
    ensures
        !s.keyboard_focus_dirty ==> s.sync_keyboard_focus() == s,
        s.keyboard_focus_dirty ==> {
            let t = s.sync_keyboard_focus();
            let wanted = if t.layer_focus() is Some {
                t.layer_focus()
            } else if s.id_windows.contains_key(s.focused_surface_id) {
                Some(s.id_windows[s.focused_surface_id])
            } else {
                None
            };
            &&& !t.keyboard_focus_dirty
            &&& t.keyboard_focus == wanted
            &&& s.keyboard_focus == wanted ==> t.actions == s.actions
            &&& s.keyboard_focus != wanted ==> t.actions == s.actions.push(
                ActionView::SetKeyboardFocus { surface: wanted },
            )
            &&& t.layer_shell_on_demand_focus == (if s.layer_shell_on_demand_focus is Some
                && takes_clicks(s, s.layer_shell_on_demand_focus->0) {
                s.layer_shell_on_demand_focus
            } else {
                None
            })
            &&& t == (EwmView {
                keyboard_focus_dirty: false,
                keyboard_focus: t.keyboard_focus,
                layer_shell_on_demand_focus: t.layer_shell_on_demand_focus,
                actions: t.actions,
                ..s
            })
        },
{
    if s.layer_shell_on_demand_focus is Some {
        lemma_takes_clicks(s, s.layer_shell_on_demand_focus->0);
    }
}

/// A click on a layer surface that takes clicks gives it the keyboard; any other
/// click takes the keyboard from the one that had it this way.
pub proof fn lemma_clicks_on_layers(s: EwmView, surface: Option<u64>)
    ensures
        ({
            let t = s.focus_layer_if_on_demand(surface);
            let wanted = if surface is Some && takes_clicks(s, surface->0) {
                surface
            } else {
                None
            };
            &&& t.layer_shell_on_demand_focus == wanted
            &&& t.keyboard_focus_dirty == (s.keyboard_focus_dirty || wanted
                != s.layer_shell_on_demand_focus)
            &&& t == (EwmView {
                layer_shell_on_demand_focus: t.layer_shell_on_demand_focus,
                keyboard_focus_dirty: t.keyboard_focus_dirty,
                ..s
            })
        }),
{
    if surface is Some {
        lemma_takes_clicks(s, surface->0);
    }
}

// ---------------------------------------------------------------------------
// Focus
// ---------------------------------------------------------------------------
/// Whether the focus moved to a surface: on both sides, with the keyboard still
/// to follow, and nothing else but the events and the record.
pub open spec fn focus_moved(s: EwmView, t: EwmView, id: u32) -> bool {
    t == (EwmView {
        focused_surface_id: id,
        keyboard_focus_dirty: true,
        module: ModuleView {
            focused_id: id,
            events: t.module.events,
            focus_history: t.module.focus_history,
            ..s.module
        },
        ..s
    })
}

/// A move of the focus is recorded with who moved it and why, and told to Emacs
/// exactly where that is asked for.
pub proof fn lemma_moved_focus(
    s: EwmView,
    id: u32,
    notify: bool,
    source: Seq<char>,
    context: Option<Seq<char>>,
)
    ensures
        ({
            let t = s.focus_from(id, notify, source, context);
            &&& focus_moved(s, t, id)
            &&& t.module.events == (if notify {
                s.module.events.push(EventView::Focus { id })
            } else {
                s.module.events
            })
            &&& t.module.focus_history.len() == s.module.focus_history.len() + 1
            &&& t.module.focus_history.drop_last() == s.module.focus_history
            &&& t.module.focus_history.last().id == id
            &&& t.module.focus_history.last().source == source
            &&& t.module.focus_history.last().context == context
        }),
{
    let t = s.focus_from(id, notify, source, context);
    assert(t.module.focus_history.drop_last() =~= s.module.focus_history);
}

/// A surface that is focused by a click or by scrolling is told to Emacs unless
/// it is its own; the focused surface, and no surface, change nothing.
pub proof fn lemma_pointed_focus(s: EwmView, id: u32)
    ensures
        id == 0 || id == s.focused_surface_id ==> s.set_focus(id) == s,
        id != 0 && id != s.focused_surface_id ==> {
            let t = s.set_focus(id);
            &&& focus_moved(s, t, id)
            &&& t.module.focus_history == s.module.focus_history
            &&& t.module.events == (if s.emacs_surfaces.contains(id) {
                s.module.events
            } else {
                s.module.events.push(EventView::Focus { id })
            })
        },
{
}

/// A button that is pressed over a window of a surface gives that surface the
/// focus and its window the keyboard, unless the session is locked; one that is
/// released, and one over nothing, moves no focus. The user counts as active in
/// any case.
pub proof fn lemma_click_focuses(s: EwmView, pressed: bool, window: Option<WindowHandle>)
    ensures
        ({
            let t = s.button(pressed, window);
            if pressed && s.lock_state is Unlocked && window is Some && s.window_ids.contains_key(
                window->0,
            ) {
                let id = s.window_ids[window->0];
                &&& id != 0 ==> t.focused_surface_id == id
                &&& t.keyboard_focus == window
                &&& t.actions == s.actions.push(
                    ActionView::SetKeyboardFocus { surface: window },
                ).push(ActionView::NotifyActivity)
                &&& t.module.focus_history.last().id == id
                &&& t.module.focus_history.last().source == "click"@
                &&& t.module.events == (if id == 0 || id == s.focused_surface_id
                    || s.emacs_surfaces.contains(id) {
                    s.module.events
                } else {
                    s.module.events.push(EventView::Focus { id })
                })
            } else {
                t == (EwmView { actions: s.actions.push(ActionView::NotifyActivity), ..s })
            }
        }),
{
}

/// Scrolling over a window of a surface gives that surface the focus and its
/// window the keyboard, unless the session is locked.
pub proof fn lemma_scrolling_focuses(s: EwmView, window: Option<WindowHandle>)
    ensures
        ({
            let t = s.scrolled(window);
            if s.lock_state is Unlocked && window is Some && s.window_ids.contains_key(window->0) {
                let id = s.window_ids[window->0];
                &&& id != 0 ==> t.focused_surface_id == id
                &&& t.keyboard_focus == window
                &&& t.actions == s.actions.push(
                    ActionView::SetKeyboardFocus { surface: window },
                ).push(ActionView::NotifyActivity)
                &&& t.module.focus_history.last().id == id
                &&& t.module.focus_history.last().source == "scroll"@
            } else {
                t == (EwmView { actions: s.actions.push(ActionView::NotifyActivity), ..s })
            }
        }),
{
}

/// The pointer is where it was moved to, and the user counts as active; nothing
/// else changes.
pub proof fn lemma_pointer_is_where_it_moved(
    s: EwmView,
    location: crate::module::PointerLocation,
)
    ensures
        s.pointer_moved(location) == (EwmView {
            pointer_location: location,
            actions: s.actions.push(ActionView::NotifyActivity),
            ..s
        }),
{
}

/// The focus that Emacs wants before the next key is taken up once, where the
/// surface exists, and Emacs is not told of it.
pub proof fn lemma_wanted_focus_is_taken_up(s: EwmView)
    ensures
        ({
            let t = s.take_pending_focus();
            &&& t.module.pending_focus is None
            &&& t.module.events == s.module.events
            &&& match s.module.pending_focus {
                Some(id) => if s.id_windows.contains_key(id) {
                    t.focused_surface_id == id && (s.focused_surface_id != id
                        ==> t.keyboard_focus_dirty && t.module.focused_id == id)
                } else {
                    t.focused_surface_id == s.focused_surface_id
                },
                None => t.focused_surface_id == s.focused_surface_id && t.keyboard_focus_dirty
                    == s.keyboard_focus_dirty,
            }
            &&& t.take_pending_focus() == t
        }),
{
}

/// A key that goes to Emacs takes the focus and the keyboard to a surface of
/// Emacs, on the output of the focused surface where there is one there, with
/// the base layout, and is sent again; Emacs is told nothing. Without a surface
/// of Emacs, or where the focused surface is on no output, nothing happens.
pub proof fn lemma_key_redirected(s: EwmView, t: EwmView)
    requires
        s.redirected(t),
        s.focused_surface_id != 0,
    ensures
        t.module.events == s.module.events,
        t == s || {
            let id = t.focused_surface_id;
            &&& s.emacs_surfaces.contains(id)
            &&& (exists|other: u32| #[trigger]
                s.emacs_surfaces.contains(other) && s.surface_output(other) == s.surface_output(
                    s.focused_surface_id,
                )) ==> s.surface_output(id) == s.surface_output(s.focused_surface_id)
            &&& t.module.focused_id == id
            &&& s.id_windows.contains_key(id) ==> {
                let surface = Some(s.id_windows[id]);
                &&& t.keyboard_focus == surface
                &&& if s.xkb_current_layout != 0 && s.xkb_layout_names.len() > 0 {
                    &&& t.xkb_current_layout == 0
                    &&& t.actions == s.actions + seq![
                        ActionView::SetKeyboardFocus { surface },
                        ActionView::SetXkbLayout { index: 0 },
                        ActionView::ResendKey,
                    ]
                } else {
                    &&& t.xkb_current_layout == s.xkb_current_layout
                    &&& t.actions == s.actions + seq![
                        ActionView::SetKeyboardFocus { surface },
                        ActionView::ResendKey,
                    ]
                }
            }
        },
        t == s ==> s.surface_output(s.focused_surface_id) is None || forall|id: u32|
            !s.emacs_surfaces.contains(id),
{
    let r = choose|r: Option<u32>| #[trigger]
        s.emacs_surface_choice(r) && t == match r {
            Some(id) => s.redirect_to(id),
            None => s,
        };
    match r {
        Some(id) => {
            let out = s.surface_output(s.focused_surface_id)->0;
            assert(t.module.focus_history.len() == s.module.focus_history.len() + 1);
            if exists|other: u32| #[trigger]
                s.emacs_surfaces.contains(other) && s.surface_output(other) == s.surface_output(
                    s.focused_surface_id,
                ) {
                let other = choose|other: u32| #[trigger]
                    s.emacs_surfaces.contains(other) && s.surface_output(other)
                        == s.surface_output(s.focused_surface_id);
                assert(s.emacs_surface_on(out, other));
            }
            if exists|other: u32| s.emacs_surface_on(out, other) {
                assert(s.emacs_surface_on(out, id));
            }
            if s.id_windows.contains_key(id) {
                let surface = Some(s.id_windows[id]);
                if s.xkb_current_layout != 0 && s.xkb_layout_names.len() > 0 {
                    assert(t.actions =~= s.actions + seq![
                        ActionView::SetKeyboardFocus { surface },
                        ActionView::SetXkbLayout { index: 0 },
                        ActionView::ResendKey,
                    ]);
                } else {
                    assert(t.actions =~= s.actions + seq![
                        ActionView::SetKeyboardFocus { surface },
                        ActionView::ResendKey,
                    ]);
                }
            }
        },
        None => {
            if let Some(out) = s.focused_output() {
                assert(s.emacs_surfaces == Set::<u32>::empty());
            }
        },
    }
}

/// A key that goes to the focused surface finds the keyboard on its window, and
/// a keyboard layout that changed meanwhile is taken up and told by its name.
pub proof fn lemma_key_forwarded(s: EwmView, layout: usize)
    ensures
        ({
            let t = s.forwarded(layout);
            &&& t.xkb_current_layout == layout
            &&& s.id_windows.contains_key(s.focused_surface_id) ==> t.keyboard_focus == Some(
                s.id_windows[s.focused_surface_id],
            )
            &&& !s.id_windows.contains_key(s.focused_surface_id) ==> t.keyboard_focus
                == s.keyboard_focus
            &&& t.actions.last() == ActionView::NotifyActivity
            &&& t.keyboard_focus == s.keyboard_focus ==> t.actions.len() == s.actions.len() + 1
            &&& t.keyboard_focus != s.keyboard_focus ==> t.actions == s.actions.push(
                ActionView::SetKeyboardFocus { surface: t.keyboard_focus },
            ).push(ActionView::NotifyActivity)
            &&& t.module.events == (if layout == s.xkb_current_layout || s.xkb_layout_names.len()
                == 0 {
                s.module.events
            } else {
                s.module.events.push(
                    EventView::LayoutSwitched {
                        layout: if layout < s.xkb_layout_names.len() {
                            s.xkb_layout_names[layout as int]
                        } else {
                            Seq::empty()
                        },
                        index: layout,
                    },
                )
            })
            &&& t.focused_surface_id == s.focused_surface_id
        }),
{
}

/// What is answered to a key: where it goes, or what it asks for.
pub proof fn lemma_key_answers(
    s: EwmView,
    ev: crate::input::KeyEvent,
    layout: usize,
    t: EwmView,
    action: KeyboardAction,
)
    requires
        s.key_handled(ev, layout, t, action),
        s.lock_state is Unlocked,
    ensures
        ({
            let verdict = s.before_key().verdict(ev);
            &&& action == KeyboardAction::Forward <==> verdict is Forward
            &&& action == KeyboardAction::RedirectToEmacs <==> verdict is Redirect
            &&& action == KeyboardAction::Shutdown <==> verdict is Kill
            &&& action == KeyboardAction::TextInputIntercepted <==> verdict is TextInput
            &&& action is ChangeVt <==> verdict is SwitchVt
            &&& verdict matches crate::input::KeyVerdictView::SwitchVt { vt } ==> action
                == KeyboardAction::ChangeVt(vt)
            &&& verdict matches crate::input::KeyVerdictView::TextInput { keysym, utf8 }
                ==> t.module.events == s.before_key().module.events.push(
                EventView::Key { keysym, utf8: Some(utf8) },
            )
        }),
{
}

/// Keys that are held down when the compositor's window loses the focus are
/// released one by one, and then the keyboard is off all clients.
pub proof fn lemma_keys_are_released(s: EwmView, pressed: Seq<u32>)
    ensures
        ({
            let t = s.release_keys(pressed);
            &&& t.actions.len() == s.actions.len() + pressed.len()
            &&& forall|i: int|
                0 <= i < pressed.len() ==> #[trigger] t.actions[s.actions.len() + i] == (
                ActionView::ReleaseKey { keycode: pressed[i] })
            &&& t.actions.take(s.actions.len() as int) == s.actions
            &&& t == (EwmView { actions: t.actions, ..s })
        }),
    decreases pressed.len(),
{
    if pressed.len() > 0 {
        let rest = pressed.drop_last();
        lemma_keys_are_released(s, rest);
        let t = s.release_keys(pressed);
        let before = s.release_keys(rest);
        assert(t.actions.take(s.actions.len() as int) =~= before.actions.take(
            s.actions.len() as int,
        ));
        assert forall|i: int| 0 <= i < pressed.len() implies #[trigger] t.actions[s.actions.len()
            + i] == (ActionView::ReleaseKey { keycode: pressed[i] }) by {
            if i < rest.len() {
                assert(t.actions[s.actions.len() + i] == before.actions[s.actions.len() + i]);
            }
        }
    } else {
        assert(s.actions.take(s.actions.len() as int) =~= s.actions);
    }
}

/// Text goes to the surface that has the keyboard, unless that is one of Emacs,
/// which has its own input methods.
pub proof fn lemma_text_follows_the_keyboard(s: EwmView, surface: u64)
    ensures
        s.text_focus(None) is None,
        s.text_focus(Some(surface)) == (if exists|id: u32| #[trigger]
            s.emacs_surfaces.contains(id) && s.window_ids.contains_key(surface)
                && s.window_ids[surface] == id {
            None
        } else {
            Some(surface)
        }),
{
    if s.window_ids.contains_key(surface) && s.emacs_surfaces.contains(s.window_ids[surface]) {
        let id = s.window_ids[surface];
        assert(s.emacs_surfaces.contains(id));
    }
}

} // verus!
