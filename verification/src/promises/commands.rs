//! What the commands of Emacs do.
use vstd::prelude::*;

use crate::action::ActionView;
use crate::commands::{first_active, layout_names, primary_view};
use crate::event::{text_view, EventView};
use crate::ewm::EwmView;
use crate::geometry::Point;
use crate::keys::key_views;
use crate::module::{ModuleCommand, ModuleView, PointerLocation, SurfaceView};
use crate::output::{OutputChange, OutputConfig};
use crate::promises::redraws::all_asked_to_draw;
use crate::space::{location_of, Placed, SpaceView, WindowHandle};

verus! {

// ---------------------------------------------------------------------------
// Windows in the space
// ---------------------------------------------------------------------------
/// Whether a window was put at a place, on top of all others, which stay where
/// they are and in their order.
pub open spec fn put_on_top(
    before: SpaceView,
    after: SpaceView,
    window: WindowHandle,
    at: Point,
) -> bool {
    &&& after.outputs == before.outputs
    &&& after.elements.len() > 0
    &&& after.elements.last().window == window
    &&& after.elements.last().loc == at
    &&& after.elements.drop_last() == before.elements.filter(|e: Placed| e.window != window)
}

/// A window that is mapped is found where it was put, and every other window
/// where it was before.
pub proof fn lemma_mapped_window_is_found(
    s: SpaceView,
    window: WindowHandle,
    at: Point,
    other: WindowHandle,
)
    ensures
        s.map_element(window, at).element_location(window) == Some(at),
        other != window ==> s.map_element(window, at).element_location(other)
            == s.element_location(other),
        s.unmap_elem(window).element_location(window) is None,
        other != window ==> s.unmap_elem(window).element_location(other) == s.element_location(
            other,
        ),
        put_on_top(s, s.map_element(window, at), window, at),
{
    let rest = s.elements_without(window);
    lemma_location_without(s.elements, window, window);
    lemma_location_without(s.elements, window, other);
    lemma_location_pushed(rest, Placed { window, loc: at }, window);
    lemma_location_pushed(rest, Placed { window, loc: at }, other);
    assert(s.map_element(window, at).elements.drop_last() =~= rest);
}

proof fn lemma_location_without(elements: Seq<Placed>, window: WindowHandle, other: WindowHandle)
    ensures
        location_of(elements.filter(|e: Placed| e.window != window), other) == (if other == window {
            None
        } else {
            location_of(elements, other)
        }),
    decreases elements.len(),
{
    reveal(Seq::filter);
    let keep = |e: Placed| e.window != window;
    if elements.len() > 0 {
        let rest = elements.drop_last();
        lemma_location_without(rest, window, other);
        assert(rest.push(elements.last()) =~= elements);
        lemma_location_pushed(rest, elements.last(), other);
        lemma_location_pushed(rest.filter(keep), elements.last(), other);
    }
}

proof fn lemma_location_pushed(elements: Seq<Placed>, e: Placed, window: WindowHandle)
    ensures
        location_of(elements.push(e), window) == (match location_of(elements, window) {
            Some(at) => Some(at),
            None => if e.window == window {
                Some(e.loc)
            } else {
                None
            },
        }),
    decreases elements.len(),
{
    if elements.len() > 0 {
        assert(elements.push(e).drop_first() =~= elements.drop_first().push(e));
        lemma_location_pushed(elements.drop_first(), e, window);
    } else {
        assert(elements.push(e).drop_first() =~= elements);
    }
}

/// Whether a window was shown: put on top at a place, raised and activated, and
/// told to take this width and height, in this order; and every output is to be
/// drawn.
pub open spec fn is_shown(
    before: EwmView,
    after: EwmView,
    window: WindowHandle,
    x: i32,
    y: i32,
    w: i32,
    h: i32,
) -> bool {
    &&& put_on_top(before.space, after.space, window, Point { x, y })
    &&& after.actions == before.actions + seq![
        ActionView::Place { window, x, y, activate: true },
        ActionView::Raise { window, activate: true },
        ActionView::Configure { window, w, h },
    ]
    &&& all_asked_to_draw(before.output_state, after.output_state)
}

/// Whether nothing changed but the space, the actions, what the outputs have
/// pending, and the views.
pub open spec fn same_but_shown(before: EwmView, after: EwmView) -> bool {
    after == (EwmView {
        space: after.space,
        actions: after.actions,
        output_state: after.output_state,
        surface_views: after.surface_views,
        ..before
    })
}

/// A layout command puts the surface at the place that it names, with the width
/// and the height that it names.
pub proof fn lemma_layout_command(s: EwmView, id: u32, x: i32, y: i32, w: u32, h: u32)
    requires
        s.id_windows.contains_key(id),
        w <= i32::MAX,
        h <= i32::MAX,
    ensures
        ({
            let t = s.run_command(ModuleCommand::Layout { id, x, y, w, h });
            &&& is_shown(s, t, s.id_windows[id], x, y, w as i32, h as i32)
            &&& same_but_shown(s, t)
            &&& t.surface_views == s.surface_views
            &&& t.space.element_location(s.id_windows[id]) == Some(Point { x, y })
        }),
{
    let t = s.run_command(ModuleCommand::Layout { id, x, y, w, h });
    lemma_mapped_window_is_found(s.space, s.id_windows[id], Point { x, y }, 0);
    assert(t.actions =~= s.actions + seq![
        ActionView::Place { window: s.id_windows[id], x, y, activate: true },
        ActionView::Raise { window: s.id_windows[id], activate: true },
        ActionView::Configure { window: s.id_windows[id], w: w as i32, h: h as i32 },
    ]);
}

/// Whether view `k` decides where a surface is: it is the first that belongs to
/// the selected Emacs window, or the first of all where none does.
pub open spec fn decides(list: Seq<SurfaceView>, k: int) -> bool {
    &&& 0 <= k < list.len()
    &&& forall|j: int| 0 <= j < k ==> !(#[trigger] list[j]).active
    &&& list[k].active || (k == 0 && forall|j: int|
        0 <= j < list.len() ==> !(#[trigger] list[j]).active)
}

proof fn lemma_deciding_view(list: Seq<SurfaceView>, k: int)
    requires
        decides(list, k),
    ensures
        primary_view(list) == Some(list[k]),
{
    lemma_first_active(list, k);
}

proof fn lemma_first_active(list: Seq<SurfaceView>, k: int)
    requires
        0 <= k < list.len(),
        forall|j: int| 0 <= j < k ==> !(#[trigger] list[j]).active,
    ensures
        list[k].active ==> first_active(list) == Some(list[k]),
        (forall|j: int| 0 <= j < list.len() ==> !(#[trigger] list[j]).active) ==> first_active(list)
            is None,
    decreases list.len(),
{
    let rest = list.drop_first();
    assert forall|j: int| 0 <= j < rest.len() implies #[trigger] rest[j] == list[j + 1] by {
    }
    if k > 0 {
        assert(!list[0].active);
        assert forall|j: int| 0 <= j < k - 1 implies !(#[trigger] rest[j]).active by {
            assert(!list[j + 1].active);
        }
        lemma_first_active(rest, k - 1);
    } else if !list[0].active && rest.len() > 0 {
        lemma_first_active(rest, 0);
    }
    if forall|j: int| 0 <= j < list.len() ==> !(#[trigger] list[j]).active {
        assert(!list[0].active);
        assert forall|j: int| 0 <= j < rest.len() implies !(#[trigger] rest[j]).active by {
            assert(!list[j + 1].active);
        }
    }
}

/// A views command with new views puts the surface where the deciding view is,
/// with the width and the height of that view, and keeps all views.
pub proof fn lemma_views_command(s: EwmView, id: u32, views: Vec<SurfaceView>, k: int)
    requires
        s.id_windows.contains_key(id),
        !s.surface_views.contains_key(id) || s.surface_views[id] != views@,
        decides(views@, k),
        views@[k].w <= i32::MAX,
        views@[k].h <= i32::MAX,
    ensures
        ({
            let t = s.run_command(ModuleCommand::Views { id, views });
            let v = views@[k];
            &&& is_shown(s, t, s.id_windows[id], v.x, v.y, v.w as i32, v.h as i32)
            &&& same_but_shown(s, t)
            &&& t.surface_views == s.surface_views.insert(id, views@)
            &&& t.space.element_location(s.id_windows[id]) == Some(Point { x: v.x, y: v.y })
            &&& t.actions.last() == (ActionView::Configure {
                window: s.id_windows[id],
                w: v.w as i32,
                h: v.h as i32,
            })
        }),
{
    let t = s.run_command(ModuleCommand::Views { id, views });
    let v = views@[k];
    lemma_deciding_view(views@, k);
    lemma_mapped_window_is_found(s.space, s.id_windows[id], Point { x: v.x, y: v.y }, 0);
    assert(t.actions =~= s.actions + seq![
        ActionView::Place { window: s.id_windows[id], x: v.x, y: v.y, activate: true },
        ActionView::Raise { window: s.id_windows[id], activate: true },
        ActionView::Configure { window: s.id_windows[id], w: v.w as i32, h: v.h as i32 },
    ]);
}

/// A views command without views keeps the empty list, and neither moves nor
/// sizes the surface.
pub proof fn lemma_empty_views_command(s: EwmView, id: u32, views: Vec<SurfaceView>)
    requires
        s.id_windows.contains_key(id),
        !s.surface_views.contains_key(id) || s.surface_views[id] != views@,
        views@.len() == 0,
    ensures
        ({
            let t = s.run_command(ModuleCommand::Views { id, views });
            &&& t.space == s.space
            &&& t.actions == s.actions
            &&& t.surface_views == s.surface_views.insert(id, views@)
            &&& all_asked_to_draw(s.output_state, t.output_state)
            &&& same_but_shown(s, t)
        }),
{
}

/// The views that a surface has already change nothing, and neither do views,
/// places, sizes and requests to hide or close for a surface that does not
/// exist.
pub proof fn lemma_nothing_to_show(
    s: EwmView,
    id: u32,
    views: Vec<SurfaceView>,
    x: i32,
    y: i32,
    w: u32,
    h: u32,
    output: String,
)
    ensures
        s.surface_views.contains_key(id) && s.surface_views[id] == views@ ==> s.run_command(
            ModuleCommand::Views { id, views },
        ) == s,
        !s.id_windows.contains_key(id) ==> {
            &&& s.run_command(ModuleCommand::Views { id, views }) == s
            &&& s.run_command(ModuleCommand::Layout { id, x, y, w, h }) == s
            &&& s.run_command(ModuleCommand::Hide { id }) == s
            &&& s.run_command(ModuleCommand::Close { id }) == s
            &&& s.run_command(ModuleCommand::Focus { id }) == s
            &&& s.run_command(ModuleCommand::AssignOutput { id, output }) == s
        },
{
}

/// A hide command puts a surface that has views far off all outputs, takes its
/// views away, and neither raises nor sizes it. One without views is hidden
/// already.
pub proof fn lemma_hide_command(s: EwmView, id: u32)
    requires
        s.id_windows.contains_key(id),
    ensures
        ({
            let t = s.run_command(ModuleCommand::Hide { id });
            let window = s.id_windows[id];
            if s.surface_views.contains_key(id) {
                &&& put_on_top(s.space, t.space, window, Point { x: (-10000) as i32, y: (-10000) as i32 })
                &&& t.space.element_location(window) == Some(Point { x: (-10000) as i32, y: (-10000) as i32 })
                &&& t.actions == s.actions.push(
                    ActionView::Place { window, x: (-10000) as i32, y: (-10000) as i32, activate: false },
                )
                &&& t.surface_views == s.surface_views.remove(id)
                &&& all_asked_to_draw(s.output_state, t.output_state)
                &&& same_but_shown(s, t)
            } else {
                t == s
            }
        }),
{
    lemma_mapped_window_is_found(
        s.space,
        s.id_windows[id],
        Point { x: (-10000) as i32, y: (-10000) as i32 },
        0,
    );
}

/// A close command asks the client of the surface to close it, and leaves it to
/// the client.
pub proof fn lemma_close_command(s: EwmView, id: u32)
    requires
        s.id_windows.contains_key(id),
    ensures
        s.run_command(ModuleCommand::Close { id }) == (EwmView {
            actions: s.actions.push(ActionView::SendClose { window: s.id_windows[id] }),
            ..s
        }),
{
}

/// A focus command moves the focus to a surface that exists, on the record and
/// for Emacs to read, leaves the keyboard to follow, and tells Emacs nothing;
/// the focused surface keeps the focus without a record.
pub proof fn lemma_focus_command(s: EwmView, id: u32)
    requires
        s.id_windows.contains_key(id),
    ensures
        ({
            let t = s.run_command(ModuleCommand::Focus { id });
            if s.focused_surface_id == id {
                t == s
            } else {
                &&& t.focused_surface_id == id
                &&& t.module.focused_id == id
                &&& t.keyboard_focus_dirty
                &&& t.keyboard_focus == s.keyboard_focus
                &&& t.module.events == s.module.events
                &&& t.actions == s.actions
                &&& t.space == s.space
                &&& t.output_state == s.output_state
                &&& t.module.focus_history.len() == s.module.focus_history.len() + 1
                &&& t.module.focus_history.drop_last() == s.module.focus_history
                &&& t.module.focus_history.last().id == id
                &&& t.module.focus_history.last().source == "emacs_command"@
                &&& t.module.focus_history.last().context is None
            }
        }),
{
    let t = s.run_command(ModuleCommand::Focus { id });
    if s.focused_surface_id != id {
        assert(t.module.focus_history.drop_last() =~= s.module.focus_history);
    }
}

/// A command to warp the pointer puts it where it says, tells the display side
/// the same place, and has the cursor drawn there.
pub proof fn lemma_warp_command(s: EwmView, location: PointerLocation)
    ensures
        ({
            let t = s.run_command(ModuleCommand::WarpPointer { location });
            &&& t.pointer_location == location
            &&& t.actions == s.actions.push(ActionView::WarpPointer { location })
            &&& all_asked_to_draw(s.output_state, t.output_state)
            &&& t == (EwmView {
                pointer_location: t.pointer_location,
                actions: t.actions,
                output_state: t.output_state,
                ..s
            })
        }),
{
}

/// A request for a screenshot is remembered with its file, or else with the
/// usual one; a later request takes the place of an earlier one.
pub proof fn lemma_screenshot_command(s: EwmView, path: Option<String>)
    ensures
        ({
            let t = s.run_command(ModuleCommand::Screenshot { path });
            &&& path matches Some(p) ==> t.pending_screenshot == Some(p@)
            &&& path is None ==> t.pending_screenshot == Some("/tmp/ewm-screenshot.png"@)
            &&& t == (EwmView { pending_screenshot: t.pending_screenshot, ..s })
        }),
{
}

/// A surface that is assigned to an output covers it: it is put at its corner
/// with its width and height. An output that is not mapped is passed over.
pub proof fn lemma_assign_command(s: EwmView, id: u32, output: String, i: int)
    requires
        s.id_windows.contains_key(id),
        0 <= i < s.space.outputs.len(),
        s.space.outputs[i].name == output@,
        forall|j: int| 0 <= j < i ==> (#[trigger] s.space.outputs[j]).name != output@,
    ensures
        ({
            let t = s.run_command(ModuleCommand::AssignOutput { id, output });
            let o = s.space.outputs[i];
            &&& is_shown(s, t, s.id_windows[id], o.loc.x, o.loc.y, o.size.w, o.size.h)
            &&& same_but_shown(s, t)
            &&& t.surface_views == s.surface_views
        }),
{
    let t = s.run_command(ModuleCommand::AssignOutput { id, output });
    let o = s.space.outputs[i];
    lemma_first_with_name(s.space, output@, i);
    lemma_mapped_window_is_found(s.space, s.id_windows[id], o.loc, 0);
    assert(t.actions =~= s.actions + seq![
        ActionView::Place { window: s.id_windows[id], x: o.loc.x, y: o.loc.y, activate: true },
        ActionView::Raise { window: s.id_windows[id], activate: true },
        ActionView::Configure { window: s.id_windows[id], w: o.size.w, h: o.size.h },
    ]);
}

/// The output of a name is the first that has it.
pub proof fn lemma_first_with_name(space: SpaceView, name: Seq<char>, i: int)
    requires
        0 <= i < space.outputs.len(),
        space.outputs[i].name == name,
        forall|j: int| 0 <= j < i ==> (#[trigger] space.outputs[j]).name != name,
    ensures
        space.output_named(name) == Some(space.outputs[i]),
{
    let named = |o: crate::space::OutputView| o.name == name;
    crate::space::lemma_first_output(space.outputs, named);
    match space.output_named(name) {
        Some(o) => {
            let k = choose|k: int|
                0 <= k < space.outputs.len() && space.outputs[k] == o && named(o) && forall|j: int|
                    0 <= j < k ==> !named(#[trigger] space.outputs[j]);
            if k < i {
                assert(space.outputs[k].name != name);
            } else if i < k {
                assert(!named(space.outputs[i]));
            }
        },
        None => {
            assert(!named(space.outputs[i]));
        },
    }
}

/// An output that Emacs is about to open a frame on waits behind those that it
/// named before.
pub proof fn lemma_prepare_command(s: EwmView, output: String)
    ensures
        ({
            let t = s.run_command(ModuleCommand::PrepareFrame { output });
            &&& t.module.pending_frame_outputs == s.module.pending_frame_outputs.push(output@)
            &&& t == (EwmView {
                module: ModuleView {
                    pending_frame_outputs: t.module.pending_frame_outputs,
                    ..s.module
                },
                ..s
            })
        }),
{
}

/// A command that configures an output keeps what was configured before but for
/// what it names, and has the display side apply it; other outputs keep their
/// configurations.
pub proof fn lemma_configure_command(
    s: EwmView,
    name: String,
    change: OutputChange,
    other: Seq<char>,
)
    ensures
        ({
            let t = s.run_command(ModuleCommand::ConfigureOutput { name, change });
            let before = if s.output_config.contains_key(name@) {
                s.output_config[name@]
            } else {
                OutputConfig {
                    mode: None,
                    position: None,
                    scale: None,
                    transform: None,
                    enabled: true,
                }
            };
            let after = t.output_config[name@];
            &&& t.output_config.contains_key(name@)
            &&& change.scale is Some ==> after.scale == change.scale
            &&& change.scale is None ==> after.scale == before.scale
            &&& change.transform is None ==> after.transform == before.transform
            &&& change.enabled is Some ==> after.enabled == change.enabled->0
            &&& change.enabled is None ==> after.enabled == before.enabled
            &&& change.x is Some && change.y is Some ==> after.position == Some(
                (change.x->0, change.y->0),
            )
            &&& change.x is None && change.y is None ==> after.position == before.position
            &&& change.width is Some && change.height is Some ==> after.mode == Some(
                (change.width->0, change.height->0, change.refresh),
            )
            &&& change.width is None || change.height is None ==> after.mode == before.mode
            &&& other != name@ ==> {
                &&& t.output_config.contains_key(other) == s.output_config.contains_key(other)
                &&& s.output_config.contains_key(other) ==> t.output_config[other]
                    == s.output_config[other]
            }
            &&& t.actions == s.actions.push(ActionView::ApplyOutputConfig { name: name@ })
            &&& t == (EwmView { output_config: t.output_config, actions: t.actions, ..s })
        }),
{
}

/// One coordinate of a place that is configured alone keeps the other where the
/// output stands.
pub proof fn lemma_configure_one_coordinate(s: EwmView, name: String, change: OutputChange, i: int)
    requires
        0 <= i < s.space.outputs.len(),
        s.space.outputs[i].name == name@,
        forall|j: int| 0 <= j < i ==> (#[trigger] s.space.outputs[j]).name != name@,
    ensures
        ({
            let t = s.run_command(ModuleCommand::ConfigureOutput { name, change });
            let o = s.space.outputs[i];
            &&& change.x is Some && change.y is None ==> t.output_config[name@].position == Some(
                (change.x->0, o.loc.y),
            )
            &&& change.x is None && change.y is Some ==> t.output_config[name@].position == Some(
                (o.loc.x, change.y->0),
            )
        }),
{
    lemma_first_with_name(s.space, name@, i);
}

/// The keys that Emacs wants are those of its last command.
pub proof fn lemma_intercept_command(s: EwmView, keys: Vec<crate::keys::InterceptedKey>)
    ensures
        ({
            let t = s.run_command(ModuleCommand::InterceptKeys { keys });
            &&& t.module.intercepted_keys == key_views(keys@)
            &&& t == (EwmView {
                module: ModuleView { intercepted_keys: t.module.intercepted_keys, ..s.module },
                ..s
            })
        }),
{
}

/// Text that Emacs commits goes to the input method relay as it is, where there
/// is one, and nowhere otherwise.
pub proof fn lemma_commit_command(s: EwmView, text: String)
    ensures
        s.im_relay ==> s.run_command(ModuleCommand::ImCommit { text }) == (EwmView {
            actions: s.actions.push(ActionView::ImCommit { text: text@ }),
            ..s
        }),
        !s.im_relay ==> s.run_command(ModuleCommand::ImCommit { text }) == s,
{
}

/// Emacs takes printable keys exactly from the command that asks for it to the
/// one that no longer does.
pub proof fn lemma_intercept_text_command(s: EwmView, enabled: bool)
    ensures
        s.run_command(ModuleCommand::TextInputIntercept { enabled }) == (EwmView {
            text_input_intercept: enabled,
            ..s
        }),
{
}

/// Keyboard layouts are set by the display side as they were given, and taken up
/// only once that went well: the list without blanks then counts, from its
/// first, and Emacs is told. A list of blanks is passed over.
pub proof fn lemma_layouts_command(s: EwmView, layouts: String, options: Option<String>)
    ensures
        ({
            let t = s.run_command(ModuleCommand::ConfigureXkb { layouts, options });
            let names = layout_names(layouts@);
            if names.len() == 0 {
                t == s && s.xkb_configured(layouts@) == s
            } else {
                &&& t == (EwmView {
                    actions: s.actions.push(
                        ActionView::SetXkbConfig {
                            layouts: layouts@,
                            options: text_view(options),
                        },
                    ),
                    ..s
                })
                &&& s.xkb_configured(layouts@).xkb_layout_names == names
                &&& s.xkb_configured(layouts@).xkb_current_layout == 0
                &&& s.xkb_configured(layouts@).module.events == s.module.events.push(
                    EventView::Layouts { layouts: names, current: 0 },
                )
            }
        }),
{
}

/// A layout of the list is switched to: the first of that name is current, the
/// keyboard is off all clients while it changes and back afterwards, and Emacs
/// is told. A name that is not in the list changes nothing.
pub proof fn lemma_switch_command(s: EwmView, layout: String, i: int)
    requires
        0 <= i < s.xkb_layout_names.len(),
        i <= usize::MAX,
        s.xkb_layout_names[i] == layout@,
        forall|j: int| 0 <= j < i ==> s.xkb_layout_names[j] != layout@,
    ensures
        ({
            let t = s.run_command(ModuleCommand::SwitchLayout { layout });
            &&& t.xkb_current_layout == i
            &&& t.xkb_layout_names == s.xkb_layout_names
            &&& t.keyboard_focus == s.keyboard_focus
            &&& t.actions == s.actions + seq![
                ActionView::SetKeyboardFocus { surface: None },
                ActionView::SetXkbLayout { index: i as usize },
                ActionView::SetKeyboardFocus { surface: s.keyboard_focus },
            ]
            &&& t.module.events == s.module.events.push(
                EventView::LayoutSwitched { layout: layout@, index: i as usize },
            )
        }),
{
    let t = s.run_command(ModuleCommand::SwitchLayout { layout });
    lemma_first_index(s.xkb_layout_names, layout@, i);
    assert(t.actions =~= s.actions + seq![
        ActionView::SetKeyboardFocus { surface: None },
        ActionView::SetXkbLayout { index: i as usize },
        ActionView::SetKeyboardFocus { surface: s.keyboard_focus },
    ]);
}

proof fn lemma_first_index(v: Seq<Seq<char>>, text: Seq<char>, i: int)
    requires
        0 <= i < v.len(),
        v[i] == text,
        forall|j: int| 0 <= j < i ==> v[j] != text,
    ensures
        crate::text::index_in(v, text) == Some(i),
    decreases v.len(),
{
    let rest = v.drop_last();
    if i < v.len() - 1 {
        assert forall|j: int| 0 <= j < i implies rest[j] != text by {
            assert(rest[j] == v[j]);
        }
        lemma_first_index(rest, text, i);
    } else {
        lemma_no_index(rest, text);
    }
}

proof fn lemma_no_index(v: Seq<Seq<char>>, text: Seq<char>)
    requires
        forall|j: int| 0 <= j < v.len() ==> v[j] != text,
    ensures
        crate::text::index_in(v, text) is None,
    decreases v.len(),
{
    if v.len() > 0 {
        let rest = v.drop_last();
        assert forall|j: int| 0 <= j < rest.len() implies rest[j] != text by {
            assert(rest[j] == v[j]);
        }
        lemma_no_index(rest, text);
    }
}

/// Emacs that asks for the layouts is told the list and the current one.
pub proof fn lemma_get_layouts_command(s: EwmView)
    ensures
        s.run_command(ModuleCommand::GetLayouts) == (EwmView {
            module: ModuleView {
                events: s.module.events.push(
                    EventView::Layouts {
                        layouts: s.xkb_layout_names,
                        current: s.xkb_current_layout,
                    },
                ),
                ..s.module
            },
            ..s
        }),
{
}

/// A state report and an activation token are for the display side to make, and
/// a text for the clipboard is offered as plain text, in the order of
/// preference.
pub proof fn lemma_display_side_commands(s: EwmView, text: String)
    ensures
        s.run_command(ModuleCommand::GetState) == (EwmView {
            actions: s.actions.push(ActionView::ReportState),
            ..s
        }),
        s.run_command(ModuleCommand::CreateActivationToken) == (EwmView {
            actions: s.actions.push(ActionView::CreateActivationToken),
            ..s
        }),
        s.run_command(ModuleCommand::SetSelection { text }) == (EwmView {
            actions: s.actions.push(
                ActionView::SetSelection {
                    mime_types: seq![
                        "text/plain;charset=utf-8"@,
                        "text/plain"@,
                        "UTF8_STRING"@,
                    ],
                    text: text@,
                },
            ),
            ..s
        }),
{
}

} // verus!
