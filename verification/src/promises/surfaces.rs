//! Toplevels: how they come and go, and what Emacs is told of them.
use vstd::prelude::*;

use crate::action::ActionView;
use crate::event::EventView;
use crate::ewm::EwmView;
use crate::geometry::Point;
use crate::promises::commands::{lemma_first_with_name, lemma_mapped_window_is_found, put_on_top};
use crate::space::WindowHandle;
use crate::surfaces::app_name;

verus! {

/// A description of an application's surface that is not empty and differs from
/// the stored one, in the name or in the title, is stored and told to Emacs.
pub proof fn lemma_new_description_is_told(
    s: EwmView,
    window: WindowHandle,
    app: Seq<char>,
    title: Seq<char>,
)
    requires
        s.space.element_location(window) is Some,
        s.window_ids.contains_key(window),
        !s.emacs_surfaces.contains(s.window_ids[window]),
        app.len() > 0 || title.len() > 0,
        ({
            let id = s.window_ids[window];
            !s.surface_info.contains_key(id) || s.surface_info[id].app_id != app
                || s.surface_info[id].title != title
        }),
    ensures
        ({
            let id = s.window_ids[window];
            let t = s.surface_described(window, app, title);
            &&& t.surface_info.contains_key(id)
            &&& t.surface_info[id].app_id == app
            &&& t.surface_info[id].title == title
            &&& t.module.events == s.module.events.push(EventView::Title { id, app, title })
            &&& forall|other: u32| #[trigger]
                t.surface_info.contains_key(other) && other != id ==> s.surface_info.contains_key(
                    other,
                ) && t.surface_info[other] == s.surface_info[other]
            &&& t.actions == s.actions
            &&& t.space == s.space
        }),
{
}

/// A description that is empty, that is stored already, that belongs to Emacs,
/// or to no window of the space, changes nothing and is not told.
pub proof fn lemma_old_description_is_not_told(
    s: EwmView,
    window: WindowHandle,
    app: Seq<char>,
    title: Seq<char>,
)
    requires
        ({
            ||| s.space.element_location(window) is None
            ||| !s.window_ids.contains_key(window)
            ||| s.emacs_surfaces.contains(s.window_ids[window])
            ||| app.len() == 0 && title.len() == 0
            ||| {
                let id = s.window_ids[window];
                s.surface_info.contains_key(id) && s.surface_info[id].app_id == app
                    && s.surface_info[id].title == title
            }
        }),
    ensures
        s.surface_described(window, app, title) == s,
{
}

/// Two different descriptions in a row are both told, in their order, and the
/// second is the one that stays; the same description twice is told once.
pub proof fn lemma_descriptions_in_a_row(
    s: EwmView,
    window: WindowHandle,
    app: Seq<char>,
    title: Seq<char>,
    later: Seq<char>,
)
    requires
        s.space.element_location(window) is Some,
        s.window_ids.contains_key(window),
        !s.emacs_surfaces.contains(s.window_ids[window]),
        app.len() > 0,
        !s.surface_info.contains_key(s.window_ids[window])
            || s.surface_info[s.window_ids[window]].title != title,
        later != title,
    ensures
        ({
            let id = s.window_ids[window];
            let once = s.surface_described(window, app, title);
            let twice = once.surface_described(window, app, later);
            &&& once.surface_described(window, app, title) == once
            &&& twice.surface_info[id].title == later
            &&& twice.module.events == s.module.events.push(
                EventView::Title { id, app, title },
            ).push(EventView::Title { id, app, title: later })
        }),
{
    let once = s.surface_described(window, app, title);
    lemma_new_description_is_told(s, window, app, title);
    lemma_new_description_is_told(once, window, app, later);
    lemma_old_description_is_not_told(once, window, app, title);
}

/// The name of an application is the one that it gave itself; only without one
/// the name of its process counts, and only without that it is not known.
pub proof fn lemma_application_names(app_id: Seq<char>, comm: Option<Seq<char>>)
    ensures
        app_name(Some(app_id), comm) == app_id,
        comm is Some ==> app_name(None, comm) == crate::text::trim(comm->0),
        comm is None ==> app_name(None, comm) == "unknown"@,
{
}

/// A new toplevel gets the next id, which then is used up, is found by it and
/// by its window, and Emacs is told of it last: with the id, the name of the
/// application, and an output.
pub proof fn lemma_new_toplevel_is_known(
    s: EwmView,
    window: WindowHandle,
    pid: Option<i32>,
    app: Seq<char>,
)
    requires
        s.next_surface_id < u32::MAX,
    ensures
        ({
            let t = s.new_toplevel(window, pid, app);
            let id = s.next_surface_id;
            &&& t.next_surface_id == id + 1
            &&& t.window_ids == s.window_ids.insert(window, id)
            &&& t.id_windows == s.id_windows.insert(id, window)
            &&& t.module.events.len() == s.module.events.len() + 1
            &&& t.module.events.drop_last() == s.module.events
            &&& t.module.events.last() matches EventView::New { id: told, app: name, output }
                && told == id && name == app && (s.module.pending_frame_outputs.len() > 0
                ==> output == Some(s.module.pending_frame_outputs[0]))
            &&& t.surface_views == s.surface_views
            &&& t.focused_surface_id == s.focused_surface_id
            &&& t.keyboard_focus == s.keyboard_focus
        }),
{
    let t = s.new_toplevel(window, pid, app);
    assert(t.module.events.drop_last() =~= s.module.events);
}

/// A toplevel is one of Emacs exactly where its client is the process that Emacs
/// runs in. Only the descriptions of other applications are kept.
pub proof fn lemma_toplevels_of_emacs(
    s: EwmView,
    window: WindowHandle,
    pid: Option<i32>,
    app: Seq<char>,
)
    requires
        s.next_surface_id < u32::MAX,
        !s.emacs_surfaces.contains(s.next_surface_id),
        s.emacs_pid matches Some(p) ==> p <= i32::MAX,
    ensures
        ({
            let t = s.new_toplevel(window, pid, app);
            let id = s.next_surface_id;
            let is_emacs = s.emacs_pid is Some && pid is Some && s.emacs_pid->0 as int == pid->0;
            &&& t.emacs_surfaces.contains(id) <==> is_emacs
            &&& forall|other: u32|
                other != id ==> (#[trigger] t.emacs_surfaces.contains(other)
                    <==> s.emacs_surfaces.contains(other))
            &&& !is_emacs ==> t.surface_info.contains_key(id) && t.surface_info[id].app_id == app
                && t.surface_info[id].title.len() == 0
            &&& is_emacs ==> t.surface_info == s.surface_info
        }),
{
}

/// A new toplevel is told to fill all outputs, and the scale of the first one;
/// an application then waits off all outputs until Emacs places it.
pub proof fn lemma_new_application_waits(
    s: EwmView,
    window: WindowHandle,
    pid: Option<i32>,
    app: Seq<char>,
)
    requires
        s.next_surface_id < u32::MAX,
        s.module.pending_frame_outputs.len() == 0,
    ensures
        ({
            let t = s.new_toplevel(window, pid, app);
            let at = Point { x: (-10000) as i32, y: (-10000) as i32 };
            &&& put_on_top(s.space, t.space, window, at)
            &&& t.space.element_location(window) == Some(at)
            &&& t.actions == s.actions + (if s.space.outputs.len() > 0 {
                seq![
                    ActionView::ConfigureNew { window, w: s.output_size.w, h: s.output_size.h },
                    ActionView::SendScale { surface: window, output: s.space.outputs[0].handle },
                    ActionView::Place {
                        window,
                        x: (-10000) as i32,
                        y: (-10000) as i32,
                        activate: false,
                    },
                ]
            } else {
                seq![
                    ActionView::ConfigureNew { window, w: s.output_size.w, h: s.output_size.h },
                    ActionView::Place {
                        window,
                        x: (-10000) as i32,
                        y: (-10000) as i32,
                        activate: false,
                    },
                ]
            })
            &&& t.output_state == s.output_state
        }),
{
    let t = s.new_toplevel(window, pid, app);
    lemma_mapped_window_is_found(
        s.space,
        window,
        Point { x: (-10000) as i32, y: (-10000) as i32 },
        0,
    );
    if s.space.outputs.len() > 0 {
        assert(t.actions =~= s.actions + seq![
            ActionView::ConfigureNew { window, w: s.output_size.w, h: s.output_size.h },
            ActionView::SendScale { surface: window, output: s.space.outputs[0].handle },
            ActionView::Place {
                window,
                x: (-10000) as i32,
                y: (-10000) as i32,
                activate: false,
            },
        ]);
    } else {
        assert(t.actions =~= s.actions + seq![
            ActionView::ConfigureNew { window, w: s.output_size.w, h: s.output_size.h },
            ActionView::Place {
                window,
                x: (-10000) as i32,
                y: (-10000) as i32,
                activate: false,
            },
        ]);
    }
}

/// A frame that Emacs announced goes to the free area of its output, at its
/// corner and with its size, and is no longer waited for.
pub proof fn lemma_announced_frame_fills_its_output(
    s: EwmView,
    window: WindowHandle,
    pid: Option<i32>,
    app: Seq<char>,
    i: int,
)
    requires
        s.next_surface_id < u32::MAX,
        s.module.pending_frame_outputs.len() > 0,
        0 <= i < s.space.outputs.len(),
        s.space.outputs[i].name == s.module.pending_frame_outputs[0],
        forall|j: int|
            0 <= j < i ==> (#[trigger] s.space.outputs[j]).name
                != s.module.pending_frame_outputs[0],
        i32::MIN <= s.space.outputs[i].loc.x + s.space.outputs[i].zone.loc.x <= i32::MAX,
        i32::MIN <= s.space.outputs[i].loc.y + s.space.outputs[i].zone.loc.y <= i32::MAX,
    ensures
        ({
            let t = s.new_toplevel(window, pid, app);
            let o = s.space.outputs[i];
            let at = t.space.element_location(window);
            &&& at is Some
            &&& at->0.x == o.loc.x + o.zone.loc.x
            &&& at->0.y == o.loc.y + o.zone.loc.y
            &&& put_on_top(s.space, t.space, window, at->0)
            &&& t.actions.last() == (ActionView::Configure {
                window,
                w: o.zone.size.w,
                h: o.zone.size.h,
            })
            &&& t.actions[t.actions.len() - 2] == (ActionView::Place {
                window,
                x: at->0.x,
                y: at->0.y,
                activate: false,
            })
            &&& t.module.pending_frame_outputs == s.module.pending_frame_outputs.drop_first()
        }),
{
    let name = s.module.pending_frame_outputs[0];
    let o = s.space.outputs[i];
    lemma_first_with_name(s.space, name, i);
    lemma_mapped_window_is_found(s.space, window, o.loc.offset_spec(o.zone.loc), 0);
}

/// A toplevel that is destroyed is forgotten: neither its id nor its window lead
/// to anything any more, it is off the space, and Emacs is told last that it is
/// closed. Nothing about any other surface changes.
pub proof fn lemma_destroyed_toplevel_is_forgotten(
    s: EwmView,
    window: WindowHandle,
    other: u32,
    beside: WindowHandle,
)
    requires
        s.space.element_location(window) is Some,
        s.window_ids.contains_key(window),
    ensures
        ({
            let t = s.toplevel_gone(window);
            let id = s.window_ids[window];
            &&& !t.window_ids.contains_key(window)
            &&& !t.id_windows.contains_key(id)
            &&& !t.surface_info.contains_key(id)
            &&& !t.surface_views.contains_key(id)
            &&& !t.emacs_surfaces.contains(id)
            &&& t.space.element_location(window) is None
            &&& t.module.events == s.module.events.push(EventView::Close { id })
            &&& t.actions == s.actions.push(ActionView::Remove { window })
            &&& t.next_surface_id == s.next_surface_id
            &&& other != id ==> {
                &&& t.id_windows.contains_key(other) == s.id_windows.contains_key(other)
                &&& s.id_windows.contains_key(other) ==> t.id_windows[other] == s.id_windows[other]
                &&& t.surface_info.contains_key(other) == s.surface_info.contains_key(other)
                &&& s.surface_info.contains_key(other) ==> t.surface_info[other]
                    == s.surface_info[other]
                &&& t.surface_views.contains_key(other) == s.surface_views.contains_key(other)
                &&& s.surface_views.contains_key(other) ==> t.surface_views[other]
                    == s.surface_views[other]
                &&& t.emacs_surfaces.contains(other) == s.emacs_surfaces.contains(other)
            }
            &&& beside != window ==> t.space.element_location(beside) == s.space.element_location(
                beside,
            )
        }),
{
    lemma_mapped_window_is_found(s.space, window, Point { x: 0, y: 0 }, beside);
}

/// The focus moves on only from a toplevel that had it: to a surface of Emacs
/// on the same output where there is one, and else to surface 1.
pub proof fn lemma_focus_moves_on(s: EwmView, window: WindowHandle, r: Option<u32>)
    requires
        s.toplevel_gone_to(window, r),
    ensures
        s.space.element_location(window) is None || !s.window_ids.contains_key(window)
            || s.focused_surface_id != s.window_ids[window] ==> r is None,
        s.space.element_location(window) is Some && s.window_ids.contains_key(window)
            && s.focused_surface_id == s.window_ids[window] ==> {
            let t = s.toplevel_gone(window);
            let output = s.surface_output(s.window_ids[window]);
            &&& r is Some
            &&& (exists|id: u32| #[trigger]
                t.emacs_surfaces.contains(id) && output is Some && t.surface_output(id) == output)
                ==> t.emacs_surfaces.contains(r->0) && t.surface_output(r->0) == output
            &&& !(exists|id: u32| #[trigger]
                t.emacs_surfaces.contains(id) && output is Some && t.surface_output(id) == output)
                ==> r == Some(1u32)
        },
{
    if s.space.element_location(window) is Some && s.window_ids.contains_key(window)
        && s.focused_surface_id == s.window_ids[window] {
        let t = s.toplevel_gone(window);
        let output = s.surface_output(s.window_ids[window]);
        if exists|id: u32| #[trigger]
            t.emacs_surfaces.contains(id) && output is Some && t.surface_output(id) == output {
            let id = choose|id: u32| #[trigger]
                t.emacs_surfaces.contains(id) && output is Some && t.surface_output(id) == output;
            assert(t.emacs_surface_on(output->0, id));
        }
        if output is Some && exists|id: u32| t.emacs_surface_on(output->0, id) {
            let id = choose|id: u32| t.emacs_surface_on(output->0, id);
            assert(t.emacs_surfaces.contains(id));
        }
    }
}

} // verus!
