//! The compositor as a program of its own.
use vstd::prelude::*;

use crate::action::ActionView;
use crate::geometry::{Point, Size};
use crate::output::{initial_mode_spec, VideoMode};
use crate::promises::commands::{lemma_mapped_window_is_found, put_on_top};
use crate::space::{Placed, WindowHandle};
use crate::standalone::drm_backend::{first_display, names_display, Display, DrmStateView, InitError};
use crate::standalone::{parsed_keys, Command, IpcEventView, KeyPress, ProgramEvent, StandaloneView};

verus! {

/// The first toplevel is Emacs and fills the output; Emacs is told of every
/// other one, which waits out of sight. A toplevel is found by its id from then
/// on, and told the size of the output.
pub proof fn lemma_toplevel_of_the_program(s: StandaloneView, window: WindowHandle, app: Seq<char>)
    requires
        s.next_surface_id < u32::MAX,
    ensures
        ({
            let t = s.new_toplevel(window, app);
            let id = s.next_surface_id;
            let at = t.space.element_location(window);
            &&& t.next_surface_id == id + 1
            &&& t.id_windows == s.id_windows.insert(id, window)
            &&& t.window_ids == s.window_ids.insert(window, id)
            &&& at is Some
            &&& put_on_top(s.space, t.space, window, at->0)
            &&& id == 1 ==> at->0.x == 0 && at->0.y == 0 && t.pending_events == s.pending_events
            &&& id != 1 ==> at->0.x == -10000 && at->0.y == -10000 && t.pending_events
                == s.pending_events.push(IpcEventView::New { id, app })
            &&& t.actions == s.actions.push(
                ActionView::ConfigureNew { window, w: s.output_size.w, h: s.output_size.h },
            ).push(ActionView::Place { window, x: at->0.x, y: at->0.y, activate: false })
            &&& t.focused_surface_id == s.focused_surface_id
        }),
{
    lemma_mapped_window_is_found(s.space, window, Point { x: 0, y: 0 }, 0);
    lemma_mapped_window_is_found(
        s.space,
        window,
        Point { x: (-10000) as i32, y: (-10000) as i32 },
        0,
    );
}

/// A toplevel that goes is forgotten, and Emacs is told.
pub proof fn lemma_toplevel_of_the_program_goes(s: StandaloneView, window: WindowHandle)
    requires
        s.space.element_location(window) is Some,
        s.window_ids.contains_key(window),
    ensures
        ({
            let t = s.toplevel_destroyed(window);
            let id = s.window_ids[window];
            &&& t.space.element_location(window) is None
            &&& t.window_ids == s.window_ids.remove(window)
            &&& t.id_windows == s.id_windows.remove(id)
            &&& t.pending_events == s.pending_events.push(IpcEventView::Close { id })
            &&& t.actions == s.actions.push(ActionView::Remove { window })
            &&& t.running == s.running
        }),
{
    lemma_mapped_window_is_found(s.space, window, Point { x: 0, y: 0 }, 0);
}

/// A key that is pressed with Super and Ctrl held and is Backspace ends the
/// program; one that is a prefix key goes to Emacs where another surface has the
/// focus; all others, and all that are released, go to the focused surface.
pub proof fn lemma_keys_of_the_program(s: StandaloneView, ev: KeyPress)
    ensures
        ({
            let prefix = exists|i: int|
                0 <= i < s.prefix_keys.len() && crate::keys::key_matches(
                    (#[trigger] s.prefix_keys[i]).keysym,
                    s.prefix_keys[i].mods(),
                    ev.keysym,
                    ev.mods,
                );
            let ends = ev.pressed && ev.keysym == 0xff08 && ev.mods.ctrl && ev.mods.logo;
            let goes = ev.pressed && !ends && prefix && s.focused_surface_id != 1;
            &&& s.key_action(ev) is Shutdown <==> ends
            &&& s.key_action(ev) is RedirectToEmacs <==> goes
            &&& s.key_action(ev) is Forward <==> !ends && !goes
        }),
{
}

/// A key that goes to Emacs takes the focus and the keyboard there and is sent
/// again; one that goes to the focused surface finds the keyboard there; one
/// that ends the program changes nothing else.
pub proof fn lemma_focus_after_a_key(s: StandaloneView, ev: KeyPress)
    ensures
        ({
            let t = s.after_key(ev);
            &&& s.key_action(ev) is Shutdown ==> t == s
            &&& s.key_action(ev) is RedirectToEmacs ==> {
                &&& t.focused_surface_id == 1
                &&& s.id_windows.contains_key(1) ==> {
                    let surface = Some(s.id_windows[1]);
                    &&& t.keyboard_focus == surface
                    &&& t.actions == s.actions.push(
                        ActionView::SetKeyboardFocus { surface },
                    ).push(ActionView::ResendKey)
                }
            }
            &&& s.key_action(ev) is Forward ==> {
                let id = s.focused_surface_id;
                &&& t.focused_surface_id == id
                &&& s.id_windows.contains_key(id) ==> t.keyboard_focus == Some(s.id_windows[id])
                &&& !s.id_windows.contains_key(id) ==> t == s
                &&& s.id_windows.contains_key(id) && s.keyboard_focus == Some(s.id_windows[id])
                    ==> t == s
                &&& t.keyboard_focus != s.keyboard_focus ==> t.actions == s.actions.push(
                    ActionView::SetKeyboardFocus { surface: t.keyboard_focus },
                )
            }
        }),
{
}

/// The program ends with Emacs, with its window, and with the key that ends it,
/// and not otherwise.
pub proof fn lemma_when_the_program_ends(s: StandaloneView, event: ProgramEvent)
    requires
        s.running,
    ensures
        !s.handled(event).running <==> match event {
            ProgramEvent::EmacsExited => true,
            ProgramEvent::CloseRequested => true,
            ProgramEvent::Key { event } => event.pressed && event.keysym == 0xff08
                && event.mods.ctrl && event.mods.logo,
            _ => false,
        },
{
    match event {
        ProgramEvent::Resized { size } => {
            lemma_all_configured(
                StandaloneView { output_size: size, ..s },
                s.space.elements,
                size,
            );
        },
        _ => {},
    }
}

proof fn lemma_all_configured(s: StandaloneView, elements: Seq<Placed>, size: Size)
    ensures
        ({
            let t = s.configure_all(elements, size);
            &&& t == (StandaloneView { actions: t.actions, ..s })
            &&& t.actions.len() == s.actions.len() + elements.len()
            &&& forall|k: int|
                0 <= k < elements.len() ==> #[trigger] t.actions[s.actions.len() + k] == (
                ActionView::Configure { window: elements[k].window, w: size.w, h: size.h })
            &&& forall|k: int| 0 <= k < s.actions.len() ==> #[trigger] t.actions[k] == s.actions[k]
        }),
    decreases elements.len(),
{
    if elements.len() > 0 {
        let rest = elements.drop_last();
        lemma_all_configured(s, rest, size);
        let t = s.configure_all(elements, size);
        assert forall|k: int| 0 <= k < elements.len() implies #[trigger] t.actions[s.actions.len()
            + k] == (ActionView::Configure { window: elements[k].window, w: size.w, h: size.h }) by {
            if k < rest.len() {
                assert(t.actions[s.actions.len() + k] == s.configure_all(
                    rest,
                    size,
                ).actions[s.actions.len() + k]);
            }
        }
    }
}

/// A new size of the program's window is the size of the output, and every
/// window is told it.
pub proof fn lemma_program_resized(s: StandaloneView, size: Size)
    ensures
        ({
            let t = s.resized(size);
            &&& t.output_size == size
            &&& t.actions.len() == s.actions.len() + s.space.elements.len()
            &&& forall|k: int|
                0 <= k < s.space.elements.len() ==> #[trigger] t.actions[s.actions.len() + k] == (
                ActionView::Configure {
                    window: s.space.elements[k].window,
                    w: size.w,
                    h: size.h,
                })
            &&& t.space == s.space
        }),
{
    lemma_all_configured(StandaloneView { output_size: size, ..s }, s.space.elements, size);
}

/// A window is shown where Emacs says, in front of all others, active, and with
/// the size that Emacs says.
pub proof fn lemma_program_layout(s: StandaloneView, id: u32, x: i32, y: i32, w: u32, h: u32)
    requires
        s.id_windows.contains_key(id),
        w <= i32::MAX,
        h <= i32::MAX,
    ensures
        ({
            let t = s.run(Command::Layout { id, x, y, w, h });
            let window = s.id_windows[id];
            let n = s.actions.len() as int;
            &&& t.space.element_location(window) is Some
            &&& t.space.element_location(window)->0.x == x
            &&& t.space.element_location(window)->0.y == y
            &&& put_on_top(s.space, t.space, window, t.space.element_location(window)->0)
            &&& t.actions.len() == n + 3
            &&& t.actions[n] == (ActionView::Place { window, x, y, activate: true })
            &&& t.actions[n + 1] == (ActionView::Raise { window, activate: true })
            &&& t.actions[n + 2] matches ActionView::Configure { window: told, w: cw, h: ch }
                && told == window && cw == w && ch == h
        }),
{
    lemma_mapped_window_is_found(s.space, s.id_windows[id], Point { x, y }, 0);
}

/// A window that is hidden is out of sight, and told nothing.
pub proof fn lemma_program_hide(s: StandaloneView, id: u32)
    requires
        s.id_windows.contains_key(id),
    ensures
        ({
            let t = s.run(Command::Hide { id });
            let at = t.space.element_location(s.id_windows[id]);
            &&& at is Some && at->0.x == -10000 && at->0.y == -10000
            &&& t.actions.last() == (ActionView::Place {
                window: s.id_windows[id],
                x: at->0.x,
                y: at->0.y,
                activate: false,
            })
            &&& t.actions.len() == s.actions.len() + 1
        }),
{
    lemma_mapped_window_is_found(
        s.space,
        s.id_windows[id],
        Point { x: (-10000) as i32, y: (-10000) as i32 },
        0,
    );
}

/// A window is asked to close, and nothing else; the focus goes where Emacs
/// says, and the keyboard with it where there is such a surface. A screenshot is
/// saved where Emacs says, or else in the place for temporary files.
pub proof fn lemma_other_program_commands(s: StandaloneView, cmd: Command)
    ensures
        match cmd {
            Command::Close { id } => s.id_windows.contains_key(id) ==> s.run(cmd) == (
            StandaloneView {
                actions: s.actions.push(ActionView::SendClose { window: s.id_windows[id] }),
                ..s
            }),
            Command::Focus { id } => {
                let t = s.run(cmd);
                &&& t.focused_surface_id == id
                &&& s.id_windows.contains_key(id) ==> t.keyboard_focus == Some(s.id_windows[id])
                    && t.actions == s.actions.push(
                    ActionView::SetKeyboardFocus { surface: t.keyboard_focus },
                )
                &&& !s.id_windows.contains_key(id) ==> t.keyboard_focus == s.keyboard_focus
                    && t.actions == s.actions
            },
            Command::Screenshot { path } => {
                let t = s.run(cmd);
                &&& path is Some ==> t.screenshot_path == Some(path->0@)
                &&& path is None ==> t.screenshot_path == Some("/tmp/ewm-screenshot.png"@)
                &&& t.actions == s.actions
            },
            Command::Layout { id, .. } => !s.id_windows.contains_key(id) ==> s.run(cmd) == s,
            Command::Hide { id } => !s.id_windows.contains_key(id) ==> s.run(cmd) == s,
            Command::PrefixKeys { .. } => s.run(cmd).actions == s.actions,
        },
        cmd matches Command::Close { id } && !s.id_windows.contains_key(id) ==> s.run(cmd) == s,
{
}

/// The prefix keys are those that the descriptions stand for, in their order;
/// what describes no key is left out.
pub proof fn lemma_described_prefix_keys(a: Seq<Seq<char>>, b: Seq<Seq<char>>, text: Seq<char>)
    ensures
        parsed_keys(a + b) == parsed_keys(a) + parsed_keys(b),
        match crate::keys::parse_key(text, crate::keys::no_modifiers()) {
            Some(k) => parsed_keys(seq![text]) == seq![k],
            None => parsed_keys(seq![text]).len() == 0,
        },
    decreases b.len(),
{
    let one = seq![text];
    reveal_with_fuel(parsed_keys, 2);
    assert(one.drop_last() =~= Seq::<Seq<char>>::empty());
    assert(one.last() == text);
    if let Some(k) = crate::keys::parse_key(text, crate::keys::no_modifiers()) {
        assert(parsed_keys(one) =~= seq![k]);
    }
    if b.len() == 0 {
        assert(a + b =~= a);
        assert(parsed_keys(a) + parsed_keys(b) =~= parsed_keys(a));
    } else {
        lemma_described_prefix_keys(a, b.drop_last(), text);
        assert((a + b).drop_last() =~= a + b.drop_last());
        assert((a + b).last() == b.last());
        assert(parsed_keys(a + b) =~= parsed_keys(a) + parsed_keys(b));
    }
}

/// Keys that are held down are released one by one, and the keyboard leaves all
/// windows; where none is held down nothing happens.
pub proof fn lemma_program_releases_keys(s: StandaloneView, pressed: Seq<u32>)
    ensures
        ({
            let t = s.release_all(pressed);
            &&& pressed.len() == 0 ==> t == s
            &&& pressed.len() > 0 ==> {
                &&& t.keyboard_focus is None
                &&& t.actions.len() == s.actions.len() + pressed.len() + 1
                &&& forall|k: int|
                    0 <= k < pressed.len() ==> #[trigger] t.actions[s.actions.len() + k] == (
                    ActionView::ReleaseKey { keycode: pressed[k] })
                &&& t.actions.last() == (ActionView::SetKeyboardFocus { surface: None })
            }
        }),
{
    lemma_released(s, pressed);
}

proof fn lemma_released(s: StandaloneView, pressed: Seq<u32>)
    ensures
        ({
            let t = s.release(pressed);
            &&& t == (StandaloneView { actions: t.actions, ..s })
            &&& t.actions.len() == s.actions.len() + pressed.len()
            &&& forall|k: int|
                0 <= k < pressed.len() ==> #[trigger] t.actions[s.actions.len() + k] == (
                ActionView::ReleaseKey { keycode: pressed[k] })
        }),
    decreases pressed.len(),
{
    if pressed.len() > 0 {
        let rest = pressed.drop_last();
        lemma_released(s, rest);
        let t = s.release(pressed);
        assert forall|k: int| 0 <= k < pressed.len() implies #[trigger] t.actions[s.actions.len()
            + k] == (ActionView::ReleaseKey { keycode: pressed[k] }) by {
            if k < rest.len() {
                assert(t.actions[s.actions.len() + k] == s.release(rest).actions[s.actions.len()
                    + k]);
            }
        }
    }
}

/// Of the displays the first that is connected is used, with its CRTC and its
/// best mode; where it has none of either that is the error, and where none is
/// connected nothing is.
pub proof fn lemma_display_of_the_program(v: Seq<Display>)
    ensures
        (forall|j: int| 0 <= j < v.len() ==> !(#[trigger] v[j]).connected) ==> first_display(v)
            == Ok::<Option<(u32, VideoMode, u64)>, InitError>(None),
        forall|i: int|
            0 <= i < v.len() && (#[trigger] v[i]).connected && (forall|j: int|
                0 <= j < i ==> !(#[trigger] v[j]).connected) ==> {
                &&& v[i].crtc is None ==> first_display(v) == Err::<
                    Option<(u32, VideoMode, u64)>,
                    InitError,
                >(InitError::NoCrtc)
                &&& v[i].crtc is Some && initial_mode_spec(v[i].modes@) is None ==> first_display(v)
                    == Err::<Option<(u32, VideoMode, u64)>, InitError>(InitError::NoMode)
                &&& v[i].crtc is Some && initial_mode_spec(v[i].modes@) is Some ==> first_display(v)
                    == Ok::<Option<(u32, VideoMode, u64)>, InitError>(
                    Some((v[i].crtc->0, initial_mode_spec(v[i].modes@)->0, v[i].output)),
                )
            },
    decreases v.len(),
{
    if v.len() > 0 {
        let rest = v.drop_first();
        lemma_display_of_the_program(rest);
        if forall|j: int| 0 <= j < v.len() ==> !(#[trigger] v[j]).connected {
            assert(!v[0].connected);
            assert forall|j: int| 0 <= j < rest.len() implies !(#[trigger] rest[j]).connected by {
                assert(!v[j + 1].connected);
            }
        }
        assert forall|i: int|
            0 <= i < v.len() && (#[trigger] v[i]).connected && (forall|j: int|
                0 <= j < i ==> !(#[trigger] v[j]).connected) implies {
            &&& v[i].crtc is None ==> first_display(v) == Err::<
                Option<(u32, VideoMode, u64)>,
                InitError,
            >(InitError::NoCrtc)
            &&& v[i].crtc is Some && initial_mode_spec(v[i].modes@) is None ==> first_display(v)
                == Err::<Option<(u32, VideoMode, u64)>, InitError>(InitError::NoMode)
            &&& v[i].crtc is Some && initial_mode_spec(v[i].modes@) is Some ==> first_display(v)
                == Ok::<Option<(u32, VideoMode, u64)>, InitError>(
                Some((v[i].crtc->0, initial_mode_spec(v[i].modes@)->0, v[i].output)),
            )
        } by {
            if i > 0 {
                assert(!v[0].connected);
                assert(rest[i - 1] == v[i]);
                assert forall|j: int| 0 <= j < i - 1 implies !(
                #[trigger] rest[j]).connected by {
                    assert(!v[j + 1].connected);
                }
            }
        }
    }
}

/// A display is drawn exactly where it is set up, the session is not paused and
/// the device is active; the timer draws all of them, where a frame is due.
pub proof fn lemma_when_displays_are_drawn(s: DrmStateView, crtc: u32, active: bool)
    ensures
        s.can_render(crtc, active) <==> !s.paused && active && s.device is Some
            && s.device->0.contains(crtc),
        s.due().contains(crtc) <==> !s.paused && s.needs_redraw && s.device is Some
            && s.device->0.contains(crtc),
{
}

/// A variable names a display where it is set to something.
pub proof fn lemma_named_displays(value: Option<Seq<char>>)
    ensures
        !names_display(value) <==> value is None || value == Some(Seq::<char>::empty()),
{
    if value is Some && value->0.len() == 0 {
        assert(value->0 =~= Seq::<char>::empty());
    }
}

/// The display that is set up gives the output its size, from the origin.
pub proof fn lemma_display_gives_the_size(s: StandaloneView, mode: VideoMode, output: u64)
    ensures
        ({
            let t = s.display_found(mode, output);
            &&& t.output_size.w == mode.width
            &&& t.output_size.h == mode.height
            &&& t.actions == s.actions.push(ActionView::MapOutput { output, x: 0, y: 0 })
        }),
{
}

/// The state at the start: nothing is shown, and Emacs, which comes first, has
/// the focus.
pub proof fn lemma_program_at_the_start()
    ensures
        ({
            let s = StandaloneView::initial();
            &&& s.running
            &&& s.next_surface_id == 1 && s.focused_surface_id == 1
            &&& s.output_size.w == 800 && s.output_size.h == 600
            &&& s.space.elements.len() == 0
            &&& s.keyboard_focus is None
        }),
{
}

} // verus!
