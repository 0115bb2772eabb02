//! The standalone program: a compositor that starts Emacs and talks to it
//! over a socket. Surface 1 is Emacs.
//!
//! Events and commands are lines of JSON; the program around the library
//! turns them into values and back.
use vstd::prelude::*;

pub mod drm_backend;

use std::collections::HashMap;

use crate::action::{action_views, Action, ActionView};
use crate::backend::winit::FrameStep;
use crate::event::text_view;
use crate::geometry::{Point, Size};
use crate::keys::{key_matches, no_modifiers, parse_key, Modifiers, PrefixKey};
use crate::space::{Placed, Space, SpaceView, WindowHandle};
use crate::surfaces::OFFSCREEN;
use crate::text::{owned, views};

verus! {

/// The surface of Emacs: the first one.
pub const EMACS: u32 = 1;

/// An event for Emacs.
#[derive(Debug)]
pub enum IpcEvent {
    New { id: u32, app: String },
    Close { id: u32 },
}

/// What an [`IpcEvent`] holds.
#[verifier::ext_equal]
pub enum IpcEventView {
    New { id: u32, app: Seq<char> },
    Close { id: u32 },
}

impl View for IpcEvent {
    type V = IpcEventView;

    open spec fn view(&self) -> IpcEventView {
        match self {
            IpcEvent::New { id, app } => IpcEventView::New { id: *id, app: app@ },
            IpcEvent::Close { id } => IpcEventView::Close { id: *id },
        }
    }
}

/// What a list of events holds.
pub open spec fn ipc_views(v: Seq<IpcEvent>) -> Seq<IpcEventView> {
    Seq::new(v.len(), |i: int| v[i]@)
}

/// A command of Emacs.
#[derive(Debug)]
pub enum Command {
    Layout { id: u32, x: i32, y: i32, w: u32, h: u32 },
    Hide { id: u32 },
    Close { id: u32 },
    Focus { id: u32 },
    Screenshot { path: Option<String> },
    PrefixKeys { keys: Vec<String> },
}

/// What comes of a key event.
#[derive(Debug, Clone, Copy, PartialEq, Eq, Structural)]
pub enum KeyboardAction {
    /// The key goes to the focused surface.
    Forward,
    /// A prefix key: the focus went to Emacs.
    RedirectToEmacs,
    /// The kill combination: the compositor is to stop.
    Shutdown,
}

/// A key event, as the keyboard library tells it.
#[derive(Debug, Clone, Copy)]
pub struct KeyPress {
    pub pressed: bool,
    /// The keysym with the modifiers taken into account.
    pub keysym: u32,
    pub mods: Modifiers,
}

/// An event of the loop.
#[derive(Debug)]
pub enum ProgramEvent {
    /// Emacs exited.
    EmacsExited,
    /// The compositor's window is to be closed.
    CloseRequested,
    /// The compositor's window got another size.
    Resized { size: Size },
    /// A key was pressed or released.
    Key { event: KeyPress },
    /// Emacs sent a command.
    Command { command: Command },
}

/// Whether the key is the kill combination: Super, Ctrl and Backspace.
pub fn is_kill_combo(keysym: u32, ctrl: bool, logo: bool) -> (r: bool)
    ensures
        r == (keysym == 0xff08 && ctrl && logo),
{
    keysym == 0xff08 && ctrl && logo
}

/// The state of the compositor.
#[derive(Debug)]
pub struct Ewm {
    pub running: bool,
    pub space: Space,
    pub next_surface_id: u32,
    pub window_ids: HashMap<WindowHandle, u32>,
    pub id_windows: HashMap<u32, WindowHandle>,
    /// Events that were not sent yet, oldest first.
    pub pending_events: Vec<IpcEvent>,
    pub output_size: Size,
    /// The surface that has the keyboard focus.
    pub focused_surface_id: u32,
    /// Keys that go to Emacs, whatever has the focus.
    pub prefix_keys: Vec<PrefixKey>,
    pub keyboard_focus: Option<WindowHandle>,
    /// Where the next frame is to be saved.
    pub screenshot_path: Option<String>,
    /// What the display server side has to carry out, in this order.
    pub actions: Vec<Action>,
}

/// What an [`Ewm`] holds.
#[verifier::ext_equal]
pub struct StandaloneView {
    pub running: bool,
    pub space: SpaceView,
    pub next_surface_id: u32,
    pub window_ids: Map<WindowHandle, u32>,
    pub id_windows: Map<u32, WindowHandle>,
    pub pending_events: Seq<IpcEventView>,
    pub output_size: Size,
    pub focused_surface_id: u32,
    pub prefix_keys: Seq<PrefixKey>,
    pub keyboard_focus: Option<WindowHandle>,
    pub screenshot_path: Option<Seq<char>>,
    pub actions: Seq<ActionView>,
}

impl View for Ewm {
    type V = StandaloneView;

    open spec fn view(&self) -> StandaloneView {
        StandaloneView {
            running: self.running,
            space: self.space@,
            next_surface_id: self.next_surface_id,
            window_ids: self.window_ids@,
            id_windows: self.id_windows@,
            pending_events: ipc_views(self.pending_events@),
            output_size: self.output_size,
            focused_surface_id: self.focused_surface_id,
            prefix_keys: self.prefix_keys@,
            keyboard_focus: self.keyboard_focus,
            screenshot_path: text_view(self.screenshot_path),
            actions: action_views(self.actions@),
        }
    }
}

/// The keys that the descriptions stand for; what is none is left out.
pub open spec fn parsed_keys(keys: Seq<Seq<char>>) -> Seq<PrefixKey>
    decreases keys.len(),
{
    if keys.len() == 0 {
        Seq::empty()
    } else {
        let before = parsed_keys(keys.drop_last());
        match parse_key(keys.last(), no_modifiers()) {
            Some(k) => before.push(k),
            None => before,
        }
    }
}

/// Whether a key is one of the prefix keys.
pub open spec fn is_prefix_key(keys: Seq<PrefixKey>, ev: KeyPress) -> bool {
    exists|i: int|
        0 <= i < keys.len() && key_matches(
            (#[trigger] keys[i]).keysym,
            keys[i].mods(),
            ev.keysym,
            ev.mods,
        )
}

impl StandaloneView {
    /// The state at the start: no surfaces, and the focus on Emacs.
    pub open spec fn initial() -> StandaloneView {
        StandaloneView {
            running: true,
            space: SpaceView::empty(),
            next_surface_id: 1,
            window_ids: Map::empty(),
            id_windows: Map::empty(),
            pending_events: Seq::empty(),
            output_size: Size { w: 800, h: 600 },
            focused_surface_id: EMACS,
            prefix_keys: Seq::empty(),
            keyboard_focus: None,
            screenshot_path: None,
            actions: Seq::empty(),
        }
    }

    /// Every surface has one window, every window one surface, and ids are
    /// below the next one.
    pub open spec fn wf(self) -> bool {
        &&& forall|id: u32| #[trigger]
            self.id_windows.contains_key(id) ==> 1 <= id < self.next_surface_id
                && self.window_ids.contains_key(self.id_windows[id])
                && self.window_ids[self.id_windows[id]] == id
        &&& forall|w: WindowHandle| #[trigger]
            self.window_ids.contains_key(w) ==> self.id_windows.contains_key(self.window_ids[w])
                && self.id_windows[self.window_ids[w]] == w
        &&& self.next_surface_id >= 1
    }

    /// One more thing to carry out.
    pub open spec fn act(self, a: ActionView) -> StandaloneView {
        StandaloneView { actions: self.actions.push(a), ..self }
    }

    /// A window placed in the space, on top of all others.
    pub open spec fn place(
        self,
        window: WindowHandle,
        at: Point,
        activate: bool,
    ) -> StandaloneView {
        StandaloneView { space: self.space.map_element(window, at), ..self }.act(
            ActionView::Place { window, x: at.x, y: at.y, activate },
        )
    }

    /// The state after a toplevel came. Emacs fills the output, and is not
    /// told of itself; others stay out of sight until Emacs places them.
    pub open spec fn new_toplevel(self, window: WindowHandle, app: Seq<char>) -> StandaloneView {
        let id = self.next_surface_id;
        let s = StandaloneView {
            next_surface_id: (id + 1) as u32,
            window_ids: self.window_ids.insert(window, id),
            id_windows: self.id_windows.insert(id, window),
            ..self
        }.act(
            ActionView::ConfigureNew { window, w: self.output_size.w, h: self.output_size.h },
        );
        if id == EMACS {
            s.place(window, Point { x: 0, y: 0 }, false)
        } else {
            let t = s.place(window, Point { x: OFFSCREEN, y: OFFSCREEN }, false);
            StandaloneView {
                pending_events: t.pending_events.push(IpcEventView::New { id, app }),
                ..t
            }
        }
    }

    /// The state after a toplevel went.
    pub open spec fn toplevel_destroyed(self, window: WindowHandle) -> StandaloneView {
        if self.space.element_location(window) is None {
            self
        } else {
            let s = if self.window_ids.contains_key(window) {
                let id = self.window_ids[window];
                StandaloneView {
                    window_ids: self.window_ids.remove(window),
                    id_windows: self.id_windows.remove(id),
                    pending_events: self.pending_events.push(IpcEventView::Close { id }),
                    ..self
                }
            } else {
                self
            };
            StandaloneView { space: s.space.unmap_elem(window), ..s }.act(
                ActionView::Remove { window },
            )
        }
    }

    /// The windows told a size.
    pub open spec fn configure_all(self, elements: Seq<Placed>, size: Size) -> StandaloneView
        decreases elements.len(),
    {
        if elements.len() == 0 {
            self
        } else {
            self.configure_all(elements.drop_last(), size).act(
                ActionView::Configure { window: elements.last().window, w: size.w, h: size.h },
            )
        }
    }

    /// The state after the compositor's window got another size.
    pub open spec fn resized(self, size: Size) -> StandaloneView {
        StandaloneView { output_size: size, ..self }.configure_all(self.space.elements, size)
    }

    /// The keyboard focus moved to a window.
    pub open spec fn set_keyboard_focus(self, window: WindowHandle) -> StandaloneView {
        StandaloneView { keyboard_focus: Some(window), ..self }.act(
            ActionView::SetKeyboardFocus { surface: Some(window) },
        )
    }

    /// The keyboard focus moved to a surface, where there is one with this
    /// id.
    pub open spec fn restore_focus(self, id: u32) -> StandaloneView {
        if self.id_windows.contains_key(id) {
            self.set_keyboard_focus(self.id_windows[id])
        } else {
            self
        }
    }

    /// What comes of a key event.
    pub open spec fn key_action(self, ev: KeyPress) -> KeyboardAction {
        if !ev.pressed {
            KeyboardAction::Forward
        } else if ev.keysym == 0xff08 && ev.mods.ctrl && ev.mods.logo {
            KeyboardAction::Shutdown
        } else if is_prefix_key(self.prefix_keys, ev) && self.focused_surface_id != EMACS {
            KeyboardAction::RedirectToEmacs
        } else {
            KeyboardAction::Forward
        }
    }

    /// The state after a key event.
    pub open spec fn after_key(self, ev: KeyPress) -> StandaloneView {
        match self.key_action(ev) {
            KeyboardAction::Shutdown => self,
            KeyboardAction::RedirectToEmacs => {
                let s = StandaloneView { focused_surface_id: EMACS, ..self };
                if s.id_windows.contains_key(EMACS) {
                    s.set_keyboard_focus(s.id_windows[EMACS]).act(ActionView::ResendKey)
                } else {
                    s
                }
            },
            KeyboardAction::Forward => {
                let id = self.focused_surface_id;
                if self.id_windows.contains_key(id) && self.keyboard_focus != Some(
                    self.id_windows[id],
                ) {
                    self.set_keyboard_focus(self.id_windows[id])
                } else {
                    self
                }
            },
        }
    }

    /// The state after an event of the loop. It ends with Emacs, with the
    /// window, and at the kill combination.
    pub open spec fn handled(self, event: ProgramEvent) -> StandaloneView {
        match event {
            ProgramEvent::EmacsExited | ProgramEvent::CloseRequested => StandaloneView {
                running: false,
                ..self
            },
            ProgramEvent::Resized { size } => self.resized(size),
            ProgramEvent::Key { event } => {
                let s = self.after_key(event);
                StandaloneView {
                    running: s.running && !(self.key_action(event) is Shutdown),
                    ..s
                }
            },
            ProgramEvent::Command { command } => self.run(command),
        }
    }

    /// The keys of the list released.
    pub open spec fn release(self, pressed: Seq<u32>) -> StandaloneView
        decreases pressed.len(),
    {
        if pressed.len() == 0 {
            self
        } else {
            self.release(pressed.drop_last()).act(
                ActionView::ReleaseKey { keycode: pressed.last() },
            )
        }
    }

    /// All keys released and the keyboard focus cleared, where keys were held
    /// down.
    pub open spec fn release_all(self, pressed: Seq<u32>) -> StandaloneView {
        if pressed.len() == 0 {
            self
        } else {
            StandaloneView { keyboard_focus: None, ..self.release(pressed) }.act(
                ActionView::SetKeyboardFocus { surface: None },
            )
        }
    }

    /// The state after a command.
    pub open spec fn run(self, cmd: Command) -> StandaloneView {
        match cmd {
            Command::Layout { id, x, y, w, h } => if self.id_windows.contains_key(id) {
                let window = self.id_windows[id];
                self.place(window, Point { x, y }, true).act(
                    ActionView::Raise { window, activate: true },
                ).act(ActionView::Configure { window, w: w as i32, h: h as i32 })
            } else {
                self
            },
            Command::Hide { id } => if self.id_windows.contains_key(id) {
                self.place(self.id_windows[id], Point { x: OFFSCREEN, y: OFFSCREEN }, false)
            } else {
                self
            },
            Command::Close { id } => if self.id_windows.contains_key(id) {
                self.act(ActionView::SendClose { window: self.id_windows[id] })
            } else {
                self
            },
            Command::Focus { id } => StandaloneView {
                focused_surface_id: id,
                ..self
            }.restore_focus(id),
            Command::Screenshot { path } => StandaloneView {
                screenshot_path: Some(
                    match path {
                        Some(p) => p@,
                        None => "/tmp/ewm-screenshot.png"@,
                    },
                ),
                ..self
            },
            Command::PrefixKeys { keys } => StandaloneView {
                prefix_keys: parsed_keys(views(keys@)),
                ..self
            },
        }
    }
}

/// The keys that the descriptions stand for; what is none is left out.
pub fn parse_keys(keys: &Vec<String>) -> (r: Vec<PrefixKey>)
    ensures
        r@ == parsed_keys(views(keys@)),
{
    let ghost all = views(keys@);
    let mut r: Vec<PrefixKey> = Vec::new();
    let mut i: usize = 0;
    proof {
        assert(all.take(0) =~= Seq::<Seq<char>>::empty());
    }
    while i < keys.len()
        invariant
            i <= keys@.len(),
            all == views(keys@),
            r@ == parsed_keys(all.take(i as int)),
        decreases keys@.len() - i,
    {
        proof {
            assert(all.take(i + 1).drop_last() =~= all.take(i as int));
            assert(all.take(i + 1).last() == keys@[i as int]@);
        }
        if let Some(k) = PrefixKey::parse(keys[i].as_str()) {
            r.push(k);
        }
        i += 1;
    }
    proof {
        assert(all.take(i as int) =~= all);
    }
    r
}

impl Ewm {
    /// A compositor without surfaces.
    pub fn new() -> (r: Ewm)
        ensures
            r@ == StandaloneView::initial(),
    {
        let r: Ewm = Ewm {
            running: true,
            space: Space::new(),
            next_surface_id: 1,
            window_ids: HashMap::new(),
            id_windows: HashMap::new(),
            pending_events: Vec::new(),
            output_size: Size { w: 800, h: 600 },
            focused_surface_id: EMACS,
            prefix_keys: Vec::new(),
            keyboard_focus: None,
            screenshot_path: None,
            actions: Vec::new(),
        };
        proof {
            assert(r@ =~= StandaloneView::initial());
        }
        r
    }

    pub(crate) fn act(&mut self, a: Action)
        ensures
            final(self)@ == old(self)@.act(a@),
    {
        self.actions.push(a);
        proof {
            assert(self@ =~= old(self)@.act(a@));
        }
    }

    fn event(&mut self, e: IpcEvent)
        ensures
            final(self)@ == (StandaloneView {
                pending_events: old(self)@.pending_events.push(e@),
                ..old(self)@
            }),
    {
        self.pending_events.push(e);
        proof {
            assert(ipc_views(self.pending_events@) =~= old(self)@.pending_events.push(e@));
        }
    }

    fn place(&mut self, window: WindowHandle, at: Point, activate: bool)
        ensures
            final(self)@ == old(self)@.place(window, at, activate),
    {
        self.space.map_element(window, at);
        self.act(Action::Place { window, x: at.x, y: at.y, activate });
    }

    /// Takes up a new toplevel. `app_id` is what its client calls itself.
    pub fn new_toplevel(&mut self, window: WindowHandle, app_id: Option<String>)
        requires
            old(self)@.next_surface_id < u32::MAX,
        ensures
            final(self)@ == old(self)@.new_toplevel(
                window,
                match app_id {
                    Some(app) => app@,
                    None => "unknown"@,
                },
            ),
    {
        let id: u32 = self.next_surface_id;
        self.next_surface_id = id + 1;
        let app: String = match app_id {
            Some(app) => app,
            None => owned("unknown"),
        };
        self.act(
            Action::ConfigureNew { window, w: self.output_size.w, h: self.output_size.h },
        );
        self.window_ids.insert(window, id);
        self.id_windows.insert(id, window);
        if id == EMACS {
            self.place(window, Point { x: 0, y: 0 }, false);
        } else {
            self.place(window, Point { x: OFFSCREEN, y: OFFSCREEN }, false);
            self.event(IpcEvent::New { id, app });
        }
    }

    /// Takes up that a toplevel is destroyed.
    pub fn toplevel_destroyed(&mut self, window: WindowHandle)
        ensures
            final(self)@ == old(self)@.toplevel_destroyed(window),
    {
        if self.space.element_location(window).is_none() {
            return;
        }
        if let Some(id) = self.window_ids.remove(&window) {
            self.id_windows.remove(&id);
            self.event(IpcEvent::Close { id });
        } else {
            proof {
                assert(self@.window_ids =~= old(self)@.window_ids);
            }
        }
        self.space.unmap_elem(window);
        self.act(Action::Remove { window });
    }

    /// Takes up that the compositor's window got another size: every surface
    /// is told.
    pub fn resized(&mut self, size: Size)
        ensures
            final(self)@ == old(self)@.resized(size),
    {
        self.output_size = size;
        let ghost start = self@;
        let ghost all = self@.space.elements;
        let mut i: usize = 0;
        proof {
            assert(all.take(0) =~= Seq::<Placed>::empty());
        }
        while i < self.space.elements.len()
            invariant
                i <= all.len(),
                all == start.space.elements,
                self@.space == start.space,
                self@ == start.configure_all(all.take(i as int), size),
            decreases all.len() - i,
        {
            let window: WindowHandle = self.space.elements[i].window;
            proof {
                assert(all.take(i + 1).drop_last() =~= all.take(i as int));
                assert(all.take(i + 1).last().window == window);
            }
            self.act(Action::Configure { window, w: size.w, h: size.h });
            i += 1;
        }
        proof {
            assert(all.take(i as int) =~= all);
        }
    }

    /// Ends the program: the window was closed, Emacs exited, or the kill
    /// combination was pressed.
    pub fn stop(&mut self)
        ensures
            final(self)@ == (StandaloneView { running: false, ..old(self)@ }),
    {
        self.running = false;
    }

    fn set_keyboard_focus(&mut self, window: WindowHandle)
        ensures
            final(self)@ == old(self)@.set_keyboard_focus(window),
    {
        self.keyboard_focus = Some(window);
        self.act(Action::SetKeyboardFocus { surface: Some(window) });
    }

    fn matches_prefix(&self, ev: &KeyPress) -> (r: bool)
        ensures
            r == is_prefix_key(self@.prefix_keys, *ev),
    {
        let mut i: usize = 0;
        while i < self.prefix_keys.len()
            invariant
                i <= self.prefix_keys@.len(),
                forall|j: int|
                    0 <= j < i ==> !key_matches(
                        (#[trigger] self.prefix_keys@[j]).keysym,
                        self.prefix_keys@[j].mods(),
                        ev.keysym,
                        ev.mods,
                    ),
            decreases self.prefix_keys@.len() - i,
        {
            if self.prefix_keys[i].matches(ev.keysym, &ev.mods) {
                return true;
            }
            i += 1;
        }
        false
    }

    /// Decides what comes of a key event, and moves the focus accordingly.
    pub fn handle_keyboard_event(&mut self, ev: &KeyPress) -> (r: KeyboardAction)
        ensures
            r == old(self)@.key_action(*ev),
            final(self)@ == old(self)@.after_key(*ev),
    {
        if ev.pressed && is_kill_combo(ev.keysym, ev.mods.ctrl, ev.mods.logo) {
            return KeyboardAction::Shutdown;
        }
        if ev.pressed && self.focused_surface_id != EMACS && self.matches_prefix(ev) {
            self.focused_surface_id = EMACS;
            if let Some(window) = self.id_windows.get(&EMACS) {
                let window: WindowHandle = *window;
                self.set_keyboard_focus(window);
                self.act(Action::ResendKey);
            }
            return KeyboardAction::RedirectToEmacs;
        }
        if let Some(window) = self.id_windows.get(&self.focused_surface_id) {
            let window: WindowHandle = *window;
            let focused: bool = match self.keyboard_focus {
                Some(w) => w == window,
                None => false,
            };
            if !focused {
                self.set_keyboard_focus(window);
            }
        }
        KeyboardAction::Forward
    }

    /// Releases all keys that are held down, and clears the keyboard focus;
    /// nothing happens where no key is held down.
    pub fn release_all_keys(&mut self, pressed: &Vec<u32>)
        ensures
            final(self)@ == old(self)@.release_all(pressed@),
    {
        if pressed.len() == 0 {
            return;
        }
        let mut i: usize = 0;
        proof {
            assert(pressed@.take(0) =~= Seq::<u32>::empty());
        }
        while i < pressed.len()
            invariant
                i <= pressed@.len(),
                self@ == old(self)@.release(pressed@.take(i as int)),
            decreases pressed@.len() - i,
        {
            proof {
                assert(pressed@.take(i + 1).drop_last() =~= pressed@.take(i as int));
                assert(pressed@.take(i + 1).last() == pressed@[i as int]);
            }
            self.act(Action::ReleaseKey { keycode: pressed[i] });
            i += 1;
        }
        proof {
            assert(pressed@.take(i as int) =~= pressed@);
        }
        self.keyboard_focus = None;
        self.act(Action::SetKeyboardFocus { surface: None });
    }

    /// Moves the keyboard focus to a surface, where there is one with this
    /// id.
    pub fn restore_focus(&mut self, surface_id: u32)
        ensures
            final(self)@ == old(self)@.restore_focus(surface_id),
    {
        if let Some(window) = self.id_windows.get(&surface_id) {
            let window: WindowHandle = *window;
            self.set_keyboard_focus(window);
        }
    }

    /// Carries out a command of Emacs.
    pub fn run_command(&mut self, cmd: Command)
        ensures
            final(self)@ == old(self)@.run(cmd),
    {
        match cmd {
            Command::Layout { id, x, y, w, h } => {
                if let Some(window) = self.id_windows.get(&id) {
                    let window: WindowHandle = *window;
                    self.place(window, Point { x, y }, true);
                    self.act(Action::Raise { window, activate: true });
                    self.act(
                        Action::Configure {
                            window,
                            w: #[verifier::truncate] (w as i32),
                            h: #[verifier::truncate] (h as i32),
                        },
                    );
                }
            },
            Command::Hide { id } => {
                if let Some(window) = self.id_windows.get(&id) {
                    let window: WindowHandle = *window;
                    self.place(window, Point { x: OFFSCREEN, y: OFFSCREEN }, false);
                }
            },
            Command::Close { id } => {
                if let Some(window) = self.id_windows.get(&id) {
                    let window: WindowHandle = *window;
                    self.act(Action::SendClose { window });
                }
            },
            Command::Focus { id } => {
                self.focused_surface_id = id;
                self.restore_focus(id);
            },
            Command::Screenshot { path } => {
                self.screenshot_path = Some(
                    match path {
                        Some(p) => p,
                        None => owned("/tmp/ewm-screenshot.png"),
                    },
                );
            },
            Command::PrefixKeys { keys } => {
                self.prefix_keys = parse_keys(&keys);
            },
        }
    }

    /// Hands out the events that were not sent yet.
    pub fn take_events(&mut self) -> (r: Vec<IpcEvent>)
        ensures
            ipc_views(r@) == old(self)@.pending_events,
            final(self)@ == (StandaloneView { pending_events: Seq::empty(), ..old(self)@ }),
    {
        let mut r: Vec<IpcEvent> = Vec::new();
        core::mem::swap(&mut r, &mut self.pending_events);
        proof {
            assert(ipc_views(self.pending_events@) =~= Seq::<IpcEventView>::empty());
        }
        r
    }

    /// Hands out what is to be carried out.
    pub fn take_actions(&mut self) -> (r: Vec<Action>)
        ensures
            action_views(r@) == old(self)@.actions,
            final(self)@ == (StandaloneView { actions: Seq::empty(), ..old(self)@ }),
    {
        let mut r: Vec<Action> = Vec::new();
        core::mem::swap(&mut r, &mut self.actions);
        proof {
            assert(action_views(self.actions@) =~= Seq::<ActionView>::empty());
        }
        r
    }

    /// Decides what is done with a frame: it is saved where that was asked
    /// for, and otherwise shown. A frame that is saved is not shown, since
    /// reading it leaves the buffer unusable.
    pub fn frame_done(&mut self) -> (r: FrameStep)
        ensures
            text_view(r.capture) == old(self)@.screenshot_path,
            r.submit == (old(self)@.screenshot_path is None),
            final(self)@ == (StandaloneView { screenshot_path: None, ..old(self)@ }),
    {
        let capture: Option<String> = self.screenshot_path.take();
        let submit: bool = capture.is_none();
        FrameStep { capture, submit }
    }

    /// Takes up an event of the loop, and tells what came of it where it was
    /// a key.
    pub fn handle_event(&mut self, event: ProgramEvent) -> (r: Option<KeyboardAction>)
        ensures
            final(self)@ == old(self)@.handled(event),
            r == match event {
                ProgramEvent::Key { event } => Some(old(self)@.key_action(event)),
                _ => None,
            },
    {
        match event {
            ProgramEvent::EmacsExited | ProgramEvent::CloseRequested => {
                self.stop();
                None
            },
            ProgramEvent::Resized { size } => {
                self.resized(size);
                None
            },
            ProgramEvent::Key { event } => {
                let action: KeyboardAction = self.handle_keyboard_event(&event);
                if action == KeyboardAction::Shutdown {
                    self.stop();
                }
                Some(action)
            },
            ProgramEvent::Command { command } => {
                self.run_command(command);
                None
            },
        }
    }
}

// ---------------------------------------------------------------------------
// What always holds
// ---------------------------------------------------------------------------
/// The state at the start is well-formed.
pub proof fn lemma_initial_wf()
    ensures
        StandaloneView::initial().wf(),
{
}

/// A toplevel that was not there before keeps the state well-formed, and gets
/// an id that no surface had.
pub proof fn lemma_new_toplevel_wf(s: StandaloneView, window: WindowHandle, app: Seq<char>)
    requires
        s.wf(),
        s.next_surface_id < u32::MAX,
        !s.window_ids.contains_key(window),
    ensures
        s.new_toplevel(window, app).wf(),
        !s.id_windows.contains_key(s.next_surface_id),
        s.new_toplevel(window, app).id_windows == s.id_windows.insert(s.next_surface_id, window),
        s.new_toplevel(window, app).next_surface_id == s.next_surface_id + 1,
{
}

/// A toplevel that goes keeps the state well-formed; it is in no table and
/// not in the space afterwards.
pub proof fn lemma_toplevel_destroyed_wf(s: StandaloneView, window: WindowHandle)
    requires
        s.wf(),
        s.space.element_location(window) is Some,
    ensures
        s.toplevel_destroyed(window).wf(),
        !s.toplevel_destroyed(window).window_ids.contains_key(window),
        forall|id: u32| #[trigger]
            s.toplevel_destroyed(window).id_windows.contains_key(id)
                ==> s.toplevel_destroyed(window).id_windows[id] != window,
        s.toplevel_destroyed(window).space == s.space.unmap_elem(window),
{
}

/// Commands keep the state well-formed, and which surfaces there are.
pub proof fn lemma_run_wf(s: StandaloneView, cmd: Command)
    requires
        s.wf(),
    ensures
        s.run(cmd).wf(),
        s.run(cmd).id_windows == s.id_windows,
        s.run(cmd).window_ids == s.window_ids,
        s.run(cmd).pending_events == s.pending_events,
{
}

proof fn lemma_configure_all_frame(s: StandaloneView, elements: Seq<Placed>, size: Size)
    ensures
        s.configure_all(elements, size) == (StandaloneView {
            actions: s.configure_all(elements, size).actions,
            ..s
        }),
    decreases elements.len(),
{
    if elements.len() > 0 {
        lemma_configure_all_frame(s, elements.drop_last(), size);
    }
}

/// Every event of the loop keeps the state well-formed and which surfaces
/// there are, and a loop that ended does not start again.
pub proof fn lemma_handled_wf(s: StandaloneView, event: ProgramEvent)
    requires
        s.wf(),
    ensures
        s.handled(event).wf(),
        s.handled(event).id_windows == s.id_windows,
        s.handled(event).running ==> s.running,
{
    if let ProgramEvent::Resized { size } = event {
        lemma_configure_all_frame(
            StandaloneView { output_size: size, ..s },
            s.space.elements,
            size,
        );
    }
}

/// A command about a surface that is not there moves at most the wish for
/// focus.
pub proof fn lemma_unknown_surface(s: StandaloneView, id: u32, x: i32, y: i32, w: u32, h: u32)
    requires
        !s.id_windows.contains_key(id),
    ensures
        s.run(Command::Layout { id, x, y, w, h }) == s,
        s.run(Command::Hide { id }) == s,
        s.run(Command::Close { id }) == s,
        s.run(Command::Focus { id }) == (StandaloneView { focused_surface_id: id, ..s }),
{
}

/// A prefix key takes the focus to Emacs; pressed again it goes to Emacs like
/// any other key, without another redirection.
pub proof fn lemma_prefix_key_redirects_once(s: StandaloneView, ev: KeyPress)
    requires
        s.key_action(ev) is RedirectToEmacs,
    ensures
        s.after_key(ev).focused_surface_id == EMACS,
        s.after_key(ev).key_action(ev) is Forward,
        s.id_windows.contains_key(EMACS) ==> s.after_key(ev).keyboard_focus == Some(
            s.id_windows[EMACS],
        ) && s.after_key(ev).after_key(ev) == s.after_key(ev),
{
}

/// A key that is released is never held back.
pub proof fn lemma_release_forwards(s: StandaloneView, ev: KeyPress)
    requires
        !ev.pressed,
    ensures
        s.key_action(ev) is Forward,
        s.after_key(ev).focused_surface_id == s.focused_surface_id,
{
}

/// Emacs is not told of its own surface; it is told of every other.
pub proof fn lemma_no_event_for_emacs(s: StandaloneView, window: WindowHandle, app: Seq<char>)
    ensures
        s.next_surface_id == EMACS ==> s.new_toplevel(window, app).pending_events
            == s.pending_events,
        s.next_surface_id != EMACS ==> s.new_toplevel(window, app).pending_events
            == s.pending_events.push(IpcEventView::New { id: s.next_surface_id, app }),
{
}

} // verus!
