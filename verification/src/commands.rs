//! What the commands of Emacs do.
use vstd::prelude::*;

use crate::action::{Action, ActionView};
use crate::event::{text_view, Event, EventView};
use crate::ewm::{surface_views_view, Ewm, EwmView};
use crate::geometry::{Point, Rectangle};
use crate::keys::key_views;
use crate::module::{ModuleCommand, ModuleView, PointerLocation, SurfaceView};
use crate::output::{OutputChange, OutputConfig};
use crate::space::WindowHandle;
use crate::surfaces::{offscreen, OFFSCREEN};
use crate::text::{
    clone_strings, find_text, index_in, nonblank, owned, split, split_list, str_view, views,
};

verus! {

/// Where screenshots go that name no file.
pub open spec fn screenshot_path(path: Option<Seq<char>>) -> Seq<char> {
    match path {
        Some(p) => p,
        None => "/tmp/ewm-screenshot.png"@,
    }
}

/// The view that decides where a surface is: the first active one, or else
/// the first.
pub open spec fn primary_view(list: Seq<SurfaceView>) -> Option<SurfaceView> {
    if first_active(list) is Some {
        first_active(list)
    } else if list.len() > 0 {
        Some(list[0])
    } else {
        None
    }
}

/// The first active view.
pub open spec fn first_active(list: Seq<SurfaceView>) -> Option<SurfaceView>
    decreases list.len(),
{
    if list.len() == 0 {
        None
    } else if list[0].active {
        Some(list[0])
    } else {
        first_active(list.drop_first())
    }
}

/// The types as which Emacs's text is offered.
pub open spec fn text_types() -> Seq<Seq<char>> {
    seq!["text/plain;charset=utf-8"@, "text/plain"@, "UTF8_STRING"@]
}

/// The types as which Emacs's text is offered.
pub fn text_type_list() -> (r: Vec<String>)
    ensures
        views(r@) == text_types(),
{
    let mut r: Vec<String> = Vec::new();
    r.push(owned("text/plain;charset=utf-8"));
    r.push(owned("text/plain"));
    r.push(owned("UTF8_STRING"));
    proof {
        assert(views(r@) =~= text_types());
    }
    r
}

/// The keyboard layouts that a comma-separated list names.
pub open spec fn layout_names(layouts: Seq<char>) -> Seq<Seq<char>> {
    nonblank(split(layouts, ','))
}

/// Whether the display side has to act on a command before the next one can be
/// carried out: the next may read the place of an output or the list of
/// keyboard layouts that this one sets, or change what it reports.
pub open spec fn ends_batch(cmd: ModuleCommand) -> bool {
    cmd is ConfigureOutput || cmd is ConfigureXkb || cmd is GetState
}

/// How many of the commands are carried out together: all up to the first
/// that the display side has to act on, and that one.
pub open spec fn batch_len(cmds: Seq<ModuleCommand>) -> nat
    decreases cmds.len(),
{
    if cmds.len() == 0 {
        0
    } else if ends_batch(cmds[0]) {
        1
    } else {
        1 + batch_len(cmds.drop_first())
    }
}

/// Whether the display side has to act on the last of the commands that are
/// carried out together.
pub open spec fn awaits_display(cmds: Seq<ModuleCommand>) -> bool {
    batch_len(cmds) > 0 && ends_batch(cmds[batch_len(cmds) - 1])
}

/// Whether the display side has to act on the last of these commands.
pub fn last_awaits_display(cmds: &Vec<ModuleCommand>) -> (r: bool)
    ensures
        r == (cmds@.len() > 0 && ends_batch(cmds@.last())),
{
    let n: usize = cmds.len();
    if n == 0 {
        return false;
    }
    match &cmds[n - 1] {
        ModuleCommand::ConfigureOutput { .. } => true,
        ModuleCommand::ConfigureXkb { .. } => true,
        ModuleCommand::GetState => true,
        _ => false,
    }
}

/// How many of the commands are carried out together.
pub fn command_batch(cmds: &Vec<ModuleCommand>) -> (r: usize)
    ensures
        r == batch_len(cmds@),
        r <= cmds@.len(),
{
    let mut i: usize = 0;
    proof {
        assert(cmds@.skip(0) =~= cmds@);
    }
    while i < cmds.len()
        invariant
            i <= cmds@.len(),
            batch_len(cmds@) == i + batch_len(cmds@.skip(i as int)),
        decreases cmds@.len() - i,
    {
        proof {
            assert(cmds@.skip(i as int)[0] == cmds@[i as int]);
            assert(cmds@.skip(i as int).drop_first() =~= cmds@.skip(i + 1));
        }
        match &cmds[i] {
            ModuleCommand::ConfigureOutput { .. } => return i + 1,
            ModuleCommand::ConfigureXkb { .. } => return i + 1,
            ModuleCommand::GetState => return i + 1,
            _ => {},
        }
        i += 1;
    }
    i
}

impl EwmView {
    /// A window shown: placed and raised, activated, and given a size.
    pub open spec fn show(self, window: WindowHandle, at: Point, w: i32, h: i32) -> EwmView {
        EwmView { space: self.space.map_element(window, at), ..self }.act(
            ActionView::Place { window, x: at.x, y: at.y, activate: true },
        ).act(ActionView::Raise { window, activate: true }).act(
            ActionView::Configure { window, w, h },
        )
    }

    /// A surface given a place and a size.
    pub open spec fn layout(self, id: u32, x: i32, y: i32, w: u32, h: u32) -> EwmView {
        if self.id_windows.contains_key(id) {
            self.show(self.id_windows[id], Point { x, y }, w as i32, h as i32).queue_redraw_all()
        } else {
            self
        }
    }

    /// A surface's views stored, and the surface shown where the deciding one
    /// is.
    pub open spec fn apply_views(self, id: u32, list: Seq<SurfaceView>) -> EwmView {
        if self.id_windows.contains_key(id) {
            let s = match primary_view(list) {
                Some(v) => self.show(
                    self.id_windows[id],
                    Point { x: v.x, y: v.y },
                    v.w as i32,
                    v.h as i32,
                ),
                None => self,
            };
            EwmView { surface_views: s.surface_views.insert(id, list), ..s }.queue_redraw_all()
        } else {
            self
        }
    }

    /// A surface given its views; nothing happens where it has them.
    pub open spec fn set_views(self, id: u32, list: Seq<SurfaceView>) -> EwmView {
        if self.surface_views.contains_key(id) && self.surface_views[id] == list {
            self
        } else {
            self.apply_views(id, list)
        }
    }

    /// A surface taken off the screen; nothing happens where it has no views.
    pub open spec fn hide_surface(self, id: u32) -> EwmView {
        if self.surface_views.contains_key(id) && self.id_windows.contains_key(id) {
            let window = self.id_windows[id];
            EwmView {
                space: self.space.map_element(window, offscreen()),
                surface_views: self.surface_views.remove(id),
                ..self
            }.act(
                ActionView::Place { window, x: OFFSCREEN, y: OFFSCREEN, activate: false },
            ).queue_redraw_all()
        } else {
            self
        }
    }

    /// A surface asked to close.
    pub open spec fn close_surface(self, id: u32) -> EwmView {
        if self.id_windows.contains_key(id) {
            self.act(ActionView::SendClose { window: self.id_windows[id] })
        } else {
            self
        }
    }

    /// The focus moved to a surface that exists and does not have it.
    pub open spec fn focus_existing(
        self,
        id: u32,
        source: Seq<char>,
        context: Option<Seq<char>>,
    ) -> EwmView {
        if self.focused_surface_id != id && self.id_windows.contains_key(id) {
            self.focus_from(id, false, source, context)
        } else {
            self
        }
    }

    /// The pointer moved.
    pub open spec fn warp_pointer(self, location: PointerLocation) -> EwmView {
        EwmView { pointer_location: location, ..self }.act(
            ActionView::WarpPointer { location },
        ).queue_redraw_all()
    }

    /// A surface made to fill an output.
    pub open spec fn assign_output(self, id: u32, output: Seq<char>) -> EwmView {
        match self.space.output_named(output) {
            Some(o) => if self.id_windows.contains_key(id) {
                self.show(self.id_windows[id], o.loc, o.size.w, o.size.h).queue_redraw_all()
            } else {
                self
            },
            None => self,
        }
    }

    /// Where the output with this name stands; the origin where there is none.
    pub open spec fn output_position(self, name: Seq<char>) -> (i32, i32) {
        match self.space.output_named(name) {
            Some(o) => (o.loc.x, o.loc.y),
            None => (0, 0),
        }
    }

    /// The stored configuration of an output.
    pub open spec fn stored_config(self, name: Seq<char>) -> OutputConfig {
        if self.output_config.contains_key(name) {
            self.output_config[name]
        } else {
            OutputConfig::default_spec()
        }
    }

    /// The configuration of an output changed, stored, and to be applied.
    pub open spec fn configure_output(self, name: Seq<char>, change: OutputChange) -> EwmView {
        EwmView {
            output_config: self.output_config.insert(
                name,
                self.stored_config(name).merge_spec(change, self.output_position(name)),
            ),
            ..self
        }.act(ActionView::ApplyOutputConfig { name })
    }

    /// The keyboard layouts to be set, where the list names any.
    pub open spec fn configure_xkb(
        self,
        layouts: Seq<char>,
        options: Option<Seq<char>>,
    ) -> EwmView {
        if layout_names(layouts).len() == 0 {
            self
        } else {
            self.act(ActionView::SetXkbConfig { layouts, options })
        }
    }

    /// The keyboard layouts taken up once they are set.
    pub open spec fn xkb_configured(self, layouts: Seq<char>) -> EwmView {
        let names = layout_names(layouts);
        if names.len() == 0 {
            self
        } else {
            EwmView { xkb_layout_names: names, xkb_current_layout: 0, ..self }.tell(
                EventView::Layouts { layouts: names, current: 0 },
            )
        }
    }

    /// The keyboard layout switched to the one with this name. The focus is
    /// taken away meanwhile, so that no client sees the change half done.
    pub open spec fn switch_layout(self, layout: Seq<char>) -> EwmView {
        match index_in(self.xkb_layout_names, layout) {
            Some(i) => EwmView { xkb_current_layout: i as usize, ..self }.act(
                ActionView::SetKeyboardFocus { surface: None },
            ).act(ActionView::SetXkbLayout { index: i as usize }).act(
                ActionView::SetKeyboardFocus { surface: self.keyboard_focus },
            ).tell(EventView::LayoutSwitched { layout, index: i as usize }),
            None => self,
        }
    }

    /// The state after a command of Emacs.
    pub open spec fn run_command(self, cmd: ModuleCommand) -> EwmView {
        match cmd {
            ModuleCommand::Layout { id, x, y, w, h } => self.layout(id, x, y, w, h),
            ModuleCommand::Views { id, views: list } => self.set_views(id, list@),
            ModuleCommand::Hide { id } => self.hide_surface(id),
            ModuleCommand::Close { id } => self.close_surface(id),
            ModuleCommand::Focus { id } => self.focus_existing(id, "emacs_command"@, None),
            ModuleCommand::WarpPointer { location } => self.warp_pointer(location),
            ModuleCommand::Screenshot { path } => EwmView {
                pending_screenshot: Some(screenshot_path(text_view(path))),
                ..self
            },
            ModuleCommand::AssignOutput { id, output } => self.assign_output(id, output@),
            ModuleCommand::PrepareFrame { output } => EwmView {
                module: ModuleView {
                    pending_frame_outputs: self.module.pending_frame_outputs.push(output@),
                    ..self.module
                },
                ..self
            },
            ModuleCommand::ConfigureOutput { name, change } => self.configure_output(name@, change),
            ModuleCommand::InterceptKeys { keys } => EwmView {
                module: ModuleView { intercepted_keys: key_views(keys@), ..self.module },
                ..self
            },
            ModuleCommand::ImCommit { text } => if self.im_relay {
                self.act(ActionView::ImCommit { text: text@ })
            } else {
                self
            },
            ModuleCommand::TextInputIntercept { enabled } => EwmView {
                text_input_intercept: enabled,
                ..self
            },
            ModuleCommand::ConfigureXkb { layouts, options } => self.configure_xkb(
                layouts@,
                text_view(options),
            ),
            ModuleCommand::SwitchLayout { layout } => self.switch_layout(layout@),
            ModuleCommand::GetLayouts => self.tell(
                EventView::Layouts {
                    layouts: self.xkb_layout_names,
                    current: self.xkb_current_layout,
                },
            ),
            ModuleCommand::GetState => self.act(ActionView::ReportState),
            ModuleCommand::CreateActivationToken => self.act(ActionView::CreateActivationToken),
            ModuleCommand::SetSelection { text } => self.act(
                ActionView::SetSelection { mime_types: text_types(), text: text@ },
            ),
        }
    }

    /// The state after commands of Emacs, one after the other.
    pub open spec fn run_commands(self, cmds: Seq<ModuleCommand>) -> EwmView
        decreases cmds.len(),
    {
        if cmds.len() == 0 {
            self
        } else {
            self.run_commands(cmds.drop_last()).run_command(cmds.last())
        }
    }
}

/// Whether two lists of views are the same.
fn same_views(a: &Vec<SurfaceView>, b: &Vec<SurfaceView>) -> (r: bool)
    ensures
        r == (a@ == b@),
{
    if a.len() != b.len() {
        return false;
    }
    let mut i: usize = 0;
    while i < a.len()
        invariant
            i <= a@.len(),
            a@.len() == b@.len(),
            forall|j: int| 0 <= j < i ==> a@[j] == b@[j],
        decreases a@.len() - i,
    {
        if a[i] != b[i] {
            proof {
                assert(a@[i as int] != b@[i as int]);
            }
            return false;
        }
        i += 1;
    }
    proof {
        assert(a@ =~= b@);
    }
    true
}

/// The view that decides where a surface is.
pub fn deciding_view(list: &Vec<SurfaceView>) -> (r: Option<SurfaceView>)
    ensures
        r == primary_view(list@),
{
    let mut i: usize = 0;
    proof {
        assert(list@.skip(0) =~= list@);
    }
    while i < list.len()
        invariant
            i <= list@.len(),
            first_active(list@) == first_active(list@.skip(i as int)),
        decreases list@.len() - i,
    {
        proof {
            assert(list@.skip(i as int).drop_first() =~= list@.skip(i + 1));
        }
        if list[i].active {
            return Some(list[i]);
        }
        i += 1;
    }
    if list.len() > 0 {
        Some(list[0])
    } else {
        None
    }
}

impl Ewm {
    /// Shows a window: places and raises it, and gives it a size.
    fn show(&mut self, window: WindowHandle, at: Point, w: i32, h: i32)
        ensures
            final(self)@ == old(self)@.show(window, at, w, h),
    {
        self.place(window, at, true);
        self.act(Action::Raise { window, activate: true });
        self.act(Action::Configure { window, w, h });
    }

    /// Gives a surface a place and a size.
    pub fn layout(&mut self, id: u32, x: i32, y: i32, w: u32, h: u32)
        ensures
            final(self)@ == old(self)@.layout(id, x, y, w, h),
    {
        if let Some(window) = self.id_windows.get(&id) {
            let window: WindowHandle = *window;
            self.show(
                window,
                Point { x, y },
                #[verifier::truncate] (w as i32),
                #[verifier::truncate] (h as i32),
            );
            self.queue_redraw_all();
        }
    }

    /// Stores a surface's views, and shows it where the deciding one is.
    pub fn apply_views(&mut self, id: u32, list: Vec<SurfaceView>)
        ensures
            final(self)@ == old(self)@.apply_views(id, list@),
    {
        if let Some(window) = self.id_windows.get(&id) {
            let window: WindowHandle = *window;
            if let Some(v) = deciding_view(&list) {
                self.show(
                    window,
                    Point { x: v.x, y: v.y },
                    #[verifier::truncate] (v.w as i32),
                    #[verifier::truncate] (v.h as i32),
                );
            }
            let ghost before = self.surface_views@;
            self.surface_views.insert(id, list);
            proof {
                assert(surface_views_view(self.surface_views@) =~= surface_views_view(
                    before,
                ).insert(id, list@));
            }
            self.queue_redraw_all();
        }
    }

    /// Gives a surface its views.
    pub fn set_views(&mut self, id: u32, list: Vec<SurfaceView>)
        ensures
            final(self)@ == old(self)@.set_views(id, list@),
    {
        let unchanged: bool = match self.surface_views.get(&id) {
            Some(current) => {
                proof {
                    assert(self@.surface_views[id] == current@);
                }
                same_views(current, &list)
            },
            None => false,
        };
        if !unchanged {
            self.apply_views(id, list);
        }
    }

    /// Takes a surface off the screen.
    pub fn hide_surface(&mut self, id: u32)
        ensures
            final(self)@ == old(self)@.hide_surface(id),
    {
        if self.surface_views.contains_key(&id) {
            if let Some(window) = self.id_windows.get(&id) {
                let window: WindowHandle = *window;
                let ghost before = self.surface_views@;
                self.place(window, Point { x: OFFSCREEN, y: OFFSCREEN }, false);
                self.surface_views.remove(&id);
                proof {
                    assert(surface_views_view(self.surface_views@) =~= surface_views_view(
                        before,
                    ).remove(id));
                }
                self.queue_redraw_all();
            }
        }
    }

    /// Asks a surface to close.
    pub fn close_surface(&mut self, id: u32)
        ensures
            final(self)@ == old(self)@.close_surface(id),
    {
        if let Some(window) = self.id_windows.get(&id) {
            let window: WindowHandle = *window;
            self.act(Action::SendClose { window });
        }
    }

    /// Moves the focus to a surface that exists and does not have it.
    pub fn focus_existing(&mut self, id: u32, source: &str, context: Option<&str>)
        ensures
            final(self)@ == old(self)@.focus_existing(id, source@, str_view(context)),
    {
        if self.focused_surface_id != id && self.id_windows.contains_key(&id) {
            self.focus_surface_with_source(id, false, source, context);
        }
    }

    /// Lets a surface fill an output.
    fn assign_output(&mut self, id: u32, output: &str)
        ensures
            final(self)@ == old(self)@.assign_output(id, output@),
    {
        if let Some(i) = self.space.output_index_named(output) {
            let geo: Rectangle = self.space.outputs[i].geometry();
            if let Some(window) = self.id_windows.get(&id) {
                let window: WindowHandle = *window;
                self.show(window, geo.loc, geo.size.w, geo.size.h);
                self.queue_redraw_all();
            }
        }
    }

    /// Changes the stored configuration of an output, and has it applied.
    fn configure_output(&mut self, name: String, change: &OutputChange)
        ensures
            final(self)@ == old(self)@.configure_output(name@, *change),
    {
        let stored: OutputConfig = match self.output_config.get(name.as_str()) {
            Some(c) => *c,
            None => OutputConfig::default(),
        };
        let current: (i32, i32) = match self.space.output_index_named(name.as_str()) {
            Some(i) => (self.space.outputs[i].loc.x, self.space.outputs[i].loc.y),
            None => (0, 0),
        };
        self.output_config.insert(name.clone(), stored.merge(change, current));
        self.act(Action::ApplyOutputConfig { name });
    }

    /// Takes up that the keyboard layouts of this list are set.
    pub fn xkb_configured(&mut self, layouts: &str)
        ensures
            final(self)@ == old(self)@.xkb_configured(layouts@),
    {
        let names: Vec<String> = split_list(layouts, ',');
        if names.len() == 0 {
            return;
        }
        let told: Vec<String> = clone_strings(&names);
        self.xkb_layout_names = names;
        self.xkb_current_layout = 0;
        self.queue_event(Event::Layouts { layouts: told, current: 0 });
    }

    /// Switches to the keyboard layout with this name.
    fn switch_layout(&mut self, layout: String)
        ensures
            final(self)@ == old(self)@.switch_layout(layout@),
    {
        if let Some(index) = find_text(&self.xkb_layout_names, layout.as_str()) {
            self.xkb_current_layout = index;
            self.act(Action::SetKeyboardFocus { surface: None });
            self.act(Action::SetXkbLayout { index });
            let surface: Option<u64> = self.keyboard_focus;
            self.act(Action::SetKeyboardFocus { surface });
            self.queue_event(Event::LayoutSwitched { layout, index });
        }
    }

    /// Carries out a command of Emacs.
    pub fn handle_module_command(&mut self, cmd: ModuleCommand)
        ensures
            final(self)@ == old(self)@.run_command(cmd),
    {
        match cmd {
            ModuleCommand::Layout { id, x, y, w, h } => {
                self.layout(id, x, y, w, h);
            },
            ModuleCommand::Views { id, views: list } => {
                self.set_views(id, list);
            },
            ModuleCommand::Hide { id } => {
                self.hide_surface(id);
            },
            ModuleCommand::Close { id } => {
                self.close_surface(id);
            },
            ModuleCommand::Focus { id } => {
                self.focus_existing(id, "emacs_command", None);
            },
            ModuleCommand::WarpPointer { location } => {
                self.pointer_location = location;
                self.act(Action::WarpPointer { location });
                self.queue_redraw_all();
            },
            ModuleCommand::Screenshot { path } => {
                let target: String = match path {
                    Some(p) => p,
                    None => owned("/tmp/ewm-screenshot.png"),
                };
                self.pending_screenshot = Some(target);
            },
            ModuleCommand::AssignOutput { id, output } => {
                self.assign_output(id, output.as_str());
            },
            ModuleCommand::PrepareFrame { output } => {
                self.module.push_pending_frame_output(output);
            },
            ModuleCommand::ConfigureOutput { name, change } => {
                self.configure_output(name, &change);
            },
            ModuleCommand::InterceptKeys { keys } => {
                self.module.intercepted_keys = keys;
            },
            ModuleCommand::ImCommit { text } => {
                if self.im_relay {
                    self.act(Action::ImCommit { text });
                }
            },
            ModuleCommand::TextInputIntercept { enabled } => {
                self.text_input_intercept = enabled;
            },
            ModuleCommand::ConfigureXkb { layouts, options } => {
                let names: Vec<String> = split_list(layouts.as_str(), ',');
                proof {
                    assert(names@.len() == views(names@).len());
                }
                if names.len() > 0 {
                    self.act(Action::SetXkbConfig { layouts, options });
                }
            },
            ModuleCommand::SwitchLayout { layout } => {
                self.switch_layout(layout);
            },
            ModuleCommand::GetLayouts => {
                let layouts: Vec<String> = clone_strings(&self.xkb_layout_names);
                let current: usize = self.xkb_current_layout;
                self.queue_event(Event::Layouts { layouts, current });
            },
            ModuleCommand::GetState => {
                self.act(Action::ReportState);
            },
            ModuleCommand::CreateActivationToken => {
                self.act(Action::CreateActivationToken);
            },
            ModuleCommand::SetSelection { text } => {
                self.act(Action::SetSelection { mime_types: text_type_list(), text });
            },
        }
    }
}

// ---------------------------------------------------------------------------
// Laws
// ---------------------------------------------------------------------------
/// A batch holds no command that the display side has to act on but its last,
/// takes at least one command where there are any, and leaves none where no
/// command has to be acted on.
pub proof fn lemma_batch(cmds: Seq<ModuleCommand>)
    ensures
        batch_len(cmds) <= cmds.len(),
        cmds.len() > 0 ==> batch_len(cmds) > 0,
        forall|i: int| 0 <= i < batch_len(cmds) - 1 ==> !ends_batch(#[trigger] cmds[i]),
        batch_len(cmds) < cmds.len() ==> ends_batch(cmds[batch_len(cmds) - 1]),
    decreases cmds.len(),
{
    if cmds.len() > 0 && !ends_batch(cmds[0]) {
        let rest = cmds.drop_first();
        lemma_batch(rest);
        assert forall|i: int| 0 <= i < batch_len(cmds) - 1 implies !ends_batch(
            #[trigger] cmds[i],
        ) by {
            if i > 0 {
                assert(rest[i - 1] == cmds[i]);
            }
        }
        if batch_len(cmds) < cmds.len() {
            assert(rest[batch_len(rest) - 1] == cmds[batch_len(cmds) - 1]);
        }
    }
}

/// Commands carried out in two parts are carried out in the same order.
pub proof fn lemma_commands_in_parts(s: EwmView, cmds: Seq<ModuleCommand>, k: int)
    requires
        0 <= k <= cmds.len(),
    ensures
        s.run_commands(cmds.take(k)).run_commands(cmds.skip(k)) == s.run_commands(cmds),
    decreases cmds.len(),
{
    if k == cmds.len() {
        assert(cmds.take(k) =~= cmds);
        assert(cmds.skip(k) =~= Seq::<ModuleCommand>::empty());
    } else {
        let before = cmds.drop_last();
        lemma_commands_in_parts(s, before, k);
        assert(before.take(k) =~= cmds.take(k));
        assert(cmds.skip(k).drop_last() =~= before.skip(k));
        assert(cmds.skip(k).last() == cmds.last());
    }
}

/// A command that names a surface that does not exist changes nothing.
pub proof fn lemma_missing_surface(
    s: EwmView,
    id: u32,
    x: i32,
    y: i32,
    w: u32,
    h: u32,
    list: Seq<SurfaceView>,
)
    requires
        !s.id_windows.contains_key(id),
    ensures
        s.layout(id, x, y, w, h) == s,
        s.set_views(id, list) == s,
        s.hide_surface(id) == s,
        s.close_surface(id) == s,
        s.focus_existing(id, "emacs_command"@, None) == s,
{
}

/// Giving a surface the same views again changes nothing.
pub proof fn lemma_views_idempotent(s: EwmView, id: u32, list: Seq<SurfaceView>)
    ensures
        s.set_views(id, list).set_views(id, list) == s.set_views(id, list),
{
}

/// Hiding a surface twice is hiding it once: its views are gone.
pub proof fn lemma_hide_idempotent(s: EwmView, id: u32)
    requires
        s.wf(),
    ensures
        !s.hide_surface(id).surface_views.contains_key(id),
        s.hide_surface(id).hide_surface(id) == s.hide_surface(id),
{
}

/// Focusing the focused surface changes nothing.
pub proof fn lemma_focus_idempotent(s: EwmView, id: u32)
    ensures
        s.focus_existing(id, "emacs_command"@, None).focus_existing(
            id,
            "emacs_command"@, None,
        ) == s.focus_existing(id, "emacs_command"@, None),
{
}

/// The focus that a command of Emacs moves goes to a surface that exists.
pub proof fn lemma_focus_command_existing(s: EwmView, id: u32)
    ensures
        ({
            let t = s.focus_existing(id, "emacs_command"@, None);
            t.focused_surface_id == s.focused_surface_id || t.id_windows.contains_key(
                t.focused_surface_id,
            )
        }),
{
}

/// Layout, view, hide and close commands leave the focus alone: it moves only
/// where Emacs asks for it.
pub proof fn lemma_layout_keeps_focus(
    s: EwmView,
    id: u32,
    x: i32,
    y: i32,
    w: u32,
    h: u32,
    list: Seq<SurfaceView>,
    output: Seq<char>,
)
    ensures
        s.layout(id, x, y, w, h).focused_surface_id == s.focused_surface_id,
        s.set_views(id, list).focused_surface_id == s.focused_surface_id,
        s.hide_surface(id).focused_surface_id == s.focused_surface_id,
        s.close_surface(id).focused_surface_id == s.focused_surface_id,
        s.assign_output(id, output).focused_surface_id == s.focused_surface_id,
{
}

/// No command of Emacs makes or unmakes surfaces: the maps between windows and
/// ids, and the next id, stay as they are.
pub proof fn lemma_commands_keep_surfaces(s: EwmView, cmd: ModuleCommand)
    ensures
        s.run_command(cmd).id_windows == s.id_windows,
        s.run_command(cmd).window_ids == s.window_ids,
        s.run_command(cmd).next_surface_id == s.next_surface_id,
        s.run_command(cmd).emacs_surfaces == s.emacs_surfaces,
        s.run_command(cmd).lock_state == s.lock_state,
{
}

/// Switching to a layout that is not in the list changes nothing; otherwise
/// the current layout is the first of that name.
pub proof fn lemma_switch_layout(s: EwmView, layout: Seq<char>)
    requires
        s.xkb_layout_names.len() <= usize::MAX,
    ensures
        !s.xkb_layout_names.contains(layout) ==> s.switch_layout(layout) == s,
        s.xkb_layout_names.contains(layout) ==> {
            let i = s.switch_layout(layout).xkb_current_layout as int;
            0 <= i < s.xkb_layout_names.len() && s.xkb_layout_names[i] == layout
        },
{
    crate::text::lemma_index_in(s.xkb_layout_names, layout);
}

/// A layout that was configured can be switched to: the current layout then
/// has its name, and the list is the one that was configured.
pub proof fn lemma_configured_layout(s: EwmView, layouts: Seq<char>, i: int)
    requires
        layout_names(layouts).len() <= usize::MAX,
        0 <= i < layout_names(layouts).len(),
    ensures
        ({
            let names = layout_names(layouts);
            let t = s.xkb_configured(layouts).switch_layout(names[i]);
            &&& t.xkb_layout_names == names
            &&& 0 <= t.xkb_current_layout < names.len()
            &&& names[t.xkb_current_layout as int] == names[i]
        }),
{
    assert(layout_names(layouts).contains(layout_names(layouts)[i]));
    lemma_switch_layout(s.xkb_configured(layouts), layout_names(layouts)[i]);
}

} // verus!
