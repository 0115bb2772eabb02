//! What Emacs and the compositor share: the command queue, the event queue
//! and a few flags.
use vstd::prelude::*;

use crate::commands::{batch_len, command_batch};
use crate::event::{event_views, text_view, Event, EventView};
use crate::geometry::Point;
use crate::keys::{key_views, InterceptedKey, InterceptedKeyView, KeyId, KeyIdView};
use crate::names::NameMap;
use crate::output::OutputChange;
use crate::text::{owned, str_view, views};

verus! {

/// One view of a surface: its place in an Emacs window.
#[derive(Clone, Copy, Debug, PartialEq, Eq, Structural)]
pub struct SurfaceView {
    pub x: i32,
    pub y: i32,
    pub w: u32,
    pub h: u32,
    /// The view belongs to the selected Emacs window.
    pub active: bool,
}

/// A place of the pointer.
///
/// The exact place, two doubles, is carried as bit patterns; decisions go by
/// its two integer readings.
#[derive(Clone, Copy, Debug, PartialEq, Eq, Structural)]
pub struct PointerLocation {
    pub x_bits: u64,
    pub y_bits: u64,
    /// The place with its fractional part cut off.
    pub cell: Point,
    /// The place rounded down.
    pub floor: Point,
}

impl PointerLocation {
    /// The origin.
    pub open spec fn origin_spec() -> PointerLocation {
        PointerLocation {
            x_bits: 0,
            y_bits: 0,
            cell: Point { x: 0, y: 0 },
            floor: Point { x: 0, y: 0 },
        }
    }

    /// The origin.
    pub fn origin() -> (r: PointerLocation)
        ensures
            r == PointerLocation::origin_spec(),
    {
        PointerLocation {
            x_bits: 0,
            y_bits: 0,
            cell: Point { x: 0, y: 0 },
            floor: Point { x: 0, y: 0 },
        }
    }
}

/// Commands sent from Emacs to the compositor.
#[derive(Debug)]
pub enum ModuleCommand {
    /// Give a surface a place and a size.
    Layout { id: u32, x: i32, y: i32, w: u32, h: u32 },
    /// Give a surface its views.
    Views { id: u32, views: Vec<SurfaceView> },
    /// Take a surface off the screen.
    Hide { id: u32 },
    /// Ask a surface to close.
    Close { id: u32 },
    /// Focus a surface.
    Focus { id: u32 },
    /// Move the pointer.
    WarpPointer { location: PointerLocation },
    /// Take a screenshot.
    Screenshot { path: Option<String> },
    /// Let a surface fill an output.
    AssignOutput { id: u32, output: String },
    /// The next new surface is a frame for this output.
    PrepareFrame { output: String },
    /// Change the configuration of an output.
    ConfigureOutput { name: String, change: OutputChange },
    /// Set the keys that are redirected to Emacs.
    InterceptKeys { keys: Vec<InterceptedKey> },
    /// Commit text to the active text input.
    ImCommit { text: String },
    /// Send printable keys to Emacs, or stop doing so.
    TextInputIntercept { enabled: bool },
    /// Set the keyboard layouts.
    ConfigureXkb { layouts: String, options: Option<String> },
    /// Switch to a keyboard layout.
    SwitchLayout { layout: String },
    /// Ask for the keyboard layouts.
    GetLayouts,
    /// Ask for a report of the state.
    GetState,
    /// Ask for an activation token.
    CreateActivationToken,
    /// Set the clipboard.
    SetSelection { text: String },
}

/// An entry of the focus history.
#[derive(Debug)]
pub struct FocusRecord {
    pub id: u32,
    /// Who moved the focus.
    pub source: String,
    /// On what occasion, where that was told.
    pub context: Option<String>,
}

/// What a [`FocusRecord`] holds.
#[verifier::ext_equal]
pub struct FocusRecordView {
    pub id: u32,
    pub source: Seq<char>,
    pub context: Option<Seq<char>>,
}

impl View for FocusRecord {
    type V = FocusRecordView;

    open spec fn view(&self) -> FocusRecordView {
        FocusRecordView {
            id: self.id,
            source: self.source@,
            context: text_view(self.context),
        }
    }
}

/// What a focus history holds.
pub open spec fn focus_views(v: Seq<FocusRecord>) -> Seq<FocusRecordView> {
    Seq::new(v.len(), |i: int| v[i]@)
}

/// What Emacs and the compositor share.
#[derive(Debug)]
pub struct Module {
    /// Events that Emacs has not taken, oldest first.
    pub events: Vec<Event>,
    /// Commands that the compositor has not taken, oldest first.
    pub commands: Vec<ModuleCommand>,
    /// The focused surface, as Emacs can read it.
    pub focused_id: u32,
    /// Where the frame of each output starts in the global space.
    pub output_offsets: NameMap<Point>,
    /// A surface that Emacs wants focused before the next key.
    pub pending_focus: Option<u32>,
    /// Outputs for which Emacs is about to open frames, oldest first.
    pub pending_frame_outputs: Vec<String>,
    /// Keys that are redirected to Emacs.
    pub intercepted_keys: Vec<InterceptedKey>,
    /// A redirected prefix key was pressed; Emacs clears this when the key
    /// sequence ends.
    pub in_prefix_sequence: bool,
    /// Changes of the focus, oldest first.
    pub focus_history: Vec<FocusRecord>,
    /// Activation tokens that Emacs has not taken, oldest first.
    pub activation_tokens: Vec<String>,
    /// Emacs wants the compositor to stop.
    pub stop_requested: bool,
    pub debug_mode: bool,
}

/// What a [`Module`] holds.
#[verifier::ext_equal]
pub struct ModuleView {
    pub events: Seq<EventView>,
    pub commands: Seq<ModuleCommand>,
    pub focused_id: u32,
    pub output_offsets: Map<Seq<char>, Point>,
    pub pending_focus: Option<u32>,
    pub pending_frame_outputs: Seq<Seq<char>>,
    pub intercepted_keys: Seq<InterceptedKeyView>,
    pub in_prefix_sequence: bool,
    pub focus_history: Seq<FocusRecordView>,
    pub activation_tokens: Seq<Seq<char>>,
    pub stop_requested: bool,
    pub debug_mode: bool,
}

impl View for Module {
    type V = ModuleView;

    open spec fn view(&self) -> ModuleView {
        ModuleView {
            events: event_views(self.events@),
            commands: self.commands@,
            focused_id: self.focused_id,
            output_offsets: self.output_offsets@,
            pending_focus: self.pending_focus,
            pending_frame_outputs: views(self.pending_frame_outputs@),
            intercepted_keys: key_views(self.intercepted_keys@),
            in_prefix_sequence: self.in_prefix_sequence,
            focus_history: focus_views(self.focus_history@),
            activation_tokens: views(self.activation_tokens@),
            stop_requested: self.stop_requested,
            debug_mode: self.debug_mode,
        }
    }
}

impl ModuleView {
    /// Nothing queued, nothing set.
    pub open spec fn empty() -> ModuleView {
        ModuleView {
            events: Seq::empty(),
            commands: Seq::empty(),
            focused_id: 0,
            output_offsets: Map::empty(),
            pending_focus: None,
            pending_frame_outputs: Seq::empty(),
            intercepted_keys: Seq::empty(),
            in_prefix_sequence: false,
            focus_history: Seq::empty(),
            activation_tokens: Seq::empty(),
            stop_requested: false,
            debug_mode: false,
        }
    }

    /// With one more event for Emacs.
    pub open spec fn push_event_spec(self, e: EventView) -> ModuleView {
        ModuleView { events: self.events.push(e), ..self }
    }
}

impl Module {
    /// Nothing queued, nothing set.
    pub fn new() -> (r: Module)
        ensures
            r@ == ModuleView::empty(),
    {
        let r = Module {
            events: Vec::new(),
            commands: Vec::new(),
            focused_id: 0,
            output_offsets: NameMap::new(),
            pending_focus: None,
            pending_frame_outputs: Vec::new(),
            intercepted_keys: Vec::new(),
            in_prefix_sequence: false,
            focus_history: Vec::new(),
            activation_tokens: Vec::new(),
            stop_requested: false,
            debug_mode: false,
        };
        proof {
            assert(r@ =~= ModuleView::empty());
        }
        r
    }

    /// The events that Emacs has not taken.
    pub fn event_queue(&self) -> (r: &Vec<Event>)
        ensures
            event_views(r@) == self@.events,
    {
        &self.events
    }

    /// Queues an event for Emacs.
    pub fn push_event(&mut self, event: Event)
        ensures
            final(self)@ == old(self)@.push_event_spec(event@),
    {
        self.events.push(event);
        proof {
            assert(event_views(self.events@) =~= event_views(old(self).events@).push(event@));
        }
    }

    /// Takes the next event, the oldest one, off the queue.
    pub fn pop_event(&mut self) -> (r: Option<Event>)
        ensures
            match r {
                Some(e) => old(self)@.events.len() > 0 && e@ == old(self)@.events[0] && final(
                    self)@ == (ModuleView {
                    events: old(self)@.events.drop_first(),
                    ..old(self)@
                }),
                None => old(self)@.events.len() == 0 && final(self)@ == old(self)@,
            },
    {
        if self.events.len() == 0 {
            return None;
        }
        let e: Event = self.events.remove(0);
        proof {
            assert(event_views(self.events@) =~= event_views(old(self).events@).drop_first());
        }
        Some(e)
    }

    /// Drops all events, as for a new start.
    pub fn clear_events(&mut self)
        ensures
            final(self)@ == (ModuleView { events: Seq::empty(), ..old(self)@ }),
    {
        self.events.clear();
        proof {
            assert(event_views(self.events@) =~= Seq::<EventView>::empty());
        }
    }

    /// Makes ready for a new start: no request to stop, no events.
    pub fn reset(&mut self)
        ensures
            final(self)@ == (ModuleView {
                events: Seq::empty(),
                stop_requested: false,
                ..old(self)@
            }),
    {
        self.stop_requested = false;
        self.clear_events();
    }

    /// Queues a command for the compositor.
    pub fn push_command(&mut self, cmd: ModuleCommand)
        ensures
            final(self)@ == (ModuleView { commands: old(self)@.commands.push(cmd), ..old(self)@ }),
    {
        self.commands.push(cmd);
    }

    /// Takes all commands off the queue, oldest first.
    pub fn drain_commands(&mut self) -> (r: Vec<ModuleCommand>)
        ensures
            r@ == old(self)@.commands,
            final(self)@ == (ModuleView { commands: Seq::empty(), ..old(self)@ }),
    {
        let mut r: Vec<ModuleCommand> = Vec::new();
        core::mem::swap(&mut r, &mut self.commands);
        r
    }

    /// Takes the commands off the queue that are carried out together, oldest
    /// first.
    pub fn take_batch(&mut self) -> (r: Vec<ModuleCommand>)
        ensures
            r@ == old(self)@.commands.take(batch_len(old(self)@.commands) as int),
            final(self)@ == (ModuleView {
                commands: old(self)@.commands.skip(batch_len(old(self)@.commands) as int),
                ..old(self)@
            }),
    {
        let mut r: Vec<ModuleCommand> = self.drain_commands();
        let n: usize = command_batch(&r);
        let rest: Vec<ModuleCommand> = r.split_off(n);
        proof {
            assert(r@ =~= old(self)@.commands.take(n as int));
            assert(rest@ =~= old(self)@.commands.skip(n as int));
        }
        self.commands = rest;
        r
    }

    /// Takes the oldest output for which Emacs is about to open a frame.
    pub fn take_pending_frame_output(&mut self) -> (r: Option<String>)
        ensures
            match r {
                Some(name) => old(self)@.pending_frame_outputs.len() > 0 && name@ == old(
                    self)@.pending_frame_outputs[0] && final(self)@ == (ModuleView {
                    pending_frame_outputs: old(self)@.pending_frame_outputs.drop_first(),
                    ..old(self)@
                }),
                None => old(self)@.pending_frame_outputs.len() == 0 && final(self)@ == old(self)@,
            },
    {
        if self.pending_frame_outputs.len() == 0 {
            return None;
        }
        let name: String = self.pending_frame_outputs.remove(0);
        proof {
            assert(views(self.pending_frame_outputs@) =~= views(
                old(self).pending_frame_outputs@,
            ).drop_first());
        }
        Some(name)
    }

    /// Remembers an output for which Emacs is about to open a frame.
    pub fn push_pending_frame_output(&mut self, name: String)
        ensures
            final(self)@ == (ModuleView {
                pending_frame_outputs: old(self)@.pending_frame_outputs.push(name@),
                ..old(self)@
            }),
    {
        self.pending_frame_outputs.push(name);
        proof {
            assert(views(self.pending_frame_outputs@) =~= views(
                old(self).pending_frame_outputs@,
            ).push(name@));
        }
    }

    /// Takes the surface that Emacs wants focused before the next key.
    pub fn take_pending_focus(&mut self) -> (r: Option<u32>)
        ensures
            r == old(self)@.pending_focus,
            final(self)@ == (ModuleView { pending_focus: None, ..old(self)@ }),
    {
        self.pending_focus.take()
    }

    /// Sets where the frame of an output starts.
    pub fn set_output_offset(&mut self, name: &str, at: Point)
        ensures
            final(self)@ == (ModuleView {
                output_offsets: old(self)@.output_offsets.insert(name@, at),
                ..old(self)@
            }),
    {
        self.output_offsets.insert(owned(name), at);
    }

    /// Forgets where the frame of an output starts.
    pub fn remove_output(&mut self, name: &str)
        ensures
            final(self)@ == (ModuleView {
                output_offsets: old(self)@.output_offsets.remove(name@),
                ..old(self)@
            }),
    {
        self.output_offsets.remove(name);
    }

    /// Records a change of the focus.
    pub fn record_focus(&mut self, id: u32, source: &str, context: Option<&str>)
        ensures
            final(self)@ == (ModuleView {
                focus_history: old(self)@.focus_history.push(
                    FocusRecordView { id, source: source@, context: str_view(context) },
                ),
                ..old(self)@
            }),
    {
        let context: Option<String> = match context {
            Some(text) => Some(owned(text)),
            None => None,
        };
        let record: FocusRecord = FocusRecord { id, source: owned(source), context };
        self.focus_history.push(record);
        proof {
            assert(focus_views(self.focus_history@) =~= focus_views(
                old(self).focus_history@,
            ).push(record@));
        }
    }

    /// Hands an activation token to Emacs.
    pub fn push_activation_token(&mut self, token: String)
        ensures
            final(self)@ == (ModuleView {
                activation_tokens: old(self)@.activation_tokens.push(token@),
                ..old(self)@
            }),
    {
        self.activation_tokens.push(token);
        proof {
            assert(views(self.activation_tokens@) =~= views(old(self).activation_tokens@).push(
                token@,
            ));
        }
    }
}

/// Events come out in the order in which they went in: after pushing two
/// events on an empty queue, the first is next and the second remains.
pub proof fn lemma_events_in_order(m: ModuleView, a: EventView, b: EventView)
    requires
        m.events.len() == 0,
    ensures
        m.push_event_spec(a).push_event_spec(b).events[0] == a,
        m.push_event_spec(a).push_event_spec(b).events.drop_first() == seq![b],
{
    assert(m.push_event_spec(a).push_event_spec(b).events.drop_first() =~= seq![b]);
}

// ---------------------------------------------------------------------------
// Commands from Lisp values
// ---------------------------------------------------------------------------
/// A truth value as Emacs gives it.
#[derive(Clone, Copy, Debug, PartialEq, Eq, Structural)]
pub enum LispFlag {
    /// `nil`.
    Nil,
    /// The keyword `:false`.
    KeywordFalse,
    /// The keyword `:unset`.
    KeywordUnset,
    /// Anything else.
    Other,
}

/// Whether a flag is set: neither `nil` nor `:false`.
pub fn flag_is_true(flag: LispFlag) -> (r: bool)
    ensures
        r == (flag !is Nil && flag !is KeywordFalse),
{
    match flag {
        LispFlag::Nil | LispFlag::KeywordFalse => false,
        _ => true,
    }
}

/// What a tri-state flag asks for: nothing for `:unset`, off for `nil`, on
/// for anything else.
pub open spec fn choice_of(flag: LispFlag) -> Option<bool> {
    match flag {
        LispFlag::Nil => Some(false),
        LispFlag::KeywordUnset => None,
        _ => Some(true),
    }
}

/// What a tri-state flag asks for.
pub fn flag_choice(flag: LispFlag) -> (r: Option<bool>)
    ensures
        r == choice_of(flag),
{
    match flag {
        LispFlag::Nil => Some(false),
        LispFlag::KeywordUnset => None,
        _ => Some(true),
    }
}

/// A layout command from Lisp integers, each cut to the width of its field.
pub open spec fn layout_command(id: i64, x: i64, y: i64, w: i64, h: i64) -> ModuleCommand {
    ModuleCommand::Layout { id: id as u32, x: x as i32, y: y as i32, w: w as u32, h: h as u32 }
}

/// A layout command from Lisp integers.
pub fn layout_module(id: i64, x: i64, y: i64, w: i64, h: i64) -> (r: ModuleCommand)
    ensures
        r == layout_command(id, x, y, w, h),
{
    ModuleCommand::Layout {
        id: #[verifier::truncate] (id as u32),
        x: #[verifier::truncate] (x as i32),
        y: #[verifier::truncate] (y as i32),
        w: #[verifier::truncate] (w as u32),
        h: #[verifier::truncate] (h as u32),
    }
}

/// One view from Lisp values, integers cut to the width of their field.
pub open spec fn view_of(x: i64, y: i64, w: i64, h: i64, active: LispFlag) -> SurfaceView {
    SurfaceView {
        x: x as i32,
        y: y as i32,
        w: w as u32,
        h: h as u32,
        active: active !is Nil && active !is KeywordFalse,
    }
}

/// One view from Lisp values.
pub fn view_module(x: i64, y: i64, w: i64, h: i64, active: LispFlag) -> (r: SurfaceView)
    ensures
        r == view_of(x, y, w, h, active),
{
    SurfaceView {
        x: #[verifier::truncate] (x as i32),
        y: #[verifier::truncate] (y as i32),
        w: #[verifier::truncate] (w as u32),
        h: #[verifier::truncate] (h as u32),
        active: flag_is_true(active),
    }
}

/// An optional Lisp integer, cut to 32 bits.
pub open spec fn optional_i32(n: Option<i64>) -> Option<i32> {
    match n {
        Some(n) => Some(n as i32),
        None => None,
    }
}

fn to_optional_i32(n: Option<i64>) -> (r: Option<i32>)
    ensures
        r == optional_i32(n),
{
    match n {
        Some(n) => Some(#[verifier::truncate] (n as i32)),
        None => None,
    }
}

/// An output change from Lisp values. The scale is the bit pattern of a
/// double.
pub open spec fn change_of(
    x: Option<i64>,
    y: Option<i64>,
    width: Option<i64>,
    height: Option<i64>,
    refresh: Option<i64>,
    scale: Option<u64>,
    transform: Option<i64>,
    enabled: LispFlag,
) -> OutputChange {
    OutputChange {
        x: optional_i32(x),
        y: optional_i32(y),
        width: optional_i32(width),
        height: optional_i32(height),
        refresh: optional_i32(refresh),
        scale,
        transform: optional_i32(transform),
        enabled: choice_of(enabled),
    }
}

/// An output change from Lisp values.
pub fn configure_output_module(
    x: Option<i64>,
    y: Option<i64>,
    width: Option<i64>,
    height: Option<i64>,
    refresh: Option<i64>,
    scale: Option<u64>,
    transform: Option<i64>,
    enabled: LispFlag,
) -> (r: OutputChange)
    ensures
        r == change_of(x, y, width, height, refresh, scale, transform, enabled),
{
    OutputChange {
        x: to_optional_i32(x),
        y: to_optional_i32(y),
        width: to_optional_i32(width),
        height: to_optional_i32(height),
        refresh: to_optional_i32(refresh),
        scale,
        transform: to_optional_i32(transform),
        enabled: flag_choice(enabled),
    }
}

/// A key of a key specification, as Emacs gives it.
#[derive(Debug)]
pub enum LispKey {
    Int(i64),
    Text(String),
    /// Neither an integer nor a string.
    Other,
}

/// A key specification, as Emacs gives it.
#[derive(Debug)]
pub struct LispKeySpec {
    pub key: LispKey,
    pub ctrl: LispFlag,
    pub alt: LispFlag,
    pub shift: LispFlag,
    pub logo: LispFlag,
    pub is_prefix: LispFlag,
}

/// Whether a flag is set.
pub open spec fn flag_set(flag: LispFlag) -> bool {
    flag !is Nil && flag !is KeywordFalse
}

/// The key that a specification stands for; none where its key is neither an
/// integer nor a string.
pub open spec fn key_of_spec(s: LispKeySpec) -> Option<InterceptedKeyView> {
    let mods = crate::keys::Modifiers {
        ctrl: flag_set(s.ctrl),
        alt: flag_set(s.alt),
        shift: flag_set(s.shift),
        logo: flag_set(s.logo),
    };
    match s.key {
        LispKey::Int(n) => Some(
            InterceptedKeyView {
                key: KeyIdView::Keysym(n as u32),
                mods,
                is_prefix: flag_set(s.is_prefix),
            },
        ),
        LispKey::Text(name) => Some(
            InterceptedKeyView {
                key: KeyIdView::Named(name@),
                mods,
                is_prefix: flag_set(s.is_prefix),
            },
        ),
        LispKey::Other => None,
    }
}

/// The keys that the specifications stand for, in order, without those that
/// stand for none.
pub open spec fn keys_of_specs(specs: Seq<LispKeySpec>) -> Seq<InterceptedKeyView>
    decreases specs.len(),
{
    if specs.len() == 0 {
        Seq::empty()
    } else {
        let before = keys_of_specs(specs.drop_last());
        match key_of_spec(specs.last()) {
            Some(k) => before.push(k),
            None => before,
        }
    }
}

/// The keys that the specifications stand for.
pub fn intercept_keys_module(specs: Vec<LispKeySpec>) -> (keys: Vec<InterceptedKey>)
    ensures
        key_views(keys@) == keys_of_specs(specs@),
{
    let mut keys: Vec<InterceptedKey> = Vec::new();
    let mut i: usize = 0;
    proof {
        assert(specs@.take(0) =~= Seq::<LispKeySpec>::empty());
        assert(key_views(keys@) =~= Seq::<InterceptedKeyView>::empty());
    }
    while i < specs.len()
        invariant
            i <= specs@.len(),
            key_views(keys@) == keys_of_specs(specs@.take(i as int)),
        decreases specs@.len() - i,
    {
        let s: &LispKeySpec = &specs[i];
        proof {
            assert(specs@.take(i + 1).drop_last() =~= specs@.take(i as int));
            assert(specs@.take(i + 1).last() == *s);
        }
        let key: Option<KeyId> = match &s.key {
            LispKey::Int(n) => Some(KeyId::Keysym(#[verifier::truncate] (*n as u32))),
            LispKey::Text(name) => Some(KeyId::Named(name.clone())),
            LispKey::Other => None,
        };
        if let Some(key) = key {
            let k: InterceptedKey = InterceptedKey {
                key,
                ctrl: flag_is_true(s.ctrl),
                alt: flag_is_true(s.alt),
                shift: flag_is_true(s.shift),
                logo: flag_is_true(s.logo),
                is_prefix: flag_is_true(s.is_prefix),
            };
            let ghost before = key_views(keys@);
            keys.push(k);
            proof {
                assert(key_views(keys@) =~= before.push(k@));
            }
        }
        i += 1;
    }
    proof {
        assert(specs@.take(i as int) =~= specs@);
    }
    keys
}

} // verus!
