//! Events sent from the compositor to Emacs, and the alists that they become.
use vstd::prelude::*;

use crate::text::{owned, views};

verus! {

/// Output mode information.
#[derive(Clone, Copy, Debug, PartialEq, Eq, Structural)]
pub struct OutputMode {
    pub width: i32,
    pub height: i32,
    /// In millihertz.
    pub refresh: i32,
    pub preferred: bool,
}

/// Output information sent to Emacs.
#[derive(Clone, Debug)]
pub struct OutputInfo {
    pub name: String,
    pub make: String,
    pub model: String,
    pub width_mm: i32,
    pub height_mm: i32,
    pub x: i32,
    pub y: i32,
    pub modes: Vec<OutputMode>,
}

/// What an [`OutputInfo`] holds.
#[verifier::ext_equal]
pub struct OutputInfoView {
    pub name: Seq<char>,
    pub make: Seq<char>,
    pub model: Seq<char>,
    pub width_mm: i32,
    pub height_mm: i32,
    pub x: i32,
    pub y: i32,
    pub modes: Seq<OutputMode>,
}

impl View for OutputInfo {
    type V = OutputInfoView;

    open spec fn view(&self) -> OutputInfoView {
        OutputInfoView {
            name: self.name@,
            make: self.make@,
            model: self.model@,
            width_mm: self.width_mm,
            height_mm: self.height_mm,
            x: self.x,
            y: self.y,
            modes: self.modes@,
        }
    }
}

/// What a list of output descriptions holds.
pub open spec fn info_views(infos: Seq<OutputInfo>) -> Seq<OutputInfoView> {
    Seq::new(infos.len(), |i: int| infos[i]@)
}

/// A copy of a list of modes.
pub fn copy_modes(modes: &Vec<OutputMode>) -> (r: Vec<OutputMode>)
    ensures
        r@ == modes@,
{
    let mut r: Vec<OutputMode> = Vec::new();
    let mut i: usize = 0;
    while i < modes.len()
        invariant
            i <= modes@.len(),
            r@ == modes@.take(i as int),
        decreases modes@.len() - i,
    {
        r.push(modes[i]);
        proof {
            assert(modes@.take(i + 1) =~= modes@.take(i as int).push(modes@[i as int]));
        }
        i += 1;
    }
    proof {
        assert(modes@.take(i as int) =~= modes@);
    }
    r
}

impl OutputInfo {
    /// A copy of the description.
    pub fn copy(&self) -> (r: OutputInfo)
        ensures
            r@ == self@,
    {
        OutputInfo {
            name: self.name.clone(),
            make: self.make.clone(),
            model: self.model.clone(),
            width_mm: self.width_mm,
            height_mm: self.height_mm,
            x: self.x,
            y: self.y,
            modes: copy_modes(&self.modes),
        }
    }
}

/// Events sent from the compositor to Emacs.
#[allow(inconsistent_fields)]
#[derive(Clone, Debug)]
pub enum Event {
    /// The compositor is ready.
    Ready,
    /// A surface was created.
    New { id: u32, app: String, output: Option<String> },
    /// A surface was closed.
    Close { id: u32 },
    /// The title of a surface changed.
    Title { id: u32, app: String, title: String },
    /// The focus moved to a surface.
    Focus { id: u32 },
    /// An output was connected.
    OutputDetected(OutputInfo),
    /// An output was disconnected.
    OutputDisconnected { name: String },
    /// All outputs have been sent.
    OutputsComplete,
    /// The keyboard layouts that there are.
    Layouts { layouts: Vec<String>, current: usize },
    /// The keyboard layout changed.
    LayoutSwitched { layout: String, index: usize },
    /// A text input became active.
    TextInputActivated,
    /// The text input is no longer active.
    TextInputDeactivated,
    /// A key that was kept from the focused surface.
    Key { keysym: u32, utf8: Option<String> },
    /// The area of an output that no panel reserves changed.
    WorkingArea { output: String, x: i32, y: i32, width: i32, height: i32 },
    /// The clipboard holds a new text.
    SelectionChanged { text: String },
    /// The state of the compositor, for debugging.
    State { json: String },
}

/// What an [`Event`] holds.
#[allow(inconsistent_fields)]
#[verifier::ext_equal]
pub enum EventView {
    Ready,
    New { id: u32, app: Seq<char>, output: Option<Seq<char>> },
    Close { id: u32 },
    Title { id: u32, app: Seq<char>, title: Seq<char> },
    Focus { id: u32 },
    OutputDetected(OutputInfoView),
    OutputDisconnected { name: Seq<char> },
    OutputsComplete,
    Layouts { layouts: Seq<Seq<char>>, current: usize },
    LayoutSwitched { layout: Seq<char>, index: usize },
    TextInputActivated,
    TextInputDeactivated,
    Key { keysym: u32, utf8: Option<Seq<char>> },
    WorkingArea { output: Seq<char>, x: i32, y: i32, width: i32, height: i32 },
    SelectionChanged { text: Seq<char> },
    State { json: Seq<char> },
}

/// The characters of an optional string.
pub open spec fn text_view(s: Option<String>) -> Option<Seq<char>> {
    match s {
        Some(s) => Some(s@),
        None => None,
    }
}

impl View for Event {
    type V = EventView;

    open spec fn view(&self) -> EventView {
        match self {
            Event::Ready => EventView::Ready,
            Event::New { id, app, output } => EventView::New {
                id: *id,
                app: app@,
                output: text_view(*output),
            },
            Event::Close { id } => EventView::Close { id: *id },
            Event::Title { id, app, title } => EventView::Title {
                id: *id,
                app: app@,
                title: title@,
            },
            Event::Focus { id } => EventView::Focus { id: *id },
            Event::OutputDetected(info) => EventView::OutputDetected(info@),
            Event::OutputDisconnected { name } => EventView::OutputDisconnected { name: name@ },
            Event::OutputsComplete => EventView::OutputsComplete,
            Event::Layouts { layouts, current } => EventView::Layouts {
                layouts: views(layouts@),
                current: *current,
            },
            Event::LayoutSwitched { layout, index } => EventView::LayoutSwitched {
                layout: layout@,
                index: *index,
            },
            Event::TextInputActivated => EventView::TextInputActivated,
            Event::TextInputDeactivated => EventView::TextInputDeactivated,
            Event::Key { keysym, utf8 } => EventView::Key {
                keysym: *keysym,
                utf8: text_view(*utf8),
            },
            Event::WorkingArea { output, x, y, width, height } => EventView::WorkingArea {
                output: output@,
                x: *x,
                y: *y,
                width: *width,
                height: *height,
            },
            Event::SelectionChanged { text } => EventView::SelectionChanged { text: text@ },
            Event::State { json } => EventView::State { json: json@ },
        }
    }
}

/// What a list of events holds.
pub open spec fn event_views(events: Seq<Event>) -> Seq<EventView> {
    Seq::new(events.len(), |i: int| events[i]@)
}

// ---------------------------------------------------------------------------
// Alists
// ---------------------------------------------------------------------------
/// The value of one entry of an alist.
#[derive(Debug, Clone)]
pub enum LispValue {
    Int(i64),
    Bool(bool),
    Text(String),
    /// A list of strings.
    Texts(Vec<String>),
    /// A list of alists, one for each mode.
    Modes(Vec<OutputMode>),
}

/// One entry of an alist.
#[derive(Debug, Clone)]
pub struct LispField {
    pub key: String,
    pub value: LispValue,
}

/// What a [`LispValue`] holds.
#[verifier::ext_equal]
pub enum LispValueView {
    Int(i64),
    Bool(bool),
    Text(Seq<char>),
    Texts(Seq<Seq<char>>),
    Modes(Seq<OutputMode>),
}

/// What a [`LispField`] holds.
#[verifier::ext_equal]
pub struct LispFieldView {
    pub key: Seq<char>,
    pub value: LispValueView,
}

impl View for LispField {
    type V = LispFieldView;

    open spec fn view(&self) -> LispFieldView {
        LispFieldView {
            key: self.key@,
            value: self.value@,
        }
    }
}

impl View for LispValue {
    type V = LispValueView;

    open spec fn view(&self) -> LispValueView {
        match self {
            LispValue::Int(n) => LispValueView::Int(*n),
            LispValue::Bool(b) => LispValueView::Bool(*b),
            LispValue::Text(s) => LispValueView::Text(s@),
            LispValue::Texts(v) => LispValueView::Texts(views(v@)),
            LispValue::Modes(v) => LispValueView::Modes(v@),
        }
    }
}

/// What an alist holds.
pub open spec fn field_views(fields: Seq<LispField>) -> Seq<LispFieldView> {
    Seq::new(fields.len(), |i: int| fields[i]@)
}

/// An entry with an integer.
pub open spec fn int_entry(key: Seq<char>, n: i64) -> LispFieldView {
    LispFieldView { key, value: LispValueView::Int(n) }
}

/// An entry with a string.
pub open spec fn text_entry(key: Seq<char>, s: Seq<char>) -> LispFieldView {
    LispFieldView { key, value: LispValueView::Text(s) }
}

/// The optional last entry of an alist.
pub open spec fn optional_entry(key: Seq<char>, s: Option<Seq<char>>) -> Seq<LispFieldView> {
    match s {
        Some(s) => seq![text_entry(key, s)],
        None => Seq::empty(),
    }
}

/// The name of an event, the value of its `event` entry.
pub open spec fn event_name(e: EventView) -> Seq<char> {
    match e {
        EventView::Ready => "ready"@,
        EventView::New { .. } => "new"@,
        EventView::Close { .. } => "close"@,
        EventView::Title { .. } => "title"@,
        EventView::Focus { .. } => "focus"@,
        EventView::OutputDetected(_) => "output_detected"@,
        EventView::OutputDisconnected { .. } => "output_disconnected"@,
        EventView::OutputsComplete => "outputs_complete"@,
        EventView::Layouts { .. } => "layouts"@,
        EventView::LayoutSwitched { .. } => "layout-switched"@,
        EventView::TextInputActivated => "text-input-activated"@,
        EventView::TextInputDeactivated => "text-input-deactivated"@,
        EventView::Key { .. } => "key"@,
        EventView::WorkingArea { .. } => "working_area"@,
        EventView::SelectionChanged { .. } => "selection-changed"@,
        EventView::State { .. } => "state"@,
    }
}

/// The entries that follow the name of an event.
pub open spec fn event_entries(e: EventView) -> Seq<LispFieldView> {
    match e {
        EventView::New { id, app, output } => seq![
            int_entry("id"@, id as i64),
            text_entry("app"@, app),
        ] + optional_entry("output"@, output),
        EventView::Close { id } => seq![int_entry("id"@, id as i64)],
        EventView::Title { id, app, title } => seq![
            int_entry("id"@, id as i64),
            text_entry("app"@, app),
            text_entry("title"@, title),
        ],
        EventView::Focus { id } => seq![int_entry("id"@, id as i64)],
        EventView::OutputDetected(info) => seq![
            text_entry("name"@, info.name),
            text_entry("make"@, info.make),
            text_entry("model"@, info.model),
            int_entry("width-mm"@, info.width_mm as i64),
            int_entry("height-mm"@, info.height_mm as i64),
            int_entry("x"@, info.x as i64),
            int_entry("y"@, info.y as i64),
            LispFieldView { key: "modes"@, value: LispValueView::Modes(info.modes) },
        ],
        EventView::OutputDisconnected { name } => seq![text_entry("name"@, name)],
        EventView::Layouts { layouts, current } => seq![
            LispFieldView { key: "layouts"@, value: LispValueView::Texts(layouts) },
            int_entry("current"@, current as i64),
        ],
        EventView::LayoutSwitched { layout, index } => seq![
            text_entry("layout"@, layout),
            int_entry("index"@, index as i64),
        ],
        EventView::Key { keysym, utf8 } => seq![int_entry("keysym"@, keysym as i64)]
            + optional_entry("utf8"@, utf8),
        EventView::WorkingArea { output, x, y, width, height } => seq![
            text_entry("output"@, output),
            int_entry("x"@, x as i64),
            int_entry("y"@, y as i64),
            int_entry("width"@, width as i64),
            int_entry("height"@, height as i64),
        ],
        EventView::SelectionChanged { text } => seq![text_entry("text"@, text)],
        EventView::State { json } => seq![text_entry("json"@, json)],
        _ => Seq::empty(),
    }
}

/// The alist of an event: its name first, then what it carries.
pub open spec fn event_alist(e: EventView) -> Seq<LispFieldView> {
    seq![text_entry("event"@, event_name(e))] + event_entries(e)
}

/// The alist of one mode.
pub open spec fn mode_alist(m: OutputMode) -> Seq<LispFieldView> {
    seq![
        int_entry("width"@, m.width as i64),
        int_entry("height"@, m.height as i64),
        int_entry("refresh"@, m.refresh as i64),
        LispFieldView { key: "preferred"@, value: LispValueView::Bool(m.preferred) },
    ]
}

/// Appends an entry.
fn push_entry(fields: &mut Vec<LispField>, key: &str, value: LispValue)
    ensures
        field_views(final(fields)@) == field_views(old(fields)@).push(
            LispFieldView { key: key@, value: value@ },
        ),
{
    fields.push(LispField { key: owned(key), value });
    proof {
        assert(field_views(fields@) =~= field_views(old(fields)@).push(fields@.last()@));
    }
}

/// Appends an entry with a string, where there is one.
fn push_optional(fields: &mut Vec<LispField>, key: &str, value: Option<String>)
    ensures
        field_views(final(fields)@) == field_views(old(fields)@) + optional_entry(
            key@,
            text_view(value),
        ),
{
    match value {
        Some(s) => {
            push_entry(fields, key, LispValue::Text(s));
            proof {
                assert(field_views(old(fields)@).push(text_entry(key@, s@)) =~= field_views(
                    old(fields)@,
                ) + seq![text_entry(key@, s@)]);
            }
        },
        None => {
            proof {
                assert(field_views(fields@) =~= field_views(old(fields)@) + Seq::empty());
            }
        },
    }
}

/// An alist that holds the name of an event.
fn named(name: &str) -> (fields: Vec<LispField>)
    ensures
        field_views(fields@) == seq![text_entry("event"@, name@)],
{
    let mut fields: Vec<LispField> = Vec::new();
    push_entry(&mut fields, "event", LispValue::Text(owned(name)));
    proof {
        assert(field_views(fields@) =~= seq![text_entry("event"@, name@)]);
    }
    fields
}

/// The alist of an event.
pub fn event_to_lisp(event: Event) -> (fields: Vec<LispField>)
    ensures
        field_views(fields@) == event_alist(event@),
{
    let ghost e = event@;
    let fields: Vec<LispField> = match event {
        Event::Ready => named("ready"),
        Event::New { id, app, output } => {
            let mut f: Vec<LispField> = named("new");
            push_entry(&mut f, "id", LispValue::Int(id as i64));
            push_entry(&mut f, "app", LispValue::Text(app));
            push_optional(&mut f, "output", output);
            f
        },
        Event::Close { id } => {
            let mut f: Vec<LispField> = named("close");
            push_entry(&mut f, "id", LispValue::Int(id as i64));
            f
        },
        Event::Title { id, app, title } => {
            let mut f: Vec<LispField> = named("title");
            push_entry(&mut f, "id", LispValue::Int(id as i64));
            push_entry(&mut f, "app", LispValue::Text(app));
            push_entry(&mut f, "title", LispValue::Text(title));
            f
        },
        Event::Focus { id } => {
            let mut f: Vec<LispField> = named("focus");
            push_entry(&mut f, "id", LispValue::Int(id as i64));
            f
        },
        Event::OutputDetected(info) => {
            let mut f: Vec<LispField> = named("output_detected");
            push_entry(&mut f, "name", LispValue::Text(info.name));
            push_entry(&mut f, "make", LispValue::Text(info.make));
            push_entry(&mut f, "model", LispValue::Text(info.model));
            push_entry(&mut f, "width-mm", LispValue::Int(info.width_mm as i64));
            push_entry(&mut f, "height-mm", LispValue::Int(info.height_mm as i64));
            push_entry(&mut f, "x", LispValue::Int(info.x as i64));
            push_entry(&mut f, "y", LispValue::Int(info.y as i64));
            push_entry(&mut f, "modes", LispValue::Modes(info.modes));
            f
        },
        Event::OutputDisconnected { name } => {
            let mut f: Vec<LispField> = named("output_disconnected");
            push_entry(&mut f, "name", LispValue::Text(name));
            f
        },
        Event::OutputsComplete => named("outputs_complete"),
        Event::Layouts { layouts, current } => {
            let mut f: Vec<LispField> = named("layouts");
            push_entry(&mut f, "layouts", LispValue::Texts(layouts));
            push_entry(&mut f, "current", LispValue::Int(current as i64));
            f
        },
        Event::LayoutSwitched { layout, index } => {
            let mut f: Vec<LispField> = named("layout-switched");
            push_entry(&mut f, "layout", LispValue::Text(layout));
            push_entry(&mut f, "index", LispValue::Int(index as i64));
            f
        },
        Event::TextInputActivated => named("text-input-activated"),
        Event::TextInputDeactivated => named("text-input-deactivated"),
        Event::Key { keysym, utf8 } => {
            let mut f: Vec<LispField> = named("key");
            push_entry(&mut f, "keysym", LispValue::Int(keysym as i64));
            push_optional(&mut f, "utf8", utf8);
            f
        },
        Event::WorkingArea { output, x, y, width, height } => {
            let mut f: Vec<LispField> = named("working_area");
            push_entry(&mut f, "output", LispValue::Text(output));
            push_entry(&mut f, "x", LispValue::Int(x as i64));
            push_entry(&mut f, "y", LispValue::Int(y as i64));
            push_entry(&mut f, "width", LispValue::Int(width as i64));
            push_entry(&mut f, "height", LispValue::Int(height as i64));
            f
        },
        Event::SelectionChanged { text } => {
            let mut f: Vec<LispField> = named("selection-changed");
            push_entry(&mut f, "text", LispValue::Text(text));
            f
        },
        Event::State { json } => {
            let mut f: Vec<LispField> = named("state");
            push_entry(&mut f, "json", LispValue::Text(json));
            f
        },
    };
    proof {
        assert(field_views(fields@) =~= event_alist(e));
    }
    fields
}

/// The alist of one mode.
pub fn mode_to_lisp(m: &OutputMode) -> (fields: Vec<LispField>)
    ensures
        field_views(fields@) == mode_alist(*m),
{
    let mut f: Vec<LispField> = Vec::new();
    push_entry(&mut f, "width", LispValue::Int(m.width as i64));
    push_entry(&mut f, "height", LispValue::Int(m.height as i64));
    push_entry(&mut f, "refresh", LispValue::Int(m.refresh as i64));
    push_entry(&mut f, "preferred", LispValue::Bool(m.preferred));
    proof {
        assert(field_views(f@) =~= mode_alist(*m));
    }
    f
}

} // verus!
