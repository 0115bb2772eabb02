//! What passes between Emacs and the compositor.
use vstd::prelude::*;

use crate::event::{
    event_alist, mode_alist, EventView, LispFieldView, LispValueView, OutputMode,
};
use crate::keys::{InterceptedKeyView, KeyIdView};
use crate::module::{
    change_of, key_of_spec, keys_of_specs, layout_command, optional_i32, view_of, LispFlag, LispKey,
    LispKeySpec, ModuleCommand,
};

verus! {

/// Whether an alist has an entry with this key and this value.
pub open spec fn says(alist: Seq<LispFieldView>, key: Seq<char>, value: LispValueView) -> bool {
    exists|k: int|
        0 <= k < alist.len() && (#[trigger] alist[k]).key == key && alist[k].value == value
}

/// Whether an alist has an integer under this key.
pub open spec fn says_int(alist: Seq<LispFieldView>, key: Seq<char>, n: i64) -> bool {
    says(alist, key, LispValueView::Int(n))
}

/// Whether an alist has a text under this key.
pub open spec fn says_text(alist: Seq<LispFieldView>, key: Seq<char>, text: Seq<char>) -> bool {
    says(alist, key, LispValueView::Text(text))
}

proof fn lemma_says(alist: Seq<LispFieldView>, k: int)
    requires
        0 <= k < alist.len(),
    ensures
        says(alist, alist[k].key, alist[k].value),
{
}

/// The kind of an event comes first, under `event`.
pub proof fn lemma_kind_comes_first(e: EventView)
    ensures
        event_alist(e).len() > 0,
        event_alist(e)[0].key == "event"@,
        event_alist(e)[0].value == LispValueView::Text(
            match e {
                EventView::Ready => "ready"@,
                EventView::New { .. } => "new"@,
                EventView::Close { .. } => "close"@,
                EventView::Title { .. } => "title"@,
                EventView::Focus { .. } => "focus"@,
                EventView::OutputDetected(_) => "output_detected"@,
                EventView::OutputDisconnected { .. } => "output_disconnected"@,
                EventView::OutputsComplete => "outputs_complete"@,
                EventView::Layouts { .. } => "layouts"@,
                EventView::LayoutSwitched { .. } => "layout-switched"@,
                EventView::TextInputActivated => "text-input-activated"@,
                EventView::TextInputDeactivated => "text-input-deactivated"@,
                EventView::Key { .. } => "key"@,
                EventView::WorkingArea { .. } => "working_area"@,
                EventView::SelectionChanged { .. } => "selection-changed"@,
                EventView::State { .. } => "state"@,
            },
        ),
{
}

/// An event about a surface says which under `id`, and what it is called under
/// `app` and `title`; a new one that has an output says which under `output`,
/// and one that has none says nothing of it.
pub proof fn lemma_surface_events(e: EventView)
    ensures
        match e {
            EventView::New { id, app, output } => {
                &&& says_int(event_alist(e), "id"@, id as i64)
                &&& says_text(event_alist(e), "app"@, app)
                &&& output is Some ==> says_text(event_alist(e), "output"@, output->0)
                    && event_alist(e).len() == 4
                &&& output is None ==> event_alist(e).len() == 3
            },
            EventView::Close { id } => says_int(event_alist(e), "id"@, id as i64),
            EventView::Focus { id } => says_int(event_alist(e), "id"@, id as i64),
            EventView::Title { id, app, title } => {
                &&& says_int(event_alist(e), "id"@, id as i64)
                &&& says_text(event_alist(e), "app"@, app)
                &&& says_text(event_alist(e), "title"@, title)
            },
            _ => true,
        },
{
    let a = event_alist(e);
    if a.len() > 1 {
        lemma_says(a, 1);
    }
    if a.len() > 2 {
        lemma_says(a, 2);
    }
    if a.len() > 3 {
        lemma_says(a, 3);
    }
}

/// An event about an output says what it is called, how large it is in
/// millimetres, where it is, and what modes it has.
pub proof fn lemma_output_events(e: EventView)
    ensures
        match e {
            EventView::OutputDetected(info) => {
                let a = event_alist(e);
                &&& says_text(a, "name"@, info.name)
                &&& says_text(a, "make"@, info.make)
                &&& says_text(a, "model"@, info.model)
                &&& says_int(a, "width-mm"@, info.width_mm as i64)
                &&& says_int(a, "height-mm"@, info.height_mm as i64)
                &&& says_int(a, "x"@, info.x as i64)
                &&& says_int(a, "y"@, info.y as i64)
                &&& says(a, "modes"@, LispValueView::Modes(info.modes))
                &&& a.len() == 9
            },
            EventView::OutputDisconnected { name } => says_text(event_alist(e), "name"@, name),
            EventView::WorkingArea { output, x, y, width, height } => {
                let a = event_alist(e);
                &&& says_text(a, "output"@, output)
                &&& says_int(a, "x"@, x as i64)
                &&& says_int(a, "y"@, y as i64)
                &&& says_int(a, "width"@, width as i64)
                &&& says_int(a, "height"@, height as i64)
            },
            _ => true,
        },
{
    let a = event_alist(e);
    if a.len() > 1 {
        lemma_says(a, 1);
    }
    if a.len() > 5 {
        lemma_says(a, 2);
        lemma_says(a, 3);
        lemma_says(a, 4);
        lemma_says(a, 5);
    }
    if a.len() > 8 {
        lemma_says(a, 6);
        lemma_says(a, 7);
        lemma_says(a, 8);
    }
}

/// An event about the keyboard says which layouts there are and which is used,
/// or which key it is and what text it gives; one about the clipboard and one
/// about the state carry their text.
pub proof fn lemma_input_events(e: EventView)
    ensures
        match e {
            EventView::Layouts { layouts, current } => {
                &&& says(event_alist(e), "layouts"@, LispValueView::Texts(layouts))
                &&& says_int(event_alist(e), "current"@, current as i64)
            },
            EventView::LayoutSwitched { layout, index } => {
                &&& says_text(event_alist(e), "layout"@, layout)
                &&& says_int(event_alist(e), "index"@, index as i64)
            },
            EventView::Key { keysym, utf8 } => {
                &&& says_int(event_alist(e), "keysym"@, keysym as i64)
                &&& utf8 is Some ==> says_text(event_alist(e), "utf8"@, utf8->0)
                    && event_alist(e).len() == 3
                &&& utf8 is None ==> event_alist(e).len() == 2
            },
            EventView::SelectionChanged { text } => says_text(event_alist(e), "text"@, text),
            EventView::State { json } => says_text(event_alist(e), "json"@, json),
            EventView::Ready
            | EventView::OutputsComplete
            | EventView::TextInputActivated
            | EventView::TextInputDeactivated => event_alist(e).len() == 1,
            _ => true,
        },
{
    let a = event_alist(e);
    if a.len() > 1 {
        lemma_says(a, 1);
    }
    if a.len() > 2 {
        lemma_says(a, 2);
    }
}

/// A mode says how large it is, how fast, and whether it is preferred.
pub proof fn lemma_told_mode(m: OutputMode)
    ensures
        says_int(mode_alist(m), "width"@, m.width as i64),
        says_int(mode_alist(m), "height"@, m.height as i64),
        says_int(mode_alist(m), "refresh"@, m.refresh as i64),
        says(mode_alist(m), "preferred"@, LispValueView::Bool(m.preferred)),
        mode_alist(m).len() == 4,
{
    let a = mode_alist(m);
    lemma_says(a, 0);
    lemma_says(a, 1);
    lemma_says(a, 2);
    lemma_says(a, 3);
}

/// Whether a flag of Emacs is on: neither `nil` nor `:false`.
pub open spec fn is_on(flag: LispFlag) -> bool {
    !(flag is Nil || flag is KeywordFalse)
}

/// The key of a specification has the keysym or the name that it gives, and just
/// the modifiers that it turns on.
pub proof fn lemma_key_specification(s: LispKeySpec)
    ensures
        match key_of_spec(s) {
            Some(k) => {
                &&& k.mods.ctrl == is_on(s.ctrl)
                &&& k.mods.alt == is_on(s.alt)
                &&& k.mods.shift == is_on(s.shift)
                &&& k.mods.logo == is_on(s.logo)
                &&& k.is_prefix == is_on(s.is_prefix)
                &&& match s.key {
                    LispKey::Int(n) => k.key matches KeyIdView::Keysym(sym) && (0 <= n <= u32::MAX
                        ==> sym == n),
                    LispKey::Text(name) => k.key == KeyIdView::Named(name@),
                    LispKey::Other => false,
                }
            },
            None => s.key is Other,
        },
{
}

/// The keys of a list of specifications come in their order; one that is no key
/// is left out.
pub proof fn lemma_key_specifications(a: Seq<LispKeySpec>, b: Seq<LispKeySpec>, s: LispKeySpec)
    ensures
        keys_of_specs(a + b) == keys_of_specs(a) + keys_of_specs(b),
        s.key is Other ==> keys_of_specs(seq![s]) == Seq::<InterceptedKeyView>::empty(),
        s.key !is Other ==> keys_of_specs(seq![s]) == seq![key_of_spec(s)->0],
    decreases b.len(),
{
    let one = seq![s];
    reveal_with_fuel(keys_of_specs, 2);
    assert(one.drop_last() =~= Seq::<LispKeySpec>::empty());
    assert(one.last() == s);
    if s.key is Other {
        assert(keys_of_specs(one) =~= Seq::<InterceptedKeyView>::empty());
    } else {
        assert(keys_of_specs(one) =~= seq![key_of_spec(s)->0]);
    }
    if b.len() == 0 {
        assert(a + b =~= a);
        assert(keys_of_specs(a) + keys_of_specs(b) =~= keys_of_specs(a));
    } else {
        lemma_key_specifications(a, b.drop_last(), s);
        assert((a + b).drop_last() =~= a + b.drop_last());
        assert((a + b).last() == b.last());
        assert(keys_of_specs(a + b) =~= keys_of_specs(a) + keys_of_specs(b));
    }
}

/// An optional integer of Emacs keeps its value where 32 bits hold it, and is
/// missing where it was.
pub proof fn lemma_optional_integers(n: Option<i64>)
    ensures
        n is Some <==> optional_i32(n) is Some,
        n is Some && i32::MIN <= n->0 <= i32::MAX ==> optional_i32(n)->0 == n->0,
{
}

/// A layout of Emacs keeps the surface, the place and the size that Emacs gave,
/// where the fields hold them.
pub proof fn lemma_layout_of_emacs(id: i64, x: i64, y: i64, w: i64, h: i64)
    requires
        0 <= id <= u32::MAX,
        i32::MIN <= x <= i32::MAX,
        i32::MIN <= y <= i32::MAX,
        0 <= w <= u32::MAX,
        0 <= h <= u32::MAX,
    ensures
        match layout_command(id, x, y, w, h) {
            ModuleCommand::Layout { id: i, x: left, y: top, w: width, h: height } => i == id && left
                == x && top == y && width == w && height == h,
            _ => false,
        },
{
}

/// So does a view, which is active where its flag is on.
pub proof fn lemma_view_of_emacs(x: i64, y: i64, w: i64, h: i64, active: LispFlag)
    requires
        i32::MIN <= x <= i32::MAX,
        i32::MIN <= y <= i32::MAX,
        0 <= w <= u32::MAX,
        0 <= h <= u32::MAX,
    ensures
        ({
            let v = view_of(x, y, w, h, active);
            v.x == x && v.y == y && v.w == w && v.h == h && v.active == is_on(active)
        }),
{
}

/// Whether an optional integer was kept, where 32 bits hold it.
pub open spec fn is_kept(given: Option<i64>, kept: Option<i32>) -> bool {
    &&& given is Some <==> kept is Some
    &&& given is Some && i32::MIN <= given->0 <= i32::MAX ==> kept->0 == given->0
}

/// A change of an output names just what Emacs gave, with its value; it is
/// turned off by `nil`, left as it is by `:unset`, and else turned on.
pub proof fn lemma_change_of_emacs(
    x: Option<i64>,
    y: Option<i64>,
    width: Option<i64>,
    height: Option<i64>,
    refresh: Option<i64>,
    scale: Option<u64>,
    transform: Option<i64>,
    enabled: LispFlag,
)
    ensures
        ({
            let c = change_of(x, y, width, height, refresh, scale, transform, enabled);
            &&& is_kept(x, c.x)
            &&& is_kept(y, c.y)
            &&& is_kept(width, c.width)
            &&& is_kept(height, c.height)
            &&& is_kept(refresh, c.refresh)
            &&& is_kept(transform, c.transform)
            &&& c.scale == scale
            &&& c.enabled is None <==> enabled is KeywordUnset
            &&& c.enabled == Some(false) <==> enabled is Nil
        }),
{
}

} // verus!
