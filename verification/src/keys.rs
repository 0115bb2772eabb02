//! Key identifiers, intercepted keys and Emacs-style key descriptions.
use vstd::prelude::*;

use crate::text::{same_text, to_chars};

verus! {

/// Keysym of `A`.
pub const KEY_UPPER_A: u32 = 0x41;

/// Keysym of `Z`.
pub const KEY_UPPER_Z: u32 = 0x5a;

/// Keysym of `a`.
pub const KEY_LOWER_A: u32 = 0x61;

/// Keysym that XKB makes of Ctrl+Alt+F1.
pub const KEY_SWITCH_VT_1: u32 = 0x1008fe01;

/// Keysym that XKB makes of Ctrl+Alt+F12.
pub const KEY_SWITCH_VT_12: u32 = 0x1008fe0c;

/// State of the modifier keys.
#[derive(Clone, Copy, Debug, PartialEq, Eq, Structural)]
pub struct Modifiers {
    pub ctrl: bool,
    pub alt: bool,
    pub shift: bool,
    pub logo: bool,
}

/// Whether the key event is the kill combination, Super+Shift+E.
pub fn is_kill_combo(keysym: u32, shift: bool, logo: bool) -> (r: bool)
    ensures
        r == ((keysym == 'e' as u32 || keysym == 'E' as u32) && shift && logo),
{
    (keysym == 0x65 || keysym == 0x45) && shift && logo
}

/// Number of the virtual terminal that a keysym asks for.
pub open spec fn vt_of_keysym(keysym: u32) -> Option<int> {
    if KEY_SWITCH_VT_1 <= keysym <= KEY_SWITCH_VT_12 {
        Some(keysym - KEY_SWITCH_VT_1 + 1)
    } else {
        None
    }
}

/// The virtual terminal, 1 to 12, that a keysym asks for.
pub fn switch_vt(keysym: u32) -> (r: Option<i32>)
    ensures
        match r {
            Some(vt) => vt_of_keysym(keysym) == Some(vt as int) && 1 <= vt <= 12,
            None => vt_of_keysym(keysym) is None,
        },
{
    if KEY_SWITCH_VT_1 <= keysym && keysym <= KEY_SWITCH_VT_12 {
        Some((keysym - KEY_SWITCH_VT_1 + 1) as i32)
    } else {
        None
    }
}

/// Key identifier: either a keysym or the name of a key.
#[derive(Debug, Clone)]
pub enum KeyId {
    Keysym(u32),
    Named(String),
}

/// What a [`KeyId`] holds.
pub enum KeyIdView {
    Keysym(u32),
    Named(Seq<char>),
}

impl View for KeyId {
    type V = KeyIdView;

    open spec fn view(&self) -> KeyIdView {
        match self {
            KeyId::Keysym(k) => KeyIdView::Keysym(*k),
            KeyId::Named(name) => KeyIdView::Named(name@),
        }
    }
}

/// The keysym of a key that has a name of more than one letter.
pub open spec fn named_keysym(name: Seq<char>) -> Option<u32> {
    if name == "left"@ {
        Some(0xff51)
    } else if name == "right"@ {
        Some(0xff53)
    } else if name == "up"@ {
        Some(0xff52)
    } else if name == "down"@ {
        Some(0xff54)
    } else if name == "home"@ {
        Some(0xff50)
    } else if name == "end"@ {
        Some(0xff57)
    } else if name == "prior"@ {
        Some(0xff55)
    } else if name == "next"@ {
        Some(0xff56)
    } else if name == "insert"@ {
        Some(0xff63)
    } else if name == "delete"@ {
        Some(0xffff)
    } else if name == "f1"@ {
        Some(0xffbe)
    } else if name == "f2"@ {
        Some(0xffbf)
    } else if name == "f3"@ {
        Some(0xffc0)
    } else if name == "f4"@ {
        Some(0xffc1)
    } else if name == "f5"@ {
        Some(0xffc2)
    } else if name == "f6"@ {
        Some(0xffc3)
    } else if name == "f7"@ {
        Some(0xffc4)
    } else if name == "f8"@ {
        Some(0xffc5)
    } else if name == "f9"@ {
        Some(0xffc6)
    } else if name == "f10"@ {
        Some(0xffc7)
    } else if name == "f11"@ {
        Some(0xffc8)
    } else if name == "f12"@ {
        Some(0xffc9)
    } else if name == "return"@ {
        Some(0xff0d)
    } else if name == "tab"@ {
        Some(0xff09)
    } else if name == "escape"@ {
        Some(0xff1b)
    } else if name == "backspace"@ {
        Some(0xff08)
    } else {
        None
    }
}

/// The keysym that a key identifier stands for.
pub open spec fn keysym_of(key: KeyIdView) -> Option<u32> {
    match key {
        KeyIdView::Keysym(k) => Some(k),
        KeyIdView::Named(name) => named_keysym(name),
    }
}

fn keysym_of_name(name: &str) -> (r: Option<u32>)
    ensures
        r == named_keysym(name@),
{
    if same_text(name, "left") {
        Some(0xff51)
    } else if same_text(name, "right") {
        Some(0xff53)
    } else if same_text(name, "up") {
        Some(0xff52)
    } else if same_text(name, "down") {
        Some(0xff54)
    } else if same_text(name, "home") {
        Some(0xff50)
    } else if same_text(name, "end") {
        Some(0xff57)
    } else if same_text(name, "prior") {
        Some(0xff55)
    } else if same_text(name, "next") {
        Some(0xff56)
    } else if same_text(name, "insert") {
        Some(0xff63)
    } else if same_text(name, "delete") {
        Some(0xffff)
    } else if same_text(name, "f1") {
        Some(0xffbe)
    } else if same_text(name, "f2") {
        Some(0xffbf)
    } else if same_text(name, "f3") {
        Some(0xffc0)
    } else if same_text(name, "f4") {
        Some(0xffc1)
    } else if same_text(name, "f5") {
        Some(0xffc2)
    } else if same_text(name, "f6") {
        Some(0xffc3)
    } else if same_text(name, "f7") {
        Some(0xffc4)
    } else if same_text(name, "f8") {
        Some(0xffc5)
    } else if same_text(name, "f9") {
        Some(0xffc6)
    } else if same_text(name, "f10") {
        Some(0xffc7)
    } else if same_text(name, "f11") {
        Some(0xffc8)
    } else if same_text(name, "f12") {
        Some(0xffc9)
    } else if same_text(name, "return") {
        Some(0xff0d)
    } else if same_text(name, "tab") {
        Some(0xff09)
    } else if same_text(name, "escape") {
        Some(0xff1b)
    } else if same_text(name, "backspace") {
        Some(0xff08)
    } else {
        None
    }
}

impl KeyId {
    /// The keysym of this key; none for a name that is not known.
    pub fn to_keysym(&self) -> (r: Option<u32>)
        ensures
            r == keysym_of(self@),
    {
        match self {
            KeyId::Keysym(k) => Some(*k),
            KeyId::Named(name) => keysym_of_name(name.as_str()),
        }
    }

    /// A copy of the identifier.
    pub fn copy(&self) -> (r: KeyId)
        ensures
            r@ == self@,
    {
        match self {
            KeyId::Keysym(k) => KeyId::Keysym(*k),
            KeyId::Named(name) => KeyId::Named(name.clone()),
        }
    }
}

/// Whether the keysym is an uppercase Latin letter.
pub open spec fn is_upper_letter(keysym: u32) -> bool {
    KEY_UPPER_A <= keysym <= KEY_UPPER_Z
}

/// Whether a pressed key and its modifiers are the ones asked for. An
/// uppercase letter also stands for the lowercase one, and then Shift is not
/// looked at.
pub open spec fn key_matches(target: u32, wanted: Modifiers, keysym: u32, mods: Modifiers) -> bool {
    &&& target == keysym || (is_upper_letter(keysym) && target == keysym - KEY_UPPER_A
        + KEY_LOWER_A)
    &&& wanted.ctrl == mods.ctrl
    &&& wanted.alt == mods.alt
    &&& wanted.shift == mods.shift || is_upper_letter(keysym)
    &&& wanted.logo == mods.logo
}

fn same_key(target: u32, wanted: Modifiers, keysym: u32, mods: Modifiers) -> (r: bool)
    ensures
        r == key_matches(target, wanted, keysym, mods),
{
    let upper: bool = keysym >= KEY_UPPER_A && keysym <= KEY_UPPER_Z;
    let keysym_match: bool = target == keysym || (upper && target == keysym - KEY_UPPER_A
        + KEY_LOWER_A);
    keysym_match && wanted.ctrl == mods.ctrl && wanted.alt == mods.alt && (wanted.shift
        == mods.shift || upper) && wanted.logo == mods.logo
}

/// Intercepted key: the key and the modifiers that go with it.
#[derive(Debug, Clone)]
pub struct InterceptedKey {
    pub key: KeyId,
    pub ctrl: bool,
    pub alt: bool,
    pub shift: bool,
    pub logo: bool,
    /// The key starts a longer key sequence.
    pub is_prefix: bool,
}

/// What an [`InterceptedKey`] holds.
pub struct InterceptedKeyView {
    pub key: KeyIdView,
    pub mods: Modifiers,
    pub is_prefix: bool,
}

impl View for InterceptedKey {
    type V = InterceptedKeyView;

    open spec fn view(&self) -> InterceptedKeyView {
        InterceptedKeyView {
            key: self.key@,
            mods: Modifiers {
                ctrl: self.ctrl,
                alt: self.alt,
                shift: self.shift,
                logo: self.logo,
            },
            is_prefix: self.is_prefix,
        }
    }
}

impl InterceptedKeyView {
    /// Whether a pressed key with these modifiers is this key.
    pub open spec fn matches_spec(self, keysym: u32, mods: Modifiers) -> bool {
        match keysym_of(self.key) {
            Some(target) => key_matches(target, self.mods, keysym, mods),
            None => false,
        }
    }
}

impl InterceptedKey {
    /// Whether a pressed key with these modifiers is this key.
    pub fn matches(&self, keysym: u32, mods: &Modifiers) -> (r: bool)
        ensures
            r == self@.matches_spec(keysym, *mods),
    {
        match self.key.to_keysym() {
            Some(target) => {
                let wanted: Modifiers = Modifiers {
                    ctrl: self.ctrl,
                    alt: self.alt,
                    shift: self.shift,
                    logo: self.logo,
                };
                same_key(target, wanted, keysym, *mods)
            },
            None => false,
        }
    }

    /// A copy of the key.
    pub fn copy(&self) -> (r: InterceptedKey)
        ensures
            r@ == self@,
    {
        InterceptedKey {
            key: self.key.copy(),
            ctrl: self.ctrl,
            alt: self.alt,
            shift: self.shift,
            logo: self.logo,
            is_prefix: self.is_prefix,
        }
    }
}

/// What a list of intercepted keys holds.
pub open spec fn key_views(keys: Seq<InterceptedKey>) -> Seq<InterceptedKeyView> {
    Seq::new(keys.len(), |i: int| keys[i]@)
}

/// The first key of the list that the pressed key is.
pub open spec fn first_match(
    keys: Seq<InterceptedKeyView>,
    keysym: u32,
    mods: Modifiers,
) -> Option<InterceptedKeyView>
    decreases keys.len(),
{
    if keys.len() == 0 {
        None
    } else if keys[0].matches_spec(keysym, mods) {
        Some(keys[0])
    } else {
        first_match(keys.drop_first(), keysym, mods)
    }
}

/// The position of the first key of the list that the pressed key is.
pub fn find_match(keys: &Vec<InterceptedKey>, keysym: u32, mods: &Modifiers) -> (r: Option<usize>)
    ensures
        match r {
            Some(i) => i < keys@.len() && first_match(key_views(keys@), keysym, *mods) == Some(
                keys@[i as int]@,
            ),
            None => first_match(key_views(keys@), keysym, *mods) is None,
        },
{
    let ghost all = key_views(keys@);
    let mut i: usize = 0;
    proof {
        assert(all.skip(0) =~= all);
    }
    while i < keys.len()
        invariant
            i <= keys@.len(),
            all == key_views(keys@),
            first_match(all, keysym, *mods) == first_match(all.skip(i as int), keysym, *mods),
        decreases keys@.len() - i,
    {
        proof {
            assert(all.skip(i as int)[0] == keys@[i as int]@);
            assert(all.skip(i as int).drop_first() =~= all.skip(i + 1));
        }
        if keys[i].matches(keysym, mods) {
            return Some(i);
        }
        i += 1;
    }
    None
}

// ---------------------------------------------------------------------------
// Emacs-style key descriptions
// ---------------------------------------------------------------------------
/// Prefix key: a keysym and the modifiers that go with it.
#[derive(Debug, Clone, Copy, PartialEq, Eq, Structural)]
pub struct PrefixKey {
    pub keysym: u32,
    pub ctrl: bool,
    pub alt: bool,
    pub shift: bool,
    /// Super, the Windows key.
    pub logo: bool,
}

/// No modifier.
pub open spec fn no_modifiers() -> Modifiers {
    Modifiers { ctrl: false, alt: false, shift: false, logo: false }
}

/// The modifiers with the one that a description's letter names: `C` for
/// Ctrl, `M` for Alt, `S` for Shift, `s` for Super.
pub open spec fn with_modifier(mods: Modifiers, letter: char) -> Modifiers {
    if letter == 'C' {
        Modifiers { ctrl: true, ..mods }
    } else if letter == 'M' {
        Modifiers { alt: true, ..mods }
    } else if letter == 'S' {
        Modifiers { shift: true, ..mods }
    } else {
        Modifiers { logo: true, ..mods }
    }
}

/// Whether the description starts with a modifier, a letter followed by `-`.
pub open spec fn starts_with_modifier(desc: Seq<char>) -> bool {
    desc.len() >= 2 && desc[1] == '-' && (desc[0] == 'C' || desc[0] == 'M' || desc[0] == 'S'
        || desc[0] == 's')
}

/// The keysym of the key that is left of a description without its modifiers,
/// and whether its name alone asks for Shift.
pub open spec fn base_key(name: Seq<char>) -> Option<(u32, bool)> {
    if name == "SPC"@ || name == "space"@ {
        Some((0x20u32, false))
    } else if name == "RET"@ || name == "return"@ {
        Some((0xff0du32, false))
    } else if name == "TAB"@ || name == "tab"@ {
        Some((0xff09u32, false))
    } else if name == "ESC"@ || name == "escape"@ {
        Some((0xff1bu32, false))
    } else if name == "DEL"@ || name == "delete"@ {
        Some((0xffffu32, false))
    } else if name == "backspace"@ {
        Some((0xff08u32, false))
    } else if name.len() == 1 && 'A' <= name[0] && name[0] <= 'Z' {
        Some((((name[0] as u32) + 32) as u32, true))
    } else if name.len() == 1 && '!' <= name[0] && name[0] <= '~' {
        Some((name[0] as u32, false))
    } else {
        None
    }
}

/// What a key description stands for, after the modifiers read so far.
pub open spec fn parse_key(desc: Seq<char>, mods: Modifiers) -> Option<PrefixKey>
    decreases desc.len(),
{
    if starts_with_modifier(desc) {
        parse_key(desc.skip(2), with_modifier(mods, desc[0]))
    } else {
        match base_key(desc) {
            Some((keysym, shifted)) => Some(
                PrefixKey {
                    keysym,
                    ctrl: mods.ctrl,
                    alt: mods.alt,
                    shift: mods.shift || shifted,
                    logo: mods.logo,
                },
            ),
            None => None,
        }
    }
}

fn parse_base(name: &str) -> (r: Option<(u32, bool)>)
    ensures
        r == base_key(name@),
{
    if same_text(name, "SPC") || same_text(name, "space") {
        Some((0x20, false))
    } else if same_text(name, "RET") || same_text(name, "return") {
        Some((0xff0d, false))
    } else if same_text(name, "TAB") || same_text(name, "tab") {
        Some((0xff09, false))
    } else if same_text(name, "ESC") || same_text(name, "escape") {
        Some((0xff1b, false))
    } else if same_text(name, "DEL") || same_text(name, "delete") {
        Some((0xffff, false))
    } else if same_text(name, "backspace") {
        Some((0xff08, false))
    } else if name.unicode_len() == 1 {
        let c: char = name.get_char(0);
        if 'A' <= c && c <= 'Z' {
            Some(((c as u32) + 32, true))
        } else if '!' <= c && c <= '~' {
            Some((c as u32, false))
        } else {
            None
        }
    } else {
        None
    }
}

impl PrefixKey {
    /// Reads an Emacs-style key description such as `C-x`, `M-x` or `C-M-c`.
    pub fn parse(key_desc: &str) -> (r: Option<PrefixKey>)
        ensures
            r == parse_key(key_desc@, no_modifiers()),
    {
        let chars: Vec<char> = to_chars(key_desc);
        let mut mods: Modifiers = Modifiers { ctrl: false, alt: false, shift: false, logo: false };
        let mut at: usize = 0;
        proof {
            assert(key_desc@.skip(0) =~= key_desc@);
        }
        while chars.len() - at >= 2 && chars[at + 1] == '-' && (chars[at] == 'C' || chars[at] == 'M'
            || chars[at] == 'S' || chars[at] == 's')
            invariant
                chars@ == key_desc@,
                at <= chars@.len(),
                parse_key(key_desc@, no_modifiers()) == parse_key(key_desc@.skip(at as int), mods),
            decreases chars@.len() - at,
        {
            let letter: char = chars[at];
            proof {
                assert(starts_with_modifier(key_desc@.skip(at as int)));
                assert(key_desc@.skip(at as int).skip(2) =~= key_desc@.skip(at + 2));
            }
            if letter == 'C' {
                mods.ctrl = true;
            } else if letter == 'M' {
                mods.alt = true;
            } else if letter == 'S' {
                mods.shift = true;
            } else {
                mods.logo = true;
            }
            at += 2;
        }
        let n: usize = key_desc.unicode_len();
        proof {
            assert(!starts_with_modifier(key_desc@.skip(at as int)));
            assert(key_desc@.skip(at as int) =~= key_desc@.subrange(at as int, n as int));
        }
        match parse_base(key_desc.substring_char(at, n)) {
            Some((keysym, shifted)) => Some(
                PrefixKey {
                    keysym,
                    ctrl: mods.ctrl,
                    alt: mods.alt,
                    shift: mods.shift || shifted,
                    logo: mods.logo,
                },
            ),
            None => None,
        }
    }

    /// The modifiers that go with the key.
    pub open spec fn mods(self) -> Modifiers {
        Modifiers { ctrl: self.ctrl, alt: self.alt, shift: self.shift, logo: self.logo }
    }

    /// Whether a pressed key with these modifiers is this key.
    pub fn matches(&self, keysym: u32, mods: &Modifiers) -> (r: bool)
        ensures
            r == key_matches(self.keysym, self.mods(), keysym, *mods),
    {
        let wanted: Modifiers = Modifiers {
            ctrl: self.ctrl,
            alt: self.alt,
            shift: self.shift,
            logo: self.logo,
        };
        same_key(self.keysym, wanted, keysym, *mods)
    }
}

/// A key matches itself pressed with exactly its modifiers.
pub proof fn lemma_key_matches_itself(target: u32, wanted: Modifiers)
    ensures
        key_matches(target, wanted, target, wanted),
{
}

/// A letter key asked for without regard to its case matches the uppercase
/// keysym whatever the state of Shift.
pub proof fn lemma_letter_matches_both_cases(
    target: u32,
    wanted: Modifiers,
    mods: Modifiers,
)
    requires
        KEY_LOWER_A <= target <= KEY_LOWER_A + 25,
        mods == (Modifiers { shift: mods.shift, ..wanted }),
    ensures
        key_matches(target, wanted, (target - KEY_LOWER_A + KEY_UPPER_A) as u32, mods),
{
}

/// The order in which modifiers are written makes no difference.
pub proof fn lemma_modifier_order(a: char, b: char, rest: Seq<char>)
    requires
        a == 'C' || a == 'M' || a == 'S' || a == 's',
        b == 'C' || b == 'M' || b == 'S' || b == 's',
    ensures
        parse_key(seq![a, '-', b, '-'] + rest, no_modifiers()) == parse_key(
            seq![b, '-', a, '-'] + rest,
            no_modifiers(),
        ),
{
    let ab = seq![a, '-', b, '-'] + rest;
    let ba = seq![b, '-', a, '-'] + rest;
    assert(ab.skip(2) =~= seq![b, '-'] + rest);
    assert(ba.skip(2) =~= seq![a, '-'] + rest);
    assert((seq![b, '-'] + rest).skip(2) =~= rest);
    assert((seq![a, '-'] + rest).skip(2) =~= rest);
    reveal_with_fuel(parse_key, 4);
    let first_a = with_modifier(with_modifier(no_modifiers(), a), b);
    let first_b = with_modifier(with_modifier(no_modifiers(), b), a);
    assert(parse_key(ab, no_modifiers()) == parse_key(rest, first_a));
    assert(parse_key(ba, no_modifiers()) == parse_key(rest, first_b));
    assert(first_a == first_b);
}

} // verus!
