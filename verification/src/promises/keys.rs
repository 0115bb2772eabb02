//! Which keys go to Emacs, and what key descriptions stand for.
use vstd::prelude::*;

use crate::ewm::EwmView;
use crate::input::{KeyEvent, KeyVerdictView};
use crate::keys::{
    first_match, key_matches, keysym_of, named_keysym, parse_key, InterceptedKey,
    InterceptedKeyView, KeyId, Modifiers, PrefixKey,
};

verus! {

/// Whether a keysym is an uppercase Latin letter.
pub open spec fn is_uppercase(keysym: u32) -> bool {
    0x41 <= keysym <= 0x5a
}

/// A pressed key is a key only with exactly the modifiers of that key: Ctrl,
/// Alt and Super are each held where it asks for them and nowhere else, and so
/// is Shift, unless the keysym is an uppercase letter.
pub proof fn lemma_modifiers_must_agree(
    target: u32,
    wanted: Modifiers,
    keysym: u32,
    mods: Modifiers,
)
    requires
        key_matches(target, wanted, keysym, mods),
    ensures
        mods.ctrl == wanted.ctrl,
        mods.alt == wanted.alt,
        mods.logo == wanted.logo,
        mods.shift == wanted.shift || is_uppercase(keysym),
{
}

/// A pressed key is a key only with the keysym of that key, or with the
/// uppercase letter of a lowercase one.
pub proof fn lemma_keysym_must_agree(target: u32, wanted: Modifiers, keysym: u32, mods: Modifiers)
    requires
        key_matches(target, wanted, keysym, mods),
    ensures
        keysym == target || (0x61 <= target <= 0x7a && keysym + 0x20 == target),
{
}

/// A key that is intercepted is the pressed key only with the modifiers that
/// it names.
pub proof fn lemma_intercepted_modifiers(k: InterceptedKey, keysym: u32, mods: Modifiers)
    requires
        k@.matches_spec(keysym, mods),
    ensures
        mods.ctrl == k.ctrl,
        mods.alt == k.alt,
        mods.logo == k.logo,
        mods.shift == k.shift || is_uppercase(keysym),
{
}

/// A key that is intercepted by its keysym is the pressed key exactly where
/// keysym and modifiers agree; an uppercase letter stands for the lowercase one
/// with or without Shift.
pub proof fn lemma_intercepted_keysym(k: InterceptedKey, n: u32, keysym: u32, mods: Modifiers)
    requires
        k.key == KeyId::Keysym(n),
    ensures
        k@.matches_spec(keysym, mods) <==> {
            &&& keysym == n || (is_uppercase(keysym) && n == keysym + 0x20)
            &&& mods.ctrl == k.ctrl
            &&& mods.alt == k.alt
            &&& mods.logo == k.logo
            &&& mods.shift == k.shift || is_uppercase(keysym)
        },
{
}

/// A key that is intercepted by a name is the pressed key exactly where the
/// keysym of the name and the modifiers agree, and never where the name is not
/// known. Names never stand for letters, so that case makes no difference.
pub proof fn lemma_intercepted_name(k: InterceptedKey, name: String, keysym: u32, mods: Modifiers)
    requires
        k.key == KeyId::Named(name),
    ensures
        k@.matches_spec(keysym, mods) <==> {
            &&& named_keysym(name@) == Some(keysym)
            &&& mods.ctrl == k.ctrl
            &&& mods.alt == k.alt
            &&& mods.logo == k.logo
            &&& mods.shift == k.shift
        },
{
}

/// Two different names of keys stand for different keysyms, all of them function
/// keys and none a character.
pub proof fn lemma_names_stand_apart(a: Seq<char>, b: Seq<char>)
    requires
        named_keysym(a) is Some,
        named_keysym(b) is Some,
        a != b,
    ensures
        named_keysym(a) != named_keysym(b),
        named_keysym(a)->0 >= 0xff08,
{
}

/// The keys that have a name, with the keysyms that the X protocol gives them.
pub open spec fn key_table() -> Seq<(Seq<char>, u32)> {
    seq![
        ("left"@, 0xff51u32),
        ("right"@, 0xff53u32),
        ("up"@, 0xff52u32),
        ("down"@, 0xff54u32),
        ("home"@, 0xff50u32),
        ("end"@, 0xff57u32),
        ("prior"@, 0xff55u32),
        ("next"@, 0xff56u32),
        ("insert"@, 0xff63u32),
        ("delete"@, 0xffffu32),
        ("f1"@, 0xffbeu32),
        ("f2"@, 0xffbfu32),
        ("f3"@, 0xffc0u32),
        ("f4"@, 0xffc1u32),
        ("f5"@, 0xffc2u32),
        ("f6"@, 0xffc3u32),
        ("f7"@, 0xffc4u32),
        ("f8"@, 0xffc5u32),
        ("f9"@, 0xffc6u32),
        ("f10"@, 0xffc7u32),
        ("f11"@, 0xffc8u32),
        ("f12"@, 0xffc9u32),
        ("return"@, 0xff0du32),
        ("tab"@, 0xff09u32),
        ("escape"@, 0xff1bu32),
        ("backspace"@, 0xff08u32),
    ]
}

/// A name stands for a keysym exactly where the table pairs them.
pub proof fn lemma_names_are_tabled(name: Seq<char>, keysym: u32)
    ensures
        named_keysym(name) == Some(keysym) <==> key_table().contains((name, keysym)),
{
    let table = key_table();
    assert(table[0] == ("left"@, 0xff51u32));
    assert(table[1] == ("right"@, 0xff53u32));
    assert(table[2] == ("up"@, 0xff52u32));
    assert(table[3] == ("down"@, 0xff54u32));
    assert(table[4] == ("home"@, 0xff50u32));
    assert(table[5] == ("end"@, 0xff57u32));
    assert(table[6] == ("prior"@, 0xff55u32));
    assert(table[7] == ("next"@, 0xff56u32));
    assert(table[8] == ("insert"@, 0xff63u32));
    assert(table[9] == ("delete"@, 0xffffu32));
    assert(table[10] == ("f1"@, 0xffbeu32));
    assert(table[11] == ("f2"@, 0xffbfu32));
    assert(table[12] == ("f3"@, 0xffc0u32));
    assert(table[13] == ("f4"@, 0xffc1u32));
    assert(table[14] == ("f5"@, 0xffc2u32));
    assert(table[15] == ("f6"@, 0xffc3u32));
    assert(table[16] == ("f7"@, 0xffc4u32));
    assert(table[17] == ("f8"@, 0xffc5u32));
    assert(table[18] == ("f9"@, 0xffc6u32));
    assert(table[19] == ("f10"@, 0xffc7u32));
    assert(table[20] == ("f11"@, 0xffc8u32));
    assert(table[21] == ("f12"@, 0xffc9u32));
    assert(table[22] == ("return"@, 0xff0du32));
    assert(table[23] == ("tab"@, 0xff09u32));
    assert(table[24] == ("escape"@, 0xff1bu32));
    assert(table[25] == ("backspace"@, 0xff08u32));
    lemma_names_are_different();
    if table.contains((name, keysym)) {
        let i = choose|i: int| 0 <= i < table.len() && table[i] == (name, keysym);
        assert(table[i].0 == name);
    }
}

/// No two names of the table are the same text.
proof fn lemma_names_are_different()
    ensures
        forall|i: int, j: int|
            0 <= i < j < key_table().len() ==> (#[trigger] key_table()[i]).0 != (
            #[trigger] key_table()[j]).0,
{
    reveal_strlit("left");
    reveal_strlit("right");
    reveal_strlit("up");
    reveal_strlit("down");
    reveal_strlit("home");
    reveal_strlit("end");
    reveal_strlit("prior");
    reveal_strlit("next");
    reveal_strlit("insert");
    reveal_strlit("delete");
    reveal_strlit("f1");
    reveal_strlit("f2");
    reveal_strlit("f3");
    reveal_strlit("f4");
    reveal_strlit("f5");
    reveal_strlit("f6");
    reveal_strlit("f7");
    reveal_strlit("f8");
    reveal_strlit("f9");
    reveal_strlit("f10");
    reveal_strlit("f11");
    reveal_strlit("f12");
    reveal_strlit("return");
    reveal_strlit("tab");
    reveal_strlit("escape");
    reveal_strlit("backspace");
    let table = key_table();
    assert forall|i: int, j: int| 0 <= i < j < table.len() implies (#[trigger] table[i]).0 != (
    #[trigger] table[j]).0 by {
        let a = table[i].0;
        let b = table[j].0;
        if a == b {
            assert(a.len() == b.len());
            assert(a[0] == b[0]);
            assert(a[1] == b[1]);
            assert(a[a.len() - 1] == b[b.len() - 1]);
        }
    }
}

/// A key of a list decides where it is the first that the pressed key is; none
/// decides only where the pressed key is none of them.
pub proof fn lemma_first_match_decides(
    keys: Seq<InterceptedKeyView>,
    keysym: u32,
    mods: Modifiers,
)
    ensures
        match first_match(keys, keysym, mods) {
            Some(k) => exists|i: int|
                0 <= i < keys.len() && #[trigger] keys[i] == k && k.matches_spec(keysym, mods)
                    && forall|j: int|
                    0 <= j < i ==> !(#[trigger] keys[j]).matches_spec(keysym, mods),
            None => forall|j: int|
                0 <= j < keys.len() ==> !(#[trigger] keys[j]).matches_spec(keysym, mods),
        },
    decreases keys.len(),
{
    if keys.len() > 0 {
        if keys[0].matches_spec(keysym, mods) {
            assert(keys[0] == first_match(keys, keysym, mods)->0);
        } else {
            let rest = keys.drop_first();
            lemma_first_match_decides(rest, keysym, mods);
            match first_match(rest, keysym, mods) {
                Some(k) => {
                    let i = choose|i: int|
                        0 <= i < rest.len() && #[trigger] rest[i] == k && k.matches_spec(
                            keysym,
                            mods,
                        ) && forall|j: int|
                            0 <= j < i ==> !(#[trigger] rest[j]).matches_spec(keysym, mods);
                    assert(keys[i + 1] == k);
                    assert forall|j: int| 0 <= j < i + 1 implies !(
                    #[trigger] keys[j]).matches_spec(keysym, mods) by {
                        if j > 0 {
                            assert(rest[j - 1] == keys[j]);
                        }
                    }
                },
                None => {
                    assert forall|j: int| 0 <= j < keys.len() implies !(
                    #[trigger] keys[j]).matches_spec(keysym, mods) by {
                        if j > 0 {
                            assert(rest[j - 1] == keys[j]);
                        }
                    }
                },
            }
        }
    }
}

// ---------------------------------------------------------------------------
// What becomes of a key
// ---------------------------------------------------------------------------
/// The keysym that is compared: the Latin one of the key where it has one.
pub open spec fn compared_keysym(ev: KeyEvent) -> u32 {
    if ev.raw_latin is Some {
        ev.raw_latin->0
    } else {
        ev.modified
    }
}

/// Whether the key asks for another terminal.
pub open spec fn asks_for_terminal(ev: KeyEvent) -> bool {
    ev.pressed && 0x1008fe01 <= ev.modified <= 0x1008fe0c
}

/// Whether the key is pressed as Super+Shift+E.
pub open spec fn asks_for_the_end(ev: KeyEvent) -> bool {
    ev.pressed && ev.mods.shift && ev.mods.logo && (compared_keysym(ev) == 0x65 || compared_keysym(
        ev,
    ) == 0x45)
}

/// Whether Emacs intercepts the key.
pub open spec fn is_intercepted(s: EwmView, ev: KeyEvent) -> bool {
    exists|i: int|
        0 <= i < s.module.intercepted_keys.len() && (
        #[trigger] s.module.intercepted_keys[i]).matches_spec(compared_keysym(ev), ev.mods)
}

proof fn lemma_intercepted_is_found(s: EwmView, ev: KeyEvent)
    ensures
        is_intercepted(s, ev) <==> first_match(
            s.module.intercepted_keys,
            compared_keysym(ev),
            ev.mods,
        ) is Some,
{
    lemma_first_match_decides(s.module.intercepted_keys, compared_keysym(ev), ev.mods);
}

/// A key goes to Emacs exactly where it is pressed, Emacs intercepts it, an
/// application has the focus, and it asks neither for another terminal nor for
/// the end.
pub proof fn lemma_redirected_keys(s: EwmView, ev: KeyEvent)
    ensures
        s.verdict(ev) is Redirect <==> {
            &&& ev.pressed
            &&& is_intercepted(s, ev)
            &&& !s.emacs_surfaces.contains(s.focused_surface_id)
            &&& !asks_for_terminal(ev)
            &&& !asks_for_the_end(ev)
        },
{
    lemma_intercepted_is_found(s, ev);
}

/// A key that Emacs intercepts goes to the application only where Emacs itself
/// has the focus, or where it is released.
pub proof fn lemma_forwarded_intercepted_keys(s: EwmView, ev: KeyEvent)
    requires
        is_intercepted(s, ev),
        s.verdict(ev) is Forward,
    ensures
        !ev.pressed || s.emacs_surfaces.contains(s.focused_surface_id),
{
    lemma_intercepted_is_found(s, ev);
}

/// A key ends the compositor exactly where it is Super+Shift+E and does not ask
/// for another terminal.
pub proof fn lemma_ending_keys(s: EwmView, ev: KeyEvent)
    ensures
        s.verdict(ev) is Kill <==> asks_for_the_end(ev) && !asks_for_terminal(ev),
{
}

/// A key switches the terminal exactly where it asks for it, and then to the one
/// that it names: the first is 1, and the twelfth is 12.
pub proof fn lemma_terminal_keys(s: EwmView, ev: KeyEvent)
    ensures
        s.verdict(ev) is SwitchVt <==> asks_for_terminal(ev),
        s.verdict(ev) matches KeyVerdictView::SwitchVt { vt } ==> 1 <= vt <= 12 && ev.modified
            == 0x1008fe00 + vt,
{
}

/// A key is text for Emacs exactly where it is pressed without Ctrl, Alt and
/// Super, Emacs asked for text, an application has the focus, nothing else
/// claims the key, and its text holds a character that is no control character;
/// Emacs gets that text and the keysym.
pub proof fn lemma_text_keys(s: EwmView, ev: KeyEvent)
    ensures
        s.verdict(ev) is TextInput <==> {
            &&& ev.pressed
            &&& s.text_input_intercept
            &&& !s.emacs_surfaces.contains(s.focused_surface_id)
            &&& !ev.mods.ctrl && !ev.mods.alt && !ev.mods.logo
            &&& !asks_for_terminal(ev) && !asks_for_the_end(ev) && !is_intercepted(s, ev)
            &&& exists|i: int|
                0 <= i < ev.utf8@.len() && !(({
                    let c = #[trigger] ev.utf8@[i];
                    (c as u32) < 0x20 || 0x7f <= c as u32 <= 0x9f
                }))
        },
        s.verdict(ev) matches KeyVerdictView::TextInput { keysym, utf8 } ==> keysym
            == compared_keysym(ev) && utf8 == ev.utf8@,
{
    lemma_intercepted_is_found(s, ev);
}

/// A key that is pressed with a modifier that no intercepted key asks for, or
/// without one that they all ask for, is not intercepted.
pub proof fn lemma_other_modifiers_pass(s: EwmView, ev: KeyEvent)
    requires
        forall|i: int|
            0 <= i < s.module.intercepted_keys.len() ==> {
                let wanted = (#[trigger] s.module.intercepted_keys[i]).mods;
                wanted.ctrl != ev.mods.ctrl || wanted.alt != ev.mods.alt || wanted.logo
                    != ev.mods.logo
            },
    ensures
        !is_intercepted(s, ev),
        !(s.verdict(ev) is Redirect),
{
    lemma_intercepted_is_found(s, ev);
    if is_intercepted(s, ev) {
        let i = choose|i: int|
            0 <= i < s.module.intercepted_keys.len() && (
            #[trigger] s.module.intercepted_keys[i]).matches_spec(compared_keysym(ev), ev.mods);
        let k = s.module.intercepted_keys[i];
        lemma_modifiers_must_agree(keysym_of(k.key)->0, k.mods, compared_keysym(ev), ev.mods);
    }
}

/// A prefix key is remembered exactly where it goes to Emacs and the first key
/// that it is starts a sequence; nothing else changes when a key is judged.
pub proof fn lemma_prefix_is_remembered(s: EwmView, ev: KeyEvent)
    ensures
        ({
            let t = s.key_judged(ev);
            &&& t.module.in_prefix_sequence <==> s.module.in_prefix_sequence || (s.verdict(
                ev,
            ) is Redirect && first_match(
                s.module.intercepted_keys,
                compared_keysym(ev),
                ev.mods,
            )->0.is_prefix)
            &&& t.focused_surface_id == s.focused_surface_id
            &&& t.keyboard_focus == s.keyboard_focus
            &&& t.actions == s.actions
            &&& t.module.events == s.module.events
        }),
{
}

// ---------------------------------------------------------------------------
// Key descriptions
// ---------------------------------------------------------------------------
/// A modifier in front of a key description adds that modifier and changes
/// nothing else: `C-` is Ctrl, `M-` Alt, `S-` Shift, and `s-` Super.
pub proof fn lemma_modifier_in_front(letter: char, rest: Seq<char>, mods: Modifiers)
    requires
        letter == 'C' || letter == 'M' || letter == 'S' || letter == 's',
    ensures
        parse_key(seq![letter, '-'] + rest, mods) == parse_key(
            rest,
            Modifiers {
                ctrl: mods.ctrl || letter == 'C',
                alt: mods.alt || letter == 'M',
                shift: mods.shift || letter == 'S',
                logo: mods.logo || letter == 's',
            },
        ),
{
    assert((seq![letter, '-'] + rest).skip(2) =~= rest);
}

/// The modifiers that were read before a key description are those of the key;
/// the key itself can only add Shift.
pub proof fn lemma_modifiers_are_kept(desc: Seq<char>, mods: Modifiers)
    ensures
        parse_key(desc, mods) matches Some(k) ==> {
            &&& mods.ctrl ==> k.ctrl
            &&& mods.alt ==> k.alt
            &&& mods.shift ==> k.shift
            &&& mods.logo ==> k.logo
        },
    decreases desc.len(),
{
    if desc.len() >= 2 && desc[1] == '-' {
        lemma_modifiers_are_kept(
            desc.skip(2),
            crate::keys::with_modifier(mods, desc[0]),
        );
    }
}

/// A key description of one character is that character: a letter is itself
/// without regard to case, and an uppercase one asks for Shift; blanks and
/// control characters are no keys.
pub proof fn lemma_single_character_key(c: char, mods: Modifiers)
    ensures
        ({
            let n = c as u32;
            match parse_key(seq![c], mods) {
                Some(k) => {
                    &&& 0x21 <= n <= 0x7e
                    &&& k.keysym == if 0x41 <= n <= 0x5a {
                        n + 0x20
                    } else {
                        n as int
                    }
                    &&& k.ctrl == mods.ctrl && k.alt == mods.alt && k.logo == mods.logo
                    &&& k.shift == (mods.shift || 0x41 <= n <= 0x5a)
                },
                None => !(0x21 <= n <= 0x7e),
            }
        }),
{
    let name = seq![c];
    reveal_strlit("SPC");
    reveal_strlit("space");
    reveal_strlit("RET");
    reveal_strlit("return");
    reveal_strlit("TAB");
    reveal_strlit("tab");
    reveal_strlit("ESC");
    reveal_strlit("escape");
    reveal_strlit("DEL");
    reveal_strlit("delete");
    reveal_strlit("backspace");
    assert(name.len() == 1);
}

/// A key description names a key pressed with its modifiers: what it stands for
/// is that key again.
pub proof fn lemma_described_key_is_itself(k: PrefixKey)
    ensures
        key_matches(k.keysym, k.mods(), k.keysym, Modifiers {
            ctrl: k.ctrl,
            alt: k.alt,
            shift: k.shift,
            logo: k.logo,
        }),
        !key_matches(k.keysym, k.mods(), k.keysym, Modifiers {
            ctrl: !k.ctrl,
            alt: k.alt,
            shift: k.shift,
            logo: k.logo,
        }),
        !key_matches(k.keysym, k.mods(), k.keysym, Modifiers {
            ctrl: k.ctrl,
            alt: !k.alt,
            shift: k.shift,
            logo: k.logo,
        }),
        !key_matches(k.keysym, k.mods(), k.keysym, Modifiers {
            ctrl: k.ctrl,
            alt: k.alt,
            shift: k.shift,
            logo: !k.logo,
        }),
{
}

} // verus!
