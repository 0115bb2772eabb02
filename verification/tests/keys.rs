//! Keys, terminals and text.
use ewm_core::keys::{find_match, switch_vt, InterceptedKey, KeyId, Modifiers, PrefixKey};
use ewm_core::text::{
    contains_text, control_char, find_text, from_chars, parse_u32, printable, same_text,
    signed_text, split_list, to_chars, trim_bounds, unsigned_text, white_space,
};
use ewm_core::vt::wayland_socket_name;
use ewm_core::{current_vt, is_kill_combo, vt_suffix};

fn mods(text: &str) -> Modifiers {
    Modifiers {
        ctrl: text.contains('C'),
        alt: text.contains('M'),
        shift: text.contains('S'),
        logo: text.contains('s'),
    }
}

fn intercepted(key: KeyId, with: &str) -> InterceptedKey {
    let m = mods(with);
    InterceptedKey {
        key,
        ctrl: m.ctrl,
        alt: m.alt,
        shift: m.shift,
        logo: m.logo,
        is_prefix: false,
    }
}

#[test]
fn kill_combo_is_super_shift_e() {
    assert!(is_kill_combo('e' as u32, true, true));
    assert!(is_kill_combo('E' as u32, true, true));
    assert!(!is_kill_combo('e' as u32, false, true));
    assert!(!is_kill_combo('e' as u32, true, false));
    assert!(!is_kill_combo('f' as u32, true, true));
}

#[test]
fn switch_vt_keysyms_give_terminals() {
    assert_eq!(switch_vt(0x1008fe01), Some(1));
    assert_eq!(switch_vt(0x1008fe0c), Some(12));
    assert_eq!(switch_vt(0x1008fe00), None);
    assert_eq!(switch_vt(0x1008fe0d), None);
}

#[test]
fn named_keys_have_keysyms() {
    let of = |name: &str| KeyId::Named(name.to_string()).to_keysym();
    assert_eq!(of("left"), Some(0xff51));
    assert_eq!(of("up"), Some(0xff52));
    assert_eq!(of("right"), Some(0xff53));
    assert_eq!(of("down"), Some(0xff54));
    assert_eq!(of("home"), Some(0xff50));
    assert_eq!(of("end"), Some(0xff57));
    assert_eq!(of("prior"), Some(0xff55));
    assert_eq!(of("next"), Some(0xff56));
    assert_eq!(of("insert"), Some(0xff63));
    assert_eq!(of("delete"), Some(0xffff));
    assert_eq!(of("f1"), Some(0xffbe));
    assert_eq!(of("f10"), Some(0xffc7));
    assert_eq!(of("f12"), Some(0xffc9));
    assert_eq!(of("return"), Some(0xff0d));
    assert_eq!(of("tab"), Some(0xff09));
    assert_eq!(of("escape"), Some(0xff1b));
    assert_eq!(of("backspace"), Some(0xff08));
    assert_eq!(of("f13"), None);
    assert_eq!(of(""), None);
    assert_eq!(KeyId::Keysym(77).to_keysym(), Some(77));
}

#[test]
fn intercepted_keys_match_with_their_modifiers() {
    let key = intercepted(KeyId::Keysym('d' as u32), "s");
    assert!(key.matches('d' as u32, &mods("s")));
    assert!(!key.matches('d' as u32, &mods("")));
    assert!(!key.matches('d' as u32, &mods("sC")));
    assert!(!key.matches('e' as u32, &mods("s")));
    // An upper case keysym stands for the letter, whatever Shift is.
    assert!(key.matches('D' as u32, &mods("sS")));
    let unknown = intercepted(KeyId::Named("nothing".to_string()), "");
    assert!(!unknown.matches(0, &mods("")));
}

#[test]
fn first_matching_key_is_found() {
    let keys = vec![
        intercepted(KeyId::Keysym('a' as u32), "C"),
        intercepted(KeyId::Named("left".to_string()), "s"),
        intercepted(KeyId::Keysym(0xff51), "s"),
    ];
    assert_eq!(find_match(&keys, 0xff51, &mods("s")), Some(1));
    assert_eq!(find_match(&keys, 'a' as u32, &mods("C")), Some(0));
    assert_eq!(find_match(&keys, 'b' as u32, &mods("C")), None);
    let copy = keys[1].copy();
    assert!(copy.matches(0xff51, &mods("s")));
}

#[test]
fn key_descriptions_are_parsed() {
    let key = PrefixKey::parse("C-x").unwrap();
    assert_eq!((key.keysym, key.ctrl, key.alt, key.shift, key.logo), ('x' as u32, true, false, false, false));
    let key = PrefixKey::parse("C-M-c").unwrap();
    assert_eq!((key.keysym, key.ctrl, key.alt), ('c' as u32, true, true));
    let key = PrefixKey::parse("M-X").unwrap();
    assert_eq!((key.keysym, key.alt, key.shift), ('x' as u32, true, true));
    let key = PrefixKey::parse("s-SPC").unwrap();
    assert_eq!((key.keysym, key.logo), (0x20, true));
    let key = PrefixKey::parse("S-RET").unwrap();
    assert_eq!((key.keysym, key.shift), (0xff0d, true));
    assert_eq!(PrefixKey::parse("`").unwrap().keysym, 0x60);
    assert_eq!(PrefixKey::parse("M-:").unwrap().keysym, 0x3a);
    assert_eq!(PrefixKey::parse("C--").unwrap().keysym, 0x2d);
    assert_eq!(PrefixKey::parse("7").unwrap().keysym, 0x37);
    assert_eq!(PrefixKey::parse("backspace").unwrap().keysym, 0xff08);
    assert_eq!(PrefixKey::parse("DEL").unwrap().keysym, 0xffff);
    assert!(PrefixKey::parse("").is_none());
    assert!(PrefixKey::parse("C-").is_none());
    assert!(PrefixKey::parse("xx").is_none());
    assert!(PrefixKey::parse("é").is_none());
}

#[test]
fn prefix_keys_match_shifted_letters() {
    let key = PrefixKey::parse("M-x").unwrap();
    assert!(key.matches('x' as u32, &mods("M")));
    assert!(key.matches('X' as u32, &mods("MS")));
    assert!(!key.matches('x' as u32, &mods("MS")));
    assert!(!key.matches('x' as u32, &mods("C")));
}

#[test]
fn terminals_give_suffixes_and_socket_names() {
    assert_eq!(current_vt("tty3\n"), Some(3));
    assert_eq!(current_vt(" tty12 "), Some(12));
    assert_eq!(current_vt("pts/3"), None);
    assert_eq!(current_vt("tty"), None);
    assert_eq!(current_vt("tty99999999999"), None);
    assert_eq!(vt_suffix(Some(3)), "-vt3");
    assert_eq!(vt_suffix(None), "");
    assert_eq!(wayland_socket_name(Some(3)), "wayland-ewm-vt3");
    assert_eq!(wayland_socket_name(None), "wayland-ewm");
}

#[test]
fn numbers_are_written_and_read() {
    assert_eq!(unsigned_text(0), "0");
    assert_eq!(unsigned_text(18446744073709551615), "18446744073709551615");
    assert_eq!(signed_text(-120), "-120");
    assert_eq!(signed_text(i64::MIN), "-9223372036854775808");
    let read = |s: &str| {
        let chars = to_chars(s);
        parse_u32(&chars, 0, chars.len())
    };
    assert_eq!(read("4294967295"), Some(4294967295));
    assert_eq!(read("4294967296"), None);
    assert_eq!(read("+7"), Some(7));
    assert_eq!(read("007"), Some(7));
    assert_eq!(read(""), None);
    assert_eq!(read("+"), None);
    assert_eq!(read("-1"), None);
    assert_eq!(read("1a"), None);
}

#[test]
fn texts_are_compared_and_cut() {
    assert!(same_text("aé", "aé"));
    assert!(!same_text("a", "ab"));
    assert!(contains_text("hello", "ell"));
    assert!(contains_text("hello", ""));
    assert!(!contains_text("hello", "elo"));
    let chars = to_chars("  x y\t\n");
    let (from, to) = trim_bounds(&chars, 0, chars.len());
    assert_eq!(from_chars(&chars, from, to), "x y");
    assert_eq!(split_list(" us, de ,,fr ", ','), vec!["us", "de", "fr"]);
    assert!(split_list(" , ", ',').is_empty());
    let names = vec!["us".to_string(), "de".to_string(), "de".to_string()];
    assert_eq!(find_text(&names, "de"), Some(1));
    assert_eq!(find_text(&names, "fr"), None);
    assert!(white_space('\u{3000}'));
    assert!(!white_space('x'));
    assert!(control_char('\u{85}'));
    assert!(!control_char(' '));
    assert!(printable("a"));
    assert!(!printable(""));
    assert!(!printable("\u{1b}"));
}
