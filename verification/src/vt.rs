//! Virtual terminals and the names derived from them.
use vstd::prelude::*;

use crate::text::{
    digits, from_chars, owned, parse_u32, same_text, to_chars, trim, trim_bounds, unsigned_text,
    unsigned_value,
};

verus! {

/// The number of the active virtual terminal, as the name of its device,
/// `tty` and a number, tells it.
pub open spec fn vt_number(active: Seq<char>) -> Option<nat> {
    let name = trim(active);
    if name.len() >= 3 && name.take(3) == "tty"@ {
        unsigned_value(name.skip(3), u32::MAX as nat)
    } else {
        None
    }
}

/// The number of the virtual terminal that `active`, the content of the
/// kernel's file on the active terminal, names.
pub fn current_vt(active: &str) -> (r: Option<u32>)
    ensures
        match r {
            Some(vt) => vt_number(active@) == Some(vt as nat),
            None => vt_number(active@) is None,
        },
{
    let chars: Vec<char> = to_chars(active);
    let n: usize = chars.len();
    let bounds: (usize, usize) = trim_bounds(&chars, 0, n);
    let (a, b) = bounds;
    let ghost name = trim(active@);
    proof {
        assert(chars@.subrange(0, n as int) =~= active@);
        assert(name == chars@.subrange(a as int, b as int));
    }
    if b - a < 3 {
        return None;
    }
    let prefix: String = from_chars(&chars, a, a + 3);
    proof {
        assert(name.take(3) =~= chars@.subrange(a as int, a + 3));
        assert(name.skip(3) =~= chars@.subrange(a + 3, b as int));
    }
    if !same_text(prefix.as_str(), "tty") {
        return None;
    }
    parse_u32(&chars, a + 3, b)
}

/// What is appended to socket names on a virtual terminal.
pub open spec fn vt_suffix_spec(vt: Option<u32>) -> Seq<char> {
    match vt {
        Some(vt) => "-vt"@ + digits(vt as nat),
        None => Seq::empty(),
    }
}

/// The suffix of socket names: `-vt` and the number on a virtual terminal,
/// nothing elsewhere.
pub fn vt_suffix(vt: Option<u32>) -> (r: String)
    ensures
        r@ == vt_suffix_spec(vt),
{
    match vt {
        Some(vt) => {
            let mut s: String = owned("-vt");
            s.append(unsigned_text(vt as u64).as_str());
            s
        },
        None => String::new(),
    }
}

/// The name of the Wayland socket.
pub fn wayland_socket_name(vt: Option<u32>) -> (r: String)
    ensures
        r@ == "wayland-ewm"@ + vt_suffix_spec(vt),
{
    let mut s: String = owned("wayland-ewm");
    s.append(vt_suffix(vt).as_str());
    s
}

/// The socket names of different terminals differ.
pub proof fn lemma_socket_names_differ(a: u32, b: u32)
    requires
        a != b,
    ensures
        vt_suffix_spec(Some(a)) != vt_suffix_spec(Some(b)),
        vt_suffix_spec(Some(a)) != vt_suffix_spec(None),
{
    if vt_suffix_spec(Some(a)) == vt_suffix_spec(Some(b)) {
        reveal_strlit("-vt");
        let n = "-vt"@.len() as int;
        assert(vt_suffix_spec(Some(a)).skip(n) =~= digits(a as nat));
        assert(vt_suffix_spec(Some(b)).skip(n) =~= digits(b as nat));
        crate::text::lemma_digits_injective(a as nat, b as nat);
    }
    reveal_strlit("-vt");
    assert(vt_suffix_spec(Some(a)).len() > 0);
}

/// A terminal's device name gives its number.
pub proof fn lemma_device_name_gives_number(vt: u32)
    ensures
        vt_number("tty"@ + digits(vt as nat)) == Some(vt as nat),
{
    reveal_strlit("tty");
    let s = "tty"@ + digits(vt as nat);
    crate::text::lemma_digits_value(vt as nat);
    crate::text::lemma_unsigned_text_reads_back(vt as nat, u32::MAX as nat);
    assert(s[0] == 't');
    assert(s.last() == digits(vt as nat).last());
    assert(trim(s) == s);
    assert(s.take(3) =~= "tty"@);
    assert(s.skip(3) =~= digits(vt as nat));
}

} // verus!
