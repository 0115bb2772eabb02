//! Terminals, sockets and the clients of a session.
use vstd::prelude::*;

use crate::ewm::is_emacs_pid;
use crate::ipc::{emacs_arguments, session_environment_spec, socket_path};
use crate::promises::text::all_digits;
use crate::testing::client::{client_index, surface_index, surface_total, TestClient, TestSurface};
use crate::text::{digits_value, is_white_space, trim};
use crate::vt::vt_number;

verus! {

/// The active terminal is known exactly where its name, but for white space
/// around it, is `tty` and a number.
pub proof fn lemma_active_terminal(number: Seq<char>)
    requires
        all_digits(number),
    ensures
        vt_number("tty"@ + number) == (if digits_value(number) <= 0xffff_ffff {
            Some(digits_value(number))
        } else {
            None
        }),
{
    reveal_strlit("tty");
    let s = "tty"@ + number;
    assert(s[0] == 't');
    assert(!is_white_space('t'));
    assert(s.last() == number[number.len() - 1]);
    assert('0' <= number[number.len() - 1] && number[number.len() - 1] <= '9');
    assert(trim(s) == s);
    assert(s.take(3) =~= "tty"@);
    assert(s.skip(3) =~= number);
    assert(number[0] != '+') by {
        assert('0' <= number[0] && number[0] <= '9');
    }
    crate::promises::text::lemma_when_a_text_is_a_number(number, 0xffff_ffff);
}

/// A name that does not start with the letters of `tty` names no terminal.
pub proof fn lemma_no_terminal(s: Seq<char>)
    requires
        ({
            let name = trim(s);
            name.len() < 3 || name[0] != 't' || name[1] != 't' || name[2] != 'y'
        }),
    ensures
        vt_number(s) is None,
{
    reveal_strlit("tty");
    let name = trim(s);
    if name.len() >= 3 && name.take(3) == "tty"@ {
        assert(name.take(3)[0] == name[0]);
        assert(name.take(3)[1] == name[1]);
        assert(name.take(3)[2] == name[2]);
    }
}

/// The socket is in the runtime directory where there is one, and in different
/// directories for different ones.
pub proof fn lemma_socket_is_in_its_directory(dir: Seq<char>, other: Seq<char>)
    ensures
        socket_path(Some(dir)).take(dir.len() as int) == dir,
        socket_path(Some(dir)).len() == dir.len() + 9,
        socket_path(Some(dir))[dir.len() as int] == '/',
        dir != other ==> socket_path(Some(dir)) != socket_path(Some(other)),
        socket_path(None).take(5) == "/tmp/"@,
{
    reveal_strlit("/");
    reveal_strlit("ewm.sock");
    reveal_strlit("/tmp/");
    assert(socket_path(Some(dir)).take(dir.len() as int) =~= dir);
    assert(socket_path(Some(other)).take(other.len() as int) =~= other);
    assert(socket_path(None).take(5) =~= "/tmp/"@);
}

/// The user's own arguments come last and unchanged; an init file is loaded, and
/// the connection made, before them.
pub proof fn lemma_arguments_of_emacs(init: Option<Seq<char>>, args: Seq<Seq<char>>)
    ensures
        ({
            let r = emacs_arguments(init, args);
            let n = r.len() - args.len();
            &&& n >= 0
            &&& r.skip(n) == args
            &&& init is None ==> n == 0
            &&& init is Some ==> n == 4 && r[0] == "-l"@ && r[1] == init->0 && r[2] == "-f"@
        }),
{
    let r = emacs_arguments(init, args);
    let n = r.len() - args.len();
    assert(r.skip(n) =~= args);
}

/// The clients of a session find its display under the name of its socket, and
/// no variable is set twice.
pub proof fn lemma_environment_of_clients(socket: Seq<char>)
    ensures
        ({
            let v = session_environment_spec(socket);
            &&& exists|i: int|
                0 <= i < v.len() && (#[trigger] v[i]).0 == "WAYLAND_DISPLAY"@ && v[i].1 == socket
            &&& exists|i: int|
                0 <= i < v.len() && (#[trigger] v[i]).0 == "XDG_SESSION_TYPE"@ && v[i].1
                    == "wayland"@
            &&& exists|i: int|
                0 <= i < v.len() && (#[trigger] v[i]).0 == "XDG_CURRENT_DESKTOP"@ && v[i].1
                    == "wlroots"@
            &&& exists|i: int|
                0 <= i < v.len() && (#[trigger] v[i]).0 == "GTK_IM_MODULE"@ && v[i].1
                    == "wayland"@
            &&& exists|i: int|
                0 <= i < v.len() && (#[trigger] v[i]).0 == "QT_IM_MODULE"@ && v[i].1 == "wayland"@
            &&& v.len() == 5
        }),
{
    let v = session_environment_spec(socket);
    assert(v[0].0 == "WAYLAND_DISPLAY"@);
    assert(v[1].0 == "XDG_CURRENT_DESKTOP"@);
    assert(v[2].0 == "XDG_SESSION_TYPE"@);
    assert(v[3].0 == "GTK_IM_MODULE"@);
    assert(v[4].0 == "QT_IM_MODULE"@);
}

/// A client is Emacs exactly where both process ids are known and are the same.
pub proof fn lemma_who_is_emacs(emacs: Option<u32>, client: Option<i32>)
    requires
        emacs is Some ==> emacs->0 <= i32::MAX,
    ensures
        is_emacs_pid(emacs, client) <==> emacs is Some && client is Some && emacs->0 == client->0,
{
}

// ---------------------------------------------------------------------------
// Clients of tests
// ---------------------------------------------------------------------------
/// The surface of an id is the first that has it.
pub proof fn lemma_surface_of_an_id(v: Seq<TestSurface>, id: u32)
    ensures
        match surface_index(v, id) {
            Some(i) => 0 <= i < v.len() && v[i].id == id && forall|j: int|
                0 <= j < i ==> (#[trigger] v[j]).id != id,
            None => forall|j: int| 0 <= j < v.len() ==> (#[trigger] v[j]).id != id,
        },
    decreases v.len(),
{
    if v.len() > 0 {
        let rest = v.drop_last();
        lemma_surface_of_an_id(rest, id);
        match surface_index(rest, id) {
            Some(i) => {
                assert(v[i] == rest[i]);
                assert forall|j: int| 0 <= j < i implies (#[trigger] v[j]).id != id by {
                    assert(rest[j] == v[j]);
                }
            },
            None => {
                assert forall|j: int| 0 <= j < v.len() - 1 implies (#[trigger] v[j]).id != id by {
                    assert(rest[j] == v[j]);
                }
            },
        }
    }
}

/// The client of an id is the first that has it.
pub proof fn lemma_client_of_an_id(v: Seq<TestClient>, id: crate::testing::client::ClientId)
    ensures
        match client_index(v, id) {
            Some(i) => 0 <= i < v.len() && v[i].id == id && forall|j: int|
                0 <= j < i ==> (#[trigger] v[j]).id != id,
            None => forall|j: int| 0 <= j < v.len() ==> (#[trigger] v[j]).id != id,
        },
    decreases v.len(),
{
    if v.len() > 0 {
        let rest = v.drop_last();
        lemma_client_of_an_id(rest, id);
        match client_index(rest, id) {
            Some(i) => {
                assert(v[i] == rest[i]);
                assert forall|j: int| 0 <= j < i implies (#[trigger] v[j]).id != id by {
                    assert(rest[j] == v[j]);
                }
            },
            None => {
                assert forall|j: int| 0 <= j < v.len() - 1 implies (#[trigger] v[j]).id != id by {
                    assert(rest[j] == v[j]);
                }
            },
        }
    }
}

/// A further client adds its surfaces to the total.
pub proof fn lemma_total_of_surfaces(v: Seq<TestClient>, c: TestClient)
    ensures
        surface_total(v.push(c)) == surface_total(v) + c.surfaces@.len(),
        surface_total(Seq::<TestClient>::empty()) == 0,
{
    assert(v.push(c).drop_last() =~= v);
}

} // verus!
