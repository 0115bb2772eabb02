//! Where the sockets and files of a session are.
use vstd::prelude::*;

use crate::event::text_view;
use crate::text::owned;

verus! {

/// The path of the IPC socket, given the runtime directory.
pub open spec fn socket_path(runtime_dir: Option<Seq<char>>) -> Seq<char> {
    match runtime_dir {
        Some(dir) => dir + "/"@ + "ewm.sock"@,
        None => "/tmp/"@ + "ewm.sock"@,
    }
}

/// The path of the IPC socket: in the runtime directory, or else in `/tmp`.
pub fn ipc_socket_path(runtime_dir: Option<String>) -> (r: String)
    ensures
        r@ == socket_path(text_view(runtime_dir)),
{
    match runtime_dir {
        Some(dir) => {
            let mut s: String = dir;
            s.append("/");
            s.append("ewm.sock");
            s
        },
        None => {
            let mut s: String = owned("/tmp/");
            s.append("ewm.sock");
            s
        },
    }
}

/// The path of the log: the one asked for, or else one in the runtime
/// directory; none where neither is known.
pub fn log_path(log_file: Option<String>, runtime_dir: Option<String>) -> (r: Option<String>)
    ensures
        text_view(r) == match text_view(log_file) {
            Some(path) => Some(path),
            None => match text_view(runtime_dir) {
                Some(dir) => Some(dir + "/ewm.log"@),
                None => None,
            },
        },
{
    match log_file {
        Some(path) => Some(path),
        None => match runtime_dir {
            Some(dir) => {
                let mut s: String = dir;
                s.append("/ewm.log");
                Some(s)
            },
            None => None,
        },
    }
}

/// The arguments of the Emacs that is spawned: where an init file is given,
/// it is loaded and the connection made, before the user's own arguments.
pub open spec fn emacs_arguments(init: Option<Seq<char>>, args: Seq<Seq<char>>) -> Seq<Seq<char>> {
    match init {
        Some(path) => seq!["-l"@, path, "-f"@, "ewm-connect"@] + args,
        None => args,
    }
}

/// The arguments of the Emacs that is spawned.
pub fn emacs_args(init: Option<String>, args: Vec<String>) -> (r: Vec<String>)
    ensures
        crate::text::views(r@) == emacs_arguments(text_view(init), crate::text::views(args@)),
{
    match init {
        Some(path) => {
            let mut r: Vec<String> = Vec::new();
            r.push(owned("-l"));
            let ghost p = path@;
            r.push(path);
            r.push(owned("-f"));
            r.push(owned("ewm-connect"));
            let ghost head = r@;
            let mut rest: Vec<String> = args;
            let ghost tail = rest@;
            r.append(&mut rest);
            proof {
                assert(r@ =~= head + tail);
                assert(crate::text::views(r@) =~= seq!["-l"@, p, "-f"@, "ewm-connect"@]
                    + crate::text::views(tail));
            }
            r
        },
        None => args,
    }
}

/// The name of the Emacs program.
pub fn emacs_program(configured: Option<String>) -> (r: String)
    ensures
        r@ == match text_view(configured) {
            Some(p) => p,
            None => "emacs"@,
        },
{
    match configured {
        Some(p) => p,
        None => owned("emacs"),
    }
}

/// The environment of a session's clients, given the name of the Wayland
/// socket.
pub open spec fn session_environment_spec(socket: Seq<char>) -> Seq<(Seq<char>, Seq<char>)> {
    seq![
        ("WAYLAND_DISPLAY"@, socket),
        ("XDG_CURRENT_DESKTOP"@, "wlroots"@),
        ("XDG_SESSION_TYPE"@, "wayland"@),
        ("GTK_IM_MODULE"@, "wayland"@),
        ("QT_IM_MODULE"@, "wayland"@),
    ]
}

/// What a list of variables holds.
pub open spec fn pair_views(v: Seq<(String, String)>) -> Seq<(Seq<char>, Seq<char>)> {
    Seq::new(v.len(), |i: int| (v[i].0@, v[i].1@))
}

/// The environment of a session's clients.
pub fn session_environment(socket: &str) -> (r: Vec<(String, String)>)
    ensures
        pair_views(r@) == session_environment_spec(socket@),
{
    let mut r: Vec<(String, String)> = Vec::new();
    r.push((owned("WAYLAND_DISPLAY"), owned(socket)));
    r.push((owned("XDG_CURRENT_DESKTOP"), owned("wlroots")));
    r.push((owned("XDG_SESSION_TYPE"), owned("wayland")));
    r.push((owned("GTK_IM_MODULE"), owned("wayland")));
    r.push((owned("QT_IM_MODULE"), owned("wayland")));
    proof {
        assert(pair_views(r@) =~= session_environment_spec(socket@));
    }
    r
}

} // verus!
