//! The screen cast service: sessions, streams, and their object paths.
use vstd::prelude::*;

use crate::dbus::{find_output, info_views, output_named, OutputInfo};
use crate::text::{digits, is_digit, lemma_digits_value, owned, unsigned_text};

verus! {

/// Messages from D-Bus to the compositor.
#[derive(Debug, PartialEq)]
pub enum ScreenCastToCompositor {
    StartCast { session_id: usize, output_name: String },
    StopCast { session_id: usize },
}

/// Why a request was refused.
#[derive(Debug, PartialEq)]
pub enum ScreenCastError {
    /// Remote desktop sessions are not supported.
    RemoteDesktop,
    /// There is no output with this name.
    OutputNotFound { name: String },
    /// The object path is taken.
    PathExists,
    /// The object path is not valid.
    InvalidPath,
}

/// A character of a path element.
pub open spec fn is_path_char(c: char) -> bool {
    is_digit(c) || ('a' <= c && c <= 'z') || ('A' <= c && c <= 'Z') || c == '_'
}

/// A D-Bus object path: it starts with `/`, does not end with `/` unless it
/// is the root, has no `//`, and holds only letters, digits, `_` and `/`.
pub open spec fn is_object_path(s: Seq<char>) -> bool {
    &&& s.len() >= 1
    &&& s[0] == '/'
    &&& s.len() == 1 || s.last() != '/'
    &&& forall|i: int| 0 <= i < s.len() ==> is_path_char(#[trigger] s[i]) || s[i] == '/'
    &&& forall|i: int| 0 <= i < s.len() - 1 ==> !(#[trigger] s[i] == '/' && s[i + 1] == '/')
}

/// `zbus::zvariant::OwnedObjectPath::try_from`: succeeds on exactly the
/// D-Bus object paths, and keeps their characters.
#[verifier::external_body]
fn object_path(path: String) -> (r: Option<String>)
    ensures
        match r {
            Some(p) => is_object_path(path@) && p@ == path@,
            None => !is_object_path(path@),
        },
{
    match zbus::zvariant::OwnedObjectPath::try_from(path) {
        Ok(p) => Some(p.as_str().to_string()),
        Err(_) => None,
    }
}

/// The object path of a session.
pub open spec fn session_path(id: usize) -> Seq<char> {
    "/org/gnome/Mutter/ScreenCast/Session/u"@ + digits(id as nat)
}

/// The object path of a stream.
pub open spec fn stream_path(id: usize) -> Seq<char> {
    "/org/gnome/Mutter/ScreenCast/Stream/u"@ + digits(id as nat)
}

/// A path with a number behind its last element is an object path.
proof fn lemma_numbered_path(prefix: Seq<char>, n: nat)
    requires
        is_object_path(prefix),
        prefix.len() > 1,
    ensures
        is_object_path(prefix + digits(n)),
{
    lemma_digits_value(n);
    let s = prefix + digits(n);
    assert(s[0] == prefix[0]);
    assert(s.last() == digits(n).last());
    assert forall|i: int| 0 <= i < s.len() implies is_path_char(#[trigger] s[i]) || s[i] == '/' by {
        if i < prefix.len() {
            assert(s[i] == prefix[i]);
        } else {
            assert(s[i] == digits(n)[i - prefix.len()]);
        }
    }
    assert forall|i: int| 0 <= i < s.len() - 1 implies !(#[trigger] s[i] == '/' && s[i + 1]
        == '/') by {
        if i < prefix.len() - 1 {
            assert(s[i] == prefix[i] && s[i + 1] == prefix[i + 1]);
        } else if i == prefix.len() - 1 {
            assert(s[i + 1] == digits(n)[0]);
        } else {
            assert(s[i] == digits(n)[i - prefix.len()]);
        }
    }
}

/// The paths of sessions and streams are object paths.
pub proof fn lemma_paths_valid(id: usize)
    ensures
        is_object_path(session_path(id)),
        is_object_path(stream_path(id)),
{
    reveal_strlit("/org/gnome/Mutter/ScreenCast/Session/u");
    reveal_strlit("/org/gnome/Mutter/ScreenCast/Stream/u");
    lemma_numbered_path("/org/gnome/Mutter/ScreenCast/Session/u"@, id as nat);
    lemma_numbered_path("/org/gnome/Mutter/ScreenCast/Stream/u"@, id as nat);
}

/// Sessions with different numbers have different paths, and so have streams.
pub proof fn lemma_paths_differ(a: usize, b: usize)
    requires
        a != b,
    ensures
        session_path(a) != session_path(b),
        stream_path(a) != stream_path(b),
{
    let s = "/org/gnome/Mutter/ScreenCast/Session/u"@;
    let t = "/org/gnome/Mutter/ScreenCast/Stream/u"@;
    if session_path(a) == session_path(b) {
        assert(session_path(a).skip(s.len() as int) =~= digits(a as nat));
        assert(session_path(b).skip(s.len() as int) =~= digits(b as nat));
        crate::text::lemma_digits_injective(a as nat, b as nat);
    }
    if stream_path(a) == stream_path(b) {
        assert(stream_path(a).skip(t.len() as int) =~= digits(a as nat));
        assert(stream_path(b).skip(t.len() as int) =~= digits(b as nat));
        crate::text::lemma_digits_injective(a as nat, b as nat);
    }
}

/// The object path of a session, as D-Bus accepts it.
pub fn session_object_path(id: usize) -> (r: Option<String>)
    ensures
        r matches Some(p) && p@ == session_path(id),
{
    let mut path: String = owned("/org/gnome/Mutter/ScreenCast/Session/u");
    path.append(unsigned_text(id as u64).as_str());
    proof {
        lemma_paths_valid(id);
    }
    object_path(path)
}

/// The object path of a stream, as D-Bus accepts it.
pub fn stream_object_path(id: usize) -> (r: Option<String>)
    ensures
        r matches Some(p) && p@ == stream_path(id),
{
    let mut path: String = owned("/org/gnome/Mutter/ScreenCast/Stream/u");
    path.append(unsigned_text(id as u64).as_str());
    proof {
        lemma_paths_valid(id);
    }
    object_path(path)
}

/// The screen cast service.
#[derive(Debug)]
pub struct ScreenCast {
    /// Number of the next session.
    pub next_session_id: usize,
    /// Number of the next stream.
    pub next_stream_id: usize,
    /// Sessions that were created.
    pub sessions: Vec<usize>,
}

/// What a session has.
#[derive(Debug)]
pub struct Session {
    pub id: usize,
    pub streams: Vec<usize>,
}

/// A stream of a session.
#[derive(Debug)]
pub struct Stream {
    pub id: usize,
    pub session_id: usize,
    pub output: OutputInfo,
    pub pipewire_node_id: Option<u32>,
}

impl ScreenCast {
    /// A service without sessions.
    pub fn new() -> (r: ScreenCast)
        ensures
            r.next_session_id == 0,
            r.next_stream_id == 0,
            r.sessions@ == Seq::<usize>::empty(),
    {
        ScreenCast { next_session_id: 0, next_stream_id: 0, sessions: Vec::new() }
    }

    /// The interface's version.
    pub fn version(&self) -> (r: i32)
        ensures
            r == 4,
    {
        4
    }

    /// Asks for a session: gives its number and path. A request that belongs
    /// to a remote desktop session is refused. A number is used up whether or
    /// not the session then comes about.
    pub fn request_session(&mut self, remote_desktop: bool) -> (r: Result<
        (usize, String),
        ScreenCastError,
    >)
        requires
            old(self).next_session_id < usize::MAX,
        ensures
            final(self).sessions@ == old(self).sessions@,
            final(self).next_stream_id == old(self).next_stream_id,
            if remote_desktop {
                r == Err::<(usize, String), ScreenCastError>(ScreenCastError::RemoteDesktop)
                    && final(self).next_session_id == old(self).next_session_id
            } else {
                r matches Ok((id, path)) && id == old(self).next_session_id && path@
                    == session_path(id) && final(self).next_session_id == old(
                    self).next_session_id + 1
            },
    {
        if remote_desktop {
            return Err(ScreenCastError::RemoteDesktop);
        }
        let id: usize = self.next_session_id;
        self.next_session_id = id + 1;
        match session_object_path(id) {
            Some(path) => Ok((id, path)),
            None => Err(ScreenCastError::InvalidPath),
        }
    }

    /// Takes up whether the object server took the session.
    pub fn session_served(&mut self, id: usize, served: bool) -> (r: Result<
        Session,
        ScreenCastError,
    >)
        ensures
            final(self).next_session_id == old(self).next_session_id,
            final(self).next_stream_id == old(self).next_stream_id,
            if served {
                r matches Ok(s) && s.id == id && s.streams@ == Seq::<usize>::empty() && final(
                    self).sessions@ == old(self).sessions@.push(id)
            } else {
                r == Err::<Session, ScreenCastError>(ScreenCastError::PathExists) && final(
                    self).sessions@ == old(self).sessions@
            },
    {
        if served {
            self.sessions.push(id);
            Ok(Session { id, streams: Vec::new() })
        } else {
            Err(ScreenCastError::PathExists)
        }
    }

    /// Asks for a stream of an output: gives the stream and its path. It is
    /// refused where there is no such output; then no number is used up.
    pub fn record_monitor(
        &mut self,
        session: &Session,
        outputs: &Vec<OutputInfo>,
        connector: &str,
    ) -> (r: Result<(Stream, String), ScreenCastError>)
        requires
            old(self).next_stream_id < usize::MAX,
        ensures
            final(self).sessions@ == old(self).sessions@,
            final(self).next_session_id == old(self).next_session_id,
            match output_named(info_views(outputs@), connector@) {
                Some(o) => r matches Ok((s, path)) && s.id == old(self).next_stream_id
                    && s.session_id == session.id && s.output@ == o && s.pipewire_node_id is None
                    && path@ == stream_path(s.id) && final(self).next_stream_id == old(
                    self).next_stream_id + 1,
                None => r matches Err(ScreenCastError::OutputNotFound { name }) && name@
                    == connector@ && final(self).next_stream_id == old(self).next_stream_id,
            },
    {
        match find_output(outputs, connector) {
            Some(i) => {
                let id: usize = self.next_stream_id;
                self.next_stream_id = id + 1;
                let o: &OutputInfo = &outputs[i];
                let output: OutputInfo = OutputInfo {
                    name: o.name.clone(),
                    x: o.x,
                    y: o.y,
                    width: o.width,
                    height: o.height,
                    refresh: o.refresh,
                };
                match stream_object_path(id) {
                    Some(path) => Ok(
                        (Stream { id, session_id: session.id, output, pipewire_node_id: None }, path),
                    ),
                    None => Err(ScreenCastError::InvalidPath),
                }
            },
            None => Err(ScreenCastError::OutputNotFound { name: owned(connector) }),
        }
    }
}

impl Session {
    /// Takes up whether the object server took the stream, and gives the
    /// message that starts the cast.
    pub fn stream_served(&mut self, stream: &Stream, connector: &str, served: bool) -> (r: Result<
        ScreenCastToCompositor,
        ScreenCastError,
    >)
        ensures
            final(self).id == old(self).id,
            if served {
                final(self).streams@ == old(self).streams@.push(stream.id) && (r matches Ok(
                    ScreenCastToCompositor::StartCast { session_id, output_name },
                ) && session_id == old(self).id && output_name@ == connector@)
            } else {
                r == Err::<ScreenCastToCompositor, ScreenCastError>(ScreenCastError::PathExists)
                    && final(self).streams@ == old(self).streams@
            },
    {
        if served {
            self.streams.push(stream.id);
            Ok(
                ScreenCastToCompositor::StartCast {
                    session_id: self.id,
                    output_name: owned(connector),
                },
            )
        } else {
            Err(ScreenCastError::PathExists)
        }
    }

    /// The message that ends the session's cast.
    pub fn stop(&self) -> (r: ScreenCastToCompositor)
        ensures
            r == (ScreenCastToCompositor::StopCast { session_id: self.id }),
    {
        ScreenCastToCompositor::StopCast { session_id: self.id }
    }
}

impl Stream {
    /// Remembers the PipeWire node of the stream.
    pub fn set_pipewire_node_id(&mut self, node_id: u32)
        ensures
            *final(self) == (Stream { pipewire_node_id: Some(node_id), ..*old(self) }),
    {
        self.pipewire_node_id = Some(node_id);
    }

    /// The stream's position and size, as its `Parameters` property tells
    /// them.
    pub fn parameters(&self) -> (r: ((i32, i32), (i32, i32)))
        ensures
            r == ((0i32, 0i32), (self.output.width, self.output.height)),
    {
        ((0, 0), (self.output.width, self.output.height))
    }
}

} // verus!
