//! What a BuildKit client decides before it talks to the daemon: whether a
//! solve request is complete, and the headers that open a session.
use crate::text::{owned, push_char};
use vstd::prelude::*;
use vstd::utf8::encode_utf8;

verus! {

/// Header carrying the session id.
pub const HEADER_SESSION_ID: &'static str = "x-docker-expose-session-uuid";

/// Header carrying the session name.
pub const HEADER_SESSION_NAME: &'static str = "x-docker-expose-session-name";

/// Header carrying the session's shared key.
pub const HEADER_SESSION_SHARED_KEY: &'static str = "x-docker-expose-session-sharedkey";

/// Header listing a method the session serves.
pub const HEADER_SESSION_METHOD: &'static str = "x-docker-expose-session-grpc-method";

/// Options for a solve request.
///
/// Either `definition` (a serialized LLB definition) or `frontend` (such as
/// `dockerfile.v0`) must be given. Exporter attributes require an exporter.
pub struct SolveOptions {
    /// Unique reference id for this solve.
    pub id: String,
    /// Session id to associate with this solve.
    pub session: String,
    /// Serialized LLB definition; `None` when a frontend is used instead.
    pub definition: Option<Vec<u8>>,
    /// Frontend to use; empty when a definition is given.
    pub frontend: String,
    /// Attributes passed to the frontend.
    pub frontend_attrs: Vec<(String, String)>,
    /// Exporter for the build results; may be empty.
    pub exporter: String,
    /// Attributes passed to the exporter.
    pub exporter_attrs: Vec<(String, String)>,
}

impl SolveOptions {
    /// Accepts a request with a definition or a frontend, and exporter
    /// attributes only with an exporter; otherwise the message of the
    /// invalid argument error.
    pub fn validate(&self) -> (r: Result<(), String>)
        ensures
            self.definition is None && self.frontend@.len() == 0 ==> (r matches Err(m) && m@
                == "solve requires either `definition` or `frontend`"@),
            !(self.definition is None && self.frontend@.len() == 0) && self.exporter@.len() == 0
                && self.exporter_attrs@.len() > 0 ==> (r matches Err(m) && m@
                == "exporter attributes require `exporter` to be set"@),
            !(self.definition is None && self.frontend@.len() == 0) && !(self.exporter@.len() == 0
                && self.exporter_attrs@.len() > 0) ==> r is Ok,
    {
        if self.definition.is_none() && self.frontend.as_str().unicode_len() == 0 {
            return Err(owned("solve requires either `definition` or `frontend`"));
        }
        if self.exporter.as_str().unicode_len() == 0 && self.exporter_attrs.len() > 0 {
            return Err(owned("exporter attributes require `exporter` to be set"));
        }
        Ok(())
    }
}

/// Options for opening a session.
pub struct SessionOptions {
    /// Human-readable session name advertised to BuildKit.
    pub name: String,
    /// Local directories exposed to the session by name.
    pub local: Vec<(String, String)>,
}

impl SessionOptions {
    /// No name and no local directories.
    pub fn new() -> (r: Self)
        ensures
            r.name@.len() == 0,
            r.local@.len() == 0,
    {
        SessionOptions { name: String::new(), local: Vec::new() }
    }
}

/// An open session.
pub struct Session {
    /// Opaque BuildKit session identifier.
    pub id: String,
}

/// A session name byte as it may stand in a header: printable ASCII is
/// kept, anything else becomes `?`.
pub open spec fn header_char(b: u8) -> char {
    if 32 <= b < 127 {
        b as char
    } else {
        '?'
    }
}

/// The session name as a header value: each of its UTF-8 bytes mapped by
/// [`header_char`].
pub fn session_header_name(name: &str) -> (r: String)
    ensures
        r@ == encode_utf8(name@).map_values(|b: u8| header_char(b)),
{
    let bytes = name.as_bytes();
    let mut r = String::new();
    let n = bytes.len();
    let mut i: usize = 0;
    while i < n
        invariant
            n == bytes@.len(),
            bytes@ == encode_utf8(name@),
            i <= n,
            r@ == bytes@.subrange(0, i as int).map_values(|b: u8| header_char(b)),
        decreases n - i,
    {
        let b = bytes[i];
        let c = if 32 <= b && b < 127 { b as char } else { '?' };
        push_char(&mut r, c);
        i = i + 1;
        assert(r@ =~= bytes@.subrange(0, i as int).map_values(|b: u8| header_char(b)));
    }
    assert(bytes@.subrange(0, n as int) =~= bytes@);
    r
}

/// Every character of a session's header name is printable ASCII, so the
/// header value is always valid.
pub proof fn lemma_header_name_printable(name: Seq<char>, i: int)
    requires
        0 <= i < encode_utf8(name).len(),
    ensures
        ({
            let c = encode_utf8(name).map_values(|b: u8| header_char(b))[i];
            32 <= (c as u32) < 127
        }),
{
    let b = encode_utf8(name)[i];
    assert(encode_utf8(name).map_values(|b: u8| header_char(b))[i] == header_char(b));
}

/// The methods a session serves, in the order they are announced.
pub open spec fn session_method_names() -> Seq<Seq<char>> {
    seq![
        "/moby.filesync.v1.FileSync/DiffCopy"@,
        "/moby.filesync.v1.FileSync/TarStream"@,
        "/moby.filesync.v1.FileSend/DiffCopy"@,
        "/moby.buildkit.secrets.v1.Secrets/GetSecret"@,
    ]
}

/// The session methods a session serves, in the order they are announced.
pub fn session_methods() -> (r: Vec<String>)
    ensures
        r@.map_values(|s: String| s@) == session_method_names(),
{
    let mut r: Vec<String> = Vec::new();
    r.push(owned("/moby.filesync.v1.FileSync/DiffCopy"));
    r.push(owned("/moby.filesync.v1.FileSync/TarStream"));
    r.push(owned("/moby.filesync.v1.FileSend/DiffCopy"));
    r.push(owned("/moby.buildkit.secrets.v1.Secrets/GetSecret"));
    assert(r@.map_values(|s: String| s@) =~= seq![
        "/moby.filesync.v1.FileSync/DiffCopy"@,
        "/moby.filesync.v1.FileSync/TarStream"@,
        "/moby.filesync.v1.FileSend/DiffCopy"@,
        "/moby.buildkit.secrets.v1.Secrets/GetSecret"@,
    ]);
    r
}

/// Header names and values as text.
pub open spec fn header_views(h: Seq<(String, String)>) -> Seq<(Seq<char>, Seq<char>)> {
    h.map_values(|p: (String, String)| (p.0@, p.1@))
}

/// The headers that open a session, in the order they are sent: the
/// session id, the session name as a header value, an empty shared key,
/// then one method header for each method the session serves.
pub open spec fn session_header_list(id: Seq<char>, name: Seq<char>) -> Seq<(Seq<char>, Seq<char>)> {
    seq![
        (HEADER_SESSION_ID@, id),
        (HEADER_SESSION_NAME@, encode_utf8(name).map_values(|b: u8| header_char(b))),
        (HEADER_SESSION_SHARED_KEY@, Seq::<char>::empty()),
    ] + session_method_names().map_values(|m: Seq<char>| (HEADER_SESSION_METHOD@, m))
}

/// The headers that open the session with this id and name.
pub fn session_headers(id: &str, name: &str) -> (r: Vec<(String, String)>)
    ensures
        header_views(r@) == session_header_list(id@, name@),
{
    let mut r: Vec<(String, String)> = Vec::new();
    r.push((owned(HEADER_SESSION_ID), owned(id)));
    r.push((owned(HEADER_SESSION_NAME), session_header_name(name)));
    r.push((owned(HEADER_SESSION_SHARED_KEY), String::new()));
    let methods = session_methods();
    let ghost start = header_views(r@);
    let n = methods.len();
    let mut i: usize = 0;
    while i < n
        invariant
            n == methods@.len(),
            i <= n,
            methods@.map_values(|s: String| s@) == session_method_names(),
            header_views(r@) == start + session_method_names().take(i as int).map_values(
                |m: Seq<char>| (HEADER_SESSION_METHOD@, m),
            ),
        decreases n - i,
    {
        let ghost before = header_views(r@);
        r.push((owned(HEADER_SESSION_METHOD), methods[i].clone()));
        proof {
            assert(methods@.map_values(|s: String| s@)[i as int] == methods@[i as int]@);
            assert(session_method_names().take(i + 1) =~= session_method_names().take(i as int).push(
                methods@[i as int]@,
            ));
            assert(header_views(r@) =~= before.push((HEADER_SESSION_METHOD@, methods@[i as int]@)));
            assert(start + session_method_names().take(i + 1).map_values(
                |m: Seq<char>| (HEADER_SESSION_METHOD@, m),
            ) =~= (start + session_method_names().take(i as int).map_values(
                |m: Seq<char>| (HEADER_SESSION_METHOD@, m),
            )).push((HEADER_SESSION_METHOD@, methods@[i as int]@)));
        }
        i = i + 1;
    }
    proof {
        assert(session_method_names().take(n as int) =~= session_method_names());
        assert(start =~= seq![
            (HEADER_SESSION_ID@, id@),
            (HEADER_SESSION_NAME@, encode_utf8(name@).map_values(|b: u8| header_char(b))),
            (HEADER_SESSION_SHARED_KEY@, Seq::<char>::empty()),
        ]);
    }
    r
}

} // verus!
