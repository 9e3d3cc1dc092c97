//! Source operations: container images, Git repositories, HTTP downloads and
//! local build contexts.
use crate::llb::graph::{stack, OperationOutput};
use crate::llb::pb::{OpPb, SourcePb};
use crate::text::{concat, i32_to_decimal, i32_to_octal, octal_bits32, owned, push_str, signed_decimal};
use vstd::prelude::*;

verus! {

/// Attribute pairs as pairs of character sequences.
pub open spec fn attr_views(a: Seq<(String, String)>) -> Seq<(Seq<char>, Seq<char>)> {
    a.map_values(|p: (String, String)| (p.0@, p.1@))
}

/// `s` and its graph: one source node, reading nothing, with this
/// identifier, these attributes and this display name.
pub open spec fn is_source(
    o: OperationOutput,
    identifier: Seq<char>,
    attrs: Seq<(Seq<char>, Seq<char>)>,
    name: Option<String>,
) -> bool {
    &&& o.wf()
    &&& o.index == 0
    &&& o.nodes@.len() == 1
    &&& o.nodes@[0].inputs@.len() == 0
    &&& o.nodes@[0].body.op matches OpPb::Source(s) && s.identifier@ == identifier && attr_views(
        s.attrs@,
    ) == attrs
    &&& o.nodes@[0].body.custom_name == name
}

/// A copy of an optional string.
pub fn clone_opt(s: &Option<String>) -> (r: Option<String>)
    ensures
        r == *s,
{
    match s {
        Some(x) => Some(x.clone()),
        None => None,
    }
}

/// The graph of a single source node.
pub fn source_output(identifier: String, attrs: Vec<(String, String)>, name: Option<String>) -> (r:
    OperationOutput)
    ensures
        is_source(r, identifier@, attr_views(attrs@), name),
{
    let parts: Vec<&OperationOutput> = Vec::new();
    let ghost a = attrs@;
    let r = stack(&parts, OpPb::Source(SourcePb { identifier, attrs }), name);
    assert(r.nodes@[0] == r.nodes@.last());
    r
}

// ------------------------------------------------------------------
// Image
// ------------------------------------------------------------------

/// A container image source.
pub struct Image {
    pub name: String,
    pub custom_name: Option<String>,
}

pub open spec fn image_identifier(name: Seq<char>) -> Seq<char> {
    "docker-image://"@ + name
}

impl Image {
    /// An image source for the named image.
    pub fn new(name: &str) -> (r: Self)
        ensures
            r.name@ == name@,
            r.custom_name is None,
    {
        Image { name: owned(name), custom_name: None }
    }

    /// Sets the display name of the operation.
    pub fn with_custom_name(self, name: &str) -> (r: Self)
        ensures
            r.name == self.name,
            r.custom_name matches Some(n) && n@ == name@,
    {
        Image { custom_name: Some(owned(name)), ..self }
    }

    /// The image as the single node of a graph.
    pub fn output(&self) -> (r: OperationOutput)
        ensures
            is_source(r, image_identifier(self.name@), Seq::empty(), self.custom_name),
    {
        let id = concat("docker-image://", self.name.as_str());
        let attrs: Vec<(String, String)> = Vec::new();
        assert(attr_views(attrs@) =~= Seq::empty());
        source_output(id, attrs, clone_opt(&self.custom_name))
    }
}

// ------------------------------------------------------------------
// Local
// ------------------------------------------------------------------

/// A local build context, provided by the client session under a name.
pub struct Local {
    pub name: String,
    pub custom_name: Option<String>,
}

pub open spec fn local_identifier(name: Seq<char>) -> Seq<char> {
    "local://"@ + name
}

impl Local {
    /// A local source for the named context.
    pub fn new(name: &str) -> (r: Self)
        ensures
            r.name@ == name@,
            r.custom_name is None,
    {
        Local { name: owned(name), custom_name: None }
    }

    /// The local context as the single node of a graph.
    pub fn output(&self) -> (r: OperationOutput)
        ensures
            is_source(r, local_identifier(self.name@), Seq::empty(), self.custom_name),
    {
        let id = concat("local://", self.name.as_str());
        let attrs: Vec<(String, String)> = Vec::new();
        assert(attr_views(attrs@) =~= Seq::empty());
        source_output(id, attrs, clone_opt(&self.custom_name))
    }
}

// ------------------------------------------------------------------
// Git
// ------------------------------------------------------------------

/// A Git source operation that fetches a Git repository.
pub struct Git {
    /// The remote URL of the Git repository.
    pub remote: String,
    /// The ref to check out (branch, tag, or commit).
    pub git_ref: String,
    /// Whether to keep the `.git` directory.
    pub keep_git_dir: bool,
    /// Subdir within the repo to use as the root.
    pub subdir: Option<String>,
    /// Auth header secret name.
    pub auth_header_secret: Option<String>,
    /// Auth token secret name.
    pub auth_token_secret: Option<String>,
    /// Known SSH hosts content.
    pub known_ssh_hosts: Option<String>,
    /// Whether to mount the SSH socket.
    pub mount_ssh_sock: Option<String>,
    /// Display name of the operation.
    pub custom_name: Option<String>,
}

/// `git://<remote>#<ref>`, followed by `:<subdir>` when the build is rooted
/// at a directory of the repository.
pub open spec fn git_identifier(g: Git) -> Seq<char> {
    "git://"@ + g.remote@ + "#"@ + g.git_ref@ + match g.subdir {
        Some(d) => ":"@ + d@,
        None => Seq::empty(),
    }
}

/// One attribute when the option is set, none otherwise.
pub open spec fn opt_attr(k: Seq<char>, v: Option<String>) -> Seq<(Seq<char>, Seq<char>)> {
    match v {
        Some(s) => seq![(k, s@)],
        None => Seq::empty(),
    }
}

/// The attributes of a Git source, ordered by key.
pub open spec fn git_attrs(g: Git) -> Seq<(Seq<char>, Seq<char>)> {
    opt_attr("git.authheadersecret"@, g.auth_header_secret) + opt_attr(
        "git.authtokensecret"@,
        g.auth_token_secret,
    ) + seq![("git.fullurl"@, g.remote@)] + (if g.keep_git_dir {
        seq![("git.keepgitdir"@, "true"@)]
    } else {
        Seq::empty()
    }) + opt_attr("git.knownsshhosts"@, g.known_ssh_hosts) + opt_attr(
        "git.mountsshsock"@,
        g.mount_ssh_sock,
    )
}

/// Appends an attribute when the option is set.
fn push_opt_attr(attrs: &mut Vec<(String, String)>, k: &str, v: &Option<String>)
    ensures
        attr_views(final(attrs)@) == attr_views(old(attrs)@) + opt_attr(k@, *v),
{
    match v {
        Some(s) => {
            attrs.push((owned(k), s.clone()));
        },
        None => {},
    }
    assert(attr_views(attrs@) =~= attr_views(old(attrs)@) + opt_attr(k@, *v));
}

/// Appends an attribute.
fn push_attr(attrs: &mut Vec<(String, String)>, k: &str, v: String)
    ensures
        attr_views(final(attrs)@) == attr_views(old(attrs)@) + seq![(k@, v@)],
{
    attrs.push((owned(k), v));
    assert(attr_views(attrs@) =~= attr_views(old(attrs)@) + seq![(k@, v@)]);
}

impl Git {
    /// Create a new Git source with the given remote URL and ref.
    pub fn new(remote: &str, git_ref: &str) -> (r: Self)
        ensures
            r.remote@ == remote@,
            r.git_ref@ == git_ref@,
            !r.keep_git_dir,
            r.subdir is None,
            r.auth_header_secret is None,
            r.auth_token_secret is None,
            r.known_ssh_hosts is None,
            r.mount_ssh_sock is None,
            r.custom_name is None,
    {
        Git {
            remote: owned(remote),
            git_ref: owned(git_ref),
            keep_git_dir: false,
            subdir: None,
            auth_header_secret: None,
            auth_token_secret: None,
            known_ssh_hosts: None,
            mount_ssh_sock: None,
            custom_name: None,
        }
    }

    pub fn with_keep_git_dir(self, keep: bool) -> (r: Self)
        ensures
            r == (Git { keep_git_dir: keep, ..self }),
    {
        Git { keep_git_dir: keep, ..self }
    }

    pub fn with_subdir(self, subdir: &str) -> (r: Self)
        ensures
            r.subdir matches Some(s) && s@ == subdir@,
            r == (Git { subdir: r.subdir, ..self }),
    {
        Git { subdir: Some(owned(subdir)), ..self }
    }

    pub fn with_auth_header_secret(self, secret: &str) -> (r: Self)
        ensures
            r.auth_header_secret matches Some(s) && s@ == secret@,
            r == (Git { auth_header_secret: r.auth_header_secret, ..self }),
    {
        Git { auth_header_secret: Some(owned(secret)), ..self }
    }

    pub fn with_auth_token_secret(self, secret: &str) -> (r: Self)
        ensures
            r.auth_token_secret matches Some(s) && s@ == secret@,
            r == (Git { auth_token_secret: r.auth_token_secret, ..self }),
    {
        Git { auth_token_secret: Some(owned(secret)), ..self }
    }

    pub fn with_known_ssh_hosts(self, hosts: &str) -> (r: Self)
        ensures
            r.known_ssh_hosts matches Some(s) && s@ == hosts@,
            r == (Git { known_ssh_hosts: r.known_ssh_hosts, ..self }),
    {
        Git { known_ssh_hosts: Some(owned(hosts)), ..self }
    }

    pub fn with_mount_ssh_sock(self, sock: &str) -> (r: Self)
        ensures
            r.mount_ssh_sock matches Some(s) && s@ == sock@,
            r == (Git { mount_ssh_sock: r.mount_ssh_sock, ..self }),
    {
        Git { mount_ssh_sock: Some(owned(sock)), ..self }
    }

    /// Sets the display name of the operation.
    pub fn with_custom_name(self, name: &str) -> (r: Self)
        ensures
            r.custom_name matches Some(n) && n@ == name@,
            r == (Git { custom_name: r.custom_name, ..self }),
    {
        Git { custom_name: Some(owned(name)), ..self }
    }

    /// The source as the single node of a graph: identifier
    /// `git://<remote>#<ref>` and the attributes that are set, by key.
    pub fn output(&self) -> (r: OperationOutput)
        ensures
            is_source(r, git_identifier(*self), git_attrs(*self), self.custom_name),
    {
        let mut id = concat("git://", self.remote.as_str());
        push_str(&mut id, "#");
        push_str(&mut id, self.git_ref.as_str());
        match &self.subdir {
            Some(d) => {
                push_str(&mut id, ":");
                push_str(&mut id, d.as_str());
            },
            None => {},
        }
        let mut attrs: Vec<(String, String)> = Vec::new();
        push_opt_attr(&mut attrs, "git.authheadersecret", &self.auth_header_secret);
        push_opt_attr(&mut attrs, "git.authtokensecret", &self.auth_token_secret);
        push_attr(&mut attrs, "git.fullurl", self.remote.clone());
        if self.keep_git_dir {
            push_attr(&mut attrs, "git.keepgitdir", owned("true"));
        }
        push_opt_attr(&mut attrs, "git.knownsshhosts", &self.known_ssh_hosts);
        push_opt_attr(&mut attrs, "git.mountsshsock", &self.mount_ssh_sock);
        assert(attr_views(attrs@) =~= git_attrs(*self));
        assert(id@ =~= git_identifier(*self));
        source_output(id, attrs, clone_opt(&self.custom_name))
    }
}

// ------------------------------------------------------------------
// HTTP
// ------------------------------------------------------------------

/// An HTTP source operation that fetches a file from an HTTP(S) URL.
pub struct Http {
    /// The URL to fetch.
    pub url: String,
    /// Expected digest of the file (for verification).
    pub checksum: Option<String>,
    /// Override filename for the downloaded file.
    pub filename: Option<String>,
    /// File permissions, sent in octal.
    pub perm: Option<i32>,
    /// UID of the downloaded file.
    pub uid: Option<i32>,
    /// GID of the downloaded file.
    pub gid: Option<i32>,
    /// Display name of the operation.
    pub custom_name: Option<String>,
}

/// The attributes of an HTTP source, ordered by key: the permission in
/// octal, the owner ids in decimal.
pub open spec fn http_attrs(h: Http) -> Seq<(Seq<char>, Seq<char>)> {
    opt_attr("http.checksum"@, h.checksum) + opt_attr("http.filename"@, h.filename) + (match h.gid {
        Some(g) => seq![("http.gid"@, signed_decimal(g as int))],
        None => Seq::empty(),
    }) + (match h.perm {
        Some(p) => seq![("http.perm"@, octal_bits32(p as int))],
        None => Seq::empty(),
    }) + (match h.uid {
        Some(u) => seq![("http.uid"@, signed_decimal(u as int))],
        None => Seq::empty(),
    })
}

impl Http {
    /// Create a new HTTP source with the given URL.
    pub fn new(url: &str) -> (r: Self)
        ensures
            r.url@ == url@,
            r.checksum is None,
            r.filename is None,
            r.perm is None,
            r.uid is None,
            r.gid is None,
            r.custom_name is None,
    {
        Http {
            url: owned(url),
            checksum: None,
            filename: None,
            perm: None,
            uid: None,
            gid: None,
            custom_name: None,
        }
    }

    pub fn with_checksum(self, checksum: &str) -> (r: Self)
        ensures
            r.checksum matches Some(s) && s@ == checksum@,
            r == (Http { checksum: r.checksum, ..self }),
    {
        Http { checksum: Some(owned(checksum)), ..self }
    }

    pub fn with_filename(self, filename: &str) -> (r: Self)
        ensures
            r.filename matches Some(s) && s@ == filename@,
            r == (Http { filename: r.filename, ..self }),
    {
        Http { filename: Some(owned(filename)), ..self }
    }

    pub fn with_perm(self, perm: i32) -> (r: Self)
        ensures
            r == (Http { perm: Some(perm), ..self }),
    {
        Http { perm: Some(perm), ..self }
    }

    pub fn with_uid(self, uid: i32) -> (r: Self)
        ensures
            r == (Http { uid: Some(uid), ..self }),
    {
        Http { uid: Some(uid), ..self }
    }

    pub fn with_gid(self, gid: i32) -> (r: Self)
        ensures
            r == (Http { gid: Some(gid), ..self }),
    {
        Http { gid: Some(gid), ..self }
    }

    /// Sets the display name of the operation.
    pub fn with_custom_name(self, name: &str) -> (r: Self)
        ensures
            r.custom_name matches Some(n) && n@ == name@,
            r == (Http { custom_name: r.custom_name, ..self }),
    {
        Http { custom_name: Some(owned(name)), ..self }
    }

    /// The source as the single node of a graph: the URL as identifier and
    /// the attributes that are set, by key.
    pub fn output(&self) -> (r: OperationOutput)
        ensures
            is_source(r, self.url@, http_attrs(*self), self.custom_name),
    {
        let mut attrs: Vec<(String, String)> = Vec::new();
        push_opt_attr(&mut attrs, "http.checksum", &self.checksum);
        push_opt_attr(&mut attrs, "http.filename", &self.filename);
        match self.gid {
            Some(g) => push_attr(&mut attrs, "http.gid", i32_to_decimal(g)),
            None => {},
        }
        match self.perm {
            Some(p) => push_attr(&mut attrs, "http.perm", i32_to_octal(p)),
            None => {},
        }
        match self.uid {
            Some(u) => push_attr(&mut attrs, "http.uid", i32_to_decimal(u)),
            None => {},
        }
        assert(attr_views(attrs@) =~= http_attrs(*self));
        source_output(self.url.clone(), attrs, clone_opt(&self.custom_name))
    }
}

} // verus!
