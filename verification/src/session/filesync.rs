//! File synchronization: which context paths a request covers, and the
//! files that the client may be asked for.
use crate::session::paths::{clean_path, cleaned, path_eq, path_starts_with, same_path, starts_with};
use crate::text::{concat, decimal, owned, push_str, str_eq, u64_to_decimal};
use std::collections::HashMap;
use vstd::prelude::*;

verus! {

broadcast use vstd::std_specs::hash::group_hash_axioms;

/// Metadata key of the patterns a request includes.
pub const KEY_INCLUDE_PATTERNS: &'static str = "include-patterns";

/// Metadata key of the patterns a request excludes.
pub const KEY_EXCLUDE_PATTERNS: &'static str = "exclude-patterns";

/// Metadata key of the paths a request follows.
pub const KEY_FOLLOW_PATHS: &'static str = "followpaths";

/// Metadata key of the name of the requested context.
pub const KEY_DIR_NAME: &'static str = "dir-name";

/// The largest data packet sent for a file.
pub const MAX_PACKET_SIZE: usize = 4194304;

/// The bits of a file mode that tell its type (directory, symlink, named
/// pipe, socket, device, character device, irregular).
pub const MODE_TYPE_MASK: u32 = 0x8F28_0000;

/// File mode bits of a directory, symlink, device, named pipe, socket,
/// set-user-id, set-group-id, character device and sticky file, as the
/// file sync protocol carries them (Go's `os.FileMode`).
pub const MODE_DIR: u32 = 0x8000_0000;
pub const MODE_SYMLINK: u32 = 0x0800_0000;
pub const MODE_DEVICE: u32 = 0x0400_0000;
pub const MODE_NAMED_PIPE: u32 = 0x0200_0000;
pub const MODE_SOCKET: u32 = 0x0100_0000;
pub const MODE_SETUID: u32 = 0x0080_0000;
pub const MODE_SETGID: u32 = 0x0040_0000;
pub const MODE_CHAR_DEVICE: u32 = 0x0020_0000;
pub const MODE_STICKY: u32 = 0x0010_0000;

/// The type bits of a Unix `st_mode`, as protocol mode bits.
pub open spec fn type_bits(st_mode: u32) -> u32 {
    let t = st_mode & 0o170000u32;
    if t == 0o040000u32 {
        MODE_DIR
    } else if t == 0o120000u32 {
        MODE_SYMLINK
    } else if t == 0o010000u32 {
        MODE_NAMED_PIPE
    } else if t == 0o140000u32 {
        MODE_SOCKET
    } else if t == 0o060000u32 {
        MODE_DEVICE
    } else if t == 0o020000u32 {
        MODE_DEVICE | MODE_CHAR_DEVICE
    } else {
        0
    }
}

/// The protocol mode of a Unix `st_mode`: permission bits, type bits, and
/// the set-user-id, set-group-id and sticky flags.
pub open spec fn file_mode_of(st_mode: u32) -> u32 {
    (st_mode & 0o777u32) | type_bits(st_mode) | (if st_mode & 0o4000u32 != 0 {
        MODE_SETUID
    } else {
        0
    }) | (if st_mode & 0o2000u32 != 0 {
        MODE_SETGID
    } else {
        0
    }) | (if st_mode & 0o1000u32 != 0 {
        MODE_STICKY
    } else {
        0
    })
}

/// The protocol mode of a file from its Unix `st_mode`.
pub fn file_mode(st_mode: u32) -> (r: u32)
    ensures
        r == file_mode_of(st_mode),
{
    let t = st_mode & 0o170000u32;
    let ty: u32 = if t == 0o040000u32 {
        MODE_DIR
    } else if t == 0o120000u32 {
        MODE_SYMLINK
    } else if t == 0o010000u32 {
        MODE_NAMED_PIPE
    } else if t == 0o140000u32 {
        MODE_SOCKET
    } else if t == 0o060000u32 {
        MODE_DEVICE
    } else if t == 0o020000u32 {
        MODE_DEVICE | MODE_CHAR_DEVICE
    } else {
        0
    };
    let setuid: u32 = if st_mode & 0o4000u32 != 0 {
        MODE_SETUID
    } else {
        0
    };
    let setgid: u32 = if st_mode & 0o2000u32 != 0 {
        MODE_SETGID
    } else {
        0
    };
    let sticky: u32 = if st_mode & 0o1000u32 != 0 {
        MODE_STICKY
    } else {
        0
    };
    (st_mode & 0o777u32) | ty | setuid | setgid | sticky
}

/// Only a regular Unix file can be requested: every other file type has
/// a type bit in its protocol mode.
pub proof fn lemma_only_regular_files_requested(st_mode: u32)
    ensures
        (file_mode_of(st_mode) & MODE_TYPE_MASK == 0) <==> (st_mode & 0o170000u32 != 0o040000u32
            && st_mode & 0o170000u32 != 0o120000u32 && st_mode & 0o170000u32 != 0o010000u32
            && st_mode & 0o170000u32 != 0o140000u32 && st_mode & 0o170000u32 != 0o060000u32
            && st_mode & 0o170000u32 != 0o020000u32),
{
    let t = st_mode & 0o170000u32;
    let a = (st_mode & 0o777u32);
    let b = (if st_mode & 0o4000u32 != 0 { MODE_SETUID } else { 0 });
    let c = (if st_mode & 0o2000u32 != 0 { MODE_SETGID } else { 0 });
    let d = (if st_mode & 0o1000u32 != 0 { MODE_STICKY } else { 0 });
    let ty = type_bits(st_mode);
    assert(a & 0x8F28_0000u32 == 0) by (bit_vector)
        requires a == st_mode & 0o777u32;
    assert(b & 0x8F28_0000u32 == 0 && c & 0x8F28_0000u32 == 0 && d & 0x8F28_0000u32 == 0) by (bit_vector)
        requires
            b == 0 || b == 0x0080_0000u32,
            c == 0 || c == 0x0040_0000u32,
            d == 0 || d == 0x0010_0000u32;
    assert((a | ty | b | c | d) & 0x8F28_0000u32 == ty & 0x8F28_0000u32) by (bit_vector)
        requires
            a & 0x8F28_0000u32 == 0,
            b & 0x8F28_0000u32 == 0,
            c & 0x8F28_0000u32 == 0,
            d & 0x8F28_0000u32 == 0;
    assert(0x8000_0000u32 & 0x8F28_0000u32 != 0) by (bit_vector);
    assert(0x0800_0000u32 & 0x8F28_0000u32 != 0) by (bit_vector);
    assert(0x0200_0000u32 & 0x8F28_0000u32 != 0) by (bit_vector);
    assert(0x0100_0000u32 & 0x8F28_0000u32 != 0) by (bit_vector);
    assert(0x0400_0000u32 & 0x8F28_0000u32 != 0) by (bit_vector);
    assert((0x0400_0000u32 | 0x0020_0000u32) & 0x8F28_0000u32 != 0) by (bit_vector);
    assert(0u32 & 0x8F28_0000u32 == 0) by (bit_vector);
}

/// A regular file, whose data the server may request.
pub fn file_can_request_data(mode: u32) -> (r: bool)
    ensures
        r == (mode & MODE_TYPE_MASK == 0),
{
    mode & MODE_TYPE_MASK == 0
}

/// The root of a context: the empty path or one equal to `.`.
pub open spec fn is_root(p: Seq<char>) -> bool {
    p.len() == 0 || path_eq(p, "."@)
}

/// Whether a path is the root of the context.
pub fn is_root_path(path: &str) -> (r: bool)
    ensures
        r == is_root(path@),
{
    path.unicode_len() == 0 || same_path(path, ".")
}

/// A pattern covers a path when, cleaned, it is the root or a prefix of it.
pub open spec fn matches_prefix(path: Seq<char>, pattern: Seq<char>) -> bool {
    is_root(cleaned(pattern)) || path_starts_with(path, cleaned(pattern))
}

/// Whether a cleaned path lies under a pattern.
pub fn path_matches_prefix(path: &str, pattern: &str) -> (r: bool)
    ensures
        r == matches_prefix(path@, pattern@),
{
    let p = clean_path(pattern);
    is_root_path(p.as_str()) || starts_with(path, p.as_str())
}

/// An include pattern or followed path keeps a path when, cleaned, it is
/// the root, a prefix of the path, or lies under the path.
pub open spec fn keeps(path: Seq<char>, pattern: Seq<char>) -> bool {
    is_root(cleaned(pattern)) || path_starts_with(path, cleaned(pattern)) || path_starts_with(
        cleaned(pattern),
        path,
    )
}

/// Whether a context path is sent: never when an exclude pattern covers it;
/// always for the root or when nothing is included or followed; otherwise
/// when an include pattern or followed path keeps it.
pub open spec fn included(
    path: Seq<char>,
    excludes: Seq<String>,
    includes: Seq<String>,
    follows: Seq<String>,
) -> bool {
    let c = cleaned(path);
    if exists|i: int| 0 <= i < excludes.len() && matches_prefix(c, #[trigger] excludes[i]@) {
        false
    } else if (includes.len() == 0 && follows.len() == 0) || is_root(c) {
        true
    } else {
        (exists|i: int| 0 <= i < includes.len() && keeps(c, #[trigger] includes[i]@)) || (exists|
            i: int,
        |
            0 <= i < follows.len() && keeps(c, #[trigger] follows[i]@))
    }
}

/// Whether some pattern keeps the path.
fn any_keeps(path: &str, patterns: &Vec<String>) -> (r: bool)
    ensures
        r == exists|i: int| 0 <= i < patterns@.len() && keeps(path@, #[trigger] patterns@[i]@),
{
    let n = patterns.len();
    let mut i: usize = 0;
    while i < n
        invariant
            n == patterns@.len(),
            i <= n,
            forall|j: int| 0 <= j < i ==> !keeps(path@, #[trigger] patterns@[j]@),
        decreases n - i,
    {
        let p = clean_path(patterns[i].as_str());
        if is_root_path(p.as_str()) || starts_with(path, p.as_str()) || starts_with(p.as_str(), path) {
            assert(keeps(path@, patterns@[i as int]@));
            return true;
        }
        i = i + 1;
    }
    false
}

/// Whether a context path is sent for a request with these patterns.
pub fn should_include_path(
    path: &str,
    exclude_patterns: &Vec<String>,
    include_patterns: &Vec<String>,
    follow_paths: &Vec<String>,
) -> (r: bool)
    ensures
        r == included(path@, exclude_patterns@, include_patterns@, follow_paths@),
{
    let c = clean_path(path);
    let n = exclude_patterns.len();
    let mut i: usize = 0;
    while i < n
        invariant
            n == exclude_patterns@.len(),
            i <= n,
            c@ == cleaned(path@),
            forall|j: int| 0 <= j < i ==> !matches_prefix(c@, #[trigger] exclude_patterns@[j]@),
        decreases n - i,
    {
        if path_matches_prefix(c.as_str(), exclude_patterns[i].as_str()) {
            return false;
        }
        i = i + 1;
    }
    if (include_patterns.len() == 0 && follow_paths.len() == 0) || is_root_path(c.as_str()) {
        return true;
    }
    any_keeps(c.as_str(), include_patterns) || any_keeps(c.as_str(), follow_paths)
}

/// An exclude pattern that covers a path wins over every include pattern
/// and followed path.
pub proof fn lemma_exclude_wins(
    path: Seq<char>,
    excludes: Seq<String>,
    includes: Seq<String>,
    follows: Seq<String>,
    i: int,
)
    requires
        0 <= i < excludes.len(),
        matches_prefix(cleaned(path), excludes[i]@),
    ensures
        !included(path, excludes, includes, follows),
{
}

/// The root of the context is sent unless an exclude pattern covers it.
pub proof fn lemma_root_kept(path: Seq<char>, excludes: Seq<String>, includes: Seq<String>, follows: Seq<String>)
    requires
        is_root(cleaned(path)),
        forall|i: int| 0 <= i < excludes.len() ==> !matches_prefix(cleaned(path), #[trigger] excludes[i]@),
    ensures
        included(path, excludes, includes, follows),
{
}

/// Everything under an included directory is sent (unless excluded): a
/// path of which an include pattern, cleaned, is a component prefix.
pub proof fn lemma_children_of_includes_kept(
    path: Seq<char>,
    excludes: Seq<String>,
    includes: Seq<String>,
    follows: Seq<String>,
    i: int,
)
    requires
        forall|j: int| 0 <= j < excludes.len() ==> !matches_prefix(cleaned(path), #[trigger] excludes[j]@),
        0 <= i < includes.len(),
        path_starts_with(cleaned(path), cleaned(includes[i]@)),
    ensures
        included(path, excludes, includes, follows),
{
    assert(keeps(cleaned(path), includes[i]@));
}

/// Everything under a followed directory is sent (unless excluded).
pub proof fn lemma_children_of_follows_kept(
    path: Seq<char>,
    excludes: Seq<String>,
    includes: Seq<String>,
    follows: Seq<String>,
    i: int,
)
    requires
        forall|j: int| 0 <= j < excludes.len() ==> !matches_prefix(cleaned(path), #[trigger] excludes[j]@),
        0 <= i < follows.len(),
        path_starts_with(cleaned(path), cleaned(follows[i]@)),
    ensures
        included(path, excludes, includes, follows),
{
    assert(keeps(cleaned(path), follows[i]@));
}

/// A directory above an included path is sent too (unless excluded), so
/// that the included path can be reached.
pub proof fn lemma_parents_of_includes_kept(
    path: Seq<char>,
    excludes: Seq<String>,
    includes: Seq<String>,
    follows: Seq<String>,
    i: int,
)
    requires
        forall|j: int| 0 <= j < excludes.len() ==> !matches_prefix(cleaned(path), #[trigger] excludes[j]@),
        0 <= i < includes.len(),
        path_starts_with(cleaned(includes[i]@), cleaned(path)),
    ensures
        included(path, excludes, includes, follows),
{
    assert(keeps(cleaned(path), includes[i]@));
}

/// A directory above a followed path is sent too (unless excluded), so
/// that the followed path can be reached.
pub proof fn lemma_parents_of_follows_kept(
    path: Seq<char>,
    excludes: Seq<String>,
    includes: Seq<String>,
    follows: Seq<String>,
    i: int,
)
    requires
        forall|j: int| 0 <= j < excludes.len() ==> !matches_prefix(cleaned(path), #[trigger] excludes[j]@),
        0 <= i < follows.len(),
        path_starts_with(cleaned(follows[i]@), cleaned(path)),
    ensures
        included(path, excludes, includes, follows),
{
    assert(keeps(cleaned(path), follows[i]@));
}

/// With nothing excluded, included or followed, every path is sent.
pub proof fn lemma_no_patterns_keep_all(path: Seq<char>, none: Seq<String>)
    requires
        none.len() == 0,
    ensures
        included(path, none, none, none),
{
}

// ------------------------------------------------------------------
// Requested files
// ------------------------------------------------------------------

/// The regular files of a walk that the server may ask for, by the id of
/// their stat packet, and the id of the next entry.
pub struct FileRegistry {
    pub files: HashMap<u32, String>,
    pub next_id: u32,
}

impl FileRegistry {
    /// No files; the first entry gets id 0.
    pub fn new() -> (r: Self)
        ensures
            r.files@ == Map::<u32, String>::empty(),
            r.next_id == 0,
    {
        FileRegistry { files: HashMap::new(), next_id: 0 }
    }

    /// Records a walked entry: a regular file is registered under the
    /// current id; every entry takes an id, counting up to `u32::MAX`.
    pub fn register(&mut self, mode: u32, path: String)
        ensures
            mode & MODE_TYPE_MASK == 0 ==> final(self).files@ == old(self).files@.insert(old(self).next_id, path),
            mode & MODE_TYPE_MASK != 0 ==> final(self).files@ == old(self).files@,
            final(self).next_id == (if old(self).next_id == u32::MAX {
                u32::MAX
            } else {
                (old(self).next_id + 1) as u32
            }),
    {
        if file_can_request_data(mode) {
            self.files.insert(self.next_id, path);
        }
        self.next_id = self.next_id.saturating_add(1);
    }

    /// Hands out the file registered under `id`, at most once.
    pub fn take(&mut self, id: u32) -> (r: Option<String>)
        ensures
            r == old(self).files@.get(id),
            final(self).files@ == old(self).files@.remove(id),
            final(self).next_id == old(self).next_id,
    {
        self.files.remove(&id)
    }
}

/// A file handed out once is not handed out again.
pub proof fn lemma_take_once(files: Map<u32, String>, id: u32)
    ensures
        files.remove(id).get(id) is None,
{
}

/// The error sent for a request of an id with no file.
pub fn missing_file_message(id: u32) -> (r: String)
    ensures
        r@ == "requested file id "@ + decimal(id as nat) + " is out of range"@,
{
    let mut m = owned("requested file id ");
    let d = u64_to_decimal(id as u64);
    push_str(&mut m, d.as_str());
    push_str(&mut m, " is out of range");
    m
}

/// The stat of a walked entry, as the client sends it.
pub struct StatRecord {
    pub path: String,
    pub mode: u32,
    pub uid: u32,
    pub gid: u32,
    pub size: i64,
    pub mod_time: i64,
}

impl FileRegistry {
    /// A walked entry: its stat, under its path relative to the context root
    /// cleaned, and its registration under the next id.
    pub fn walk_entry(
        &mut self,
        relative: &str,
        full_path: String,
        mode: u32,
        uid: u32,
        gid: u32,
        size: i64,
        mod_time: i64,
    ) -> (r: StatRecord)
        ensures
            r.path@ == cleaned(relative@),
            r.mode == mode && r.uid == uid && r.gid == gid && r.size == size && r.mod_time == mod_time,
            mode & MODE_TYPE_MASK == 0 ==> final(self).files@ == old(self).files@.insert(old(self).next_id, full_path),
            mode & MODE_TYPE_MASK != 0 ==> final(self).files@ == old(self).files@,
            final(self).next_id == (if old(self).next_id == u32::MAX {
                u32::MAX
            } else {
                (old(self).next_id + 1) as u32
            }),
    {
        let path = clean_path(relative);
        self.register(mode, full_path);
        StatRecord { path, mode, uid, gid, size, mod_time }
    }
}

/// A packet the server sends on the sync stream, by type.
pub enum SyncPacket {
    /// A request for the data of the file with this id.
    Request(u32),
    Error,
    Fin,
    Other,
}

/// What the service does on a packet.
pub enum SyncAction {
    /// Send the file's data under the id, then an empty data packet.
    SendFile(u32, String),
    /// Send an error packet with the message under the id.
    SendError(u32, String),
    /// Wait for the walk, send a fin packet and end.
    Finish,
    /// Stop reading, wait for the walk and end.
    Stop,
}

impl FileRegistry {
    /// The answer to a packet from the server. A request takes its file out
    /// of the registry, so that each file is sent once.
    pub fn answer(&mut self, packet: &SyncPacket) -> (r: SyncAction)
        ensures
            match *packet {
                SyncPacket::Request(id) => {
                    &&& final(self).files@ == old(self).files@.remove(id)
                    &&& final(self).next_id == old(self).next_id
                    &&& match old(self).files@.get(id) {
                        Some(p) => r == SyncAction::SendFile(id, p),
                        None => r matches SyncAction::SendError(i, m) && i == id && m@ == "requested file id "@
                            + decimal(id as nat) + " is out of range"@,
                    }
                },
                SyncPacket::Fin => r is Finish && *final(self) == *old(self),
                _ => r is Stop && *final(self) == *old(self),
            },
    {
        match packet {
            SyncPacket::Request(id) => match self.take(*id) {
                Some(p) => SyncAction::SendFile(*id, p),
                None => SyncAction::SendError(*id, missing_file_message(*id)),
            },
            SyncPacket::Fin => SyncAction::Finish,
            _ => SyncAction::Stop,
        }
    }
}

/// The error sent when a requested file cannot be opened.
pub fn open_failure_message(path: &str, err: &str) -> (r: String)
    ensures
        r@ == "failed to open requested path "@ + path@ + ": "@ + err@,
{
    let mut m = concat("failed to open requested path ", path);
    push_str(&mut m, ": ");
    push_str(&mut m, err);
    m
}

// ------------------------------------------------------------------
// The requested context
// ------------------------------------------------------------------

/// A file sync service: the local directories of a session, by name.
pub struct FileSyncService {
    pub context: Vec<(String, String)>,
}

/// The directory the last entry named `name` gives, if any.
pub open spec fn context_dir(ctx: Seq<(String, String)>, name: Seq<char>) -> Option<Seq<char>>
    decreases ctx.len(),
{
    if ctx.len() == 0 {
        None
    } else if ctx.last().0@ == name {
        Some(ctx.last().1@)
    } else {
        context_dir(ctx.drop_last(), name)
    }
}

/// The `dir-name` metadata of a request.
pub enum DirNameHeader {
    Missing,
    /// Present but not text; holds the conversion error's message.
    Invalid(String),
    Valid(String),
}

impl FileSyncService {
    pub fn new(context: Vec<(String, String)>) -> (r: Self)
        ensures
            r.context == context,
    {
        FileSyncService { context }
    }

    /// The directory a request asks for, or the message of the invalid
    /// argument error that refuses it.
    pub fn resolve_dir(&self, header: &DirNameHeader) -> (r: Result<String, String>)
        ensures
            match header {
                DirNameHeader::Missing => r matches Err(m) && m@ == "missing dir-name in metadata"@,
                DirNameHeader::Invalid(e) => r matches Err(m) && m@ == "invalid dir-name: "@ + e@,
                DirNameHeader::Valid(name) => match context_dir(self.context@, name@) {
                    Some(d) => r matches Ok(p) && p@ == d,
                    None => r matches Err(m) && m@ == "dir-name not found in context"@,
                },
            },
    {
        match header {
            DirNameHeader::Missing => Err(owned("missing dir-name in metadata")),
            DirNameHeader::Invalid(e) => Err(concat("invalid dir-name: ", e.as_str())),
            DirNameHeader::Valid(name) => {
                let ghost ctx = self.context@;
                let mut i: usize = self.context.len();
                assert(ctx.take(i as int) =~= ctx);
                while i > 0
                    invariant
                        *header == DirNameHeader::Valid(*name),
                        i <= ctx.len(),
                        ctx == self.context@,
                        context_dir(ctx, name@) == context_dir(ctx.take(i as int), name@),
                    decreases i,
                {
                    let ghost t = ctx.take(i as int);
                    assert(t.drop_last() =~= ctx.take(i - 1));
                    assert(t.last() == ctx[i - 1]);
                    if str_eq(self.context[i - 1].0.as_str(), name.as_str()) {
                        return Ok(self.context[i - 1].1.clone());
                    }
                    i = i - 1;
                }
                Err(owned("dir-name not found in context"))
            },
        }
    }
}

} // verus!
