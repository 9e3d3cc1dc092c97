//! The LLB operation messages (BuildKit's `ops.proto`) as plain values, and
//! their exact protocol-buffer encoding.
//!
//! Field numbers: `Op { inputs = 1; exec = 2; source = 3; file = 4; merge = 6;
//! diff = 7 }`, `Input { digest = 1; index = 2 }`, `ExecOp { meta = 1;
//! mounts = 2 }`, `Meta { args = 1; env = 2; cwd = 3 }`, `Mount { input = 1;
//! dest = 3; output = 4; readonly = 5; mountType = 6; cacheOpt = 20 }`,
//! `CacheOpt { ID = 1; sharing = 2 }`, `SourceOp { identifier = 1; attrs = 2 }`,
//! `FileOp { actions = 2 }`, `FileAction { input = 1; secondaryInput = 2;
//! output = 3; copy = 4; mkfile = 5; mkdir = 6; rm = 7; symlink = 8 }`,
//! `MergeOp { inputs = 1 }`, `MergeInput { input = 1 }`, `DiffOp { lower = 1;
//! upper = 2 }`, `ChownOpt { user = 1; group = 2 }`, `UserOpt { byName = 1;
//! byID = 2 }`, `NamedUserOpt { name = 1; input = 2 }`.
use crate::wire::{
    bool_field, bytes_field, int_field, key, len_delim, put_bool_field, put_bytes_field, put_int_field,
    put_key, put_len_delim, put_repeated_str, put_str_field, put_uint_field, put_varint, repeated_str,
    str_field, uint_field, varint,
};
use vstd::prelude::*;
use vstd::utf8::encode_utf8;

verus! {

// ------------------------------------------------------------------
// Ownership
// ------------------------------------------------------------------

/// User identification for ownership.
pub enum UserOpt {
    ById(u32),
    ByName(String),
}

/// Ownership option for file operations.
pub struct ChownOpt {
    pub user: Option<UserOpt>,
    pub group: Option<UserOpt>,
}

pub open spec fn enc_user(u: UserOpt) -> Seq<u8> {
    match u {
        UserOpt::ById(id) => key(2, 0) + varint(id as nat),
        UserOpt::ByName(name) => len_delim(1, str_field(1, name@) + int_field(2, -1)),
    }
}

pub open spec fn opt_user(field: nat, u: Option<UserOpt>) -> Seq<u8> {
    match u {
        Some(x) => len_delim(field, enc_user(x)),
        None => Seq::empty(),
    }
}

pub open spec fn enc_chown(c: ChownOpt) -> Seq<u8> {
    opt_user(1, c.user) + opt_user(2, c.group)
}

pub open spec fn opt_chown(field: nat, c: Option<ChownOpt>) -> Seq<u8> {
    match c {
        Some(x) => len_delim(field, enc_chown(x)),
        None => Seq::empty(),
    }
}

// ------------------------------------------------------------------
// File actions
// ------------------------------------------------------------------

/// `FileActionCopy`.
pub struct CopyAction {
    pub src: String,
    pub dest: String,
    pub owner: Option<ChownOpt>,
    pub mode: i32,
    pub follow_symlink: bool,
    pub dir_copy_contents: bool,
    pub attempt_unpack_docker_compatibility: bool,
    pub create_dest_path: bool,
    pub allow_wildcard: bool,
    pub allow_empty_wildcard: bool,
    pub timestamp: i64,
    pub include_patterns: Vec<String>,
    pub exclude_patterns: Vec<String>,
    pub always_replace_existing_dest_paths: bool,
}

/// `FileActionMkFile`.
pub struct MkFileAction {
    pub path: String,
    pub mode: i32,
    pub data: Vec<u8>,
    pub owner: Option<ChownOpt>,
    pub timestamp: i64,
}

/// `FileActionMkDir`.
pub struct MkDirAction {
    pub path: String,
    pub mode: i32,
    pub make_parents: bool,
    pub owner: Option<ChownOpt>,
    pub timestamp: i64,
}

/// `FileActionRm`.
pub struct RmAction {
    pub path: String,
    pub allow_not_found: bool,
    pub allow_wildcard: bool,
}

/// `FileActionSymlink`.
pub struct SymlinkAction {
    pub oldpath: String,
    pub newpath: String,
    pub owner: Option<ChownOpt>,
    pub timestamp: i64,
}

/// The `action` of a `FileAction`.
pub enum ActionBody {
    Copy(CopyAction),
    MkFile(MkFileAction),
    MkDir(MkDirAction),
    Rm(RmAction),
    Symlink(SymlinkAction),
}

/// `FileAction`: the action and the positions (in the operation's inputs)
/// of the filesystem it applies to and of its secondary source.
pub struct FileActionPb {
    pub input: i64,
    pub secondary_input: i64,
    pub output: i64,
    pub action: ActionBody,
}

pub open spec fn enc_copy_paths(c: CopyAction) -> Seq<u8> {
    str_field(1, c.src@) + str_field(2, c.dest@) + opt_chown(3, c.owner) + int_field(4, c.mode as int)
}

pub open spec fn enc_copy_flags(c: CopyAction) -> Seq<u8> {
    bool_field(5, c.follow_symlink) + bool_field(6, c.dir_copy_contents) + bool_field(
        7,
        c.attempt_unpack_docker_compatibility,
    ) + bool_field(8, c.create_dest_path) + bool_field(9, c.allow_wildcard) + bool_field(
        10,
        c.allow_empty_wildcard,
    )
}

pub open spec fn enc_copy_tail(c: CopyAction) -> Seq<u8> {
    int_field(11, c.timestamp as int) + repeated_str(12, c.include_patterns@) + repeated_str(
        13,
        c.exclude_patterns@,
    ) + bool_field(14, c.always_replace_existing_dest_paths)
}

pub open spec fn enc_copy(c: CopyAction) -> Seq<u8> {
    enc_copy_paths(c) + enc_copy_flags(c) + enc_copy_tail(c)
}

pub open spec fn enc_mkfile(m: MkFileAction) -> Seq<u8> {
    str_field(1, m.path@) + int_field(2, m.mode as int) + bytes_field(3, m.data@) + opt_chown(4, m.owner)
        + int_field(5, m.timestamp as int)
}

pub open spec fn enc_mkdir(m: MkDirAction) -> Seq<u8> {
    str_field(1, m.path@) + int_field(2, m.mode as int) + bool_field(3, m.make_parents) + opt_chown(
        4,
        m.owner,
    ) + int_field(5, m.timestamp as int)
}

pub open spec fn enc_rm(r: RmAction) -> Seq<u8> {
    str_field(1, r.path@) + bool_field(2, r.allow_not_found) + bool_field(3, r.allow_wildcard)
}

pub open spec fn enc_symlink(s: SymlinkAction) -> Seq<u8> {
    str_field(1, s.oldpath@) + str_field(2, s.newpath@) + opt_chown(3, s.owner) + int_field(
        4,
        s.timestamp as int,
    )
}

pub open spec fn enc_action_body(b: ActionBody) -> Seq<u8> {
    match b {
        ActionBody::Copy(c) => len_delim(4, enc_copy(c)),
        ActionBody::MkFile(m) => len_delim(5, enc_mkfile(m)),
        ActionBody::MkDir(m) => len_delim(6, enc_mkdir(m)),
        ActionBody::Rm(r) => len_delim(7, enc_rm(r)),
        ActionBody::Symlink(s) => len_delim(8, enc_symlink(s)),
    }
}

pub open spec fn enc_file_action(a: FileActionPb) -> Seq<u8> {
    int_field(1, a.input as int) + int_field(2, a.secondary_input as int) + int_field(
        3,
        a.output as int,
    ) + enc_action_body(a.action)
}

pub open spec fn enc_file_actions(acts: Seq<FileActionPb>) -> Seq<u8>
    decreases acts.len(),
{
    if acts.len() == 0 {
        Seq::empty()
    } else {
        enc_file_actions(acts.drop_last()) + len_delim(2, enc_file_action(acts.last()))
    }
}

// ------------------------------------------------------------------
// Exec
// ------------------------------------------------------------------

/// How a cache mount is shared between concurrent builds.
#[derive(PartialEq, Eq, Structural, Clone, Copy, Debug)]
pub enum CacheSharingMode {
    Shared,
    Private,
    Locked,
}

pub open spec fn sharing_value(s: CacheSharingMode) -> nat {
    match s {
        CacheSharingMode::Shared => 0,
        CacheSharingMode::Private => 1,
        CacheSharingMode::Locked => 2,
    }
}

/// `CacheOpt`.
pub struct CacheOpt {
    pub id: String,
    pub sharing: CacheSharingMode,
}

/// `Mount`: `input` and `output` are positions (-1 for none); a mount with a
/// cache option has mount type CACHE (3), the others BIND (0).
pub struct MountPb {
    pub input: i64,
    pub dest: String,
    pub output: i64,
    pub readonly: bool,
    pub cache: Option<CacheOpt>,
}

pub open spec fn enc_cache(c: CacheOpt) -> Seq<u8> {
    str_field(1, c.id@) + uint_field(2, sharing_value(c.sharing))
}

pub open spec fn enc_mount(m: MountPb) -> Seq<u8> {
    int_field(1, m.input as int) + str_field(3, m.dest@) + int_field(4, m.output as int) + bool_field(
        5,
        m.readonly,
    ) + match m.cache {
        Some(c) => uint_field(6, 3) + len_delim(20, enc_cache(c)),
        None => Seq::empty(),
    }
}

pub open spec fn enc_mounts(ms: Seq<MountPb>) -> Seq<u8>
    decreases ms.len(),
{
    if ms.len() == 0 {
        Seq::empty()
    } else {
        enc_mounts(ms.drop_last()) + len_delim(2, enc_mount(ms.last()))
    }
}

/// `ExecOp` with its `Meta`.
pub struct ExecPb {
    pub args: Vec<String>,
    pub env: Vec<String>,
    pub cwd: String,
    pub mounts: Vec<MountPb>,
}

pub open spec fn enc_meta(e: ExecPb) -> Seq<u8> {
    repeated_str(1, e.args@) + repeated_str(2, e.env@) + str_field(3, e.cwd@)
}

pub open spec fn enc_exec(e: ExecPb) -> Seq<u8> {
    len_delim(1, enc_meta(e)) + enc_mounts(e.mounts@)
}

// ------------------------------------------------------------------
// Source
// ------------------------------------------------------------------

/// `SourceOp`: an identifier and attributes, sent in the order held.
pub struct SourcePb {
    pub identifier: String,
    pub attrs: Vec<(String, String)>,
}

pub open spec fn enc_attrs(field: nat, attrs: Seq<(String, String)>) -> Seq<u8>
    decreases attrs.len(),
{
    if attrs.len() == 0 {
        Seq::empty()
    } else {
        enc_attrs(field, attrs.drop_last()) + len_delim(
            field,
            str_field(1, attrs.last().0@) + str_field(2, attrs.last().1@),
        )
    }
}

pub open spec fn enc_source(s: SourcePb) -> Seq<u8> {
    str_field(1, s.identifier@) + enc_attrs(2, s.attrs@)
}

// ------------------------------------------------------------------
// Merge and diff
// ------------------------------------------------------------------

pub open spec fn enc_merge_inputs(ins: Seq<i64>) -> Seq<u8>
    decreases ins.len(),
{
    if ins.len() == 0 {
        Seq::empty()
    } else {
        enc_merge_inputs(ins.drop_last()) + len_delim(1, int_field(1, ins.last() as int))
    }
}

pub open spec fn enc_diff(lower: i64, upper: i64) -> Seq<u8> {
    len_delim(1, int_field(1, lower as int)) + len_delim(2, int_field(1, upper as int))
}

// ------------------------------------------------------------------
// Operation
// ------------------------------------------------------------------

/// The `op` of an `Op`.
pub enum OpPb {
    Exec(ExecPb),
    Source(SourcePb),
    File(Vec<FileActionPb>),
    Merge(Vec<i64>),
    Diff(i64, i64),
}

pub open spec fn enc_op_body(op: OpPb) -> Seq<u8> {
    match op {
        OpPb::Exec(e) => len_delim(2, enc_exec(e)),
        OpPb::Source(s) => len_delim(3, enc_source(s)),
        OpPb::File(acts) => len_delim(4, enc_file_actions(acts@)),
        OpPb::Merge(ins) => len_delim(6, enc_merge_inputs(ins@)),
        OpPb::Diff(l, u) => len_delim(7, enc_diff(l, u)),
    }
}

// ------------------------------------------------------------------
// Writers
// ------------------------------------------------------------------

pub fn put_user(out: &mut Vec<u8>, u: &UserOpt)
    ensures
        final(out)@ == old(out)@ + enc_user(*u),
{
    let ghost init = out@;
    match u {
        UserOpt::ById(id) => {
            put_key(out, 2, 0);
            put_varint(out, *id as u64);
        },
        UserOpt::ByName(name) => {
            let mut b: Vec<u8> = Vec::new();
            put_str_field(&mut b, 1, name.as_str());
            put_int_field(&mut b, 2, -1);
            assert(b@ =~= str_field(1, name@) + int_field(2, -1));
            put_len_delim(out, 1, b.as_slice());
        },
    }
    assert(out@ =~= init + enc_user(*u));
}

pub fn put_opt_user(out: &mut Vec<u8>, field: u64, u: &Option<UserOpt>)
    requires
        field < 0x2000_0000,
    ensures
        final(out)@ == old(out)@ + opt_user(field as nat, *u),
{
    match u {
        Some(x) => {
            let mut b: Vec<u8> = Vec::new();
            put_user(&mut b, x);
            assert(b@ =~= enc_user(*x));
            put_len_delim(out, field, b.as_slice());
        },
        None => {
            assert(out@ =~= old(out)@ + opt_user(field as nat, *u));
        },
    }
}

pub fn put_opt_chown(out: &mut Vec<u8>, field: u64, c: &Option<ChownOpt>)
    requires
        field < 0x2000_0000,
    ensures
        final(out)@ == old(out)@ + opt_chown(field as nat, *c),
{
    match c {
        Some(x) => {
            let mut b: Vec<u8> = Vec::new();
            put_opt_user(&mut b, 1, &x.user);
            put_opt_user(&mut b, 2, &x.group);
            assert(b@ =~= enc_chown(*x));
            put_len_delim(out, field, b.as_slice());
        },
        None => {
            assert(out@ =~= old(out)@ + opt_chown(field as nat, *c));
        },
    }
}

fn put_copy_paths(out: &mut Vec<u8>, c: &CopyAction)
    ensures
        final(out)@ == old(out)@ + enc_copy_paths(*c),
{
    let ghost init = out@;
    put_str_field(out, 1, c.src.as_str());
    put_str_field(out, 2, c.dest.as_str());
    put_opt_chown(out, 3, &c.owner);
    put_int_field(out, 4, c.mode as i64);
    assert(out@ =~= init + enc_copy_paths(*c));
}

fn put_copy_flags(out: &mut Vec<u8>, c: &CopyAction)
    ensures
        final(out)@ == old(out)@ + enc_copy_flags(*c),
{
    let ghost init = out@;
    put_bool_field(out, 5, c.follow_symlink);
    put_bool_field(out, 6, c.dir_copy_contents);
    put_bool_field(out, 7, c.attempt_unpack_docker_compatibility);
    put_bool_field(out, 8, c.create_dest_path);
    put_bool_field(out, 9, c.allow_wildcard);
    put_bool_field(out, 10, c.allow_empty_wildcard);
    assert(out@ =~= init + enc_copy_flags(*c));
}

fn put_copy_tail(out: &mut Vec<u8>, c: &CopyAction)
    ensures
        final(out)@ == old(out)@ + enc_copy_tail(*c),
{
    let ghost init = out@;
    put_int_field(out, 11, c.timestamp);
    put_repeated_str(out, 12, &c.include_patterns);
    put_repeated_str(out, 13, &c.exclude_patterns);
    put_bool_field(out, 14, c.always_replace_existing_dest_paths);
    assert(out@ =~= init + enc_copy_tail(*c));
}

pub fn put_copy(out: &mut Vec<u8>, c: &CopyAction)
    ensures
        final(out)@ == old(out)@ + enc_copy(*c),
{
    let ghost init = out@;
    put_copy_paths(out, c);
    put_copy_flags(out, c);
    put_copy_tail(out, c);
    assert(out@ =~= init + enc_copy(*c));
}

pub fn put_mkfile(out: &mut Vec<u8>, m: &MkFileAction)
    ensures
        final(out)@ == old(out)@ + enc_mkfile(*m),
{
    let ghost init = out@;
    put_str_field(out, 1, m.path.as_str());
    put_int_field(out, 2, m.mode as i64);
    put_bytes_field(out, 3, m.data.as_slice());
    put_opt_chown(out, 4, &m.owner);
    put_int_field(out, 5, m.timestamp);
    assert(out@ =~= init + enc_mkfile(*m));
}

pub fn put_mkdir(out: &mut Vec<u8>, m: &MkDirAction)
    ensures
        final(out)@ == old(out)@ + enc_mkdir(*m),
{
    let ghost init = out@;
    put_str_field(out, 1, m.path.as_str());
    put_int_field(out, 2, m.mode as i64);
    put_bool_field(out, 3, m.make_parents);
    put_opt_chown(out, 4, &m.owner);
    put_int_field(out, 5, m.timestamp);
    assert(out@ =~= init + enc_mkdir(*m));
}

pub fn put_rm(out: &mut Vec<u8>, r: &RmAction)
    ensures
        final(out)@ == old(out)@ + enc_rm(*r),
{
    let ghost init = out@;
    put_str_field(out, 1, r.path.as_str());
    put_bool_field(out, 2, r.allow_not_found);
    put_bool_field(out, 3, r.allow_wildcard);
    assert(out@ =~= init + enc_rm(*r));
}

pub fn put_symlink(out: &mut Vec<u8>, s: &SymlinkAction)
    ensures
        final(out)@ == old(out)@ + enc_symlink(*s),
{
    let ghost init = out@;
    put_str_field(out, 1, s.oldpath.as_str());
    put_str_field(out, 2, s.newpath.as_str());
    put_opt_chown(out, 3, &s.owner);
    put_int_field(out, 4, s.timestamp);
    assert(out@ =~= init + enc_symlink(*s));
}

pub fn put_action_body(out: &mut Vec<u8>, b: &ActionBody)
    ensures
        final(out)@ == old(out)@ + enc_action_body(*b),
{
    let mut p: Vec<u8> = Vec::new();
    match b {
        ActionBody::Copy(c) => {
            put_copy(&mut p, c);
            assert(p@ =~= enc_copy(*c));
            put_len_delim(out, 4, p.as_slice());
        },
        ActionBody::MkFile(m) => {
            put_mkfile(&mut p, m);
            assert(p@ =~= enc_mkfile(*m));
            put_len_delim(out, 5, p.as_slice());
        },
        ActionBody::MkDir(m) => {
            put_mkdir(&mut p, m);
            assert(p@ =~= enc_mkdir(*m));
            put_len_delim(out, 6, p.as_slice());
        },
        ActionBody::Rm(r) => {
            put_rm(&mut p, r);
            assert(p@ =~= enc_rm(*r));
            put_len_delim(out, 7, p.as_slice());
        },
        ActionBody::Symlink(s) => {
            put_symlink(&mut p, s);
            assert(p@ =~= enc_symlink(*s));
            put_len_delim(out, 8, p.as_slice());
        },
    }
}

pub fn put_file_action(out: &mut Vec<u8>, a: &FileActionPb)
    ensures
        final(out)@ == old(out)@ + enc_file_action(*a),
{
    let ghost init = out@;
    put_int_field(out, 1, a.input);
    put_int_field(out, 2, a.secondary_input);
    put_int_field(out, 3, a.output);
    put_action_body(out, &a.action);
    assert(out@ =~= init + enc_file_action(*a));
}

pub fn put_file_actions(out: &mut Vec<u8>, acts: &Vec<FileActionPb>)
    ensures
        final(out)@ == old(out)@ + enc_file_actions(acts@),
{
    let ghost init = out@;
    let n = acts.len();
    let mut i: usize = 0;
    while i < n
        invariant
            n == acts@.len(),
            i <= n,
            out@ == init + enc_file_actions(acts@.subrange(0, i as int)),
        decreases n - i,
    {
        let mut p: Vec<u8> = Vec::new();
        put_file_action(&mut p, &acts[i]);
        assert(p@ =~= enc_file_action(acts@[i as int]));
        put_len_delim(out, 2, p.as_slice());
        assert(acts@.subrange(0, i + 1).drop_last() =~= acts@.subrange(0, i as int));
        i = i + 1;
        assert(out@ =~= init + enc_file_actions(acts@.subrange(0, i as int)));
    }
    assert(acts@.subrange(0, n as int) =~= acts@);
}

pub fn sharing_u64(s: CacheSharingMode) -> (r: u64)
    ensures
        r as nat == sharing_value(s),
{
    match s {
        CacheSharingMode::Shared => 0,
        CacheSharingMode::Private => 1,
        CacheSharingMode::Locked => 2,
    }
}

pub fn put_mount(out: &mut Vec<u8>, m: &MountPb)
    ensures
        final(out)@ == old(out)@ + enc_mount(*m),
{
    let ghost init = out@;
    put_int_field(out, 1, m.input);
    put_str_field(out, 3, m.dest.as_str());
    put_int_field(out, 4, m.output);
    put_bool_field(out, 5, m.readonly);
    match &m.cache {
        Some(c) => {
            put_uint_field(out, 6, 3);
            let mut p: Vec<u8> = Vec::new();
            put_str_field(&mut p, 1, c.id.as_str());
            put_uint_field(&mut p, 2, sharing_u64(c.sharing));
            assert(p@ =~= enc_cache(*c));
            put_len_delim(out, 20, p.as_slice());
        },
        None => {},
    }
    assert(out@ =~= init + enc_mount(*m));
}

pub fn put_exec(out: &mut Vec<u8>, e: &ExecPb)
    ensures
        final(out)@ == old(out)@ + enc_exec(*e),
{
    let ghost init = out@;
    let mut meta: Vec<u8> = Vec::new();
    put_repeated_str(&mut meta, 1, &e.args);
    put_repeated_str(&mut meta, 2, &e.env);
    put_str_field(&mut meta, 3, e.cwd.as_str());
    assert(meta@ =~= enc_meta(*e));
    put_len_delim(out, 1, meta.as_slice());
    let ghost mid = out@;
    let n = e.mounts.len();
    let mut i: usize = 0;
    while i < n
        invariant
            n == e.mounts@.len(),
            i <= n,
            out@ == mid + enc_mounts(e.mounts@.subrange(0, i as int)),
        decreases n - i,
    {
        let mut p: Vec<u8> = Vec::new();
        put_mount(&mut p, &e.mounts[i]);
        assert(p@ =~= enc_mount(e.mounts@[i as int]));
        put_len_delim(out, 2, p.as_slice());
        assert(e.mounts@.subrange(0, i + 1).drop_last() =~= e.mounts@.subrange(0, i as int));
        i = i + 1;
        assert(out@ =~= mid + enc_mounts(e.mounts@.subrange(0, i as int)));
    }
    assert(e.mounts@.subrange(0, n as int) =~= e.mounts@);
    assert(out@ =~= init + enc_exec(*e));
}

pub fn put_attrs(out: &mut Vec<u8>, field: u64, attrs: &Vec<(String, String)>)
    requires
        field < 0x2000_0000,
    ensures
        final(out)@ == old(out)@ + enc_attrs(field as nat, attrs@),
{
    let ghost init = out@;
    let n = attrs.len();
    let mut i: usize = 0;
    while i < n
        invariant
            n == attrs@.len(),
            i <= n,
            field < 0x2000_0000,
            out@ == init + enc_attrs(field as nat, attrs@.subrange(0, i as int)),
        decreases n - i,
    {
        let mut p: Vec<u8> = Vec::new();
        put_str_field(&mut p, 1, attrs[i].0.as_str());
        put_str_field(&mut p, 2, attrs[i].1.as_str());
        put_len_delim(out, field, p.as_slice());
        assert(attrs@.subrange(0, i + 1).drop_last() =~= attrs@.subrange(0, i as int));
        i = i + 1;
        assert(out@ =~= init + enc_attrs(field as nat, attrs@.subrange(0, i as int)));
    }
    assert(attrs@.subrange(0, n as int) =~= attrs@);
}

pub fn put_merge_inputs(out: &mut Vec<u8>, ins: &Vec<i64>)
    ensures
        final(out)@ == old(out)@ + enc_merge_inputs(ins@),
{
    let ghost init = out@;
    let n = ins.len();
    let mut i: usize = 0;
    while i < n
        invariant
            n == ins@.len(),
            i <= n,
            out@ == init + enc_merge_inputs(ins@.subrange(0, i as int)),
        decreases n - i,
    {
        let mut p: Vec<u8> = Vec::new();
        put_int_field(&mut p, 1, ins[i]);
        put_len_delim(out, 1, p.as_slice());
        assert(ins@.subrange(0, i + 1).drop_last() =~= ins@.subrange(0, i as int));
        i = i + 1;
        assert(out@ =~= init + enc_merge_inputs(ins@.subrange(0, i as int)));
    }
    assert(ins@.subrange(0, n as int) =~= ins@);
}

pub fn put_op_body(out: &mut Vec<u8>, op: &OpPb)
    ensures
        final(out)@ == old(out)@ + enc_op_body(*op),
{
    let mut p: Vec<u8> = Vec::new();
    match op {
        OpPb::Exec(e) => {
            put_exec(&mut p, e);
            assert(p@ =~= enc_exec(*e));
            put_len_delim(out, 2, p.as_slice());
        },
        OpPb::Source(s) => {
            put_str_field(&mut p, 1, s.identifier.as_str());
            put_attrs(&mut p, 2, &s.attrs);
            assert(p@ =~= enc_source(*s));
            put_len_delim(out, 3, p.as_slice());
        },
        OpPb::File(acts) => {
            put_file_actions(&mut p, acts);
            assert(p@ =~= enc_file_actions(acts@));
            put_len_delim(out, 4, p.as_slice());
        },
        OpPb::Merge(ins) => {
            put_merge_inputs(&mut p, ins);
            assert(p@ =~= enc_merge_inputs(ins@));
            put_len_delim(out, 6, p.as_slice());
        },
        OpPb::Diff(l, u) => {
            let mut a: Vec<u8> = Vec::new();
            put_int_field(&mut a, 1, *l);
            put_len_delim(&mut p, 1, a.as_slice());
            let mut b: Vec<u8> = Vec::new();
            put_int_field(&mut b, 1, *u);
            put_len_delim(&mut p, 2, b.as_slice());
            assert(p@ =~= enc_diff(*l, *u));
            put_len_delim(out, 7, p.as_slice());
        },
    }
}

} // verus!
