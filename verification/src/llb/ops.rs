//! Operations that combine graphs: diff, merge and file actions.
use crate::llb::graph::{
    derefs, embeds, finish_stack, lemma_embeds_prefix, offset_of, root_ref, stack, stack_parts, stackable,
    stacked, LlbNode, OperationOutput,
};
use crate::llb::pb::{
    ActionBody, ChownOpt, CopyAction, FileActionPb, MkDirAction, MkFileAction, OpPb, RmAction,
    SymlinkAction, UserOpt,
};
use crate::text::owned;
use vstd::prelude::*;

verus! {

// ------------------------------------------------------------------
// Ownership
// ------------------------------------------------------------------

impl ChownOpt {
    /// User and group given by id.
    pub fn new(uid: u32, gid: u32) -> (r: Self)
        ensures
            r.user == Some(UserOpt::ById(uid)),
            r.group == Some(UserOpt::ById(gid)),
    {
        ChownOpt { user: Some(UserOpt::ById(uid)), group: Some(UserOpt::ById(gid)) }
    }

    /// Only a user id.
    pub fn user_id(uid: u32) -> (r: Self)
        ensures
            r.user == Some(UserOpt::ById(uid)),
            r.group is None,
    {
        ChownOpt { user: Some(UserOpt::ById(uid)), group: None }
    }

    /// User and group given by name.
    pub fn by_name(user: &str, group: &str) -> (r: Self)
        ensures
            r.user matches Some(UserOpt::ByName(u)) && u@ == user@,
            r.group matches Some(UserOpt::ByName(g)) && g@ == group@,
    {
        ChownOpt { user: Some(UserOpt::ByName(owned(user))), group: Some(UserOpt::ByName(owned(group))) }
    }
}

// ------------------------------------------------------------------
// Diff
// ------------------------------------------------------------------

/// The difference between two inputs: the lower is the base, the upper the
/// changed state; `None` stands for an empty filesystem.
pub struct Diff {
    pub lower: Option<OperationOutput>,
    pub upper: Option<OperationOutput>,
    pub custom_name: Option<String>,
}

/// The outputs an optional input contributes.
pub open spec fn opt_part(o: Option<OperationOutput>) -> Seq<OperationOutput> {
    match o {
        Some(x) => seq![x],
        None => Seq::empty(),
    }
}

/// The graph of a diff: the graphs of its inputs, lower first, then the
/// diff node, whose lower is input 0 and whose upper is the next input,
/// or -1 for a missing one.
pub open spec fn diff_graph(
    r: OperationOutput,
    lower: Option<OperationOutput>,
    upper: Option<OperationOutput>,
    name: Option<String>,
) -> bool {
    let l: i64 = if lower is Some { 0i64 } else { -1i64 };
    let u: i64 = if upper is Some {
        if lower is Some {
            1i64
        } else {
            0i64
        }
    } else {
        -1i64
    };
    &&& r.wf()
    &&& r.index == 0
    &&& stacked(r.nodes@, opt_part(lower) + opt_part(upper))
    &&& r.nodes@.last().body.op == OpPb::Diff(l, u)
    &&& r.nodes@.last().body.custom_name == name
}

pub open spec fn opt_wf(o: Option<OperationOutput>) -> bool {
    match o {
        Some(x) => x.wf(),
        None => true,
    }
}

impl Diff {
    /// A diff between `lower` and `upper`.
    pub fn new(lower: Option<OperationOutput>, upper: Option<OperationOutput>) -> (r: Self)
        ensures
            r.lower == lower,
            r.upper == upper,
            r.custom_name is None,
    {
        Diff { lower, upper, custom_name: None }
    }

    /// Sets the display name of the operation.
    pub fn with_custom_name(self, name: &str) -> (r: Self)
        ensures
            r.custom_name matches Some(n) && n@ == name@,
            r.lower == self.lower,
            r.upper == self.upper,
    {
        Diff { custom_name: Some(owned(name)), ..self }
    }

    /// The diff on top of the graphs of its inputs.
    pub fn output(&self) -> (r: OperationOutput)
        requires
            opt_wf(self.lower),
            opt_wf(self.upper),
            stackable(opt_part(self.lower) + opt_part(self.upper)),
        ensures
            diff_graph(r, self.lower, self.upper, self.custom_name),
    {
        let mut parts: Vec<&OperationOutput> = Vec::new();
        let mut l: i64 = -1;
        let mut u: i64 = -1;
        match &self.lower {
            Some(x) => {
                parts.push(x);
                l = 0;
            },
            None => {},
        }
        match &self.upper {
            Some(x) => {
                u = parts.len() as i64;
                parts.push(x);
            },
            None => {},
        }
        assert(derefs(parts@) =~= opt_part(self.lower) + opt_part(self.upper));
        let name = crate::llb::source::clone_opt(&self.custom_name);
        stack(&parts, OpPb::Diff(l, u), name)
    }
}

// ------------------------------------------------------------------
// Merge
// ------------------------------------------------------------------

/// Merge multiple inputs into a single output by overlaying them.
pub struct Merge {
    pub inputs: Vec<OperationOutput>,
    pub custom_name: Option<String>,
}

/// `0, 1, ..., n - 1`.
pub open spec fn positions(n: nat) -> Seq<i64> {
    Seq::new(n, |i: int| i as i64)
}

/// `o` is a merge of the results of `parts`, in order, on top of their
/// graphs.
pub open spec fn merge_graph(o: OperationOutput, parts: Seq<OperationOutput>, name: Option<String>) -> bool {
    &&& o.wf()
    &&& o.index == 0
    &&& stacked(o.nodes@, parts)
    &&& o.nodes@.last().body.op matches OpPb::Merge(v) && v@ == positions(parts.len())
    &&& o.nodes@.last().body.custom_name == name
}

impl Merge {
    pub fn new(inputs: Vec<OperationOutput>) -> (r: Self)
        ensures
            r.inputs@ == inputs@,
            r.custom_name is None,
    {
        Merge { inputs, custom_name: None }
    }

    /// Sets the display name of the operation.
    pub fn with_custom_name(self, name: &str) -> (r: Self)
        ensures
            r.custom_name matches Some(n) && n@ == name@,
            r.inputs == self.inputs,
    {
        Merge { custom_name: Some(owned(name)), ..self }
    }

    /// The merge on top of the graphs of its inputs, which it overlays in
    /// order: input `i` is merge input `i`.
    pub fn output(&self) -> (r: OperationOutput)
        requires
            stackable(self.inputs@),
        ensures
            merge_graph(r, self.inputs@, self.custom_name),
    {
        proof {
            crate::llb::graph::lemma_parts_le_offset(self.inputs@, self.inputs@.len() as int);
        }
        let mut parts: Vec<&OperationOutput> = Vec::new();
        let mut idx: Vec<i64> = Vec::new();
        let n = self.inputs.len();
        let mut i: usize = 0;
        while i < n
            invariant
                n == self.inputs@.len(),
                n <= i64::MAX,
                i <= n,
                parts@.len() == i,
                derefs(parts@) == self.inputs@.subrange(0, i as int),
                idx@ == positions(i as nat),
            decreases n - i,
        {
            let x: &OperationOutput = &self.inputs[i];
            assert(*x == self.inputs@[i as int]);
            let ghost old_parts = parts@;
            parts.push(x);
            idx.push(i as i64);
            assert forall|j: int| 0 <= j <= i implies #[trigger] derefs(parts@)[j] == self.inputs@[j] by {
                if j < i {
                    assert(parts@[j] == old_parts[j]);
                    assert(derefs(old_parts)[j] == self.inputs@.subrange(0, i as int)[j]);
                }
            }
            i = i + 1;
            assert(derefs(parts@) =~= self.inputs@.subrange(0, i as int));
            assert(idx@ =~= positions(i as nat));
        }
        assert(self.inputs@.subrange(0, n as int) =~= self.inputs@);
        let name = crate::llb::source::clone_opt(&self.custom_name);
        stack(&parts, OpPb::Merge(idx), name)
    }
}

// ------------------------------------------------------------------
// File actions
// ------------------------------------------------------------------

/// Copy files from one input to another.
pub struct Copy {
    pub action: CopyAction,
    pub src_input: OperationOutput,
    pub dest_input: OperationOutput,
}

impl Copy {
    /// Copies `src_path` of `src_input` to `dst_path` of `dest_input`, with
    /// mode and timestamp unset (-1) and every flag off.
    pub fn new(src_path: &str, src_input: OperationOutput, dst_path: &str, dest_input: OperationOutput) -> (r:
        Self)
        ensures
            r.action.src@ == src_path@,
            r.action.dest@ == dst_path@,
            r.src_input == src_input,
            r.dest_input == dest_input,
            r.action.owner is None,
            r.action.mode == -1,
            !r.action.follow_symlink,
            !r.action.dir_copy_contents,
            !r.action.attempt_unpack_docker_compatibility,
            !r.action.create_dest_path,
            !r.action.allow_wildcard,
            !r.action.allow_empty_wildcard,
            r.action.timestamp == -1,
            r.action.include_patterns@.len() == 0,
            r.action.exclude_patterns@.len() == 0,
            !r.action.always_replace_existing_dest_paths,
    {
        Copy {
            action: CopyAction {
                src: owned(src_path),
                dest: owned(dst_path),
                owner: None,
                mode: -1,
                follow_symlink: false,
                dir_copy_contents: false,
                attempt_unpack_docker_compatibility: false,
                create_dest_path: false,
                allow_wildcard: false,
                allow_empty_wildcard: false,
                timestamp: -1,
                include_patterns: Vec::new(),
                exclude_patterns: Vec::new(),
                always_replace_existing_dest_paths: false,
            },
            src_input,
            dest_input,
        }
    }

    pub fn with_owner(self, owner: ChownOpt) -> (r: Self)
        ensures
            r == (Copy { action: CopyAction { owner: Some(owner), ..self.action }, ..self }),
    {
        Copy { action: CopyAction { owner: Some(owner), ..self.action }, ..self }
    }

    pub fn with_mode(self, mode: i32) -> (r: Self)
        ensures
            r == (Copy { action: CopyAction { mode, ..self.action }, ..self }),
    {
        Copy { action: CopyAction { mode, ..self.action }, ..self }
    }

    pub fn with_follow_symlink(self, follow: bool) -> (r: Self)
        ensures
            r == (Copy { action: CopyAction { follow_symlink: follow, ..self.action }, ..self }),
    {
        Copy { action: CopyAction { follow_symlink: follow, ..self.action }, ..self }
    }

    pub fn with_dir_copy_contents(self, dir_copy: bool) -> (r: Self)
        ensures
            r == (Copy { action: CopyAction { dir_copy_contents: dir_copy, ..self.action }, ..self }),
    {
        Copy { action: CopyAction { dir_copy_contents: dir_copy, ..self.action }, ..self }
    }

    pub fn with_create_dest_path(self, create: bool) -> (r: Self)
        ensures
            r == (Copy { action: CopyAction { create_dest_path: create, ..self.action }, ..self }),
    {
        Copy { action: CopyAction { create_dest_path: create, ..self.action }, ..self }
    }

    pub fn with_allow_wildcard(self, allow: bool) -> (r: Self)
        ensures
            r == (Copy { action: CopyAction { allow_wildcard: allow, ..self.action }, ..self }),
    {
        Copy { action: CopyAction { allow_wildcard: allow, ..self.action }, ..self }
    }

    pub fn with_allow_empty_wildcard(self, allow: bool) -> (r: Self)
        ensures
            r == (Copy { action: CopyAction { allow_empty_wildcard: allow, ..self.action }, ..self }),
    {
        Copy { action: CopyAction { allow_empty_wildcard: allow, ..self.action }, ..self }
    }

    pub fn with_timestamp(self, timestamp: i64) -> (r: Self)
        ensures
            r == (Copy { action: CopyAction { timestamp, ..self.action }, ..self }),
    {
        Copy { action: CopyAction { timestamp, ..self.action }, ..self }
    }

    pub fn with_include_patterns(self, patterns: Vec<String>) -> (r: Self)
        ensures
            r == (Copy { action: CopyAction { include_patterns: patterns, ..self.action }, ..self }),
    {
        Copy { action: CopyAction { include_patterns: patterns, ..self.action }, ..self }
    }

    pub fn with_exclude_patterns(self, patterns: Vec<String>) -> (r: Self)
        ensures
            r == (Copy { action: CopyAction { exclude_patterns: patterns, ..self.action }, ..self }),
    {
        Copy { action: CopyAction { exclude_patterns: patterns, ..self.action }, ..self }
    }

    pub fn with_always_replace_existing_dest_paths(self, replace: bool) -> (r: Self)
        ensures
            r == (Copy {
                action: CopyAction { always_replace_existing_dest_paths: replace, ..self.action },
                ..self
            }),
    {
        Copy {
            action: CopyAction { always_replace_existing_dest_paths: replace, ..self.action },
            ..self
        }
    }
}

/// Create a directory.
pub struct Mkdir {
    pub action: MkDirAction,
    pub input: OperationOutput,
}

impl Mkdir {
    /// Creates `path` in `input`, mode 0o755, no parents, timestamp unset.
    pub fn new(path: &str, input: OperationOutput) -> (r: Self)
        ensures
            r.action.path@ == path@,
            r.input == input,
            r.action.mode == 0o755,
            !r.action.make_parents,
            r.action.owner is None,
            r.action.timestamp == -1,
    {
        Mkdir {
            action: MkDirAction { path: owned(path), mode: 0o755, make_parents: false, owner: None, timestamp: -1 },
            input,
        }
    }

    pub fn with_mode(self, mode: i32) -> (r: Self)
        ensures
            r == (Mkdir { action: MkDirAction { mode, ..self.action }, ..self }),
    {
        Mkdir { action: MkDirAction { mode, ..self.action }, ..self }
    }

    pub fn with_make_parents(self, make: bool) -> (r: Self)
        ensures
            r == (Mkdir { action: MkDirAction { make_parents: make, ..self.action }, ..self }),
    {
        Mkdir { action: MkDirAction { make_parents: make, ..self.action }, ..self }
    }

    pub fn with_owner(self, owner: ChownOpt) -> (r: Self)
        ensures
            r == (Mkdir { action: MkDirAction { owner: Some(owner), ..self.action }, ..self }),
    {
        Mkdir { action: MkDirAction { owner: Some(owner), ..self.action }, ..self }
    }

    pub fn with_timestamp(self, timestamp: i64) -> (r: Self)
        ensures
            r == (Mkdir { action: MkDirAction { timestamp, ..self.action }, ..self }),
    {
        Mkdir { action: MkDirAction { timestamp, ..self.action }, ..self }
    }
}

/// Create a new file with specified contents.
pub struct MkFile {
    pub action: MkFileAction,
    pub input: OperationOutput,
}

impl MkFile {
    /// Creates `path` in `input` holding `data`, mode 0o644, timestamp unset.
    pub fn new(path: &str, input: OperationOutput, data: Vec<u8>) -> (r: Self)
        ensures
            r.action.path@ == path@,
            r.input == input,
            r.action.data == data,
            r.action.mode == 0o644,
            r.action.owner is None,
            r.action.timestamp == -1,
    {
        MkFile {
            action: MkFileAction { path: owned(path), mode: 0o644, data, owner: None, timestamp: -1 },
            input,
        }
    }

    pub fn with_mode(self, mode: i32) -> (r: Self)
        ensures
            r == (MkFile { action: MkFileAction { mode, ..self.action }, ..self }),
    {
        MkFile { action: MkFileAction { mode, ..self.action }, ..self }
    }

    pub fn with_owner(self, owner: ChownOpt) -> (r: Self)
        ensures
            r == (MkFile { action: MkFileAction { owner: Some(owner), ..self.action }, ..self }),
    {
        MkFile { action: MkFileAction { owner: Some(owner), ..self.action }, ..self }
    }

    pub fn with_timestamp(self, timestamp: i64) -> (r: Self)
        ensures
            r == (MkFile { action: MkFileAction { timestamp, ..self.action }, ..self }),
    {
        MkFile { action: MkFileAction { timestamp, ..self.action }, ..self }
    }
}

/// Remove a file or directory.
pub struct Rm {
    pub action: RmAction,
    pub input: OperationOutput,
}

impl Rm {
    /// Removes `path` from `input`; a missing path or a wildcard is an error.
    pub fn new(path: &str, input: OperationOutput) -> (r: Self)
        ensures
            r.action.path@ == path@,
            r.input == input,
            !r.action.allow_not_found,
            !r.action.allow_wildcard,
    {
        Rm { action: RmAction { path: owned(path), allow_not_found: false, allow_wildcard: false }, input }
    }

    pub fn with_allow_not_found(self, allow: bool) -> (r: Self)
        ensures
            r == (Rm { action: RmAction { allow_not_found: allow, ..self.action }, ..self }),
    {
        Rm { action: RmAction { allow_not_found: allow, ..self.action }, ..self }
    }

    pub fn with_allow_wildcard(self, allow: bool) -> (r: Self)
        ensures
            r == (Rm { action: RmAction { allow_wildcard: allow, ..self.action }, ..self }),
    {
        Rm { action: RmAction { allow_wildcard: allow, ..self.action }, ..self }
    }
}

/// Create a symbolic link.
pub struct Symlink {
    pub action: SymlinkAction,
    pub input: OperationOutput,
}

impl Symlink {
    /// Creates `newpath` in `input`, pointing at `oldpath`; timestamp unset.
    pub fn new(oldpath: &str, newpath: &str, input: OperationOutput) -> (r: Self)
        ensures
            r.action.oldpath@ == oldpath@,
            r.action.newpath@ == newpath@,
            r.input == input,
            r.action.owner is None,
            r.action.timestamp == -1,
    {
        Symlink {
            action: SymlinkAction { oldpath: owned(oldpath), newpath: owned(newpath), owner: None, timestamp: -1 },
            input,
        }
    }

    pub fn with_owner(self, owner: ChownOpt) -> (r: Self)
        ensures
            r == (Symlink { action: SymlinkAction { owner: Some(owner), ..self.action }, ..self }),
    {
        Symlink { action: SymlinkAction { owner: Some(owner), ..self.action }, ..self }
    }

    pub fn with_timestamp(self, timestamp: i64) -> (r: Self)
        ensures
            r == (Symlink { action: SymlinkAction { timestamp, ..self.action }, ..self }),
    {
        Symlink { action: SymlinkAction { timestamp, ..self.action }, ..self }
    }
}

/// One action of a file operation.
pub enum FileAction {
    Copy(Copy),
    Mkdir(Mkdir),
    MkFile(MkFile),
    Rm(Rm),
    Symlink(Symlink),
}

/// The outputs an action reads: the copy source, then the filesystem it
/// applies to.
pub open spec fn action_parts(a: FileAction) -> Seq<OperationOutput> {
    match a {
        FileAction::Copy(c) => seq![c.src_input, c.dest_input],
        FileAction::Mkdir(m) => seq![m.input],
        FileAction::MkFile(m) => seq![m.input],
        FileAction::Rm(r) => seq![r.input],
        FileAction::Symlink(s) => seq![s.input],
    }
}

/// The outputs that a list of actions reads, in order.
pub open spec fn file_parts(acts: Seq<FileAction>) -> Seq<OperationOutput>
    decreases acts.len(),
{
    if acts.len() == 0 {
        Seq::empty()
    } else {
        file_parts(acts.drop_last()) + action_parts(acts.last())
    }
}

/// The encoded form of an action whose inputs start at position `p`: a copy
/// applies to input `p + 1` with `p` as its source; the others apply to `p`
/// and have no source (-1). Every action names output 0.
pub open spec fn action_pb(a: FileAction, p: int) -> FileActionPb {
    match a {
        FileAction::Copy(c) => FileActionPb {
            input: (p + 1) as i64,
            secondary_input: p as i64,
            output: 0i64,
            action: ActionBody::Copy(c.action),
        },
        FileAction::Mkdir(m) => FileActionPb {
            input: p as i64,
            secondary_input: -1i64,
            output: 0i64,
            action: ActionBody::MkDir(m.action),
        },
        FileAction::MkFile(m) => FileActionPb {
            input: p as i64,
            secondary_input: -1i64,
            output: 0i64,
            action: ActionBody::MkFile(m.action),
        },
        FileAction::Rm(r) => FileActionPb {
            input: p as i64,
            secondary_input: -1i64,
            output: 0i64,
            action: ActionBody::Rm(r.action),
        },
        FileAction::Symlink(s) => FileActionPb {
            input: p as i64,
            secondary_input: -1i64,
            output: 0i64,
            action: ActionBody::Symlink(s.action),
        },
    }
}

/// The encoded forms of a list of actions.
pub open spec fn action_pbs(acts: Seq<FileAction>) -> Seq<FileActionPb> {
    Seq::new(acts.len(), |k: int| action_pb(acts[k], file_parts(acts.take(k)).len() as int))
}

/// A file operation: a list of actions applied in order.
pub struct FileActions {
    pub actions: Vec<FileAction>,
    pub custom_name: Option<String>,
}

proof fn lemma_file_parts_prefix(acts: Seq<FileAction>, j: int)
    requires
        0 <= j <= acts.len(),
    ensures
        file_parts(acts.take(j)).len() <= file_parts(acts).len(),
    decreases acts.len(),
{
    if j < acts.len() {
        assert(acts.drop_last().take(j) =~= acts.take(j));
        lemma_file_parts_prefix(acts.drop_last(), j);
    } else {
        assert(acts.take(j) =~= acts);
    }
}

/// The outputs the first `j` actions read come first among those all the
/// actions read.
proof fn lemma_file_parts_is_prefix(acts: Seq<FileAction>, j: int)
    requires
        0 <= j <= acts.len(),
    ensures
        file_parts(acts.take(j)).len() <= file_parts(acts).len(),
        file_parts(acts).subrange(0, file_parts(acts.take(j)).len() as int) == file_parts(acts.take(j)),
    decreases acts.len(),
{
    if j < acts.len() {
        assert(acts.drop_last().take(j) =~= acts.take(j));
        lemma_file_parts_is_prefix(acts.drop_last(), j);
        assert(file_parts(acts).subrange(0, file_parts(acts.take(j)).len() as int) =~= file_parts(
            acts.drop_last(),
        ).subrange(0, file_parts(acts.take(j)).len() as int));
    } else {
        assert(acts.take(j) =~= acts);
        assert(file_parts(acts).subrange(0, file_parts(acts).len() as int) =~= file_parts(acts));
    }
}

/// Each action of a file operation works on the filesystem it was given
/// and, for a copy, reads from the source it was given: in the operation's
/// inputs, a copy's `input` is its destination and its `secondary_input`
/// its source; any other action's `input` is its filesystem and it has no
/// secondary input. In a graph of the operation, the node's input there is
/// the result of that graph.
pub proof fn lemma_action_inputs(acts: Seq<FileAction>, k: int, g: Seq<LlbNode>)
    requires
        0 <= k < acts.len(),
        stackable(file_parts(acts)),
        stacked(g, file_parts(acts)),
    ensures
        ({
            let pb = action_pbs(acts)[k];
            let ps = file_parts(acts);
            &&& 0 <= pb.input < ps.len()
            &&& g.last().inputs@[pb.input as int] == root_ref(ps[pb.input as int], offset_of(ps, pb.input as int))
            &&& match acts[k] {
                FileAction::Copy(c) => {
                    &&& ps[pb.input as int] == c.dest_input
                    &&& 0 <= pb.secondary_input < ps.len()
                    &&& ps[pb.secondary_input as int] == c.src_input
                    &&& g.last().inputs@[pb.secondary_input as int] == root_ref(
                        c.src_input,
                        offset_of(ps, pb.secondary_input as int),
                    )
                },
                FileAction::Mkdir(m) => ps[pb.input as int] == m.input && pb.secondary_input == -1,
                FileAction::MkFile(m) => ps[pb.input as int] == m.input && pb.secondary_input == -1,
                FileAction::Rm(r) => ps[pb.input as int] == r.input && pb.secondary_input == -1,
                FileAction::Symlink(y) => ps[pb.input as int] == y.input && pb.secondary_input == -1,
            }
        }),
{
    let ps = file_parts(acts);
    let pre = file_parts(acts.take(k));
    let next = file_parts(acts.take(k + 1));
    assert(acts.take(k + 1).drop_last() =~= acts.take(k));
    assert(acts.take(k + 1).last() == acts[k]);
    assert(next == pre + action_parts(acts[k]));
    lemma_file_parts_is_prefix(acts, k + 1);
    assert(ps.subrange(0, next.len() as int) == next);
    let p = pre.len() as int;
    assert(action_pbs(acts)[k] == action_pb(acts[k], p));
    assert forall|j: int| 0 <= j < action_parts(acts[k]).len() implies ps[p + j] == action_parts(acts[k])[j] by {
        assert(ps.subrange(0, next.len() as int)[p + j] == next[p + j]);
    }
    crate::llb::graph::lemma_parts_le_offset(ps, ps.len() as int);
    assert(p + action_parts(acts[k]).len() <= ps.len());
    let pb = action_pb(acts[k], p);
    match acts[k] {
        FileAction::Copy(c) => {
            assert(ps[p] == c.src_input);
            assert(ps[p + 1] == c.dest_input);
            assert(pb.input == p + 1);
            assert(pb.secondary_input == p);
        },
        FileAction::Mkdir(m) => {
            assert(action_parts(acts[k])[0] == m.input);
            assert(ps[p + 0] == m.input);
        },
        FileAction::MkFile(m) => {
            assert(action_parts(acts[k])[0] == m.input);
            assert(ps[p + 0] == m.input);
        },
        FileAction::Rm(r) => {
            assert(action_parts(acts[k])[0] == r.input);
            assert(ps[p + 0] == r.input);
        },
        FileAction::Symlink(y) => {
            assert(action_parts(acts[k])[0] == y.input);
            assert(ps[p + 0] == y.input);
        },
    }
}

/// A list of actions reads at most two outputs per action.
proof fn lemma_file_parts_len_le(acts: Seq<FileAction>)
    ensures
        file_parts(acts).len() <= 2 * acts.len(),
    decreases acts.len(),
{
    if acts.len() > 0 {
        lemma_file_parts_len_le(acts.drop_last());
    }
}

/// A diff reads its lower and upper states: in the diff's inputs, `lower`
/// is the position of the lower state's result and `upper` that of the
/// upper state's, each -1 exactly when that state is missing, and never
/// the same position.
pub proof fn lemma_diff_inputs(
    r: OperationOutput,
    lower: Option<OperationOutput>,
    upper: Option<OperationOutput>,
    name: Option<String>,
)
    requires
        diff_graph(r, lower, upper, name),
    ensures
        r.nodes@.last().body.op matches OpPb::Diff(l, u) && ({
            let ps = opt_part(lower) + opt_part(upper);
            let ins = r.nodes@.last().inputs@;
            &&& (l == -1 <==> lower is None)
            &&& (u == -1 <==> upper is None)
            &&& (lower is Some && upper is Some ==> l != u)
            &&& match lower {
                Some(x) => 0 <= l < ps.len() && ps[l as int] == x && ins[l as int] == root_ref(
                    x,
                    offset_of(ps, l as int),
                ),
                None => true,
            }
            &&& match upper {
                Some(y) => 0 <= u < ps.len() && ps[u as int] == y && ins[u as int] == root_ref(
                    y,
                    offset_of(ps, u as int),
                ),
                None => true,
            }
        }),
{
}

impl FileActions {
    pub fn new() -> (r: Self)
        ensures
            r.actions@.len() == 0,
            r.custom_name is None,
    {
        FileActions { actions: Vec::new(), custom_name: None }
    }

    /// Appends an action.
    pub fn with_action(self, action: FileAction) -> (r: Self)
        ensures
            r.actions@ == self.actions@.push(action),
            r.custom_name == self.custom_name,
    {
        let mut s = self;
        s.actions.push(action);
        s
    }

    /// Sets the display name of the operation.
    pub fn with_custom_name(self, name: &str) -> (r: Self)
        ensures
            r.custom_name matches Some(n) && n@ == name@,
            r.actions == self.actions,
    {
        FileActions { custom_name: Some(owned(name)), ..self }
    }

    /// The file operation on top of the graphs its actions read.
    pub fn output(self) -> (r: OperationOutput)
        requires
            stackable(file_parts(self.actions@)),
        ensures
            r.wf(),
            r.index == 0,
            stacked(r.nodes@, file_parts(self.actions@)),
            r.nodes@.last().body.op matches OpPb::File(v) && v@ == action_pbs(self.actions@),
            r.nodes@.last().body.custom_name == self.custom_name,
    {
        let ghost acts = self.actions@;
        let n = self.actions.len();
        let mut parts: Vec<&OperationOutput> = Vec::new();
        let mut i: usize = 0;
        while i < n
            invariant
                n == acts.len(),
                acts == self.actions@,
                i <= n,
                derefs(parts@) == file_parts(acts.take(i as int)),
            decreases n - i,
        {
            assert(acts.take(i + 1).drop_last() =~= acts.take(i as int));
            match &self.actions[i] {
                FileAction::Copy(c) => {
                    parts.push(&c.src_input);
                    parts.push(&c.dest_input);
                },
                FileAction::Mkdir(m) => {
                    parts.push(&m.input);
                },
                FileAction::MkFile(m) => {
                    parts.push(&m.input);
                },
                FileAction::Rm(r) => {
                    parts.push(&r.input);
                },
                FileAction::Symlink(s) => {
                    parts.push(&s.input);
                },
            }
            i = i + 1;
            assert(derefs(parts@) =~= file_parts(acts.take(i as int)));
        }
        assert(acts.take(n as int) =~= acts);
        let ghost ps = derefs(parts@);
        proof {
            crate::llb::graph::lemma_parts_le_offset(ps, ps.len() as int);
        }
        let (nodes, refs) = stack_parts(&parts);
        let ghost base = nodes@;
        // the encoded actions, with the positions of their inputs
        let mut rest = self.actions;
        let mut pbs: Vec<FileActionPb> = Vec::new();
        let mut pos: i64 = 0;
        let mut k: usize = 0;
        while k < n
            invariant
                n == acts.len(),
                file_parts(acts).len() < i64::MAX,
                k <= n,
                rest@ == acts.subrange(k as int, n as int),
                pos == file_parts(acts.take(k as int)).len(),
                pbs@ == action_pbs(acts.take(k as int)),
            decreases n - k,
        {
            proof {
                assert(acts.take(k + 1).drop_last() =~= acts.take(k as int));
                assert(acts.take(k + 1).last() == acts[k as int]);
                lemma_file_parts_prefix(acts, k + 1);
            }
            let a = rest.remove(0);
            assert(a == acts[k as int]);
            let ghost p = pos;
            let pb = match a {
                FileAction::Copy(c) => {
                    pos = pos + 2;
                    FileActionPb { input: p_plus(pos, -1), secondary_input: p_plus(pos, -2), output: 0, action: ActionBody::Copy(c.action) }
                },
                FileAction::Mkdir(m) => {
                    pos = pos + 1;
                    FileActionPb { input: p_plus(pos, -1), secondary_input: -1, output: 0, action: ActionBody::MkDir(m.action) }
                },
                FileAction::MkFile(m) => {
                    pos = pos + 1;
                    FileActionPb { input: p_plus(pos, -1), secondary_input: -1, output: 0, action: ActionBody::MkFile(m.action) }
                },
                FileAction::Rm(r) => {
                    pos = pos + 1;
                    FileActionPb { input: p_plus(pos, -1), secondary_input: -1, output: 0, action: ActionBody::Rm(r.action) }
                },
                FileAction::Symlink(s) => {
                    pos = pos + 1;
                    FileActionPb { input: p_plus(pos, -1), secondary_input: -1, output: 0, action: ActionBody::Symlink(s.action) }
                },
            };
            assert(pb == action_pb(acts[k as int], p as int));
            let ghost old_pbs = pbs@;
            pbs.push(pb);
            k = k + 1;
            assert(rest@ =~= acts.subrange(k as int, n as int));
            assert forall|j: int| 0 <= j < k implies #[trigger] pbs@[j] == action_pbs(acts.take(k as int))[j] by {
                assert(acts.take(k as int).take(j) =~= acts.take(j));
                assert(acts.take(k as int)[j] == acts[j]);
                if j < k - 1 {
                    assert(acts.take(k - 1).take(j) =~= acts.take(j));
                    assert(acts.take(k - 1)[j] == acts[j]);
                    assert(pbs@[j] == old_pbs[j]);
                }
            }
            assert(pbs@ =~= action_pbs(acts.take(k as int)));
        }
        assert(acts.take(n as int) =~= acts);
        let r = finish_stack(nodes, refs, OpPb::File(pbs), self.custom_name);
        assert forall|j: int| 0 <= j < ps.len() implies embeds(r.nodes@, offset_of(ps, j), (
        #[trigger] ps[j]).nodes@) by {
            lemma_embeds_prefix(base, r.nodes@, offset_of(ps, j), ps[j].nodes@);
        }
        r
    }
}

/// `p + d`, for positions that stay in range.
fn p_plus(p: i64, d: i64) -> (r: i64)
    requires
        0 <= p + d <= i64::MAX,
    ensures
        r == p + d,
{
    p + d
}

} // verus!
