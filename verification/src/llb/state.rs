//! A state-based API over build graphs.
//!
//! A [`State`] is a filesystem state at a point of a build graph, together
//! with the environment and working directory for commands run on it.
//! Operations are chained on states; a state serializes to an LLB
//! `Definition` with [`State::marshal`].
use crate::llb::graph::{
    offset_of, root_ref,
    alike, clone_output, definition_bytes, definition_of, lemma_alike_definition, lemma_copy_definition,
    lemma_stacks_alike, derefs, embeds, stack, stackable, stacked,
    OperationOutput,
};
use crate::llb::ops::{
    action_parts, action_pb, opt_part, opt_wf, Diff, FileAction, FileActions, Merge, Mkdir, MkFile,
    Rm, Symlink, merge_graph,
};
use crate::llb::pb::{
    enc_cache, enc_exec, enc_meta, enc_mount, enc_mounts, CacheOpt, CacheSharingMode, CopyAction, ExecPb,
    MkDirAction, MkFileAction, MountPb, OpPb, RmAction, SymlinkAction,
};
use crate::llb::source::{
    clone_opt, git_attrs, git_identifier, http_attrs, image_identifier, is_source, local_identifier, Git,
    Http, Image, Local,
};
use crate::shell::{shlex_split, shlex_words};
use crate::text::{owned, push_str, str_eq};
use vstd::prelude::*;

verus! {

/// The characters of each string.
pub open spec fn str_views(v: Seq<String>) -> Seq<Seq<char>> {
    v.map_values(|s: String| s@)
}

/// A copy of a list of strings.
pub fn clone_strings(v: &Vec<String>) -> (r: Vec<String>)
    ensures
        r@ == v@,
{
    let mut r: Vec<String> = Vec::new();
    let n = v.len();
    let mut i: usize = 0;
    while i < n
        invariant
            n == v@.len(),
            i <= n,
            r@ == v@.subrange(0, i as int),
        decreases n - i,
    {
        r.push(v[i].clone());
        i = i + 1;
        assert(r@ =~= v@.subrange(0, i as int));
    }
    assert(v@.subrange(0, n as int) =~= v@);
    r
}

// ============================================================
// State
// ============================================================

/// A filesystem state at a point in a build graph, with the environment
/// (`KEY=VALUE` entries) and working directory for subsequent commands.
pub struct State {
    pub output: Option<OperationOutput>,
    pub env: Vec<String>,
    pub cwd: String,
}

impl State {
    pub open spec fn wf(&self) -> bool {
        opt_wf(self.output)
    }

    /// An empty scratch state: no filesystem content, no environment, no
    /// working directory.
    pub fn scratch() -> (r: Self)
        ensures
            r.output is None,
            r.env@.len() == 0,
            r.cwd@.len() == 0,
    {
        State { output: None, env: Vec::new(), cwd: String::new() }
    }

    /// The state of an output, with no environment or working directory.
    pub fn from_output(output: OperationOutput) -> (r: Self)
        ensures
            r.output == Some(output),
            r.env@.len() == 0,
            r.cwd@.len() == 0,
    {
        State { output: Some(output), env: Vec::new(), cwd: String::new() }
    }

    /// The state of an image source.
    pub fn from_image(img: Image) -> (r: Self)
        ensures
            r.output matches Some(o) && is_source(o, image_identifier(img.name@), Seq::empty(), img.custom_name),
            r.env@.len() == 0,
            r.cwd@.len() == 0,
    {
        State::from_output(img.output())
    }

    /// The state of a Git source.
    pub fn from_git(git: Git) -> (r: Self)
        ensures
            r.output matches Some(o) && is_source(o, git_identifier(git), git_attrs(git), git.custom_name),
            r.env@.len() == 0,
            r.cwd@.len() == 0,
    {
        State::from_output(git.output())
    }

    /// The state of an HTTP source.
    pub fn from_http(http: Http) -> (r: Self)
        ensures
            r.output matches Some(o) && is_source(o, http.url@, http_attrs(http), http.custom_name),
            r.env@.len() == 0,
            r.cwd@.len() == 0,
    {
        State::from_output(http.output())
    }

    /// The state of a local context.
    pub fn from_local(local: Local) -> (r: Self)
        ensures
            r.output matches Some(o) && is_source(o, local_identifier(local.name@), Seq::empty(), local.custom_name),
            r.env@.len() == 0,
            r.cwd@.len() == 0,
    {
        State::from_output(local.output())
    }

    /// The underlying output, `None` for a scratch state.
    pub fn output(&self) -> (r: Option<&OperationOutput>)
        ensures
            r matches Some(x) ==> self.output == Some(*x),
            r is None <==> self.output is None,
    {
        match &self.output {
            Some(o) => Some(o),
            None => None,
        }
    }

    /// Sets the working directory for subsequent commands.
    pub fn dir(self, path: &str) -> (r: Self)
        ensures
            r.output == self.output,
            r.env == self.env,
            r.cwd@ == path@,
    {
        State { cwd: owned(path), ..self }
    }

    /// Adds an environment variable, as `KEY=VALUE`, for subsequent commands.
    pub fn add_env(self, key: &str, value: &str) -> (r: Self)
        ensures
            r.output == self.output,
            r.cwd == self.cwd,
            str_views(r.env@) == str_views(self.env@).push(key@ + "="@ + value@),
    {
        let mut entry = owned(key);
        push_str(&mut entry, "=");
        push_str(&mut entry, value);
        let mut s = self;
        let ghost before = s.env@;
        s.env.push(entry);
        assert(str_views(s.env@) =~= str_views(before).push(key@ + "="@ + value@));
        s
    }

    /// Runs a command on this state's filesystem, with this state's
    /// environment and working directory. The result can take more mounts;
    /// its root is the filesystem after the command.
    pub fn run(self, option: RunOption) -> (r: ExecState)
        ensures
            r.base == self,
            r.args == option.args,
            r.env@ == self.env@,
            r.cwd == self.cwd,
            r.custom_name is None,
            r.extra_mounts@.len() == 0,
    {
        let env = clone_strings(&self.env);
        let cwd = self.cwd.clone();
        ExecState { base: self, args: option.args, env, cwd, custom_name: None, extra_mounts: Vec::new() }
    }

    /// Applies a file operation to this state's filesystem; the environment
    /// and working directory stay.
    pub fn file(self, op: FileOp) -> (r: Self)
        requires
            self.output is Some,
            self.wf(),
            op.wf(),
            stackable(action_parts(file_op_action(op, self.output.unwrap()))),
        ensures
            r.env == self.env,
            r.cwd == self.cwd,
            r.output matches Some(o) && file_graph(o, op, self.output.unwrap()),
    {
        let State { output, env, cwd } = self;
        let dest = match output {
            Some(o) => o,
            None => {
                proof {
                    assert(false);
                }
                return State::scratch();
            },
        };
        let o = op.build(dest);
        State { output: Some(o), env, cwd }
    }

    /// Applies a state transformation.
    pub fn with<F: FnOnce(State) -> State>(self, f: F) -> (r: Self)
        requires
            f.requires((self,)),
        ensures
            f.ensures((self,), r),
    {
        f(self)
    }

    /// The serialized LLB `Definition` of this state; empty for a scratch
    /// state.
    pub fn marshal(&self) -> (r: Vec<u8>)
        requires
            self.wf(),
        ensures
            r@ == marshaled(*self),
    {
        match &self.output {
            Some(o) => definition_bytes(o),
            None => Vec::new(),
        }
    }

    /// A copy of this state: the same graph node by node, the same
    /// environment and working directory.
    pub fn clone(&self) -> (r: Self)
        requires
            self.wf(),
        ensures
            r.wf(),
            r.env@ == self.env@,
            r.cwd == self.cwd,
            same_output(r.output, self.output),
    {
        let output = match &self.output {
            Some(o) => Some(clone_output(o)),
            None => None,
        };
        State { output, env: clone_strings(&self.env), cwd: self.cwd.clone() }
    }
}

/// `a` holds the same graph and output as `b`, node by node.
/// The bytes a state marshals to: the `Definition` of its output, nothing
/// for a scratch state.
pub open spec fn marshaled(s: State) -> Seq<u8> {
    match s.output {
        Some(o) => definition_of(o),
        None => Seq::empty(),
    }
}

/// A copy of a state marshals to the same bytes as the state.
pub proof fn lemma_clone_marshals_alike(a: State, b: State)
    requires
        b.wf(),
        same_output(a.output, b.output),
    ensures
        marshaled(a) == marshaled(b),
{
    match (a.output, b.output) {
        (Some(x), Some(y)) => {
            lemma_copy_definition(x, y);
        },
        _ => {},
    }
}

pub open spec fn same_output(a: Option<OperationOutput>, b: Option<OperationOutput>) -> bool {
    match (a, b) {
        (Some(x), Some(y)) => x.index == y.index && x.nodes@.len() == y.nodes@.len() && embeds(
            x.nodes@,
            0,
            y.nodes@,
        ),
        (None, None) => true,
        _ => false,
    }
}

// ============================================================
// ExecState
// ============================================================

/// An extra mount of a command.
pub enum ExtraMountKind {
    /// A read-only view of another state.
    Readonly(State),
    /// An empty writable directory whose content becomes an output.
    Scratch,
    /// A cache directory kept between builds.
    Cache { id: String, sharing: CacheSharingMode },
}

/// An extra mount and where it is mounted.
pub struct ExtraMountSpec {
    pub dest: String,
    pub kind: ExtraMountKind,
}

/// A command execution step in the build graph, created by [`State::run`].
pub struct ExecState {
    pub base: State,
    pub args: Vec<String>,
    pub env: Vec<String>,
    pub cwd: String,
    pub custom_name: Option<String>,
    pub extra_mounts: Vec<ExtraMountSpec>,
}

/// A mount as the command sees it: positions are those of the operation's
/// inputs and outputs, -1 for none.
pub struct MountView {
    pub input: int,
    pub dest: Seq<char>,
    pub output: int,
    pub readonly: bool,
    pub cache: Option<(Seq<char>, CacheSharingMode)>,
}

pub open spec fn mount_view(m: MountPb) -> MountView {
    MountView {
        input: m.input as int,
        dest: m.dest@,
        output: m.output as int,
        readonly: m.readonly,
        cache: match m.cache {
            Some(c) => Some((c.id@, c.sharing)),
            None => None,
        },
    }
}

/// The states that the read-only mounts with content read, in order.
pub open spec fn ro_parts(ms: Seq<ExtraMountSpec>) -> Seq<OperationOutput>
    decreases ms.len(),
{
    if ms.len() == 0 {
        Seq::empty()
    } else {
        ro_parts(ms.drop_last()) + match ms.last().kind {
            ExtraMountKind::Readonly(st) => opt_part(st.output),
            _ => Seq::empty(),
        }
    }
}

/// The number of scratch mounts.
pub open spec fn scratch_count(ms: Seq<ExtraMountSpec>) -> int
    decreases ms.len(),
{
    if ms.len() == 0 {
        0
    } else {
        scratch_count(ms.drop_last()) + match ms.last().kind {
            ExtraMountKind::Scratch => 1int,
            _ => 0int,
        }
    }
}

/// The mounts made for the extra mounts, when the first read-only input is
/// at position `first_in`: a read-only mount of a scratch state makes none;
/// scratch mounts take outputs 1, 2, ... in order; caches neither read nor
/// produce.
pub open spec fn extra_views(ms: Seq<ExtraMountSpec>, first_in: int) -> Seq<MountView>
    decreases ms.len(),
{
    if ms.len() == 0 {
        Seq::empty()
    } else {
        let prev = ms.drop_last();
        let m = ms.last();
        extra_views(prev, first_in) + match m.kind {
            ExtraMountKind::Readonly(st) => if st.output is Some {
                seq![
                    MountView {
                        input: first_in + ro_parts(prev).len(),
                        dest: m.dest@,
                        output: -1,
                        readonly: true,
                        cache: None,
                    },
                ]
            } else {
                Seq::empty()
            },
            ExtraMountKind::Scratch => seq![
                MountView {
                    input: -1,
                    dest: m.dest@,
                    output: 1 + scratch_count(prev),
                    readonly: false,
                    cache: None,
                },
            ],
            ExtraMountKind::Cache { id, sharing } => seq![
                MountView { input: -1, dest: m.dest@, output: -1, readonly: false, cache: Some((id@, sharing)) },
            ],
        }
    }
}

/// The output of the first scratch mount at `dest`, if any.
pub open spec fn scratch_output(ms: Seq<ExtraMountSpec>, dest: Seq<char>) -> Option<int>
    decreases ms.len(),
{
    if ms.len() == 0 {
        None
    } else {
        match scratch_output(ms.drop_last(), dest) {
            Some(i) => Some(i),
            None => if ms.last().kind is Scratch && ms.last().dest@ == dest {
                Some(1 + scratch_count(ms.drop_last()))
            } else {
                None
            },
        }
    }
}

impl ExecState {
    /// The outputs the command reads: its base, then the read-only mounts
    /// with content.
    pub open spec fn parts(&self) -> Seq<OperationOutput> {
        opt_part(self.base.output) + ro_parts(self.extra_mounts@)
    }

    /// The command's mounts: the base at `/` (input 0, output 0; an empty
    /// writable root when the base is scratch), then the extra mounts.
    pub open spec fn mount_views(&self) -> Seq<MountView> {
        let has_base = self.base.output is Some;
        seq![
            MountView {
                input: if has_base {
                    0
                } else {
                    -1
                },
                dest: "/"@,
                output: 0,
                readonly: false,
                cache: None,
            },
        ] + extra_views(
            self.extra_mounts@,
            if has_base {
                1
            } else {
                0
            },
        )
    }

    pub open spec fn wf(&self) -> bool {
        &&& self.base.wf()
        &&& forall|k: int| 0 <= k < self.parts().len() ==> (#[trigger] self.parts()[k]).wf()
        &&& stackable(self.parts())
        &&& scratch_count(self.extra_mounts@) < u32::MAX
    }
}

/// A prefix of the mounts has no more scratch mounts, and reads no more
/// states, than all of them.
proof fn lemma_mount_counts_prefix(ms: Seq<ExtraMountSpec>, j: int)
    requires
        0 <= j <= ms.len(),
    ensures
        0 <= scratch_count(ms.take(j)) <= scratch_count(ms),
        ro_parts(ms.take(j)).len() <= ro_parts(ms).len(),
    decreases ms.len(),
{
    if j < ms.len() {
        assert(ms.drop_last().take(j) =~= ms.take(j));
        lemma_mount_counts_prefix(ms.drop_last(), j);
    } else {
        assert(ms.take(j) =~= ms);
        if ms.len() > 0 {
            lemma_mount_counts_prefix(ms.drop_last(), ms.len() - 1);
            assert(ms.drop_last().take(ms.len() - 1) =~= ms.drop_last());
        }
    }
}

/// The states that the first `j` mounts read come first among those all
/// the mounts read, and their mounts come first among all the mounts.
proof fn lemma_mounts_prefix(ms: Seq<ExtraMountSpec>, j: int, first_in: int)
    requires
        0 <= j <= ms.len(),
    ensures
        ro_parts(ms.take(j)).len() <= ro_parts(ms).len(),
        ro_parts(ms).subrange(0, ro_parts(ms.take(j)).len() as int) == ro_parts(ms.take(j)),
        extra_views(ms.take(j), first_in).len() <= extra_views(ms, first_in).len(),
        extra_views(ms, first_in).subrange(0, extra_views(ms.take(j), first_in).len() as int)
            == extra_views(ms.take(j), first_in),
    decreases ms.len(),
{
    if j < ms.len() {
        assert(ms.drop_last().take(j) =~= ms.take(j));
        lemma_mounts_prefix(ms.drop_last(), j, first_in);
        assert(ro_parts(ms).subrange(0, ro_parts(ms.take(j)).len() as int) =~= ro_parts(ms.drop_last()).subrange(
            0,
            ro_parts(ms.take(j)).len() as int,
        ));
        assert(extra_views(ms, first_in).subrange(0, extra_views(ms.take(j), first_in).len() as int)
            =~= extra_views(ms.drop_last(), first_in).subrange(0, extra_views(ms.take(j), first_in).len() as int));
    } else {
        assert(ms.take(j) =~= ms);
        assert(ro_parts(ms).subrange(0, ro_parts(ms).len() as int) =~= ro_parts(ms));
        assert(extra_views(ms, first_in).subrange(0, extra_views(ms, first_in).len() as int) =~= extra_views(
            ms,
            first_in,
        ));
    }
}

/// A read-only mount mounts the state it was given: the command's mount
/// made for extra mount `j`, a read-only mount of a state with content,
/// is at that mount's destination, read-only, and reads, among the
/// command's inputs, that state's result.
pub proof fn lemma_readonly_mount_reads_its_state(e: ExecState, j: int, o: OperationOutput, index: int)
    requires
        0 <= j < e.extra_mounts@.len(),
        e.extra_mounts@[j].kind matches ExtraMountKind::Readonly(st) && st.output is Some,
        exec_graph(o, e, index),
    ensures
        ({
            let ms = e.extra_mounts@;
            let first_in = if e.base.output is Some { 1int } else { 0int };
            let v = e.mount_views()[1 + extra_views(ms.take(j), first_in).len() as int];
            let so = ms[j].kind->Readonly_0.output.unwrap();
            &&& 1 + extra_views(ms.take(j), first_in).len() < e.mount_views().len()
            &&& v.dest == ms[j].dest@
            &&& v.readonly
            &&& 0 <= v.input < e.parts().len()
            &&& e.parts()[v.input] == so
            &&& o.nodes@.last().inputs@[v.input] == root_ref(so, offset_of(e.parts(), v.input))
        }),
{
    let ms = e.extra_mounts@;
    let first_in = if e.base.output is Some { 1int } else { 0int };
    let prev = ms.take(j);
    let next = ms.take(j + 1);
    assert(next.drop_last() =~= prev);
    assert(next.last() == ms[j]);
    let st = ms[j].kind->Readonly_0;
    let so = st.output.unwrap();
    assert(ro_parts(next) == ro_parts(prev) + seq![so]);
    lemma_mounts_prefix(ms, j + 1, first_in);
    let vn = extra_views(next, first_in);
    let vp = extra_views(prev, first_in);
    assert(vn == vp + seq![
        MountView {
            input: first_in + ro_parts(prev).len(),
            dest: ms[j].dest@,
            output: -1,
            readonly: true,
            cache: None,
        },
    ]);
    let ev = extra_views(ms, first_in);
    assert(ev.subrange(0, vn.len() as int)[vp.len() as int] == vn[vp.len() as int]);
    assert(e.mount_views()[1 + vp.len() as int] == ev[vp.len() as int]);
    let rp = ro_parts(ms);
    let q = ro_parts(prev).len() as int;
    assert(rp.subrange(0, ro_parts(next).len() as int)[q] == ro_parts(next)[q]);
    assert(opt_part(e.base.output).len() == first_in);
    assert(e.parts()[first_in + q] == rp[q]);
}

/// The mounts of a command serialize by what the command sees of them.
proof fn lemma_mounts_by_view(a: Seq<MountPb>, b: Seq<MountPb>)
    requires
        a.map_values(|m: MountPb| mount_view(m)) == b.map_values(|m: MountPb| mount_view(m)),
    ensures
        enc_mounts(a) == enc_mounts(b),
    decreases a.len(),
{
    let av = a.map_values(|m: MountPb| mount_view(m));
    let bv = b.map_values(|m: MountPb| mount_view(m));
    assert(a.len() == av.len() && b.len() == bv.len());
    if a.len() > 0 {
        assert(a.drop_last().map_values(|m: MountPb| mount_view(m)) =~= av.drop_last());
        assert(b.drop_last().map_values(|m: MountPb| mount_view(m)) =~= bv.drop_last());
        lemma_mounts_by_view(a.drop_last(), b.drop_last());
        let x = a.last();
        let y = b.last();
        assert(av[a.len() - 1] == mount_view(x));
        assert(bv[b.len() - 1] == mount_view(y));
        assert(mount_view(x) == mount_view(y));
        assert(enc_mount(x) == enc_mount(y)) by {
            match (x.cache, y.cache) {
                (Some(c), Some(d)) => {
                    assert(enc_cache(c) == enc_cache(d));
                },
                _ => {},
            }
        }
    }
}

/// A command fixes its graph up to how the nodes are held: every graph of
/// it serializes to the same `Definition`.
pub proof fn lemma_exec_definition_unique(a: OperationOutput, b: OperationOutput, e: ExecState, index: int)
    requires
        exec_graph(a, e, index),
        exec_graph(b, e, index),
    ensures
        definition_of(a) == definition_of(b),
{
    let n = a.nodes@.len() as int;
    assert forall|j: int| 0 <= j < n implies alike(#[trigger] a.nodes@[j], b.nodes@[j]) by {
        if j < n - 1 {
            lemma_stacks_alike(a.nodes@, b.nodes@, e.parts(), j);
        } else {
            assert(a.nodes@[j] == a.nodes@.last());
            assert(b.nodes@[j] == b.nodes@.last());
            match (a.nodes@.last().body.op, b.nodes@.last().body.op) {
                (OpPb::Exec(x), OpPb::Exec(y)) => {
                    lemma_mounts_by_view(x.mounts@, y.mounts@);
                    assert(enc_meta(x) == enc_meta(y));
                    assert(enc_exec(x) == enc_exec(y));
                },
                _ => {},
            }
        }
    }
    lemma_alike_definition(a, b);
}

/// Marshaling a command gives the bytes of marshaling its root state:
/// what [`ExecState::marshal`] promises of its bytes and what
/// [`ExecState::root`] promises of its state make them equal.
pub proof fn lemma_exec_marshal_is_root_marshal(e: ExecState, root: State, bytes: Seq<u8>)
    requires
        root.output matches Some(o) && exec_graph(o, e, 0),
        forall|o: OperationOutput| exec_graph(o, e, 0) ==> bytes == definition_of(o),
    ensures
        marshaled(root) == bytes,
{
}

/// `o` is output `index` of the command's node, on top of the graphs the
/// command reads: arguments, environment and working directory as given,
/// the mounts of [`ExecState::mount_views`], the command's display name.
pub open spec fn exec_graph(o: OperationOutput, e: ExecState, index: int) -> bool {
    &&& o.wf()
    &&& o.index == index
    &&& stacked(o.nodes@, e.parts())
    &&& o.nodes@.last().body.op matches OpPb::Exec(x) && x.args@ == e.args@ && x.env@ == e.env@
        && x.cwd == e.cwd && x.mounts@.map_values(|m: MountPb| mount_view(m)) == e.mount_views()
    &&& o.nodes@.last().body.custom_name == e.custom_name
}

impl ExecState {
    /// The command's node on top of the graphs it reads; output 0.
    pub fn build(&self) -> (r: OperationOutput)
        requires
            self.wf(),
        ensures
            exec_graph(r, *self, 0),
    {
        let ghost ms = self.extra_mounts@;
        let has_base = self.base.output.is_some();
        let mut parts: Vec<&OperationOutput> = Vec::new();
        let mut mounts: Vec<MountPb> = Vec::new();
        match &self.base.output {
            Some(o) => {
                parts.push(o);
            },
            None => {},
        }
        let root_input: i64 = if has_base { 0 } else { -1 };
        mounts.push(MountPb { input: root_input, dest: owned("/"), output: 0, readonly: false, cache: None });
        let first_in: i64 = if has_base { 1 } else { 0 };
        let mut next_out: i64 = 1;
        let n = self.extra_mounts.len();
        let mut i: usize = 0;
        assert(derefs(parts@) =~= opt_part(self.base.output) + ro_parts(ms.take(0)));
        assert(mounts@.map_values(|m: MountPb| mount_view(m)) =~= seq![self.mount_views()[0]] + extra_views(ms.take(0), first_in as int));
        proof {
            crate::llb::graph::lemma_parts_le_offset(self.parts(), self.parts().len() as int);
        }
        while i < n
            invariant
                n == ms.len(),
                ms == self.extra_mounts@,
                scratch_count(ms) < u32::MAX,
                first_in + ro_parts(ms).len() < i64::MAX,
                i <= n,
                self.wf(),
                has_base == self.base.output is Some,
                first_in == (if has_base { 1int } else { 0int }),
                root_input == (if has_base { 0int } else { -1int }),
                derefs(parts@) == opt_part(self.base.output) + ro_parts(ms.take(i as int)),
                parts@.len() == first_in + ro_parts(ms.take(i as int)).len(),
                next_out == 1 + scratch_count(ms.take(i as int)),
                mounts@.map_values(|m: MountPb| mount_view(m)) == seq![self.mount_views()[0]] + extra_views(ms.take(i as int), first_in as int),
                ro_parts(ms.take(i as int)).len() <= i,
                scratch_count(ms.take(i as int)) <= i,
            decreases n - i,
        {
            let ghost prev = ms.take(i as int);
            assert(ms.take(i + 1).drop_last() =~= prev);
            assert(ms.take(i + 1).last() == ms[i as int]);
            proof {
                lemma_mount_counts_prefix(ms, i as int);
                lemma_mount_counts_prefix(ms, i + 1);
            }
            let ghost old_parts = parts@;
            let ghost old_mounts = mounts@;
            let m = &self.extra_mounts[i];
            assert(*m == ms[i as int]);
            let dest = m.dest.clone();
            let ghost mv0 = self.mount_views()[0];
            let ghost next = ms.take(i + 1);
            match &m.kind {
                ExtraMountKind::Readonly(st) => {
                    match &st.output {
                        Some(o) => {
                            let pos = parts.len() as i64;
                            parts.push(o);
                            let mp = MountPb { input: pos, dest, output: -1, readonly: true, cache: None };
                            mounts.push(mp);
                            proof {
                                assert(ro_parts(next) == ro_parts(prev) + seq![*o]);
                                assert(derefs(parts@) =~= derefs(old_parts).push(*o));
                                assert(extra_views(next, first_in as int) == extra_views(prev, first_in as int) + seq![mount_view(mp)]);
                                assert(mounts@.map_values(|m: MountPb| mount_view(m)) =~= old_mounts.map_values(|m: MountPb| mount_view(m)).push(mount_view(mp)));
                            }
                        },
                        None => {
                            proof {
                                assert(ro_parts(next) =~= ro_parts(prev));
                                assert(extra_views(next, first_in as int) =~= extra_views(prev, first_in as int));
                            }
                        },
                    }
                    assert(scratch_count(next) == scratch_count(prev));
                },
                ExtraMountKind::Scratch => {
                    let mp = MountPb { input: -1, dest, output: next_out, readonly: false, cache: None };
                    mounts.push(mp);
                    next_out = next_out + 1;
                    proof {
                        assert(ro_parts(next) =~= ro_parts(prev));
                        assert(extra_views(next, first_in as int) == extra_views(prev, first_in as int) + seq![mount_view(mp)]);
                        assert(mounts@.map_values(|m: MountPb| mount_view(m)) =~= old_mounts.map_values(|m: MountPb| mount_view(m)).push(mount_view(mp)));
                    }
                },
                ExtraMountKind::Cache { id, sharing } => {
                    let mp = MountPb {
                        input: -1,
                        dest,
                        output: -1,
                        readonly: false,
                        cache: Some(CacheOpt { id: id.clone(), sharing: *sharing }),
                    };
                    mounts.push(mp);
                    proof {
                        assert(ro_parts(next) =~= ro_parts(prev));
                        assert(scratch_count(next) == scratch_count(prev));
                        assert(extra_views(next, first_in as int) == extra_views(prev, first_in as int) + seq![mount_view(mp)]);
                        assert(mounts@.map_values(|m: MountPb| mount_view(m)) =~= old_mounts.map_values(|m: MountPb| mount_view(m)).push(mount_view(mp)));
                    }
                },
            }
            i = i + 1;
            assert(derefs(parts@) =~= opt_part(self.base.output) + ro_parts(ms.take(i as int)));
            assert(mounts@.map_values(|m: MountPb| mount_view(m)) =~= seq![self.mount_views()[0]] + extra_views(ms.take(i as int), first_in as int));
        }
        assert(ms.take(n as int) =~= ms);
        assert(derefs(parts@) =~= self.parts());
        assert(mounts@.map_values(|m: MountPb| mount_view(m)) =~= self.mount_views());
        let exec = ExecPb {
            args: clone_strings(&self.args),
            env: clone_strings(&self.env),
            cwd: self.cwd.clone(),
            mounts,
        };
        stack(&parts, OpPb::Exec(exec), clone_opt(&self.custom_name))
    }

    /// The root filesystem state after running the command, with the
    /// command's environment and working directory.
    pub fn root(&self) -> (r: State)
        requires
            self.wf(),
        ensures
            r.output matches Some(o) && exec_graph(o, *self, 0),
            r.env@ == self.env@,
            r.cwd == self.cwd,
    {
        let o = self.build();
        State { output: Some(o), env: clone_strings(&self.env), cwd: self.cwd.clone() }
    }

    /// The output state of the first scratch mount at `dest`, with no
    /// environment or working directory.
    pub fn get_mount(&self, dest: &str) -> (r: State)
        requires
            self.wf(),
            scratch_output(self.extra_mounts@, dest@) is Some,
        ensures
            r.output matches Some(o) && exec_graph(o, *self, scratch_output(self.extra_mounts@, dest@).unwrap()),
            r.env@.len() == 0,
            r.cwd@.len() == 0,
    {
        let ghost ms = self.extra_mounts@;
        let n = self.extra_mounts.len();
        let mut count: u32 = 0;
        let mut i: usize = 0;
        let mut found: Option<u32> = None;
        while i < n
            invariant
                n == ms.len(),
                ms == self.extra_mounts@,
                scratch_count(ms) < u32::MAX,
                i <= n,
                count == scratch_count(ms.take(i as int)),
                scratch_count(ms.take(i as int)) <= i,
                found matches Some(f) ==> scratch_output(ms.take(i as int), dest@) == Some(f as int),
                found is None ==> scratch_output(ms.take(i as int), dest@) is None,
            decreases n - i,
        {
            assert(ms.take(i + 1).drop_last() =~= ms.take(i as int));
            assert(ms.take(i + 1).last() == ms[i as int]);
            proof {
                lemma_mount_counts_prefix(ms, i + 1);
            }
            let m = &self.extra_mounts[i];
            match &m.kind {
                ExtraMountKind::Scratch => {
                    if found.is_none() && str_eq(m.dest.as_str(), dest) {
                        found = Some(count + 1);
                    }
                    count = count + 1;
                },
                _ => {},
            }
            i = i + 1;
        }
        assert(ms.take(n as int) =~= ms);
        let idx = match found {
            Some(f) => f,
            None => {
                proof {
                    assert(false);
                }
                0
            },
        };
        let mut o = self.build();
        o.index = idx;
        State::from_output(o)
    }

    /// Adds a read-only mount of another state at `dest`.
    pub fn add_mount(self, dest: &str, src: State) -> (r: Self)
        ensures
            r.base == self.base,
            r.args == self.args,
            r.env == self.env,
            r.cwd == self.cwd,
            r.custom_name == self.custom_name,
            r.extra_mounts@.len() == self.extra_mounts@.len() + 1,
            r.extra_mounts@.drop_last() == self.extra_mounts@,
            r.extra_mounts@.last().dest@ == dest@,
            r.extra_mounts@.last().kind == ExtraMountKind::Readonly(src),
    {
        let mut s = self;
        s.extra_mounts.push(ExtraMountSpec { dest: owned(dest), kind: ExtraMountKind::Readonly(src) });
        assert(s.extra_mounts@.drop_last() =~= self.extra_mounts@);
        s
    }

    /// Adds an empty writable mount at `dest`; its content after the command
    /// is available through [`ExecState::get_mount`].
    pub fn add_mount_scratch(self, dest: &str) -> (r: Self)
        ensures
            r.base == self.base,
            r.args == self.args,
            r.env == self.env,
            r.cwd == self.cwd,
            r.custom_name == self.custom_name,
            r.extra_mounts@.len() == self.extra_mounts@.len() + 1,
            r.extra_mounts@.drop_last() == self.extra_mounts@,
            r.extra_mounts@.last().dest@ == dest@,
            r.extra_mounts@.last().kind == ExtraMountKind::Scratch,
    {
        let mut s = self;
        s.extra_mounts.push(ExtraMountSpec { dest: owned(dest), kind: ExtraMountKind::Scratch });
        assert(s.extra_mounts@.drop_last() =~= self.extra_mounts@);
        s
    }

    /// Adds a cache mount at `dest`, persisting data between builds.
    pub fn add_mount_cache(self, dest: &str, id: &str, sharing: CacheSharingMode) -> (r: Self)
        ensures
            r.base == self.base,
            r.args == self.args,
            r.env == self.env,
            r.cwd == self.cwd,
            r.custom_name == self.custom_name,
            r.extra_mounts@.len() == self.extra_mounts@.len() + 1,
            r.extra_mounts@.drop_last() == self.extra_mounts@,
            r.extra_mounts@.last().dest@ == dest@,
            r.extra_mounts@.last().kind matches ExtraMountKind::Cache { id: i, sharing: s } && i@ == id@
                && s == sharing,
    {
        let mut s = self;
        s.extra_mounts.push(
            ExtraMountSpec { dest: owned(dest), kind: ExtraMountKind::Cache { id: owned(id), sharing } },
        );
        assert(s.extra_mounts@.drop_last() =~= self.extra_mounts@);
        s
    }

    /// Sets the display name of the command.
    pub fn with_custom_name(self, name: &str) -> (r: Self)
        ensures
            r.base == self.base,
            r.args == self.args,
            r.env == self.env,
            r.cwd == self.cwd,
            r.extra_mounts == self.extra_mounts,
            r.custom_name matches Some(n) && n@ == name@,
    {
        ExecState { custom_name: Some(owned(name)), ..self }
    }

    /// Runs another command on the root filesystem after this one.
    pub fn run(self, option: RunOption) -> (r: ExecState)
        requires
            self.wf(),
        ensures
            r.base.output matches Some(o) && exec_graph(o, self, 0),
            r.base.env@ == self.env@,
            r.base.cwd == self.cwd,
            r.args == option.args,
            r.env@ == self.env@,
            r.cwd == self.cwd,
            r.custom_name is None,
            r.extra_mounts@.len() == 0,
    {
        self.root().run(option)
    }

    /// The root filesystem state after the command, with its working
    /// directory set to `path`.
    pub fn dir(self, path: &str) -> (r: State)
        requires
            self.wf(),
        ensures
            r.output matches Some(o) && exec_graph(o, self, 0),
            r.env@ == self.env@,
            r.cwd@ == path@,
    {
        self.root().dir(path)
    }

    /// The serialized `Definition` of the root filesystem after the command.
    pub fn marshal(&self) -> (r: Vec<u8>)
        requires
            self.wf(),
        ensures
            exists|o: OperationOutput| exec_graph(o, *self, 0),
            forall|o: OperationOutput| exec_graph(o, *self, 0) ==> r@ == definition_of(o),
    {
        let st = self.root();
        let r = st.marshal();
        let ghost o0 = st.output.unwrap();
        assert(exec_graph(o0, *self, 0));
        assert forall|o: OperationOutput| exec_graph(o, *self, 0) implies r@ == definition_of(o) by {
            lemma_exec_definition_unique(o, o0, *self, 0);
        }
        r
    }
}

// ============================================================
// RunOption
// ============================================================

/// The command to run in an exec operation.
pub struct RunOption {
    pub args: Vec<String>,
}

impl RunOption {
    /// Splits a command line into words with shell rules.
    pub fn shlex(cmd: &str) -> (r: Self)
        ensures
            str_views(r.args@) == shlex_words(cmd@),
    {
        RunOption { args: shlex_split(cmd) }
    }

    /// Runs a command through a shell: `[shell, "-c", cmd]`.
    pub fn shell(shell: &str, cmd: &str) -> (r: Self)
        ensures
            str_views(r.args@) == seq![shell@, "-c"@, cmd@],
    {
        let mut args: Vec<String> = Vec::new();
        args.push(owned(shell));
        args.push(owned("-c"));
        args.push(owned(cmd));
        assert(str_views(args@) =~= seq![shell@, "-c"@, cmd@]);
        RunOption { args }
    }

    /// An explicit argument list.
    pub fn args(args: Vec<String>) -> (r: Self)
        ensures
            r.args == args,
    {
        RunOption { args }
    }
}

// ============================================================
// File operations
// ============================================================

/// A copy operation builder. Created by [`copy`].
pub struct CopyOp {
    pub src: OperationOutput,
    pub action: CopyAction,
    pub custom_name: Option<String>,
}

impl CopyOp {
    /// Create the destination path if it doesn't exist.
    pub fn with_create_dest_path(self, create: bool) -> (r: Self)
        ensures
            r == (CopyOp { action: CopyAction { create_dest_path: create, ..self.action }, ..self }),
    {
        CopyOp { action: CopyAction { create_dest_path: create, ..self.action }, ..self }
    }

    /// Allow wildcard patterns in the source path.
    pub fn with_allow_wildcard(self, allow: bool) -> (r: Self)
        ensures
            r == (CopyOp { action: CopyAction { allow_wildcard: allow, ..self.action }, ..self }),
    {
        CopyOp { action: CopyAction { allow_wildcard: allow, ..self.action }, ..self }
    }

    /// Set a custom display name for this operation.
    pub fn with_custom_name(self, name: &str) -> (r: Self)
        ensures
            r.src == self.src,
            r.action == self.action,
            r.custom_name matches Some(n) && n@ == name@,
    {
        CopyOp { custom_name: Some(owned(name)), ..self }
    }
}

/// A mkdir operation builder. Created by [`mkdir`].
pub struct MkdirOp {
    pub action: MkDirAction,
    pub custom_name: Option<String>,
}

impl MkdirOp {
    /// Create parent directories as needed.
    pub fn with_make_parents(self, make: bool) -> (r: Self)
        ensures
            r == (MkdirOp { action: MkDirAction { make_parents: make, ..self.action }, ..self }),
    {
        MkdirOp { action: MkDirAction { make_parents: make, ..self.action }, ..self }
    }

    /// Set a custom display name for this operation.
    pub fn with_custom_name(self, name: &str) -> (r: Self)
        ensures
            r.action == self.action,
            r.custom_name matches Some(n) && n@ == name@,
    {
        MkdirOp { custom_name: Some(owned(name)), ..self }
    }
}

/// A mkfile operation builder. Created by [`mkfile`].
pub struct MkFileOp {
    pub action: MkFileAction,
    pub custom_name: Option<String>,
}

impl MkFileOp {
    /// Set a custom display name for this operation.
    pub fn with_custom_name(self, name: &str) -> (r: Self)
        ensures
            r.action == self.action,
            r.custom_name matches Some(n) && n@ == name@,
    {
        MkFileOp { custom_name: Some(owned(name)), ..self }
    }
}

/// A remove operation builder. Created by [`rm`].
pub struct RmOp {
    pub action: RmAction,
    pub custom_name: Option<String>,
}

impl RmOp {
    /// Set a custom display name for this operation.
    pub fn with_custom_name(self, name: &str) -> (r: Self)
        ensures
            r.action == self.action,
            r.custom_name matches Some(n) && n@ == name@,
    {
        RmOp { custom_name: Some(owned(name)), ..self }
    }
}

/// A symlink operation builder. Created by [`symlink`].
pub struct SymlinkOp {
    pub action: SymlinkAction,
    pub custom_name: Option<String>,
}

impl SymlinkOp {
    /// Set a custom display name for this operation.
    pub fn with_custom_name(self, name: &str) -> (r: Self)
        ensures
            r.action == self.action,
            r.custom_name matches Some(n) && n@ == name@,
    {
        SymlinkOp { custom_name: Some(owned(name)), ..self }
    }
}

/// A file operation to apply to a [`State`] via [`State::file`].
pub enum FileOp {
    Copy(CopyOp),
    Mkdir(MkdirOp),
    MkFile(MkFileOp),
    Rm(RmOp),
    Symlink(SymlinkOp),
}

/// The action a file operation applies to the filesystem `dest`.
pub open spec fn file_op_action(op: FileOp, dest: OperationOutput) -> FileAction {
    match op {
        FileOp::Copy(c) => FileAction::Copy(crate::llb::ops::Copy { action: c.action, src_input: c.src, dest_input: dest }),
        FileOp::Mkdir(m) => FileAction::Mkdir(Mkdir { action: m.action, input: dest }),
        FileOp::MkFile(m) => FileAction::MkFile(MkFile { action: m.action, input: dest }),
        FileOp::Rm(r) => FileAction::Rm(Rm { action: r.action, input: dest }),
        FileOp::Symlink(s) => FileAction::Symlink(Symlink { action: s.action, input: dest }),
    }
}

/// The display name of a file operation.
pub open spec fn file_op_name(op: FileOp) -> Option<String> {
    match op {
        FileOp::Copy(c) => c.custom_name,
        FileOp::Mkdir(m) => m.custom_name,
        FileOp::MkFile(m) => m.custom_name,
        FileOp::Rm(r) => r.custom_name,
        FileOp::Symlink(s) => s.custom_name,
    }
}

/// `o` is a file node with the single action of `op` applied to `dest`, on
/// top of the graphs that action reads.
pub open spec fn file_graph(o: OperationOutput, op: FileOp, dest: OperationOutput) -> bool {
    let a = file_op_action(op, dest);
    &&& o.wf()
    &&& o.index == 0
    &&& stacked(o.nodes@, action_parts(a))
    &&& o.nodes@.last().body.op matches OpPb::File(v) && v@ == seq![action_pb(a, 0)]
    &&& o.nodes@.last().body.custom_name == file_op_name(op)
}

impl FileOp {
    pub open spec fn wf(&self) -> bool {
        match *self {
            FileOp::Copy(c) => c.src.wf(),
            _ => true,
        }
    }

    /// The operation as a file node applied to `dest`.
    pub fn build(self, dest: OperationOutput) -> (r: OperationOutput)
        requires
            self.wf(),
            dest.wf(),
            stackable(action_parts(file_op_action(self, dest))),
        ensures
            file_graph(r, self, dest),
    {
        let ghost op = self;
        let ghost d = dest;
        let (action, name) = match self {
            FileOp::Copy(c) => (FileAction::Copy(crate::llb::ops::Copy { action: c.action, src_input: c.src, dest_input: dest }), c.custom_name),
            FileOp::Mkdir(m) => (FileAction::Mkdir(Mkdir { action: m.action, input: dest }), m.custom_name),
            FileOp::MkFile(m) => (FileAction::MkFile(MkFile { action: m.action, input: dest }), m.custom_name),
            FileOp::Rm(x) => (FileAction::Rm(Rm { action: x.action, input: dest }), x.custom_name),
            FileOp::Symlink(s) => (FileAction::Symlink(Symlink { action: s.action, input: dest }), s.custom_name),
        };
        let ghost a = action;
        assert(a == file_op_action(op, d));
        let mut actions: Vec<FileAction> = Vec::new();
        actions.push(action);
        let fa = FileActions { actions, custom_name: name };
        proof {
            let acts = fa.actions@;
            assert(acts.drop_last() =~= Seq::<FileAction>::empty());
            assert(crate::llb::ops::file_parts(acts.drop_last()) =~= Seq::<crate::llb::graph::OperationOutput>::empty());
            assert(acts.last() == a);
            assert(crate::llb::ops::file_parts(acts) =~= action_parts(a));
            assert(acts.take(0) =~= Seq::<FileAction>::empty());
            assert(crate::llb::ops::file_parts(acts.take(0)) =~= Seq::<crate::llb::graph::OperationOutput>::empty());
            assert(crate::llb::ops::action_pbs(acts) =~= seq![action_pb(a, 0)]);
        }
        fa.output()
    }
}

// ============================================================
// Convenience functions
// ============================================================

/// A state from a container image.
pub fn image(name: &str) -> (r: State)
    ensures
        r.output matches Some(o) && is_source(o, image_identifier(name@), Seq::empty(), None),
        r.env@.len() == 0,
        r.cwd@.len() == 0,
{
    State::from_image(Image::new(name))
}

/// An empty scratch state.
pub fn scratch() -> (r: State)
    ensures
        r.output is None,
        r.env@.len() == 0,
        r.cwd@.len() == 0,
{
    State::scratch()
}

/// A state from a Git repository at a ref.
pub fn git(remote: &str, git_ref: &str) -> (r: State)
    ensures
        r.output matches Some(o) && is_source(
            o,
            "git://"@ + remote@ + "#"@ + git_ref@,
            seq![("git.fullurl"@, remote@)],
            None,
        ),
        r.env@.len() == 0,
        r.cwd@.len() == 0,
{
    let g = Git::new(remote, git_ref);
    proof {
        assert(git_attrs(g) =~= seq![("git.fullurl"@, remote@)]);
    }
    State::from_git(g)
}

/// A state from an HTTP URL.
pub fn http(url: &str) -> (r: State)
    ensures
        r.output matches Some(o) && is_source(o, url@, Seq::empty(), None),
        r.env@.len() == 0,
        r.cwd@.len() == 0,
{
    let h = Http::new(url);
    proof {
        assert(http_attrs(h) =~= Seq::empty());
    }
    State::from_http(h)
}

/// A state from a local build context.
pub fn local(name: &str) -> (r: State)
    ensures
        r.output matches Some(o) && is_source(o, local_identifier(name@), Seq::empty(), None),
        r.env@.len() == 0,
        r.cwd@.len() == 0,
{
    State::from_local(Local::new(name))
}

/// Splits a shell command line into a [`RunOption`].
pub fn shlex(cmd: &str) -> (r: RunOption)
    ensures
        str_views(r.args@) == shlex_words(cmd@),
{
    RunOption::shlex(cmd)
}

/// The outputs of the states that are not scratch, in order.
pub open spec fn outputs_of(states: Seq<State>) -> Seq<OperationOutput>
    decreases states.len(),
{
    if states.len() == 0 {
        Seq::empty()
    } else {
        outputs_of(states.drop_last()) + opt_part(states.last().output)
    }
}

proof fn lemma_outputs_of_len(states: Seq<State>)
    ensures
        outputs_of(states).len() <= states.len(),
    decreases states.len(),
{
    if states.len() > 0 {
        lemma_outputs_of_len(states.drop_last());
    }
}

/// Merges states by overlaying their filesystems in order; scratch states
/// contribute nothing.
pub fn merge(states: Vec<State>) -> (r: State)
    requires
        stackable(outputs_of(states@)),
    ensures
        r.output matches Some(o) && merge_graph(o, outputs_of(states@), None),
        r.env@.len() == 0,
        r.cwd@.len() == 0,
{
    let ghost ss = states@;
    proof {
        lemma_outputs_of_len(ss);
    }
    let mut inputs: Vec<OperationOutput> = Vec::new();
    let mut rest = states;
    let n = rest.len();
    let mut i: usize = 0;
    while i < n
        invariant
            n == ss.len(),
            i <= n,
            rest@ == ss.subrange(i as int, n as int),
            inputs@ == outputs_of(ss.take(i as int)),
        decreases n - i,
    {
        assert(ss.take(i + 1).drop_last() =~= ss.take(i as int));
        let s = rest.remove(0);
        assert(s == ss[i as int]);
        match s.output {
            Some(o) => inputs.push(o),
            None => {},
        }
        i = i + 1;
        assert(rest@ =~= ss.subrange(i as int, n as int));
        assert(inputs@ =~= outputs_of(ss.take(i as int)));
    }
    assert(ss.take(n as int) =~= ss);
    proof {
        lemma_outputs_of_len(ss);
    }
    let m = Merge::new(inputs);
    State::from_output(m.output())
}

/// `o` is a diff of copies of `lower` and `upper`.
pub open spec fn diff_of(o: OperationOutput, lower: Option<OperationOutput>, upper: Option<OperationOutput>) -> bool {
    exists|l: Option<OperationOutput>, u: Option<OperationOutput>|
        #![trigger crate::llb::ops::diff_graph(o, l, u, None)]
        same_output(l, lower) && same_output(u, upper) && crate::llb::ops::diff_graph(o, l, u, None)
}

/// The difference between two states: `lower` is the base, `upper` the
/// changed state.
pub fn diff(lower: &State, upper: &State) -> (r: State)
    requires
        lower.wf(),
        upper.wf(),
        stackable(opt_part(lower.output) + opt_part(upper.output)),
    ensures
        r.output matches Some(o) && diff_of(o, lower.output, upper.output),
        r.env@.len() == 0,
        r.cwd@.len() == 0,
{
    let l = match &lower.output {
        Some(o) => Some(clone_output(o)),
        None => None,
    };
    let u = match &upper.output {
        Some(o) => Some(clone_output(o)),
        None => None,
    };
    let ghost (lg, ug) = (l, u);
    proof {
        let a = opt_part(lower.output) + opt_part(upper.output);
        let b = opt_part(lg) + opt_part(ug);
        assert(a.len() == b.len());
        assert forall|k: int| 0 <= k < a.len() implies (#[trigger] a[k]).nodes@.len() == b[k].nodes@.len()
            && b[k].wf() by {}
        crate::llb::graph::lemma_offset_same_lens(a, b, a.len() as int);
    }
    let d = Diff::new(l, u);
    let o = d.output();
    assert(same_output(lg, lower.output));
    assert(same_output(ug, upper.output));
    assert(crate::llb::ops::diff_graph(o, lg, ug, None));
    assert(diff_of(o, lower.output, upper.output));
    State::from_output(o)
}

/// A copy operation: `src_path` of `src` to `dest_path` of the state it is
/// applied to; mode and timestamp unset (-1), every flag off.
pub fn copy(src: &State, src_path: &str, dest_path: &str) -> (r: CopyOp)
    requires
        src.wf(),
        src.output is Some,
    ensures
        r.src.wf(),
        same_output(Some(r.src), src.output),
        r.action.src@ == src_path@,
        r.action.dest@ == dest_path@,
        r.action.owner is None,
        r.action.mode == -1,
        !r.action.follow_symlink,
        !r.action.dir_copy_contents,
        !r.action.attempt_unpack_docker_compatibility,
        !r.action.create_dest_path,
        !r.action.allow_wildcard,
        !r.action.allow_empty_wildcard,
        r.action.timestamp == -1,
        r.action.include_patterns@.len() == 0,
        r.action.exclude_patterns@.len() == 0,
        !r.action.always_replace_existing_dest_paths,
        r.custom_name is None,
{
    let o = clone_output(src.output.as_ref().unwrap());
    CopyOp {
        src: o,
        action: CopyAction {
            src: owned(src_path),
            dest: owned(dest_path),
            owner: None,
            mode: -1,
            follow_symlink: false,
            dir_copy_contents: false,
            attempt_unpack_docker_compatibility: false,
            create_dest_path: false,
            allow_wildcard: false,
            allow_empty_wildcard: false,
            timestamp: -1,
            include_patterns: Vec::new(),
            exclude_patterns: Vec::new(),
            always_replace_existing_dest_paths: false,
        },
        custom_name: None,
    }
}

/// A mkdir operation: `path` with `mode`, no parents, timestamp unset.
pub fn mkdir(path: &str, mode: i32) -> (r: MkdirOp)
    ensures
        r.action.path@ == path@,
        r.action.mode == mode,
        !r.action.make_parents,
        r.action.owner is None,
        r.action.timestamp == -1,
        r.custom_name is None,
{
    MkdirOp {
        action: MkDirAction { path: owned(path), mode, make_parents: false, owner: None, timestamp: -1 },
        custom_name: None,
    }
}

/// A mkfile operation: `path` with `mode` holding `data`, timestamp unset.
pub fn mkfile(path: &str, mode: i32, data: Vec<u8>) -> (r: MkFileOp)
    ensures
        r.action.path@ == path@,
        r.action.mode == mode,
        r.action.data == data,
        r.action.owner is None,
        r.action.timestamp == -1,
        r.custom_name is None,
{
    MkFileOp { action: MkFileAction { path: owned(path), mode, data, owner: None, timestamp: -1 }, custom_name: None }
}

/// A remove operation for `path`.
pub fn rm(path: &str) -> (r: RmOp)
    ensures
        r.action.path@ == path@,
        !r.action.allow_not_found,
        !r.action.allow_wildcard,
        r.custom_name is None,
{
    RmOp { action: RmAction { path: owned(path), allow_not_found: false, allow_wildcard: false }, custom_name: None }
}

/// A symlink operation: `newpath` pointing at `oldpath`, timestamp unset.
pub fn symlink(oldpath: &str, newpath: &str) -> (r: SymlinkOp)
    ensures
        r.action.oldpath@ == oldpath@,
        r.action.newpath@ == newpath@,
        r.action.owner is None,
        r.action.timestamp == -1,
        r.custom_name is None,
{
    SymlinkOp {
        action: SymlinkAction { oldpath: owned(oldpath), newpath: owned(newpath), owner: None, timestamp: -1 },
        custom_name: None,
    }
}

} // verus!
