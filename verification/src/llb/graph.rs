//! Build graphs as sequences of nodes, and their serialization into an LLB
//! `Definition`.
//!
//! A graph lists its nodes so that every input of a node refers to an earlier
//! node; the last node is the graph's root. The digest of a node is the
//! digest of its encoded `Op`, which names the digests of its inputs, so a
//! node's digest is fixed by the part of the graph below it. Nodes with equal
//! digests are sent once.
use crate::digest::{digest_bytes, digest_of};
use crate::llb::pb::{enc_op_body, put_op_body, OpPb};
use crate::wire::{
    bytes_field, int_field, len_delim, put_bytes_field, put_int_field, put_len_delim, put_str_field,
    str_field,
};
use std::sync::Arc;
use vstd::prelude::*;

verus! {

/// A reference to one output of a node of a graph.
#[derive(Clone, Copy, PartialEq, Eq, Structural, Debug)]
pub struct OutputRef {
    pub node: usize,
    pub output: u32,
}

/// What a node holds besides its inputs: the operation and its display name.
pub struct NodeBody {
    pub op: OpPb,
    pub custom_name: Option<String>,
}

/// A node of a graph: the outputs it reads, in the order of the operation's
/// inputs, and its operation.
pub struct LlbNode {
    pub inputs: Vec<OutputRef>,
    pub body: Arc<NodeBody>,
}

/// One output of an operation, together with the graph that produces it:
/// output `index` of the graph's last node.
pub struct OperationOutput {
    pub nodes: Vec<LlbNode>,
    pub index: u32,
}

/// Every input of a node refers to an earlier node.
pub open spec fn wf_nodes(ns: Seq<LlbNode>) -> bool {
    forall|i: int, k: int|
        0 <= i < ns.len() && 0 <= k < ns[i].inputs@.len() ==> #[trigger] ns[i].inputs@[k].node < i
}

impl OperationOutput {
    pub open spec fn wf(&self) -> bool {
        self.nodes@.len() > 0 && wf_nodes(self.nodes@)
    }

    /// The position of the root node.
    pub open spec fn root(&self) -> int {
        self.nodes@.len() - 1
    }
}

/// `a` is `b` with every input moved up by `off` nodes.
pub open spec fn shifted(a: LlbNode, b: LlbNode, off: int) -> bool {
    &&& a.body == b.body
    &&& a.inputs@.len() == b.inputs@.len()
    &&& forall|k: int|
        0 <= k < a.inputs@.len() ==> (#[trigger] a.inputs@[k]).node == b.inputs@[k].node + off
            && a.inputs@[k].output == b.inputs@[k].output
}

/// From position `off` on, `g` holds the nodes of `part`, shifted by `off`.
pub open spec fn embeds(g: Seq<LlbNode>, off: int, part: Seq<LlbNode>) -> bool {
    &&& 0 <= off
    &&& off + part.len() <= g.len()
    &&& forall|i: int| 0 <= i < part.len() ==> shifted(#[trigger] g[off + i], part[i], off)
}

/// The reference to the result of an output once its graph sits at `off`.
pub open spec fn root_ref(o: OperationOutput, off: int) -> OutputRef {
    OutputRef { node: (off + o.nodes@.len() - 1) as usize, output: o.index }
}

/// A shared handle to the same body (std's `Arc::clone`).
#[verifier::external_body]
pub(crate) fn share_body(b: &Arc<NodeBody>) -> (r: Arc<NodeBody>)
    ensures
        r == *b,
{
    Arc::clone(b)
}

/// A copy of `n` with every input moved up by `off` nodes.
pub fn shift_node(n: &LlbNode, off: usize) -> (r: LlbNode)
    requires
        forall|k: int| 0 <= k < n.inputs@.len() ==> n.inputs@[k].node + off <= usize::MAX,
    ensures
        shifted(r, *n, off as int),
{
    let mut inputs: Vec<OutputRef> = Vec::new();
    let m = n.inputs.len();
    let mut k: usize = 0;
    while k < m
        invariant
            m == n.inputs@.len(),
            k <= m,
            inputs@.len() == k,
            forall|k: int| 0 <= k < n.inputs@.len() ==> n.inputs@[k].node + off <= usize::MAX,
            forall|j: int|
                0 <= j < k ==> (#[trigger] inputs@[j]).node == n.inputs@[j].node + off
                    && inputs@[j].output == n.inputs@[j].output,
        decreases m - k,
    {
        let r = n.inputs[k];
        inputs.push(OutputRef { node: r.node + off, output: r.output });
        k = k + 1;
    }
    LlbNode { inputs, body: share_body(&n.body) }
}

/// Appends the nodes of `o` to `dst`, shifted past the nodes already there,
/// and returns the reference to `o`'s result.
pub fn append_output(dst: &mut Vec<LlbNode>, o: &OperationOutput) -> (r: OutputRef)
    requires
        o.wf(),
        wf_nodes(old(dst)@),
        old(dst)@.len() + o.nodes@.len() <= usize::MAX,
    ensures
        final(dst)@.len() == old(dst)@.len() + o.nodes@.len(),
        final(dst)@.subrange(0, old(dst)@.len() as int) == old(dst)@,
        embeds(final(dst)@, old(dst)@.len() as int, o.nodes@),
        wf_nodes(final(dst)@),
        r == root_ref(*o, old(dst)@.len() as int),
        r.node < final(dst)@.len(),
{
    let ghost init = dst@;
    let off = dst.len();
    let n = o.nodes.len();
    let mut i: usize = 0;
    while i < n
        invariant
            n == o.nodes@.len(),
            off == init.len(),
            off + n <= usize::MAX,
            i <= n,
            o.wf(),
            wf_nodes(init),
            dst@.len() == off + i,
            dst@.subrange(0, off as int) == init,
            forall|j: int| 0 <= j < i ==> shifted(#[trigger] dst@[off + j], o.nodes@[j], off as int),
            wf_nodes(dst@),
        decreases n - i,
    {
        let ghost before = dst@;
        let node = shift_node(&o.nodes[i], off);
        dst.push(node);
        assert(dst@.subrange(0, off as int) =~= init);
        assert forall|j: int| 0 <= j < i + 1 implies shifted(
            #[trigger] dst@[off + j],
            o.nodes@[j],
            off as int,
        ) by {
            if j < i {
                assert(dst@[off + j] == before[off + j]);
            }
        }
        assert forall|a: int, k: int|
            0 <= a < dst@.len() && 0 <= k < dst@[a].inputs@.len() implies #[trigger] dst@[a].inputs@[k].node
            < a by {
            if a < dst@.len() - 1 {
                assert(dst@[a] == before[a]);
            } else {
                assert(o.nodes@[i as int].inputs@[k].node < i);
            }
        }
        i = i + 1;
    }
    assert(embeds(dst@, off as int, o.nodes@)) by {
        assert forall|j: int| 0 <= j < o.nodes@.len() implies shifted(
            #[trigger] dst@[off + j],
            o.nodes@[j],
            off as int,
        ) by {}
    }
    OutputRef { node: off + n - 1, output: o.index }
}

/// A copy of an output and its graph.
pub fn clone_output(o: &OperationOutput) -> (r: OperationOutput)
    requires
        o.wf(),
    ensures
        r.wf(),
        r.index == o.index,
        r.nodes@.len() == o.nodes@.len(),
        embeds(r.nodes@, 0, o.nodes@),
{
    let mut nodes: Vec<LlbNode> = Vec::new();
    let _n = o.nodes.len();
    let _ = append_output(&mut nodes, o);
    OperationOutput { nodes, index: o.index }
}

/// The outputs that a sequence of references points to.
pub open spec fn derefs(ps: Seq<&OperationOutput>) -> Seq<OperationOutput> {
    ps.map_values(|p: &OperationOutput| *p)
}

/// The number of nodes in the graphs of the first `k` outputs.
pub open spec fn offset_of(parts: Seq<OperationOutput>, k: int) -> int
    decreases k,
{
    if k <= 0 || k > parts.len() {
        0
    } else {
        offset_of(parts, k - 1) + parts[k - 1].nodes@.len()
    }
}

/// Every output is well formed and together with one more node their graphs
/// fit in memory.
pub open spec fn stackable(parts: Seq<OperationOutput>) -> bool {
    &&& forall|k: int| 0 <= k < parts.len() ==> (#[trigger] parts[k]).wf()
    &&& offset_of(parts, parts.len() as int) + 1 <= usize::MAX
    &&& offset_of(parts, parts.len() as int) + 1 <= i64::MAX
}

/// Every well-formed graph has a node, so there are no more outputs than
/// nodes.
pub proof fn lemma_parts_le_offset(parts: Seq<OperationOutput>, k: int)
    requires
        0 <= k <= parts.len(),
        forall|j: int| 0 <= j < parts.len() ==> (#[trigger] parts[j]).wf(),
    ensures
        k <= offset_of(parts, k),
    decreases k,
{
    if k > 0 {
        lemma_parts_le_offset(parts, k - 1);
        assert(parts[k - 1].wf());
    }
}

/// `g` holds the graphs of `parts` one after another, each shifted to where
/// it starts, and then one node that reads their results in order.
pub open spec fn stacked(g: Seq<LlbNode>, parts: Seq<OperationOutput>) -> bool {
    &&& g.len() == offset_of(parts, parts.len() as int) + 1
    &&& forall|k: int| 0 <= k < parts.len() ==> embeds(g, offset_of(parts, k), (#[trigger] parts[k]).nodes@)
    &&& g.last().inputs@ == Seq::new(parts.len(), |k: int| root_ref(parts[k], offset_of(parts, k)))
}

/// Offsets depend only on the sizes of the graphs.
pub proof fn lemma_offset_same_lens(a: Seq<OperationOutput>, b: Seq<OperationOutput>, k: int)
    requires
        a.len() == b.len(),
        0 <= k <= a.len(),
        forall|j: int| 0 <= j < a.len() ==> (#[trigger] a[j]).nodes@.len() == b[j].nodes@.len(),
    ensures
        offset_of(a, k) == offset_of(b, k),
    decreases k,
{
    if k > 0 {
        lemma_offset_same_lens(a, b, k - 1);
    }
}

proof fn lemma_offset_mono(parts: Seq<OperationOutput>, j: int, k: int)
    requires
        0 <= j <= k <= parts.len(),
    ensures
        offset_of(parts, j) <= offset_of(parts, k),
    decreases k - j,
{
    if j < k {
        lemma_offset_mono(parts, j, k - 1);
    }
}

/// The graphs of `parts` one after another, each shifted to where it starts,
/// and the references to their results.
pub fn stack_parts(parts: &Vec<&OperationOutput>) -> (r: (Vec<LlbNode>, Vec<OutputRef>))
    requires
        stackable(derefs(parts@)),
    ensures
        wf_nodes(r.0@),
        r.0@.len() == offset_of(derefs(parts@), parts@.len() as int),
        forall|j: int|
            0 <= j < parts@.len() ==> embeds(r.0@, offset_of(derefs(parts@), j), (#[trigger] derefs(parts@)[j]).nodes@),
        r.1@ == Seq::new(parts@.len(), |j: int| root_ref(derefs(parts@)[j], offset_of(derefs(parts@), j))),
        forall|j: int| 0 <= j < r.1@.len() ==> (#[trigger] r.1@[j]).node < r.0@.len(),
{
    let mut nodes: Vec<LlbNode> = Vec::new();
    let mut refs: Vec<OutputRef> = Vec::new();
    let n = parts.len();
    let mut k: usize = 0;
    while k < n
        invariant
            n == parts@.len(),
            k <= n,
            stackable(derefs(parts@)),
            wf_nodes(nodes@),
            nodes@.len() == offset_of(derefs(parts@), k as int),
            forall|j: int| 0 <= j < k ==> embeds(nodes@, offset_of(derefs(parts@), j), (#[trigger] derefs(parts@)[j]).nodes@),
            refs@ == Seq::new(k as nat, |j: int| root_ref(derefs(parts@)[j], offset_of(derefs(parts@), j))),
            forall|j: int| 0 <= j < k ==> (#[trigger] refs@[j]).node < nodes@.len(),
        decreases n - k,
    {
        proof {
            lemma_offset_mono(derefs(parts@), k + 1, n as int);
        }
        let ghost before = nodes@;
        let part: &OperationOutput = parts[k];
        let r = append_output(&mut nodes, part);
        assert forall|j: int| 0 <= j < k + 1 implies embeds(
            nodes@,
            offset_of(derefs(parts@), j),
            (#[trigger] derefs(parts@)[j]).nodes@,
        ) by {
            if j < k {
                lemma_offset_mono(derefs(parts@), j + 1, k as int);
                let off = offset_of(derefs(parts@), j);
                assert forall|i: int| 0 <= i < derefs(parts@)[j].nodes@.len() implies shifted(
                    #[trigger] nodes@[off + i],
                    derefs(parts@)[j].nodes@[i],
                    off,
                ) by {
                    assert(nodes@.subrange(0, before.len() as int)[off + i] == before[off + i]);
                    assert(shifted(before[off + i], derefs(parts@)[j].nodes@[i], off));
                }
            }
        }
        refs.push(r);
        assert(refs@ =~= Seq::new((k + 1) as nat, |j: int| root_ref(derefs(parts@)[j], offset_of(derefs(parts@), j))));
        k = k + 1;
    }
    (nodes, refs)
}

/// Puts one node on top of stacked graphs: it reads `refs`, in order, with
/// operation `op`. The result is output 0 of that node.
pub fn finish_stack(
    nodes: Vec<LlbNode>,
    refs: Vec<OutputRef>,
    op: OpPb,
    custom_name: Option<String>,
) -> (r: OperationOutput)
    requires
        wf_nodes(nodes@),
        nodes@.len() + 1 <= usize::MAX,
        forall|j: int| 0 <= j < refs@.len() ==> (#[trigger] refs@[j]).node < nodes@.len(),
    ensures
        r.wf(),
        r.index == 0,
        r.nodes@.len() == nodes@.len() + 1,
        r.nodes@.subrange(0, nodes@.len() as int) == nodes@,
        r.nodes@.last().inputs@ == refs@,
        r.nodes@.last().body.op == op,
        r.nodes@.last().body.custom_name == custom_name,
{
    let ghost base = nodes@;
    let mut nodes = nodes;
    nodes.push(LlbNode { inputs: refs, body: Arc::new(NodeBody { op, custom_name }) });
    assert(nodes@.subrange(0, base.len() as int) =~= base);
    assert forall|a: int, q: int|
        0 <= a < nodes@.len() && 0 <= q < nodes@[a].inputs@.len() implies #[trigger] nodes@[a].inputs@[q].node
        < a by {
        if a < base.len() {
            assert(nodes@[a] == base[a]);
        }
    }
    OperationOutput { nodes, index: 0 }
}

/// Embedding survives appending nodes after the embedded part.
pub proof fn lemma_embeds_prefix(g: Seq<LlbNode>, h: Seq<LlbNode>, off: int, part: Seq<LlbNode>)
    requires
        embeds(g, off, part),
        g.len() <= h.len(),
        h.subrange(0, g.len() as int) == g,
    ensures
        embeds(h, off, part),
{
    assert forall|i: int| 0 <= i < part.len() implies shifted(#[trigger] h[off + i], part[i], off) by {
        assert(h.subrange(0, g.len() as int)[off + i] == h[off + i]);
    }
}

/// The graph made of the graphs of `parts` and one node on top that reads
/// their results, in order, with operation `op`; its output 0.
pub fn stack(parts: &Vec<&OperationOutput>, op: OpPb, custom_name: Option<String>) -> (r:
    OperationOutput)
    requires
        stackable(derefs(parts@)),
    ensures
        r.wf(),
        r.index == 0,
        stacked(r.nodes@, derefs(parts@)),
        r.nodes@.last().body.op == op,
        r.nodes@.last().body.custom_name == custom_name,
{
    let (nodes, refs) = stack_parts(parts);
    let ghost base = nodes@;
    let r = finish_stack(nodes, refs, op, custom_name);
    assert forall|j: int| 0 <= j < parts@.len() implies embeds(r.nodes@, offset_of(derefs(parts@), j), (
    #[trigger] derefs(parts@)[j]).nodes@) by {
        lemma_embeds_prefix(base, r.nodes@, offset_of(derefs(parts@), j), derefs(parts@)[j].nodes@);
    }
    r
}

// ------------------------------------------------------------------
// Serialization
// ------------------------------------------------------------------

/// The `inputs` of an `Op`: for each referenced output, the digest of its
/// node and the output's index.
pub open spec fn enc_inputs(refs: Seq<OutputRef>, ds: Seq<Seq<u8>>) -> Seq<u8>
    decreases refs.len(),
{
    if refs.len() == 0 {
        Seq::empty()
    } else {
        enc_inputs(refs.drop_last(), ds) + len_delim(
            1,
            bytes_field(1, ds[refs.last().node as int]) + int_field(2, refs.last().output as int),
        )
    }
}

/// The encoded `Op` of a node, given the digests of the nodes before it.
pub open spec fn enc_node(n: LlbNode, ds: Seq<Seq<u8>>) -> Seq<u8> {
    enc_inputs(n.inputs@, ds) + enc_op_body(n.body.op)
}

/// The digests of the first `k` nodes.
pub open spec fn digest_table(ns: Seq<LlbNode>, k: nat) -> Seq<Seq<u8>>
    decreases k,
{
    if k == 0 {
        Seq::empty()
    } else {
        let t = digest_table(ns, (k - 1) as nat);
        t.push(digest_of(enc_node(ns[k - 1], t)))
    }
}

/// The digests of all the nodes of a graph.
pub open spec fn digests(ns: Seq<LlbNode>) -> Seq<Seq<u8>> {
    digest_table(ns, ns.len())
}

/// No earlier node has the digest of node `i`.
pub open spec fn first_of_digest(ds: Seq<Seq<u8>>, i: int) -> bool {
    forall|j: int| 0 <= j < i ==> ds[j] != ds[i]
}

/// The ASCII key of a display name in an operation's description.
pub open spec fn custom_name_key() -> Seq<char> {
    seq!['l', 'l', 'b', '.', 'c', 'u', 's', 't', 'o', 'm', 'n', 'a', 'm', 'e']
}

/// The encoded `OpMetadata` of a node: its display name, if any, under
/// `llb.customname` in the description map.
pub open spec fn enc_metadata(name: Option<String>) -> Seq<u8> {
    match name {
        Some(s) => len_delim(2, str_field(1, custom_name_key()) + str_field(2, s@)),
        None => Seq::empty(),
    }
}

/// A metadata map entry: the digest, and the metadata unless it is empty.
pub open spec fn metadata_entry(d: Seq<u8>, meta: Seq<u8>) -> Seq<u8> {
    len_delim(2, bytes_field(1, d) + bytes_field(2, meta))
}

/// The `def` entries of the first `k` nodes, each digest once.
pub open spec fn def_entries(ns: Seq<LlbNode>, ds: Seq<Seq<u8>>, k: nat) -> Seq<u8>
    decreases k,
{
    if k == 0 {
        Seq::empty()
    } else {
        def_entries(ns, ds, (k - 1) as nat) + if first_of_digest(ds, k - 1) {
            len_delim(1, enc_node(ns[k - 1], ds))
        } else {
            Seq::empty()
        }
    }
}

/// The `metadata` entries of the first `k` nodes, each digest once.
pub open spec fn meta_entries(ns: Seq<LlbNode>, ds: Seq<Seq<u8>>, k: nat) -> Seq<u8>
    decreases k,
{
    if k == 0 {
        Seq::empty()
    } else {
        meta_entries(ns, ds, (k - 1) as nat) + if first_of_digest(ds, k - 1) {
            metadata_entry(ds[k - 1], enc_metadata(ns[k - 1].body.custom_name))
        } else {
            Seq::empty()
        }
    }
}

/// The terminal `Op` of a definition: no operation, one input, the output.
pub open spec fn final_op(o: OperationOutput) -> Seq<u8> {
    let ds = digests(o.nodes@);
    len_delim(1, bytes_field(1, ds[o.root()]) + int_field(2, o.index as int))
}

/// The encoded `Definition` of an output: the operations of its graph, each
/// digest once in the order of the graph, then the terminal operation; then
/// the metadata of each of them by digest.
pub open spec fn definition_of(o: OperationOutput) -> Seq<u8> {
    let ns = o.nodes@;
    let ds = digests(ns);
    def_entries(ns, ds, ns.len()) + len_delim(1, final_op(o)) + meta_entries(ns, ds, ns.len())
        + metadata_entry(digest_of(final_op(o)), Seq::empty())
}

/// A `Definition` names the output of its graph that it builds: two
/// outputs of the same graph serialize alike only when they are the same
/// output (the root filesystem of a command and one of its mounts, say,
/// give different definitions).
pub proof fn lemma_definition_names_output(a: OperationOutput, b: OperationOutput)
    requires
        a.nodes@ == b.nodes@,
        definition_of(a) == definition_of(b),
    ensures
        a.index == b.index,
{
    let ns = a.nodes@;
    let ds = digests(ns);
    let d = def_entries(ns, ds, ns.len());
    let m = meta_entries(ns, ds, ns.len());
    let fa = final_op(a);
    let fb = final_op(b);
    let ea = m + metadata_entry(digest_of(fa), Seq::empty());
    let eb = m + metadata_entry(digest_of(fb), Seq::empty());
    assert(definition_of(a) =~= d + (len_delim(1, fa) + ea));
    assert(definition_of(b) =~= d + (len_delim(1, fb) + eb));
    assert(len_delim(1, fa) + ea =~= definition_of(a).subrange(d.len() as int, definition_of(a).len() as int));
    assert(len_delim(1, fb) + eb =~= definition_of(b).subrange(d.len() as int, definition_of(b).len() as int));
    crate::wire::lemma_len_delim_prefix(1, fa, ea, fb, eb);
    let ia = bytes_field(1, ds[a.root()]) + int_field(2, a.index as int);
    let ib = bytes_field(1, ds[b.root()]) + int_field(2, b.index as int);
    assert(fa =~= len_delim(1, ia) + Seq::<u8>::empty());
    assert(fb =~= len_delim(1, ib) + Seq::<u8>::empty());
    crate::wire::lemma_len_delim_prefix(1, ia, Seq::empty(), ib, Seq::empty());
    let k = bytes_field(1, ds[a.root()]).len() as int;
    assert(int_field(2, a.index as int) =~= ia.subrange(k, ia.len() as int));
    assert(int_field(2, b.index as int) =~= ib.subrange(k, ib.len() as int));
    crate::wire::lemma_int_field_injective(2, a.index as int, b.index as int);
}

pub proof fn lemma_digest_table_len(ns: Seq<LlbNode>, k: nat)
    ensures
        digest_table(ns, k).len() == k,
    decreases k,
{
    if k > 0 {
        lemma_digest_table_len(ns, (k - 1) as nat);
    }
}

/// A shorter table is a prefix of a longer one.
pub proof fn lemma_digest_table_prefix(ns: Seq<LlbNode>, k: nat, m: nat)
    requires
        k <= m,
    ensures
        digest_table(ns, m).subrange(0, k as int) == digest_table(ns, k),
    decreases m,
{
    lemma_digest_table_len(ns, k);
    lemma_digest_table_len(ns, m);
    if k < m {
        lemma_digest_table_prefix(ns, k, (m - 1) as nat);
        lemma_digest_table_len(ns, (m - 1) as nat);
        assert(digest_table(ns, m).subrange(0, k as int) =~= digest_table(ns, (m - 1) as nat).subrange(
            0,
            k as int,
        ));
    } else {
        assert(digest_table(ns, m).subrange(0, k as int) =~= digest_table(ns, k));
    }
}

/// Equal prefixes of the digest table encode the inputs of a node alike.
proof fn lemma_enc_inputs_prefix(refs: Seq<OutputRef>, a: Seq<Seq<u8>>, b: Seq<Seq<u8>>)
    requires
        forall|k: int| 0 <= k < refs.len() ==> a[(#[trigger] refs[k]).node as int] == b[refs[k].node as int],
    ensures
        enc_inputs(refs, a) == enc_inputs(refs, b),
    decreases refs.len(),
{
    if refs.len() > 0 {
        assert forall|k: int| 0 <= k < refs.drop_last().len() implies a[(
        #[trigger] refs.drop_last()[k]).node as int] == b[refs.drop_last()[k].node as int] by {
            assert(refs.drop_last()[k] == refs[k]);
        }
        lemma_enc_inputs_prefix(refs.drop_last(), a, b);
        assert(refs.last() == refs[refs.len() - 1]);
    }
}

/// Inputs that read equal digests and equal outputs encode alike.
proof fn lemma_enc_inputs_match(ra: Seq<OutputRef>, a: Seq<Seq<u8>>, rb: Seq<OutputRef>, b: Seq<Seq<u8>>)
    requires
        ra.len() == rb.len(),
        forall|k: int|
            0 <= k < ra.len() ==> (#[trigger] ra[k]).output == rb[k].output && a[ra[k].node as int]
                == b[rb[k].node as int],
    ensures
        enc_inputs(ra, a) == enc_inputs(rb, b),
    decreases ra.len(),
{
    if ra.len() > 0 {
        assert forall|k: int| 0 <= k < ra.drop_last().len() implies (#[trigger] ra.drop_last()[k]).output
            == rb.drop_last()[k].output && a[ra.drop_last()[k].node as int] == b[rb.drop_last()[k].node as int] by {
            assert(ra.drop_last()[k] == ra[k]);
            assert(rb.drop_last()[k] == rb[k]);
        }
        lemma_enc_inputs_match(ra.drop_last(), a, rb.drop_last(), b);
        assert(ra.last() == ra[ra.len() - 1]);
        assert(rb.last() == rb[rb.len() - 1]);
    }
}

/// A graph keeps the digests of every graph it embeds: the operations of a
/// state are the same operations, under the same digests, once the state
/// is an input of another one (a merge, a diff, a copy, a mount).
pub proof fn lemma_embedded_digests(g: Seq<LlbNode>, off: int, part: Seq<LlbNode>, i: int)
    requires
        wf_nodes(part),
        embeds(g, off, part),
        0 <= i < part.len(),
    ensures
        digests(g)[off + i] == digests(part)[i],
    decreases i,
{
    let tg = digest_table(g, (off + i) as nat);
    let tp = digest_table(part, i as nat);
    lemma_digest_table_len(g, (off + i) as nat);
    lemma_digest_table_len(part, i as nat);
    lemma_digest_table_len(g, g.len());
    lemma_digest_table_len(part, part.len());
    lemma_digest_table_prefix(g, (off + i + 1) as nat, g.len());
    lemma_digest_table_prefix(part, (i + 1) as nat, part.len());
    lemma_digest_table_prefix(g, (off + i) as nat, g.len());
    lemma_digest_table_prefix(part, i as nat, part.len());
    assert(digests(g)[off + i] == digest_table(g, (off + i + 1) as nat)[off + i]);
    assert(digests(part)[i] == digest_table(part, (i + 1) as nat)[i]);
    let a = g[off + i];
    let b = part[i];
    assert(shifted(a, b, off));
    assert forall|k: int| 0 <= k < a.inputs@.len() implies (#[trigger] a.inputs@[k]).output
        == b.inputs@[k].output && tg[a.inputs@[k].node as int] == tp[b.inputs@[k].node as int] by {
        let j = b.inputs@[k].node as int;
        assert(part[i].inputs@[k].node < i);
        assert(a.inputs@[k].node == j + off);
        lemma_embedded_digests(g, off, part, j);
        assert(tg[off + j] == digests(g)[off + j]);
        assert(tp[j] == digests(part)[j]);
    }
    lemma_enc_inputs_match(a.inputs@, tg, b.inputs@, tp);
}

/// A node's digest is the digest of its encoded operation, the same each
/// time the node is encoded, and begins with `sha256:`.
pub proof fn lemma_node_digest(ns: Seq<LlbNode>, i: int)
    requires
        0 <= i < ns.len(),
    ensures
        digests(ns)[i] == digest_of(enc_node(ns[i], digest_table(ns, i as nat))),
        digests(ns)[i].subrange(0, 7) == crate::digest::digest_prefix(),
{
    lemma_digest_table_len(ns, ns.len());
    lemma_digest_table_len(ns, i as nat);
    lemma_digest_table_prefix(ns, (i + 1) as nat, ns.len());
    assert(digests(ns)[i] == digest_table(ns, (i + 1) as nat)[i]);
    assert(digests(ns)[i].subrange(0, 7) =~= crate::digest::digest_prefix());
}

/// An operation reached twice is serialized once: when a graph holds two
/// copies of the same input, each node of the later copy repeats the digest
/// of its twin in the earlier one, so it adds no entry to the `Definition`.
pub proof fn lemma_repeated_input_serialized_once(
    g: Seq<LlbNode>,
    first: int,
    second: int,
    part: Seq<LlbNode>,
    i: int,
)
    requires
        wf_nodes(part),
        embeds(g, first, part),
        embeds(g, second, part),
        first < second,
        0 <= i < part.len(),
    ensures
        !first_of_digest(digests(g), second + i),
{
    lemma_embedded_digests(g, first, part, i);
    lemma_embedded_digests(g, second, part, i);
    assert(digests(g)[first + i] == digests(g)[second + i]);
}

/// Two graphs, one a copy of the other, have the same digests.
pub proof fn lemma_copy_digests(a: Seq<LlbNode>, b: Seq<LlbNode>)
    requires
        wf_nodes(b),
        a.len() == b.len(),
        embeds(a, 0, b),
    ensures
        digests(a) == digests(b),
{
    lemma_digest_table_len(a, a.len());
    lemma_digest_table_len(b, b.len());
    assert forall|i: int| 0 <= i < a.len() implies #[trigger] digests(a)[i] == digests(b)[i] by {
        lemma_embedded_digests(a, 0, b, i);
    }
    assert(digests(a) =~= digests(b));
}

/// The `def` and `metadata` entries of a graph and of a copy of it agree.
proof fn lemma_copy_entries(a: Seq<LlbNode>, b: Seq<LlbNode>, ds: Seq<Seq<u8>>, k: nat)
    requires
        a.len() == b.len(),
        embeds(a, 0, b),
        k <= a.len(),
    ensures
        def_entries(a, ds, k) == def_entries(b, ds, k),
        meta_entries(a, ds, k) == meta_entries(b, ds, k),
    decreases k,
{
    if k > 0 {
        lemma_copy_entries(a, b, ds, (k - 1) as nat);
        let x = a[k - 1];
        let y = b[k - 1];
        assert(shifted(a[0 + (k - 1)], b[k - 1], 0));
        assert forall|j: int| 0 <= j < x.inputs@.len() implies (#[trigger] x.inputs@[j]).output
            == y.inputs@[j].output && ds[x.inputs@[j].node as int] == ds[y.inputs@[j].node as int] by {
        }
        lemma_enc_inputs_match(x.inputs@, ds, y.inputs@, ds);
        assert(enc_node(x, ds) == enc_node(y, ds));
    }
}

/// A copy of an output serializes to the same `Definition`: the same
/// operations under the same digests, the same result.
pub proof fn lemma_copy_definition(a: OperationOutput, b: OperationOutput)
    requires
        b.wf(),
        a.index == b.index,
        a.nodes@.len() == b.nodes@.len(),
        embeds(a.nodes@, 0, b.nodes@),
    ensures
        definition_of(a) == definition_of(b),
{
    lemma_copy_digests(a.nodes@, b.nodes@);
    let ds = digests(b.nodes@);
    lemma_copy_entries(a.nodes@, b.nodes@, ds, a.nodes@.len());
}

/// Two nodes that serialize alike: the same inputs, the same encoded
/// operation, the same display name.
pub open spec fn alike(a: LlbNode, b: LlbNode) -> bool {
    &&& a.inputs@ == b.inputs@
    &&& enc_op_body(a.body.op) == enc_op_body(b.body.op)
    &&& a.body.custom_name == b.body.custom_name
}

/// Graphs whose nodes serialize alike have the same digests.
proof fn lemma_alike_digest_table(a: Seq<LlbNode>, b: Seq<LlbNode>, k: nat)
    requires
        a.len() == b.len(),
        k <= a.len(),
        forall|j: int| 0 <= j < a.len() ==> alike(#[trigger] a[j], b[j]),
    ensures
        digest_table(a, k) == digest_table(b, k),
    decreases k,
{
    if k > 0 {
        lemma_alike_digest_table(a, b, (k - 1) as nat);
        assert(alike(a[k - 1], b[k - 1]));
    }
}

/// The `def` and `metadata` entries of graphs whose nodes serialize alike
/// agree.
proof fn lemma_alike_entries(a: Seq<LlbNode>, b: Seq<LlbNode>, ds: Seq<Seq<u8>>, k: nat)
    requires
        a.len() == b.len(),
        k <= a.len(),
        forall|j: int| 0 <= j < a.len() ==> alike(#[trigger] a[j], b[j]),
    ensures
        def_entries(a, ds, k) == def_entries(b, ds, k),
        meta_entries(a, ds, k) == meta_entries(b, ds, k),
    decreases k,
{
    if k > 0 {
        lemma_alike_entries(a, b, ds, (k - 1) as nat);
        assert(alike(a[k - 1], b[k - 1]));
    }
}

/// Outputs whose graphs serialize node by node alike serialize to the same
/// `Definition`.
pub proof fn lemma_alike_definition(a: OperationOutput, b: OperationOutput)
    requires
        a.index == b.index,
        a.nodes@.len() == b.nodes@.len(),
        forall|j: int| 0 <= j < a.nodes@.len() ==> alike(#[trigger] a.nodes@[j], b.nodes@[j]),
    ensures
        definition_of(a) == definition_of(b),
{
    lemma_alike_digest_table(a.nodes@, b.nodes@, a.nodes@.len());
    lemma_alike_entries(a.nodes@, b.nodes@, digests(a.nodes@), a.nodes@.len());
}

/// Every node before the last one of a stack lies in the graph of one of
/// the parts.
pub proof fn lemma_position_in_part(parts: Seq<OperationOutput>, n: int, j: int) -> (r: (int, int))
    requires
        0 <= n <= parts.len(),
        0 <= j < offset_of(parts, n),
    ensures
        0 <= r.0 < n,
        0 <= r.1 < parts[r.0].nodes@.len(),
        j == offset_of(parts, r.0) + r.1,
    decreases n,
{
    if j >= offset_of(parts, n - 1) {
        (n - 1, j - offset_of(parts, n - 1))
    } else {
        lemma_position_in_part(parts, n - 1, j)
    }
}

/// Two stacks of the same parts serialize alike below their last node.
pub proof fn lemma_stacks_alike(g: Seq<LlbNode>, h: Seq<LlbNode>, parts: Seq<OperationOutput>, j: int)
    requires
        stacked(g, parts),
        stacked(h, parts),
        0 <= j < g.len() - 1,
    ensures
        alike(g[j], h[j]),
{
    let (k, i) = lemma_position_in_part(parts, parts.len() as int, j);
    let off = offset_of(parts, k);
    assert(embeds(g, off, parts[k].nodes@));
    assert(embeds(h, off, parts[k].nodes@));
    assert(shifted(g[off + i], parts[k].nodes@[i], off));
    assert(shifted(h[off + i], parts[k].nodes@[i], off));
    assert(g[j].inputs@ =~= h[j].inputs@) by {
        assert forall|m: int| 0 <= m < g[j].inputs@.len() implies g[j].inputs@[m] == h[j].inputs@[m] by {
            assert(g[off + i].inputs@[m].node == parts[k].nodes@[i].inputs@[m].node + off);
            assert(h[off + i].inputs@[m].node == parts[k].nodes@[i].inputs@[m].node + off);
        }
    }
}

/// Writes the encoded `Op` of node `i` of a graph, given the digests of the
/// nodes before it.
fn put_node(out: &mut Vec<u8>, n: &LlbNode, ds: &Vec<Vec<u8>>, i: usize)
    requires
        forall|k: int| 0 <= k < n.inputs@.len() ==> (#[trigger] n.inputs@[k]).node < i,
        i <= ds@.len(),
    ensures
        final(out)@ == old(out)@ + enc_node(*n, ds@.map_values(|v: Vec<u8>| v@)),
{
    let ghost init = out@;
    let ghost dsv = ds@.map_values(|v: Vec<u8>| v@);
    let m = n.inputs.len();
    let mut k: usize = 0;
    while k < m
        invariant
            m == n.inputs@.len(),
            k <= m,
            i <= ds@.len(),
            dsv == ds@.map_values(|v: Vec<u8>| v@),
            forall|k: int| 0 <= k < n.inputs@.len() ==> (#[trigger] n.inputs@[k]).node < i,
            out@ == init + enc_inputs(n.inputs@.subrange(0, k as int), dsv),
        decreases m - k,
    {
        let r = n.inputs[k];
        assert(r.node < i);
        let mut p: Vec<u8> = Vec::new();
        put_bytes_field(&mut p, 1, ds[r.node].as_slice());
        put_int_field(&mut p, 2, r.output as i64);
        put_len_delim(out, 1, p.as_slice());
        let ghost s = n.inputs@.subrange(0, k + 1);
        assert(s.drop_last() =~= n.inputs@.subrange(0, k as int));
        assert(s.last() == r);
        k = k + 1;
        assert(out@ =~= init + enc_inputs(n.inputs@.subrange(0, k as int), dsv));
    }
    assert(n.inputs@.subrange(0, m as int) =~= n.inputs@);
    put_op_body(out, &n.body.op);
    assert(out@ =~= init + enc_node(*n, dsv));
}

/// Whether two byte strings are equal.
pub fn bytes_eq(a: &[u8], b: &[u8]) -> (r: bool)
    ensures
        r == (a@ == b@),
{
    if a.len() != b.len() {
        return false;
    }
    let n = a.len();
    let mut i: usize = 0;
    while i < n
        invariant
            n == a@.len(),
            n == b@.len(),
            i <= n,
            forall|j: int| 0 <= j < i ==> a@[j] == b@[j],
        decreases n - i,
    {
        if a[i] != b[i] {
            return false;
        }
        i = i + 1;
    }
    assert(a@ =~= b@);
    true
}

/// The encoded operations of the nodes of a graph and their digests.
pub struct EncodedGraph {
    pub ops: Vec<Vec<u8>>,
    pub digests: Vec<Vec<u8>>,
}

/// Encodes every node of a graph and computes its digest.
pub fn encode_nodes(ns: &Vec<LlbNode>) -> (r: EncodedGraph)
    requires
        wf_nodes(ns@),
    ensures
        r.digests@.map_values(|v: Vec<u8>| v@) == digests(ns@),
        r.ops@.len() == ns@.len(),
        forall|i: int|
            0 <= i < ns@.len() ==> (#[trigger] r.ops@[i])@ == enc_node(ns@[i], digests(ns@)),
{
    let n = ns.len();
    let mut ds: Vec<Vec<u8>> = Vec::new();
    let mut ops: Vec<Vec<u8>> = Vec::new();
    let mut i: usize = 0;
    while i < n
        invariant
            n == ns@.len(),
            i <= n,
            wf_nodes(ns@),
            ds@.map_values(|v: Vec<u8>| v@) == digest_table(ns@, i as nat),
            ops@.len() == i,
            forall|j: int|
                0 <= j < i ==> (#[trigger] ops@[j])@ == enc_node(ns@[j], digest_table(ns@, i as nat)),
        decreases n - i,
    {
        let ghost t = digest_table(ns@, i as nat);
        proof {
            lemma_digest_table_len(ns@, i as nat);
        }
        assert forall|k: int| 0 <= k < ns@[i as int].inputs@.len() implies (
        #[trigger] ns@[i as int].inputs@[k]).node < i by {}
        let mut b: Vec<u8> = Vec::new();
        put_node(&mut b, &ns[i], &ds, i);
        let d = digest_bytes(b.as_slice());
        let ghost tnext = digest_table(ns@, (i + 1) as nat);
        assert(tnext == t.push(digest_of(enc_node(ns@[i as int], t))));
        ds.push(d);
        assert(ds@.map_values(|v: Vec<u8>| v@) =~= tnext);
        ops.push(b);
        assert forall|j: int| 0 <= j < i + 1 implies (#[trigger] ops@[j])@ == enc_node(
            ns@[j],
            tnext,
        ) by {
            lemma_digest_table_len(ns@, (i + 1) as nat);
            lemma_digest_table_len(ns@, j as nat);
            lemma_digest_table_prefix(ns@, j as nat, i as nat);
            lemma_digest_table_prefix(ns@, j as nat, (i + 1) as nat);
            let prev = if j < i {
                digest_table(ns@, i as nat)
            } else {
                t
            };
            assert forall|k: int| 0 <= k < ns@[j].inputs@.len() implies prev[(
            #[trigger] ns@[j].inputs@[k]).node as int] == tnext[ns@[j].inputs@[k].node as int] by {
                let r = ns@[j].inputs@[k].node as int;
                assert(r < j);
                assert(prev.subrange(0, j as int)[r] == prev[r]);
                assert(tnext.subrange(0, j as int)[r] == tnext[r]);
            }
            lemma_enc_inputs_prefix(ns@[j].inputs@, prev, tnext);
        }
        i = i + 1;
    }
    EncodedGraph { ops, digests: ds }
}

/// Whether no digest before position `i` equals the one at `i`.
fn is_first(ds: &Vec<Vec<u8>>, i: usize) -> (r: bool)
    requires
        i < ds@.len(),
    ensures
        r == first_of_digest(ds@.map_values(|v: Vec<u8>| v@), i as int),
{
    let ghost dsv = ds@.map_values(|v: Vec<u8>| v@);
    let mut j: usize = 0;
    while j < i
        invariant
            i < ds@.len(),
            j <= i,
            dsv == ds@.map_values(|v: Vec<u8>| v@),
            forall|k: int| 0 <= k < j ==> dsv[k] != dsv[i as int],
        decreases i - j,
    {
        if bytes_eq(ds[j].as_slice(), ds[i].as_slice()) {
            assert(dsv[j as int] == dsv[i as int]);
            return false;
        }
        j = j + 1;
    }
    true
}

/// The encoded `OpMetadata` of a display name.
fn put_metadata(out: &mut Vec<u8>, name: &Option<String>)
    ensures
        final(out)@ == old(out)@ + enc_metadata(*name),
{
    match name {
        Some(s) => {
            let mut e: Vec<u8> = Vec::new();
            proof {
                reveal_strlit("llb.customname");
            }
            let k = "llb.customname";
            assert(k@ =~= custom_name_key());
            put_str_field(&mut e, 1, k);
            put_str_field(&mut e, 2, s.as_str());
            put_len_delim(out, 2, e.as_slice());
        },
        None => {
            assert(out@ =~= old(out)@ + enc_metadata(*name));
        },
    }
}

/// Writes a metadata map entry.
fn put_metadata_entry(out: &mut Vec<u8>, d: &[u8], meta: &[u8])
    ensures
        final(out)@ == old(out)@ + metadata_entry(d@, meta@),
{
    let mut e: Vec<u8> = Vec::new();
    put_bytes_field(&mut e, 1, d);
    put_bytes_field(&mut e, 2, meta);
    put_len_delim(out, 2, e.as_slice());
}

/// The serialized LLB `Definition` of an output.
pub fn definition_bytes(o: &OperationOutput) -> (r: Vec<u8>)
    requires
        o.wf(),
    ensures
        r@ == definition_of(*o),
{
    let ns = &o.nodes;
    let n = ns.len();
    let enc = encode_nodes(ns);
    let ghost ds = digests(ns@);
    proof {
        lemma_digest_table_len(ns@, n as nat);
    }
    let mut out: Vec<u8> = Vec::new();
    let mut i: usize = 0;
    while i < n
        invariant
            n == ns@.len(),
            i <= n,
            ds == digests(ns@),
            ds.len() == n,
            enc.digests@.map_values(|v: Vec<u8>| v@) == ds,
            enc.ops@.len() == n,
            forall|i: int| 0 <= i < n ==> (#[trigger] enc.ops@[i])@ == enc_node(ns@[i], ds),
            out@ == def_entries(ns@, ds, i as nat),
        decreases n - i,
    {
        if is_first(&enc.digests, i) {
            put_len_delim(&mut out, 1, enc.ops[i].as_slice());
        }
        i = i + 1;
    }
    // the terminal operation
    let root = n - 1;
    let mut input: Vec<u8> = Vec::new();
    put_bytes_field(&mut input, 1, enc.digests[root].as_slice());
    put_int_field(&mut input, 2, o.index as i64);
    let mut fin: Vec<u8> = Vec::new();
    put_len_delim(&mut fin, 1, input.as_slice());
    assert(fin@ =~= final_op(*o));
    put_len_delim(&mut out, 1, fin.as_slice());
    let ghost mid = out@;
    let mut i: usize = 0;
    while i < n
        invariant
            n == ns@.len(),
            i <= n,
            ds == digests(ns@),
            ds.len() == n,
            enc.digests@.map_values(|v: Vec<u8>| v@) == ds,
            out@ == mid + meta_entries(ns@, ds, i as nat),
        decreases n - i,
    {
        if is_first(&enc.digests, i) {
            let mut meta: Vec<u8> = Vec::new();
            put_metadata(&mut meta, &ns[i].body.custom_name);
            put_metadata_entry(&mut out, enc.digests[i].as_slice(), meta.as_slice());
        }
        i = i + 1;
        assert(out@ =~= mid + meta_entries(ns@, ds, i as nat));
    }
    let fd = digest_bytes(fin.as_slice());
    let empty: Vec<u8> = Vec::new();
    put_metadata_entry(&mut out, fd.as_slice(), empty.as_slice());
    assert(empty@ =~= Seq::<u8>::empty());
    assert(out@ =~= definition_of(*o));
    out
}

} // verus!
