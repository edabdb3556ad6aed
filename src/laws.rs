//! What holds of every conversion, stated over the models that the
//! rendering functions' contracts use.
use vstd::prelude::*;
use crate::context::{forms_sound, refs_distinct, Chunk, Content, ConversionOptions, ObjectKind, MAX_SAVE_DEPTH};
use crate::model::{restores, saves, Factor, Group, NameV, Node, OpV, Tree};
use crate::render::{
    children_result, emit, group_result, node_result, placement, stream_result, xobject_result, St,
};
use crate::resources::{keys_unique, same_key, ResourceContainer};

verus! {

/// The graphics-state stack and the current transform, as a sequence of
/// factors, after one operator.
pub open spec fn after_op(st: (Seq<Seq<Factor>>, Seq<Factor>), op: OpV) -> (
    Seq<Seq<Factor>>,
    Seq<Factor>,
) {
    match op {
        OpV::Save => (st.0.push(st.1), st.1),
        OpV::Restore => if st.0.len() > 0 {
            (st.0.drop_last(), st.0.last())
        } else {
            st
        },
        OpV::Transform(f) => (st.0, st.1.push(f)),
        _ => st,
    }
}

/// The graphics-state stack and current transform after `ops`, from an
/// empty stack and the identity.
pub open spec fn state_after(ops: Seq<OpV>) -> (Seq<Seq<Factor>>, Seq<Factor>)
    decreases ops.len(),
{
    if ops.len() == 0 {
        (Seq::<Seq<Factor>>::empty(), Seq::<Factor>::empty())
    } else {
        after_op(state_after(ops.drop_last()), ops.last())
    }
}

/// The transform in force after `ops`: its factors, outermost first.
pub open spec fn active_transform(ops: Seq<OpV>) -> Seq<Factor> {
    state_after(ops).1
}

proof fn lemma_step(ops: Seq<OpV>, op: OpV)
    ensures
        state_after(ops.push(op)) == after_op(state_after(ops), op),
{
    assert(ops.push(op).drop_last() =~= ops);
    assert(ops.push(op).last() == op);
}

/// When `node` is a path wrapped in inline groups of one child each, the
/// groups' transform handles from the outside in, and the path's handle.
pub open spec fn chain_of(node: Node) -> Option<(Seq<u64>, u64)>
    decreases node,
{
    match node {
        Node::Path(p) => Some((Seq::<u64>::empty(), p)),
        Node::Group(g) => {
            if !g.isolated && g.children.len() == 1 {
                match chain_of(g.children[0]) {
                    Some((ts, p)) => Some((seq![g.transform].add(ts), p)),
                    None => None,
                }
            } else {
                None
            }
        },
        _ => None,
    }
}

/// The operators that a chain of inline groups around a path emits.
pub open spec fn chain_ops(ts: Seq<u64>, p: u64) -> Seq<OpV>
    decreases ts.len(),
{
    if ts.len() == 0 {
        seq![OpV::Path(p)]
    } else {
        seq![OpV::Save, OpV::Transform(Factor::Local(ts[0]))] + chain_ops(ts.drop_first(), p) + seq![
            OpV::Restore,
        ]
    }
}

/// What `tree_to_stream` emits for a root that is such a chain.
pub open spec fn stream_ops(ts: Seq<u64>, p: u64) -> Seq<OpV> {
    seq![OpV::Save, OpV::Transform(Factor::Flip)] + chain_ops(ts, p) + seq![OpV::Restore]
}

/// A chain of inline groups around a path renders as `chain_ops`, when
/// its saves fit.
pub proof fn lemma_chain_result(node: Node, s: St, options: ConversionOptions)
    requires
        chain_of(node) matches Some((ts, p)) && s.depth + ts.len() <= MAX_SAVE_DEPTH,
    ensures
        chain_of(node) matches Some((ts, p)) && node_result(node, s, options) == Ok::<St, crate::model::ConversionError>(emit(s, chain_ops(ts, p))),
    decreases node,
{
    match node {
        Node::Path(p) => {}
        Node::Group(g) => {
            let (ts, p) = chain_of(node)->Some_0;
            let c = g.children[0];
            vstd::std_specs::vec::axiom_vec_index_decreases(g.children, 0);
            let s1 = St {
                ops: s.ops + seq![OpV::Save, OpV::Transform(Factor::Local(g.transform))],
                depth: s.depth + 1,
                objs: s.objs,
                next: s.next,
                rc: s.rc,
            };
            let (cs, cp) = chain_of(c)->Some_0;
            assert(ts.drop_first() =~= cs);
            lemma_chain_result(c, s1, options);
            assert(children_result(g.children, 0, s1, options) == Ok::<St, crate::model::ConversionError>(s1));
            assert(children_result(g.children, 1, s1, options) == node_result(c, s1, options));
            let s2 = emit(s1, chain_ops(cs, p));
            assert(s2.ops.push(OpV::Restore) =~= s.ops + chain_ops(ts, p));
        }
        _ => {}
    }
}

/// `tree_to_stream` on a tree whose root is a chain emits `stream_ops`.
pub proof fn lemma_chain_stream(tree: Tree, s: St, options: ConversionOptions)
    requires
        chain_of(Node::Group(tree.root)) matches Some((ts, p)) && s.depth + 1 + ts.len() <= MAX_SAVE_DEPTH,
    ensures
        chain_of(Node::Group(tree.root)) matches Some((ts, p)) && stream_result(tree, s, options) == Ok::<St, crate::model::ConversionError>(emit(s, stream_ops(ts, p))),
{
    let (ts, p) = chain_of(Node::Group(tree.root))->Some_0;
    let s1 = St {
        ops: s.ops + seq![OpV::Save, OpV::Transform(Factor::Flip)],
        depth: s.depth + 1,
        objs: s.objs,
        next: s.next,
        rc: s.rc,
    };
    lemma_chain_result(Node::Group(tree.root), s1, options);
    assert(node_result(Node::Group(tree.root), s1, options) == group_result(tree.root, s1, options));
    assert(emit(s1, chain_ops(ts, p)).ops.push(OpV::Restore) =~= s.ops + stream_ops(ts, p));
}

/// The local factors of a chain of group transform handles.
pub open spec fn locals(ts: Seq<u64>) -> Seq<Factor> {
    ts.map_values(|t: u64| Factor::Local(t))
}

/// The saves and transforms that open a chain of inline groups.
pub open spec fn chain_opening(ts: Seq<u64>) -> Seq<OpV>
    decreases ts.len(),
{
    if ts.len() == 0 {
        Seq::<OpV>::empty()
    } else {
        seq![OpV::Save, OpV::Transform(Factor::Local(ts[0]))] + chain_opening(ts.drop_first())
    }
}

proof fn lemma_chain_shape(ts: Seq<u64>, p: u64)
    ensures
        chain_opening(ts).len() == 2 * (ts.len() as int),
        chain_ops(ts, p).len() == 3 * ts.len() + 1,
        chain_ops(ts, p).take(2 * (ts.len() as int)) == chain_opening(ts),
        chain_ops(ts, p)[2 * (ts.len() as int)] == OpV::Path(p),
    decreases ts.len(),
{
    if ts.len() > 0 {
        let rest = ts.drop_first();
        lemma_chain_shape(rest, p);
        let head = seq![OpV::Save, OpV::Transform(Factor::Local(ts[0]))];
        let inner = chain_ops(rest, p);
        assert(chain_ops(ts, p) == head + inner + seq![OpV::Restore]);
        assert(chain_ops(ts, p).take(2 * (ts.len() as int)) =~= head + inner.take(2 * (rest.len() as int)));
        assert(chain_ops(ts, p)[2 * (ts.len() as int)] == inner[2 * (rest.len() as int)]);
    }
}

proof fn lemma_opening_transform(pre: Seq<OpV>, ts: Seq<u64>)
    ensures
        active_transform(pre + chain_opening(ts)) == active_transform(pre) + locals(ts),
    decreases ts.len(),
{
    if ts.len() == 0 {
        assert(pre + chain_opening(ts) =~= pre);
        assert(active_transform(pre) + locals(ts) =~= active_transform(pre));
    } else {
        let t = ts[0];
        let pre1 = pre.push(OpV::Save);
        let pre2 = pre1.push(OpV::Transform(Factor::Local(t)));
        lemma_step(pre, OpV::Save);
        lemma_step(pre1, OpV::Transform(Factor::Local(t)));
        assert(active_transform(pre2) == active_transform(pre).push(Factor::Local(t)));
        lemma_opening_transform(pre2, ts.drop_first());
        assert(pre + chain_opening(ts) =~= pre2 + chain_opening(ts.drop_first()));
        assert(active_transform(pre).push(Factor::Local(t)) + locals(ts.drop_first()) =~= active_transform(
            pre,
        ) + locals(ts));
    }
}

/// Transform composition: in what `tree_to_stream` emits for a path
/// nested in inline groups with local transforms `ts` (`lemma_chain_stream`),
/// the transform in force where the path is painted is the axis flip
/// followed by the groups' transforms, outermost first.
pub proof fn lemma_leaf_transform(ts: Seq<u64>, p: u64)
    ensures
        stream_ops(ts, p)[2 + 2 * (ts.len() as int)] == OpV::Path(p),
        active_transform(stream_ops(ts, p).take(2 + 2 * (ts.len() as int))) == seq![Factor::Flip] + locals(
            ts,
        ),
{
    lemma_chain_shape(ts, p);
    let head = seq![OpV::Save, OpV::Transform(Factor::Flip)];
    let ops = stream_ops(ts, p);
    assert(ops.take(2 + 2 * (ts.len() as int)) =~= head + chain_opening(ts));
    assert(ops[2 + 2 * (ts.len() as int)] == chain_ops(ts, p)[2 * (ts.len() as int)]);
    let h0 = Seq::<OpV>::empty();
    lemma_step(h0, OpV::Save);
    lemma_step(h0.push(OpV::Save), OpV::Transform(Factor::Flip));
    assert(h0.push(OpV::Save).push(OpV::Transform(Factor::Flip)) =~= head);
    assert(active_transform(head) =~= seq![Factor::Flip]);
    lemma_opening_transform(head, ts);
}

/// Allocator uniqueness: no two objects of a well-formed chunk share a
/// reference.
pub proof fn lemma_refs_unique(chunk: &Chunk, next: int)
    requires
        chunk.wf(next),
    ensures
        forall|i: int, j: int|
            0 <= i < chunk.objects@.len() && 0 <= j < chunk.objects@.len() && i != j
                ==> chunk.objects@[i].reference != chunk.objects@[j].reference,
{
    assert forall|i: int, j: int|
        0 <= i < chunk.objects@.len() && 0 <= j < chunk.objects@.len() && i != j implies chunk.objects@[i].reference
        != chunk.objects@[j].reference by {
        if i < j {
            assert(refs_distinct(chunk.objects@));
            assert(chunk.objects@[i].reference != chunk.objects@[j].reference);
        } else {
            assert(chunk.objects@[j].reference != chunk.objects@[i].reference);
        }
    }
}

/// Resource name uniqueness: no two entries of a well-formed container
/// share a (category, name) pair, whichever order they are taken in.
pub proof fn lemma_names_unique(rc: &ResourceContainer)
    requires
        rc.wf(),
    ensures
        forall|i: int, j: int|
            0 <= i < rc@.len() && 0 <= j < rc@.len() && i != j ==> !same_key(rc@[i], rc@[j]),
{
    assert forall|i: int, j: int|
        0 <= i < rc@.len() && 0 <= j < rc@.len() && i != j implies !same_key(rc@[i], rc@[j]) by {
        assert(keys_unique(rc@));
        if j < i {
            assert(!same_key(rc@[j], rc@[i]));
        }
    }
}

/// Save/restore balance: every form object of a well-formed chunk holds
/// as many saves as restores, and so does a well-formed content buffer
/// with no save open.
pub proof fn lemma_balanced(chunk: &Chunk, next: int, content: &Content)
    requires
        chunk.wf(next),
        content.wf(),
        content.depth == 0,
    ensures
        saves(content.ops@) == restores(content.ops@),
        forall|i: int|
            0 <= i < chunk.objects@.len() ==> match (#[trigger] chunk.objects@[i]).kind {
                ObjectKind::Form { stream, .. } => saves(stream.ops@) == restores(stream.ops@),
                ObjectKind::Image(_) => true,
            },
{
    assert(forms_sound(chunk.objects@));
}

/// External-asset equivalence: placing a caller's image object and
/// placing an internally encoded one of the same size differ only in the
/// painted name; the object is painted under the same transform.
pub proof fn lemma_same_placement(pre: Seq<OpV>, a: NameV, b: NameV, width: u32, height: u32)
    ensures
        placement(a, width, height).len() == placement(b, width, height).len(),
        forall|i: int|
            0 <= i < placement(a, width, height).len() && i != 2 ==> placement(a, width, height)[i]
                == placement(b, width, height)[i],
        placement(a, width, height)[2] == OpV::XObject(a),
        placement(b, width, height)[2] == OpV::XObject(b),
        active_transform((pre + placement(a, width, height)).take(pre.len() + 2int))
            == active_transform((pre + placement(b, width, height)).take(pre.len() + 2int)),
        active_transform((pre + placement(a, width, height)).take(pre.len() + 2int)) == active_transform(
            pre,
        ).push(Factor::Scale { width, height }),
{
    let s = Factor::Scale { width, height };
    let p1 = pre.push(OpV::Save);
    let p2 = p1.push(OpV::Transform(s));
    assert((pre + placement(a, width, height)).take(pre.len() + 2int) =~= p2);
    assert((pre + placement(b, width, height)).take(pre.len() + 2int) =~= p2);
    lemma_step(pre, OpV::Save);
    lemma_step(p1, OpV::Transform(s));
}

/// Feature degrade: with image support off, an image without a descriptor
/// renders as nothing, and a group's children after it render as if it
/// were absent.
pub proof fn lemma_disabled_image_skipped(children: Vec<Node>, s: St, options: ConversionOptions)
    requires
        !options.image_support,
        children.len() == 2,
        children[0] matches Node::Image(i) && i.external is None,
    ensures
        node_result(children[0], s, options) == Ok::<St, crate::model::ConversionError>(s),
        children_result(children, 2, s, options) == node_result(children[1], s, options),
{
    assert(children_result(children, 0, s, options) == Ok::<St, crate::model::ConversionError>(s));
    assert(node_result(children[0], s, options) == Ok::<St, crate::model::ConversionError>(s));
    assert(children_result(children, 1, s, options) == Ok::<St, crate::model::ConversionError>(s));
}

/// Repeatability: a conversion's outcome is a function of the tree, the
/// objects and allocator it starts from, and the options; so two fresh
/// conversions of one tree give the same object graph, and a resolver that
/// declines every image (every descriptor absent) gives what no resolver
/// gives.
pub proof fn lemma_repeatable(tree: Tree, s: St, t: St, options: ConversionOptions)
    requires
        s == t,
    ensures
        stream_result(tree, s, options) == stream_result(tree, t, options),
{
}

/// How many references rendering `node` allocates.
pub open spec fn node_refs(node: Node, o: ConversionOptions) -> nat
    decreases node, 0int,
{
    match node {
        Node::Path(_) => 0,
        Node::Image(i) => if i.external is None && i.visible && o.image_support { 1 } else { 0 },
        Node::Text(t) => if o.text_support && !o.embed_text { group_refs(t.flattened, o) } else { 0 },
        Node::Group(g) => group_refs(g, o),
    }
}

/// How many references rendering group `g` allocates.
pub open spec fn group_refs(g: Group, o: ConversionOptions) -> nat
    decreases g, 0int,
{
    (if g.isolated { 1nat } else { 0nat }) + children_refs(g.children, g.children.len() as int, o)
}

/// How many references rendering the first `n` of `cs` allocates.
pub open spec fn children_refs(cs: Vec<Node>, n: int, o: ConversionOptions) -> nat
    decreases cs, n,
{
    if n <= 0 || n > cs.len() {
        0
    } else {
        children_refs(cs, n - 1, o) + node_refs(cs[n - 1], o)
    }
}

/// Whether `node`, started at save depth `depth`, never saves beyond
/// `MAX_SAVE_DEPTH` and holds no external image descriptor.
pub open spec fn node_fits(node: Node, depth: int) -> bool
    decreases node, 0int,
{
    match node {
        Node::Path(_) => true,
        Node::Image(i) => i.external is None && (!i.visible || depth < MAX_SAVE_DEPTH),
        Node::Text(t) => group_fits(t.flattened, depth),
        Node::Group(g) => group_fits(g, depth),
    }
}

/// `node_fits` for a group.
pub open spec fn group_fits(g: Group, depth: int) -> bool
    decreases g, 0int,
{
    depth < MAX_SAVE_DEPTH && children_fit(
        g.children,
        g.children.len() as int,
        if g.isolated { 0 } else { depth + 1 },
    )
}

/// `node_fits` for each of the first `n` of `cs`.
pub open spec fn children_fit(cs: Vec<Node>, n: int, depth: int) -> bool
    decreases cs, n,
{
    if n <= 0 || n > cs.len() {
        true
    } else {
        children_fit(cs, n - 1, depth) && node_fits(cs[n - 1], depth)
    }
}

/// Rendering a node that fits, from a state whose allocator has room,
/// succeeds, keeps the save depth, and allocates exactly `node_refs`.
pub proof fn lemma_node_succeeds(node: Node, s: St, o: ConversionOptions)
    requires
        node_fits(node, s.depth),
        0 <= s.depth,
        s.next + node_refs(node, o) < i32::MAX,
    ensures
        node_result(node, s, o) is Ok,
        node_result(node, s, o)->Ok_0.depth == s.depth,
        node_result(node, s, o)->Ok_0.next == s.next + node_refs(node, o),
    decreases node, 0int,
{
    match node {
        Node::Group(g) => lemma_group_succeeds(g, s, o),
        Node::Text(t) => {
            if o.text_support && !o.embed_text {
                lemma_group_succeeds(t.flattened, s, o);
            }
        },
        _ => {},
    }
}

/// `lemma_node_succeeds` for a group.
pub proof fn lemma_group_succeeds(g: Group, s: St, o: ConversionOptions)
    requires
        group_fits(g, s.depth),
        0 <= s.depth,
        s.next + group_refs(g, o) < i32::MAX,
    ensures
        group_result(g, s, o) is Ok,
        group_result(g, s, o)->Ok_0.depth == s.depth,
        group_result(g, s, o)->Ok_0.next == s.next + group_refs(g, o),
    decreases g, 0int,
{
    let n = g.children.len() as int;
    if !g.isolated {
        let s1 = St {
            ops: s.ops + seq![OpV::Save, OpV::Transform(Factor::Local(g.transform))],
            depth: s.depth + 1,
            objs: s.objs,
            next: s.next,
            rc: s.rc,
        };
        lemma_children_succeed(g.children, n, s1, o);
    } else {
        let inner = St { ops: Seq::empty(), depth: 0, objs: s.objs, next: s.next + 1, rc: Seq::empty() };
        lemma_children_succeed(g.children, n, inner, o);
    }
}

/// `lemma_node_succeeds` for the first `n` children.
pub proof fn lemma_children_succeed(cs: Vec<Node>, n: int, s: St, o: ConversionOptions)
    requires
        0 <= n <= cs.len(),
        children_fit(cs, n, s.depth),
        0 <= s.depth,
        s.next + children_refs(cs, n, o) < i32::MAX,
    ensures
        children_result(cs, n, s, o) is Ok,
        children_result(cs, n, s, o)->Ok_0.depth == s.depth,
        children_result(cs, n, s, o)->Ok_0.next == s.next + children_refs(cs, n, o),
    decreases cs, n,
{
    if n > 0 {
        lemma_children_succeed(cs, n - 1, s, o);
        let s1 = children_result(cs, n - 1, s, o)->Ok_0;
        vstd::std_specs::vec::axiom_vec_index_decreases(cs, n - 1);
        lemma_node_succeeds(cs[n - 1], s1, o);
    }
}

/// When success is owed: converting a tree whose root fits (one save for
/// the axis flip, then the groups' own) and holds no external descriptor
/// succeeds when the allocator has room for the form object and the
/// `group_refs` objects inside it, and leaves the allocator just past them.
pub proof fn lemma_xobject_succeeds(tree: Tree, objs: Seq<crate::context::ObjectV>, next: int, o: ConversionOptions)
    requires
        group_fits(tree.root, 1),
        next + 1 + group_refs(tree.root, o) < i32::MAX,
    ensures
        xobject_result(tree, objs, next, o) is Ok,
        xobject_result(tree, objs, next, o)->Ok_0.1 == next + 1 + group_refs(tree.root, o),
{
    let inner = St { ops: Seq::empty(), depth: 0, objs, next: next + 1, rc: Seq::empty() };
    let s1 = St {
        ops: inner.ops + seq![OpV::Save, OpV::Transform(Factor::Flip)],
        depth: 1,
        objs,
        next: next + 1,
        rc: Seq::empty(),
    };
    lemma_group_succeeds(tree.root, s1, o);
}

/// A name the external-asset path accepts is well-formed UTF-8, so it
/// never begins with the byte 0xFF; a name that does begins no accepted
/// caller name.
pub proof fn lemma_caller_name_not_ff(b: Seq<u8>)
    requires
        crate::render::is_utf8(b),
    ensures
        b.len() == 0 || b[0] != 0xFF,
{
}

} // verus!
