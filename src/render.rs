//! The node dispatcher, the group compositor, the external-asset path and
//! the two entry points.
use vstd::prelude::*;
use crate::context::{
    objects_v, Bounds, Chunk, Content, Context, ConversionOptions, Object, ObjectKind, ObjectKindV,
    ObjectV, MAX_SAVE_DEPTH,
};
use crate::model::{
    is_positive_finite, name_v, ops_v, positive_finite, Category, ConversionError, ExternalImage,
    Factor, Group, ImageNode, NameV, Node, Op, OpV, ResName, Tree,
};
use crate::resources::{
    conflicts_with, entries_v, with_entry, EntryV, ResourceContainer,
};

verus! {

/// Whether `b` is a UTF-8 continuation byte.
pub open spec fn continuation(b: u8) -> bool {
    0x80 <= b <= 0xBF
}

/// Whether `b` from index `i` on is well-formed UTF-8 (the well-formed byte
/// sequences of the Unicode Standard, table 3-7).
pub open spec fn utf8_from(b: Seq<u8>, i: int) -> bool
    decreases b.len() - i,
{
    if i < 0 || i >= b.len() {
        true
    } else if b[i] <= 0x7F {
        utf8_from(b, i + 1)
    } else if 0xC2 <= b[i] <= 0xDF {
        i + 1 < b.len() && continuation(b[i + 1]) && utf8_from(b, i + 2)
    } else if 0xE0 <= b[i] <= 0xEF {
        i + 2 < b.len() && (if b[i] == 0xE0 {
            0xA0 <= b[i + 1] <= 0xBF
        } else if b[i] == 0xED {
            0x80 <= b[i + 1] <= 0x9F
        } else {
            continuation(b[i + 1])
        }) && continuation(b[i + 2]) && utf8_from(b, i + 3)
    } else if 0xF0 <= b[i] <= 0xF4 {
        i + 3 < b.len() && (if b[i] == 0xF0 {
            0x90 <= b[i + 1] <= 0xBF
        } else if b[i] == 0xF4 {
            0x80 <= b[i + 1] <= 0x8F
        } else {
            continuation(b[i + 1])
        }) && continuation(b[i + 2]) && continuation(b[i + 3]) && utf8_from(b, i + 4)
    } else {
        false
    }
}

/// Whether `b` is well-formed UTF-8.
pub open spec fn is_utf8(b: Seq<u8>) -> bool {
    utf8_from(b, 0)
}

/// Relies on `std::str::from_utf8`: it succeeds exactly on well-formed
/// UTF-8.
#[verifier::external_body]
fn utf8_valid(b: &Vec<u8>) -> (r: bool)
    ensures
        r == is_utf8(b@),
{
    std::str::from_utf8(b.as_slice()).is_ok()
}

/// The operators that place a unit-square XObject, scaled to
/// `width` by `height` and flipped vertically.
pub open spec fn placement(name: NameV, width: u32, height: u32) -> Seq<OpV> {
    seq![OpV::Save, OpV::Transform(Factor::Scale { width, height }), OpV::XObject(name), OpV::Restore]
}

/// What an isolated group emits into its parent's stream: its transform
/// and a paint of the form object with reference `reference`.
pub open spec fn isolated_ops(transform: u64, reference: i32) -> Seq<OpV> {
    seq![
        OpV::Save,
        OpV::Transform(Factor::Local(transform)),
        OpV::XObject(NameV::Object(reference)),
        OpV::Restore,
    ]
}

/// The state a rendering step reads and writes: the current stream's
/// operators and save depth, the chunk's objects, the allocator's next
/// reference and the current resource container.
pub struct St {
    pub ops: Seq<OpV>,
    pub depth: int,
    pub objs: Seq<ObjectV>,
    pub next: int,
    pub rc: Seq<EntryV>,
}

/// The state held by the four values a rendering step works on.
pub open spec fn st(chunk: &Chunk, content: &Content, ctx: &Context, rc: &ResourceContainer) -> St {
    St {
        ops: ops_v(content.ops@),
        depth: content.depth as int,
        objs: objects_v(chunk.objects@),
        next: ctx.next_ref as int,
        rc: entries_v(rc@),
    }
}

/// `s` with `more` operators appended.
pub open spec fn emit(s: St, more: Seq<OpV>) -> St {
    St { ops: s.ops + more, depth: s.depth, objs: s.objs, next: s.next, rc: s.rc }
}

/// An executable result `r` with final state `got` is what `want` describes.
pub open spec fn agrees(r: Result<(), ConversionError>, want: Result<St, ConversionError>, got: St) -> bool {
    match want {
        Ok(s) => r is Ok && got == s,
        Err(e) => r == Err::<(), ConversionError>(e),
    }
}

/// The entry a generated name gets for the object `reference`.
pub open spec fn generated_entry(reference: i32) -> EntryV {
    EntryV { category: Category::XObject, name: NameV::Object(reference), reference }
}

/// The entry a descriptor asks for.
pub open spec fn external_entry(ext: ExternalImage) -> EntryV {
    EntryV { category: Category::XObject, name: NameV::External(ext.name@), reference: ext.reference }
}

/// Placing a unit-square XObject: one save must fit.
pub open spec fn place(s: St, name: NameV, width: u32, height: u32) -> Result<St, ConversionError> {
    if s.depth >= MAX_SAVE_DEPTH {
        Err(ConversionError::TooMuchNesting)
    } else {
        Ok(emit(s, placement(name, width, height)))
    }
}

/// Whether the descriptor can be placed: positive finite size and a UTF-8
/// name.
pub open spec fn descriptor_valid(ext: ExternalImage) -> bool {
    positive_finite(ext.width) && positive_finite(ext.height) && is_utf8(ext.name@)
}

/// The external-asset path.
pub open spec fn external_result(image: ImageNode, ext: ExternalImage, s: St) -> Result<St, ConversionError> {
    if !image.visible {
        Ok(s)
    } else if !descriptor_valid(ext) || conflicts_with(s.rc, external_entry(ext)) {
        Err(ConversionError::InvalidImage)
    } else if s.depth >= MAX_SAVE_DEPTH {
        Err(ConversionError::TooMuchNesting)
    } else {
        Ok(emit(
            St { ops: s.ops, depth: s.depth, objs: s.objs, next: s.next, rc: with_entry(s.rc, external_entry(ext)) },
            placement(NameV::External(ext.name@), ext.width, ext.height),
        ))
    }
}

/// The internal image path: a new image object, placed like an external one.
pub open spec fn image_result(image: ImageNode, s: St, options: ConversionOptions) -> Result<St, ConversionError> {
    if !options.image_support || !image.visible {
        Ok(s)
    } else if s.next >= i32::MAX {
        Err(ConversionError::TooManyObjects)
    } else {
        let r = s.next as i32;
        place(
            St {
                ops: s.ops,
                depth: s.depth,
                objs: s.objs.push(ObjectV { reference: r, kind: ObjectKindV::Image(image.id) }),
                next: s.next + 1,
                rc: with_entry(s.rc, generated_entry(r)),
            },
            NameV::Object(r),
            image.width,
            image.height,
        )
    }
}

/// What rendering `node` from state `s` gives.
pub open spec fn node_result(node: Node, s: St, options: ConversionOptions) -> Result<St, ConversionError>
    decreases node, 0int,
{
    match node {
        Node::Path(p) => Ok(emit(s, seq![OpV::Path(p)])),
        Node::Group(g) => group_result(g, s, options),
        Node::Image(i) => match i.external {
            Some(e) => external_result(i, e, s),
            None => image_result(i, s, options),
        },
        Node::Text(t) => if !options.text_support {
            Ok(s)
        } else if options.embed_text {
            Ok(emit(s, seq![OpV::Text(t.id)]))
        } else {
            group_result(t.flattened, s, options)
        },
    }
}

/// What rendering the first `n` of `children` in order from state `s`
/// gives; the first failure ends it.
pub open spec fn children_result(children: Vec<Node>, n: int, s: St, options: ConversionOptions) -> Result<
    St,
    ConversionError,
>
    decreases children, n,
{
    if n <= 0 || n > children.len() {
        Ok(s)
    } else {
        match children_result(children, n - 1, s, options) {
            Ok(s1) => node_result(children[n - 1], s1, options),
            Err(e) => Err(e),
        }
    }
}

/// What rendering group `g` from state `s` gives: inline, a save, its
/// transform, its children and a restore; isolated, a form object holding
/// its children in a stream and container of their own, painted from the
/// parent stream under its transform.
pub open spec fn group_result(g: Group, s: St, options: ConversionOptions) -> Result<St, ConversionError>
    decreases g, 0int,
{
    if !g.isolated {
        if s.depth >= MAX_SAVE_DEPTH {
            Err(ConversionError::TooMuchNesting)
        } else {
            let s1 = St {
                ops: s.ops + seq![OpV::Save, OpV::Transform(Factor::Local(g.transform))],
                depth: s.depth + 1,
                objs: s.objs,
                next: s.next,
                rc: s.rc,
            };
            match children_result(g.children, g.children.len() as int, s1, options) {
                Ok(s2) => Ok(St { ops: s2.ops.push(OpV::Restore), depth: s.depth, objs: s2.objs, next: s2.next, rc: s2.rc }),
                Err(e) => Err(e),
            }
        }
    } else if s.next >= i32::MAX {
        Err(ConversionError::TooManyObjects)
    } else {
        let r = s.next as i32;
        let inner = St { ops: Seq::empty(), depth: 0, objs: s.objs, next: s.next + 1, rc: Seq::empty() };
        match children_result(g.children, g.children.len() as int, inner, options) {
            Err(e) => Err(e),
            Ok(s2) => if s.depth >= MAX_SAVE_DEPTH {
                Err(ConversionError::TooMuchNesting)
            } else {
                Ok(St {
                    ops: s.ops + isolated_ops(g.transform, r),
                    depth: s.depth,
                    objs: s2.objs.push(ObjectV {
                        reference: r,
                        kind: ObjectKindV::Form {
                            bounds: Bounds::Group(g.id),
                            ops: s2.ops,
                            entries: s2.rc,
                            deflate: options.compress,
                        },
                    }),
                    next: s2.next,
                    rc: with_entry(s.rc, generated_entry(r)),
                })
            },
        }
    }
}

/// What `tree_to_stream` gives from state `s`.
pub open spec fn stream_result(tree: Tree, s: St, options: ConversionOptions) -> Result<St, ConversionError> {
    if s.depth >= MAX_SAVE_DEPTH {
        Err(ConversionError::TooMuchNesting)
    } else {
        let s1 = St {
            ops: s.ops + seq![OpV::Save, OpV::Transform(Factor::Flip)],
            depth: s.depth + 1,
            objs: s.objs,
            next: s.next,
            rc: s.rc,
        };
        match group_result(tree.root, s1, options) {
            Ok(s2) => Ok(St { ops: s2.ops.push(OpV::Restore), depth: s.depth, objs: s2.objs, next: s2.next, rc: s2.rc }),
            Err(e) => Err(e),
        }
    }
}

/// What `tree_to_xobject` gives from the objects `objs` and the next
/// reference `next`: the objects and the next reference after it.
pub open spec fn xobject_result(tree: Tree, objs: Seq<ObjectV>, next: int, options: ConversionOptions) -> Result<
    (Seq<ObjectV>, int),
    ConversionError,
> {
    if next >= i32::MAX {
        Err(ConversionError::TooManyObjects)
    } else {
        let inner = St { ops: Seq::empty(), depth: 0, objs, next: next + 1, rc: Seq::empty() };
        match stream_result(tree, inner, options) {
            Ok(s) => Ok((
                s.objs.push(ObjectV {
                    reference: next as i32,
                    kind: ObjectKindV::Form { bounds: Bounds::Canvas, ops: s.ops, entries: s.rc, deflate: options.compress },
                }),
                s.next,
            )),
            Err(e) => Err(e),
        }
    }
}

proof fn lemma_children_error_stays(children: Vec<Node>, k: int, m: int, s: St, options: ConversionOptions)
    requires
        0 <= k <= m <= children.len(),
        children_result(children, k, s, options) is Err,
    ensures
        children_result(children, m, s, options) == children_result(children, k, s, options),
    decreases m - k,
{
    if m > k {
        lemma_children_error_stays(children, k, m - 1, s, options);
    }
}

/// `after` extends `before` with objects whose references were allocated
/// while the allocator went from `from` to `to`.
pub open spec fn grows(before: Seq<Object>, after: Seq<Object>, from: int, to: int) -> bool {
    &&& from <= to
    &&& before.len() <= after.len()
    &&& forall|i: int| 0 <= i < before.len() ==> #[trigger] after[i] == before[i]
    &&& forall|i: int| before.len() <= i < after.len() ==> from <= (#[trigger] after[i]).reference
}

/// `after` begins with `before`.
pub open spec fn extends(before: Seq<Op>, after: Seq<Op>) -> bool {
    before.len() <= after.len() && forall|i: int| 0 <= i < before.len() ==> #[trigger] after[i] == before[i]
}

/// The state every rendering step starts from.
pub open spec fn ready(chunk: &Chunk, content: &Content, ctx: &Context, rc: &ResourceContainer) -> bool {
    &&& ctx.next_ref >= 1
    &&& chunk.wf(ctx.next_ref as int)
    &&& content.wf()
    &&& rc.wf()
}

/// What every rendering step keeps: the options, a chunk that only grows
/// with freshly allocated objects, the save depth, and well-formedness.
pub open spec fn kept(
    chunk0: &Chunk, chunk1: &Chunk,
    content0: &Content, content1: &Content,
    ctx0: &Context, ctx1: &Context,
    rc1: &ResourceContainer,
) -> bool {
    &&& ctx1.options == ctx0.options
    &&& grows(chunk0.objects@, chunk1.objects@, ctx0.next_ref as int, ctx1.next_ref as int)
    &&& ready(chunk1, content1, ctx1, rc1)
    &&& content1.depth == content0.depth
    &&& extends(content0.ops@, content1.ops@)
}

/// Emits `placement(name, width, height)`, if one more save fits.
pub fn place_x_object(content: &mut Content, name: ResName, width: u32, height: u32) -> (r:
    Result<(), ConversionError>)
    requires
        old(content).wf(),
    ensures
        final(content).wf(),
        final(content).depth == old(content).depth,
        extends(old(content).ops@, final(content).ops@),
        old(content).depth < MAX_SAVE_DEPTH ==> r is Ok && ops_v(final(content).ops@) == ops_v(
            old(content).ops@,
        ) + placement(name_v(name), width, height),
        old(content).depth >= MAX_SAVE_DEPTH ==> r == Err::<(), ConversionError>(
            ConversionError::TooMuchNesting,
        ) && final(content).ops@ == old(content).ops@,
{
    let ghost start = ops_v(content.ops@);
    let ghost n = name_v(name);
    content.save_state_checked()?;
    content.push(Op::Transform(Factor::Scale { width, height }));
    content.push(Op::XObject(name));
    content.restore_state();
    assert(ops_v(content.ops@) =~= start + placement(n, width, height));
    Ok(())
}

/// Places a caller-owned image object in place of an image node: the same
/// placement an internally encoded image receives, but painting the
/// caller's object under the caller's name. A refused descriptor leaves
/// the stream and the container as they were.
pub fn render_external_image(
    image: &ImageNode,
    ext: &ExternalImage,
    content: &mut Content,
    rc: &mut ResourceContainer,
) -> (r: Result<(), ConversionError>)
    requires
        old(content).wf(),
        old(rc).wf(),
    ensures
        final(content).wf(),
        final(content).depth == old(content).depth,
        final(rc).wf(),
        extends(old(content).ops@, final(content).ops@),
        r is Err ==> final(content).ops@ == old(content).ops@ && final(rc)@ == old(rc)@,
        agrees(
            r,
            external_result(*image, *ext, St { ops: ops_v(old(content).ops@), depth: old(content).depth as int, objs: Seq::empty(), next: 0, rc: entries_v(old(rc)@) }),
            St { ops: ops_v(final(content).ops@), depth: final(content).depth as int, objs: Seq::empty(), next: 0, rc: entries_v(final(rc)@) },
        ),
{
    if !image.visible {
        return Ok(());
    }
    if !(is_positive_finite(ext.width) && is_positive_finite(ext.height)) {
        return Err(ConversionError::InvalidImage);
    }
    if !utf8_valid(&ext.name) {
        return Err(ConversionError::InvalidImage);
    }
    let key = ResName::External(ext.name.clone());
    if rc.conflicts(Category::XObject, &key, ext.reference) {
        return Err(ConversionError::InvalidImage);
    }
    if content.depth >= MAX_SAVE_DEPTH {
        return Err(ConversionError::TooMuchNesting);
    }
    let _ = rc.add(Category::XObject, key, ext.reference);
    place_x_object(content, ResName::External(ext.name.clone()), ext.width, ext.height)
}

/// Encodes an image node internally: a new image object, painted with the
/// same placement as an external one. Skipped when image support is off.
pub fn render_image(
    image: &ImageNode,
    chunk: &mut Chunk,
    content: &mut Content,
    ctx: &mut Context,
    rc: &mut ResourceContainer,
) -> (r: Result<(), ConversionError>)
    requires
        ready(old(chunk), old(content), old(ctx), old(rc)),
    ensures
        kept(old(chunk), final(chunk), old(content), final(content), old(ctx), final(ctx), final(rc)),
        agrees(r, image_result(*image, st(old(chunk), old(content), old(ctx), old(rc)), old(ctx).options), st(final(chunk), final(content), final(ctx), final(rc))),
{
    if !ctx.options.image_support || !image.visible {
        return Ok(());
    }
    let reference = ctx.alloc_ref()?;
    let ghost objs = chunk.objects@;
    let obj = Object { reference, kind: ObjectKind::Image(image.id) };
    let ghost ov = object_v_of(obj);
    chunk.objects.push(obj);
    assert(objects_v(chunk.objects@) =~= objects_v(objs).push(ObjectV { reference, kind: ObjectKindV::Image(image.id) }));
    let name = rc.add_x_object(reference);
    place_x_object(content, name, image.width, image.height)
}

/// The value of an object (a name for `object_v` at a call site).
pub open spec fn object_v_of(o: Object) -> ObjectV {
    crate::context::object_v(o)
}

/// Renders one node, dispatching on its kind.
pub fn render_node(
    node: &Node,
    chunk: &mut Chunk,
    content: &mut Content,
    ctx: &mut Context,
    rc: &mut ResourceContainer,
) -> (r: Result<(), ConversionError>)
    requires
        ready(old(chunk), old(content), old(ctx), old(rc)),
    ensures
        kept(old(chunk), final(chunk), old(content), final(content), old(ctx), final(ctx), final(rc)),
        agrees(r, node_result(*node, st(old(chunk), old(content), old(ctx), old(rc)), old(ctx).options), st(final(chunk), final(content), final(ctx), final(rc))),
    decreases node,
{
    let ghost s = st(chunk, content, ctx, rc);
    match node {
        Node::Path(id) => {
            content.push(Op::Path(*id));
            assert(ops_v(content.ops@) =~= s.ops + seq![OpV::Path(*id)]);
            Ok(())
        },
        Node::Group(group) => render_group(group, chunk, content, ctx, rc),
        Node::Image(image) => {
            match &image.external {
                Some(ext) => render_external_image(image, ext, content, rc),
                None => render_image(image, chunk, content, ctx, rc),
            }
        },
        Node::Text(text) => {
            if !ctx.options.text_support {
                Ok(())
            } else if ctx.options.embed_text {
                content.push(Op::Text(text.id));
                assert(ops_v(content.ops@) =~= s.ops + seq![OpV::Text(text.id)]);
                Ok(())
            } else {
                render_group(&text.flattened, chunk, content, ctx, rc)
            }
        },
    }
}

/// Renders `children` in order. Stops at the first failure.
pub fn render_children(
    children: &Vec<Node>,
    chunk: &mut Chunk,
    content: &mut Content,
    ctx: &mut Context,
    rc: &mut ResourceContainer,
) -> (r: Result<(), ConversionError>)
    requires
        ready(old(chunk), old(content), old(ctx), old(rc)),
    ensures
        kept(old(chunk), final(chunk), old(content), final(content), old(ctx), final(ctx), final(rc)),
        agrees(r, children_result(*children, children.len() as int, st(old(chunk), old(content), old(ctx), old(rc)), old(ctx).options), st(final(chunk), final(content), final(ctx), final(rc))),
    decreases children,
{
    let ghost s0 = st(chunk, content, ctx, rc);
    let ghost options = ctx.options;
    let mut i: usize = 0;
    while i < children.len()
        invariant
            0 <= i <= children.len(),
            kept(old(chunk), chunk, old(content), content, old(ctx), ctx, rc),
            options == old(ctx).options,
            s0 == st(old(chunk), old(content), old(ctx), old(rc)),
            children_result(*children, i as int, s0, options) == Ok::<St, ConversionError>(st(chunk, content, ctx, rc)),
        decreases children.len() - i,
    {
        proof {
            vstd::std_specs::vec::axiom_vec_index_decreases(*children, i as int);
        }
        let r = render_node(&children[i], chunk, content, ctx, rc);
        if r.is_err() {
            proof {
                lemma_children_error_stays(*children, i + 1, children.len() as int, s0, options);
            }
            return r;
        }
        i = i + 1;
    }
    Ok(())
}

/// Renders a group: inline between a save and a restore when it can be,
/// otherwise as an isolated form object painted from the parent stream.
/// Either way the group's local transform composes onto the parent's.
pub fn render_group(
    group: &Group,
    chunk: &mut Chunk,
    content: &mut Content,
    ctx: &mut Context,
    rc: &mut ResourceContainer,
) -> (r: Result<(), ConversionError>)
    requires
        ready(old(chunk), old(content), old(ctx), old(rc)),
    ensures
        kept(old(chunk), final(chunk), old(content), final(content), old(ctx), final(ctx), final(rc)),
        agrees(r, group_result(*group, st(old(chunk), old(content), old(ctx), old(rc)), old(ctx).options), st(final(chunk), final(content), final(ctx), final(rc))),
    decreases group,
{
    let ghost s = st(chunk, content, ctx, rc);
    if !group.isolated {
        content.save_state_checked()?;
        content.push(Op::Transform(Factor::Local(group.transform)));
        assert(st(chunk, content, ctx, rc).ops =~= s.ops + seq![OpV::Save, OpV::Transform(Factor::Local(group.transform))]);
        let r = render_children(&group.children, chunk, content, ctx, rc);
        content.restore_state();
        return r;
    }
    let reference = ctx.alloc_ref()?;
    let mut inner = Content::new();
    let mut inner_rc = ResourceContainer::new();
    assert(ops_v(inner.ops@) =~= Seq::<OpV>::empty());
    assert(entries_v(inner_rc@) =~= Seq::<EntryV>::empty());
    render_children(&group.children, chunk, &mut inner, ctx, &mut inner_rc)?;
    let stream = ctx.finish_content(inner);
    let resources = inner_rc.finish();
    let ghost objs = chunk.objects@;
    let obj = Object {
        reference,
        kind: ObjectKind::Form { bounds: Bounds::Group(group.id), stream, resources },
    };
    let ghost ov = object_v_of(obj);
    chunk.objects.push(obj);
    assert(objects_v(chunk.objects@) =~= objects_v(objs).push(ov));
    let name = rc.add_x_object(reference);
    content.save_state_checked()?;
    content.push(Op::Transform(Factor::Local(group.transform)));
    content.push(Op::XObject(name));
    content.restore_state();
    assert(ops_v(content.ops@) =~= s.ops + isolated_ops(group.transform, reference));
    Ok(())
}

/// Renders a tree into a stream that already belongs to a transparency
/// group with the right bounding box: one save, the axis flip, the root
/// group, and the matching restore.
pub fn tree_to_stream(
    tree: &Tree,
    chunk: &mut Chunk,
    content: &mut Content,
    ctx: &mut Context,
    rc: &mut ResourceContainer,
) -> (r: Result<(), ConversionError>)
    requires
        ready(old(chunk), old(content), old(ctx), old(rc)),
    ensures
        kept(old(chunk), final(chunk), old(content), final(content), old(ctx), final(ctx), final(rc)),
        agrees(r, stream_result(*tree, st(old(chunk), old(content), old(ctx), old(rc)), old(ctx).options), st(final(chunk), final(content), final(ctx), final(rc))),
        old(content).depth >= MAX_SAVE_DEPTH ==> final(chunk).objects@ == old(chunk).objects@
            && final(ctx).next_ref == old(ctx).next_ref && final(rc)@ == old(rc)@
            && final(content).ops@ == old(content).ops@,
{
    let ghost s = st(chunk, content, ctx, rc);
    content.save_state_checked()?;
    content.push(Op::Transform(Factor::Flip));
    assert(st(chunk, content, ctx, rc).ops =~= s.ops + seq![OpV::Save, OpV::Transform(Factor::Flip)]);
    let r = render_group(&tree.root, chunk, content, ctx, rc);
    content.restore_state();
    r
}

/// Renders a tree as a form XObject of unit size, like an image: its
/// bounding box is the canvas and its matrix maps that box onto the unit
/// square. Returns the object's reference, the first one allocated.
pub fn tree_to_xobject(tree: &Tree, chunk: &mut Chunk, ctx: &mut Context) -> (r: Result<i32, ConversionError>)
    requires
        old(ctx).next_ref >= 1,
        old(chunk).wf(old(ctx).next_ref as int),
    ensures
        final(ctx).options == old(ctx).options,
        grows(old(chunk).objects@, final(chunk).objects@, old(ctx).next_ref as int, final(ctx).next_ref as int),
        final(ctx).next_ref >= 1,
        final(chunk).wf(final(ctx).next_ref as int),
        r is Err ==> forall|i: int|
            old(chunk).objects@.len() <= i < final(chunk).objects@.len() ==> (#[trigger] final(chunk).objects@[i]).reference
                != old(ctx).next_ref,
        match xobject_result(*tree, objects_v(old(chunk).objects@), old(ctx).next_ref as int, old(ctx).options) {
            Ok((objs, next)) => r == Ok::<i32, ConversionError>(old(ctx).next_ref)
                && objects_v(final(chunk).objects@) == objs && final(ctx).next_ref == next,
            Err(e) => r == Err::<i32, ConversionError>(e),
        },
{
    let reference = ctx.alloc_ref()?;
    let mut rc = ResourceContainer::new();
    let mut content = Content::new();
    assert(ops_v(content.ops@) =~= Seq::<OpV>::empty());
    assert(entries_v(rc@) =~= Seq::<EntryV>::empty());
    tree_to_stream(tree, chunk, &mut content, ctx, &mut rc)?;
    let stream = ctx.finish_content(content);
    let resources = rc.finish();
    let ghost objs = chunk.objects@;
    let obj = Object { reference, kind: ObjectKind::Form { bounds: Bounds::Canvas, stream, resources } };
    let ghost ov = object_v_of(obj);
    chunk.objects.push(obj);
    assert(objects_v(chunk.objects@) =~= objects_v(objs).push(ov));
    Ok(reference)
}

} // verus!
