use svg2pdf::context::{Bounds, Chunk, Content, Context, ConversionOptions, ObjectKind};
use svg2pdf::model::{
    is_positive_finite, Category, ConversionError, ExternalImage, Factor, Group, ImageNode, Node,
    Op, ResName, TextNode, Tree,
};
use svg2pdf::render::{render_external_image, render_node, tree_to_stream, tree_to_xobject};
use svg2pdf::resources::ResourceContainer;

fn opts() -> ConversionOptions {
    ConversionOptions { compress: true, embed_text: true, image_support: true, text_support: true }
}

fn group(transform: u64, isolated: bool, children: Vec<Node>) -> Group {
    Group { id: transform, transform, isolated, children }
}

fn image(id: u64, external: Option<ExternalImage>) -> ImageNode {
    ImageNode { id, visible: true, width: 64.0f32.to_bits(), height: 32.0f32.to_bits(), external }
}

fn ext(name: &[u8], reference: i32, w: f32, h: f32) -> ExternalImage {
    ExternalImage { name: name.to_vec(), reference, width: w.to_bits(), height: h.to_bits() }
}

fn stream(tree: &Tree, options: ConversionOptions) -> (Result<(), ConversionError>, Vec<Op>, Chunk, Vec<svg2pdf::resources::Entry>) {
    let mut chunk = Chunk::new();
    let mut content = Content::new();
    let mut ctx = Context::new(options, 1);
    let mut rc = ResourceContainer::new();
    let r = tree_to_stream(tree, &mut chunk, &mut content, &mut ctx, &mut rc);
    (r, content.ops, chunk, rc.finish())
}

#[test]
fn positive_finite_bits() {
    assert!(is_positive_finite(1.0f32.to_bits()));
    assert!(is_positive_finite(f32::MAX.to_bits()));
    assert!(is_positive_finite(f32::MIN_POSITIVE.to_bits()));
    assert!(!is_positive_finite(0.0f32.to_bits()));
    assert!(!is_positive_finite((-0.0f32).to_bits()));
    assert!(!is_positive_finite((-1.0f32).to_bits()));
    assert!(!is_positive_finite(f32::INFINITY.to_bits()));
    assert!(!is_positive_finite(f32::NAN.to_bits()));
}

#[test]
fn transform_composes_at_depth_three() {
    let leaf = Node::Path(7);
    let g3 = group(3, false, vec![leaf]);
    let g2 = group(2, false, vec![Node::Group(g3)]);
    let root = group(1, false, vec![Node::Group(g2)]);
    let (r, ops, chunk, _) = stream(&Tree { root }, opts());
    assert_eq!(r, Ok(()));
    assert!(chunk.objects.is_empty());
    let expected = vec![
        Op::Save,
        Op::Transform(Factor::Flip),
        Op::Save,
        Op::Transform(Factor::Local(1)),
        Op::Save,
        Op::Transform(Factor::Local(2)),
        Op::Save,
        Op::Transform(Factor::Local(3)),
        Op::Path(7),
        Op::Restore,
        Op::Restore,
        Op::Restore,
        Op::Restore,
    ];
    assert_eq!(ops, expected);
}

#[test]
fn references_are_unique() {
    let inner = group(2, true, vec![Node::Image(image(5, None))]);
    let root = group(1, true, vec![Node::Group(inner), Node::Image(image(6, None)), Node::Path(1)]);
    let mut chunk = Chunk::new();
    let mut ctx = Context::new(opts(), 10);
    let r = tree_to_xobject(&Tree { root }, &mut chunk, &mut ctx);
    assert_eq!(r, Ok(10));
    let mut refs: Vec<i32> = chunk.objects.iter().map(|o| o.reference).collect();
    assert_eq!(refs.len(), 5);
    refs.sort();
    refs.dedup();
    assert_eq!(refs, vec![10, 11, 12, 13, 14]);
    assert_eq!(ctx.next_ref, 15);
}

#[test]
fn saves_and_restores_balance() {
    let inner = group(2, true, vec![Node::Path(1), Node::Group(group(3, false, vec![Node::Path(2)]))]);
    let root = group(1, false, vec![Node::Group(inner), Node::Image(image(4, None)), Node::Path(3)]);
    let (r, ops, chunk, _) = stream(&Tree { root }, opts());
    assert_eq!(r, Ok(()));
    let count = |ops: &[Op], want: &Op| ops.iter().filter(|o| *o == want).count();
    assert_eq!(count(&ops, &Op::Save), count(&ops, &Op::Restore));
    for o in &chunk.objects {
        if let ObjectKind::Form { stream, .. } = &o.kind {
            assert_eq!(count(&stream.ops, &Op::Save), count(&stream.ops, &Op::Restore));
        }
    }
}

#[test]
fn external_and_internal_images_share_placement() {
    let w = 64.0f32.to_bits();
    let h = 32.0f32.to_bits();
    let internal = group(1, false, vec![Node::Image(image(9, None))]);
    let external = group(1, false, vec![Node::Image(image(9, Some(ext(b"ExtImg0", 500, 64.0, 32.0))))]);
    let (r1, ops1, chunk1, res1) = stream(&Tree { root: internal }, opts());
    let (r2, ops2, chunk2, res2) = stream(&Tree { root: external }, opts());
    assert_eq!(r1, Ok(()));
    assert_eq!(r2, Ok(()));
    assert_eq!(ops1.len(), ops2.len());
    let i = ops1.iter().position(|o| matches!(o, Op::XObject(_))).unwrap();
    for k in 0..ops1.len() {
        if k != i {
            assert_eq!(ops1[k], ops2[k]);
        }
    }
    assert_eq!(ops1[i - 1], Op::Transform(Factor::Scale { width: w, height: h }));
    assert_eq!(ops1[i], Op::XObject(ResName::Object(1)));
    assert_eq!(ops2[i], Op::XObject(ResName::External(b"ExtImg0".to_vec())));
    assert_eq!(chunk1.objects.len(), 1);
    assert!(matches!(chunk1.objects[0].kind, ObjectKind::Image(9)));
    assert!(chunk2.objects.is_empty());
    assert_eq!(res1[0].name, ResName::Object(1));
    assert_eq!(res2[0].name, ResName::External(b"ExtImg0".to_vec()));
    assert_eq!(res2[0].reference, 500);
}

#[test]
fn same_tree_gives_same_output() {
    let a = group(1, false, vec![Node::Image(image(9, None)), Node::Path(2)]);
    let b = group(1, false, vec![Node::Image(image(9, None)), Node::Path(2)]);
    let (r1, ops1, chunk1, res1) = stream(&Tree { root: a }, opts());
    let (r2, ops2, chunk2, res2) = stream(&Tree { root: b }, opts());
    assert_eq!(r1, r2);
    assert_eq!(ops1, ops2);
    assert_eq!(format!("{:?}", chunk1), format!("{:?}", chunk2));
    assert_eq!(res1, res2);
}

#[test]
fn disabled_images_are_skipped() {
    let root = group(1, false, vec![Node::Image(image(9, None)), Node::Path(2)]);
    let options = ConversionOptions { image_support: false, ..opts() };
    let (r, ops, chunk, res) = stream(&Tree { root }, options);
    assert_eq!(r, Ok(()));
    assert!(ops.contains(&Op::Path(2)));
    assert!(!ops.iter().any(|o| matches!(o, Op::XObject(_))));
    assert!(chunk.objects.is_empty());
    assert!(res.is_empty());
}

#[test]
fn object_twice_is_isomorphic() {
    let make = || Tree {
        root: group(1001, false, vec![
            Node::Group(group(1002, true, vec![Node::Path(1003)])),
            Node::Image(image(1004, None)),
        ]),
    };
    let mut c1 = Chunk::new();
    let mut x1 = Context::new(opts(), 1);
    let r1 = tree_to_xobject(&make(), &mut c1, &mut x1).unwrap();
    let mut c2 = Chunk::new();
    let mut x2 = Context::new(opts(), 100);
    let r2 = tree_to_xobject(&make(), &mut c2, &mut x2).unwrap();
    assert_eq!(r1, 1);
    assert_eq!(r2, 100);
    let renumber = |s: String, base: i32| {
        let mut s = s;
        for k in (0..4).rev() {
            s = s.replace(&format!("({})", base + k), &format!("(#{})", k));
            s = s.replace(&format!("reference: {}", base + k), &format!("reference: #{}", k));
        }
        s
    };
    assert_eq!(renumber(format!("{:?}", c1), 1), renumber(format!("{:?}", c2), 100));
}

#[test]
fn xobject_spans_canvas_and_compresses() {
    let root = group(1, false, vec![Node::Path(4)]);
    let mut chunk = Chunk::new();
    let mut ctx = Context::new(opts(), 3);
    assert_eq!(tree_to_xobject(&Tree { root }, &mut chunk, &mut ctx), Ok(3));
    match &chunk.objects[0].kind {
        ObjectKind::Form { bounds, stream, resources } => {
            assert_eq!(*bounds, Bounds::Canvas);
            assert!(stream.deflate);
            assert!(resources.is_empty());
            assert_eq!(stream.ops[0], Op::Save);
            assert_eq!(stream.ops[1], Op::Transform(Factor::Flip));
        }
        ObjectKind::Image(_) => panic!("expected a form"),
    }
    let root = group(1, false, vec![Node::Path(4)]);
    let mut ctx = Context::new(ConversionOptions { compress: false, ..opts() }, 3);
    let mut chunk = Chunk::new();
    tree_to_xobject(&Tree { root }, &mut chunk, &mut ctx).unwrap();
    assert!(matches!(&chunk.objects[0].kind, ObjectKind::Form { stream, .. } if !stream.deflate));
}

#[test]
fn invalid_external_sizes_fail() {
    for (w, h) in [(0.0f32, 1.0f32), (1.0, -2.0), (f32::NAN, 1.0), (1.0, f32::INFINITY)] {
        let root = group(1, false, vec![Node::Image(image(9, Some(ext(b"Im", 50, w, h))))]);
        let (r, _, _, _) = stream(&Tree { root }, opts());
        assert_eq!(r, Err(ConversionError::InvalidImage));
    }
}

#[test]
fn non_utf8_external_name_fails() {
    let mut content = Content::new();
    let mut rc = ResourceContainer::new();
    let img = image(9, None);
    let r = render_external_image(&img, &ext(&[0x49, 0xff], 50, 1.0, 1.0), &mut content, &mut rc);
    assert_eq!(r, Err(ConversionError::InvalidImage));
    assert!(content.ops.is_empty());
    let r = render_external_image(&img, &ext("Ïm".as_bytes(), 50, 1.0, 1.0), &mut content, &mut rc);
    assert_eq!(r, Ok(()));
    assert_eq!(content.ops.len(), 4);
}

#[test]
fn invisible_external_image_emits_nothing() {
    let mut content = Content::new();
    let mut rc = ResourceContainer::new();
    let img = ImageNode { visible: false, ..image(9, None) };
    let r = render_external_image(&img, &ext(b"Im", 50, 0.0, 0.0), &mut content, &mut rc);
    assert_eq!(r, Ok(()));
    assert!(content.ops.is_empty());
    assert!(rc.finish().is_empty());
}

#[test]
fn external_names_stay_unique() {
    let root = group(1, false, vec![
        Node::Image(image(1, Some(ext(b"ExtImg0", 500, 8.0, 8.0)))),
        Node::Image(image(2, Some(ext(b"ExtImg0", 500, 8.0, 8.0)))),
    ]);
    let (r, ops, _, res) = stream(&Tree { root }, opts());
    assert_eq!(r, Ok(()));
    assert_eq!(res.len(), 1);
    assert_eq!(ops.iter().filter(|o| matches!(o, Op::XObject(_))).count(), 2);
    let root = group(1, false, vec![
        Node::Image(image(1, Some(ext(b"ExtImg0", 500, 8.0, 8.0)))),
        Node::Image(image(2, Some(ext(b"ExtImg0", 501, 8.0, 8.0)))),
    ]);
    let (r, _, _, _) = stream(&Tree { root }, opts());
    assert_eq!(r, Err(ConversionError::InvalidImage));
}

#[test]
fn resource_container_add_rules() {
    let mut rc = ResourceContainer::new();
    assert_eq!(rc.add(Category::Font, ResName::External(b"F1".to_vec()), 4), Ok(()));
    assert_eq!(rc.add(Category::XObject, ResName::External(b"F1".to_vec()), 5), Ok(()));
    assert_eq!(rc.add(Category::Font, ResName::External(b"F1".to_vec()), 4), Ok(()));
    assert_eq!(rc.add(Category::Font, ResName::External(b"F1".to_vec()), 6), Err(ConversionError::InvalidImage));
    assert_eq!(rc.add_x_object(9), ResName::Object(9));
    assert_eq!(rc.find(Category::XObject, &ResName::Object(9)), Some(2));
    assert_eq!(rc.find(Category::Pattern, &ResName::Object(9)), None);
    assert_eq!(rc.finish().len(), 3);
}

#[test]
fn too_deep_nesting_fails() {
    let mut node = Node::Path(1);
    for k in 0..28u64 {
        node = Node::Group(group(k, false, vec![node]));
    }
    let root = group(99, false, vec![node]);
    let (r, ops, _, _) = stream(&Tree { root }, opts());
    assert_eq!(r, Err(ConversionError::TooMuchNesting));
    let count = |want: &Op| ops.iter().filter(|o| *o == want).count();
    assert_eq!(count(&Op::Save), count(&Op::Restore));
    let mut node = Node::Path(1);
    for k in 0..26u64 {
        node = Node::Group(group(k, false, vec![node]));
    }
    let (r, _, _, _) = stream(&Tree { root: group(99, false, vec![node]) }, opts());
    assert_eq!(r, Ok(()));
}

#[test]
fn allocator_exhaustion_fails() {
    let mut ctx = Context::new(opts(), i32::MAX - 1);
    assert_eq!(ctx.alloc_ref(), Ok(i32::MAX - 1));
    assert_eq!(ctx.alloc_ref(), Err(ConversionError::TooManyObjects));
    let mut chunk = Chunk::new();
    let r = tree_to_xobject(&Tree { root: group(1, false, vec![]) }, &mut chunk, &mut ctx);
    assert_eq!(r, Err(ConversionError::TooManyObjects));
}

#[test]
fn text_follows_options() {
    let text = || Node::Text(TextNode { id: 4, flattened: group(8, false, vec![Node::Path(5)]) });
    let mut chunk = Chunk::new();
    let mut ctx = Context::new(opts(), 1);
    let mut rc = ResourceContainer::new();
    let mut content = Content::new();
    render_node(&text(), &mut chunk, &mut content, &mut ctx, &mut rc).unwrap();
    assert_eq!(content.ops, vec![Op::Text(4)]);
    let mut ctx = Context::new(ConversionOptions { embed_text: false, ..opts() }, 1);
    let mut content = Content::new();
    render_node(&text(), &mut chunk, &mut content, &mut ctx, &mut rc).unwrap();
    assert_eq!(content.ops, vec![Op::Save, Op::Transform(Factor::Local(8)), Op::Path(5), Op::Restore]);
    let mut ctx = Context::new(ConversionOptions { text_support: false, ..opts() }, 1);
    let mut content = Content::new();
    render_node(&text(), &mut chunk, &mut content, &mut ctx, &mut rc).unwrap();
    assert!(content.ops.is_empty());
}

fn single_image_tree(external: Option<ExternalImage>) -> Tree {
    Tree { root: group(1, false, vec![Node::Group(group(2, false, vec![Node::Image(image(0, external))]))]) }
}

#[test]
fn external_image_provider() {
    let tree = single_image_tree(Some(ext(b"ExtImg0", 50000, 64.0, 64.0)));
    let mut chunk = Chunk::new();
    let mut ctx = Context::new(opts(), 1);
    let id = tree_to_xobject(&tree, &mut chunk, &mut ctx).unwrap();
    assert_eq!(chunk.objects.len(), 1);
    assert_eq!(chunk.objects[0].reference, id);
    match &chunk.objects[0].kind {
        ObjectKind::Form { stream, resources, .. } => {
            assert_eq!(resources.len(), 1);
            assert_eq!(resources[0].name, ResName::External(b"ExtImg0".to_vec()));
            assert_eq!(resources[0].reference, 50000);
            assert!(stream.ops.contains(&Op::XObject(ResName::External(b"ExtImg0".to_vec()))));
            let w = 64.0f32.to_bits();
            assert!(stream.ops.contains(&Op::Transform(Factor::Scale { width: w, height: w })));
        }
        ObjectKind::Image(_) => panic!("expected a form"),
    }
}

#[test]
fn external_image_provider_fallback() {
    let mut chunk = Chunk::new();
    let mut ctx = Context::new(opts(), 1);
    assert!(tree_to_xobject(&single_image_tree(None), &mut chunk, &mut ctx).is_ok());
    assert!(chunk.objects.iter().any(|o| matches!(o.kind, ObjectKind::Image(0))));
}

#[test]
fn no_image_provider() {
    let mut chunk = Chunk::new();
    let mut ctx = Context::new(opts(), 1);
    tree_to_xobject(&single_image_tree(None), &mut chunk, &mut ctx).unwrap();
    assert_eq!(chunk.objects.len(), 2);
}

#[test]
fn malformed_utf8_names_fail() {
    for name in [&[0xC0u8, 0x80][..], &[0xED, 0xA0, 0x80], &[0xF4, 0x90, 0x80, 0x80], &[0xE2, 0x82], &[0xFF]] {
        let mut content = Content::new();
        let mut rc = ResourceContainer::new();
        let r = render_external_image(&image(1, None), &ext(name, 7, 1.0, 1.0), &mut content, &mut rc);
        assert_eq!(r, Err(ConversionError::InvalidImage));
        assert!(rc.finish().is_empty());
    }
    for name in [&[0xE2u8, 0x82, 0xAC][..], &[0xF0, 0x9F, 0x98, 0x80], &[0x41]] {
        let mut content = Content::new();
        let mut rc = ResourceContainer::new();
        let r = render_external_image(&image(1, None), &ext(name, 7, 1.0, 1.0), &mut content, &mut rc);
        assert_eq!(r, Ok(()));
    }
}

#[test]
fn nesting_error_leaves_container_unchanged() {
    let mut content = Content::new();
    for _ in 0..28 {
        content.save_state_checked().unwrap();
    }
    let mut rc = ResourceContainer::new();
    let r = render_external_image(&image(1, None), &ext(b"Im", 7, 1.0, 1.0), &mut content, &mut rc);
    assert_eq!(r, Err(ConversionError::TooMuchNesting));
    assert!(rc.finish().is_empty());
}
