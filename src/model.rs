//! The scene tree as the converter reads it, and the content-stream
//! operators it emits.
use vstd::prelude::*;

verus! {

/// A factor of an affine transform. The numeric matrices live with the
/// caller; the converter decides which factors compose, and in what order.
#[derive(Clone, Copy, Debug, PartialEq, Eq, Structural)]
pub enum Factor {
    /// The one-time flip from a top-left, downward-axis canvas to PDF user
    /// space (uses the canvas height).
    Flip,
    /// The local transform of the group with the given handle.
    Local(u64),
    /// Scaling of a unit-square object to `width` by `height`, with a vertical
    /// flip. Both sizes are the IEEE-754 bit patterns of positive `f32` values.
    Scale { width: u32, height: u32 },
}

/// The category of a resource dictionary entry.
#[derive(Clone, Copy, Debug, PartialEq, Eq, Structural)]
pub enum Category {
    XObject,
    Font,
    Pattern,
    Shading,
    ExtGState,
}

/// The name under which a resource is known inside one content stream.
#[derive(Clone, Debug, PartialEq, Eq)]
pub enum ResName {
    /// A name generated by the converter for the object with this reference.
    Object(i32),
    /// A name supplied by the caller through an external image descriptor.
    External(Vec<u8>),
}

/// A content-stream operator.
#[derive(Clone, Debug, PartialEq, Eq)]
pub enum Op {
    /// `q`: save the graphics state.
    Save,
    /// `Q`: restore the graphics state.
    Restore,
    /// `cm`: pre-concatenate a transform factor.
    Transform(Factor),
    /// Paint the path with this handle (its leaf renderer runs in the caller).
    Path(u64),
    /// Paint the text node with this handle as embedded text.
    Text(u64),
    /// `Do`: paint the named XObject.
    XObject(ResName),
}

/// A descriptor of a caller-owned image object that stands in for an image
/// node.
#[derive(Clone, Debug)]
pub struct ExternalImage {
    /// The resource name, which must be valid UTF-8.
    pub name: Vec<u8>,
    /// The caller-owned object reference.
    pub reference: i32,
    /// Bit pattern of the `f32` width; valid when positive and finite.
    pub width: u32,
    /// Bit pattern of the `f32` height; valid when positive and finite.
    pub height: u32,
}

/// An image node.
#[derive(Clone, Debug)]
pub struct ImageNode {
    /// Handle of the node's pixel data and geometry, held by the caller.
    pub id: u64,
    pub visible: bool,
    /// Bit pattern of the `f32` width of the image's view box.
    pub width: u32,
    /// Bit pattern of the `f32` height of the image's view box.
    pub height: u32,
    /// What the caller's resolver returned for this node, if one is set.
    pub external: Option<ExternalImage>,
}

/// A group node.
#[derive(Debug)]
pub struct Group {
    /// Handle of the group, by which the caller finds its bounding box.
    pub id: u64,
    /// Handle of the group's local transform.
    pub transform: u64,
    /// Whether the group carries compositing properties (opacity, blend mode,
    /// clip path, mask) that force an isolated form object.
    pub isolated: bool,
    /// Children in paint order.
    pub children: Vec<Node>,
}

/// A text node, with its outline equivalent.
#[derive(Debug)]
pub struct TextNode {
    pub id: u64,
    pub flattened: Group,
}

/// A node of the scene tree.
#[derive(Debug)]
pub enum Node {
    Path(u64),
    Group(Group),
    Image(ImageNode),
    Text(TextNode),
}

/// A scene tree: its root group. The canvas size stays with the caller.
#[derive(Debug)]
pub struct Tree {
    pub root: Group,
}

/// A resource name as a value: a generated name, or the bytes of a
/// caller's name.
pub enum NameV {
    Object(i32),
    External(Seq<u8>),
}

/// A content-stream operator as a value.
pub enum OpV {
    Save,
    Restore,
    Transform(Factor),
    Path(u64),
    Text(u64),
    XObject(NameV),
}

/// The value of a resource name.
pub open spec fn name_v(n: ResName) -> NameV {
    match n {
        ResName::Object(r) => NameV::Object(r),
        ResName::External(b) => NameV::External(b@),
    }
}

/// The value of an operator.
pub open spec fn op_v(o: Op) -> OpV {
    match o {
        Op::Save => OpV::Save,
        Op::Restore => OpV::Restore,
        Op::Transform(f) => OpV::Transform(f),
        Op::Path(p) => OpV::Path(p),
        Op::Text(t) => OpV::Text(t),
        Op::XObject(n) => OpV::XObject(name_v(n)),
    }
}

/// The values of a sequence of operators.
pub open spec fn ops_v(s: Seq<Op>) -> Seq<OpV> {
    s.map_values(|o: Op| op_v(o))
}

/// `ops_v` distributes over appending one operator.
pub proof fn lemma_ops_v_push(s: Seq<Op>, o: Op)
    ensures
        ops_v(s.push(o)) == ops_v(s).push(op_v(o)),
{
    assert(ops_v(s.push(o)) =~= ops_v(s).push(op_v(o)));
}

/// Whether an `f32` bit pattern holds a finite value greater than zero.
pub open spec fn positive_finite(bits: u32) -> bool {
    0 < bits && bits < 0x7f80_0000
}

/// Decides `positive_finite`.
pub fn is_positive_finite(bits: u32) -> (r: bool)
    ensures
        r == positive_finite(bits),
{
    0 < bits && bits < 0x7f80_0000
}

/// The number of save operators in `ops`.
pub open spec fn saves(ops: Seq<Op>) -> nat
    decreases ops.len(),
{
    if ops.len() == 0 {
        0
    } else {
        saves(ops.drop_last()) + if ops.last() is Save { 1nat } else { 0nat }
    }
}

/// The number of restore operators in `ops`.
pub open spec fn restores(ops: Seq<Op>) -> nat
    decreases ops.len(),
{
    if ops.len() == 0 {
        0
    } else {
        restores(ops.drop_last()) + if ops.last() is Restore { 1nat } else { 0nat }
    }
}

} // verus!

verus! {

/// Why a conversion failed.
#[derive(Clone, Copy, Debug, PartialEq, Eq, Structural)]
pub enum ConversionError {
    /// An external image descriptor has a size that is not positive and
    /// finite, a name that is not valid UTF-8, or a name already bound to
    /// another object in the same resource dictionary.
    InvalidImage,
    /// A graphics-state save would exceed the nesting depth that PDF readers
    /// are required to support.
    TooMuchNesting,
    /// The reference allocator ran out of positive 32-bit numbers.
    TooManyObjects,
}

} // verus!
