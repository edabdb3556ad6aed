//! Per-conversion state: options, the reference allocator, content buffers
//! and the chunk of emitted objects.
use vstd::prelude::*;
use crate::model::{lemma_ops_v_push, op_v, ops_v, restores, saves, ConversionError, Op, OpV};
use crate::resources::{entries_v, keys_unique, Entry, EntryV};

verus! {

/// The deepest graphics-state nesting that PDF readers must support.
pub const MAX_SAVE_DEPTH: usize = 28;

/// Conversion options; read-only for the duration of a conversion.
#[derive(Clone, Copy, Debug, PartialEq, Eq, Structural)]
pub struct ConversionOptions {
    /// Compress finished content streams with Flate.
    pub compress: bool,
    /// Embed text as text; otherwise it is drawn as outlines.
    pub embed_text: bool,
    /// Whether image nodes can be encoded internally.
    pub image_support: bool,
    /// Whether text nodes can be rendered.
    pub text_support: bool,
}

/// Conversion state: the options and the reference allocator.
#[derive(Debug)]
pub struct Context {
    pub options: ConversionOptions,
    /// The next reference the allocator hands out.
    pub next_ref: i32,
}

impl Context {
    /// A context whose first reference is `first_ref`.
    pub fn new(options: ConversionOptions, first_ref: i32) -> (r: Context)
        requires
            first_ref >= 1,
        ensures
            r.options == options,
            r.next_ref == first_ref,
    {
        Context { options, next_ref: first_ref }
    }

    /// Allocates the next unused reference. References are handed out in
    /// strictly increasing order; `i32::MAX` is never handed out.
    pub fn alloc_ref(&mut self) -> (r: Result<i32, ConversionError>)
        requires
            old(self).next_ref >= 1,
        ensures
            final(self).options == old(self).options,
            old(self).next_ref < i32::MAX ==> r == Ok::<i32, ConversionError>(old(self).next_ref)
                && final(self).next_ref == old(self).next_ref + 1,
            old(self).next_ref == i32::MAX ==> r == Err::<i32, ConversionError>(
                ConversionError::TooManyObjects,
            ) && final(self).next_ref == old(self).next_ref,
    {
        if self.next_ref == i32::MAX {
            Err(ConversionError::TooManyObjects)
        } else {
            let r = self.next_ref;
            self.next_ref = self.next_ref + 1;
            Ok(r)
        }
    }

    /// Turns a content buffer into a stored stream, marked for Flate
    /// compression exactly when the options ask for it.
    pub fn finish_content(&self, content: Content) -> (r: Stream)
        ensures
            r.ops@ == content.ops@,
            r.deflate == self.options.compress,
    {
        Stream { ops: content.ops, deflate: self.options.compress }
    }
}

/// A content stream being written.
#[derive(Debug)]
pub struct Content {
    pub ops: Vec<Op>,
    /// The current save nesting depth.
    pub depth: usize,
}

impl Content {
    /// Well-formed: `depth` is the number of saves not yet restored, and stays
    /// within the limit.
    pub open spec fn wf(&self) -> bool {
        self.depth as int == saves(self.ops@) - restores(self.ops@) && self.depth
            <= MAX_SAVE_DEPTH
    }

    /// An empty buffer.
    pub fn new() -> (r: Content)
        ensures
            r.ops@ == Seq::<Op>::empty(),
            r.depth == 0,
            r.wf(),
    {
        Content { ops: Vec::new(), depth: 0 }
    }

    /// Saves the graphics state, unless that would nest deeper than
    /// `MAX_SAVE_DEPTH`.
    pub fn save_state_checked(&mut self) -> (r: Result<(), ConversionError>)
        requires
            old(self).wf(),
        ensures
            final(self).wf(),
            old(self).depth < MAX_SAVE_DEPTH ==> r is Ok && final(self).ops@ == old(
                self,
            ).ops@.push(Op::Save) && final(self).depth == old(self).depth + 1 && ops_v(
                final(self).ops@,
            ) == ops_v(old(self).ops@).push(OpV::Save),
            old(self).depth >= MAX_SAVE_DEPTH ==> r == Err::<(), ConversionError>(
                ConversionError::TooMuchNesting,
            ) && final(self).ops@ == old(self).ops@ && final(self).depth == old(self).depth,
    {
        if self.depth >= MAX_SAVE_DEPTH {
            return Err(ConversionError::TooMuchNesting);
        }
        let ghost before = self.ops@;
        self.ops.push(Op::Save);
        assert(self.ops@.drop_last() == before);
        proof { lemma_ops_v_push(before, Op::Save); }
        self.depth = self.depth + 1;
        Ok(())
    }

    /// Restores the graphics state saved last.
    pub fn restore_state(&mut self)
        requires
            old(self).wf(),
            old(self).depth > 0,
        ensures
            final(self).wf(),
            final(self).ops@ == old(self).ops@.push(Op::Restore),
            ops_v(final(self).ops@) == ops_v(old(self).ops@).push(OpV::Restore),
            final(self).depth == old(self).depth - 1,
    {
        let ghost before = self.ops@;
        self.ops.push(Op::Restore);
        assert(self.ops@.drop_last() == before);
        proof { lemma_ops_v_push(before, Op::Restore); }
        self.depth = self.depth - 1;
    }

    /// Appends an operator other than save and restore.
    pub fn push(&mut self, op: Op)
        requires
            old(self).wf(),
            !(op is Save),
            !(op is Restore),
        ensures
            final(self).wf(),
            final(self).ops@ == old(self).ops@.push(op),
            ops_v(final(self).ops@) == ops_v(old(self).ops@).push(op_v(op)),
            final(self).depth == old(self).depth,
    {
        let ghost before = self.ops@;
        let ghost o = op;
        self.ops.push(op);
        assert(self.ops@.drop_last() == before);
        proof { lemma_ops_v_push(before, o); }
    }
}

/// A finished content stream.
#[derive(Debug)]
pub struct Stream {
    pub ops: Vec<Op>,
    /// Whether the stream is to be Flate-compressed.
    pub deflate: bool,
}

/// What the bounding box of a form object is taken from.
#[derive(Clone, Copy, Debug, PartialEq, Eq, Structural)]
pub enum Bounds {
    /// The bounding box of the group with this handle.
    Group(u64),
    /// The tree's canvas, mapped onto the unit square.
    Canvas,
}

/// An emitted indirect object.
#[derive(Debug)]
pub enum ObjectKind {
    /// A form XObject with its content stream and resource dictionary.
    Form { bounds: Bounds, stream: Stream, resources: Vec<Entry> },
    /// An image XObject encoded from the image node with this handle.
    Image(u64),
}

/// An indirect object and its reference.
#[derive(Debug)]
pub struct Object {
    pub reference: i32,
    pub kind: ObjectKind,
}

/// An append-only store of emitted objects.
#[derive(Debug)]
pub struct Chunk {
    pub objects: Vec<Object>,
}

/// An object kind as a value.
pub enum ObjectKindV {
    Form { bounds: Bounds, ops: Seq<OpV>, entries: Seq<EntryV>, deflate: bool },
    Image(u64),
}

/// An object as a value.
pub struct ObjectV {
    pub reference: i32,
    pub kind: ObjectKindV,
}

/// The value of an object.
pub open spec fn object_v(o: Object) -> ObjectV {
    ObjectV {
        reference: o.reference,
        kind: match o.kind {
            ObjectKind::Form { bounds, stream, resources } => ObjectKindV::Form {
                bounds,
                ops: ops_v(stream.ops@),
                entries: entries_v(resources@),
                deflate: stream.deflate,
            },
            ObjectKind::Image(i) => ObjectKindV::Image(i),
        },
    }
}

/// The values of a sequence of objects.
pub open spec fn objects_v(s: Seq<Object>) -> Seq<ObjectV> {
    s.map_values(|o: Object| object_v(o))
}

/// No two objects share a reference.
pub open spec fn refs_distinct(objs: Seq<Object>) -> bool {
    forall|i: int, j: int|
        0 <= i < j < objs.len() ==> (#[trigger] objs[i]).reference != (#[trigger] objs[j]).reference
}

/// Every form object has balanced saves and restores and a resource
/// dictionary with unique keys.
pub open spec fn forms_sound(objs: Seq<Object>) -> bool {
    forall|i: int|
        0 <= i < objs.len() ==> match (#[trigger] objs[i]).kind {
            ObjectKind::Form { stream, resources, .. } => saves(stream.ops@) == restores(
                stream.ops@,
            ) && keys_unique(resources@),
            ObjectKind::Image(_) => true,
        }
}

/// Every reference in `objs` was handed out by an allocator now at `next`.
pub open spec fn refs_below(objs: Seq<Object>, next: int) -> bool {
    forall|i: int| 0 <= i < objs.len() ==> 0 < (#[trigger] objs[i]).reference < next
}

impl Chunk {
    /// An empty chunk.
    pub fn new() -> (r: Chunk)
        ensures
            r.objects@ == Seq::<Object>::empty(),
    {
        Chunk { objects: Vec::new() }
    }

    /// Well-formed against an allocator at `next`.
    pub open spec fn wf(&self, next: int) -> bool {
        refs_distinct(self.objects@) && forms_sound(self.objects@) && refs_below(
            self.objects@,
            next,
        )
    }
}

} // verus!
