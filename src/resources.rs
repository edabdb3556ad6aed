//! The resource container: named resources used by one content stream.
use vstd::prelude::*;
use crate::model::{name_v, Category, ConversionError, NameV, ResName};

verus! {

/// One entry of a resource dictionary.
#[derive(Clone, Debug, PartialEq, Eq)]
pub struct Entry {
    pub category: Category,
    pub name: ResName,
    pub reference: i32,
}

/// Whether two resource names are the same name.
pub open spec fn same_name(a: ResName, b: ResName) -> bool {
    name_v(a) == name_v(b)
}

/// A resource entry as a value.
pub struct EntryV {
    pub category: Category,
    pub name: NameV,
    pub reference: i32,
}

/// The value of an entry.
pub open spec fn entry_v(e: Entry) -> EntryV {
    EntryV { category: e.category, name: name_v(e.name), reference: e.reference }
}

/// The values of a sequence of entries.
pub open spec fn entries_v(es: Seq<Entry>) -> Seq<EntryV> {
    es.map_values(|e: Entry| entry_v(e))
}

/// Whether `es` binds the category and name of `e`.
pub open spec fn binds(es: Seq<EntryV>, e: EntryV) -> bool {
    exists|i: int| 0 <= i < es.len() && (#[trigger] es[i]).category == e.category && es[i].name == e.name
}

/// Whether `es` binds the category and name of `e` to another object.
pub open spec fn conflicts_with(es: Seq<EntryV>, e: EntryV) -> bool {
    exists|i: int|
        0 <= i < es.len() && (#[trigger] es[i]).category == e.category && es[i].name == e.name
            && es[i].reference != e.reference
}

/// `es` after registering `e`: unchanged where its key is already bound.
pub open spec fn with_entry(es: Seq<EntryV>, e: EntryV) -> Seq<EntryV> {
    if binds(es, e) {
        es
    } else {
        es.push(e)
    }
}

/// Whether two entries share their (category, name) pair.
pub open spec fn same_key(a: Entry, b: Entry) -> bool {
    a.category == b.category && same_name(a.name, b.name)
}

/// No two entries share a (category, name) pair.
pub open spec fn keys_unique(es: Seq<Entry>) -> bool {
    forall|i: int, j: int| 0 <= i < j < es.len() ==> !same_key(#[trigger] es[i], #[trigger] es[j])
}

/// A generated name stands for the object whose reference it carries.
pub open spec fn generated_names_match(es: Seq<Entry>) -> bool {
    forall|i: int|
        0 <= i < es.len() ==> ((#[trigger] es[i]).name is Object ==> es[i].name->Object_0
            == es[i].reference)
}

/// Decides `same_name`.
pub fn name_eq(a: &ResName, b: &ResName) -> (r: bool)
    ensures
        r == same_name(*a, *b),
{
    match (a, b) {
        (ResName::Object(x), ResName::Object(y)) => *x == *y,
        (ResName::External(x), ResName::External(y)) => {
            assert(a->External_0 == *x && b->External_0 == *y);
            if x.len() != y.len() {
                return false;
            }
            let mut i: usize = 0;
            while i < x.len()
                invariant
                    a->External_0 == *x,
                    b->External_0 == *y,
                    x.len() == y.len(),
                    0 <= i <= x.len(),
                    forall|k: int| 0 <= k < i ==> x@[k] == y@[k],
                decreases x.len() - i,
            {
                if x[i] != y[i] {
                    assert(x@[i as int] != y@[i as int]);
                    assert(x@ != y@);
                    return false;
                }
                i = i + 1;
            }
            assert(x@ =~= y@);
            true
        },
        _ => false,
    }
}

/// A scoped accumulator of named resources, finished once into the resource
/// dictionary of the stream that owns it.
#[derive(Debug)]
pub struct ResourceContainer {
    entries: Vec<Entry>,
}

impl View for ResourceContainer {
    type V = Seq<Entry>;

    closed spec fn view(&self) -> Seq<Entry> {
        self.entries@
    }
}

impl ResourceContainer {
    /// Well-formed: unique keys, and generated names match their objects.
    pub open spec fn wf(&self) -> bool {
        keys_unique(self@) && generated_names_match(self@)
    }

    /// An empty container.
    pub fn new() -> (r: ResourceContainer)
        ensures
            r@ == Seq::<Entry>::empty(),
            r.wf(),
    {
        ResourceContainer { entries: Vec::new() }
    }

    /// The index of the entry with this category and name, if any.
    pub fn find(&self, category: Category, name: &ResName) -> (r: Option<usize>)
        ensures
            match r {
                Some(i) => i < self@.len() && self@[i as int].category == category
                    && same_name(self@[i as int].name, *name),
                None => forall|i: int|
                    0 <= i < self@.len() ==> !(#[trigger] self@[i].category == category
                        && same_name(self@[i].name, *name)),
            },
    {
        let mut i: usize = 0;
        while i < self.entries.len()
            invariant
                0 <= i <= self.entries.len(),
                forall|k: int|
                    0 <= k < i ==> !(#[trigger] self.entries@[k].category == category
                        && same_name(self.entries@[k].name, *name)),
            decreases self.entries.len() - i,
        {
            if self.entries[i].category == category && name_eq(&self.entries[i].name, name) {
                return Some(i);
            }
            i = i + 1;
        }
        None
    }

    /// Registers `reference` under `name` in `category`. Registering the same
    /// binding again changes nothing; a name already bound to another object
    /// is refused.
    pub fn add(&mut self, category: Category, name: ResName, reference: i32) -> (r: Result<
        (),
        ConversionError,
    >)
        requires
            old(self).wf(),
            name is Object ==> name->Object_0 == reference,
        ensures
            final(self).wf(),
            r is Err <==> conflicts_with(entries_v(old(self)@), entry_v(Entry { category, name, reference })),
            r is Err ==> r == Err::<(), ConversionError>(ConversionError::InvalidImage) && final(self)@ == old(self)@,
            r is Ok ==> entries_v(final(self)@) == with_entry(
                entries_v(old(self)@),
                entry_v(Entry { category, name, reference }),
            ),
    {
        let ghost ev = entry_v(Entry { category, name, reference });
        let ghost vs = entries_v(self.entries@);
        match self.find(category, &name) {
            Some(i) => {
                assert(vs[i as int].category == ev.category && vs[i as int].name == ev.name);
                if self.entries[i].reference == reference {
                    assert forall|j: int| 0 <= j < vs.len() && (#[trigger] vs[j]).category == ev.category
                        && vs[j].name == ev.name implies vs[j].reference == ev.reference by {
                        if j != i as int {
                            if j < i {
                                assert(!same_key(self.entries@[j], self.entries@[i as int]));
                            } else {
                                assert(!same_key(self.entries@[i as int], self.entries@[j]));
                            }
                        }
                    }
                    Ok(())
                } else {
                    Err(ConversionError::InvalidImage)
                }
            },
            None => {
                assert(!binds(vs, ev));
                let ghost before = self.entries@;
                self.entries.push(Entry { category, name, reference });
                assert(forall|i: int| 0 <= i < before.len() ==> #[trigger] self.entries@[i] == before[i]);
                assert(entries_v(self.entries@) =~= vs.push(ev));
                Ok(())
            },
        }
    }

    /// Registers the XObject with reference `reference` under the name
    /// generated for it, and returns that name.
    pub fn add_x_object(&mut self, reference: i32) -> (r: ResName)
        requires
            old(self).wf(),
        ensures
            final(self).wf(),
            r == ResName::Object(reference),
            entries_v(final(self)@) == with_entry(
                entries_v(old(self)@),
                EntryV { category: Category::XObject, name: NameV::Object(reference), reference },
            ),
    {
        let ghost vs = entries_v(self.entries@);
        assert forall|j: int| 0 <= j < vs.len() && (#[trigger] vs[j]).category == Category::XObject
            && vs[j].name == NameV::Object(reference) implies vs[j].reference == reference by {
            assert(self.entries@[j].name is Object);
        }
        let _ = self.add(Category::XObject, ResName::Object(reference), reference);
        ResName::Object(reference)
    }

    /// Registers a caller-owned XObject under a caller-chosen name.
    pub fn add_external_x_object(&mut self, name: Vec<u8>, reference: i32) -> (r: Result<
        (),
        ConversionError,
    >)
        requires
            old(self).wf(),
        ensures
            final(self).wf(),
            r is Err <==> conflicts_with(
                entries_v(old(self)@),
                EntryV { category: Category::XObject, name: NameV::External(name@), reference },
            ),
            r is Err ==> r == Err::<(), ConversionError>(ConversionError::InvalidImage) && final(self)@ == old(self)@,
            r is Ok ==> entries_v(final(self)@) == with_entry(
                entries_v(old(self)@),
                EntryV { category: Category::XObject, name: NameV::External(name@), reference },
            ),
    {
        let r = self.add(Category::XObject, ResName::External(name), reference);
        r
    }

    /// Whether registering `reference` under `name` in `category` would be
    /// refused.
    pub fn conflicts(&self, category: Category, name: &ResName, reference: i32) -> (r: bool)
        requires
            self.wf(),
        ensures
            r == conflicts_with(entries_v(self@), entry_v(Entry { category, name: *name, reference })),
    {
        let ghost ev = entry_v(Entry { category, name: *name, reference });
        let ghost vs = entries_v(self.entries@);
        match self.find(category, name) {
            Some(i) => {
                assert(vs[i as int].category == ev.category && vs[i as int].name == ev.name);
                if self.entries[i].reference != reference {
                    return true;
                }
                assert forall|j: int| 0 <= j < vs.len() && (#[trigger] vs[j]).category == ev.category
                    && vs[j].name == ev.name implies vs[j].reference == ev.reference by {
                    if j != i as int {
                        if j < i {
                            assert(!same_key(self.entries@[j], self.entries@[i as int]));
                        } else {
                            assert(!same_key(self.entries@[i as int], self.entries@[j]));
                        }
                    }
                }
                false
            },
            None => false,
        }
    }

    /// Hands out the accumulated entries, once.
    pub fn finish(self) -> (r: Vec<Entry>)
        requires
            self.wf(),
        ensures
            r@ == self@,
            keys_unique(r@),
    {
        self.entries
    }
}

} // verus!
