//! The constant pool: an indexed table of typed entries. Indices are
//! 1-based on the wire; index 0 is reserved and never stored. A `Long` or
//! `Double` occupies two slots, the second being an unaddressable
//! `Placeholder`.
//!
//! `Float` and `Double` entries carry the raw IEEE-754 bit patterns of the
//! numbers they denote.

use vstd::prelude::*;

verus! {

/// The pool holds at most this many entries; the wire format counts them
/// in a 16-bit field.
pub const POOL_MAX: usize = 65535;

#[derive(Debug, Clone, PartialEq)]
pub enum ConstantPoolEntry {
    /// Raw text; written back byte-identically for ASCII content.
    Utf8(String),
    /// Index of the `Utf8` entry holding the class name.
    Class(u16),
    /// Index of the `Utf8` entry holding the string's text.
    String(u16),
    /// Class index and name-and-type index.
    Fieldref(u16, u16),
    /// Class index and name-and-type index.
    Methodref(u16, u16),
    /// Name index and descriptor index, both `Utf8`.
    NameAndType(u16, u16),
    Integer(i32),
    /// IEEE-754 single-precision bit pattern.
    Float(u32),
    Long(i64),
    /// IEEE-754 double-precision bit pattern.
    Double(u64),
    /// The second slot of an 8-byte constant, and the stand-in for entry
    /// kinds this machine parses but does not use.
    Placeholder,
}

#[derive(Debug, Clone)]
pub struct ConstantPool {
    entries: Vec<ConstantPoolEntry>,
}

impl ConstantPool {
    /// The entries as a mathematical sequence; `add_*` return 1-based
    /// indices into this sequence.
    pub closed spec fn spec_entries(&self) -> Seq<ConstantPoolEntry> {
        self.entries@
    }

    pub fn new() -> (r: ConstantPool)
        ensures
            r.spec_entries() == Seq::<ConstantPoolEntry>::empty(),
    {
        ConstantPool { entries: Vec::new() }
    }

    pub fn entries(&self) -> (r: &Vec<ConstantPoolEntry>)
        ensures
            r@ == self.spec_entries(),
    {
        &self.entries
    }

    pub fn add_utf8(&mut self, value: String) -> (r: u16)
        requires
            old(self).spec_entries().len() < POOL_MAX,
        ensures
            final(self).spec_entries() == old(self).spec_entries().push(
                ConstantPoolEntry::Utf8(value),
            ),
            r == old(self).spec_entries().len() + 1,
    {
        let index = self.entries.len();
        self.entries.push(ConstantPoolEntry::Utf8(value));
        index as u16 + 1
    }

    pub fn add_class(&mut self, name_index: u16) -> (r: u16)
        requires
            old(self).spec_entries().len() < POOL_MAX,
        ensures
            final(self).spec_entries() == old(self).spec_entries().push(
                ConstantPoolEntry::Class(name_index),
            ),
            r == old(self).spec_entries().len() + 1,
    {
        let index = self.entries.len();
        self.entries.push(ConstantPoolEntry::Class(name_index));
        index as u16 + 1
    }

    pub fn add_string(&mut self, utf8_index: u16) -> (r: u16)
        requires
            old(self).spec_entries().len() < POOL_MAX,
        ensures
            final(self).spec_entries() == old(self).spec_entries().push(
                ConstantPoolEntry::String(utf8_index),
            ),
            r == old(self).spec_entries().len() + 1,
    {
        let index = self.entries.len();
        self.entries.push(ConstantPoolEntry::String(utf8_index));
        index as u16 + 1
    }

    pub fn add_fieldref(&mut self, class_index: u16, name_and_type_index: u16) -> (r: u16)
        requires
            old(self).spec_entries().len() < POOL_MAX,
        ensures
            final(self).spec_entries() == old(self).spec_entries().push(
                ConstantPoolEntry::Fieldref(class_index, name_and_type_index),
            ),
            r == old(self).spec_entries().len() + 1,
    {
        let index = self.entries.len();
        self.entries.push(ConstantPoolEntry::Fieldref(class_index, name_and_type_index));
        index as u16 + 1
    }

    pub fn add_methodref(&mut self, class_index: u16, name_and_type_index: u16) -> (r: u16)
        requires
            old(self).spec_entries().len() < POOL_MAX,
        ensures
            final(self).spec_entries() == old(self).spec_entries().push(
                ConstantPoolEntry::Methodref(class_index, name_and_type_index),
            ),
            r == old(self).spec_entries().len() + 1,
    {
        let index = self.entries.len();
        self.entries.push(ConstantPoolEntry::Methodref(class_index, name_and_type_index));
        index as u16 + 1
    }

    pub fn add_name_and_type(&mut self, name_index: u16, descriptor_index: u16) -> (r: u16)
        requires
            old(self).spec_entries().len() < POOL_MAX,
        ensures
            final(self).spec_entries() == old(self).spec_entries().push(
                ConstantPoolEntry::NameAndType(name_index, descriptor_index),
            ),
            r == old(self).spec_entries().len() + 1,
    {
        let index = self.entries.len();
        self.entries.push(ConstantPoolEntry::NameAndType(name_index, descriptor_index));
        index as u16 + 1
    }

    pub fn add_integer(&mut self, value: i32) -> (r: u16)
        requires
            old(self).spec_entries().len() < POOL_MAX,
        ensures
            final(self).spec_entries() == old(self).spec_entries().push(
                ConstantPoolEntry::Integer(value),
            ),
            r == old(self).spec_entries().len() + 1,
    {
        let index = self.entries.len();
        self.entries.push(ConstantPoolEntry::Integer(value));
        index as u16 + 1
    }

    /// `value` is the IEEE-754 single-precision bit pattern.
    pub fn add_float(&mut self, value: u32) -> (r: u16)
        requires
            old(self).spec_entries().len() < POOL_MAX,
        ensures
            final(self).spec_entries() == old(self).spec_entries().push(
                ConstantPoolEntry::Float(value),
            ),
            r == old(self).spec_entries().len() + 1,
    {
        let index = self.entries.len();
        self.entries.push(ConstantPoolEntry::Float(value));
        index as u16 + 1
    }

    /// An 8-byte constant: the value is followed by a `Placeholder` and the
    /// returned index addresses the value.
    pub fn add_long(&mut self, value: i64) -> (r: u16)
        requires
            old(self).spec_entries().len() + 2 <= POOL_MAX,
        ensures
            final(self).spec_entries() == old(self).spec_entries().push(
                ConstantPoolEntry::Long(value),
            ).push(ConstantPoolEntry::Placeholder),
            r == old(self).spec_entries().len() + 1,
    {
        let index = self.entries.len();
        self.entries.push(ConstantPoolEntry::Long(value));
        self.entries.push(ConstantPoolEntry::Placeholder);
        index as u16 + 1
    }

    /// An 8-byte constant: `value` is the IEEE-754 double-precision bit
    /// pattern, followed by a `Placeholder`; the returned index addresses
    /// the value.
    pub fn add_double(&mut self, value: u64) -> (r: u16)
        requires
            old(self).spec_entries().len() + 2 <= POOL_MAX,
        ensures
            final(self).spec_entries() == old(self).spec_entries().push(
                ConstantPoolEntry::Double(value),
            ).push(ConstantPoolEntry::Placeholder),
            r == old(self).spec_entries().len() + 1,
    {
        let index = self.entries.len();
        self.entries.push(ConstantPoolEntry::Double(value));
        self.entries.push(ConstantPoolEntry::Placeholder);
        index as u16 + 1
    }

    pub fn add_placeholder(&mut self) -> (r: u16)
        requires
            old(self).spec_entries().len() < POOL_MAX,
        ensures
            final(self).spec_entries() == old(self).spec_entries().push(
                ConstantPoolEntry::Placeholder,
            ),
            r == old(self).spec_entries().len() + 1,
    {
        let index = self.entries.len();
        self.entries.push(ConstantPoolEntry::Placeholder);
        index as u16 + 1
    }
}

/// A constant-pool entry with its text as a character sequence: the form
/// the contracts speak of.
pub enum EntryModel {
    Utf8(Seq<char>),
    Class(u16),
    String(u16),
    Fieldref(u16, u16),
    Methodref(u16, u16),
    NameAndType(u16, u16),
    Integer(i32),
    Float(u32),
    Long(i64),
    Double(u64),
    Placeholder,
}

/// The model of one entry.
pub open spec fn entry_model(e: ConstantPoolEntry) -> EntryModel {
    match e {
        ConstantPoolEntry::Utf8(s) => EntryModel::Utf8(s@),
        ConstantPoolEntry::Class(i) => EntryModel::Class(i),
        ConstantPoolEntry::String(i) => EntryModel::String(i),
        ConstantPoolEntry::Fieldref(c, n) => EntryModel::Fieldref(c, n),
        ConstantPoolEntry::Methodref(c, n) => EntryModel::Methodref(c, n),
        ConstantPoolEntry::NameAndType(n, d) => EntryModel::NameAndType(n, d),
        ConstantPoolEntry::Integer(v) => EntryModel::Integer(v),
        ConstantPoolEntry::Float(v) => EntryModel::Float(v),
        ConstantPoolEntry::Long(v) => EntryModel::Long(v),
        ConstantPoolEntry::Double(v) => EntryModel::Double(v),
        ConstantPoolEntry::Placeholder => EntryModel::Placeholder,
    }
}

/// The model of a whole entry sequence.
pub open spec fn pool_model(s: Seq<ConstantPoolEntry>) -> Seq<EntryModel> {
    s.map_values(|e: ConstantPoolEntry| entry_model(e))
}

/// A model push mirrors an entry push.
pub proof fn lemma_pool_model_push(s: Seq<ConstantPoolEntry>, e: ConstantPoolEntry)
    ensures
        pool_model(s.push(e)) == pool_model(s).push(entry_model(e)),
{
    assert(pool_model(s.push(e)) =~= pool_model(s).push(entry_model(e)));
}

/// The text of the `Utf8` entry at a 1-based index; empty when the index
/// is zero, out of range, or addresses another kind of entry.
pub open spec fn spec_utf8_at(entries: Seq<ConstantPoolEntry>, index: u16) -> Seq<char> {
    if index == 0 || index - 1 >= entries.len() {
        Seq::empty()
    } else {
        match entries[index - 1] {
            ConstantPoolEntry::Utf8(s) => s@,
            _ => Seq::empty(),
        }
    }
}

/// The text of the `Utf8` model entry at a 1-based index; empty when the
/// index is zero, out of range, or addresses another kind of entry.
pub open spec fn model_utf8_at(entries: Seq<EntryModel>, index: u16) -> Seq<char> {
    if index == 0 || index - 1 >= entries.len() {
        Seq::empty()
    } else {
        match entries[index - 1] {
            EntryModel::Utf8(s) => s,
            _ => Seq::empty(),
        }
    }
}

/// The model lookup reads the same text as the entry lookup.
pub proof fn lemma_model_utf8(entries: Seq<ConstantPoolEntry>, index: u16)
    ensures
        model_utf8_at(pool_model(entries), index) == spec_utf8_at(entries, index),
{
}

/// Adding an 8-byte constant leaves the value at the returned index and a
/// placeholder in the slot after it: with `i` the 1-based index returned
/// for the new `Long`, the 0-based slot `i - 1` holds the value and slot
/// `i` holds `Placeholder`; the same shape holds for `Double`.
pub proof fn lemma_pool_eight_byte_aliasing(s: Seq<ConstantPoolEntry>, lv: i64, dv: u64)
    ensures
        s.push(ConstantPoolEntry::Long(lv)).push(ConstantPoolEntry::Placeholder)[s.len() as int]
            == ConstantPoolEntry::Long(lv),
        s.push(ConstantPoolEntry::Long(lv)).push(ConstantPoolEntry::Placeholder)[
            s.len() as int + 1
        ] == ConstantPoolEntry::Placeholder,
        s.push(ConstantPoolEntry::Double(dv)).push(ConstantPoolEntry::Placeholder)[s.len() as int]
            == ConstantPoolEntry::Double(dv),
        s.push(ConstantPoolEntry::Double(dv)).push(ConstantPoolEntry::Placeholder)[
            s.len() as int + 1
        ] == ConstantPoolEntry::Placeholder,
{
}

} // verus!

verus! {

/// Copy one entry.
fn clone_entry(e: &ConstantPoolEntry) -> (r: ConstantPoolEntry)
    ensures
        r == *e,
{
    match e {
        ConstantPoolEntry::Utf8(s) => ConstantPoolEntry::Utf8(s.clone()),
        ConstantPoolEntry::Class(i) => ConstantPoolEntry::Class(*i),
        ConstantPoolEntry::String(i) => ConstantPoolEntry::String(*i),
        ConstantPoolEntry::Fieldref(c, n) => ConstantPoolEntry::Fieldref(*c, *n),
        ConstantPoolEntry::Methodref(c, n) => ConstantPoolEntry::Methodref(*c, *n),
        ConstantPoolEntry::NameAndType(a, b) => ConstantPoolEntry::NameAndType(*a, *b),
        ConstantPoolEntry::Integer(v) => ConstantPoolEntry::Integer(*v),
        ConstantPoolEntry::Float(v) => ConstantPoolEntry::Float(*v),
        ConstantPoolEntry::Long(v) => ConstantPoolEntry::Long(*v),
        ConstantPoolEntry::Double(v) => ConstantPoolEntry::Double(*v),
        ConstantPoolEntry::Placeholder => ConstantPoolEntry::Placeholder,
    }
}

impl ConstantPool {
    /// An entry-for-entry copy of the pool.
    pub fn duplicate(&self) -> (r: ConstantPool)
        ensures
            r.spec_entries() == self.spec_entries(),
    {
        let mut entries: Vec<ConstantPoolEntry> = Vec::new();
        let mut i: usize = 0;
        while i < self.entries.len()
            invariant
                0 <= i <= self.entries@.len(),
                entries@ == self.entries@.take(i as int),
            decreases self.entries@.len() - i,
        {
            entries.push(clone_entry(&self.entries[i]));
            proof {
                assert(entries@ =~= self.entries@.take(i as int + 1));
            }
            i = i + 1;
        }
        proof {
            assert(self.entries@.take(self.entries@.len() as int) =~= self.entries@);
        }
        ConstantPool { entries }
    }
}

} // verus!
