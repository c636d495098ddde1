//! The cross-reference table (ISO 32000-1 §7.5.4): where each object lives.

use vstd::prelude::*;
use std::collections::btree_map;
use std::collections::BTreeMap;
use vstd::std_specs::iter::IteratorSpec;

verus! {

/// One cross-reference entry.
#[derive(Debug, Clone, Copy, PartialEq, Eq, Structural)]
pub enum XrefEntry {
    /// An object in use, at a byte offset of the file (`n` entries).
    InUse { offset: u64, generation: u16 },
    /// A free object, linked to the next free object number (`f` entries).
    Free { next_free_obj_num: u32, generation: u16 },
    /// An object stored in an object stream (PDF 1.5+): the number of the
    /// stream and the object's index inside it.
    Compressed { obj_stm_num: u32, index: u32 },
}

/// The entries of a cross-reference table, keyed by object number, each
/// number once; iterating yields them in increasing order of number.
#[derive(Debug, PartialEq, Eq)]
pub struct XrefTable {
    entries: BTreeMap<u32, XrefEntry>,
}

impl View for XrefTable {
    type V = Map<u32, XrefEntry>;

    closed spec fn view(&self) -> Map<u32, XrefEntry> {
        self.entries@
    }
}

impl XrefTable {
    /// An empty table.
    pub fn new() -> (t: XrefTable)
        ensures
            t@ == Map::<u32, XrefEntry>::empty(),
            t@.dom().finite(),
    {
        XrefTable { entries: BTreeMap::new() }
    }

    /// Adds `entry` for `obj_num` unless the table already has one.
    pub fn insert_if_absent(&mut self, obj_num: u32, entry: XrefEntry)
        ensures
            final(self)@ == (if old(self)@.contains_key(obj_num) {
                old(self)@
            } else {
                old(self)@.insert(obj_num, entry)
            }),
            final(self)@.dom().finite(),
    {
        if !self.entries.contains_key(&obj_num) {
            self.entries.insert(obj_num, entry);
        }
    }

    /// The entry for `obj_num`, if any.
    pub fn get(&self, obj_num: u32) -> (r: Option<&XrefEntry>)
        ensures
            match r {
                Some(e) => self@.contains_key(obj_num) && self@[obj_num] == *e,
                None => !self@.contains_key(obj_num),
            },
    {
        self.entries.get(&obj_num)
    }

    /// The number of entries.
    pub fn len(&self) -> (n: usize)
        ensures
            n == self@.len(),
            self@.dom().finite(),
    {
        self.entries.len()
    }

    /// Whether the table has no entry.
    pub fn is_empty(&self) -> (b: bool)
        ensures
            b == (self@.len() == 0),
            self@.dom().finite(),
    {
        self.entries.is_empty()
    }

    /// The entries, in increasing order of object number: each entry once,
    /// every one of the table.
    pub fn iter(&self) -> (r: btree_map::Iter<'_, u32, XrefEntry>)
        ensures
            r.remaining().len() == self@.len(),
            r.remaining().no_duplicates(),
            forall|i: int, j: int| 0 <= i < j < r.remaining().len() ==> *r.remaining()[i].0 < *r.remaining()[j].0,
            forall|i: int| 0 <= i < r.remaining().len() ==> #[trigger] self@.contains_key(*r.remaining()[i].0)
                && self@[*r.remaining()[i].0] == *r.remaining()[i].1,
            forall|k: u32| #[trigger] self@.contains_key(k) ==> r.remaining().contains((&k, &self@[k])),
    {
        let r = self.entries.iter();
        proof {
            let ks = r.remaining().map_values(|kv: (&u32, &XrefEntry)| *kv.0);
            assert forall|i: int, j: int| 0 <= i < j < r.remaining().len() implies *r.remaining()[i].0
                < *r.remaining()[j].0 by {
                assert(vstd::std_specs::cmp::OrdSpec::cmp_spec(&ks[i], &ks[j]) is Less);
            }
        }
        r
    }
}

impl Clone for XrefTable {
    fn clone(&self) -> (r: Self)
        ensures
            r@ == self@,
    {
        XrefTable { entries: self.entries.clone() }
    }
}

impl Default for XrefTable {
    /// An empty table.
    fn default() -> (t: Self)
        ensures
            t@ == Map::<u32, XrefEntry>::empty(),
    {
        XrefTable::new()
    }
}

} // verus!
