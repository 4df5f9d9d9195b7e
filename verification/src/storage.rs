//! Named key/value areas owned by the execution state.
//!
//! A storage is either tagged (many key-to-value entries, e.g. HTTP headers)
//! or untagged (one current value, e.g. the goal text). Storages are created
//! once, at state construction, from the descriptors that the active
//! namespaces declare; they are never created on read.

use vstd::prelude::*;
use vstd::string::*;

verus! {

/// Key `key` occurs somewhere in the entry list `s`.
pub open spec fn kv_has_key(s: Seq<(String, String)>, key: Seq<char>) -> bool {
    exists|i: int| 0 <= i < s.len() && s[i].0@ == key
}

/// Position `i` holds the first entry of `s` whose key is `key`.
pub open spec fn kv_first_at(s: Seq<(String, String)>, key: Seq<char>, i: int) -> bool {
    &&& 0 <= i < s.len()
    &&& s[i].0@ == key
    &&& forall|j: int| 0 <= j < i ==> s[j].0@ != key
}

/// Finds the first entry of `v` with the given key.
pub fn kv_find(v: &Vec<(String, String)>, key: &String) -> (r: Option<usize>)
    ensures
        match r {
            Some(i) => kv_first_at(v@, key@, i as int),
            None => !kv_has_key(v@, key@),
        },
{
    let mut i: usize = 0;
    while i < v.len()
        invariant
            i <= v@.len(),
            forall|j: int| 0 <= j < i ==> v@[j].0@ != key@,
        decreases v@.len() - i,
    {
        if v[i].0.eq(key) {
            return Some(i);
        }
        i = i + 1;
    }
    None
}

/// Only one position can hold the first entry of a key.
pub proof fn lemma_kv_first_unique(s: Seq<(String, String)>, key: Seq<char>, i: int, j: int)
    requires
        kv_first_at(s, key, i),
        kv_first_at(s, key, j),
    ensures
        i == j,
{
    if i < j {
        assert(s[i].0@ == key);
    }
    if j < i {
        assert(s[j].0@ == key);
    }
}

/// An element-wise copy of an entry list.
pub fn kv_clone(v: &Vec<(String, String)>) -> (r: Vec<(String, String)>)
    ensures
        r@ == v@,
{
    let mut r: Vec<(String, String)> = Vec::new();
    let mut i: usize = 0;
    while i < v.len()
        invariant
            i <= v@.len(),
            r@.len() == i,
            forall|j: int| 0 <= j < i ==> r@[j] == v@[j],
        decreases v@.len() - i,
    {
        r.push((v[i].0.clone(), v[i].1.clone()));
        i = i + 1;
    }
    proof {
        assert(r@ =~= v@);
    }
    r
}

/// The two shapes a storage can have.
#[derive(Clone, Copy, Debug, PartialEq, Eq, Structural)]
pub enum StorageType {
    /// Many key-to-value entries.
    Tagged,
    /// One current value.
    Untagged,
}

/// A namespace's declaration that it needs a storage of a given name and
/// shape, optionally pre-seeded with default entries.
#[derive(Clone, Debug)]
pub struct StorageDescriptor {
    /// The name the storage is created under.
    pub name: String,
    /// The shape of the storage.
    pub type_: StorageType,
    /// Entries a tagged storage starts out with.
    pub predefined: Option<Vec<(String, String)>>,
}

impl StorageDescriptor {
    /// A descriptor for a tagged storage with no pre-seeded entries.
    pub fn tagged(name: &str) -> (r: StorageDescriptor)
        ensures
            r.name@ == name@,
            r.type_ == StorageType::Tagged,
            r.predefined is None,
    {
        StorageDescriptor { name: name.to_owned(), type_: StorageType::Tagged, predefined: None }
    }

    /// A descriptor for an untagged, single-slot storage.
    pub fn untagged(name: &str) -> (r: StorageDescriptor)
        ensures
            r.name@ == name@,
            r.type_ == StorageType::Untagged,
            r.predefined is None,
    {
        StorageDescriptor { name: name.to_owned(), type_: StorageType::Untagged, predefined: None }
    }

    /// The same descriptor, pre-seeded with default entries.
    pub fn predefine(self, entries: Vec<(String, String)>) -> (r: StorageDescriptor)
        ensures
            r.name == self.name,
            r.type_ == self.type_,
            r.predefined == Some(entries),
    {
        StorageDescriptor { predefined: Some(entries), ..self }
    }
}

/// One named key/value area.
#[derive(Clone, Debug)]
pub struct Storage {
    name: String,
    type_: StorageType,
    entries: Vec<(String, String)>,
    current: Option<String>,
}

impl Storage {
    /// The storage's name.
    pub closed spec fn spec_name(&self) -> Seq<char> {
        self.name@
    }

    /// The storage's shape.
    pub closed spec fn spec_type(&self) -> StorageType {
        self.type_
    }

    /// The tagged entries, in insertion order.
    pub closed spec fn spec_entries(&self) -> Seq<(String, String)> {
        self.entries@
    }

    /// The single-slot value, if one was set.
    pub closed spec fn spec_current(&self) -> Option<String> {
        self.current
    }

    /// Creates the storage a descriptor asks for: a tagged storage starts
    /// from its pre-seeded entries (none means empty), an untagged one starts
    /// unset.
    pub fn new(descriptor: &StorageDescriptor) -> (r: Storage)
        ensures
            r.spec_name() == descriptor.name@,
            r.spec_type() == descriptor.type_,
            r.spec_entries() == (match descriptor.predefined {
                Some(entries) => entries@,
                None => Seq::<(String, String)>::empty(),
            }),
            r.spec_current() is None,
    {
        let entries: Vec<(String, String)> = match &descriptor.predefined {
            Some(entries) => kv_clone(entries),
            None => Vec::new(),
        };
        Storage { name: descriptor.name.clone(), type_: descriptor.type_, entries, current: None }
    }

    /// The storage's name.
    pub fn name(&self) -> (r: &String)
        ensures
            r@ == self.spec_name(),
    {
        &self.name
    }

    /// Drops every entry and the current value; name and shape stay.
    pub fn clear(&mut self)
        ensures
            final(self).spec_name() == old(self).spec_name(),
            final(self).spec_type() == old(self).spec_type(),
            final(self).spec_entries().len() == 0,
            final(self).spec_current() is None,
    {
        self.entries.clear();
        self.current = None;
    }

    /// Sets `key` to `value`: the first entry under `key` is overwritten in
    /// place, or a new entry is appended when the key is new. No other entry
    /// moves or changes.
    pub fn add_tagged(&mut self, key: &String, value: &String)
        ensures
            final(self).spec_name() == old(self).spec_name(),
            final(self).spec_type() == old(self).spec_type(),
            final(self).spec_current() == old(self).spec_current(),
            kv_has_key(old(self).spec_entries(), key@) ==> exists|i: int|
                kv_first_at(old(self).spec_entries(), key@, i) && final(self).spec_entries()
                    == old(self).spec_entries().update(i, (*key, *value)),
            !kv_has_key(old(self).spec_entries(), key@) ==> final(self).spec_entries() == old(
                self,
            ).spec_entries().push((*key, *value)),
    {
        match kv_find(&self.entries, key) {
            Some(i) => {
                self.entries.set(i, (key.clone(), value.clone()));
            },
            None => {
                self.entries.push((key.clone(), value.clone()));
            },
        }
    }

    /// The value of the first entry under `key`, if any.
    pub fn get_tagged(&self, key: &String) -> (r: Option<String>)
        ensures
            match r {
                Some(v) => exists|i: int|
                    kv_first_at(self.spec_entries(), key@, i) && v == self.spec_entries()[i].1,
                None => !kv_has_key(self.spec_entries(), key@),
            },
    {
        match kv_find(&self.entries, key) {
            Some(i) => {
                let v = self.entries[i].1.clone();
                proof {
                    assert(kv_first_at(self.spec_entries(), key@, i as int) && v
                        == self.spec_entries()[i as int].1);
                }
                Some(v)
            },
            None => None,
        }
    }

    /// Sets the single-slot value.
    pub fn set_current(&mut self, value: &String)
        ensures
            final(self).spec_name() == old(self).spec_name(),
            final(self).spec_type() == old(self).spec_type(),
            final(self).spec_entries() == old(self).spec_entries(),
            final(self).spec_current() == Some(*value),
    {
        self.current = Some(value.clone());
    }

    /// The single-slot value, if one was set.
    pub fn get_current(&self) -> (r: Option<&String>)
        ensures
            match r {
                Some(v) => self.spec_current() == Some(*v),
                None => self.spec_current() is None,
            },
    {
        self.current.as_ref()
    }

    /// All tagged entries, in insertion order.
    pub fn entries(&self) -> (r: &Vec<(String, String)>)
        ensures
            r@ == self.spec_entries(),
    {
        &self.entries
    }
}

} // verus!
