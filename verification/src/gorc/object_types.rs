//! The registry of object types: which registered objects belong to each
//! type name. Objects are held by the 128-bit value of their identifier.

use crate::gorc::instance::GorcObjectId;
use crate::text::str_eq;
use std::collections::HashSet;
use vstd::prelude::*;
use vstd::std_specs::hash::{axiom_spec_hash_keys_iter, spec_hash_keys_iter};
use vstd::std_specs::iter::IteratorSpec;

verus! {

broadcast use vstd::std_specs::hash::group_hash_axioms;

/// The type names with the objects of each, in the order the types were
/// first registered.
pub type TypeEntries = Seq<(Seq<char>, Set<u128>)>;

/// Whether an entry has the type name.
pub open spec fn has_type(es: TypeEntries, name: Seq<char>) -> bool {
    exists|i: int| 0 <= i < es.len() && (#[trigger] es[i]).0 == name
}

/// The position of a type name, if registered.
pub open spec fn type_index(es: TypeEntries, name: Seq<char>) -> Option<int> {
    if has_type(es, name) {
        Some(choose|i: int| 0 <= i < es.len() && (#[trigger] es[i]).0 == name)
    } else {
        None
    }
}

/// The objects of a type (none when the type is not registered).
pub open spec fn objects_of(es: TypeEntries, name: Seq<char>) -> Set<u128> {
    match type_index(es, name) {
        Some(i) => es[i].1,
        None => Set::empty(),
    }
}

/// Type names occur once each, and every type has an object.
pub open spec fn types_wf(es: TypeEntries) -> bool {
    &&& forall|i: int, j: int| 0 <= i < j < es.len() ==> es[i].0 != es[j].0
    &&& forall|i: int| 0 <= i < es.len() ==> !(#[trigger] es[i]).1.is_empty()
}

/// The entries after filing an object under a type.
pub open spec fn registered(es: TypeEntries, name: Seq<char>, id: u128) -> TypeEntries {
    match type_index(es, name) {
        Some(i) => es.update(i, (name, es[i].1.insert(id))),
        None => es.push((name, set![id])),
    }
}

/// The entries after removing an object from a type.
pub open spec fn unregistered(es: TypeEntries, name: Seq<char>, id: u128) -> TypeEntries {
    match type_index(es, name) {
        Some(i) => if es[i].1.remove(id).is_empty() {
            es.remove(i)
        } else {
            es.update(i, (name, es[i].1.remove(id)))
        },
        None => es,
    }
}

/// Where a type name stands in well-formed entries.
proof fn lemma_type_index(es: TypeEntries, name: Seq<char>, i: int)
    requires
        types_wf(es),
        0 <= i < es.len(),
        es[i].0 == name,
    ensures
        type_index(es, name) == Some(i),
{
    let c = choose|j: int| 0 <= j < es.len() && (#[trigger] es[j]).0 == name;
    assert(c == i) by {
        if c < i {
        } else if c > i {
        }
    }
}

/// Filing an object under a type adds it to that type's objects and to no
/// other type's.
pub proof fn law_register_files_object(es: TypeEntries, name: Seq<char>, id: u128, other: Seq<char>)
    requires
        types_wf(es),
    ensures
        types_wf(registered(es, name, id)),
        objects_of(registered(es, name, id), other) == if other == name {
            objects_of(es, other).insert(id)
        } else {
            objects_of(es, other)
        },
{
    let r = registered(es, name, id);
    match type_index(es, name) {
        Some(i) => {
            assert(0 <= i < es.len() && es[i].0 == name);
            assert(r[i].1.contains(id));
            assert(types_wf(r));
            if other == name {
                lemma_type_index(r, name, i);
            } else if has_type(es, other) {
                let j = choose|j: int| 0 <= j < es.len() && (#[trigger] es[j]).0 == other;
                lemma_type_index(es, other, j);
                lemma_type_index(r, other, j);
            } else {
                assert(!has_type(r, other)) by {
                    if has_type(r, other) {
                        let j = choose|j: int| 0 <= j < r.len() && (#[trigger] r[j]).0 == other;
                        assert(es[j].0 == other);
                    }
                }
            }
        },
        None => {
            assert(!has_type(es, name));
            assert forall|a: int, b: int| 0 <= a < b < r.len() implies r[a].0 != r[b].0 by {
                if b == es.len() {
                    assert(es[a].0 != name);
                }
            }
            assert(r[es.len() as int].1.contains(id));
            assert(types_wf(r));
            if other == name {
                lemma_type_index(r, name, es.len() as int);
                assert(objects_of(es, other) == Set::<u128>::empty());
                assert(set![id] =~= Set::<u128>::empty().insert(id));
            } else if has_type(es, other) {
                let j = choose|j: int| 0 <= j < es.len() && (#[trigger] es[j]).0 == other;
                lemma_type_index(es, other, j);
                lemma_type_index(r, other, j);
            } else {
                assert(!has_type(r, other)) by {
                    if has_type(r, other) {
                        let j = choose|j: int| 0 <= j < r.len() && (#[trigger] r[j]).0 == other;
                        assert(es[j].0 == other);
                    }
                }
            }
        },
    }
}

/// Removing an object from a type takes it from that type's objects and
/// from no other type's.
pub proof fn law_unregister_removes_object(es: TypeEntries, name: Seq<char>, id: u128, other: Seq<char>)
    requires
        types_wf(es),
    ensures
        types_wf(unregistered(es, name, id)),
        objects_of(unregistered(es, name, id), other) == if other == name {
            objects_of(es, other).remove(id)
        } else {
            objects_of(es, other)
        },
{
    let r = unregistered(es, name, id);
    match type_index(es, name) {
        Some(i) => {
            assert(0 <= i < es.len() && es[i].0 == name);
            if es[i].1.remove(id).is_empty() {
                assert forall|a: int, b: int| 0 <= a < b < r.len() implies r[a].0 != r[b].0 by {
                    let oa = if a < i { a } else { a + 1 };
                    let ob = if b < i { b } else { b + 1 };
                    assert(r[a] == es[oa]);
                    assert(r[b] == es[ob]);
                }
                assert forall|a: int| 0 <= a < r.len() implies !(#[trigger] r[a]).1.is_empty() by {
                    let oa = if a < i { a } else { a + 1 };
                    assert(r[a] == es[oa]);
                }
                if other == name {
                    assert(!has_type(r, other)) by {
                        if has_type(r, other) {
                            let j = choose|j: int| 0 <= j < r.len() && (#[trigger] r[j]).0 == other;
                            let oj = if j < i { j } else { j + 1 };
                            assert(r[j] == es[oj]);
                        }
                    }
                    lemma_type_index(es, name, i);
                    assert(es[i].1.remove(id) =~= Set::<u128>::empty());
                } else if has_type(es, other) {
                    let j = choose|j: int| 0 <= j < es.len() && (#[trigger] es[j]).0 == other;
                    lemma_type_index(es, other, j);
                    let rj = if j < i { j } else { j - 1 };
                    assert(r[rj] == es[j]);
                    lemma_type_index(r, other, rj);
                } else {
                    assert(!has_type(r, other)) by {
                        if has_type(r, other) {
                            let j = choose|j: int| 0 <= j < r.len() && (#[trigger] r[j]).0 == other;
                            let oj = if j < i { j } else { j + 1 };
                            assert(r[j] == es[oj]);
                        }
                    }
                }
            } else {
                assert(types_wf(r)) by {
                    assert forall|a: int| 0 <= a < r.len() implies !(#[trigger] r[a]).1.is_empty() by {
                        if a != i {
                            assert(r[a] == es[a]);
                        }
                    }
                }
                if other == name {
                    lemma_type_index(r, name, i);
                } else if has_type(es, other) {
                    let j = choose|j: int| 0 <= j < es.len() && (#[trigger] es[j]).0 == other;
                    lemma_type_index(es, other, j);
                    lemma_type_index(r, other, j);
                } else {
                    assert(!has_type(r, other)) by {
                        if has_type(r, other) {
                            let j = choose|j: int| 0 <= j < r.len() && (#[trigger] r[j]).0 == other;
                            assert(es[j].0 == other);
                        }
                    }
                }
            }
        },
        None => {
            if other == name {
                assert(objects_of(es, other).remove(id) =~= Set::<u128>::empty());
            }
        },
    }
}

/// Filing a new object under a type and then removing it leaves every
/// type's objects as they were.
pub proof fn law_register_then_unregister(es: TypeEntries, name: Seq<char>, id: u128, other: Seq<char>)
    requires
        types_wf(es),
        !objects_of(es, name).contains(id),
    ensures
        objects_of(unregistered(registered(es, name, id), name, id), other) == objects_of(es, other),
{
    law_register_files_object(es, name, id, other);
    law_register_files_object(es, name, id, name);
    law_unregister_removes_object(registered(es, name, id), name, id, other);
    if other == name {
        assert(objects_of(es, name).insert(id).remove(id) =~= objects_of(es, name));
    }
}

/// Objects of each type, by type name.
pub struct ObjectTypeRegistry {
    entries: Vec<(String, HashSet<u128>)>,
}

impl ObjectTypeRegistry {
    /// The registered types with their objects.
    pub closed spec fn entries(&self) -> TypeEntries {
        self.entries@.map_values(|e: (String, HashSet<u128>)| (e.0@, e.1@))
    }

    /// Every type name occurs once and has at least one object.
    pub open spec fn wf(&self) -> bool {
        types_wf(self.entries())
    }

    /// An empty registry.
    pub fn new() -> (r: Self)
        ensures
            r.wf(),
            r.entries().len() == 0,
    {
        let r = ObjectTypeRegistry { entries: Vec::new() };
        assert(r.entries() =~= Seq::<(Seq<char>, Set<u128>)>::empty());
        r
    }

    fn find(&self, name: &str) -> (r: Option<usize>)
        requires
            self.wf(),
        ensures
            match r {
                Some(i) => type_index(self.entries(), name@) == Some(i as int),
                None => type_index(self.entries(), name@) is None,
            },
    {
        let mut i: usize = 0;
        while i < self.entries.len()
            invariant
                i <= self.entries@.len(),
                self.wf(),
                self.entries().len() == self.entries@.len(),
                forall|k: int| 0 <= k < i ==> self.entries()[k].0 != name@,
            decreases self.entries@.len() - i,
        {
            assert(self.entries()[i as int].0 == self.entries@[i as int].0@);
            if str_eq(self.entries[i].0.as_str(), name) {
                let ghost c = choose|j: int| 0 <= j < self.entries().len() && (#[trigger] self.entries()[j]).0 == name@;
                assert(c == i as int) by {
                    if c != i as int {
                        assert(self.entries()[i as int].0 == self.entries()[c].0);
                    }
                }
                return Some(i);
            }
            i = i + 1;
        }
        None
    }

    /// Files an object under its type; a type seen for the first time is
    /// added after the others.
    pub fn register(&mut self, type_label: &str, object_id: GorcObjectId)
        requires
            old(self).wf(),
        ensures
            final(self).wf(),
            final(self).entries() == registered(old(self).entries(), type_label@, object_id.0),
    {
        let ghost es = old(self).entries();
        match self.find(type_label) {
            Some(i) => {
                let (name, set) = self.entries.remove(i);
                let mut set = set;
                set.insert(object_id.0);
                self.entries.insert(i, (name, set));
                assert(self.entries() =~= es.update(i as int, (type_label@, es[i as int].1.insert(object_id.0))));
            },
            None => {
                let mut set: HashSet<u128> = HashSet::new();
                set.insert(object_id.0);
                self.entries.push((type_label.to_string(), set));
                assert(self.entries() =~= es.push((type_label@, set![object_id.0])));
                assert forall|a: int, b: int| 0 <= a < b < self.entries().len() implies self.entries()[a].0
                    != self.entries()[b].0 by {
                    if b == es.len() {
                        assert(!has_type(es, type_label@));
                        assert(es[a].0 != type_label@);
                    }
                }
                assert(!self.entries()[es.len() as int].1.is_empty()) by {
                    assert(self.entries()[es.len() as int].1.contains(object_id.0));
                }
            },
        }
    }

    /// Removes an object from its type; a type left without objects is
    /// dropped. Returns whether the object was filed under the type.
    pub fn unregister(&mut self, type_label: &str, object_id: GorcObjectId) -> (removed: bool)
        requires
            old(self).wf(),
        ensures
            final(self).wf(),
            removed == objects_of(old(self).entries(), type_label@).contains(object_id.0),
            final(self).entries() == unregistered(old(self).entries(), type_label@, object_id.0),
    {
        let ghost es = old(self).entries();
        match self.find(type_label) {
            Some(i) => {
                let (name, set) = self.entries.remove(i);
                let mut set = set;
                let removed = set.remove(&object_id.0);
                if set.is_empty() {
                    assert(self.entries() =~= es.remove(i as int));
                    assert forall|a: int, b: int| 0 <= a < b < self.entries().len() implies self.entries()[a].0
                        != self.entries()[b].0 by {
                        let oa = if a < i { a } else { a + 1 };
                        let ob = if b < i { b } else { b + 1 };
                        assert(self.entries()[a] == es[oa]);
                        assert(self.entries()[b] == es[ob]);
                    }
                    assert forall|a: int| 0 <= a < self.entries().len() implies !(#[trigger] self.entries()[a]).1.is_empty() by {
                        let oa = if a < i { a } else { a + 1 };
                        assert(self.entries()[a] == es[oa]);
                    }
                } else {
                    self.entries.insert(i, (name, set));
                    assert(self.entries() =~= es.update(i as int, (type_label@, es[i as int].1.remove(object_id.0))));
                }
                removed
            },
            None => false,
        }
    }

    /// The objects of a type, in no particular order; none when the type is
    /// not registered.
    pub fn get_objects_by_type(&self, type_label: &str) -> (r: Vec<GorcObjectId>)
        requires
            self.wf(),
        ensures
            r@.map_values(|o: GorcObjectId| o.0).to_set() == objects_of(self.entries(), type_label@),
            r@.len() == objects_of(self.entries(), type_label@).len(),
    {
        let mut out: Vec<GorcObjectId> = Vec::new();
        match self.find(type_label) {
            Some(i) => {
                let set = &self.entries[i].1;
                assert(self.entries()[i as int].1 == set@);
                let ghost all = spec_hash_keys_iter(set).remaining();
                proof {
                    axiom_spec_hash_keys_iter(set);
                }
                for x in it: set.iter()
                    invariant
                        it.seq() == all,
                        all.unref().to_set() == set@,
                        out@.len() == it.index(),
                        forall|j: int| 0 <= j < out@.len() ==> (#[trigger] out@[j]).0 == *all[j],
                {
                    out.push(GorcObjectId(*x));
                }
                proof {
                    assert(out@.map_values(|o: GorcObjectId| o.0) =~= all.unref());
                }
            },
            None => {
                assert(out@.map_values(|o: GorcObjectId| o.0).to_set() =~= Set::<u128>::empty());
            },
        }
        out
    }

    /// The number of registered types.
    pub fn type_count(&self) -> (n: usize)
        ensures
            n == self.entries().len(),
    {
        self.entries.len()
    }
}

} // verus!
