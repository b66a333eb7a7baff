//! A map from names to slots that keeps its entries in the order they were first added.
use vstd::prelude::*;
use crate::text::str_equal;

verus! {

/// Names mapped to `u32` slots. Each name occurs at most once; inserting a name
/// that is already present replaces its slot and keeps its position.
pub struct NameMap {
    entries: Vec<(String, u32)>,
}

/// The entries of a name map, names seen as text.
pub open spec fn entries_view(entries: Seq<(String, u32)>) -> Seq<(Seq<char>, u32)> {
    entries.map_values(|e: (String, u32)| (e.0@, e.1))
}

/// Whether no name occurs twice in a sequence of entries.
pub open spec fn distinct_names(entries: Seq<(Seq<char>, u32)>) -> bool {
    forall|i: int, j: int| 0 <= i < j < entries.len() ==> entries[i].0 != entries[j].0
}

/// The map that a sequence of entries with distinct names stands for.
pub open spec fn entries_map(entries: Seq<(Seq<char>, u32)>) -> Map<Seq<char>, u32>
    decreases entries.len(),
{
    if entries.len() == 0 {
        Map::empty()
    } else {
        entries_map(entries.drop_last()).insert(entries.last().0, entries.last().1)
    }
}

/// The slot of `name` in a sequence of entries, if the name occurs.
pub open spec fn lookup(entries: Seq<(Seq<char>, u32)>, name: Seq<char>) -> Option<u32>
    decreases entries.len(),
{
    if entries.len() == 0 {
        None
    } else if entries.last().0 == name {
        Some(entries.last().1)
    } else {
        lookup(entries.drop_last(), name)
    }
}

/// The entries after inserting `name` with `slot`.
pub open spec fn insert_entry(entries: Seq<(Seq<char>, u32)>, name: Seq<char>, slot: u32) -> Seq<(Seq<char>, u32)> {
    if exists|i: int| 0 <= i < entries.len() && entries[i].0 == name {
        let i = choose|i: int| 0 <= i < entries.len() && entries[i].0 == name;
        entries.update(i, (name, slot))
    } else {
        entries.push((name, slot))
    }
}

/// In a map without repeated names, inserting a name makes it map to the
/// new slot and leaves every other name as it was.
pub proof fn lemma_lookup_insert(entries: Seq<(Seq<char>, u32)>, name: Seq<char>, slot: u32, other: Seq<char>)
    requires
        distinct_names(entries),
    ensures
        lookup(insert_entry(entries, name, slot), name) == Some(slot),
        other != name ==> lookup(insert_entry(entries, name, slot), other) == lookup(entries, other),
{
    lemma_lookup_distinct(entries, name);
    lemma_lookup_distinct(entries, other);
    let e2 = insert_entry(entries, name, slot);
    if exists|i: int| 0 <= i < entries.len() && entries[i].0 == name {
        let i = choose|i: int| 0 <= i < entries.len() && entries[i].0 == name;
        assert(distinct_names(e2)) by {
            assert forall|a: int, b: int| 0 <= a < b < e2.len() implies e2[a].0 != e2[b].0 by {
                assert(entries[a].0 != entries[b].0);
            }
        }
        lemma_lookup_distinct(e2, name);
        lemma_lookup_distinct(e2, other);
        assert(e2[i] == (name, slot));
        if other != name {
            assert forall|k: int| 0 <= k < e2.len() && e2[k].0 == other implies entries[k] == e2[k] by {}
        }
    } else {
        assert(e2.drop_last() =~= entries);
    }
}

/// Where names are distinct, the slot of a name is that of the entry with that name.
pub proof fn lemma_lookup_distinct(entries: Seq<(Seq<char>, u32)>, name: Seq<char>)
    requires
        distinct_names(entries),
    ensures
        forall|i: int| 0 <= i < entries.len() && entries[i].0 == name ==> lookup(entries, name) == Some(entries[i].1),
        (forall|i: int| 0 <= i < entries.len() ==> entries[i].0 != name) ==> lookup(entries, name) is None,
    decreases entries.len(),
{
    if entries.len() > 0 {
        let init = entries.drop_last();
        assert(distinct_names(init)) by {
            assert forall|a: int, b: int| 0 <= a < b < init.len() implies init[a].0 != init[b].0 by {
                assert(entries[a].0 != entries[b].0);
            }
        }
        lemma_lookup_distinct(init, name);
        assert forall|i: int| 0 <= i < entries.len() && entries[i].0 == name implies lookup(entries, name) == Some(entries[i].1) by {
            if i < entries.len() - 1 {
                assert(entries[i].0 != entries[entries.len() - 1].0);
                assert(init[i] == entries[i]);
            }
        }
    }
}

impl NameMap {
    /// The entries, in order, names as text.
    pub closed spec fn entries(&self) -> Seq<(Seq<char>, u32)> {
        entries_view(self.entries@)
    }

    /// No name occurs twice.
    pub open spec fn wf(&self) -> bool {
        distinct_names(self.entries())
    }

    pub fn new() -> (m: Self)
        ensures
            m.wf(),
            m.entries() == Seq::<(Seq<char>, u32)>::empty(),
    {
        let m = NameMap { entries: Vec::new() };
        assert(m.entries() =~= Seq::<(Seq<char>, u32)>::empty());
        m
    }

    /// Builds a map from entries whose names are distinct.
    pub fn from_entries(entries: Vec<(String, u32)>) -> (m: Self)
        requires
            distinct_names(entries_view(entries@)),
        ensures
            m.wf(),
            m.entries() == entries_view(entries@),
    {
        NameMap { entries }
    }

    /// The entries as a slice.
    pub fn as_slice(&self) -> (s: &[(String, u32)])
        ensures
            s@.map_values(|e: (String, u32)| e@) == self.entries(),
    {
        let s = self.entries.as_slice();
        assert(s@.map_values(|e: (String, u32)| e@) =~= self.entries());
        s
    }

    pub fn len(&self) -> (n: usize)
        ensures
            n == self.entries().len(),
    {
        self.entries.len()
    }

    /// The `i`-th entry.
    pub fn entry(&self, i: usize) -> (e: (&String, u32))
        requires
            i < self.entries().len(),
        ensures
            e.0@ == self.entries()[i as int].0,
            e.1 == self.entries()[i as int].1,
    {
        let e = &self.entries[i];
        (&e.0, e.1)
    }

    /// The slot of `name`, if present.
    pub fn get(&self, name: &str) -> (r: Option<u32>)
        requires
            self.wf(),
        ensures
            r == lookup(self.entries(), name@),
            r is Some <==> exists|i: int| 0 <= i < self.entries().len() && self.entries()[i].0 == name@,
            r matches Some(s) ==> exists|i: int| 0 <= i < self.entries().len() && self.entries()[i] == (name@, s),
    {
        let mut i: usize = self.entries.len();
        assert(self.entries().take(i as int) =~= self.entries());
        while i > 0
            invariant
                i <= self.entries@.len(),
                self.wf(),
                forall|k: int| i <= k < self.entries@.len() ==> self.entries()[k].0 != name@,
                lookup(self.entries(), name@) == lookup(self.entries().take(i as int), name@),
            decreases i,
        {
            let e = &self.entries[i - 1];
            if str_equal(e.0.as_str(), name) {
                proof {
                    assert(self.entries().take(i as int).last() == self.entries()[i - 1]);
                }
                return Some(e.1);
            }
            proof {
                assert(self.entries().take(i as int).drop_last() =~= self.entries().take(i - 1));
            }
            i = i - 1;
        }
        proof {
            assert(self.entries().take(0) =~= Seq::<(Seq<char>, u32)>::empty());
        }
        None
    }

    /// Maps `name` to `slot`.
    pub fn insert(&mut self, name: String, slot: u32)
        requires
            old(self).wf(),
        ensures
            final(self).wf(),
            final(self).entries() == insert_entry(old(self).entries(), name@, slot),
    {
        let ghost old_entries = self.entries();
        let n: usize = self.entries.len();
        let mut i: usize = 0;
        let mut found: bool = false;
        while i < n
            invariant_except_break
                n == self.entries@.len(),
                self.entries() == old_entries,
                i <= n,
                !found,
                forall|k: int| 0 <= k < i ==> old_entries[k].0 != name@,
            ensures
                n == self.entries@.len(),
                self.entries() == old_entries,
                found ==> i < n && old_entries[i as int].0 == name@,
                !found ==> forall|k: int| 0 <= k < n ==> old_entries[k].0 != name@,
            decreases n - i,
        {
            if str_equal(self.entries[i].0.as_str(), name.as_str()) {
                found = true;
                break;
            }
            i = i + 1;
        }
        if found {
            let ghost old_vec = self.entries@;
            self.entries.set(i, (name, slot));
            proof {
                let j = choose|j: int| 0 <= j < old_entries.len() && old_entries[j].0 == name@;
                if j != i {
                    if j < i {
                        assert(old_entries[j].0 != old_entries[i as int].0);
                    } else {
                        assert(old_entries[i as int].0 != old_entries[j].0);
                    }
                }
                assert(self.entries() =~= old_entries.update(i as int, (name@, slot)));
                assert forall|a: int, b: int| 0 <= a < b < self.entries().len() implies self.entries()[a].0 != self.entries()[b].0 by {
                    assert(old_entries[a].0 != old_entries[b].0);
                }
            }
        } else {
            self.entries.push((name, slot));
            proof {
                assert(self.entries() =~= old_entries.push((name@, slot)));
            }
        }
    }
}

} // verus!
