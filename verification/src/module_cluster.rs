//! Modules held together, each in a slot and found by name.
use vstd::prelude::*;
use crate::module::Module;
use crate::text::str_equal;

verus! {

/// The slot of `name`: the last slot added under that name.
pub open spec fn last_slot_of(names: Seq<Seq<char>>, name: Seq<char>) -> Option<int>
    decreases names.len(),
{
    if names.len() == 0 {
        None
    } else if names.last() == name {
        Some(names.len() - 1)
    } else {
        last_slot_of(names.drop_last(), name)
    }
}

/// After a module is added under `name`, `name` finds the new slot and
/// every other name finds what it found before.
pub proof fn lemma_slot_after_add(names: Seq<Seq<char>>, name: Seq<char>, other: Seq<char>)
    ensures
        last_slot_of(names.push(name), name) == Some(names.len() as int),
        other != name ==> last_slot_of(names.push(name), other) == last_slot_of(names, other),
{
    assert(names.push(name).drop_last() =~= names);
}

/// The slot that `last_slot_of` finds is the last slot added under the
/// name, and there is none when the name was never added; either way every
/// slot it gives holds a module of a well-formed cluster.
pub proof fn lemma_last_slot_of(names: Seq<Seq<char>>, name: Seq<char>)
    ensures
        last_slot_of(names, name) matches Some(s) ==> 0 <= s < names.len() && names[s] == name
            && forall|j: int| s < j < names.len() ==> names[j] != name,
        last_slot_of(names, name) is None ==> forall|j: int| 0 <= j < names.len() ==> names[j] != name,
    decreases names.len(),
{
    if names.len() > 0 && names.last() != name {
        lemma_last_slot_of(names.drop_last(), name);
        assert forall|j: int| 0 <= j < names.len() - 1 implies names.drop_last()[j] == names[j] by {}
    }
}

/// Modules in slots, in the order they were added; a name added again
/// refers to the newer slot.
pub struct ModuleCluster {
    modules: Vec<Module>,
    names: Vec<String>,
}

impl ModuleCluster {
    pub closed spec fn modules(&self) -> Seq<Module> {
        self.modules@
    }

    /// The name each slot was added under.
    pub closed spec fn names(&self) -> Seq<Seq<char>> {
        self.names@.map_values(|s: String| s@)
    }

    /// Each slot has a module and the name it was added under.
    pub open spec fn wf(&self) -> bool {
        self.modules().len() == self.names().len()
    }

    pub fn new() -> (c: Self)
        ensures
            c.wf(),
            c.modules().len() == 0,
            c.names().len() == 0,
    {
        ModuleCluster { modules: Vec::new(), names: Vec::new() }
    }

    /// Adds `module` in the next slot under `name`, and gives that slot.
    pub fn add(&mut self, name: String, module: Module) -> (slot: usize)
        requires
            old(self).wf(),
        ensures
            final(self).wf(),
            slot == old(self).modules().len(),
            final(self).modules() == old(self).modules().push(module),
            final(self).names() == old(self).names().push(name@),
            last_slot_of(final(self).names(), name@) == Some(slot as int),
            forall|other: Seq<char>| other != name@ ==> #[trigger] last_slot_of(final(self).names(), other) == last_slot_of(
                old(self).names(),
                other,
            ),
    {
        let slot = self.modules.len();
        self.modules.push(module);
        self.names.push(name);
        assert(self.names() =~= old(self).names().push(name@));
        proof {
            assert forall|other: Seq<char>| other != name@ implies #[trigger] last_slot_of(self.names(), other) == last_slot_of(
                old(self).names(),
                other,
            ) by {
                lemma_slot_after_add(old(self).names(), name@, other);
            }
            lemma_slot_after_add(old(self).names(), name@, name@);
        }
        slot
    }

    pub fn get_by_slot(&self, slot: usize) -> (r: Option<&Module>)
        ensures
            r == (if (slot as int) < self.modules().len() { Some(&self.modules()[slot as int]) } else { None }),
    {
        if slot < self.modules.len() {
            Some(&self.modules[slot])
        } else {
            None
        }
    }

    /// The slot most recently added under `name`.
    pub fn get_slot(&self, name: &str) -> (r: Option<usize>)
        ensures
            match last_slot_of(self.names(), name@) {
                Some(s) => r == Some(s as usize),
                None => r is None,
            },
    {
        let mut i: usize = self.names.len();
        assert(self.names().take(i as int) =~= self.names());
        while i > 0
            invariant
                i <= self.names@.len(),
                last_slot_of(self.names(), name@) == last_slot_of(self.names().take(i as int), name@),
            decreases i,
        {
            assert(self.names().take(i as int).last() == self.names@[i - 1]@);
            if str_equal(self.names[i - 1].as_str(), name) {
                return Some(i - 1);
            }
            assert(self.names().take(i as int).drop_last() =~= self.names().take(i - 1));
            i = i - 1;
        }
        assert(self.names().take(0) =~= Seq::<Seq<char>>::empty());
        None
    }
}

} // verus!
