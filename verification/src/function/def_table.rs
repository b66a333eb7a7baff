//! Function definitions in slots, found by name.
use vstd::prelude::*;
use crate::text::str_equal;
use super::definition::FunctionDefinition;

verus! {

/// The slot of the definition called `name`, if there is one.
pub open spec fn slot_of_name(defs: Seq<FunctionDefinition>, name: Seq<char>) -> Option<int>
    decreases defs.len(),
{
    if defs.len() == 0 {
        None
    } else if defs.last().spec_name() == name {
        Some(defs.len() - 1)
    } else {
        slot_of_name(defs.drop_last(), name)
    }
}

/// A new table after inserting `defs` one after the other.
pub open spec fn functions_after_inserts(defs: Seq<FunctionDefinition>) -> Seq<FunctionDefinition>
    decreases defs.len(),
{
    if defs.len() == 0 {
        Seq::empty()
    } else {
        functions_after_inserts(defs.drop_last()).push(defs.last())
    }
}

/// After `n` inserts into a new table, slot `i` holds the `i`-th definition
/// for each `i < n` and there is none from `n` on; a name finds a slot below
/// `n` that holds a definition of that name, or none when no definition has it.
pub proof fn lemma_table_after_inserts(defs: Seq<FunctionDefinition>, name: Seq<char>)
    ensures
        functions_after_inserts(defs) == defs,
        slot_of_name(defs, name) matches Some(s) ==> 0 <= s < defs.len() && defs[s].spec_name() == name,
        slot_of_name(defs, name) is None ==> forall|i: int| 0 <= i < defs.len() ==> defs[i].spec_name() != name,
    decreases defs.len(),
{
    lemma_slot_of_name_in_range(defs, name);
    if defs.len() > 0 {
        lemma_table_after_inserts(defs.drop_last(), name);
        assert(defs.drop_last().push(defs.last()) =~= defs);
        if slot_of_name(defs, name) is None {
            assert forall|i: int| 0 <= i < defs.len() implies defs[i].spec_name() != name by {
                if i < defs.len() - 1 {
                    assert(defs.drop_last()[i] == defs[i]);
                }
            }
        }
    } else {
        assert(defs =~= Seq::<FunctionDefinition>::empty());
    }
}

/// After a definition is inserted, its name finds the new slot and every
/// other name finds what it found before.
pub proof fn lemma_slot_after_insert(defs: Seq<FunctionDefinition>, def: FunctionDefinition, other: Seq<char>)
    ensures
        slot_of_name(defs.push(def), def.spec_name()) == Some(defs.len() as int),
        other != def.spec_name() ==> slot_of_name(defs.push(def), other) == slot_of_name(defs, other),
{
    assert(defs.push(def).drop_last() =~= defs);
}

/// Definitions inserted under distinct names fill the slots in insertion
/// order: the `i`-th definition's name finds slot `i`, and a name that no
/// definition has finds none.
pub proof fn lemma_inserts_fill_slots(defs: Seq<FunctionDefinition>, name: Seq<char>)
    requires
        forall|a: int, b: int| 0 <= a < b < defs.len() ==> defs[a].spec_name() != defs[b].spec_name(),
    ensures
        forall|i: int| 0 <= i < defs.len() && defs[i].spec_name() == name ==> slot_of_name(defs, name) == Some(i),
        (forall|i: int| 0 <= i < defs.len() ==> defs[i].spec_name() != name) ==> slot_of_name(defs, name) is None,
    decreases defs.len(),
{
    if defs.len() > 0 {
        let init = defs.drop_last();
        assert forall|a: int, b: int| 0 <= a < b < init.len() implies init[a].spec_name() != init[b].spec_name() by {
            assert(init[a] == defs[a] && init[b] == defs[b]);
        }
        lemma_inserts_fill_slots(init, name);
        assert forall|i: int| 0 <= i < defs.len() - 1 implies init[i] == defs[i] by {}
    }
}

proof fn lemma_slot_of_name_in_range(defs: Seq<FunctionDefinition>, name: Seq<char>)
    ensures
        slot_of_name(defs, name) matches Some(s) ==> 0 <= s < defs.len() && defs[s].spec_name() == name,
    decreases defs.len(),
{
    if defs.len() > 0 && defs.last().spec_name() != name {
        lemma_slot_of_name_in_range(defs.drop_last(), name);
    }
}

/// Function definitions in the order they were inserted; no two share a name.
pub struct FunctionDefinitionTable {
    functions: Vec<FunctionDefinition>,
}

impl FunctionDefinitionTable {
    pub closed spec fn functions(&self) -> Seq<FunctionDefinition> {
        self.functions@
    }

    pub fn new() -> (t: Self)
        ensures
            t.functions() == Seq::<FunctionDefinition>::empty(),
            t.functions() == functions_after_inserts(Seq::empty()),
    {
        let t = FunctionDefinitionTable { functions: Vec::new() };
        assert(t.functions() =~= Seq::<FunctionDefinition>::empty());
        t
    }

    /// Adds a definition in the next slot. A name may be defined once.
    pub fn insert(&mut self, def: FunctionDefinition)
        requires
            slot_of_name(old(self).functions(), def.spec_name()) is None,
        ensures
            final(self).functions() == old(self).functions().push(def),
    {
        self.functions.push(def);
    }

    /// The slot of the definition called `name`.
    pub fn get_slot(&self, name: &str) -> (r: Option<usize>)
        ensures
            match slot_of_name(self.functions(), name@) {
                Some(s) => r == Some(s as usize),
                None => r is None,
            },
    {
        let mut i: usize = self.functions.len();
        assert(self.functions().take(i as int) =~= self.functions());
        while i > 0
            invariant
                i <= self.functions@.len(),
                slot_of_name(self.functions(), name@) == slot_of_name(self.functions().take(i as int), name@),
            decreases i,
        {
            assert(self.functions().take(i as int).last() == self.functions@[i - 1]);
            if str_equal(self.functions[i - 1].name(), name) {
                return Some(i - 1);
            }
            assert(self.functions().take(i as int).drop_last() =~= self.functions().take(i - 1));
            i = i - 1;
        }
        assert(self.functions().take(0) =~= Seq::<FunctionDefinition>::empty());
        None
    }

    /// The definition called `name`.
    pub fn get_fn_by_name(&self, name: &str) -> (r: Option<&FunctionDefinition>)
        ensures
            match slot_of_name(self.functions(), name@) {
                Some(s) => r == Some(&self.functions()[s]),
                None => r is None,
            },
    {
        proof {
            lemma_slot_of_name_in_range(self.functions(), name@);
        }
        let n = self.functions.len();
        match self.get_slot(name) {
            Some(slot) => {
                assert(slot < n);
                self.get_fn_by_index(slot)
            },
            None => None,
        }
    }

    /// The definition in slot `index`.
    pub fn get_fn_by_index(&self, index: usize) -> (r: Option<&FunctionDefinition>)
        ensures
            r == (if (index as int) < self.functions().len() { Some(&self.functions()[index as int]) } else { None }),
    {
        if index >= self.functions.len() {
            return None;
        }
        Some(&self.functions[index])
    }
}

} // verus!
