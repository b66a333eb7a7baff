use vstd::prelude::*;
use super::{Path, SpannedFunctionSigniture, SpannedParameter, Statement, StatementView, statements_view};
use crate::data_type::DataType;
use crate::diagnostics::Span;
use crate::name_map::{NameMap, distinct_names, insert_entry, lemma_lookup_distinct, lemma_lookup_insert, lookup};

verus! {

/// The name map's entries after adding functions with these names, one after
/// the other, to an empty tree: the `k`-th added gets slot `k`.
pub open spec fn entries_after_adds(names: Seq<Seq<char>>) -> Seq<(Seq<char>, u32)>
    decreases names.len(),
{
    if names.len() == 0 {
        Seq::empty()
    } else {
        insert_entry(entries_after_adds(names.drop_last()), names.last(), (names.len() - 1) as u32)
    }
}

/// Functions added with distinct names get dense slots in the order they
/// were added: the `i`-th name finds slot `i`, and a name never added finds
/// none.
pub proof fn lemma_adds_give_dense_slots(names: Seq<Seq<char>>)
    requires
        forall|a: int, b: int| 0 <= a < b < names.len() ==> names[a] != names[b],
        names.len() <= u32::MAX + 1,
    ensures
        entries_after_adds(names) == Seq::new(names.len(), |k: int| (names[k], k as u32)),
        forall|i: int| 0 <= i < names.len() ==> #[trigger] lookup(entries_after_adds(names), names[i]) == Some(i as u32),
        forall|x: Seq<char>| !names.contains(x) ==> #[trigger] lookup(entries_after_adds(names), x) is None,
    decreases names.len(),
{
    let e = Seq::new(names.len(), |k: int| (names[k], k as u32));
    if names.len() > 0 {
        let init = names.drop_last();
        lemma_adds_give_dense_slots(init);
        let prev = entries_after_adds(init);
        assert forall|j: int| 0 <= j < prev.len() implies prev[j].0 != names.last() by {
            assert(prev[j].0 == names[j]);
        }
        assert(insert_entry(prev, names.last(), (names.len() - 1) as u32) == prev.push((names.last(), (names.len() - 1) as u32)));
        assert(entries_after_adds(names) =~= e);
    } else {
        assert(entries_after_adds(names) =~= e);
    }
    assert(distinct_names(e));
    assert forall|i: int| 0 <= i < names.len() implies #[trigger] lookup(entries_after_adds(names), names[i]) == Some(i as u32) by {
        lemma_lookup_distinct(e, names[i]);
        assert(e[i].0 == names[i]);
    }
    assert forall|x: Seq<char>| !names.contains(x) implies #[trigger] lookup(entries_after_adds(names), x) is None by {
        lemma_lookup_distinct(e, x);
        assert forall|k: int| 0 <= k < e.len() implies e[k].0 != x by {
            if e[k].0 == x {
                assert(names[k] == x);
            }
        }
    }
}

/// A function signature as plain data.
pub struct SigView {
    pub return_type: DataType,
    pub params: Seq<SpannedParameter>,
    pub span: Span,
}

pub open spec fn sig_view(s: SpannedFunctionSigniture) -> SigView {
    SigView { return_type: s.return_type, params: s.params@, span: s.span }
}

/// A tree's contents as plain data: the name map's entries, the
/// signatures and bodies by slot, and the imported paths.
pub struct AstView {
    pub entries: Seq<(Seq<char>, u32)>,
    pub signitures: Seq<SigView>,
    pub bodies: Seq<Seq<StatementView>>,
    pub imports: Seq<Seq<Seq<char>>>,
}

/// A tree after adding a function: its name maps to the next slot, where
/// its signature and body go.
pub open spec fn add_function_view(a: AstView, name: Seq<char>, sig: SigView, body: Seq<StatementView>) -> AstView {
    AstView {
        entries: insert_entry(a.entries, name, a.signitures.len() as u32),
        signitures: a.signitures.push(sig),
        bodies: a.bodies.push(body),
        imports: a.imports,
    }
}

/// An empty tree after adding the functions `fns` (name, signature, body)
/// one after the other.
pub open spec fn view_after_adds(fns: Seq<(Seq<char>, SigView, Seq<StatementView>)>) -> AstView
    decreases fns.len(),
{
    if fns.len() == 0 {
        AstView { entries: Seq::empty(), signitures: Seq::empty(), bodies: Seq::empty(), imports: Seq::empty() }
    } else {
        let f = fns.last();
        add_function_view(view_after_adds(fns.drop_last()), f.0, f.1, f.2)
    }
}

/// After adding functions to an empty tree, slot `k` holds the `k`-th
/// function's signature and body, for each of them and no more, and the
/// names map as `entries_after_adds` says (dense slots, for distinct names).
pub proof fn lemma_adds_fill_slots(fns: Seq<(Seq<char>, SigView, Seq<StatementView>)>)
    ensures
        view_after_adds(fns).signitures == fns.map_values(|f: (Seq<char>, SigView, Seq<StatementView>)| f.1),
        view_after_adds(fns).bodies == fns.map_values(|f: (Seq<char>, SigView, Seq<StatementView>)| f.2),
        view_after_adds(fns).entries == entries_after_adds(fns.map_values(|f: (Seq<char>, SigView, Seq<StatementView>)| f.0)),
        view_after_adds(fns).imports.len() == 0,
    decreases fns.len(),
{
    if fns.len() > 0 {
        let init = fns.drop_last();
        lemma_adds_fill_slots(init);
        let names = fns.map_values(|f: (Seq<char>, SigView, Seq<StatementView>)| f.0);
        assert(names.drop_last() =~= init.map_values(|f: (Seq<char>, SigView, Seq<StatementView>)| f.0));
        assert(view_after_adds(fns).signitures =~= fns.map_values(|f: (Seq<char>, SigView, Seq<StatementView>)| f.1));
        assert(view_after_adds(fns).bodies =~= fns.map_values(|f: (Seq<char>, SigView, Seq<StatementView>)| f.2));
    } else {
        assert(view_after_adds(fns).signitures =~= fns.map_values(|f: (Seq<char>, SigView, Seq<StatementView>)| f.1));
        assert(view_after_adds(fns).bodies =~= fns.map_values(|f: (Seq<char>, SigView, Seq<StatementView>)| f.2));
        assert(fns.map_values(|f: (Seq<char>, SigView, Seq<StatementView>)| f.0) =~= Seq::<Seq<char>>::empty());
    }
}

/// A parsed module: its functions (signature and body by slot, slots found
/// by name) and its imports.
pub struct Ast {
    function_map: NameMap,
    function_signitures: Vec<SpannedFunctionSigniture>,
    function_bodies: Vec<Vec<Statement>>,
    imports: Vec<Path>,
}

impl View for Ast {
    type V = AstView;

    open spec fn view(&self) -> AstView {
        AstView {
            entries: self.function_map().entries(),
            signitures: self.signitures().map_values(|s: SpannedFunctionSigniture| sig_view(s)),
            bodies: self.bodies().map_values(|b: Vec<Statement>| statements_view(b@)),
            imports: self.imports().map_values(|p: Path| p.segments()),
        }
    }
}

impl Ast {
    pub closed spec fn function_map(&self) -> NameMap {
        self.function_map
    }

    pub closed spec fn signitures(&self) -> Seq<SpannedFunctionSigniture> {
        self.function_signitures@
    }

    pub closed spec fn bodies(&self) -> Seq<Vec<Statement>> {
        self.function_bodies@
    }

    pub closed spec fn imports(&self) -> Seq<Path> {
        self.imports@
    }

    /// The name map is well formed and there is a body for each signature.
    pub open spec fn wf(&self) -> bool {
        &&& self.function_map().wf()
        &&& self.signitures().len() == self.bodies().len()
    }

    pub fn new(
        function_map: NameMap,
        function_signitures: Vec<SpannedFunctionSigniture>,
        function_bodies: Vec<Vec<Statement>>,
        imports: Vec<Path>,
    ) -> (a: Self)
        ensures
            a.function_map() == function_map,
            a.signitures() == function_signitures@,
            a.bodies() == function_bodies@,
            a.imports() == imports@,
    {
        Self { function_map, function_signitures, function_bodies, imports }
    }

    pub fn empty() -> (a: Self)
        ensures
            a.wf(),
            a.function_map().entries().len() == 0,
            a.signitures().len() == 0,
            a.bodies().len() == 0,
            a.imports().len() == 0,
            a@ == view_after_adds(Seq::empty()),
    {
        let a = Self {
            function_map: NameMap::new(),
            function_signitures: Vec::new(),
            function_bodies: Vec::new(),
            imports: Vec::new(),
        };
        assert(a@.entries =~= Seq::<(Seq<char>, u32)>::empty());
        assert(a@.signitures =~= Seq::<SigView>::empty());
        assert(a@.bodies =~= Seq::<Seq<StatementView>>::empty());
        assert(a@.imports =~= Seq::<Seq<Seq<char>>>::empty());
        a
    }

    /// Adds a function in the next slot and maps its name to that slot
    /// (a name added again is mapped to the new slot).
    pub fn add_function(&mut self, name: String, signiture: SpannedFunctionSigniture, body: Vec<Statement>)
        requires
            old(self).wf(),
        ensures
            final(self).wf(),
            final(self).function_map().entries() == insert_entry(
                old(self).function_map().entries(),
                name@,
                old(self).signitures().len() as u32,
            ),
            final(self).signitures() == old(self).signitures().push(signiture),
            final(self).bodies() == old(self).bodies().push(body),
            final(self).imports() == old(self).imports(),
            final(self)@ == add_function_view(old(self)@, name@, sig_view(signiture), statements_view(body@)),
            lookup(final(self).function_map().entries(), name@) == Some(old(self).signitures().len() as u32),
            forall|other: Seq<char>| other != name@ ==> #[trigger] lookup(final(self).function_map().entries(), other) == lookup(
                old(self).function_map().entries(),
                other,
            ),
    {
        proof {
            assert forall|other: Seq<char>| other != name@ implies #[trigger] lookup(
                insert_entry(old(self).function_map().entries(), name@, old(self).signitures().len() as u32),
                other,
            ) == lookup(old(self).function_map().entries(), other) by {
                lemma_lookup_insert(old(self).function_map().entries(), name@, old(self).signitures().len() as u32, other);
            }
            lemma_lookup_insert(old(self).function_map().entries(), name@, old(self).signitures().len() as u32, name@);
        }
        let ghost v0 = self@;
        let ghost sv = sig_view(signiture);
        let ghost bv = statements_view(body@);
        let slot = self.function_signitures.len() as u32;
        self.function_map.insert(name, slot);
        self.function_bodies.push(body);
        self.function_signitures.push(signiture);
        assert(self@.signitures =~= v0.signitures.push(sv));
        assert(self@.bodies =~= v0.bodies.push(bv));
    }

    pub fn add_import(&mut self, path: Path)
        ensures
            old(self).wf() ==> final(self).wf(),
            final(self).function_map() == old(self).function_map(),
            final(self).signitures() == old(self).signitures(),
            final(self).bodies() == old(self).bodies(),
            final(self).imports() == old(self).imports().push(path),
    {
        self.imports.push(path);
    }

    /// The number of function names.
    pub fn function_count(&self) -> (n: u32)
        ensures
            n == self.function_map().entries().len() as u32,
    {
        self.function_map.len() as u32
    }

    pub fn get_function_slot(&self, name: &str) -> (r: Option<u32>)
        requires
            self.wf(),
        ensures
            r == lookup(self.function_map().entries(), name@),
    {
        self.function_map.get(name)
    }

    /// The signature of the function called `name`.
    pub fn get_function_signiture(&self, name: &str) -> (r: Option<&SpannedFunctionSigniture>)
        requires
            self.wf(),
        ensures
            r == (match lookup(self.function_map().entries(), name@) {
                Some(slot) => if (slot as int) < self.signitures().len() {
                    Some(&self.signitures()[slot as int])
                } else {
                    None
                },
                None => None,
            }),
    {
        match self.function_map.get(name) {
            Some(slot) => self.get_function_signiture_by_slot(slot),
            None => None,
        }
    }

    pub fn get_function_signiture_by_slot(&self, slot: u32) -> (r: Option<&SpannedFunctionSigniture>)
        ensures
            r == (if (slot as int) < self.signitures().len() {
                Some(&self.signitures()[slot as int])
            } else {
                None
            }),
    {
        if (slot as usize) < self.function_signitures.len() {
            Some(&self.function_signitures[slot as usize])
        } else {
            None
        }
    }

    pub fn get_function_body_by_slot(&self, slot: u32) -> (r: Option<&[Statement]>)
        ensures
            r matches Some(b) ==> (slot as int) < self.bodies().len() && b@ == self.bodies()[slot as int]@,
            r is None ==> (slot as int) >= self.bodies().len(),
            r matches Some(b) ==> statements_view(b@) == self@.bodies[slot as int],
            r is None <==> (slot as int) >= self@.bodies.len(),
    {
        if (slot as usize) < self.function_bodies.len() {
            Some(self.function_bodies[slot as usize].as_slice())
        } else {
            None
        }
    }

    pub fn get_function_map(&self) -> (m: &NameMap)
        ensures
            *m == self.function_map(),
    {
        &self.function_map
    }

    pub fn deconstruct(self) -> (r: (NameMap, Vec<SpannedFunctionSigniture>, Vec<Vec<Statement>>, Vec<Path>))
        ensures
            r.0 == self.function_map(),
            r.1@ == self.signitures(),
            r.2@ == self.bodies(),
            r.3@ == self.imports(),
    {
        (self.function_map, self.function_signitures, self.function_bodies, self.imports)
    }
}

} // verus!
