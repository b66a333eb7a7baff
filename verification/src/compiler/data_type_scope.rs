//! Nested scopes of variable types, as the type checker walks a function.
use vstd::prelude::*;
use crate::data_type::DataType;
use crate::diagnostics::Span;
use crate::errors::{CompileError, spec_var_redeclaration_at};
use crate::text::str_equal;

verus! {

/// The type of `name` in one scope: the last entry with that name.
pub open spec fn scope_find(scope: Seq<(Seq<char>, DataType)>, name: Seq<char>) -> Option<DataType>
    decreases scope.len(),
{
    if scope.len() == 0 {
        None
    } else if scope.last().0 == name {
        Some(scope.last().1)
    } else {
        scope_find(scope.drop_last(), name)
    }
}

/// The type of `name` in the innermost scope that has it.
pub open spec fn scopes_get(scopes: Seq<Seq<(Seq<char>, DataType)>>, name: Seq<char>) -> Option<DataType>
    decreases scopes.len(),
{
    if scopes.len() == 0 {
        None
    } else {
        match scope_find(scopes.last(), name) {
            Some(t) => Some(t),
            None => scopes_get(scopes.drop_last(), name),
        }
    }
}

/// After a new name is added to the innermost scope, the name has the added
/// type and every other name keeps its type.
pub proof fn lemma_get_after_insert(scopes: Seq<Seq<(Seq<char>, DataType)>>, name: Seq<char>, t: DataType, other: Seq<char>)
    requires
        scopes.len() > 0,
    ensures
        scopes_get(scopes.update(scopes.len() - 1, scopes.last().push((name, t))), name) == Some(t),
        other != name ==> scopes_get(scopes.update(scopes.len() - 1, scopes.last().push((name, t))), other)
            == scopes_get(scopes, other),
{
    let s2 = scopes.update(scopes.len() - 1, scopes.last().push((name, t)));
    assert(s2.last() == scopes.last().push((name, t)));
    assert(s2.drop_last() =~= scopes.drop_last());
    assert(scopes.last().push((name, t)).drop_last() =~= scopes.last());
}

/// The scopes after `insert_new` of each entry in turn: a name that some
/// scope already has is refused and changes nothing; another goes in the
/// innermost scope.
pub open spec fn insert_all(scopes: Seq<Seq<(Seq<char>, DataType)>>, es: Seq<(Seq<char>, DataType)>) -> Seq<Seq<(Seq<char>, DataType)>>
    decreases es.len(),
{
    if es.len() == 0 {
        scopes
    } else {
        let before = insert_all(scopes, es.drop_last());
        if scopes_get(before, es.last().0) is Some {
            before
        } else {
            before.update(before.len() - 1, before.last().push(es.last()))
        }
    }
}

/// Leaving a scope undoes entering it: after `enter`, any `insert_new`s and
/// `exit`, the scopes are as they were, so every name has its type from
/// before (and a new scope stack has none).
pub proof fn lemma_exit_undoes_enter(scopes: Seq<Seq<(Seq<char>, DataType)>>, es: Seq<(Seq<char>, DataType)>, name: Seq<char>)
    ensures
        insert_all(scopes.push(Seq::empty()), es).len() == scopes.len() + 1,
        insert_all(scopes.push(Seq::empty()), es).drop_last() == scopes,
        scopes_get(insert_all(scopes.push(Seq::empty()), es).drop_last(), name) == scopes_get(scopes, name),
        scopes_get(Seq::<Seq<(Seq<char>, DataType)>>::empty(), name) is None,
    decreases es.len(),
{
    let s1 = scopes.push(Seq::<(Seq<char>, DataType)>::empty());
    if es.len() == 0 {
        assert(s1.drop_last() =~= scopes);
    } else {
        lemma_exit_undoes_enter(scopes, es.drop_last(), name);
        let before = insert_all(s1, es.drop_last());
        if scopes_get(before, es.last().0) is None {
            let after = before.update(before.len() - 1, before.last().push(es.last()));
            assert(after.drop_last() =~= before.drop_last());
        }
    }
}

proof fn lemma_scope_find(scope: Seq<(Seq<char>, DataType)>, name: Seq<char>)
    ensures
        (scope_find(scope, name) is Some) <==> exists|j: int| 0 <= j < scope.len() && scope[j].0 == name,
    decreases scope.len(),
{
    if scope.len() > 0 {
        lemma_scope_find(scope.drop_last(), name);
        if scope.last().0 == name {
            assert(scope[scope.len() - 1].0 == name);
        } else if scope_find(scope, name) is Some {
            let j = choose|j: int| 0 <= j < scope.drop_last().len() && scope.drop_last()[j].0 == name;
            assert(scope[j].0 == name);
        } else {
            assert forall|j: int| 0 <= j < scope.len() implies scope[j].0 != name by {
                if j < scope.len() - 1 {
                    assert(scope.drop_last()[j] == scope[j]);
                }
            }
        }
    }
}

/// A name has a type exactly when some scope holds an entry for it.
pub proof fn lemma_get_some_iff_entry(scopes: Seq<Seq<(Seq<char>, DataType)>>, name: Seq<char>)
    ensures
        (scopes_get(scopes, name) is Some) <==> exists|i: int, j: int|
            0 <= i < scopes.len() && 0 <= j < scopes[i].len() && #[trigger] scopes[i][j].0 == name,
    decreases scopes.len(),
{
    if scopes.len() > 0 {
        lemma_get_some_iff_entry(scopes.drop_last(), name);
        lemma_scope_find(scopes.last(), name);
        if scopes_get(scopes, name) is Some {
            if scope_find(scopes.last(), name) is Some {
                let j = choose|j: int| 0 <= j < scopes.last().len() && scopes.last()[j].0 == name;
                assert(scopes[scopes.len() - 1][j].0 == name);
            } else {
                let (i, j) = choose|i: int, j: int|
                    0 <= i < scopes.drop_last().len() && 0 <= j < scopes.drop_last()[i].len() && #[trigger] scopes.drop_last()[i][j].0 == name;
                assert(scopes[i][j].0 == name);
            }
        } else {
            assert forall|i: int, j: int| 0 <= i < scopes.len() && 0 <= j < scopes[i].len() implies #[trigger] scopes[i][j].0 != name by {
                if i < scopes.len() - 1 {
                    assert(scopes.drop_last()[i] == scopes[i]);
                    if scopes[i][j].0 == name {
                        assert(scopes.drop_last()[i][j].0 == name);
                    }
                }
            }
        }
    }
}

/// A call on a scope stack: `enter`, `exit`, or `insert_new` of a name with
/// its type.
pub enum ScopeOp {
    Enter,
    Exit,
    Insert(Seq<char>, DataType),
}

/// The scopes after one call, as the calls' contracts state it: `exit` on no
/// scopes and a refused `insert_new` change nothing.
pub open spec fn apply_scope_op(s: Seq<Seq<(Seq<char>, DataType)>>, op: ScopeOp) -> Seq<Seq<(Seq<char>, DataType)>> {
    match op {
        ScopeOp::Enter => s.push(Seq::empty()),
        ScopeOp::Exit => if s.len() > 0 { s.drop_last() } else { s },
        ScopeOp::Insert(n, t) => if s.len() > 0 && scopes_get(s, n) is None {
            s.update(s.len() - 1, s.last().push((n, t)))
        } else {
            s
        },
    }
}

/// The scopes after the first `m` calls of `ops`, starting from `new`.
pub open spec fn scopes_after(ops: Seq<ScopeOp>, m: int) -> Seq<Seq<(Seq<char>, DataType)>>
    decreases m,
{
    if m <= 0 || m > ops.len() {
        Seq::empty()
    } else {
        apply_scope_op(scopes_after(ops, m - 1), ops[m - 1])
    }
}

/// Whether call `k` is an `insert_new` of `n` that succeeds.
pub open spec fn inserts_name(ops: Seq<ScopeOp>, k: int, n: Seq<char>) -> bool {
    &&& ops[k] matches ScopeOp::Insert(x, _) && x == n
    &&& scopes_after(ops, k).len() > 0
    &&& scopes_get(scopes_after(ops, k), n) is None
}

/// Whether the scope that call `k` wrote into is still there after `m` calls:
/// no later `exit` has removed it.
pub open spec fn level_kept(ops: Seq<ScopeOp>, k: int, m: int) -> bool {
    forall|j: int| k < j <= m ==> #[trigger] scopes_after(ops, j).len() >= scopes_after(ops, k).len()
}

/// Whether some scope entry has name `n`.
pub open spec fn has_entry(level: Seq<(Seq<char>, DataType)>, n: Seq<char>) -> bool {
    exists|j: int| 0 <= j < level.len() && level[j].0 == n
}

/// Whether, among the first `m` calls, a successful `insert_new` of `n` wrote
/// into scope `i` and that scope is still there.
pub open spec fn kept_insert_at(ops: Seq<ScopeOp>, m: int, n: Seq<char>, i: int) -> bool {
    exists|k: int| 0 <= k < m && #[trigger] inserts_name(ops, k, n) && scopes_after(ops, k).len() - 1 == i && level_kept(ops, k, m)
}

/// Each scope holds `n` exactly when a successful `insert_new` of `n` wrote
/// into it and no later `exit` removed it.
proof fn lemma_levels_after(ops: Seq<ScopeOp>, m: int, n: Seq<char>)
    requires
        0 <= m <= ops.len(),
    ensures
        forall|i: int| 0 <= i < scopes_after(ops, m).len() ==> (has_entry(#[trigger] scopes_after(ops, m)[i], n) <==> kept_insert_at(ops, m, n, i)),
    decreases m,
{
    if m > 0 {
        lemma_levels_after(ops, m - 1, n);
        let s = scopes_after(ops, m - 1);
        let t = scopes_after(ops, m);
        assert(t == apply_scope_op(s, ops[m - 1]));
        // an insert before call m - 1 is kept after m calls exactly when it
        // was kept after m - 1 and the stack is still as deep
        assert forall|k: int| 0 <= k < m - 1 && #[trigger] inserts_name(ops, k, n)
            implies (level_kept(ops, k, m) <==> (level_kept(ops, k, m - 1) && t.len() >= scopes_after(ops, k).len())) by {
            if level_kept(ops, k, m - 1) && t.len() >= scopes_after(ops, k).len() {
                assert forall|j: int| k < j <= m implies #[trigger] scopes_after(ops, j).len() >= scopes_after(ops, k).len() by {
                    if j < m {
                        assert(scopes_after(ops, j).len() >= scopes_after(ops, k).len());
                    }
                }
            }
            if level_kept(ops, k, m) {
                assert(scopes_after(ops, m).len() >= scopes_after(ops, k).len());
            }
        }
        assert forall|i: int| 0 <= i < t.len() implies (has_entry(#[trigger] t[i], n) <==> kept_insert_at(ops, m, n, i)) by {
            lemma_level_step(ops, m, n, i);
        }
    }
}

/// One step of `lemma_levels_after`, for one scope.
proof fn lemma_level_step(ops: Seq<ScopeOp>, m: int, n: Seq<char>, i: int)
    requires
        0 < m <= ops.len(),
        0 <= i < scopes_after(ops, m).len(),
        forall|i: int| 0 <= i < scopes_after(ops, m - 1).len() ==> (has_entry(#[trigger] scopes_after(ops, m - 1)[i], n) <==> kept_insert_at(ops, m - 1, n, i)),
        forall|k: int| 0 <= k < m - 1 && #[trigger] inserts_name(ops, k, n)
            ==> (level_kept(ops, k, m) <==> (level_kept(ops, k, m - 1) && scopes_after(ops, m).len() >= scopes_after(ops, k).len())),
    ensures
        has_entry(scopes_after(ops, m)[i], n) <==> kept_insert_at(ops, m, n, i),
{
    let s = scopes_after(ops, m - 1);
    let t = scopes_after(ops, m);
    let last = ops[m - 1];
    // the last call is a kept insert into scope i exactly when it succeeds,
    // inserts n, and writes into scope i
    let fresh = inserts_name(ops, m - 1, n) && s.len() - 1 == i;
    if fresh {
        assert(level_kept(ops, m - 1, m)) by {
            assert forall|j: int| m - 1 < j <= m implies #[trigger] scopes_after(ops, j).len() >= scopes_after(ops, m - 1).len() by {
                assert(j == m);
            }
        }
    }
    // kept inserts among the earlier calls
    if kept_insert_at(ops, m, n, i) {
        let k = choose|k: int| 0 <= k < m && #[trigger] inserts_name(ops, k, n) && scopes_after(ops, k).len() - 1 == i && level_kept(ops, k, m);
        if k < m - 1 {
            assert(level_kept(ops, k, m - 1));
            assert(kept_insert_at(ops, m - 1, n, i));
        }
    }
    match last {
        ScopeOp::Enter => {
            assert(!fresh);
            if i < s.len() {
                assert(t[i] == s[i]);
                if kept_insert_at(ops, m - 1, n, i) {
                    let k = choose|k: int| 0 <= k < m - 1 && #[trigger] inserts_name(ops, k, n) && scopes_after(ops, k).len() - 1 == i && level_kept(ops, k, m - 1);
                    assert(s.len() >= scopes_after(ops, k).len()) by {
                        if k < m - 1 {
                            assert(scopes_after(ops, m - 1).len() >= scopes_after(ops, k).len());
                        }
                    }
                    assert(level_kept(ops, k, m));
                }
            } else {
                assert(t[i] == Seq::<(Seq<char>, DataType)>::empty());
                if kept_insert_at(ops, m, n, i) {
                    let k = choose|k: int| 0 <= k < m && #[trigger] inserts_name(ops, k, n) && scopes_after(ops, k).len() - 1 == i && level_kept(ops, k, m);
                    assert(scopes_after(ops, m - 1).len() >= scopes_after(ops, k).len());
                }
            }
        },
        ScopeOp::Exit => {
            assert(!fresh);
            if s.len() > 0 {
                assert(t[i] == s[i]);
                if kept_insert_at(ops, m - 1, n, i) {
                    let k = choose|k: int| 0 <= k < m - 1 && #[trigger] inserts_name(ops, k, n) && scopes_after(ops, k).len() - 1 == i && level_kept(ops, k, m - 1);
                    assert(level_kept(ops, k, m));
                }
            } else {
                assert(t == s);
            }
        },
        ScopeOp::Insert(x, ty) => {
            if s.len() > 0 && scopes_get(s, x) is None {
                let lv = s.len() - 1;
                if i == lv {
                    assert(t[i] == s[i].push((x, ty)));
                    if has_entry(t[i], n) {
                        let j = choose|j: int| 0 <= j < t[i].len() && t[i][j].0 == n;
                        if j < s[i].len() {
                            assert(t[i][j] == s[i][j]);
                            assert(has_entry(s[i], n));
                        } else {
                            assert(x == n);
                        }
                    }
                    if has_entry(s[i], n) {
                        let j = choose|j: int| 0 <= j < s[i].len() && s[i][j].0 == n;
                        assert(t[i][j] == s[i][j]);
                    }
                    if fresh {
                        assert(t[i][s[i].len() as int].0 == n);
                    }
                    if x == n {
                        assert(fresh);
                    }
                } else {
                    assert(t[i] == s[i]);
                }
                if kept_insert_at(ops, m - 1, n, i) {
                    let k = choose|k: int| 0 <= k < m - 1 && #[trigger] inserts_name(ops, k, n) && scopes_after(ops, k).len() - 1 == i && level_kept(ops, k, m - 1);
                    assert(level_kept(ops, k, m));
                }
            } else {
                assert(t == s);
                assert(!fresh);
                if kept_insert_at(ops, m - 1, n, i) {
                    let k = choose|k: int| 0 <= k < m - 1 && #[trigger] inserts_name(ops, k, n) && scopes_after(ops, k).len() - 1 == i && level_kept(ops, k, m - 1);
                    assert(level_kept(ops, k, m));
                }
            }
        },
    }
}

/// After any run of `enter`, `exit` and `insert_new` on a new scope stack, a
/// name is found (so `contains` holds) exactly when some successful
/// `insert_new` of it wrote into a scope that no later `exit` removed; a new
/// stack finds no name.
pub proof fn lemma_contains_after_ops(ops: Seq<ScopeOp>, m: int, n: Seq<char>)
    requires
        0 <= m <= ops.len(),
    ensures
        (scopes_get(scopes_after(ops, m), n) is Some) <==> exists|k: int|
            0 <= k < m && #[trigger] inserts_name(ops, k, n) && level_kept(ops, k, m),
        scopes_get(scopes_after(ops, 0), n) is None,
{
    let t = scopes_after(ops, m);
    lemma_levels_after(ops, m, n);
    lemma_get_some_iff_entry(t, n);
    if scopes_get(t, n) is Some {
        let (i, j) = choose|i: int, j: int| 0 <= i < t.len() && 0 <= j < t[i].len() && #[trigger] t[i][j].0 == n;
        assert(has_entry(t[i], n));
        assert(kept_insert_at(ops, m, n, i));
    }
    if exists|k: int| 0 <= k < m && #[trigger] inserts_name(ops, k, n) && level_kept(ops, k, m) {
        let k = choose|k: int| 0 <= k < m && #[trigger] inserts_name(ops, k, n) && level_kept(ops, k, m);
        let i = scopes_after(ops, k).len() - 1;
        assert(t.len() >= scopes_after(ops, k).len());
        assert(kept_insert_at(ops, m, n, i));
        assert(has_entry(t[i], n));
        let j = choose|j: int| 0 <= j < t[i].len() && t[i][j].0 == n;
        assert(t[i][j].0 == n);
    }
    assert(scopes_after(ops, 0) =~= Seq::<Seq<(Seq<char>, DataType)>>::empty());
}

/// One scope's entries, names as text.
pub open spec fn scope_view(scope: Seq<(String, DataType)>) -> Seq<(Seq<char>, DataType)> {
    scope.map_values(|e: (String, DataType)| (e.0@, e.1))
}

/// A stack of scopes, each mapping variable names to their types.
pub struct DataTypeScope {
    scopes: Vec<Vec<(String, DataType)>>,
}

impl DataTypeScope {
    /// The scopes from outermost to innermost.
    pub closed spec fn scopes(&self) -> Seq<Seq<(Seq<char>, DataType)>> {
        self.scopes@.map_values(|s: Vec<(String, DataType)>| scope_view(s@))
    }

    pub fn new() -> (s: Self)
        ensures
            s.scopes() == Seq::<Seq<(Seq<char>, DataType)>>::empty(),
    {
        let s = Self { scopes: Vec::new() };
        assert(s.scopes() =~= Seq::<Seq<(Seq<char>, DataType)>>::empty());
        s
    }

    /// Leaves the innermost scope, if there is one.
    pub fn exit(&mut self)
        ensures
            old(self).scopes().len() > 0 ==> final(self).scopes() == old(self).scopes().drop_last(),
            old(self).scopes().len() == 0 ==> final(self).scopes() == old(self).scopes(),
            final(self).scopes() == apply_scope_op(old(self).scopes(), ScopeOp::Exit),
    {
        let _ = self.scopes.pop();
        assert(self.scopes() =~= (if old(self).scopes().len() > 0 {
            old(self).scopes().drop_last()
        } else {
            old(self).scopes()
        }));
    }

    /// Opens a new, empty innermost scope.
    pub fn enter(&mut self)
        ensures
            final(self).scopes() == old(self).scopes().push(Seq::empty()),
            final(self).scopes() == apply_scope_op(old(self).scopes(), ScopeOp::Enter),
    {
        let v: Vec<(String, DataType)> = Vec::new();
        assert(scope_view(v@) =~= Seq::<(Seq<char>, DataType)>::empty());
        self.scopes.push(v);
        assert(self.scopes() =~= old(self).scopes().push(Seq::empty()));
    }

    /// Whether any scope has `name`.
    pub fn contains(&self, name: &str) -> (b: bool)
        ensures
            b == (scopes_get(self.scopes(), name@) is Some),
    {
        self.get(name).is_some()
    }

    /// Adds `name` with its type to the innermost scope; a name that some
    /// scope already has is refused.
    pub fn insert_new(&mut self, name: String, data_type: DataType, span: Span) -> (r: Result<(), CompileError>)
        requires
            old(self).scopes().len() > 0,
        ensures
            scopes_get(old(self).scopes(), name@) is Some ==> (r matches Err(e) && e@ == spec_var_redeclaration_at(name, span)
                && final(self).scopes() == old(self).scopes()),
            scopes_get(old(self).scopes(), name@) is None ==> (r is Ok && final(self).scopes() == old(self).scopes().update(
                old(self).scopes().len() - 1,
                old(self).scopes().last().push((name@, data_type)),
            )),
            final(self).scopes() == apply_scope_op(old(self).scopes(), ScopeOp::Insert(name@, data_type)),
    {
        if self.contains(name.as_str()) {
            return Err(CompileError::var_redeclaration_at(&name, span));
        }
        let ghost old_scopes = self.scopes();
        let mut innermost = self.scopes.pop().unwrap();
        let ghost old_inner = innermost@;
        innermost.push((name, data_type));
        self.scopes.push(innermost);
        proof {
            assert(scope_view(innermost@) =~= scope_view(old_inner).push((name@, data_type)));
            assert(self.scopes() =~= old_scopes.update(old_scopes.len() - 1, old_scopes.last().push((name@, data_type))));
        }
        Ok(())
    }

    /// The type of `key` in the innermost scope that has it.
    pub fn get(&self, key: &str) -> (r: Option<&DataType>)
        ensures
            match scopes_get(self.scopes(), key@) {
                Some(t) => r matches Some(x) && *x == t,
                None => r is None,
            },
    {
        let mut s: usize = self.scopes.len();
        assert(self.scopes().take(s as int) =~= self.scopes());
        while s > 0
            invariant
                s <= self.scopes@.len(),
                scopes_get(self.scopes(), key@) == scopes_get(self.scopes().take(s as int), key@),
            decreases s,
        {
            let scope = &self.scopes[s - 1];
            let ghost sv = scope_view(scope@);
            assert(self.scopes().take(s as int).last() == sv);
            assert(self.scopes().take(s as int).drop_last() =~= self.scopes().take(s - 1));
            let mut k: usize = scope.len();
            assert(sv.take(k as int) =~= sv);
            while k > 0
                invariant
                    k <= scope@.len(),
                    sv == scope_view(scope@),
                    0 < s <= self.scopes@.len(),
                    self.scopes().take(s as int).last() == sv,
                    scopes_get(self.scopes(), key@) == scopes_get(self.scopes().take(s as int), key@),
                    scope_find(sv, key@) == scope_find(sv.take(k as int), key@),
                decreases k,
            {
                assert(sv.take(k as int).last() == sv[k - 1]);
                if str_equal(scope[k - 1].0.as_str(), key) {
                    assert(scope_find(sv.take(k as int), key@) == Some(sv[k - 1].1));
                    assert(scopes_get(self.scopes().take(s as int), key@) == Some(sv[k - 1].1));
                    return Some(&scope[k - 1].1);
                }
                assert(sv.take(k as int).drop_last() =~= sv.take(k - 1));
                k = k - 1;
            }
            assert(sv.take(0) =~= Seq::<(Seq<char>, DataType)>::empty());
            s = s - 1;
        }
        assert(self.scopes().take(0) =~= Seq::<Seq<(Seq<char>, DataType)>>::empty());
        None
    }
}

} // verus!
