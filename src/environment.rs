//! The scope chain: an arena of scopes with stable handles, its
//! mathematical model, and the laws of declaration, assignment and lookup.
use vstd::prelude::*;
use crate::value::{ErrorKind, InterpreterError, Value, ValueModel, fail};

verus! {

/// One scope: its bindings in order of declaration, the handle of its
/// enclosing scope, and whether a closure has captured it.
#[derive(Debug)]
pub struct Scope {
    pub vars: Vec<(String, Value)>,
    pub parent_idx: Option<usize>,
    pub captured: bool,
}

/// The scope chain: an arena of scopes addressed by stable handles (indices),
/// and the handle of the current scope.
#[derive(Debug)]
pub struct ScopeEnvironment {
    pub scopes: Vec<Scope>,
    pub current_idx: usize,
}

/// A scope as a mathematical value.
pub struct ScopeModel {
    pub vars: Seq<(Seq<char>, ValueModel)>,
    pub parent: Option<int>,
    pub captured: bool,
}

/// The scope chain as a mathematical value.
pub struct EnvModel {
    pub scopes: Seq<ScopeModel>,
    pub current: int,
}

/// Position of the binding of `name` in `vars`, if any (the latest one).
pub open spec fn find_var(vars: Seq<(Seq<char>, ValueModel)>, name: Seq<char>) -> Option<int>
    decreases vars.len(),
{
    if vars.len() == 0 {
        None
    } else if vars.last().0 == name {
        Some(vars.len() - 1)
    } else {
        find_var(vars.drop_last(), name)
    }
}

/// No name is bound twice in one scope.
pub open spec fn unique_names(vars: Seq<(Seq<char>, ValueModel)>) -> bool {
    forall|a: int, b: int| 0 <= a < b < vars.len() ==> #[trigger] vars[a].0 != #[trigger] vars[b].0
}

proof fn lemma_find_var_none(vars: Seq<(Seq<char>, ValueModel)>, name: Seq<char>)
    ensures
        find_var(vars, name) is None ==> forall|k: int| 0 <= k < vars.len() ==> #[trigger] vars[k].0 != name,
    decreases vars.len(),
{
    if vars.len() > 0 {
        lemma_find_var_none(vars.drop_last(), name);
        if find_var(vars, name) is None {
            assert forall|k: int| 0 <= k < vars.len() implies #[trigger] vars[k].0 != name by {
                if k < vars.len() - 1 {
                    assert(vars[k] == vars.drop_last()[k]);
                }
            }
        }
    }
}

/// Adding an unbound name keeps names unique; rebinding a bound one too.
proof fn lemma_unique_push_update(vars: Seq<(Seq<char>, ValueModel)>, name: Seq<char>, v: ValueModel)
    requires
        unique_names(vars),
    ensures
        find_var(vars, name) is None ==> unique_names(vars.push((name, v))),
        find_var(vars, name) matches Some(k) ==> unique_names(vars.update(k, (name, v))),
{
    lemma_find_var_none(vars, name);
    lemma_find_var(vars, name);
    if find_var(vars, name) is None {
        let p = vars.push((name, v));
        assert forall|a: int, b: int| 0 <= a < b < p.len() implies #[trigger] p[a].0 != #[trigger] p[b].0 by {
            if b == vars.len() {
                assert(p[a] == vars[a]);
            } else {
                assert(p[a] == vars[a] && p[b] == vars[b]);
            }
        }
    }
    if let Some(k) = find_var(vars, name) {
        let u = vars.update(k, (name, v));
        assert forall|a: int, b: int| 0 <= a < b < u.len() implies #[trigger] u[a].0 != #[trigger] u[b].0 by {
            assert(u[a].0 == vars[a].0 && u[b].0 == vars[b].0);
        }
    }
}

proof fn lemma_find_var(vars: Seq<(Seq<char>, ValueModel)>, name: Seq<char>)
    ensures
        find_var(vars, name) matches Some(k) ==> 0 <= k < vars.len() && vars[k].0 == name,
    decreases vars.len(),
{
    if vars.len() > 0 && vars.last().0 != name {
        lemma_find_var(vars.drop_last(), name);
    }
}

impl Scope {
    pub open spec fn model(&self) -> ScopeModel {
        ScopeModel {
            vars: self.vars@.map_values(|e: (String, Value)| (e.0@, e.1.model())),
            parent: match self.parent_idx {
                Some(p) => Some(p as int),
                None => None,
            },
            captured: self.captured,
        }
    }
}

impl ScopeModel {
    pub open spec fn empty_child(parent: int) -> ScopeModel {
        ScopeModel { vars: Seq::empty(), parent: Some(parent), captured: false }
    }
}

impl EnvModel {
    /// Every scope's parent comes before it, the first scope is the root, and
    /// the current handle is valid.
    pub open spec fn wf(self) -> bool {
        &&& self.scopes.len() > 0
        &&& 0 <= self.current < self.scopes.len()
        &&& self.scopes[0].parent is None
        &&& forall|i: int|
            0 <= i < self.scopes.len() ==> (#[trigger] self.scopes[i].parent matches Some(p) ==> 0
                <= p < i)
        &&& forall|i: int| 0 <= i < self.scopes.len() ==> unique_names(#[trigger] self.scopes[i].vars)
    }

    /// The handle of the scope that binds `name`, walking outward from `idx`.
    pub open spec fn resolve(self, idx: int, name: Seq<char>) -> Option<int>
        decreases idx,
    {
        if 0 <= idx < self.scopes.len() {
            if find_var(self.scopes[idx].vars, name) is Some {
                Some(idx)
            } else {
                match self.scopes[idx].parent {
                    Some(p) => if 0 <= p < idx {
                        self.resolve(p, name)
                    } else {
                        None
                    },
                    None => None,
                }
            }
        } else {
            None
        }
    }

    /// A scope that `resolve` names binds the name.
    pub proof fn lemma_resolve_binds(self, idx: int, name: Seq<char>)
        ensures
            self.resolve(idx, name) matches Some(s) ==> 0 <= s < self.scopes.len() && find_var(
                self.scopes[s].vars,
                name,
            ) is Some,
        decreases idx,
    {
        if 0 <= idx < self.scopes.len() && find_var(self.scopes[idx].vars, name) is None {
            if let Some(p) = self.scopes[idx].parent {
                if 0 <= p < idx {
                    self.lemma_resolve_binds(p, name);
                }
            }
        }
    }

    /// The value of `name` as seen from scope `idx`.
    pub open spec fn lookup_from(self, idx: int, name: Seq<char>) -> Option<ValueModel> {
        match self.resolve(idx, name) {
            Some(s) => Some(self.scopes[s].vars[find_var(self.scopes[s].vars, name).unwrap()].1),
            None => None,
        }
    }

    /// The value of `name` as seen from the current scope.
    pub open spec fn lookup(self, name: Seq<char>) -> Option<ValueModel> {
        self.lookup_from(self.current, name)
    }

    /// Declaring `name` in the current scope; `None` when it already holds it.
    pub open spec fn declare(self, name: Seq<char>, v: ValueModel) -> Option<EnvModel> {
        let cur = self.scopes[self.current];
        if find_var(cur.vars, name) is Some {
            None
        } else {
            Some(
                EnvModel {
                    scopes: self.scopes.update(
                        self.current,
                        ScopeModel { vars: cur.vars.push((name, v)), ..cur },
                    ),
                    current: self.current,
                },
            )
        }
    }

    /// Assigning `name` where it is bound nearest to the current scope;
    /// `None` when no scope on the chain binds it.
    pub open spec fn assign(self, name: Seq<char>, v: ValueModel) -> Option<EnvModel> {
        match self.resolve(self.current, name) {
            Some(s) => {
                let sc = self.scopes[s];
                let k = find_var(sc.vars, name).unwrap();
                Some(
                    EnvModel {
                        scopes: self.scopes.update(
                            s,
                            ScopeModel { vars: sc.vars.update(k, (name, v)), ..sc },
                        ),
                        current: self.current,
                    },
                )
            },
            None => None,
        }
    }

    /// Declaring changes bindings only.
    pub proof fn lemma_declare_shape(self, name: Seq<char>, v: ValueModel)
        requires
            self.wf(),
        ensures
            self.declare(name, v) matches Some(m) ==> m.wf() && m.scopes.len() == self.scopes.len()
                && m.current == self.current && forall|i: int|
                0 <= i < self.scopes.len() ==> (#[trigger] m.scopes[i]).parent
                    == self.scopes[i].parent && m.scopes[i].captured == self.scopes[i].captured,
    {
        let cur = self.scopes[self.current];
        lemma_unique_push_update(cur.vars, name, v);
        if let Some(m) = self.declare(name, v) {
            assert forall|i: int| 0 <= i < m.scopes.len() implies unique_names(
                #[trigger] m.scopes[i].vars,
            ) by {
                if i != self.current {
                    assert(m.scopes[i] == self.scopes[i]);
                }
            }
        }
    }

    /// Assigning changes bindings only.
    pub proof fn lemma_assign_shape(self, name: Seq<char>, v: ValueModel)
        requires
            self.wf(),
        ensures
            self.assign(name, v) matches Some(m) ==> m.wf() && m.scopes.len() == self.scopes.len()
                && m.current == self.current && forall|i: int|
                0 <= i < self.scopes.len() ==> (#[trigger] m.scopes[i]).parent
                    == self.scopes[i].parent && m.scopes[i].captured == self.scopes[i].captured,
    {
        self.lemma_resolve_binds(self.current, name);
        if let Some(sidx) = self.resolve(self.current, name) {
            lemma_unique_push_update(self.scopes[sidx].vars, name, v);
            let m = self.assign(name, v).unwrap();
            assert forall|i: int| 0 <= i < m.scopes.len() implies unique_names(
                #[trigger] m.scopes[i].vars,
            ) by {
                if i != sidx {
                    assert(m.scopes[i] == self.scopes[i]);
                }
            }
        }
    }

    /// A fresh empty scope whose parent is `parent`, made current.
    pub open spec fn enter_child_of(self, parent: int) -> EnvModel {
        EnvModel {
            scopes: self.scopes.push(ScopeModel::empty_child(parent)),
            current: self.scopes.len() as int,
        }
    }

    /// A fresh empty scope under the current one, made current.
    pub open spec fn enter_child(self) -> EnvModel {
        self.enter_child_of(self.current)
    }
}

/// The scope chain of a fresh interpreter: one empty root scope.
pub open spec fn root_env() -> EnvModel {
    EnvModel {
        scopes: seq![ScopeModel { vars: Seq::empty(), parent: None, captured: false }],
        current: 0,
    }
}

impl ScopeEnvironment {
    pub open spec fn model(&self) -> EnvModel {
        EnvModel {
            scopes: self.scopes@.map_values(|s: Scope| s.model()),
            current: self.current_idx as int,
        }
    }

    pub open spec fn wf(&self) -> bool {
        self.model().wf()
    }

    /// An environment with one empty root scope.
    pub fn new_root() -> (r: ScopeEnvironment)
        ensures
            r.wf(),
            r.model().scopes.len() == 1,
            r.model().current == 0,
            r.model().scopes[0].vars.len() == 0,
            r.model() == root_env(),
    {
        let root = Scope { vars: Vec::new(), parent_idx: None, captured: false };
        let r = ScopeEnvironment { scopes: vec![root], current_idx: 0 };
        assert(r.model().scopes[0].vars =~= Seq::empty());
        assert(r.model().scopes =~= root_env().scopes);
        r
    }

    /// Handle of the current scope.
    pub fn current(&self) -> (h: usize)
        ensures
            h == self.current_idx,
    {
        self.current_idx
    }

    /// Number of scopes in the arena.
    pub fn scope_count(&self) -> (n: usize)
        ensures
            n == self.scopes@.len(),
    {
        self.scopes.len()
    }

    /// Position of `name` in scope `idx`.
    fn find_in(&self, idx: usize, name: &String) -> (r: Option<usize>)
        requires
            idx < self.scopes@.len(),
        ensures
            r matches Some(k) ==> find_var(self.model().scopes[idx as int].vars, name@) == Some(
                k as int,
            ) && k < self.scopes@[idx as int].vars@.len(),
            r is None ==> find_var(self.model().scopes[idx as int].vars, name@) is None,
    {
        let vars = &self.scopes[idx].vars;
        let ghost mv = self.model().scopes[idx as int].vars;
        assert(mv.take(vars@.len() as int) =~= mv);
        let mut k = vars.len();
        while k > 0
            invariant
                k <= vars@.len(),
                idx < self.scopes@.len(),
                vars@ == self.scopes@[idx as int].vars@,
                mv == self.model().scopes[idx as int].vars,
                mv == vars@.map_values(|e: (String, Value)| (e.0@, e.1.model())),
                find_var(mv, name@) == find_var(mv.take(k as int), name@),
            decreases k,
        {
            let ghost pre = mv.take(k as int);
            assert(pre.drop_last() =~= mv.take(k - 1));
            assert(mv[k - 1].0 == vars@[k - 1].0@);
            if vars[k - 1].0 == *name {
                assert(pre.len() == k);
                assert(pre.last() == mv[k - 1]);
                assert(pre.last().0 == name@);
                assert(find_var(pre, name@) == Some(k - 1));
                return Some(k - 1);
            }
            k = k - 1;
        }
        assert(mv.take(0).len() == 0);
        None
    }

    /// Handle of the scope binding `name`, walking outward from the current one.
    fn resolve_current(&self, name: &String) -> (r: Option<usize>)
        requires
            self.wf(),
        ensures
            r matches Some(s) ==> self.model().resolve(self.model().current, name@) == Some(
                s as int,
            ) && s < self.scopes@.len(),
            r is None ==> self.model().resolve(self.model().current, name@) is None,
    {
        let mut idx = self.current_idx;
        loop
            invariant
                self.wf(),
                idx < self.scopes@.len(),
                self.model().resolve(self.model().current, name@) == self.model().resolve(
                    idx as int,
                    name@,
                ),
            decreases idx,
        {
            if self.find_in(idx, name).is_some() {
                return Some(idx);
            }
            match self.scopes[idx].parent_idx {
                Some(p) => {
                    assert(self.model().scopes[idx as int].parent == Some(p as int));
                    idx = p;
                },
                None => {
                    return None;
                },
            }
        }
    }

    /// The value bound to `name`, walking outward from the current scope.
    pub fn get(&self, name: &String) -> (r: Option<&Value>)
        requires
            self.wf(),
        ensures
            r matches Some(v) ==> self.model().lookup(name@) == Some(v.model()),
            r is None ==> self.model().lookup(name@) is None,
    {
        proof {
            self.model().lemma_resolve_binds(self.model().current, name@);
        }
        match self.resolve_current(name) {
            Some(s) => {
                let k = self.find_in(s, name).unwrap();
                Some(&self.scopes[s].vars[k].1)
            },
            None => None,
        }
    }

    /// Binds `name` in the current scope; fails when the current scope
    /// already binds it.
    pub fn declare(&mut self, name: &String, value: Value) -> (r: Result<(), InterpreterError>)
        requires
            old(self).wf(),
        ensures
            final(self).wf(),
            old(self).model().declare(name@, value.model()) matches Some(m) ==> (r is Ok && final(self).model() == m),
            old(self).model().declare(name@, value.model()) is None ==> (r matches Err(e) && e.kind
                == ErrorKind::AlreadyDeclared && final(self).model() == old(self).model()),
            final(self).scopes@.len() == old(self).scopes@.len(),
    {
        let cur = self.current_idx;
        if self.find_in(cur, name).is_some() {
            return fail(ErrorKind::AlreadyDeclared, "variable already declared in this scope");
        }
        let ghost m0 = self.model();
        let mut scope = self.take_scope(cur);
        scope.vars.push((name.clone(), value));
        self.put_scope(cur, scope);
        proof {
            m0.lemma_declare_shape(name@, value.model());
            let m = m0.declare(name@, value.model()).unwrap();
            assert(self.model().scopes[cur as int].vars =~= m.scopes[cur as int].vars);
            assert(self.model().scopes =~= m.scopes);
        }
        Ok(())
    }

    /// Replaces `name`'s value in the nearest scope that binds it; fails when
    /// no scope on the chain binds it.
    pub fn assign(&mut self, name: &String, value: Value) -> (r: Result<(), InterpreterError>)
        requires
            old(self).wf(),
        ensures
            final(self).wf(),
            old(self).model().assign(name@, value.model()) matches Some(m) ==> (r is Ok && final(self).model() == m),
            old(self).model().assign(name@, value.model()) is None ==> (r matches Err(e) && e.kind
                == ErrorKind::UndefinedVariable && final(self).model() == old(self).model()),
            final(self).scopes@.len() == old(self).scopes@.len(),
    {
        match self.resolve_current(name) {
            None => fail(ErrorKind::UndefinedVariable, "assignment to an undeclared variable"),
            Some(s) => {
                proof {
                    self.model().lemma_resolve_binds(self.model().current, name@);
                }
                let k = self.find_in(s, name).unwrap();
                let ghost m0 = self.model();
                proof {
                    lemma_find_var(m0.scopes[s as int].vars, name@);
                }
                let mut scope = self.take_scope(s);
                let key = scope.vars[k].0.clone();
                scope.vars.set(k, (key, value));
                self.put_scope(s, scope);
                proof {
                    m0.lemma_assign_shape(name@, value.model());
                    let m = m0.assign(name@, value.model()).unwrap();
                    assert(self.model().scopes[s as int].vars =~= m.scopes[s as int].vars);
                    assert(self.model().scopes =~= m.scopes);
                }
                Ok(())
            },
        }
    }

    /// Takes scope `idx` out of the arena, leaving an empty one in its place.
    fn take_scope(&mut self, idx: usize) -> (s: Scope)
        requires
            idx < old(self).scopes@.len(),
        ensures
            s == old(self).scopes@[idx as int],
            final(self).scopes@.len() == old(self).scopes@.len(),
            final(self).current_idx == old(self).current_idx,
            forall|i: int|
                0 <= i < old(self).scopes@.len() && i != idx ==> final(self).scopes@[i] == old(self).scopes@[i],
            final(self).scopes@[idx as int].parent_idx == old(self).scopes@[idx as int].parent_idx,
    {
        let parent = self.scopes[idx].parent_idx;
        let s = self.scopes.remove(idx);
        self.scopes.insert(idx, Scope { vars: Vec::new(), parent_idx: parent, captured: false });
        s
    }

    /// Puts scope `s` back at `idx`.
    fn put_scope(&mut self, idx: usize, s: Scope)
        requires
            idx < old(self).scopes@.len(),
        ensures
            final(self).scopes@ == old(self).scopes@.update(idx as int, s),
            final(self).current_idx == old(self).current_idx,
    {
        self.scopes.set(idx, s);
    }

    /// Pushes a fresh empty scope whose parent is `parent` and makes it
    /// current; returns the handle of the scope that was current.
    pub fn enter_child_of(&mut self, parent: usize) -> (prev: usize)
        requires
            old(self).wf(),
            parent < old(self).scopes@.len(),
        ensures
            prev == old(self).current_idx,
            final(self).wf(),
            final(self).model() == old(self).model().enter_child_of(parent as int),
    {
        let prev = self.current_idx;
        let scope = Scope { vars: Vec::new(), parent_idx: Some(parent), captured: false };
        self.scopes.push(scope);
        self.current_idx = self.scopes.len() - 1;
        proof {
            let m = old(self).model().enter_child_of(parent as int);
            assert(self.model().scopes[self.current_idx as int].vars =~= Seq::empty());
            assert(self.model().scopes =~= m.scopes);
        }
        prev
    }

    /// Pushes a fresh empty scope under the current one and makes it current;
    /// returns the handle of the scope that was current.
    pub fn new_child(&mut self) -> (prev: usize)
        requires
            old(self).wf(),
        ensures
            prev == old(self).current_idx,
            final(self).wf(),
            final(self).model() == old(self).model().enter_child(),
    {
        let cur = self.current_idx;
        self.enter_child_of(cur)
    }

    /// Leaves the current scope for `prev`. The scope left is released when it
    /// is the newest one and no closure captured it; every other scope keeps
    /// its handle.
    pub fn pop_scope(&mut self, prev: usize)
        requires
            old(self).wf(),
            prev < old(self).current_idx,
        ensures
            final(self).wf(),
            final(self).current_idx == prev,
            final(self).scopes@.len() == old(self).scopes@.len() || (final(self).scopes@.len()
                == old(self).scopes@.len() - 1 && old(self).current_idx == old(self).scopes@.len()
                - 1),
            (old(self).current_idx == old(self).scopes@.len() - 1 && !old(self).scopes@[old(self).current_idx as int].captured) ==> final(self).scopes@.len() == old(self).scopes@.len() - 1,
            !(old(self).current_idx == old(self).scopes@.len() - 1 && !old(self).scopes@[old(self).current_idx as int].captured) ==> final(self).scopes@.len() == old(self).scopes@.len(),
            forall|i: int|
                0 <= i < final(self).scopes@.len() ==> final(self).scopes@[i] == old(self).scopes@[i],
    {
        let cur = self.current_idx;
        if cur == self.scopes.len() - 1 && !self.scopes[cur].captured {
            self.scopes.pop();
        }
        self.current_idx = prev;
        assert forall|i: int| 0 <= i < self.scopes@.len() implies (#[trigger] self.model().scopes[i].parent matches Some(p) ==> 0 <= p < i) by {
            assert(self.model().scopes[i] == old(self).model().scopes[i]);
        }
        assert forall|i: int| 0 <= i < self.scopes@.len() implies unique_names(#[trigger] self.model().scopes[i].vars) by {
            assert(self.model().scopes[i] == old(self).model().scopes[i]);
        }
    }

    /// Marks the current scope as captured by a closure: it is never
    /// released.
    pub fn capture_current(&mut self)
        requires
            old(self).wf(),
        ensures
            final(self).wf(),
            final(self).current_idx == old(self).current_idx,
            final(self).scopes@.len() == old(self).scopes@.len(),
            forall|i: int|
                0 <= i < final(self).scopes@.len() ==> (#[trigger] final(self).model().scopes[i]).vars
                    == old(self).model().scopes[i].vars && final(self).model().scopes[i].parent
                    == old(self).model().scopes[i].parent,
    {
        let cur = self.current_idx;
        let mut scope = self.take_scope(cur);
        scope.captured = true;
        self.put_scope(cur, scope);
        assert forall|i: int| 0 <= i < self.scopes@.len() implies (#[trigger] self.model().scopes[i].parent matches Some(p) ==> 0 <= p < i) by {
            assert(self.model().scopes[i].parent == old(self).model().scopes[i].parent);
        }
        assert forall|i: int| 0 <= i < self.scopes@.len() implies unique_names(#[trigger] self.model().scopes[i].vars) by {
            assert(self.model().scopes[i].vars == old(self).model().scopes[i].vars);
        }
    }

    /// Makes the root scope current.
    pub fn set_to_root(&mut self)
        requires
            old(self).wf(),
        ensures
            final(self).wf(),
            final(self).scopes == old(self).scopes,
            final(self).current_idx == 0,
    {
        self.current_idx = 0;
    }
}

} // verus!

verus! {

proof fn lemma_find_var_update(vars: Seq<(Seq<char>, ValueModel)>, name: Seq<char>, v: ValueModel)
    requires
        find_var(vars, name) is Some,
    ensures
        find_var(vars.update(find_var(vars, name).unwrap(), (name, v)), name) == find_var(
            vars,
            name,
        ),
    decreases vars.len(),
{
    lemma_find_var(vars, name);
    let k = find_var(vars, name).unwrap();
    let u = vars.update(k, (name, v));
    if vars.last().0 != name {
        assert(find_var(vars.drop_last(), name) == Some(k));
        lemma_find_var_update(vars.drop_last(), name, v);
        assert(u.drop_last() =~= vars.drop_last().update(k, (name, v)));
    }
}

/// `resolve` agrees on two chains whose first scopes have the same parents
/// and bind `name` alike.
proof fn lemma_resolve_agrees(a: EnvModel, b: EnvModel, name: Seq<char>, idx: int)
    requires
        a.scopes.len() <= b.scopes.len(),
        forall|i: int|
            0 <= i < a.scopes.len() ==> (#[trigger] b.scopes[i]).parent == a.scopes[i].parent && (
            find_var(b.scopes[i].vars, name) is Some) == (find_var(a.scopes[i].vars, name) is Some),
        0 <= idx < a.scopes.len(),
    ensures
        b.resolve(idx, name) == a.resolve(idx, name),
    decreases idx,
{
    assert(b.scopes[idx].parent == a.scopes[idx].parent);
    if let Some(p) = a.scopes[idx].parent {
        if 0 <= p < idx {
            lemma_resolve_agrees(a, b, name, p);
        }
    }
}

/// Declaring a name twice in one scope fails; declaring it again in a fresh
/// child scope succeeds, and from there the new binding shadows the outer one.
pub proof fn law_redeclare_fails_shadowing_succeeds(
    env: EnvModel,
    name: Seq<char>,
    first: ValueModel,
    second: ValueModel,
)
    requires
        env.wf(),
        env.declare(name, first) is Some,
    ensures
        env.declare(name, first).unwrap().declare(name, second) is None,
        env.declare(name, first).unwrap().enter_child().declare(name, second) is Some,
        env.declare(name, first).unwrap().enter_child().declare(name, second).unwrap().lookup(
            name,
        ) == Some(second),
        env.declare(name, first).unwrap().lookup(name) == Some(first),
{
    let e1 = env.declare(name, first).unwrap();
    let cur = e1.scopes[e1.current];
    assert(cur.vars.last().0 == name);
    let c = e1.enter_child();
    assert(c.scopes[c.current].vars.len() == 0);
    let c2 = c.declare(name, second).unwrap();
    assert(c2.scopes[c2.current].vars.last().0 == name);
}

/// Assigning a name that no scope on the chain binds fails.
pub proof fn law_assign_undeclared_fails(env: EnvModel, name: Seq<char>, v: ValueModel)
    requires
        env.wf(),
        env.lookup(name) is None,
    ensures
        env.assign(name, v) is None,
{
}

/// After a declaration, assigning the name succeeds, and the new value is
/// what a lookup sees, from the same scope and from a child scope.
pub proof fn law_assign_after_declare_visible(
    env: EnvModel,
    name: Seq<char>,
    initial: ValueModel,
    v: ValueModel,
)
    requires
        env.wf(),
        env.declare(name, initial) is Some,
    ensures
        env.declare(name, initial).unwrap().assign(name, v) is Some,
        env.declare(name, initial).unwrap().assign(name, v).unwrap().lookup(name) == Some(v),
        env.declare(name, initial).unwrap().assign(name, v).unwrap().enter_child().lookup(name)
            == Some(v),
{
    let e1 = env.declare(name, initial).unwrap();
    let cur = e1.current;
    assert(e1.scopes[cur].vars.last().0 == name);
    assert(e1.resolve(cur, name) == Some(cur));
    let e2 = e1.assign(name, v).unwrap();
    let k = find_var(e1.scopes[cur].vars, name).unwrap();
    lemma_find_var_update(e1.scopes[cur].vars, name, v);
    assert(e2.scopes[cur].vars == e1.scopes[cur].vars.update(k, (name, v)));
    assert(e2.resolve(cur, name) == Some(cur));
    let c = e2.enter_child();
    assert(c.scopes[c.current].vars.len() == 0);
    assert(c.scopes[c.current].parent == Some(cur));
    lemma_resolve_agrees(e2, c, name, cur);
    assert(c.resolve(c.current, name) == c.resolve(cur, name));
}

/// A scope entered under the handle `h` after an assignment sees the
/// assigned value, when `h`'s chain and the current chain share the binding:
/// a closure that captured `h` observes assignments made after it was
/// created, not a copy taken at creation.
pub proof fn law_captured_scope_observes_assignment(
    env: EnvModel,
    h: int,
    name: Seq<char>,
    v: ValueModel,
)
    requires
        env.wf(),
        0 <= h < env.scopes.len(),
        env.resolve(h, name) is Some,
        env.resolve(h, name) == env.resolve(env.current, name),
    ensures
        env.assign(name, v) is Some,
        env.assign(name, v).unwrap().enter_child_of(h).lookup(name) == Some(v),
{
    let s = env.resolve(h, name).unwrap();
    env.lemma_resolve_binds(h, name);
    let e2 = env.assign(name, v).unwrap();
    let k = find_var(env.scopes[s].vars, name).unwrap();
    lemma_find_var_update(env.scopes[s].vars, name, v);
    assert forall|i: int| 0 <= i < env.scopes.len() implies (#[trigger] e2.scopes[i]).parent
        == env.scopes[i].parent && (find_var(e2.scopes[i].vars, name) is Some) == (find_var(
        env.scopes[i].vars,
        name,
    ) is Some) by {
        if i == s {
        }
    }
    lemma_resolve_agrees(env, e2, name, h);
    let c = e2.enter_child_of(h);
    assert(c.scopes[c.current].vars.len() == 0);
    lemma_resolve_agrees(e2, c, name, h);
    assert(c.resolve(c.current, name) == c.resolve(h, name));
    lemma_find_var(env.scopes[s].vars, name);
    assert(e2.scopes[s].vars == env.scopes[s].vars.update(k, (name, v)));
    assert(find_var(e2.scopes[s].vars, name) == Some(k));
    assert(c.scopes[s] == e2.scopes[s]);
    assert(c.scopes[s].vars[k] == (name, v));
}

} // verus!
