//! Environments: the scopes of one evaluation session. Scopes are kept in
//! one table and refer to their enclosing scope by index, so that a
//! function value can name the scope it was defined in.

use crate::object::{Object, ObjectView};
use vstd::prelude::*;

verus! {

/// The mathematical value of one scope: its bindings and the index of the
/// scope that encloses it.
pub struct ScopeView {
    pub vars: Map<Seq<char>, ObjectView>,
    pub parent: Option<nat>,
}

/// The mathematical value of an environment: all its scopes, and the index
/// of the one in which evaluation currently takes place.
pub struct EnvView {
    pub scopes: Seq<ScopeView>,
    pub current: nat,
}

impl EnvView {
    /// The current scope exists.
    pub open spec fn wf(self) -> bool {
        self.current < self.scopes.len()
    }

    /// What `name` is bound to when looked up from `scope`: the binding of
    /// the innermost scope that has one, following enclosing scopes
    /// outwards. An enclosing scope always has a smaller index.
    pub open spec fn lookup_from(self, scope: nat, name: Seq<char>) -> Option<ObjectView>
        decreases scope,
    {
        if scope >= self.scopes.len() {
            None
        } else if self.scopes[scope as int].vars.contains_key(name) {
            Some(self.scopes[scope as int].vars[name])
        } else {
            match self.scopes[scope as int].parent {
                Some(p) => if p < scope {
                    self.lookup_from(p, name)
                } else {
                    None
                },
                None => None,
            }
        }
    }

    /// What `name` is bound to in the current scope or the scopes around it.
    pub open spec fn lookup(self, name: Seq<char>) -> Option<ObjectView> {
        self.lookup_from(self.current, name)
    }

    /// The environment after binding `name` to `value` in the current scope.
    pub open spec fn bind(self, name: Seq<char>, value: ObjectView) -> EnvView {
        EnvView {
            scopes: self.scopes.update(
                self.current as int,
                ScopeView {
                    vars: self.scopes[self.current as int].vars.insert(name, value),
                    parent: self.scopes[self.current as int].parent,
                },
            ),
            current: self.current,
        }
    }

    /// The environment after opening a fresh, empty scope enclosed by
    /// `parent` and making it current.
    pub open spec fn enter(self, parent: nat) -> EnvView {
        EnvView {
            scopes: self.scopes.push(ScopeView { vars: Map::empty(), parent: Some(parent) }),
            current: self.scopes.len(),
        }
    }

    /// The environment with another scope made current.
    pub open spec fn with_current(self, scope: nat) -> EnvView {
        EnvView { scopes: self.scopes, current: scope }
    }

    /// The environment of a new session: one empty scope without parent.
    pub open spec fn fresh() -> EnvView {
        EnvView { scopes: seq![ScopeView { vars: Map::empty(), parent: None }], current: 0 }
    }
}

/// The bindings that parallel sequences of names and values stand for.
pub open spec fn bindings(names: Seq<Seq<char>>, values: Seq<ObjectView>) -> Map<
    Seq<char>,
    ObjectView,
> {
    Map::new(
        |k: Seq<char>| exists|i: int| 0 <= i < names.len() && names[i] == k,
        |k: Seq<char>| values[choose|i: int| 0 <= i < names.len() && names[i] == k],
    )
}

struct Scope {
    names: Vec<String>,
    values: Vec<Object>,
    parent: Option<usize>,
}

impl Scope {
    spec fn names_view(&self) -> Seq<Seq<char>> {
        Seq::new(self.names.len() as nat, |i: int| self.names[i]@)
    }

    spec fn values_view(&self) -> Seq<ObjectView> {
        Seq::new(self.values.len() as nat, |i: int| self.values[i]@)
    }

    /// Names and values are parallel, and no name occurs twice.
    spec fn wf(&self) -> bool {
        &&& self.names.len() == self.values.len()
        &&& forall|i: int, j: int|
            0 <= i < j < self.names.len() ==> self.names[i]@ != self.names[j]@
    }

    spec fn parent_view(&self) -> Option<nat> {
        match self.parent {
            Some(p) => Some(p as nat),
            None => None,
        }
    }

    spec fn model(&self) -> ScopeView {
        ScopeView {
            vars: bindings(self.names_view(), self.values_view()),
            parent: self.parent_view(),
        }
    }

    /// In a well-formed scope each name is bound to the value beside it.
    proof fn lemma_bound(&self, i: int)
        requires
            self.wf(),
            0 <= i < self.names.len(),
        ensures
            self.model().vars.contains_key(self.names[i]@),
            self.model().vars[self.names[i]@] == self.values[i]@,
    {
        let names = self.names_view();
        let k = self.names[i]@;
        assert(names[i] == k);
        let c = choose|c: int| 0 <= c < names.len() && names[c] == k;
        assert(c == i) by {
            if c < i {
                assert(self.names[c]@ != self.names[i]@);
            } else if i < c {
                assert(self.names[i]@ != self.names[c]@);
            }
        }
    }

    /// The index at which `name` is bound, if it is.
    fn find(&self, name: &String) -> (r: Option<usize>)
        requires
            self.wf(),
        ensures
            match r {
                Some(i) => i < self.names.len() && self.names[i as int]@ == name@,
                None => !self.model().vars.contains_key(name@),
            },
    {
        let mut i: usize = 0;
        while i < self.names.len()
            invariant
                i <= self.names.len(),
                forall|j: int| 0 <= j < i ==> self.names[j]@ != name@,
            decreases self.names.len() - i,
        {
            if self.names[i] == *name {
                return Some(i);
            }
            i += 1;
        }
        None
    }
}

/// The scopes of one evaluation session.
pub struct Environment {
    scopes: Vec<Scope>,
    current: usize,
}

impl View for Environment {
    type V = EnvView;

    closed spec fn view(&self) -> EnvView {
        EnvView {
            scopes: Seq::new(self.scopes.len() as nat, |i: int| self.scopes[i].model()),
            current: self.current as nat,
        }
    }
}

impl Environment {
    /// The representation invariant: the current scope exists, and every
    /// scope binds each of its names once.
    pub closed spec fn wf(&self) -> bool {
        &&& self.current < self.scopes.len()
        &&& forall|i: int| 0 <= i < self.scopes.len() ==> (#[trigger] self.scopes[i]).wf()
    }

    /// A well-formed environment has a well-formed model, so that what
    /// holds of evaluation in every well-formed model holds of it.
    pub proof fn lemma_wf_model(&self)
        requires
            self.wf(),
        ensures
            self@.wf(),
    {
    }

    /// The environment of a new session.
    pub fn new() -> (env: Environment)
        ensures
            env.wf(),
            env@ == EnvView::fresh(),
    {
        let root = Scope { names: Vec::new(), values: Vec::new(), parent: None };
        let mut scopes: Vec<Scope> = Vec::new();
        scopes.push(root);
        let env = Environment { scopes, current: 0 };
        proof {
            assert(env.scopes[0].model().vars =~= Map::empty());
            assert(env@.scopes =~= EnvView::fresh().scopes);
        }
        env
    }

    /// Looks `name` up in the current scope and the scopes around it.
    pub fn get(&self, name: String) -> (r: Option<&Object>)
        requires
            self.wf(),
        ensures
            match r {
                Some(o) => self@.lookup(name@) == Some(o@),
                None => self@.lookup(name@) is None,
            },
    {
        let mut scope: usize = self.current;
        loop
            invariant
                self.wf(),
                scope < self.scopes.len(),
                self@.lookup(name@) == self@.lookup_from(scope as nat, name@),
            decreases scope,
        {
            let s = &self.scopes[scope];
            match s.find(&name) {
                Some(i) => {
                    proof {
                        s.lemma_bound(i as int);
                    }
                    return Some(&s.values[i]);
                },
                None => {},
            }
            match s.parent {
                Some(p) => {
                    if p < scope {
                        scope = p;
                    } else {
                        return None;
                    }
                },
                None => {
                    return None;
                },
            }
        }
    }

    /// Binds `name` to `val` in the current scope, replacing any earlier
    /// binding of `name` there.
    pub fn set(&mut self, name: String, val: Object)
        requires
            old(self).wf(),
        ensures
            final(self).wf(),
            final(self)@ == old(self)@.bind(name@, val@),
            final(self)@.scopes.len() == old(self)@.scopes.len(),
    {
        let cur = self.current;
        let ghost before = self.scopes[cur as int];
        let found = self.scopes[cur].find(&name);
        match found {
            Some(i) => {
                proof {
                    before.lemma_bound(i as int);
                }
                self.scopes[cur].values[i] = val;
                proof {
                    let after = self.scopes[cur as int];
                    assert(after.names_view() =~= before.names_view());
                    assert(after.values_view() =~= before.values_view().update(i as int, val@));
                    assert(after.wf());
                    assert forall|k: Seq<char>| #[trigger]
                        after.model().vars.contains_key(k) implies after.model().vars[k]
                        == before.model().vars.insert(name@, val@)[k] by {
                        let c = choose|c: int|
                            0 <= c < after.names_view().len() && after.names_view()[c] == k;
                        after.lemma_bound(c);
                        before.lemma_bound(c);
                    }
                    assert(after.model().vars =~= before.model().vars.insert(name@, val@));
                }
            },
            None => {
                self.scopes[cur].names.push(name);
                self.scopes[cur].values.push(val);
                proof {
                    let after = self.scopes[cur as int];
                    assert(after.names_view() =~= before.names_view().push(name@));
                    assert(after.values_view() =~= before.values_view().push(val@));
                    assert(after.wf()) by {
                        assert forall|i: int, j: int|
                            0 <= i < j < after.names.len() implies after.names[i]@
                            != after.names[j]@ by {
                            if j == before.names.len() {
                                assert(before.names_view()[i] == before.names[i]@);
                            }
                        }
                    }
                    assert forall|k: Seq<char>| #[trigger]
                        after.model().vars.contains_key(k) implies after.model().vars[k]
                        == before.model().vars.insert(name@, val@)[k] by {
                        let c = choose|c: int|
                            0 <= c < after.names_view().len() && after.names_view()[c] == k;
                        after.lemma_bound(c);
                        if c < before.names.len() {
                            before.lemma_bound(c);
                        }
                    }
                    assert forall|k: Seq<char>|
                        before.model().vars.insert(name@, val@).contains_key(k) implies #[trigger]
                        after.model().vars.contains_key(k) by {
                        if k == name@ {
                            assert(after.names_view()[before.names.len() as int] == k);
                        } else {
                            let c = choose|c: int|
                                0 <= c < before.names_view().len() && before.names_view()[c] == k;
                            assert(after.names_view()[c] == k);
                        }
                    }
                    assert(after.model().vars =~= before.model().vars.insert(name@, val@));
                }
            },
        }
        proof {
            assert(self@.scopes =~= old(self)@.bind(name@, val@).scopes);
        }
    }

    /// The index of the current scope.
    pub fn current_scope(&self) -> (scope: usize)
        requires
            self.wf(),
        ensures
            scope == self@.current,
            scope < self@.scopes.len(),
    {
        self.current
    }

    /// Opens a fresh, empty scope enclosed by `parent` and makes it current.
    pub fn enter_scope(&mut self, parent: usize)
        requires
            old(self).wf(),
        ensures
            final(self).wf(),
            final(self)@ == old(self)@.enter(parent as nat),
    {
        let scope = Scope { names: Vec::new(), values: Vec::new(), parent: Some(parent) };
        assert(scope.model().vars =~= Map::empty());
        let index = self.scopes.len();
        self.scopes.push(scope);
        self.current = index;
        proof {
            assert(self@.scopes =~= old(self)@.enter(parent as nat).scopes);
        }
    }

    /// Makes `scope` the current scope again.
    pub fn leave_scope(&mut self, scope: usize)
        requires
            old(self).wf(),
            scope < old(self)@.scopes.len(),
        ensures
            final(self).wf(),
            final(self)@ == old(self)@.with_current(scope as nat),
    {
        self.current = scope;
        proof {
            assert(self@.scopes =~= old(self)@.scopes);
        }
    }
}

} // verus!
