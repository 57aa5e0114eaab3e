//! Environments: the scopes in which names are bound.
//!
//! All scopes of one interpreter live in one arena and name each other by
//! index. A scope is therefore shared by everything that refers to it: the
//! scopes enclosed in it and the functions made in it see every binding that
//! is added to it later.

use vstd::prelude::*;
use crate::object::{optional_value, Object, ObjectView};
use crate::renaming::closed;

verus! {

/// The mathematical value of one scope: what it binds, and the scope that
/// encloses it.
pub struct ScopeView {
    pub store: Map<Seq<char>, ObjectView>,
    pub outer: Option<nat>,
}

/// The mathematical value of an [`Environment`]: all scopes made so far, in
/// the order in which they were made, and the index of the current one.
pub struct EnvironmentView {
    pub scopes: Seq<ScopeView>,
    pub current: nat,
}

impl ScopeView {
    /// A scope without bindings.
    pub open spec fn empty(outer: Option<nat>) -> ScopeView {
        ScopeView { store: Map::empty(), outer }
    }
}

impl EnvironmentView {
    /// The current scope exists, and every scope is enclosed, if at all, in
    /// one that was made before it.
    pub open spec fn well_formed(self) -> bool {
        &&& self.current < self.scopes.len()
        &&& forall|i: int|
            0 <= i < self.scopes.len() ==> ((#[trigger] self.scopes[i]).outer matches Some(o)
                ==> o < i)
    }

    /// One global scope without bindings.
    pub open spec fn empty() -> EnvironmentView {
        EnvironmentView { scopes: seq![ScopeView::empty(None)], current: 0 }
    }

    /// What `name` means in `scope`: its binding there, or else what it
    /// means in the enclosing scope; `None` where no scope on the way binds
    /// it.
    pub open spec fn lookup(self, scope: nat, name: Seq<char>) -> Option<ObjectView>
        decreases scope,
    {
        if scope >= self.scopes.len() {
            None
        } else if self.scopes[scope as int].store.contains_key(name) {
            Some(self.scopes[scope as int].store[name])
        } else {
            match self.scopes[scope as int].outer {
                Some(o) => if o < scope {
                    self.lookup(o, name)
                } else {
                    None
                },
                None => None,
            }
        }
    }

    /// What `name` means in the current scope.
    pub open spec fn get(self, name: Seq<char>) -> Option<ObjectView> {
        self.lookup(self.current, name)
    }

    /// The environment after `name` was bound to `value` in `scope`.
    pub open spec fn bind(self, scope: nat, name: Seq<char>, value: ObjectView) -> EnvironmentView {
        if scope < self.scopes.len() {
            EnvironmentView {
                scopes: self.scopes.update(
                    scope as int,
                    ScopeView {
                        store: self.scopes[scope as int].store.insert(name, value),
                        outer: self.scopes[scope as int].outer,
                    },
                ),
                current: self.current,
            }
        } else {
            self
        }
    }

    /// The environment after `name` was bound to `value` in the current
    /// scope.
    pub open spec fn set(self, name: Seq<char>, value: ObjectView) -> EnvironmentView {
        self.bind(self.current, name, value)
    }

    /// The environment after a new scope without bindings was made inside
    /// the scope `outer` and became the current one. A scope that does not
    /// exist encloses nothing.
    pub open spec fn enclose(self, outer: nat) -> EnvironmentView {
        EnvironmentView {
            scopes: self.scopes.push(
                ScopeView::empty(
                    if outer < self.scopes.len() {
                        Some(outer)
                    } else {
                        None
                    },
                ),
            ),
            current: self.scopes.len(),
        }
    }

    /// The same scopes with `scope` as the current one, where it exists.
    pub open spec fn with_current(self, scope: nat) -> EnvironmentView {
        if scope < self.scopes.len() {
            EnvironmentView { scopes: self.scopes, current: scope }
        } else {
            self
        }
    }
}

/// A name means, right after it was bound in the current scope, what it was
/// bound to.
pub proof fn lemma_get_after_set(env: EnvironmentView, name: Seq<char>, value: ObjectView)
    requires
        env.well_formed(),
    ensures
        env.set(name, value).get(name) == Some(value),
        env.set(name, value).well_formed(),
{
}

/// Binding a name changes the meaning of no other name, in any scope.
pub proof fn lemma_bind_leaves_other_names(
    env: EnvironmentView,
    at: nat,
    name: Seq<char>,
    value: ObjectView,
    scope: nat,
    other: Seq<char>,
)
    requires
        other != name,
    ensures
        env.bind(at, name, value).lookup(scope, other) == env.lookup(scope, other),
    decreases scope,
{
    if scope < env.scopes.len() {
        match env.scopes[scope as int].outer {
            Some(o) => {
                if o < scope {
                    lemma_bind_leaves_other_names(env, at, name, value, o, other);
                }
            },
            None => {},
        }
    }
}

/// Lexical scope: a name that a scope binds itself means there what that
/// scope binds it to, whatever the name is bound to in other scopes
/// afterwards, the enclosing ones included.
pub proof fn lemma_inner_binding_hides_outer(
    env: EnvironmentView,
    inner: nat,
    elsewhere: nat,
    name: Seq<char>,
    value: ObjectView,
)
    requires
        inner < env.scopes.len(),
        elsewhere != inner,
        env.scopes[inner as int].store.contains_key(name),
    ensures
        env.bind(elsewhere, name, value).lookup(inner, name) == env.lookup(inner, name),
        env.lookup(inner, name) == Some(env.scopes[inner as int].store[name]),
{
}

/// Shared scopes: a name that a scope does not bind itself means there what
/// it means in the enclosing scope, also after it was bound anew there.
pub proof fn lemma_outer_binding_shows_inside(
    env: EnvironmentView,
    inner: nat,
    name: Seq<char>,
    value: ObjectView,
)
    requires
        env.well_formed(),
        inner < env.scopes.len(),
        env.scopes[inner as int].outer is Some,
        !env.scopes[inner as int].store.contains_key(name),
    ensures
        env.bind(env.scopes[inner as int].outer->0, name, value).lookup(inner, name) == Some(
            value,
        ),
{
    let outer = env.scopes[inner as int].outer->0;
    let after = env.bind(outer, name, value);
    assert(outer < inner);
    assert(after.scopes[inner as int] == env.scopes[inner as int]);
    assert(after.lookup(outer, name) == Some(value));
}

/// What a list of bindings binds, a later binding of a name replacing an
/// earlier one.
pub open spec fn store_of(bindings: Seq<(Seq<char>, ObjectView)>) -> Map<Seq<char>, ObjectView>
    decreases bindings.len(),
{
    if bindings.len() == 0 {
        Map::empty()
    } else {
        store_of(bindings.drop_last()).insert(bindings.last().0, bindings.last().1)
    }
}

proof fn lemma_store_of_push(
    bindings: Seq<(Seq<char>, ObjectView)>,
    name: Seq<char>,
    value: ObjectView,
)
    ensures
        store_of(bindings.push((name, value))) == store_of(bindings).insert(name, value),
{
    assert(bindings.push((name, value)).drop_last() =~= bindings);
}

proof fn lemma_store_of_replace(bindings: Seq<(Seq<char>, ObjectView)>, i: int, value: ObjectView)
    requires
        0 <= i < bindings.len(),
        forall|j: int| i < j < bindings.len() ==> (#[trigger] bindings[j]).0 != bindings[i].0,
    ensures
        store_of(bindings.update(i, (bindings[i].0, value))) == store_of(bindings).insert(
            bindings[i].0,
            value,
        ),
    decreases bindings.len(),
{
    let updated = bindings.update(i, (bindings[i].0, value));
    let last = bindings.len() - 1;
    if i == last {
        assert(updated.drop_last() =~= bindings.drop_last());
        assert(store_of(updated) =~= store_of(bindings).insert(bindings[i].0, value));
    } else {
        lemma_store_of_replace(bindings.drop_last(), i, value);
        assert(updated.drop_last() =~= bindings.drop_last().update(i, (bindings[i].0, value)));
        assert(bindings[last].0 != bindings[i].0);
        assert(store_of(updated) =~= store_of(bindings).insert(bindings[i].0, value));
    }
}

proof fn lemma_store_of_miss(bindings: Seq<(Seq<char>, ObjectView)>, name: Seq<char>)
    requires
        forall|j: int| 0 <= j < bindings.len() ==> (#[trigger] bindings[j]).0 != name,
    ensures
        !store_of(bindings).contains_key(name),
    decreases bindings.len(),
{
    if bindings.len() > 0 {
        lemma_store_of_miss(bindings.drop_last(), name);
    }
}

proof fn lemma_store_of_hit(bindings: Seq<(Seq<char>, ObjectView)>, i: int)
    requires
        0 <= i < bindings.len(),
        forall|j: int| i < j < bindings.len() ==> (#[trigger] bindings[j]).0 != bindings[i].0,
    ensures
        store_of(bindings).contains_key(bindings[i].0),
        store_of(bindings)[bindings[i].0] == bindings[i].1,
    decreases bindings.len(),
{
    if i < bindings.len() - 1 {
        lemma_store_of_hit(bindings.drop_last(), i);
    }
}

#[derive(Debug, Clone)]
struct Binding {
    name: String,
    value: Object,
}

#[derive(Debug, Clone)]
struct Scope {
    bindings: Vec<Binding>,
    outer: Option<usize>,
}

/// The scopes of one interpreter, and which of them is the current one.
#[derive(Debug, Clone)]
pub struct Environment {
    scopes: Vec<Scope>,
    current: usize,
}

impl Scope {
    spec fn entries(&self) -> Seq<(Seq<char>, ObjectView)> {
        Seq::new(
            self.bindings.len() as nat,
            |i: int| (self.bindings[i].name@, self.bindings[i].value@),
        )
    }

    spec fn model(&self) -> ScopeView {
        ScopeView {
            store: store_of(self.entries()),
            outer: match self.outer {
                Some(o) => Some(o as nat),
                None => None,
            },
        }
    }

    /// The index of the last binding of `name`.
    fn find(&self, name: &str) -> (r: Option<usize>)
        ensures
            match r {
                Some(i) => {
                    &&& i < self.bindings.len()
                    &&& self.bindings[i as int].name@ == name@
                    &&& forall|j: int|
                        i < j < self.bindings.len() ==> (#[trigger] self.entries()[j]).0 != name@
                    &&& self.model().store.contains_key(name@)
                    &&& self.model().store[name@] == self.bindings[i as int].value@
                },
                None => !self.model().store.contains_key(name@),
            },
    {
        let wanted = name.to_owned();
        let mut i: usize = self.bindings.len();
        while i > 0
            invariant
                i <= self.bindings.len(),
                wanted@ == name@,
                forall|j: int|
                    i <= j < self.bindings.len() ==> (#[trigger] self.entries()[j]).0 != name@,
            decreases i,
        {
            i -= 1;
            if self.bindings[i].name == wanted {
                proof {
                    lemma_store_of_hit(self.entries(), i as int);
                }
                return Some(i);
            }
        }
        proof {
            lemma_store_of_miss(self.entries(), name@);
        }
        None
    }
}

impl View for Environment {
    type V = EnvironmentView;

    closed spec fn view(&self) -> EnvironmentView {
        EnvironmentView {
            scopes: Seq::new(self.scopes.len() as nat, |i: int| self.scopes[i].model()),
            current: self.current as nat,
        }
    }
}

impl Environment {
    /// An environment of one global scope without bindings.
    pub fn new() -> (r: Environment)
        ensures
            r@ == EnvironmentView::empty(),
            r@.well_formed(),
            closed(r@),
    {
        let mut scopes: Vec<Scope> = Vec::new();
        scopes.push(Scope { bindings: Vec::new(), outer: None });
        let r = Environment { scopes, current: 0 };
        assert(r.scopes[0].entries() =~= Seq::empty());
        assert(r@.scopes =~= EnvironmentView::empty().scopes);
        r
    }

    /// The environment `outer` with a new scope without bindings, enclosed
    /// in what was its current scope, as the current one.
    pub fn new_enclosed(outer: Environment) -> (r: Environment)
        requires
            outer@.well_formed(),
        ensures
            r@ == outer@.enclose(outer@.current),
            r@.well_formed(),
    {
        let mut r = outer;
        let current = r.current;
        r.enter(current);
        r
    }

    /// The index of the current scope.
    pub fn current(&self) -> (r: usize)
        ensures
            r == self@.current,
    {
        self.current
    }

    /// Makes a new scope without bindings inside the scope `outer`, makes it
    /// the current one, and returns the index of the scope that was current.
    pub fn enter(&mut self, outer: usize) -> (previous: usize)
        requires
            old(self)@.well_formed(),
        ensures
            final(self)@ == old(self)@.enclose(outer as nat),
            final(self)@.well_formed(),
            previous == old(self)@.current,
    {
        let previous = self.current;
        let enclosing = if outer < self.scopes.len() {
            Some(outer)
        } else {
            None
        };
        self.current = self.scopes.len();
        self.scopes.push(Scope { bindings: Vec::new(), outer: enclosing });
        proof {
            assert(self.scopes[self.current as int].entries() =~= Seq::empty());
            assert(self@.scopes =~= old(self)@.enclose(outer as nat).scopes);
        }
        previous
    }

    /// Makes `scope` the current scope again, where it exists.
    pub fn leave(&mut self, scope: usize)
        requires
            old(self)@.well_formed(),
        ensures
            final(self)@ == old(self)@.with_current(scope as nat),
            final(self)@.well_formed(),
    {
        if scope < self.scopes.len() {
            self.current = scope;
            assert(self@.scopes =~= old(self)@.scopes);
        }
    }

    /// What `key` is bound to: in the current scope, or else in the nearest
    /// enclosing scope that binds it.
    pub fn get(&self, key: &str) -> (r: Option<Object>)
        requires
            self@.well_formed(),
        ensures
            optional_value(r) == self@.get(key@),
    {
        let mut id = self.current;
        loop
            invariant
                self@.well_formed(),
                id < self.scopes.len(),
                self@.lookup(id as nat, key@) == self@.get(key@),
            decreases id,
        {
            let scope = &self.scopes[id];
            assert(self@.scopes[id as int] == scope.model());
            match scope.find(key) {
                Some(i) => {
                    return Some(scope.bindings[i].value.clone());
                },
                None => {},
            }
            match scope.outer {
                Some(o) => {
                    id = o;
                },
                None => {
                    return None;
                },
            }
        }
    }

    /// Binds `key` to `val` in the current scope, in place of what it was
    /// bound to there, and returns a copy of the value.
    pub fn set(&mut self, key: String, val: Object) -> (r: Option<Object>)
        requires
            old(self)@.well_formed(),
        ensures
            final(self)@ == old(self)@.set(key@, val@),
            final(self)@.well_formed(),
            optional_value(r) == Some(val@),
    {
        let copy = val.clone();
        let current = self.current;
        let ghost before = self.scopes[current as int].entries();
        let found = self.scopes[current].find(key.as_str());
        assert(self@.scopes[current as int] == self.scopes[current as int].model());
        match found {
            Some(i) => {
                self.scopes[current].bindings[i].value = val;
                proof {
                    let after = self.scopes[current as int].entries();
                    assert(after =~= before.update(i as int, (before[i as int].0, val@)));
                    lemma_store_of_replace(before, i as int, val@);
                }
            },
            None => {
                self.scopes[current].bindings.push(Binding { name: key, value: val });
                proof {
                    let after = self.scopes[current as int].entries();
                    assert(after =~= before.push((key@, val@)));
                    lemma_store_of_push(before, key@, val@);
                }
            },
        }
        proof {
            let expected = old(self)@.set(key@, val@);
            assert(self@.scopes.len() == expected.scopes.len());
            assert forall|j: int| 0 <= j < self@.scopes.len() implies self@.scopes[j]
                == expected.scopes[j] by {
                if j != current {
                    assert(self.scopes[j] == old(self).scopes[j]);
                }
            }
            assert(self@.scopes =~= expected.scopes);
        }
        Some(copy)
    }
}

} // verus!
