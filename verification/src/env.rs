//! Environments: a chain of scopes from the root scope to the current one.

use vstd::prelude::*;
use vstd::string::StringExecFns;
use crate::l_value::{copy_value, outcome_view, BindingV, EnvV, LValue, ValueV};

verus! {

/// A name bound to a value.
#[derive(Debug, PartialEq)]
pub struct Binding {
    pub name: String,
    pub value: LValue,
}

/// A chain of scopes. The first scope is the root, the last one the current
/// scope; each scope lists its bindings.
#[derive(Debug, PartialEq)]
pub struct Env {
    pub scopes: Vec<Vec<Binding>>,
}

/// The views of the bindings of a scope.
pub open spec fn bindings_view(v: Seq<Binding>) -> Seq<BindingV> {
    Seq::new(v.len(), |j: int| BindingV { name: v[j].name@, value: v[j].value@ })
}

/// The views of the scopes of a chain.
pub open spec fn scopes_view(v: Seq<Vec<Binding>>) -> Seq<Seq<BindingV>> {
    Seq::new(v.len(), |i: int| bindings_view(v[i]@))
}

/// The index of the first binding of `name` at or after `from`.
pub open spec fn scope_find(scope: Seq<BindingV>, name: Seq<char>, from: int) -> Option<int>
    decreases scope.len() - from,
{
    if from < 0 || from >= scope.len() {
        None
    } else if scope[from].name == name {
        Some(from)
    } else {
        scope_find(scope, name, from + 1)
    }
}

/// The scope with `name` bound to `value`: in place of its binding where it
/// has one, else as a new last binding.
pub open spec fn scope_define(scope: Seq<BindingV>, name: Seq<char>, value: ValueV) -> Seq<
    BindingV,
> {
    match scope_find(scope, name, 0) {
        Some(j) => scope.update(j, BindingV { name, value }),
        None => scope.push(BindingV { name, value }),
    }
}

/// The index of the innermost of the first `upto` scopes that binds `name`.
pub open spec fn env_lookup(scopes: Seq<Seq<BindingV>>, name: Seq<char>, upto: int) -> Option<int>
    decreases upto,
{
    if upto <= 0 || upto > scopes.len() {
        None
    } else if scope_find(scopes[upto - 1], name, 0).is_some() {
        Some(upto - 1)
    } else {
        env_lookup(scopes, name, upto - 1)
    }
}

/// The message for a name that no scope binds.
pub open spec fn undefined_text(name: Seq<char>) -> Seq<char> {
    "undefined variable "@ + name
}

/// The message for an assignment to a name that no scope binds.
pub open spec fn unassignable_text(name: Seq<char>) -> Seq<char> {
    "attempting to assign to undefined variable "@ + name
}

/// The value of `name`: that of the innermost scope that binds it.
pub open spec fn get_spec(env: EnvV, name: Seq<char>) -> Result<ValueV, Seq<char>> {
    match env_lookup(env.scopes, name, env.scopes.len() as int) {
        Some(i) => Ok(env.scopes[i][scope_find(env.scopes[i], name, 0).unwrap()].value),
        None => Err(undefined_text(name)),
    }
}

/// The chain with `name` bound to `value` in its current scope.
pub open spec fn def_spec(env: EnvV, name: Seq<char>, value: ValueV) -> EnvV {
    let last = env.scopes.len() - 1;
    EnvV { scopes: env.scopes.update(last, scope_define(env.scopes[last], name, value)) }
}

/// Assignment: the innermost scope that binds `name` takes the value. Where
/// none does, the root scope takes it if it is the current scope; else the
/// assignment fails and the chain stays as it is.
pub open spec fn set_spec(env: EnvV, name: Seq<char>, value: ValueV) -> (
    Result<ValueV, Seq<char>>,
    EnvV,
) {
    match env_lookup(env.scopes, name, env.scopes.len() as int) {
        Some(i) => (
            Ok(value),
            EnvV { scopes: env.scopes.update(i, scope_define(env.scopes[i], name, value)) },
        ),
        None => if env.scopes.len() == 1 {
            (Ok(value), def_spec(env, name, value))
        } else {
            (Err(unassignable_text(name)), env)
        },
    }
}

/// Whether no name is bound twice in the scope.
pub open spec fn distinct_names(scope: Seq<BindingV>) -> bool {
    forall|i: int, j: int| 0 <= i < j < scope.len() ==> scope[i].name != scope[j].name
}

/// Whether a chain is well formed: it has at least its root scope, and no
/// scope binds a name twice.
pub open spec fn env_wf(env: EnvV) -> bool {
    &&& env.scopes.len() >= 1
    &&& forall|i: int| 0 <= i < env.scopes.len() ==> distinct_names(#[trigger] env.scopes[i])
}

/// What a search finds is the first binding of the name; where it finds
/// none, no binding has the name.
pub proof fn lemma_find_first(scope: Seq<BindingV>, name: Seq<char>, from: int)
    requires
        0 <= from,
    ensures
        match scope_find(scope, name, from) {
            Some(j) => from <= j < scope.len() && scope[j].name == name && forall|k: int|
                from <= k < j ==> (#[trigger] scope[k]).name != name,
            None => forall|k: int| from <= k < scope.len() ==> (#[trigger] scope[k]).name != name,
        },
    decreases scope.len() - from,
{
    if from < scope.len() && scope[from].name != name {
        lemma_find_first(scope, name, from + 1);
    }
}

/// The first binding of the name at or after `from` is what a search finds.
pub proof fn lemma_find_is(scope: Seq<BindingV>, name: Seq<char>, from: int, j: int)
    requires
        0 <= from <= j < scope.len(),
        scope[j].name == name,
        forall|k: int| from <= k < j ==> (#[trigger] scope[k]).name != name,
    ensures
        scope_find(scope, name, from) == Some(j),
    decreases j - from,
{
    if from < j {
        lemma_find_is(scope, name, from + 1, j);
    }
}

/// Binding a name in a scope that binds no name twice leaves it so.
pub proof fn lemma_define_keeps_distinct(scope: Seq<BindingV>, name: Seq<char>, value: ValueV)
    requires
        distinct_names(scope),
    ensures
        distinct_names(scope_define(scope, name, value)),
{
    lemma_find_first(scope, name, 0);
}

/// The scope that a lookup yields binds the name.
pub proof fn lemma_lookup_binds(scopes: Seq<Seq<BindingV>>, name: Seq<char>, upto: int)
    ensures
        match env_lookup(scopes, name, upto) {
            Some(i) => {
                &&& 0 <= i < upto
                &&& i < scopes.len()
                &&& scope_find(scopes[i], name, 0).is_some()
            },
            None => true,
        },
    decreases upto,
{
    if 0 < upto <= scopes.len() && scope_find(scopes[upto - 1], name, 0).is_none() {
        lemma_lookup_binds(scopes, name, upto - 1);
    }
}

/// Binds `name` in a scope.
pub fn define_in(scope: &mut Vec<Binding>, name: String, value: LValue)
    ensures
        bindings_view(final(scope)@) == scope_define(bindings_view(old(scope)@), name@, value@),
        distinct_names(bindings_view(old(scope)@)) ==> distinct_names(bindings_view(final(scope)@)),
{
    let ghost before = bindings_view(scope@);
    proof {
        if distinct_names(before) {
            lemma_define_keeps_distinct(before, name@, value@);
        }
    }
    let found = find_in(scope, &name);
    let ghost bound = BindingV { name: name@, value: value@ };
    match found {
        Some(j) => {
            scope.set(j, Binding { name, value });
            assert(bindings_view(scope@) =~= before.update(j as int, bound));
        },
        None => {
            scope.push(Binding { name, value });
            assert(bindings_view(scope@) =~= before.push(bound));
        },
    }
}

/// The index of the first binding of `name` in a scope.
pub fn find_in(scope: &Vec<Binding>, name: &String) -> (r: Option<usize>)
    ensures
        match r {
            Some(j) => j < scope.len() && scope_find(bindings_view(scope@), name@, 0) == Some(
                j as int,
            ),
            None => scope_find(bindings_view(scope@), name@, 0).is_none(),
        },
{
    let mut j: usize = 0;
    while j < scope.len()
        invariant
            j <= scope.len(),
            scope_find(bindings_view(scope@), name@, 0) == scope_find(
                bindings_view(scope@),
                name@,
                j as int,
            ),
        decreases scope.len() - j,
    {
        if scope[j].name.eq(name) {
            return Some(j);
        }
        j += 1;
    }
    None
}

impl Env {
    /// The chain as a mathematical value.
    pub open spec fn view(&self) -> EnvV {
        EnvV { scopes: scopes_view(self.scopes@) }
    }

    /// The chain has at least its root scope, and no scope binds a name
    /// twice.
    pub open spec fn wf(&self) -> bool {
        env_wf(self@)
    }

    /// A chain of one empty scope, the root.
    pub fn new() -> (r: Env)
        ensures
            r.wf(),
            r@.scopes == seq![Seq::<BindingV>::empty()],
    {
        let mut scopes: Vec<Vec<Binding>> = Vec::new();
        scopes.push(Vec::new());
        let r = Env { scopes };
        assert(r@.scopes[0] =~= Seq::<BindingV>::empty());
        assert(r@.scopes =~= seq![Seq::<BindingV>::empty()]);
        r
    }

    /// Whether the current scope is the root.
    pub fn is_root(&self) -> (r: bool)
        ensures
            r == (self@.scopes.len() == 1),
    {
        self.scopes.len() == 1
    }

    /// The chain `enclosing` with a new, empty current scope.
    pub fn with_enclosing(enclosing: Env) -> (r: Env)
        ensures
            enclosing.wf() ==> r.wf(),
            r@.scopes == enclosing@.scopes.push(Seq::empty()),
    {
        let ghost outer = enclosing@.scopes;
        let mut scopes = enclosing.scopes;
        scopes.push(Vec::new());
        let r = Env { scopes };
        assert(r@.scopes[outer.len() as int] =~= Seq::<BindingV>::empty());
        assert(r@.scopes =~= outer.push(Seq::empty()));
        r
    }

    /// The value of `name`, or the failure `undefined variable` with the
    /// name.
    pub fn get(&self, name: String) -> (r: Result<LValue, String>)
        ensures
            outcome_view(r) == get_spec(self@, name@),
    {
        match self.lookup(&name) {
            Some(i) => {
                proof {
                    lemma_lookup_binds(self@.scopes, name@, self@.scopes.len() as int);
                }
                let found = find_in(&self.scopes[i], &name);
                let j = found.unwrap();
                Ok(copy_value(&self.scopes[i][j].value))
            },
            None => {
                let mut msg = String::from_str("undefined variable ");
                msg.append(name.as_str());
                Err(msg)
            },
        }
    }

    /// Assigns `value` to `name` and returns the value.
    pub fn set(&mut self, name: &str, value: &LValue) -> (r: Result<LValue, String>)
        ensures
            old(self).wf() ==> final(self).wf(),
            (outcome_view(r), final(self)@) == set_spec(old(self)@, name@, value@),
    {
        let name = String::from_str(name);
        let target = match self.lookup(&name) {
            Some(i) => i,
            None => {
                if self.scopes.len() != 1 {
                    let mut msg = String::from_str("attempting to assign to undefined variable ");
                    msg.append(name.as_str());
                    return Err(msg);
                }
                0
            },
        };
        self.define_at(target, name, copy_value(value));
        Ok(copy_value(value))
    }

    /// Binds `name` to `value` in the current scope, whether or not an outer
    /// scope binds it.
    pub fn def(&mut self, name: String, value: &LValue)
        requires
            old(self).wf(),
        ensures
            final(self).wf(),
            final(self)@ == def_spec(old(self)@, name@, value@),
    {
        let last = self.scopes.len() - 1;
        self.define_at(last, name, copy_value(value));
    }

    /// The index of the innermost scope that binds `name`.
    pub fn lookup(&self, name: &String) -> (r: Option<usize>)
        ensures
            match r {
                Some(i) => i < self.scopes.len() && env_lookup(
                    self@.scopes,
                    name@,
                    self@.scopes.len() as int,
                ) == Some(i as int),
                None => env_lookup(self@.scopes, name@, self@.scopes.len() as int).is_none(),
            },
    {
        let mut i: usize = self.scopes.len();
        while i > 0
            invariant
                i <= self.scopes.len(),
                env_lookup(self@.scopes, name@, self@.scopes.len() as int) == env_lookup(
                    self@.scopes,
                    name@,
                    i as int,
                ),
            decreases i,
        {
            if find_in(&self.scopes[i - 1], name).is_some() {
                return Some(i - 1);
            }
            i -= 1;
        }
        None
    }

    fn define_at(&mut self, i: usize, name: String, value: LValue)
        requires
            i < old(self).scopes.len(),
        ensures
            old(self).wf() ==> final(self).wf(),
            final(self)@.scopes == old(self)@.scopes.update(
                i as int,
                scope_define(old(self)@.scopes[i as int], name@, value@),
            ),
    {
        let ghost before = self@.scopes;
        proof {
            if self.wf() {
                lemma_define_keeps_distinct(before[i as int], name@, value@);
            }
        }
        let mut scope = self.scopes.remove(i);
        define_in(&mut scope, name, value);
        self.scopes.insert(i, scope);
        assert(self@.scopes =~= before.update(
            i as int,
            scope_define(before[i as int], name@, value@),
        ));
    }
}

} // verus!
