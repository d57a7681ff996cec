//! Runtime values.

use vstd::prelude::*;
use vstd::string::StringExecFns;
use crate::env::{bindings_view, define_in, distinct_names, scope_define, Binding, Env};
use crate::expr::{Expr, ExprV};
use crate::interpreter::{evaluate, start_spec, Evaluation};
use crate::number::{num_eq, Number};
use crate::text::{decimal, decimal_text};

verus! {

/// A value: a string, a number, a boolean, a closure, or a function of the
/// host, known by its name.
#[derive(Debug, PartialEq)]
pub enum LValue {
    Str(String),
    Num(Number),
    Bool(bool),
    Lambda(Lambda),
    Native(String),
}

/// A closure: parameter names, a body, and the environment in which it was
/// made.
#[derive(Debug, PartialEq)]
pub struct Lambda {
    pub vars: Vec<String>,
    pub body: Expr,
    pub env: Env,
}

/// A value as a mathematical value. A number is its bit pattern.
pub enum ValueV {
    Str(Seq<char>),
    Num(u64),
    Bool(bool),
    Lambda { vars: Seq<Seq<char>>, body: ExprV, env: EnvV },
    Native(Seq<char>),
}

/// A binding as a mathematical value.
pub struct BindingV {
    pub name: Seq<char>,
    pub value: ValueV,
}

/// A chain of scopes as a mathematical value: root first, current scope
/// last.
pub struct EnvV {
    pub scopes: Seq<Seq<BindingV>>,
}

/// The texts of a list of strings.
pub open spec fn strings_view(v: Seq<String>) -> Seq<Seq<char>> {
    Seq::new(v.len(), |i: int| v[i]@)
}

/// The views of a list of values.
pub open spec fn values_view(v: Seq<LValue>) -> Seq<ValueV> {
    Seq::new(v.len(), |i: int| v[i]@)
}

/// The view of the outcome of an evaluation.
pub open spec fn outcome_view(r: Result<LValue, String>) -> Result<ValueV, Seq<char>> {
    match r {
        Ok(v) => Ok(v@),
        Err(m) => Err(m@),
    }
}

/// The name of a value's kind, as diagnostics show it.
pub open spec fn value_kind(v: ValueV) -> Seq<char> {
    match v {
        ValueV::Str(_) => "string"@,
        ValueV::Num(_) => "number"@,
        ValueV::Bool(_) => "boolean"@,
        ValueV::Lambda { .. } => "lambda"@,
        ValueV::Native(_) => "native"@,
    }
}

/// Equality of values, as `==` sees it: two numbers are compared as
/// numbers, any other two values by kind and content.
pub open spec fn value_eq(a: ValueV, b: ValueV) -> bool {
    match (a, b) {
        (ValueV::Num(x), ValueV::Num(y)) => num_eq(x, y),
        _ => a == b,
    }
}

/// The message of a call with fewer arguments than parameters.
pub open spec fn too_few_text(given: nat, expected: nat) -> Seq<char> {
    "too few arguments (given "@ + decimal(given) + ", expected "@ + decimal(expected) + ")"@
}

/// The scope in which parameters `vars[i..]` are bound to `args[i..]`, one
/// after the other, on top of `scope`.
pub open spec fn bind_all(
    scope: Seq<BindingV>,
    vars: Seq<Seq<char>>,
    args: Seq<ValueV>,
    i: int,
) -> Seq<BindingV>
    decreases vars.len() - i,
{
    if i < 0 || i >= vars.len() || i >= args.len() {
        scope
    } else {
        bind_all(scope_define(scope, vars[i], args[i]), vars, args, i + 1)
    }
}

/// The environment in which a closure's body runs: a new scope in the
/// captured environment that binds each parameter to its argument. Surplus
/// arguments are ignored; too few are a failure.
pub open spec fn call_spec(vars: Seq<Seq<char>>, env: EnvV, args: Seq<ValueV>) -> Result<
    EnvV,
    Seq<char>,
> {
    if args.len() < vars.len() {
        Err(too_few_text(args.len(), vars.len()))
    } else {
        Ok(EnvV { scopes: env.scopes.push(bind_all(Seq::empty(), vars, args, 0)) })
    }
}

impl LValue {
    /// The value as a mathematical value.
    pub open spec fn view(&self) -> ValueV
        decreases self,
    {
        match self {
            LValue::Str(s) => ValueV::Str(s@),
            LValue::Num(n) => ValueV::Num(n.bits),
            LValue::Bool(b) => ValueV::Bool(*b),
            LValue::Native(n) => ValueV::Native(n@),
            LValue::Lambda(l) => ValueV::Lambda {
                vars: strings_view(l.vars@),
                body: l.body@,
                env: EnvV {
                    scopes: Seq::new(
                        l.env.scopes.len() as nat,
                        |i: int|
                            if 0 <= i < l.env.scopes.len() {
                                Seq::new(
                                    l.env.scopes[i].len() as nat,
                                    |j: int|
                                        if 0 <= j < l.env.scopes[i].len() {
                                            BindingV {
                                                name: l.env.scopes[i][j].name@,
                                                value: l.env.scopes[i][j].value.view(),
                                            }
                                        } else {
                                            BindingV {
                                                name: Seq::empty(),
                                                value: ValueV::Bool(false),
                                            }
                                        },
                                )
                            } else {
                                Seq::empty()
                            },
                    ),
                },
            },
        }
    }

    /// The name of the value's kind.
    pub fn name(&self) -> (r: &'static str)
        ensures
            r@ == value_kind(self@),
    {
        match self {
            LValue::Str(_) => "string",
            LValue::Num(_) => "number",
            LValue::Bool(_) => "boolean",
            LValue::Lambda(_) => "lambda",
            LValue::Native(_) => "native",
        }
    }

    /// Whether two values are equal as `==` sees it.
    pub fn equals(&self, other: &LValue) -> (r: bool)
        ensures
            r == value_eq(self@, other@),
    {
        match (self, other) {
            (LValue::Num(a), LValue::Num(b)) => a.equals(b),
            _ => same_value(self, other),
        }
    }
}

/// The view of a closure is made of the views of its parts.
pub proof fn lemma_lambda_view(v: LValue)
    requires
        v is Lambda,
    ensures
        v@ == (ValueV::Lambda {
            vars: strings_view(v->Lambda_0.vars@),
            body: v->Lambda_0.body@,
            env: v->Lambda_0.env@,
        }),
{
    let l = v->Lambda_0;
    assert(v@->env.scopes =~= l.env@.scopes) by {
        assert forall|i: int| 0 <= i < l.env.scopes.len() implies v@->env.scopes[i]
            =~= l.env@.scopes[i] by {}
    }
}

/// Copies a list of strings.
pub fn copy_strings(v: &Vec<String>) -> (r: Vec<String>)
    ensures
        strings_view(r@) == strings_view(v@),
{
    let mut out: Vec<String> = Vec::new();
    let mut i: usize = 0;
    while i < v.len()
        invariant
            i <= v.len(),
            out.len() == i,
            forall|j: int| 0 <= j < i ==> out[j]@ == v[j]@,
        decreases v.len() - i,
    {
        out.push(v[i].clone());
        i += 1;
    }
    assert(strings_view(out@) =~= strings_view(v@));
    out
}

/// Copies the bindings of a scope.
pub fn copy_bindings(v: &Vec<Binding>) -> (r: Vec<Binding>)
    ensures
        bindings_view(r@) == bindings_view(v@),
    decreases v,
{
    let mut out: Vec<Binding> = Vec::new();
    let mut j: usize = 0;
    while j < v.len()
        invariant
            j <= v.len(),
            out.len() == j,
            forall|k: int|
                0 <= k < j ==> out[k].name@ == v[k].name@ && out[k].value@ == v[k].value@,
        decreases v.len() - j,
    {
        out.push(Binding { name: v[j].name.clone(), value: copy_value(&v[j].value) });
        j += 1;
    }
    assert(bindings_view(out@) =~= bindings_view(v@));
    out
}

/// Copies a chain of scopes.
pub fn copy_env(env: &Env) -> (r: Env)
    ensures
        r@ == env@,
        r.scopes.len() == env.scopes.len(),
    decreases env,
{
    let mut out: Vec<Vec<Binding>> = Vec::new();
    let mut i: usize = 0;
    while i < env.scopes.len()
        invariant
            i <= env.scopes.len(),
            out.len() == i,
            forall|k: int| 0 <= k < i ==> bindings_view(out[k]@) == bindings_view(env.scopes[k]@),
        decreases env.scopes.len() - i,
    {
        out.push(copy_bindings(&env.scopes[i]));
        i += 1;
    }
    let r = Env { scopes: out };
    assert(r@.scopes =~= env@.scopes);
    r
}

/// Copies a value, a closure with its whole environment.
pub fn copy_value(v: &LValue) -> (r: LValue)
    ensures
        r@ == v@,
    decreases v,
{
    match v {
        LValue::Str(s) => LValue::Str(s.clone()),
        LValue::Num(n) => LValue::Num(*n),
        LValue::Bool(b) => LValue::Bool(*b),
        LValue::Native(n) => LValue::Native(n.clone()),
        LValue::Lambda(l) => {
            let r = LValue::Lambda(
                Lambda { vars: copy_strings(&l.vars), body: l.body.clone(), env: copy_env(&l.env) },
            );
            proof {
                lemma_lambda_view(r);
                lemma_lambda_view(*v);
            }
            r
        },
    }
}

/// Whether two lists of strings hold the same texts.
pub fn same_strings(a: &Vec<String>, b: &Vec<String>) -> (r: bool)
    ensures
        r == (strings_view(a@) == strings_view(b@)),
{
    if a.len() != b.len() {
        assert(strings_view(a@).len() != strings_view(b@).len());
        return false;
    }
    let mut i: usize = 0;
    while i < a.len()
        invariant
            i <= a.len(),
            a.len() == b.len(),
            forall|j: int| 0 <= j < i ==> a[j]@ == b[j]@,
        decreases a.len() - i,
    {
        if !a[i].eq(&b[i]) {
            assert(strings_view(a@)[i as int] != strings_view(b@)[i as int]);
            return false;
        }
        i += 1;
    }
    assert(strings_view(a@) =~= strings_view(b@));
    true
}

/// Whether two scopes hold the same bindings in the same order.
pub fn same_bindings(a: &Vec<Binding>, b: &Vec<Binding>) -> (r: bool)
    ensures
        r == (bindings_view(a@) == bindings_view(b@)),
    decreases a,
{
    if a.len() != b.len() {
        assert(bindings_view(a@).len() != bindings_view(b@).len());
        return false;
    }
    let mut j: usize = 0;
    while j < a.len()
        invariant
            j <= a.len(),
            a.len() == b.len(),
            forall|k: int| 0 <= k < j ==> a[k].name@ == b[k].name@ && a[k].value@ == b[k].value@,
        decreases a.len() - j,
    {
        if !a[j].name.eq(&b[j].name) || !same_value(&a[j].value, &b[j].value) {
            assert(bindings_view(a@)[j as int] != bindings_view(b@)[j as int]);
            return false;
        }
        j += 1;
    }
    assert(bindings_view(a@) =~= bindings_view(b@));
    true
}

/// Whether two chains hold the same scopes.
pub fn same_env(a: &Env, b: &Env) -> (r: bool)
    ensures
        r == (a@ == b@),
    decreases a,
{
    if a.scopes.len() != b.scopes.len() {
        assert(a@.scopes.len() != b@.scopes.len());
        return false;
    }
    let mut i: usize = 0;
    while i < a.scopes.len()
        invariant
            i <= a.scopes.len(),
            a.scopes.len() == b.scopes.len(),
            forall|k: int|
                0 <= k < i ==> bindings_view(a.scopes[k]@) == bindings_view(b.scopes[k]@),
        decreases a.scopes.len() - i,
    {
        if !same_bindings(&a.scopes[i], &b.scopes[i]) {
            assert(a@.scopes[i as int] != b@.scopes[i as int]);
            return false;
        }
        i += 1;
    }
    assert(a@.scopes =~= b@.scopes);
    true
}

/// Whether two values are the same: same kind, same content.
pub fn same_value(a: &LValue, b: &LValue) -> (r: bool)
    ensures
        r == (a@ == b@),
    decreases a,
{
    match (a, b) {
        (LValue::Str(x), LValue::Str(y)) => x.eq(y),
        (LValue::Num(x), LValue::Num(y)) => x.bits == y.bits,
        (LValue::Bool(x), LValue::Bool(y)) => *x == *y,
        (LValue::Native(x), LValue::Native(y)) => x.eq(y),
        (LValue::Lambda(x), LValue::Lambda(y)) => {
            proof {
                lemma_lambda_view(*a);
                lemma_lambda_view(*b);
            }
            same_strings(&x.vars, &y.vars) && x.body.equals(&y.body) && same_env(&x.env, &y.env)
        },
        _ => false,
    }
}

impl Clone for LValue {
    fn clone(&self) -> (r: LValue)
        ensures
            r@ == self@,
    {
        copy_value(self)
    }
}

impl Clone for Env {
    fn clone(&self) -> (r: Env)
        ensures
            r@ == self@,
            r.scopes.len() == self.scopes.len(),
    {
        copy_env(self)
    }
}

impl Clone for Lambda {
    fn clone(&self) -> (r: Lambda)
        ensures
            strings_view(r.vars@) == strings_view(self.vars@),
            r.body@ == self.body@,
            r.env@ == self.env@,
    {
        Lambda { vars: copy_strings(&self.vars), body: self.body.clone(), env: copy_env(&self.env) }
    }
}

impl Lambda {
    /// Calls the closure: starts the evaluation of its body in a new scope
    /// of the captured environment that binds the parameters to `args`, or
    /// fails for too few arguments.
    pub fn call(&self, args: Vec<LValue>) -> (r: Result<Evaluation, String>)
        ensures
            match call_spec(strings_view(self.vars@), self.env@, values_view(args@)) {
                Ok(env) => r.is_ok() && r.unwrap()@ == start_spec(self.body@, env),
                Err(msg) => r.is_err() && r.unwrap_err()@ == msg,
            },
    {
        match self.bind(args) {
            Ok(scope) => Ok(evaluate(self.body.clone(), scope)),
            Err(msg) => Err(msg),
        }
    }

    /// Gives the environment in which the body is to be evaluated for
    /// `args`, or the failure for too few arguments.
    pub fn bind(&self, args: Vec<LValue>) -> (r: Result<Env, String>)
        ensures
            match call_spec(strings_view(self.vars@), self.env@, values_view(args@)) {
                Ok(env) => r.is_ok() && r.unwrap()@ == env && (self.env.wf() ==> r.unwrap().wf()),
                Err(msg) => r.is_err() && r.unwrap_err()@ == msg,
            },
    {
        if args.len() < self.vars.len() {
            let mut msg = String::from_str("too few arguments (given ");
            msg.append(decimal_text(args.len() as u128).as_str());
            msg.append(", expected ");
            msg.append(decimal_text(self.vars.len() as u128).as_str());
            msg.append(")");
            return Err(msg);
        }
        let mut scope: Vec<Binding> = Vec::new();
        let mut i: usize = 0;
        let ghost vars = strings_view(self.vars@);
        let ghost vals = values_view(args@);
        assert(bindings_view(scope@) =~= Seq::empty());
        while i < self.vars.len()
            invariant
                i <= self.vars.len() <= args.len(),
                vars == strings_view(self.vars@),
                vals == values_view(args@),
                distinct_names(bindings_view(scope@)),
                bind_all(Seq::empty(), vars, vals, 0) == bind_all(
                    bindings_view(scope@),
                    vars,
                    vals,
                    i as int,
                ),
            decreases self.vars.len() - i,
        {
            define_in(&mut scope, self.vars[i].clone(), copy_value(&args[i]));
            i += 1;
        }
        let mut env = copy_env(&self.env);
        let ghost before = env@.scopes;
        env.scopes.push(scope);
        assert(env@.scopes =~= before.push(bindings_view(scope@)));
        Ok(env)
    }
}


impl From<Number> for LValue {
    fn from(item: Number) -> (r: LValue) {
        LValue::Num(item)
    }
}

impl vstd::std_specs::convert::FromSpecImpl<Number> for LValue {
    open spec fn obeys_from_spec() -> bool {
        true
    }

    open spec fn from_spec(item: Number) -> LValue {
        LValue::Num(item)
    }
}

impl From<String> for LValue {
    fn from(item: String) -> (r: LValue) {
        LValue::Str(item)
    }
}

impl vstd::std_specs::convert::FromSpecImpl<String> for LValue {
    open spec fn obeys_from_spec() -> bool {
        true
    }

    open spec fn from_spec(item: String) -> LValue {
        LValue::Str(item)
    }
}

impl From<bool> for LValue {
    fn from(item: bool) -> (r: LValue) {
        LValue::Bool(item)
    }
}

impl vstd::std_specs::convert::FromSpecImpl<bool> for LValue {
    open spec fn obeys_from_spec() -> bool {
        true
    }

    open spec fn from_spec(item: bool) -> LValue {
        LValue::Bool(item)
    }
}

} // verus!
