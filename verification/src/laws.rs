//! Laws of evaluation and of environments, proved from their definitions.

use vstd::prelude::*;
use crate::env::{
    def_spec, distinct_names, env_lookup, env_wf, get_spec, lemma_define_keeps_distinct, lemma_find_first,
    lemma_find_is, lemma_lookup_binds, scope_define, scope_find, set_spec,
};
use crate::expr::ExprV;
use crate::interpreter::{
    internal_error_text, invoke_spec, is_false, param_names, runs_alone, start_spec, step_spec,
    steps, ActionV, ControlV, FrameV, MachineV,
};
use crate::l_value::{too_few_text, BindingV, EnvV, ValueV};
use crate::parser::block_of_spec;

verus! {

/// The node `left op right`.
pub open spec fn binary(op: Seq<char>, left: ExprV, right: ExprV) -> ExprV {
    ExprV::Binary { operator: op, left: Box::new(left), right: Box::new(right) }
}

/// `false && X` yields false for every `X`, in three steps of the machine
/// alone; `X` is dropped with the frame that held it and is never the
/// expression under evaluation.
pub proof fn law_and_short_circuits(right: ExprV, env: EnvV, stack: Seq<FrameV>)
    ensures
        ({
            let m = MachineV {
                control: ControlV::Eval(binary("&&"@, ExprV::Bool { value: false }, right)),
                env,
                stack,
            };
            &&& runs_alone(m, 3)
            &&& steps(m, 1).control == ControlV::Eval(ExprV::Bool { value: false })
            &&& steps(m, 2).control == ControlV::Value(ValueV::Bool(false))
            &&& steps(m, 3) == (MachineV {
                control: ControlV::Value(ValueV::Bool(false)),
                env,
                stack,
            })
        }),
{
    reveal_strlit("&&");
    reveal_strlit("||");
    reveal_strlit("+");
    reveal_strlit("-");
    reveal_strlit("*");
    reveal_strlit("/");
    reveal_strlit("%");
    reveal_strlit(">");
    reveal_strlit("<");
    reveal_strlit("<=");
    reveal_strlit(">=");
    reveal_strlit("==");
    reveal_strlit("!=");
    assert("&&"@[0] == '&' && "||"@[0] == '|' && "<="@[0] == '<' && ">="@[0] == '>' && "=="@[0]
        == '=' && "!="@[0] == '!');
    assert("&&"@.len() == 2 && "+"@.len() == 1 && "-"@.len() == 1 && "*"@.len() == 1 && "/"@.len()
        == 1 && "%"@.len() == 1 && "<"@.len() == 1 && ">"@.len() == 1);
    let m = MachineV {
        control: ControlV::Eval(binary("&&"@, ExprV::Bool { value: false }, right)),
        env,
        stack,
    };
    let frame = FrameV::Logical { operator: "&&"@, right };
    let m1 = MachineV {
        control: ControlV::Eval(ExprV::Bool { value: false }),
        env,
        stack: stack.push(frame),
    };
    let m2 = MachineV { control: ControlV::Value(ValueV::Bool(false)), ..m1 };
    let m3 = MachineV { control: ControlV::Value(ValueV::Bool(false)), env, stack };
    assert(step_spec(m) == (m1, ActionV::Continue));
    assert(step_spec(m1) == (m2, ActionV::Continue));
    assert(stack.push(frame).drop_last() =~= stack);
    assert(step_spec(m2) == (m3, ActionV::Continue));
    reveal_with_fuel(steps, 4);
    reveal_with_fuel(runs_alone, 4);
}

/// Once the left operand of `||` has a value that is not false, that value
/// is the result: the next step hands it on and drops the right operand
/// unevaluated.
pub proof fn law_or_short_circuits(left: ValueV, right: ExprV, env: EnvV, stack: Seq<FrameV>)
    requires
        !is_false(left),
    ensures
        step_spec(
            MachineV {
                control: ControlV::Value(left),
                env,
                stack: stack.push(FrameV::Logical { operator: "||"@, right }),
            },
        ) == (MachineV { control: ControlV::Value(left), env, stack }, ActionV::Continue),
{
    reveal_strlit("&&");
    reveal_strlit("||");
    assert("&&"@[0] == '&' && "||"@[0] == '|');
    let frame = FrameV::Logical { operator: "||"@, right };
    assert(stack.push(frame).drop_last() =~= stack);
}

/// Once the left operand of `&&` is false, false is the result: the next
/// step drops the right operand unevaluated.
pub proof fn law_and_drops_right_operand(right: ExprV, env: EnvV, stack: Seq<FrameV>)
    ensures
        step_spec(
            MachineV {
                control: ControlV::Value(ValueV::Bool(false)),
                env,
                stack: stack.push(FrameV::Logical { operator: "&&"@, right }),
            },
        ) == (
            MachineV { control: ControlV::Value(ValueV::Bool(false)), env, stack },
            ActionV::Continue,
        ),
{
    let frame = FrameV::Logical { operator: "&&"@, right };
    assert(stack.push(frame).drop_last() =~= stack);
}

/// Evaluating the error node fails, whatever the environment holds, and
/// leaves the environment as it was.
pub proof fn law_error_node_fails(env: EnvV)
    ensures
        step_spec(steps(start_spec(ExprV::Error, env), 1)) == (
            MachineV { control: ControlV::Finished, env, stack: Seq::empty() },
            ActionV::Done(Err(internal_error_text())),
        ),
{
    reveal_with_fuel(steps, 2);
}

/// A condition counts as false only where its value is the boolean false:
/// any other value, zero and the empty string among them, selects the first
/// branch.
pub proof fn law_only_false_is_falsy(
    condition: ValueV,
    then: ExprV,
    otherwise: Option<ExprV>,
    env: EnvV,
    stack: Seq<FrameV>,
)
    ensures
        ({
            let m = MachineV {
                control: ControlV::Value(condition),
                env,
                stack: stack.push(FrameV::If { then, otherwise }),
            };
            let chosen = step_spec(m).0;
            &&& step_spec(m).1 == ActionV::Continue
            &&& chosen.env == env && chosen.stack == stack
            &&& condition != ValueV::Bool(false) ==> chosen.control == ControlV::Eval(then)
            &&& condition == ValueV::Bool(false) ==> chosen.control == (match otherwise {
                Some(e) => ControlV::Eval(e),
                None => ControlV::Value(ValueV::Bool(false)),
            })
        }),
{
    let frame = FrameV::If { then, otherwise };
    assert(stack.push(frame).drop_last() =~= stack);
}

/// A block without statements is the literal false, and a block node
/// without statements evaluates to false too: either way the evaluation
/// ends after two steps with false, the environment unchanged.
pub proof fn law_empty_block_is_false(env: EnvV)
    ensures
        block_of_spec(Seq::empty()) == (ExprV::Bool { value: false }),
        step_spec(steps(start_spec(block_of_spec(Seq::empty()), env), 1)) == (
            MachineV { control: ControlV::Finished, env, stack: Seq::empty() },
            ActionV::Done(Ok(ValueV::Bool(false))),
        ),
        step_spec(steps(start_spec(ExprV::Block { exprs: Seq::empty() }, env), 1)) == (
            MachineV { control: ControlV::Finished, env, stack: Seq::empty() },
            ActionV::Done(Ok(ValueV::Bool(false))),
        ),
{
    reveal_with_fuel(steps, 2);
}

/// A block of one statement is that statement: it is evaluated as the
/// statement alone is.
pub proof fn law_single_statement_block(statement: ExprV, env: EnvV)
    ensures
        block_of_spec(seq![statement]) == statement,
        start_spec(block_of_spec(seq![statement]), env) == start_spec(statement, env),
{
}

/// After a scope has been given a binding of `name`, the first binding of
/// `name` in it holds the value.
pub proof fn lemma_define_then_find(scope: Seq<BindingV>, name: Seq<char>, value: ValueV)
    ensures
        scope_find(scope_define(scope, name, value), name, 0).is_some(),
        0 <= scope_find(scope_define(scope, name, value), name, 0).unwrap() < scope_define(
            scope,
            name,
            value,
        ).len(),
        scope_define(scope, name, value)[scope_find(
            scope_define(scope, name, value),
            name,
            0,
        ).unwrap()].value == value,
{
    let after = scope_define(scope, name, value);
    lemma_find_first(scope, name, 0);
    match scope_find(scope, name, 0) {
        Some(j) => {
            lemma_find_is(after, name, 0, j);
        },
        None => {
            lemma_find_is(after, name, 0, scope.len() as int);
        },
    }
}

/// A lookup sees only the scopes below `upto`, and of each only whether it
/// binds the name.
pub proof fn lemma_lookup_is(scopes: Seq<Seq<BindingV>>, name: Seq<char>, upto: int, i: int)
    requires
        0 <= i < upto <= scopes.len(),
        scope_find(scopes[i], name, 0).is_some(),
        forall|k: int| i < k < upto ==> scope_find(#[trigger] scopes[k], name, 0).is_none(),
    ensures
        env_lookup(scopes, name, upto) == Some(i),
    decreases upto - i,
{
    if i < upto - 1 {
        lemma_lookup_is(scopes, name, upto - 1, i);
    }
}

/// The scope that a lookup yields is the innermost that binds the name.
pub proof fn lemma_lookup_innermost(scopes: Seq<Seq<BindingV>>, name: Seq<char>, upto: int)
    requires
        0 <= upto <= scopes.len(),
    ensures
        match env_lookup(scopes, name, upto) {
            Some(i) => forall|k: int|
                i < k < upto ==> scope_find(#[trigger] scopes[k], name, 0).is_none(),
            None => forall|k: int|
                0 <= k < upto ==> scope_find(#[trigger] scopes[k], name, 0).is_none(),
        },
    decreases upto,
{
    if 0 < upto && scope_find(scopes[upto - 1], name, 0).is_none() {
        lemma_lookup_innermost(scopes, name, upto - 1);
    }
}

/// An assignment that succeeds returns the assigned value, and the name
/// then reads as that value in the same environment. It succeeds where a
/// scope binds the name or the root is the current scope.
pub proof fn law_assignment_is_read_back(env: EnvV, name: Seq<char>, value: ValueV)
    requires
        env.scopes.len() >= 1,
    ensures
        set_spec(env, name, value).0.is_ok() <==> (env_lookup(
            env.scopes,
            name,
            env.scopes.len() as int,
        ).is_some() || env.scopes.len() == 1),
        set_spec(env, name, value).0.is_ok() ==> set_spec(env, name, value).0 == Ok::<
            ValueV,
            Seq<char>,
        >(value) && get_spec(set_spec(env, name, value).1, name) == Ok::<ValueV, Seq<char>>(
            value,
        ),
        set_spec(env, name, value).0.is_err() ==> set_spec(env, name, value).1 == env,
{
    let n = env.scopes.len() as int;
    lemma_lookup_binds(env.scopes, name, n);
    lemma_lookup_innermost(env.scopes, name, n);
    if set_spec(env, name, value).0.is_ok() {
        let i = match env_lookup(env.scopes, name, n) {
            Some(i) => i,
            None => 0,
        };
        let after = set_spec(env, name, value).1;
        assert(after.scopes == env.scopes.update(i, scope_define(env.scopes[i], name, value)));
        lemma_define_then_find(env.scopes[i], name, value);
        assert forall|k: int| i < k < n implies scope_find(
            #[trigger] after.scopes[k],
            name,
            0,
        ).is_none() by {
            assert(after.scopes[k] == env.scopes[k]);
        }
        lemma_lookup_is(after.scopes, name, n, i);
    }
}

/// A lookup fails exactly where no scope binds the name, and then with the
/// message `undefined variable` and the name itself.
pub proof fn law_unbound_lookup_names_the_variable(env: EnvV, name: Seq<char>)
    ensures
        get_spec(env, name).is_err() <==> (forall|k: int|
            0 <= k < env.scopes.len() ==> scope_find(#[trigger] env.scopes[k], name, 0).is_none()),
        get_spec(env, name).is_err() ==> get_spec(env, name) == Err::<ValueV, Seq<char>>(
            "undefined variable "@ + name,
        ),
{
    let n = env.scopes.len() as int;
    lemma_lookup_binds(env.scopes, name, n);
    lemma_lookup_innermost(env.scopes, name, n);
}

/// Evaluating an assignment of a value to a name yields the value, and the
/// name, evaluated next in the same scope, yields it again: with the value
/// at hand the machine assigns in one step, and in one more step reads the
/// name as that value. This holds where a scope binds the name or the root
/// is the current scope.
pub proof fn law_assignment_yields_its_value(
    name: Seq<char>,
    value: ValueV,
    env: EnvV,
    stack: Seq<FrameV>,
)
    requires
        env.scopes.len() >= 1,
        env_lookup(env.scopes, name, env.scopes.len() as int).is_some() || env.scopes.len() == 1,
    ensures
        ({
            let assigned = step_spec(
                MachineV {
                    control: ControlV::Value(value),
                    env,
                    stack: stack.push(FrameV::Assign { name }),
                },
            ).0;
            &&& assigned.control == ControlV::Value(value)
            &&& assigned.stack == stack
            &&& step_spec(
                MachineV { control: ControlV::Eval(ExprV::Var { name }), ..assigned },
            ).0.control == ControlV::Value(value)
        }),
{
    let frame = FrameV::Assign { name };
    assert(stack.push(frame).drop_last() =~= stack);
    law_assignment_is_read_back(env, name, value);
}

/// A lambda evaluates to a closure that holds the environment as it is at
/// that moment; the step changes neither the environment nor the stack.
pub proof fn law_closure_captures_environment(
    vars: Seq<ExprV>,
    body: ExprV,
    env: EnvV,
    stack: Seq<FrameV>,
)
    ensures
        step_spec(
            MachineV {
                control: ControlV::Eval(ExprV::Lambda { vars, body: Box::new(body) }),
                env,
                stack,
            },
        ) == (
            MachineV {
                control: ControlV::Value(ValueV::Lambda { vars: param_names(vars), body, env }),
                env,
                stack,
            },
            ActionV::Continue,
        ),
{
}

/// A call of a closure with fewer arguments than it has parameters fails,
/// and the message gives both numbers; with as many or more it goes on
/// with the body.
pub proof fn law_too_few_arguments_fail(
    vars: Seq<Seq<char>>,
    body: ExprV,
    captured: EnvV,
    args: Seq<ValueV>,
    m: MachineV,
)
    ensures
        ({
            let called = invoke_spec(
                m,
                ValueV::Lambda { vars, body, env: captured },
                args,
            ).0;
            &&& args.len() < vars.len() ==> called == (MachineV {
                control: ControlV::Failed(too_few_text(args.len(), vars.len())),
                ..m
            })
            &&& args.len() >= vars.len() ==> called.control == ControlV::Eval(body)
        }),
{
}

/// Definitions and assignments keep an environment well formed: it keeps
/// its scopes, and no scope comes to bind a name twice.
pub proof fn law_environments_stay_well_formed(env: EnvV, name: Seq<char>, value: ValueV)
    requires
        env_wf(env),
    ensures
        env_wf(def_spec(env, name, value)),
        env_wf(set_spec(env, name, value).1),
        def_spec(env, name, value).scopes.len() == env.scopes.len(),
        set_spec(env, name, value).1.scopes.len() == env.scopes.len(),
{
    let n = env.scopes.len() as int;
    lemma_lookup_binds(env.scopes, name, n);
    assert forall|i: int| 0 <= i < n implies #[trigger] distinct_after(env, name, value, i) by {
        lemma_define_keeps_distinct(env.scopes[i], name, value);
    }
    let defined = def_spec(env, name, value);
    assert forall|i: int| 0 <= i < defined.scopes.len() implies distinct_names(
        #[trigger] defined.scopes[i],
    ) by {
        assert(distinct_after(env, name, value, i));
    }
    let assigned = set_spec(env, name, value).1;
    assert forall|i: int| 0 <= i < assigned.scopes.len() implies distinct_names(
        #[trigger] assigned.scopes[i],
    ) by {
        assert(distinct_after(env, name, value, i));
    }
}

/// Whether scope `i` binds no name twice, before and after `name` is bound
/// in it.
pub open spec fn distinct_after(env: EnvV, name: Seq<char>, value: ValueV, i: int) -> bool {
    distinct_names(env.scopes[i]) && distinct_names(scope_define(env.scopes[i], name, value))
}

/// A definition binds the name in the current scope, whatever the outer
/// scopes hold: the name then reads as the value.
pub proof fn law_definition_is_read_back(env: EnvV, name: Seq<char>, value: ValueV)
    requires
        env.scopes.len() >= 1,
    ensures
        get_spec(def_spec(env, name, value), name) == Ok::<ValueV, Seq<char>>(value),
{
    let n = env.scopes.len() as int;
    let after = def_spec(env, name, value);
    lemma_define_then_find(env.scopes[n - 1], name, value);
    lemma_lookup_is(after.scopes, name, n, n - 1);
}

} // verus!
