//! The evaluator, as a machine that takes one step at a time. What only the
//! host can do (reading a numeral as a double, arithmetic on doubles, its
//! own functions) the machine asks for, and goes on when it is given the
//! answer.

use vstd::prelude::*;
use vstd::string::StringExecFns;
use crate::env::{get_spec, set_spec, Env};
use crate::expr::{exprs_view, kind_name, lemma_view_children, Expr, ExprV};
use crate::l_value::{
    call_spec, copy_env, lemma_lambda_view, outcome_view, strings_view, value_eq, value_kind,
    values_view, EnvV, LValue, Lambda, ValueV,
};
use crate::number::{num_eq, num_lt, Number};
use crate::text::text_is;

verus! {

/// What the machine is doing.
#[derive(Debug, PartialEq)]
pub enum Control {
    /// An expression is to be evaluated.
    Eval(Expr),
    /// A value is handed to the innermost frame.
    Value(LValue),
    /// A failure unwinds the frames.
    Failed(String),
    /// The host has been asked and has not answered yet.
    Waiting,
    /// The outcome has been reported.
    Finished,
}

/// What remains to be done once a value arrives.
#[derive(Debug, PartialEq)]
#[allow(inconsistent_fields)]
pub enum Frame {
    /// Assign the value to `name`.
    Assign { name: String },
    /// The value is the left operand; the right one comes next.
    Left { operator: String, right: Expr },
    /// The value is the right operand; apply the operator.
    Right { operator: String, left: LValue },
    /// The value is the left operand of `&&` or `||`.
    Logical { operator: String, right: Expr },
    /// The value is the condition.
    If { then: Expr, otherwise: Option<Expr> },
    /// The value is the callee; the arguments come next.
    Callee { args: Vec<Expr> },
    /// The value is the next argument.
    Args { callee: LValue, done: Vec<LValue>, rest: Vec<Expr> },
    /// The value is that of a statement; `rest` follows it.
    Block { rest: Vec<Expr> },
    /// The value is that of a closure's body; `env` is the caller's.
    Scope { env: Env },
}

/// What a step asks of its caller.
#[derive(Debug, PartialEq)]
#[allow(inconsistent_fields)]
pub enum Action {
    /// Nothing: take the next step.
    Continue,
    /// Nothing can be done: the machine waits for an answer or has finished.
    Idle,
    /// Answer with the number that the numeral `text` denotes.
    Convert { text: String },
    /// Answer with `left operator right`, one of `+ - * / %` on doubles.
    Arithmetic { operator: String, left: Number, right: Number },
    /// Answer with what the host's function `name` returns for `args`.
    Native { name: String, args: Vec<LValue> },
    /// The evaluation has ended with this outcome.
    Done(Result<LValue, String>),
}

/// An evaluation in progress.
#[derive(Debug, PartialEq)]
pub struct Evaluation {
    pub control: Control,
    pub env: Env,
    pub stack: Vec<Frame>,
}

/// What the machine is doing, as a mathematical value.
pub enum ControlV {
    Eval(ExprV),
    Value(ValueV),
    Failed(Seq<char>),
    Waiting,
    Finished,
}

/// A frame as a mathematical value.
#[allow(inconsistent_fields)]
pub enum FrameV {
    Assign { name: Seq<char> },
    Left { operator: Seq<char>, right: ExprV },
    Right { operator: Seq<char>, left: ValueV },
    Logical { operator: Seq<char>, right: ExprV },
    If { then: ExprV, otherwise: Option<ExprV> },
    Callee { args: Seq<ExprV> },
    Args { callee: ValueV, done: Seq<ValueV>, rest: Seq<ExprV> },
    Block { rest: Seq<ExprV> },
    Scope { env: EnvV },
}

/// An action as a mathematical value.
#[allow(inconsistent_fields)]
pub enum ActionV {
    Continue,
    Idle,
    Convert { text: Seq<char> },
    Arithmetic { operator: Seq<char>, left: u64, right: u64 },
    Native { name: Seq<char>, args: Seq<ValueV> },
    Done(Result<ValueV, Seq<char>>),
}

/// The state of an evaluation as a mathematical value. The last frame of
/// the stack is the innermost one.
pub struct MachineV {
    pub control: ControlV,
    pub env: EnvV,
    pub stack: Seq<FrameV>,
}

impl View for Control {
    type V = ControlV;

    open spec fn view(&self) -> ControlV {
        match self {
            Control::Eval(e) => ControlV::Eval(e@),
            Control::Value(v) => ControlV::Value(v@),
            Control::Failed(m) => ControlV::Failed(m@),
            Control::Waiting => ControlV::Waiting,
            Control::Finished => ControlV::Finished,
        }
    }
}

impl View for Frame {
    type V = FrameV;

    open spec fn view(&self) -> FrameV {
        match self {
            Frame::Assign { name } => FrameV::Assign { name: name@ },
            Frame::Left { operator, right } => FrameV::Left { operator: operator@, right: right@ },
            Frame::Right { operator, left } => FrameV::Right { operator: operator@, left: left@ },
            Frame::Logical { operator, right } => FrameV::Logical {
                operator: operator@,
                right: right@,
            },
            Frame::If { then, otherwise } => FrameV::If {
                then: then@,
                otherwise: match otherwise {
                    Some(e) => Some(e@),
                    None => None,
                },
            },
            Frame::Callee { args } => FrameV::Callee { args: exprs_view(args@) },
            Frame::Args { callee, done, rest } => FrameV::Args {
                callee: callee@,
                done: values_view(done@),
                rest: exprs_view(rest@),
            },
            Frame::Block { rest } => FrameV::Block { rest: exprs_view(rest@) },
            Frame::Scope { env } => FrameV::Scope { env: env@ },
        }
    }
}

impl View for Action {
    type V = ActionV;

    open spec fn view(&self) -> ActionV {
        match self {
            Action::Continue => ActionV::Continue,
            Action::Idle => ActionV::Idle,
            Action::Convert { text } => ActionV::Convert { text: text@ },
            Action::Arithmetic { operator, left, right } => ActionV::Arithmetic {
                operator: operator@,
                left: left.bits,
                right: right.bits,
            },
            Action::Native { name, args } => ActionV::Native {
                name: name@,
                args: values_view(args@),
            },
            Action::Done(r) => ActionV::Done(outcome_view(*r)),
        }
    }
}

/// The views of the frames of a stack.
pub open spec fn frames_view(v: Seq<Frame>) -> Seq<FrameV> {
    Seq::new(v.len(), |i: int| v[i]@)
}

impl View for Evaluation {
    type V = MachineV;

    open spec fn view(&self) -> MachineV {
        MachineV { control: self.control@, env: self.env@, stack: frames_view(self.stack@) }
    }
}

/// The operators whose result only the host can compute.
pub open spec fn is_arithmetic(op: Seq<char>) -> bool {
    op == "+"@ || op == "-"@ || op == "*"@ || op == "/"@ || op == "%"@
}

/// The operators that order two numbers.
pub open spec fn is_comparison(op: Seq<char>) -> bool {
    op == ">"@ || op == "<"@ || op == "<="@ || op == ">="@
}

/// The operators that compare two values of any kind.
pub open spec fn is_equality(op: Seq<char>) -> bool {
    op == "=="@ || op == "!="@
}

/// The operators that may leave their right operand unevaluated.
pub open spec fn is_logical(op: Seq<char>) -> bool {
    op == "&&"@ || op == "||"@
}

/// What a comparison of two numbers yields.
pub open spec fn compare_spec(op: Seq<char>, a: u64, b: u64) -> bool {
    if op == ">"@ {
        num_lt(b, a)
    } else if op == "<"@ {
        num_lt(a, b)
    } else if op == "<="@ {
        num_lt(a, b) || num_eq(a, b)
    } else {
        num_lt(b, a) || num_eq(a, b)
    }
}

/// The value that alone counts as false.
pub open spec fn is_false(v: ValueV) -> bool {
    v == ValueV::Bool(false)
}

/// The failure of evaluating the error node.
pub open spec fn internal_error_text() -> Seq<char> {
    "Internal interpreter error: don't know how to evaluate error expression"@
}

/// The failure of an operator applied to operands that are not two numbers.
pub open spec fn operands_text(left: ValueV, op: Seq<char>, right: ValueV) -> Seq<char> {
    "expected two numbers, got "@ + value_kind(left) + " "@ + op + " "@ + value_kind(right)
}

/// The failure of calling a value that is no function.
pub open spec fn uncallable_text(v: ValueV) -> Seq<char> {
    "Unable to call on \""@ + value_kind(v) + "\""@
}

/// The names among the nodes of a parameter list: each variable node gives
/// its name; any other node gives none.
pub open spec fn param_names(vars: Seq<ExprV>) -> Seq<Seq<char>>
    decreases vars.len(),
{
    if vars.len() == 0 {
        Seq::empty()
    } else {
        match vars.last() {
            ExprV::Var { name } => param_names(vars.drop_last()).push(name),
            _ => param_names(vars.drop_last()),
        }
    }
}

/// The outcome of an operator on two evaluated operands: a value, a
/// failure, or, for arithmetic on two numbers, a question to the host.
pub open spec fn apply_numeric_spec(op: Seq<char>, left: ValueV, right: ValueV) -> (
    ControlV,
    ActionV,
) {
    match (left, right) {
        (ValueV::Num(a), ValueV::Num(b)) => if is_arithmetic(op) {
            (ControlV::Waiting, ActionV::Arithmetic { operator: op, left: a, right: b })
        } else if is_comparison(op) {
            (ControlV::Value(ValueV::Bool(compare_spec(op, a, b))), ActionV::Continue)
        } else {
            (ControlV::Failed("cannot apply numeric operator "@ + op), ActionV::Continue)
        },
        _ => (ControlV::Failed(operands_text(left, op, right)), ActionV::Continue),
    }
}

/// The outcome of `==` or `!=` on two evaluated operands.
pub open spec fn apply_equality_spec(op: Seq<char>, left: ValueV, right: ValueV) -> ControlV {
    if op == "=="@ {
        ControlV::Value(ValueV::Bool(value_eq(left, right)))
    } else if op == "!="@ {
        ControlV::Value(ValueV::Bool(!value_eq(left, right)))
    } else {
        ControlV::Failed("cannot apply equality operator "@ + op)
    }
}

/// What follows the left operand of `&&` or `||`: `&&` yields false for a
/// false left operand and else goes on with the right one; `||` yields the
/// left operand unless it is false, and else goes on with the right one.
pub open spec fn apply_logical_spec(op: Seq<char>, left: ValueV, right: ExprV) -> ControlV {
    if op == "&&"@ {
        if is_false(left) {
            ControlV::Value(ValueV::Bool(false))
        } else {
            ControlV::Eval(right)
        }
    } else if op == "||"@ {
        if is_false(left) {
            ControlV::Eval(right)
        } else {
            ControlV::Value(left)
        }
    } else {
        ControlV::Failed("cannot apply logical operator "@ + op)
    }
}

/// The state in which the first of `exprs` is evaluated and `frame` waits
/// for its value.
pub open spec fn enter(m: MachineV, frame: FrameV, first: ExprV) -> MachineV {
    MachineV { control: ControlV::Eval(first), env: m.env, stack: m.stack.push(frame) }
}

/// One step on an expression.
pub open spec fn eval_spec(m: MachineV, e: ExprV) -> (MachineV, ActionV) {
    match e {
        ExprV::Num { value } => (
            MachineV { control: ControlV::Waiting, ..m },
            ActionV::Convert { text: value },
        ),
        ExprV::Str { value } => (
            MachineV { control: ControlV::Value(ValueV::Str(value)), ..m },
            ActionV::Continue,
        ),
        ExprV::Bool { value } => (
            MachineV { control: ControlV::Value(ValueV::Bool(value)), ..m },
            ActionV::Continue,
        ),
        ExprV::Var { name } => (
            MachineV {
                control: match get_spec(m.env, name) {
                    Ok(v) => ControlV::Value(v),
                    Err(msg) => ControlV::Failed(msg),
                },
                ..m
            },
            ActionV::Continue,
        ),
        ExprV::Assign { operator, left, right } => (
            match *left {
                ExprV::Var { name } => enter(m, FrameV::Assign { name }, *right),
                _ => MachineV {
                    control: ControlV::Failed("cannot assign to "@ + kind_name(*left)),
                    ..m
                },
            },
            ActionV::Continue,
        ),
        ExprV::Binary { operator, left, right } => (
            if is_arithmetic(operator) || is_comparison(operator) || is_equality(operator) {
                enter(m, FrameV::Left { operator, right: *right }, *left)
            } else if is_logical(operator) {
                enter(m, FrameV::Logical { operator, right: *right }, *left)
            } else {
                MachineV {
                    control: ControlV::Failed("cannot apply binary operator "@ + operator),
                    ..m
                }
            },
            ActionV::Continue,
        ),
        ExprV::If { cond, then, otherwise } => (
            enter(
                m,
                FrameV::If {
                    then: *then,
                    otherwise: match otherwise {
                        Some(e) => Some(*e),
                        None => None,
                    },
                },
                *cond,
            ),
            ActionV::Continue,
        ),
        ExprV::Lambda { vars, body } => (
            MachineV {
                control: ControlV::Value(
                    ValueV::Lambda { vars: param_names(vars), body: *body, env: m.env },
                ),
                ..m
            },
            ActionV::Continue,
        ),
        ExprV::Call { func, args } => (enter(m, FrameV::Callee { args }, *func), ActionV::Continue),
        ExprV::Block { exprs } => (
            if exprs.len() == 0 {
                MachineV { control: ControlV::Value(ValueV::Bool(false)), ..m }
            } else {
                enter(m, FrameV::Block { rest: exprs.drop_first() }, exprs[0])
            },
            ActionV::Continue,
        ),
        ExprV::Error => (
            MachineV { control: ControlV::Failed(internal_error_text()), ..m },
            ActionV::Continue,
        ),
    }
}

/// The call of `callee` with `args`, in state `m`: a closure's body is
/// evaluated in a new scope of its captured environment while a frame keeps
/// the caller's; a function of the host is asked for.
pub open spec fn invoke_spec(m: MachineV, callee: ValueV, args: Seq<ValueV>) -> (
    MachineV,
    ActionV,
) {
    match callee {
        ValueV::Lambda { vars, body, env } => (
            match call_spec(vars, env, args) {
                Ok(scope) => MachineV {
                    control: ControlV::Eval(body),
                    env: scope,
                    stack: m.stack.push(FrameV::Scope { env: m.env }),
                },
                Err(msg) => MachineV { control: ControlV::Failed(msg), ..m },
            },
            ActionV::Continue,
        ),
        ValueV::Native(name) => (
            MachineV { control: ControlV::Waiting, ..m },
            ActionV::Native { name, args },
        ),
        _ => (
            MachineV { control: ControlV::Failed(uncallable_text(callee)), ..m },
            ActionV::Continue,
        ),
    }
}

/// One step on a value `v` that `frame` has waited for; `m` is the state
/// without that frame.
pub open spec fn frame_spec(m: MachineV, frame: FrameV, v: ValueV) -> (MachineV, ActionV) {
    match frame {
        FrameV::Assign { name } => (
            match set_spec(m.env, name, v).0 {
                Ok(r) => MachineV {
                    control: ControlV::Value(r),
                    env: set_spec(m.env, name, v).1,
                    ..m
                },
                Err(msg) => MachineV {
                    control: ControlV::Failed(msg),
                    env: set_spec(m.env, name, v).1,
                    ..m
                },
            },
            ActionV::Continue,
        ),
        FrameV::Left { operator, right } => (
            enter(m, FrameV::Right { operator, left: v }, right),
            ActionV::Continue,
        ),
        FrameV::Right { operator, left } => if is_equality(operator) {
            (MachineV { control: apply_equality_spec(operator, left, v), ..m }, ActionV::Continue)
        } else {
            (
                MachineV { control: apply_numeric_spec(operator, left, v).0, ..m },
                apply_numeric_spec(operator, left, v).1,
            )
        },
        FrameV::Logical { operator, right } => (
            MachineV { control: apply_logical_spec(operator, v, right), ..m },
            ActionV::Continue,
        ),
        FrameV::If { then, otherwise } => (
            MachineV {
                control: if is_false(v) {
                    match otherwise {
                        Some(e) => ControlV::Eval(e),
                        None => ControlV::Value(ValueV::Bool(false)),
                    }
                } else {
                    ControlV::Eval(then)
                },
                ..m
            },
            ActionV::Continue,
        ),
        FrameV::Callee { args } => if !(v is Lambda || v is Native) {
            (MachineV { control: ControlV::Failed(uncallable_text(v)), ..m }, ActionV::Continue)
        } else if args.len() == 0 {
            invoke_spec(m, v, Seq::empty())
        } else {
            (
                enter(
                    m,
                    FrameV::Args { callee: v, done: Seq::empty(), rest: args.drop_first() },
                    args[0],
                ),
                ActionV::Continue,
            )
        },
        FrameV::Args { callee, done, rest } => if rest.len() == 0 {
            invoke_spec(m, callee, done.push(v))
        } else {
            (
                enter(
                    m,
                    FrameV::Args { callee, done: done.push(v), rest: rest.drop_first() },
                    rest[0],
                ),
                ActionV::Continue,
            )
        },
        FrameV::Block { rest } => (
            if rest.len() == 0 {
                MachineV { control: ControlV::Value(v), ..m }
            } else {
                enter(m, FrameV::Block { rest: rest.drop_first() }, rest[0])
            },
            ActionV::Continue,
        ),
        FrameV::Scope { env } => (
            MachineV { control: ControlV::Value(v), env, ..m },
            ActionV::Continue,
        ),
    }
}

/// One step of the machine. An expression is taken apart; a value goes to
/// the innermost frame, or ends the evaluation where no frame is left; a
/// failure drops the innermost frame, restoring the caller's environment
/// where the frame kept one, or ends the evaluation.
pub open spec fn step_spec(m: MachineV) -> (MachineV, ActionV) {
    match m.control {
        ControlV::Eval(e) => eval_spec(m, e),
        ControlV::Value(v) => if m.stack.len() == 0 {
            (MachineV { control: ControlV::Finished, ..m }, ActionV::Done(Ok(v)))
        } else {
            frame_spec(MachineV { stack: m.stack.drop_last(), ..m }, m.stack.last(), v)
        },
        ControlV::Failed(msg) => if m.stack.len() == 0 {
            (MachineV { control: ControlV::Finished, ..m }, ActionV::Done(Err(msg)))
        } else {
            (
                MachineV {
                    control: ControlV::Failed(msg),
                    env: match m.stack.last() {
                        FrameV::Scope { env } => env,
                        _ => m.env,
                    },
                    stack: m.stack.drop_last(),
                },
                ActionV::Continue,
            )
        },
        _ => (m, ActionV::Idle),
    }
}

/// The state after `n` steps.
pub open spec fn steps(m: MachineV, n: nat) -> MachineV
    decreases n,
{
    if n == 0 {
        m
    } else {
        steps(step_spec(m).0, (n - 1) as nat)
    }
}

/// Whether each of the first `n` steps asks nothing of the host and does
/// not end the evaluation.
pub open spec fn runs_alone(m: MachineV, n: nat) -> bool
    decreases n,
{
    n == 0 || (step_spec(m).1 == ActionV::Continue && runs_alone(step_spec(m).0, (n - 1) as nat))
}

/// Taking `n` steps and then one is taking `n + 1`.
pub proof fn lemma_steps_end(m: MachineV, n: nat)
    ensures
        steps(m, n + 1) == step_spec(steps(m, n)).0,
        runs_alone(m, n + 1) == (runs_alone(m, n) && step_spec(steps(m, n)).1
            == ActionV::Continue),
    decreases n,
{
    let m1 = step_spec(m).0;
    assert(steps(m, n + 1) == steps(m1, n));
    assert(runs_alone(m, n + 1) == (step_spec(m).1 == ActionV::Continue && runs_alone(m1, n)));
    if n > 0 {
        lemma_steps_end(m1, (n - 1) as nat);
        assert(steps(m, n) == steps(m1, (n - 1) as nat));
        assert(runs_alone(m, n) == (step_spec(m).1 == ActionV::Continue && runs_alone(
            m1,
            (n - 1) as nat,
        )));
    } else {
        assert(steps(m1, 0) == m1);
    }
}

/// The state after the host's answer: a value is what the machine goes on
/// with; a failure of the host is a failure of the evaluation. A machine
/// that has asked nothing stays as it is.
pub open spec fn resume_spec(m: MachineV, answer: Result<ValueV, Seq<char>>) -> MachineV {
    if m.control is Waiting {
        MachineV {
            control: match answer {
                Ok(v) => ControlV::Value(v),
                Err(msg) => ControlV::Failed(msg),
            },
            ..m
        }
    } else {
        m
    }
}

/// The state in which `expr` is about to be evaluated in `env`.
pub open spec fn start_spec(expr: ExprV, env: EnvV) -> MachineV {
    MachineV { control: ControlV::Eval(expr), env, stack: Seq::empty() }
}


/// The text `a` followed by the text `b`.
pub fn joined(a: &str, b: &str) -> (r: String)
    ensures
        r@ == a@ + b@,
{
    let mut out = String::from_str(a);
    out.append(b);
    out
}

/// Whether `op` is one of `+ - * / %`.
pub fn is_arithmetic_op(op: &String) -> (r: bool)
    ensures
        r == is_arithmetic(op@),
{
    text_is(op, "+") || text_is(op, "-") || text_is(op, "*") || text_is(op, "/") || text_is(
        op,
        "%",
    )
}

/// Whether `op` is one of `> < <= >=`.
pub fn is_comparison_op(op: &String) -> (r: bool)
    ensures
        r == is_comparison(op@),
{
    text_is(op, ">") || text_is(op, "<") || text_is(op, "<=") || text_is(op, ">=")
}

/// Whether `op` is `==` or `!=`.
pub fn is_equality_op(op: &String) -> (r: bool)
    ensures
        r == is_equality(op@),
{
    text_is(op, "==") || text_is(op, "!=")
}

/// Whether `op` is `&&` or `||`.
pub fn is_logical_op(op: &String) -> (r: bool)
    ensures
        r == is_logical(op@),
{
    text_is(op, "&&") || text_is(op, "||")
}

/// Whether `v` is the boolean false.
pub fn is_falsy(v: &LValue) -> (r: bool)
    ensures
        r == is_false(v@),
{
    match v {
        LValue::Bool(b) => !*b,
        _ => false,
    }
}

/// Compares two numbers by one of `> < <= >=`.
pub fn compare_numbers(op: &String, a: &Number, b: &Number) -> (r: bool)
    ensures
        r == compare_spec(op@, a.bits, b.bits),
{
    if text_is(op, ">") {
        b.less_than(a)
    } else if text_is(op, "<") {
        a.less_than(b)
    } else if text_is(op, "<=") {
        a.less_than(b) || a.equals(b)
    } else {
        b.less_than(a) || a.equals(b)
    }
}

/// Applies an arithmetic or ordering operator to two evaluated operands.
pub fn apply_numeric_op(operator: String, lhs: &LValue, rhs: &LValue) -> (r: (Control, Action))
    ensures
        (r.0@, r.1@) == apply_numeric_spec(operator@, lhs@, rhs@),
{
    match (lhs, rhs) {
        (LValue::Num(a), LValue::Num(b)) => {
            if is_arithmetic_op(&operator) {
                (Control::Waiting, Action::Arithmetic { operator, left: *a, right: *b })
            } else if is_comparison_op(&operator) {
                (
                    Control::Value(LValue::Bool(compare_numbers(&operator, a, b))),
                    Action::Continue,
                )
            } else {
                (
                    Control::Failed(joined("cannot apply numeric operator ", operator.as_str())),
                    Action::Continue,
                )
            }
        },
        _ => {
            let mut msg = String::from_str("expected two numbers, got ");
            msg.append(lhs.name());
            msg.append(" ");
            msg.append(operator.as_str());
            msg.append(" ");
            msg.append(rhs.name());
            (Control::Failed(msg), Action::Continue)
        },
    }
}

/// Applies `==` or `!=` to two evaluated operands.
pub fn apply_equality_op(operator: &String, lhs: &LValue, rhs: &LValue) -> (r: Control)
    ensures
        r@ == apply_equality_spec(operator@, lhs@, rhs@),
{
    if text_is(operator, "==") {
        Control::Value(LValue::Bool(lhs.equals(rhs)))
    } else if text_is(operator, "!=") {
        Control::Value(LValue::Bool(!lhs.equals(rhs)))
    } else {
        Control::Failed(joined("cannot apply equality operator ", operator.as_str()))
    }
}

/// Decides, from the left operand of `&&` or `||`, whether the right one is
/// evaluated.
pub fn apply_logical_op(operator: &String, lhs: LValue, right: Expr) -> (r: Control)
    ensures
        r@ == apply_logical_spec(operator@, lhs@, right@),
{
    if text_is(operator, "&&") {
        if is_falsy(&lhs) {
            Control::Value(LValue::Bool(false))
        } else {
            Control::Eval(right)
        }
    } else if text_is(operator, "||") {
        if is_falsy(&lhs) {
            Control::Eval(right)
        } else {
            Control::Value(lhs)
        }
    } else {
        Control::Failed(joined("cannot apply logical operator ", operator.as_str()))
    }
}

/// The names of a parameter list.
pub fn names_of(vars: &Vec<Expr>) -> (r: Vec<String>)
    ensures
        strings_view(r@) == param_names(exprs_view(vars@)),
{
    let mut out: Vec<String> = Vec::new();
    let mut i: usize = 0;
    let ghost all = exprs_view(vars@);
    assert(all.take(0) =~= Seq::empty());
    assert(strings_view(out@) =~= Seq::empty());
    while i < vars.len()
        invariant
            i <= vars.len(),
            all == exprs_view(vars@),
            strings_view(out@) == param_names(all.take(i as int)),
        decreases vars.len() - i,
    {
        let ghost before = strings_view(out@);
        proof {
            assert(all.take(i + 1).drop_last() =~= all.take(i as int));
            assert(all.take(i + 1).last() == vars[i as int]@);
        }
        match &vars[i] {
            Expr::Var { name } => {
                out.push(name.clone());
                assert(strings_view(out@) =~= before.push(name@));
            },
            _ => {},
        }
        i += 1;
    }
    assert(all.take(vars.len() as int) =~= all);
    out
}

/// Takes the first node out of a list that has one.
pub fn take_first(v: &mut Vec<Expr>) -> (r: Expr)
    requires
        old(v).len() > 0,
    ensures
        r@ == exprs_view(old(v)@)[0],
        exprs_view(final(v)@) == exprs_view(old(v)@).drop_first(),
{
    let r = v.remove(0);
    assert(exprs_view(v@) =~= exprs_view(old(v)@).drop_first());
    r
}

/// Starts the evaluation of `expr` in `env`.
pub fn evaluate(expr: Expr, env: Env) -> (r: Evaluation)
    ensures
        r@ == start_spec(expr@, env@),
{
    let r = Evaluation { control: Control::Eval(expr), env, stack: Vec::new() };
    assert(r@.stack =~= Seq::empty());
    r
}

impl Evaluation {
    /// Whether the machine waits for the host's answer.
    pub fn is_waiting(&self) -> (r: bool)
        ensures
            r == (self@.control is Waiting),
    {
        match &self.control {
            Control::Waiting => true,
            _ => false,
        }
    }

    /// Whether the outcome has been reported.
    pub fn is_finished(&self) -> (r: bool)
        ensures
            r == (self@.control is Finished),
    {
        match &self.control {
            Control::Finished => true,
            _ => false,
        }
    }

    /// The environment as the evaluation leaves it.
    pub fn into_env(self) -> (r: Env)
        ensures
            r@ == self@.env,
    {
        self.env
    }

    /// Hands the host's answer to a waiting machine, and says whether the
    /// machine was waiting.
    pub fn resume(&mut self, answer: Result<LValue, String>) -> (accepted: bool)
        ensures
            final(self)@ == resume_spec(old(self)@, outcome_view(answer)),
            accepted == (old(self)@.control is Waiting),
    {
        if self.is_waiting() {
            self.control = match answer {
                Ok(v) => Control::Value(v),
                Err(msg) => Control::Failed(msg),
            };
            true
        } else {
            false
        }
    }

    /// Takes one step.
    pub fn step(&mut self) -> (action: Action)
        ensures
            (final(self)@, action@) == step_spec(old(self)@),
    {
        let mut control = Control::Finished;
        core::mem::swap(&mut self.control, &mut control);
        match control {
            Control::Eval(expr) => self.eval_expr(expr),
            Control::Value(v) => {
                match self.pop_frame() {
                    Some(frame) => self.apply_frame(frame, v),
                    None => Action::Done(Ok(v)),
                }
            },
            Control::Failed(msg) => {
                match self.pop_frame() {
                    Some(frame) => {
                        match frame {
                            Frame::Scope { env } => {
                                self.env = env;
                            },
                            _ => {},
                        }
                        self.control = Control::Failed(msg);
                        Action::Continue
                    },
                    None => Action::Done(Err(msg)),
                }
            },
            Control::Waiting => {
                self.control = Control::Waiting;
                Action::Idle
            },
            Control::Finished => Action::Idle,
        }
    }

    /// Takes steps until one asks something of the caller or ends the
    /// evaluation, and gives what that step asked; after `limit` steps that
    /// asked nothing, gives up with the last of them.
    pub fn run(&mut self, limit: usize) -> (action: Action)
        ensures
            exists|n: nat|
                {
                    &&& n <= limit
                    &&& #[trigger] steps(old(self)@, n) == final(self)@
                    &&& if action@ == ActionV::Continue {
                        n == limit && runs_alone(old(self)@, n)
                    } else {
                        &&& n >= 1
                        &&& runs_alone(old(self)@, (n - 1) as nat)
                        &&& step_spec(steps(old(self)@, (n - 1) as nat)) == (final(self)@, action@)
                    }
                },
    {
        let mut taken: usize = 0;
        while taken < limit
            invariant
                taken <= limit,
                steps(old(self)@, taken as nat) == self@,
                runs_alone(old(self)@, taken as nat),
            decreases limit - taken,
        {
            proof {
                lemma_steps_end(old(self)@, taken as nat);
            }
            let action = self.step();
            taken += 1;
            match action {
                Action::Continue => {},
                other => {
                    return other;
                },
            }
        }
        Action::Continue
    }

    fn pop_frame(&mut self) -> (r: Option<Frame>)
        ensures
            final(self).control == old(self).control,
            final(self).env == old(self).env,
            match r {
                Some(f) => old(self)@.stack.len() > 0 && f@ == old(self)@.stack.last()
                    && final(self)@.stack == old(self)@.stack.drop_last(),
                None => old(self)@.stack.len() == 0 && final(self)@.stack == old(self)@.stack,
            },
    {
        let r = self.stack.pop();
        assert(r.is_some() ==> frames_view(self.stack@) =~= frames_view(
            old(self).stack@,
        ).drop_last());
        r
    }

    fn enter(&mut self, frame: Frame, first: Expr)
        ensures
            final(self)@ == enter(old(self)@, frame@, first@),
    {
        self.stack.push(frame);
        self.control = Control::Eval(first);
        assert(frames_view(self.stack@) =~= frames_view(old(self).stack@).push(frame@));
    }

    fn eval_expr(&mut self, expr: Expr) -> (action: Action)
        ensures
            (final(self)@, action@) == eval_spec(old(self)@, expr@),
    {
        proof {
            lemma_view_children(expr);
            reveal_with_fuel(Expr::view, 2);
        }
        match expr {
            Expr::Num { value } => {
                self.control = Control::Waiting;
                Action::Convert { text: value }
            },
            Expr::Str { value } => {
                self.control = Control::Value(LValue::Str(value));
                Action::Continue
            },
            Expr::Bool { value } => {
                self.control = Control::Value(LValue::Bool(value));
                Action::Continue
            },
            Expr::Var { name } => {
                self.control = match self.env.get(name) {
                    Ok(v) => Control::Value(v),
                    Err(msg) => Control::Failed(msg),
                };
                Action::Continue
            },
            Expr::Assign { operator, left, right } => {
                match *left {
                    Expr::Var { name } => {
                        self.enter(Frame::Assign { name }, *right);
                    },
                    other => {
                        let kind = other.name();
                        self.control = Control::Failed(joined("cannot assign to ", kind.as_str()));
                    },
                }
                Action::Continue
            },
            Expr::Binary { operator, left, right } => {
                if is_arithmetic_op(&operator) || is_comparison_op(&operator) || is_equality_op(
                    &operator,
                ) {
                    self.enter(Frame::Left { operator, right: *right }, *left);
                } else if is_logical_op(&operator) {
                    self.enter(Frame::Logical { operator, right: *right }, *left);
                } else {
                    self.control = Control::Failed(
                        joined("cannot apply binary operator ", operator.as_str()),
                    );
                }
                Action::Continue
            },
            Expr::If { cond, then, otherwise } => {
                let otherwise = match otherwise {
                    Some(e) => Some(*e),
                    None => None,
                };
                self.enter(Frame::If { then: *then, otherwise }, *cond);
                Action::Continue
            },
            Expr::Lambda { vars, body } => {
                let closure = LValue::Lambda(
                    Lambda { vars: names_of(&vars), body: *body, env: copy_env(&self.env) },
                );
                proof {
                    lemma_lambda_view(closure);
                }
                self.control = Control::Value(closure);
                Action::Continue
            },
            Expr::Call { func, args } => {
                self.enter(Frame::Callee { args }, *func);
                Action::Continue
            },
            Expr::Block { exprs } => {
                let mut rest = exprs;
                if rest.len() == 0 {
                    self.control = Control::Value(LValue::Bool(false));
                } else {
                    let first = take_first(&mut rest);
                    self.enter(Frame::Block { rest }, first);
                }
                Action::Continue
            },
            Expr::Error => {
                self.control = Control::Failed(
                    String::from_str(
                        "Internal interpreter error: don't know how to evaluate error expression",
                    ),
                );
                Action::Continue
            },
        }
    }

    fn invoke(&mut self, callee: LValue, args: Vec<LValue>) -> (action: Action)
        ensures
            (final(self)@, action@) == invoke_spec(old(self)@, callee@, values_view(args@)),
    {
        match callee {
            LValue::Lambda(lambda) => {
                proof {
                    lemma_lambda_view(callee);
                }
                match lambda.bind(args) {
                    Ok(scope) => {
                        let mut caller = scope;
                        core::mem::swap(&mut self.env, &mut caller);
                        self.stack.push(Frame::Scope { env: caller });
                        assert(frames_view(self.stack@) =~= frames_view(old(self).stack@).push(
                            FrameV::Scope { env: old(self)@.env },
                        ));
                        self.control = Control::Eval(lambda.body);
                    },
                    Err(msg) => {
                        self.control = Control::Failed(msg);
                    },
                }
                Action::Continue
            },
            LValue::Native(name) => {
                self.control = Control::Waiting;
                Action::Native { name, args }
            },
            other => {
                self.control = Control::Failed(uncallable(&other));
                Action::Continue
            },
        }
    }

    fn apply_frame(&mut self, frame: Frame, v: LValue) -> (action: Action)
        ensures
            (final(self)@, action@) == frame_spec(old(self)@, frame@, v@),
    {
        match frame {
            Frame::Assign { name } => {
                self.control = match self.env.set(name.as_str(), &v) {
                    Ok(r) => Control::Value(r),
                    Err(msg) => Control::Failed(msg),
                };
                Action::Continue
            },
            Frame::Left { operator, right } => {
                self.enter(Frame::Right { operator, left: v }, right);
                Action::Continue
            },
            Frame::Right { operator, left } => {
                if is_equality_op(&operator) {
                    self.control = apply_equality_op(&operator, &left, &v);
                    Action::Continue
                } else {
                    let (control, action) = apply_numeric_op(operator, &left, &v);
                    self.control = control;
                    action
                }
            },
            Frame::Logical { operator, right } => {
                self.control = apply_logical_op(&operator, v, right);
                Action::Continue
            },
            Frame::If { then, otherwise } => {
                self.control = if is_falsy(&v) {
                    match otherwise {
                        Some(e) => Control::Eval(e),
                        None => Control::Value(LValue::Bool(false)),
                    }
                } else {
                    Control::Eval(then)
                };
                Action::Continue
            },
            Frame::Callee { args } => {
                let callable = match &v {
                    LValue::Lambda(_) => true,
                    LValue::Native(_) => true,
                    _ => false,
                };
                let mut rest = args;
                if !callable {
                    self.control = Control::Failed(uncallable(&v));
                    Action::Continue
                } else if rest.len() == 0 {
                    let none: Vec<LValue> = Vec::new();
                    assert(values_view(none@) =~= Seq::empty());
                    self.invoke(v, none)
                } else {
                    let first = take_first(&mut rest);
                    let done: Vec<LValue> = Vec::new();
                    assert(values_view(done@) =~= Seq::empty());
                    self.enter(Frame::Args { callee: v, done, rest }, first);
                    Action::Continue
                }
            },
            Frame::Args { callee, done, rest } => {
                let mut done = done;
                let mut rest = rest;
                let ghost before = values_view(done@);
                done.push(v);
                assert(values_view(done@) =~= before.push(v@));
                if rest.len() == 0 {
                    self.invoke(callee, done)
                } else {
                    let first = take_first(&mut rest);
                    self.enter(Frame::Args { callee, done, rest }, first);
                    Action::Continue
                }
            },
            Frame::Block { rest } => {
                let mut rest = rest;
                if rest.len() == 0 {
                    self.control = Control::Value(v);
                } else {
                    let first = take_first(&mut rest);
                    self.enter(Frame::Block { rest }, first);
                }
                Action::Continue
            },
            Frame::Scope { env } => {
                self.env = env;
                self.control = Control::Value(v);
                Action::Continue
            },
        }
    }
}

/// The failure of calling `v`, a value that is no function.
pub fn uncallable(v: &LValue) -> (r: String)
    ensures
        r@ == uncallable_text(v@),
{
    let mut msg = String::from_str("Unable to call on \"");
    msg.append(v.name());
    msg.append("\"");
    msg
}

} // verus!
