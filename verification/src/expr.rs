//! The abstract syntax tree.

use vstd::prelude::*;
use vstd::string::StringExecFns;

verus! {

/// A node of the syntax tree. A numeric literal keeps its text as written.
#[derive(Debug, PartialEq)]
#[allow(inconsistent_fields)]
pub enum Expr {
    Lambda { vars: Vec<Expr>, body: Box<Expr> },
    Block { exprs: Vec<Expr> },
    Call { func: Box<Expr>, args: Vec<Expr> },
    If { cond: Box<Expr>, then: Box<Expr>, otherwise: Option<Box<Expr>> },
    Var { name: String },
    Bool { value: bool },
    Str { value: String },
    Num { value: String },
    Assign { operator: String, left: Box<Expr>, right: Box<Expr> },
    Binary { operator: String, left: Box<Expr>, right: Box<Expr> },
    Error,
}

/// The name under which the parser speaks of a node.
pub type Expression = Expr;

/// A syntax tree as a mathematical value.
#[allow(inconsistent_fields)]
pub enum ExprV {
    Lambda { vars: Seq<ExprV>, body: Box<ExprV> },
    Block { exprs: Seq<ExprV> },
    Call { func: Box<ExprV>, args: Seq<ExprV> },
    If { cond: Box<ExprV>, then: Box<ExprV>, otherwise: Option<Box<ExprV>> },
    Var { name: Seq<char> },
    Bool { value: bool },
    Str { value: Seq<char> },
    Num { value: Seq<char> },
    Assign { operator: Seq<char>, left: Box<ExprV>, right: Box<ExprV> },
    Binary { operator: Seq<char>, left: Box<ExprV>, right: Box<ExprV> },
    Error,
}

/// The views of a list of nodes, in order.
pub open spec fn exprs_view(v: Seq<Expr>) -> Seq<ExprV> {
    Seq::new(v.len(), |i: int| v[i]@)
}

/// The name of a node's kind, as diagnostics show it.
pub open spec fn kind_name(e: ExprV) -> Seq<char> {
    match e {
        ExprV::Lambda { .. } => "lambda"@,
        ExprV::Block { .. } => "block"@,
        ExprV::Call { .. } => "call"@,
        ExprV::If { .. } => "if"@,
        ExprV::Var { .. } => "variable"@,
        ExprV::Bool { .. } => "boolean"@,
        ExprV::Str { .. } => "string"@,
        ExprV::Num { .. } => "number"@,
        ExprV::Assign { .. } => "assign"@,
        ExprV::Binary { .. } => "binary"@,
        ExprV::Error => "error"@,
    }
}

impl Expr {
    /// The tree as a mathematical value.
    pub open spec fn view(&self) -> ExprV
        decreases self,
    {
        match self {
            Expr::Lambda { vars, body } => ExprV::Lambda {
                vars: Seq::new(
                    vars.len() as nat,
                    |i: int|
                        if 0 <= i < vars.len() {
                            vars[i].view()
                        } else {
                            ExprV::Error
                        },
                ),
                body: Box::new(body.view()),
            },
            Expr::Block { exprs } => ExprV::Block {
                exprs: Seq::new(
                    exprs.len() as nat,
                    |i: int|
                        if 0 <= i < exprs.len() {
                            exprs[i].view()
                        } else {
                            ExprV::Error
                        },
                ),
            },
            Expr::Call { func, args } => ExprV::Call {
                func: Box::new(func.view()),
                args: Seq::new(
                    args.len() as nat,
                    |i: int|
                        if 0 <= i < args.len() {
                            args[i].view()
                        } else {
                            ExprV::Error
                        },
                ),
            },
            Expr::If { cond, then, otherwise } => ExprV::If {
                cond: Box::new(cond.view()),
                then: Box::new(then.view()),
                otherwise: match otherwise {
                    Some(e) => Some(Box::new(e.view())),
                    None => None,
                },
            },
            Expr::Var { name } => ExprV::Var { name: name@ },
            Expr::Bool { value } => ExprV::Bool { value: *value },
            Expr::Str { value } => ExprV::Str { value: value@ },
            Expr::Num { value } => ExprV::Num { value: value@ },
            Expr::Assign { operator, left, right } => ExprV::Assign {
                operator: operator@,
                left: Box::new(left.view()),
                right: Box::new(right.view()),
            },
            Expr::Binary { operator, left, right } => ExprV::Binary {
                operator: operator@,
                left: Box::new(left.view()),
                right: Box::new(right.view()),
            },
            Expr::Error => ExprV::Error,
        }
    }
}

/// The view of a node lists the views of its children.
pub proof fn lemma_view_children(e: Expr)
    ensures
        e matches Expr::Lambda { vars, .. } ==> e@->Lambda_vars == exprs_view(vars@),
        e matches Expr::Block { exprs } ==> e@->exprs == exprs_view(exprs@),
        e matches Expr::Call { args, .. } ==> e@->args == exprs_view(args@),
{
    match e {
        Expr::Lambda { vars, .. } => {
            assert(e@->Lambda_vars =~= exprs_view(vars@));
        },
        Expr::Block { exprs } => {
            assert(e@->exprs =~= exprs_view(exprs@));
        },
        Expr::Call { args, .. } => {
            assert(e@->args =~= exprs_view(args@));
        },
        _ => {},
    }
}

/// Copies a list of nodes.
pub fn clone_exprs(v: &Vec<Expr>) -> (r: Vec<Expr>)
    ensures
        exprs_view(r@) == exprs_view(v@),
    decreases v,
{
    let mut out: Vec<Expr> = Vec::new();
    let mut i: usize = 0;
    while i < v.len()
        invariant
            i <= v.len(),
            out.len() == i,
            forall|j: int| 0 <= j < i ==> out[j]@ == v[j]@,
        decreases v.len() - i,
    {
        out.push(v[i].clone());
        i += 1;
    }
    assert(exprs_view(out@) =~= exprs_view(v@));
    out
}

/// Whether two lists of nodes are equal.
pub fn exprs_equal(a: &Vec<Expr>, b: &Vec<Expr>) -> (r: bool)
    ensures
        r == (exprs_view(a@) == exprs_view(b@)),
    decreases a,
{
    if a.len() != b.len() {
        assert(exprs_view(a@).len() != exprs_view(b@).len());
        return false;
    }
    let mut i: usize = 0;
    while i < a.len()
        invariant
            i <= a.len(),
            a.len() == b.len(),
            forall|j: int| 0 <= j < i ==> a[j]@ == b[j]@,
        decreases a.len() - i,
    {
        if !a[i].equals(&b[i]) {
            assert(exprs_view(a@)[i as int] != exprs_view(b@)[i as int]);
            return false;
        }
        i += 1;
    }
    assert(exprs_view(a@) =~= exprs_view(b@));
    true
}

impl Clone for Expr {
    fn clone(&self) -> (r: Expr)
        ensures
            r@ == self@,
        decreases self,
    {
        proof {
            lemma_view_children(*self);
        }
        let r = match self {
            Expr::Lambda { vars, body } => Expr::Lambda {
                vars: clone_exprs(vars),
                body: Box::new((**body).clone()),
            },
            Expr::Block { exprs } => Expr::Block { exprs: clone_exprs(exprs) },
            Expr::Call { func, args } => Expr::Call {
                func: Box::new((**func).clone()),
                args: clone_exprs(args),
            },
            Expr::If { cond, then, otherwise } => Expr::If {
                cond: Box::new((**cond).clone()),
                then: Box::new((**then).clone()),
                otherwise: match otherwise {
                    Some(e) => Some(Box::new((**e).clone())),
                    None => None,
                },
            },
            Expr::Var { name } => Expr::Var { name: name.clone() },
            Expr::Bool { value } => Expr::Bool { value: *value },
            Expr::Str { value } => Expr::Str { value: value.clone() },
            Expr::Num { value } => Expr::Num { value: value.clone() },
            Expr::Assign { operator, left, right } => Expr::Assign {
                operator: operator.clone(),
                left: Box::new((**left).clone()),
                right: Box::new((**right).clone()),
            },
            Expr::Binary { operator, left, right } => Expr::Binary {
                operator: operator.clone(),
                left: Box::new((**left).clone()),
                right: Box::new((**right).clone()),
            },
            Expr::Error => Expr::Error,
        };
        proof {
            lemma_view_children(r);
        }
        r
    }
}

impl Expr {
    /// The name of the node's kind.
    pub fn name(&self) -> (r: String)
        ensures
            r@ == kind_name(self@),
    {
        match self {
            Expr::Lambda { .. } => String::from_str("lambda"),
            Expr::Block { .. } => String::from_str("block"),
            Expr::Call { .. } => String::from_str("call"),
            Expr::If { .. } => String::from_str("if"),
            Expr::Var { .. } => String::from_str("variable"),
            Expr::Bool { .. } => String::from_str("boolean"),
            Expr::Str { .. } => String::from_str("string"),
            Expr::Num { .. } => String::from_str("number"),
            Expr::Assign { .. } => String::from_str("assign"),
            Expr::Binary { .. } => String::from_str("binary"),
            Expr::Error => String::from_str("error"),
        }
    }

    /// Whether two trees are equal: same shape, same texts.
    pub fn equals(&self, other: &Expr) -> (r: bool)
        ensures
            r == (self@ == other@),
        decreases self,
    {
        proof {
            lemma_view_children(*self);
            lemma_view_children(*other);
        }
        match (self, other) {
            (Expr::Lambda { vars, body }, Expr::Lambda { vars: vars2, body: body2 }) => {
                exprs_equal(vars, vars2) && body.equals(body2)
            },
            (Expr::Block { exprs }, Expr::Block { exprs: exprs2 }) => exprs_equal(exprs, exprs2),
            (Expr::Call { func, args }, Expr::Call { func: func2, args: args2 }) => {
                func.equals(func2) && exprs_equal(args, args2)
            },
            (
                Expr::If { cond, then, otherwise },
                Expr::If { cond: cond2, then: then2, otherwise: otherwise2 },
            ) => {
                cond.equals(cond2) && then.equals(then2) && match (otherwise, otherwise2) {
                    (Some(a), Some(b)) => a.equals(b),
                    (None, None) => true,
                    _ => false,
                }
            },
            (Expr::Var { name }, Expr::Var { name: name2 }) => name.eq(name2),
            (Expr::Bool { value }, Expr::Bool { value: value2 }) => *value == *value2,
            (Expr::Str { value }, Expr::Str { value: value2 }) => value.eq(value2),
            (Expr::Num { value }, Expr::Num { value: value2 }) => value.eq(value2),
            (
                Expr::Assign { operator, left, right },
                Expr::Assign { operator: operator2, left: left2, right: right2 },
            ) => operator.eq(operator2) && left.equals(left2) && right.equals(right2),
            (
                Expr::Binary { operator, left, right },
                Expr::Binary { operator: operator2, left: left2, right: right2 },
            ) => operator.eq(operator2) && left.equals(left2) && right.equals(right2),
            (Expr::Error, Expr::Error) => true,
            _ => false,
        }
    }
}

} // verus!
