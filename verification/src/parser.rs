//! The parser: from tokens to syntax trees, by precedence climbing.

use vstd::prelude::*;
use vstd::string::StringExecFns;
use crate::expr::{exprs_view, lemma_view_children, Expr, ExprV};
use crate::text::text_is;
use crate::token::{Token, TokenKind, TokenV};
use crate::input_stream::{col_at, line_at};
use crate::token_stream::{
    budget, lemma_located_is_not_empty, lemma_next, lemma_peek, next_spec, peek_spec,
    syntax_error_text, token_view, within, Cursor, TokenStream,
};

verus! {

/// The text of a failure met in state `c`: the scanner's diagnostic where
/// the text could not be scanned, else a syntax error at the scanner's
/// position.
pub open spec fn fail_text(c: Cursor, msg: Seq<char>) -> Seq<char> {
    match c.failure {
        Some(d) => d,
        None => syntax_error_text(msg, c.text, c.pos),
    }
}

/// Whether `t` is the token of this kind and text.
pub open spec fn is_token(t: Option<TokenV>, kind: TokenKind, text: Seq<char>) -> bool {
    t == Some(TokenV { kind, text })
}

/// How tightly an operator binds; `None` for what is no operator of the
/// language.
pub open spec fn precedence_spec(op: Seq<char>) -> Option<nat> {
    if op == "="@ {
        Some(1)
    } else if op == "||"@ {
        Some(2)
    } else if op == "&&"@ {
        Some(3)
    } else if op == "<"@ || op == ">"@ || op == "<="@ || op == ">="@ || op == "=="@ || op
        == "!="@ {
        Some(7)
    } else if op == "+"@ || op == "-"@ {
        Some(10)
    } else if op == "*"@ || op == "/"@ || op == "%"@ {
        Some(20)
    } else {
        None
    }
}

/// The message for a token that cannot stand where it is.
pub open spec fn unexpected_text(t: TokenV) -> Seq<char> {
    "Unexpected token '"@ + t.text + "'"@
}

/// The message for a token that is no parameter name.
pub open spec fn not_a_name_text(t: TokenV) -> Seq<char> {
    "Expecting variable name, got '"@ + t.text + "'"@
}

/// The node for `left op right`: an assignment for `=`, else a binary node.
pub open spec fn fold_spec(op: Seq<char>, left: ExprV, right: ExprV) -> ExprV {
    if op == "="@ {
        ExprV::Assign { operator: op, left: Box::new(left), right: Box::new(right) }
    } else {
        ExprV::Binary { operator: op, left: Box::new(left), right: Box::new(right) }
    }
}

/// The node for the statements between braces: false for none, the
/// statement itself for one, a block for more.
pub open spec fn block_of_spec(items: Seq<ExprV>) -> ExprV {
    if items.len() == 0 {
        ExprV::Bool { value: false }
    } else if items.len() == 1 {
        items[0]
    } else {
        ExprV::Block { exprs: items }
    }
}

/// The result that stands where the measure of the stream has not fallen.
/// Scanning a token always lowers the measure, so no parse ends here.
pub open spec fn stuck<T>(c: Cursor) -> (Result<T, Seq<char>>, Cursor) {
    (Err(Seq::empty()), c)
}

/// Consumes the token of this kind and text, or fails with `what` followed
/// by the text.
pub open spec fn skip_spec(c: Cursor, kind: TokenKind, expected: Seq<char>, what: Seq<char>) -> (
    Option<Seq<char>>,
    Cursor,
) {
    let (t, c1) = peek_spec(c);
    if is_token(t, kind, expected) {
        (None, next_spec(c1).1)
    } else {
        (Some(fail_text(c1, what + expected)), c1)
    }
}

/// Consumes the punctuation `expected`, or fails.
pub open spec fn skip_punc_spec(c: Cursor, expected: Seq<char>) -> (Option<Seq<char>>, Cursor) {
    skip_spec(c, TokenKind::Punc, expected, "Expected punctuation "@)
}

/// Consumes the keyword `expected`, or fails.
pub open spec fn skip_kw_spec(c: Cursor, expected: Seq<char>) -> (Option<Seq<char>>, Cursor) {
    skip_spec(c, TokenKind::Kw, expected, "Expected keyword "@)
}

/// A parameter name: the next token, which must be an identifier.
pub open spec fn var_name_spec(c: Cursor) -> (Result<ExprV, Seq<char>>, Cursor) {
    let (t, c1) = next_spec(c);
    match t {
        Some(tok) => if tok.kind is Var {
            (Ok(ExprV::Var { name: tok.text }), c1)
        } else {
            (Err(fail_text(c1, not_a_name_text(tok))), c1)
        },
        None => (
            Err(fail_text(c1, "Expecting variable name, but got to end of input"@)),
            c1,
        ),
    }
}

/// An expression: an atom, then the operators that follow it.
pub open spec fn parse_expression_spec(c: Cursor) -> (Result<ExprV, Seq<char>>, Cursor)
    decreases budget(c), 7nat,
{
    match parse_atom_spec(c) {
        (Err(m), c1) => (Err(m), c1),
        (Ok(left), c1) => if budget(c1) < budget(c) {
            maybe_binary_spec(left, 0, c1)
        } else {
            stuck(c1)
        },
    }
}

/// An atom: a primary expression, then any number of argument lists.
pub open spec fn parse_atom_spec(c: Cursor) -> (Result<ExprV, Seq<char>>, Cursor)
    decreases budget(c), 6nat,
{
    match parse_primary_spec(c) {
        (Err(m), c1) => (Err(m), c1),
        (Ok(e), c1) => if budget(c1) < budget(c) {
            maybe_call_spec(e, c1)
        } else {
            stuck(c1)
        },
    }
}

/// A primary expression: a group in parentheses, a block, an `if`, a
/// boolean, a lambda, a number, a string or a variable.
pub open spec fn parse_primary_spec(c: Cursor) -> (Result<ExprV, Seq<char>>, Cursor)
    decreases budget(c), 5nat,
{
    let (t, c1) = peek_spec(c);
    let c2 = next_spec(c1).1;
    if budget(c1) > budget(c) {
        stuck(c1)
    } else {
        match t {
            None => (Err(fail_text(c1, "Unexpected end of tokens"@)), c1),
            Some(tok) => if is_token(t, TokenKind::Punc, "("@) {
                if budget(c2) < budget(c) {
                    match parse_expression_spec(c2) {
                        (Err(m), c3) => (Err(m), c3),
                        (Ok(e), c3) => match skip_punc_spec(c3, ")"@) {
                            (Some(m), c4) => (Err(m), c4),
                            (None, c4) => (Ok(e), c4),
                        },
                    }
                } else {
                    stuck(c2)
                }
            } else if is_token(t, TokenKind::Punc, "{"@) {
                parse_prog_spec(c1)
            } else if is_token(t, TokenKind::Kw, "if"@) {
                parse_if_spec(c1)
            } else if is_token(t, TokenKind::Kw, "true"@) {
                (Ok(ExprV::Bool { value: true }), c2)
            } else if is_token(t, TokenKind::Kw, "false"@) {
                (Ok(ExprV::Bool { value: false }), c2)
            } else if is_token(t, TokenKind::Kw, "lambda"@) || is_token(
                t,
                TokenKind::Kw,
                "\u{3bb}"@,
            ) {
                parse_lambda_spec(c1)
            } else {
                match tok.kind {
                    TokenKind::Num => (Ok(ExprV::Num { value: tok.text }), c2),
                    TokenKind::Str => (Ok(ExprV::Str { value: tok.text }), c2),
                    TokenKind::Var => (Ok(ExprV::Var { name: tok.text }), c2),
                    _ => (Err(fail_text(c2, unexpected_text(tok))), c2),
                }
            },
        }
    }
}

/// A block: statements between braces, separated by semicolons.
pub open spec fn parse_prog_spec(c: Cursor) -> (Result<ExprV, Seq<char>>, Cursor)
    decreases budget(c), 4nat,
{
    match delimited_spec(c, "{"@, "}"@, ";"@, false) {
        (Err(m), c1) => (Err(m), c1),
        (Ok(items), c1) => (Ok(block_of_spec(items)), c1),
    }
}

/// An `if`, from its keyword on: a condition; `then` unless a brace
/// follows; a branch; and, after `else`, another branch.
pub open spec fn parse_if_spec(c: Cursor) -> (Result<ExprV, Seq<char>>, Cursor)
    decreases budget(c), 4nat,
{
    let c1 = next_spec(c).1;
    if budget(c1) < budget(c) {
        match parse_expression_spec(c1) {
            (Err(m), c2) => (Err(m), c2),
            (Ok(cond), c2) => {
                let (t, c3) = peek_spec(c2);
                let (missing, c4) = if is_token(t, TokenKind::Punc, "{"@) {
                    (None, c3)
                } else {
                    skip_kw_spec(c3, "then"@)
                };
                if missing.is_some() {
                    (Err(missing.unwrap()), c4)
                } else if budget(c4) < budget(c) {
                    match parse_expression_spec(c4) {
                        (Err(m), c5) => (Err(m), c5),
                        (Ok(then), c5) => if budget(c5) < budget(c) {
                            match parse_else_spec(c5) {
                                (Err(m), c6) => (Err(m), c6),
                                (Ok(otherwise), c6) => (
                                    Ok(
                                        ExprV::If {
                                            cond: Box::new(cond),
                                            then: Box::new(then),
                                            otherwise,
                                        },
                                    ),
                                    c6,
                                ),
                            }
                        } else {
                            stuck(c5)
                        },
                    }
                } else {
                    stuck(c4)
                }
            },
        }
    } else {
        stuck(c1)
    }
}

/// The branch after `else`, where `else` follows.
pub open spec fn parse_else_spec(c: Cursor) -> (Result<Option<Box<ExprV>>, Seq<char>>, Cursor)
    decreases budget(c), 8nat,
{
    let (t, c1) = peek_spec(c);
    let c2 = next_spec(c1).1;
    if !is_token(t, TokenKind::Kw, "else"@) {
        (Ok(None), c1)
    } else if budget(c2) < budget(c) {
        match parse_expression_spec(c2) {
            (Err(m), c3) => (Err(m), c3),
            (Ok(other), c3) => (Ok(Some(Box::new(other))), c3),
        }
    } else {
        stuck(c2)
    }
}

/// A lambda, from its keyword on: a list of parameter names in
/// parentheses, then the body.
pub open spec fn parse_lambda_spec(c: Cursor) -> (Result<ExprV, Seq<char>>, Cursor)
    decreases budget(c), 4nat,
{
    let c1 = next_spec(c).1;
    if budget(c1) < budget(c) {
        match delimited_spec(c1, "("@, ")"@, ","@, true) {
            (Err(m), c2) => (Err(m), c2),
            (Ok(vars), c2) => if budget(c2) < budget(c) {
                match parse_expression_spec(c2) {
                    (Err(m), c3) => (Err(m), c3),
                    (Ok(body), c3) => (Ok(ExprV::Lambda { vars, body: Box::new(body) }), c3),
                }
            } else {
                stuck(c2)
            },
        }
    } else {
        stuck(c1)
    }
}

/// The argument lists that follow `callee`: each makes a call of what
/// stands before it.
pub open spec fn maybe_call_spec(callee: ExprV, c: Cursor) -> (Result<ExprV, Seq<char>>, Cursor)
    decreases budget(c), 4nat,
{
    let (t, c1) = peek_spec(c);
    if !is_token(t, TokenKind::Punc, "("@) {
        (Ok(callee), c1)
    } else if budget(c1) > budget(c) {
        stuck(c1)
    } else {
        match parse_call_spec(callee, c1) {
            (Err(m), c2) => (Err(m), c2),
            (Ok(call), c2) => if budget(c2) < budget(c) {
                maybe_call_spec(call, c2)
            } else {
                stuck(c2)
            },
        }
    }
}

/// A call of `func`: its arguments in parentheses, separated by commas.
pub open spec fn parse_call_spec(func: ExprV, c: Cursor) -> (Result<ExprV, Seq<char>>, Cursor)
    decreases budget(c), 3nat,
{
    match delimited_spec(c, "("@, ")"@, ","@, false) {
        (Err(m), c1) => (Err(m), c1),
        (Ok(args), c1) => (Ok(ExprV::Call { func: Box::new(func), args }), c1),
    }
}

/// A list between `start` and `stop`, its items separated by `sep`; a
/// separator may follow the last item. The items are parameter names where
/// `names` is set, else expressions.
pub open spec fn delimited_spec(
    c: Cursor,
    start: Seq<char>,
    stop: Seq<char>,
    sep: Seq<char>,
    names: bool,
) -> (Result<Seq<ExprV>, Seq<char>>, Cursor)
    decreases budget(c), 2nat,
{
    match skip_punc_spec(c, start) {
        (Some(m), c1) => (Err(m), c1),
        (None, c1) => if budget(c1) < budget(c) {
            match items_spec(c1, stop, sep, names, true, Seq::empty()) {
                (Err(m), c2) => (Err(m), c2),
                (Ok(items), c2) => match skip_punc_spec(c2, stop) {
                    (Some(m), c3) => (Err(m), c3),
                    (None, c3) => (Ok(items), c3),
                },
            }
        } else {
            stuck(c1)
        },
    }
}

/// The next item of a list, if one follows: none at the end of the tokens
/// or before `stop`. Every item but the first is preceded by `sep`, and
/// `stop` may follow a `sep`.
pub open spec fn item_spec(
    c: Cursor,
    stop: Seq<char>,
    sep: Seq<char>,
    names: bool,
    first: bool,
) -> (Result<Option<ExprV>, Seq<char>>, Cursor)
    decreases budget(c), 8nat,
{
    let (t, c1) = peek_spec(c);
    if t.is_none() || is_token(t, TokenKind::Punc, stop) {
        (Ok(None), c1)
    } else {
        let (missing, c2) = if first {
            (None, c1)
        } else {
            skip_punc_spec(c1, sep)
        };
        if missing.is_some() {
            (Err(missing.unwrap()), c2)
        } else {
            let (t2, c3) = peek_spec(c2);
            if is_token(t2, TokenKind::Punc, stop) {
                (Ok(None), c3)
            } else if budget(c3) > budget(c) {
                stuck(c3)
            } else {
                let (item, c4) = if names {
                    var_name_spec(c3)
                } else {
                    parse_expression_spec(c3)
                };
                match item {
                    Err(m) => (Err(m), c4),
                    Ok(e) => (Ok(Some(e)), c4),
                }
            }
        }
    }
}

/// The items of a list, up to its end or the end of the tokens; `acc`
/// holds those already read, and `first` says that none was.
pub open spec fn items_spec(
    c: Cursor,
    stop: Seq<char>,
    sep: Seq<char>,
    names: bool,
    first: bool,
    acc: Seq<ExprV>,
) -> (Result<Seq<ExprV>, Seq<char>>, Cursor)
    decreases budget(c), 9nat,
{
    match item_spec(c, stop, sep, names, first) {
        (Err(m), c1) => (Err(m), c1),
        (Ok(None), c1) => (Ok(acc), c1),
        (Ok(Some(e)), c1) => if budget(c1) < budget(c) {
            items_spec(c1, stop, sep, names, false, acc.push(e))
        } else {
            stuck(c1)
        },
    }
}

/// The operators that follow `left` and bind tighter than `prec`.
pub open spec fn maybe_binary_spec(left: ExprV, prec: nat, c: Cursor) -> (
    Result<ExprV, Seq<char>>,
    Cursor,
)
    decreases budget(c), 10nat,
{
    let (t, c1) = peek_spec(c);
    match t {
        Some(tok) => if !(tok.kind is Op) {
            (Ok(left), c1)
        } else if budget(c1) > budget(c) {
            stuck(c1)
        } else {
            parse_binary_spec(left, tok, prec, c1)
        },
        None => (Ok(left), c1),
    }
}

/// The operator `op`, which follows `left`. Where it binds tighter than
/// `prec` it is consumed; an atom and the still tighter operators behind it
/// make its right side; and the node of `left`, `op` and that right side is
/// the left side of what follows. Else `left` stands alone.
pub open spec fn parse_binary_spec(left: ExprV, op: TokenV, prec: nat, c: Cursor) -> (
    Result<ExprV, Seq<char>>,
    Cursor,
)
    decreases budget(c), 9nat,
{
    match precedence_spec(op.text) {
        None => (Err(fail_text(c, unexpected_text(op))), c),
        Some(his) => if his > prec {
            let c2 = next_spec(c).1;
            if budget(c2) < budget(c) {
                match parse_atom_spec(c2) {
                    (Err(m), c3) => (Err(m), c3),
                    (Ok(atom), c3) => if budget(c3) < budget(c) {
                        match maybe_binary_spec(atom, his, c3) {
                            (Err(m), c4) => (Err(m), c4),
                            (Ok(right), c4) => if budget(c4) < budget(c) {
                                maybe_binary_spec(fold_spec(op.text, left, right), prec, c4)
                            } else {
                                stuck(c4)
                            },
                        }
                    } else {
                        stuck(c3)
                    },
                }
            } else {
                stuck(c2)
            }
        } else {
            (Ok(left), c)
        },
    }
}

/// The expressions of a whole text, behind `acc`: each but the last must be
/// followed by a semicolon, the last may be.
pub open spec fn toplevel_spec(c: Cursor, acc: Seq<ExprV>) -> (
    Result<Seq<ExprV>, Seq<char>>,
    Cursor,
)
    decreases budget(c), 11nat,
{
    let (t, c1) = peek_spec(c);
    if t.is_none() {
        (Ok(acc), c1)
    } else if budget(c1) > budget(c) {
        stuck(c1)
    } else {
        match parse_expression_spec(c1) {
            (Err(m), c2) => (Err(m), c2),
            (Ok(e), c2) => {
                let (t2, c3) = peek_spec(c2);
                if t2.is_none() {
                    (Ok(acc.push(e)), c3)
                } else {
                    match skip_punc_spec(c3, ";"@) {
                        (Some(m), c4) => (Err(m), c4),
                        (None, c4) => if budget(c4) < budget(c) {
                            toplevel_spec(c4, acc.push(e))
                        } else {
                            stuck(c4)
                        },
                    }
                }
            },
        }
    }
}

/// What parsing the text of a stream gives.
pub open spec fn parse_spec(c: Cursor) -> Result<Seq<ExprV>, Seq<char>> {
    toplevel_spec(c, Seq::empty()).0
}


/// The view of a parsed expression or failure.
pub open spec fn expr_result(r: Result<Expr, String>) -> Result<ExprV, Seq<char>> {
    match r {
        Ok(e) => Ok(e@),
        Err(m) => Err(m@),
    }
}

/// The view of a parsed list or failure.
pub open spec fn list_result(r: Result<Vec<Expr>, String>) -> Result<Seq<ExprV>, Seq<char>> {
    match r {
        Ok(v) => Ok(exprs_view(v@)),
        Err(m) => Err(m@),
    }
}

/// The view of a parsed `else` branch or failure.
pub open spec fn else_result(r: Result<Option<Box<Expr>>, String>) -> Result<
    Option<Box<ExprV>>,
    Seq<char>,
> {
    match r {
        Ok(Some(e)) => Ok(Some(Box::new(e@))),
        Ok(None) => Ok(None),
        Err(m) => Err(m@),
    }
}

/// The view of a parsed item or failure.
pub open spec fn item_result(r: Result<Option<Expr>, String>) -> Result<Option<ExprV>, Seq<char>> {
    match r {
        Ok(Some(e)) => Ok(Some(e@)),
        Ok(None) => Ok(None),
        Err(m) => Err(m@),
    }
}

/// The failure of a skipped token, if any.
pub open spec fn skip_result(r: Result<(), String>) -> Option<Seq<char>> {
    match r {
        Ok(_) => None,
        Err(m) => Some(m@),
    }
}

/// How tightly the operator `op` binds.
pub fn precedence(op: &String) -> (r: Option<usize>)
    ensures
        match r {
            Some(p) => precedence_spec(op@) == Some(p as nat),
            None => precedence_spec(op@).is_none(),
        },
{
    if text_is(op, "=") {
        Some(1)
    } else if text_is(op, "||") {
        Some(2)
    } else if text_is(op, "&&") {
        Some(3)
    } else if text_is(op, "<") || text_is(op, ">") || text_is(op, "<=") || text_is(op, ">=")
        || text_is(op, "==") || text_is(op, "!=") {
        Some(7)
    } else if text_is(op, "+") || text_is(op, "-") {
        Some(10)
    } else if text_is(op, "*") || text_is(op, "/") || text_is(op, "%") {
        Some(20)
    } else {
        None
    }
}

/// Whether `tok` is the punctuation `expected`.
pub fn punc_is(tok: &Option<Token>, expected: &str) -> (r: bool)
    ensures
        r == is_token(token_view(*tok), TokenKind::Punc, expected@),
{
    match tok {
        Some(Token::Punc { value }) => text_is(value, expected),
        _ => false,
    }
}

/// Whether `tok` is the keyword `expected`.
pub fn kw_is(tok: &Option<Token>, expected: &str) -> (r: bool)
    ensures
        r == is_token(token_view(*tok), TokenKind::Kw, expected@),
{
    match tok {
        Some(Token::Kw { value }) => text_is(value, expected),
        _ => false,
    }
}

/// The node for `left op right`.
pub fn fold(op: String, left: Expr, right: Expr) -> (r: Expr)
    ensures
        r@ == fold_spec(op@, left@, right@),
{
    if text_is(&op, "=") {
        Expr::Assign { operator: op, left: Box::new(left), right: Box::new(right) }
    } else {
        Expr::Binary { operator: op, left: Box::new(left), right: Box::new(right) }
    }
}

/// The node for the statements of a block.
pub fn block_of(prog: Vec<Expr>) -> (r: Expr)
    ensures
        r@ == block_of_spec(exprs_view(prog@)),
{
    let mut prog = prog;
    if prog.len() == 0 {
        Expr::Bool { value: false }
    } else if prog.len() == 1 {
        let only = prog.pop();
        only.unwrap()
    } else {
        let r = Expr::Block { exprs: prog };
        proof {
            lemma_view_children(r);
        }
        r
    }
}

/// A parser over a token stream.
pub struct Parser {
    input: TokenStream,
}

impl Parser {
    /// The state of the token stream.
    pub closed spec fn view(&self) -> Cursor {
        self.input@
    }

    /// The token stream is well formed.
    pub closed spec fn wf(&self) -> bool {
        self.input.wf()
    }

    /// A parser that reads from `input`.
    pub fn new(input: TokenStream) -> (r: Parser)
        requires
            input.wf(),
        ensures
            r.wf(),
            r@ == input@,
    {
        Parser { input }
    }

    /// Parses the whole text: its expressions in order, or the first
    /// failure.
    pub fn parse(&mut self) -> (r: Result<Vec<Expr>, String>)
        requires
            old(self).wf(),
        ensures
            final(self).wf(),
            list_result(r) == parse_spec(old(self)@),
    {
        self.parse_toplevel()
    }

    fn parse_toplevel(&mut self) -> (r: Result<Vec<Expr>, String>)
        requires
            old(self).wf(),
        ensures
            final(self).wf(),
            (list_result(r), final(self)@) == toplevel_spec(old(self)@, Seq::empty()),
    {
        let mut expressions: Vec<Expr> = Vec::new();
        assert(exprs_view(expressions@) =~= Seq::empty());
        loop
            invariant
                self.wf(),
                toplevel_spec(old(self)@, Seq::empty()) == toplevel_spec(
                    self@,
                    exprs_view(expressions@),
                ),
            decreases budget(self@),
        {
            let ghost c = self@;
            let ghost acc = exprs_view(expressions@);
            if self.input.is_eof() {
                return Ok(expressions);
            }
            match self.parse_expression() {
                Err(m) => {
                    return Err(m);
                },
                Ok(e) => {
                    expressions.push(e);
                    assert(exprs_view(expressions@) =~= acc.push(e@));
                },
            }
            if self.input.is_eof() {
                return Ok(expressions);
            }
            match self.skip_punc(";") {
                Err(m) => {
                    return Err(m);
                },
                Ok(_) => {},
            }
        }
    }

    fn parse_expression(&mut self) -> (r: Result<Expr, String>)
        requires
            old(self).wf(),
        ensures
            final(self).wf(),
            (expr_result(r), final(self)@) == parse_expression_spec(old(self)@),
            budget(final(self)@) <= budget(old(self)@),
            r.is_ok() ==> budget(final(self)@) < budget(old(self)@),
        decreases budget(old(self)@), 7nat,
    {
        match self.parse_atom() {
            Err(m) => Err(m),
            Ok(left) => self.maybe_binary(left, 0),
        }
    }

    fn parse_var_name(&mut self) -> (r: Result<Expr, String>)
        requires
            old(self).wf(),
        ensures
            final(self).wf(),
            (expr_result(r), final(self)@) == var_name_spec(old(self)@),
            budget(final(self)@) <= budget(old(self)@),
            r.is_ok() ==> budget(final(self)@) < budget(old(self)@),
    {
        match self.input.next() {
            Some(Token::Var { value }) => Ok(Expr::Var { name: value }),
            Some(other) => {
                let mut msg = String::from_str("Expecting variable name, got '");
                msg.append(other.to_text().as_str());
                msg.append("'");
                Err(self.fail(msg.as_str()))
            },
            None => Err(self.fail("Expecting variable name, but got to end of input")),
        }
    }

    fn maybe_call(&mut self, expr: Expr) -> (r: Result<Expr, String>)
        requires
            old(self).wf(),
        ensures
            final(self).wf(),
            (expr_result(r), final(self)@) == maybe_call_spec(expr@, old(self)@),
            budget(final(self)@) <= budget(old(self)@),
        decreases budget(old(self)@), 4nat,
    {
        let mut callee = expr;
        loop
            invariant
                self.wf(),
                budget(self@) <= budget(old(self)@),
                maybe_call_spec(expr@, old(self)@) == maybe_call_spec(callee@, self@),
            decreases budget(self@),
        {
            if !self.is_punc("(") {
                return Ok(callee);
            }
            match self.parse_call(callee) {
                Err(m) => {
                    return Err(m);
                },
                Ok(call) => {
                    callee = call;
                },
            }
        }
    }

    fn parse_call(&mut self, func: Expr) -> (r: Result<Expr, String>)
        requires
            old(self).wf(),
        ensures
            final(self).wf(),
            (expr_result(r), final(self)@) == parse_call_spec(func@, old(self)@),
            budget(final(self)@) <= budget(old(self)@),
            r.is_ok() ==> budget(final(self)@) < budget(old(self)@),
        decreases budget(old(self)@), 3nat,
    {
        match self.delimited("(", ")", ",", false) {
            Err(m) => Err(m),
            Ok(args) => {
                let r = Expr::Call { func: Box::new(func), args };
                proof {
                    lemma_view_children(r);
                }
                Ok(r)
            },
        }
    }

    fn maybe_binary(&mut self, left: Expr, my_precedence: usize) -> (r: Result<Expr, String>)
        requires
            old(self).wf(),
        ensures
            final(self).wf(),
            (expr_result(r), final(self)@) == maybe_binary_spec(
                left@,
                my_precedence as nat,
                old(self)@,
            ),
            budget(final(self)@) <= budget(old(self)@),
        decreases budget(old(self)@), 10nat,
    {
        match self.input.peek() {
            Some(Token::Op { value }) => self.parse_binary(left, value, my_precedence),
            _ => Ok(left),
        }
    }

    fn parse_binary(&mut self, left: Expr, op: String, my_precedence: usize) -> (r: Result<
        Expr,
        String,
    >)
        requires
            old(self).wf(),
            old(self)@.cached.is_some(),
        ensures
            final(self).wf(),
            (expr_result(r), final(self)@) == parse_binary_spec(
                left@,
                TokenV { kind: TokenKind::Op, text: op@ },
                my_precedence as nat,
                old(self)@,
            ),
            budget(final(self)@) <= budget(old(self)@),
        decreases budget(old(self)@), 9nat,
    {
        let his_precedence = match precedence(&op) {
            Some(p) => p,
            None => {
                return Err(self.unexpected(&Token::Op { value: op }));
            },
        };
        if his_precedence > my_precedence {
            self.input.next();
            let atom = match self.parse_atom() {
                Err(m) => {
                    return Err(m);
                },
                Ok(atom) => atom,
            };
            let right = match self.maybe_binary(atom, his_precedence) {
                Err(m) => {
                    return Err(m);
                },
                Ok(right) => right,
            };
            self.maybe_binary(fold(op, left, right), my_precedence)
        } else {
            Ok(left)
        }
    }

    fn parse_atom(&mut self) -> (r: Result<Expr, String>)
        requires
            old(self).wf(),
        ensures
            final(self).wf(),
            (expr_result(r), final(self)@) == parse_atom_spec(old(self)@),
            budget(final(self)@) <= budget(old(self)@),
            r.is_ok() ==> budget(final(self)@) < budget(old(self)@),
        decreases budget(old(self)@), 6nat,
    {
        match self.parse_primary() {
            Err(m) => Err(m),
            Ok(atom) => self.maybe_call(atom),
        }
    }

    fn parse_primary(&mut self) -> (r: Result<Expr, String>)
        requires
            old(self).wf(),
        ensures
            final(self).wf(),
            (expr_result(r), final(self)@) == parse_primary_spec(old(self)@),
            budget(final(self)@) <= budget(old(self)@),
            r.is_ok() ==> budget(final(self)@) < budget(old(self)@),
        decreases budget(old(self)@), 5nat,
    {
        let tok = self.input.peek();
        if tok.is_none() {
            return Err(self.fail("Unexpected end of tokens"));
        }
        if punc_is(&tok, "(") {
            self.input.next();
            let exp = match self.parse_expression() {
                Err(m) => {
                    return Err(m);
                },
                Ok(exp) => exp,
            };
            return match self.skip_punc(")") {
                Err(m) => Err(m),
                Ok(_) => Ok(exp),
            };
        }
        if punc_is(&tok, "{") {
            return self.parse_prog();
        }
        if kw_is(&tok, "if") {
            return self.parse_if();
        }
        if kw_is(&tok, "true") {
            return Ok(self.parse_bool(true));
        }
        if kw_is(&tok, "false") {
            return Ok(self.parse_bool(false));
        }
        if kw_is(&tok, "lambda") || kw_is(&tok, "\u{3bb}") {
            return self.parse_lambda();
        }
        match self.input.next() {
            Some(Token::Num { value }) => Ok(Expr::Num { value }),
            Some(Token::Str { value }) => Ok(Expr::Str { value }),
            Some(Token::Var { value }) => Ok(Expr::Var { name: value }),
            Some(token) => Err(self.unexpected(&token)),
            None => Err(self.fail("Unexpected end of tokens")),
        }
    }

    fn parse_bool(&mut self, value: bool) -> (r: Expr)
        requires
            old(self).wf(),
            old(self)@.cached.is_some(),
        ensures
            final(self).wf(),
            final(self)@ == next_spec(old(self)@).1,
            r@ == (ExprV::Bool { value }),
            budget(final(self)@) < budget(old(self)@),
    {
        self.input.next();
        Expr::Bool { value }
    }

    fn parse_if(&mut self) -> (r: Result<Expr, String>)
        requires
            old(self).wf(),
            old(self)@.cached.is_some(),
        ensures
            final(self).wf(),
            (expr_result(r), final(self)@) == parse_if_spec(old(self)@),
            budget(final(self)@) <= budget(old(self)@),
            r.is_ok() ==> budget(final(self)@) < budget(old(self)@),
        decreases budget(old(self)@), 4nat,
    {
        self.input.next();
        let cond = match self.parse_expression() {
            Err(m) => {
                return Err(m);
            },
            Ok(cond) => cond,
        };
        if !self.is_punc("{") {
            match self.skip_kw("then") {
                Err(m) => {
                    return Err(m);
                },
                Ok(_) => {},
            }
        }
        let then = match self.parse_expression() {
            Err(m) => {
                return Err(m);
            },
            Ok(then) => then,
        };
        match self.parse_else() {
            Err(m) => Err(m),
            Ok(otherwise) => Ok(Expr::If { cond: Box::new(cond), then: Box::new(then), otherwise }),
        }
    }

    fn parse_else(&mut self) -> (r: Result<Option<Box<Expr>>, String>)
        requires
            old(self).wf(),
        ensures
            final(self).wf(),
            (else_result(r), final(self)@) == parse_else_spec(old(self)@),
            budget(final(self)@) <= budget(old(self)@),
        decreases budget(old(self)@), 8nat,
    {
        if self.is_kw("else") {
            self.input.next();
            match self.parse_expression() {
                Err(m) => Err(m),
                Ok(other) => Ok(Some(Box::new(other))),
            }
        } else {
            Ok(None)
        }
    }

    fn parse_prog(&mut self) -> (r: Result<Expr, String>)
        requires
            old(self).wf(),
        ensures
            final(self).wf(),
            (expr_result(r), final(self)@) == parse_prog_spec(old(self)@),
            budget(final(self)@) <= budget(old(self)@),
            r.is_ok() ==> budget(final(self)@) < budget(old(self)@),
        decreases budget(old(self)@), 4nat,
    {
        match self.delimited("{", "}", ";", false) {
            Err(m) => Err(m),
            Ok(prog) => Ok(block_of(prog)),
        }
    }

    fn parse_lambda(&mut self) -> (r: Result<Expr, String>)
        requires
            old(self).wf(),
            old(self)@.cached.is_some(),
        ensures
            final(self).wf(),
            (expr_result(r), final(self)@) == parse_lambda_spec(old(self)@),
            budget(final(self)@) <= budget(old(self)@),
            r.is_ok() ==> budget(final(self)@) < budget(old(self)@),
        decreases budget(old(self)@), 4nat,
    {
        self.input.next();
        let vars = match self.delimited("(", ")", ",", true) {
            Err(m) => {
                return Err(m);
            },
            Ok(vars) => vars,
        };
        match self.parse_expression() {
            Err(m) => Err(m),
            Ok(body) => {
                let r = Expr::Lambda { vars, body: Box::new(body) };
                proof {
                    lemma_view_children(r);
                }
                Ok(r)
            },
        }
    }

    fn delimited(&mut self, start: &str, stop: &str, sep: &str, names: bool) -> (r: Result<
        Vec<Expr>,
        String,
    >)
        requires
            old(self).wf(),
        ensures
            final(self).wf(),
            (list_result(r), final(self)@) == delimited_spec(
                old(self)@,
                start@,
                stop@,
                sep@,
                names,
            ),
            budget(final(self)@) <= budget(old(self)@),
            r.is_ok() ==> budget(final(self)@) < budget(old(self)@),
        decreases budget(old(self)@), 2nat,
    {
        let mut vec: Vec<Expr> = Vec::new();
        let mut first = true;
        match self.skip_punc(start) {
            Err(m) => {
                return Err(m);
            },
            Ok(_) => {},
        }
        let ghost c1 = self@;
        assert(exprs_view(vec@) =~= Seq::empty());
        loop
            invariant_except_break
                items_spec(c1, stop@, sep@, names, true, Seq::empty()) == items_spec(
                    self@,
                    stop@,
                    sep@,
                    names,
                    first,
                    exprs_view(vec@),
                ),
            invariant
                self.wf(),
                skip_punc_spec(old(self)@, start@) == (None::<Seq<char>>, c1),
                budget(self@) <= budget(c1),
                budget(c1) < budget(old(self)@),
            ensures
                items_spec(c1, stop@, sep@, names, true, Seq::empty()) == (
                    Ok::<Seq<ExprV>, Seq<char>>(exprs_view(vec@)),
                    self@,
                ),
            decreases budget(self@),
        {
            let ghost acc = exprs_view(vec@);
            match self.parse_item(stop, sep, names, first) {
                Err(m) => {
                    return Err(m);
                },
                Ok(None) => {
                    break;
                },
                Ok(Some(e)) => {
                    vec.push(e);
                    first = false;
                    assert(exprs_view(vec@) =~= acc.push(e@));
                },
            }
        }
        match self.skip_punc(stop) {
            Err(m) => Err(m),
            Ok(_) => Ok(vec),
        }
    }

    fn parse_item(&mut self, stop: &str, sep: &str, names: bool, first: bool) -> (r: Result<
        Option<Expr>,
        String,
    >)
        requires
            old(self).wf(),
        ensures
            final(self).wf(),
            (item_result(r), final(self)@) == item_spec(old(self)@, stop@, sep@, names, first),
            budget(final(self)@) <= budget(old(self)@),
            r is Ok && r->Ok_0 is Some ==> budget(final(self)@) < budget(old(self)@),
        decreases budget(old(self)@), 8nat,
    {
        let tok = self.input.peek();
        if tok.is_none() || punc_is(&tok, stop) {
            return Ok(None);
        }
        if !first {
            match self.skip_punc(sep) {
                Err(m) => {
                    return Err(m);
                },
                Ok(_) => {},
            }
        }
        if self.is_punc(stop) {
            return Ok(None);
        }
        let item = if names {
            self.parse_var_name()
        } else {
            self.parse_expression()
        };
        match item {
            Err(m) => Err(m),
            Ok(e) => Ok(Some(e)),
        }
    }

    fn skip_punc(&mut self, expected: &str) -> (r: Result<(), String>)
        requires
            old(self).wf(),
        ensures
            final(self).wf(),
            (skip_result(r), final(self)@) == skip_punc_spec(old(self)@, expected@),
            budget(final(self)@) <= budget(old(self)@),
            r.is_ok() ==> budget(final(self)@) < budget(old(self)@),
    {
        if self.is_punc(expected) {
            self.input.next();
            Ok(())
        } else {
            let mut msg = String::from_str("Expected punctuation ");
            msg.append(expected);
            Err(self.fail(msg.as_str()))
        }
    }

    fn skip_kw(&mut self, expected: &str) -> (r: Result<(), String>)
        requires
            old(self).wf(),
        ensures
            final(self).wf(),
            (skip_result(r), final(self)@) == skip_kw_spec(old(self)@, expected@),
            budget(final(self)@) <= budget(old(self)@),
            r.is_ok() ==> budget(final(self)@) < budget(old(self)@),
    {
        if self.is_kw(expected) {
            self.input.next();
            Ok(())
        } else {
            let mut msg = String::from_str("Expected keyword ");
            msg.append(expected);
            Err(self.fail(msg.as_str()))
        }
    }

    fn is_punc(&mut self, expected: &str) -> (r: bool)
        requires
            old(self).wf(),
        ensures
            final(self).wf(),
            final(self)@ == peek_spec(old(self)@).1,
            r == is_token(peek_spec(old(self)@).0, TokenKind::Punc, expected@),
            budget(final(self)@) <= budget(old(self)@),
    {
        let tok = self.input.peek();
        punc_is(&tok, expected)
    }

    fn is_kw(&mut self, expected: &str) -> (r: bool)
        requires
            old(self).wf(),
        ensures
            final(self).wf(),
            final(self)@ == peek_spec(old(self)@).1,
            r == is_token(peek_spec(old(self)@).0, TokenKind::Kw, expected@),
            budget(final(self)@) <= budget(old(self)@),
    {
        let tok = self.input.peek();
        kw_is(&tok, expected)
    }

    fn unexpected(&self, token: &Token) -> (r: String)
        requires
            self.wf(),
        ensures
            r@ == fail_text(self@, unexpected_text(token@)),
    {
        let mut msg = String::from_str("Unexpected token '");
        msg.append(token.to_text().as_str());
        msg.append("'");
        self.fail(msg.as_str())
    }

    fn fail(&self, msg: &str) -> (r: String)
        requires
            self.wf(),
        ensures
            r@ == fail_text(self@, msg@),
    {
        match self.input.diagnostic() {
            Some(d) => d,
            None => self.input.syntax_error(msg),
        }
    }
}


/// Whether a parse that began in state `c` has left the scanner within the
/// text, has not raised the measure, and has failed, if it has, with a
/// message: it has not come to the result that stands for a measure that
/// did not fall.
pub open spec fn sound<T>(c: Cursor, r: (Result<T, Seq<char>>, Cursor)) -> bool {
    &&& within(r.1)
    &&& budget(r.1) <= budget(c)
    &&& r.0 != Err::<T, Seq<char>>(Seq::empty())
}

/// Whether a parse was sound and, where it succeeded, has lowered the
/// measure.
pub open spec fn advances<T>(c: Cursor, r: (Result<T, Seq<char>>, Cursor)) -> bool {
    &&& sound(c, r)
    &&& r.0.is_ok() ==> budget(r.1) < budget(c)
}

/// A failure always has a message.
pub proof fn lemma_fail_text(c: Cursor, msg: Seq<char>)
    requires
        within(c),
    ensures
        fail_text(c, msg).len() > 0,
{
    lemma_located_is_not_empty(
        "SYNTAX ERROR: "@ + msg,
        line_at(c.text, c.pos),
        col_at(c.text, c.pos),
    );
}

/// Skipping a token is sound, and lowers the measure where it succeeds.
pub proof fn lemma_skip(c: Cursor, kind: TokenKind, expected: Seq<char>, what: Seq<char>)
    requires
        within(c),
    ensures
        within(skip_spec(c, kind, expected, what).1),
        budget(skip_spec(c, kind, expected, what).1) <= budget(c),
        skip_spec(c, kind, expected, what).0.is_none() ==> budget(
            skip_spec(c, kind, expected, what).1,
        ) < budget(c),
        skip_spec(c, kind, expected, what).0.is_some() ==> skip_spec(
            c,
            kind,
            expected,
            what,
        ).0.unwrap().len() > 0,
{
    lemma_peek(c);
    lemma_next(c);
    lemma_fail_text(peek_spec(c).1, what + expected);
}

/// Reading a parameter name advances.
pub proof fn lemma_var_name(c: Cursor)
    requires
        within(c),
    ensures
        advances(c, var_name_spec(c)),
{
    lemma_next(c);
    let (t, c1) = next_spec(c);
    match t {
        Some(tok) => {
            lemma_fail_text(c1, not_a_name_text(tok));
        },
        None => {
            lemma_fail_text(c1, "Expecting variable name, but got to end of input"@);
        },
    }
}

/// Parsing an expression advances.
pub proof fn lemma_expression(c: Cursor)
    requires
        within(c),
    ensures
        advances(c, parse_expression_spec(c)),
    decreases budget(c), 7nat,
{
    lemma_atom(c);
    match parse_atom_spec(c) {
        (Ok(left), c1) => {
            lemma_maybe_binary(left, 0, c1);
        },
        _ => {},
    }
}

/// Parsing an atom advances.
pub proof fn lemma_atom(c: Cursor)
    requires
        within(c),
    ensures
        advances(c, parse_atom_spec(c)),
    decreases budget(c), 6nat,
{
    lemma_primary(c);
    match parse_primary_spec(c) {
        (Ok(e), c1) => {
            lemma_maybe_call(e, c1);
        },
        _ => {},
    }
}

/// Parsing a primary expression advances.
pub proof fn lemma_primary(c: Cursor)
    requires
        within(c),
    ensures
        advances(c, parse_primary_spec(c)),
    decreases budget(c), 5nat,
{
    lemma_peek(c);
    lemma_next(c);
    let (t, c1) = peek_spec(c);
    let c2 = next_spec(c1).1;
    lemma_fail_text(c1, "Unexpected end of tokens"@);
    match t {
        None => {},
        Some(tok) => {
            lemma_fail_text(c2, unexpected_text(tok));
            if is_token(t, TokenKind::Punc, "("@) {
                lemma_expression(c2);
                match parse_expression_spec(c2) {
                    (Ok(e), c3) => {
                        lemma_skip(c3, TokenKind::Punc, ")"@, "Expected punctuation "@);
                    },
                    _ => {},
                }
            } else if is_token(t, TokenKind::Punc, "{"@) {
                lemma_prog(c1);
            } else if is_token(t, TokenKind::Kw, "if"@) {
                lemma_if(c1);
            } else if is_token(t, TokenKind::Kw, "true"@) {
            } else if is_token(t, TokenKind::Kw, "false"@) {
            } else if is_token(t, TokenKind::Kw, "lambda"@) || is_token(
                t,
                TokenKind::Kw,
                "\u{3bb}"@,
            ) {
                lemma_lambda(c1);
            }
        },
    }
}

/// Parsing a block advances.
pub proof fn lemma_prog(c: Cursor)
    requires
        within(c),
    ensures
        advances(c, parse_prog_spec(c)),
    decreases budget(c), 4nat,
{
    lemma_delimited(c, "{"@, "}"@, ";"@, false);
}

/// Parsing an `if` advances.
pub proof fn lemma_if(c: Cursor)
    requires
        within(c),
        c.cached.is_some(),
    ensures
        advances(c, parse_if_spec(c)),
    decreases budget(c), 4nat,
{
    lemma_next(c);
    let c1 = next_spec(c).1;
    lemma_expression(c1);
    match parse_expression_spec(c1) {
        (Ok(cond), c2) => {
            lemma_peek(c2);
            let (t, c3) = peek_spec(c2);
            lemma_skip(c3, TokenKind::Kw, "then"@, "Expected keyword "@);
            let (missing, c4) = if is_token(t, TokenKind::Punc, "{"@) {
                (None, c3)
            } else {
                skip_kw_spec(c3, "then"@)
            };
            if missing.is_none() {
                lemma_expression(c4);
                match parse_expression_spec(c4) {
                    (Ok(then), c5) => {
                        lemma_else(c5);
                    },
                    _ => {},
                }
            }
        },
        _ => {},
    }
}

/// Parsing an `else` branch is sound.
pub proof fn lemma_else(c: Cursor)
    requires
        within(c),
    ensures
        sound(c, parse_else_spec(c)),
    decreases budget(c), 8nat,
{
    lemma_peek(c);
    lemma_next(c);
    let (t, c1) = peek_spec(c);
    let c2 = next_spec(c1).1;
    if is_token(t, TokenKind::Kw, "else"@) {
        lemma_expression(c2);
    }
}

/// Parsing a lambda advances.
pub proof fn lemma_lambda(c: Cursor)
    requires
        within(c),
        c.cached.is_some(),
    ensures
        advances(c, parse_lambda_spec(c)),
    decreases budget(c), 4nat,
{
    lemma_next(c);
    let c1 = next_spec(c).1;
    lemma_delimited(c1, "("@, ")"@, ","@, true);
    match delimited_spec(c1, "("@, ")"@, ","@, true) {
        (Ok(vars), c2) => {
            lemma_expression(c2);
        },
        _ => {},
    }
}

/// Parsing argument lists is sound.
pub proof fn lemma_maybe_call(callee: ExprV, c: Cursor)
    requires
        within(c),
    ensures
        sound(c, maybe_call_spec(callee, c)),
    decreases budget(c), 4nat,
{
    lemma_peek(c);
    let (t, c1) = peek_spec(c);
    if is_token(t, TokenKind::Punc, "("@) {
        lemma_call(callee, c1);
        match parse_call_spec(callee, c1) {
            (Ok(call), c2) => {
                lemma_maybe_call(call, c2);
            },
            _ => {},
        }
    }
}

/// Parsing a call advances.
pub proof fn lemma_call(func: ExprV, c: Cursor)
    requires
        within(c),
    ensures
        advances(c, parse_call_spec(func, c)),
    decreases budget(c), 3nat,
{
    lemma_delimited(c, "("@, ")"@, ","@, false);
}

/// Parsing a list advances.
pub proof fn lemma_delimited(
    c: Cursor,
    start: Seq<char>,
    stop: Seq<char>,
    sep: Seq<char>,
    names: bool,
)
    requires
        within(c),
    ensures
        advances(c, delimited_spec(c, start, stop, sep, names)),
    decreases budget(c), 2nat,
{
    lemma_skip(c, TokenKind::Punc, start, "Expected punctuation "@);
    match skip_punc_spec(c, start) {
        (None, c1) => {
            lemma_items(c1, stop, sep, names, true, Seq::empty());
            match items_spec(c1, stop, sep, names, true, Seq::empty()) {
                (Ok(items), c2) => {
                    lemma_skip(c2, TokenKind::Punc, stop, "Expected punctuation "@);
                },
                _ => {},
            }
        },
        _ => {},
    }
}

/// Parsing an item of a list is sound, and lowers the measure where it
/// yields an item.
#[verifier::rlimit(80)]
#[verifier::spinoff_prover]
pub proof fn lemma_item(c: Cursor, stop: Seq<char>, sep: Seq<char>, names: bool, first: bool)
    requires
        within(c),
    ensures
        sound(c, item_spec(c, stop, sep, names, first)),
        item_spec(c, stop, sep, names, first).0 matches Ok(Some(e)) ==> budget(
            item_spec(c, stop, sep, names, first).1,
        ) < budget(c),
    decreases budget(c), 8nat,
{
    lemma_peek(c);
    let (t, c1) = peek_spec(c);
    if !(t.is_none() || is_token(t, TokenKind::Punc, stop)) {
        lemma_skip(c1, TokenKind::Punc, sep, "Expected punctuation "@);
        let (missing, c2) = if first {
            (None, c1)
        } else {
            skip_punc_spec(c1, sep)
        };
        if missing.is_none() {
            lemma_peek(c2);
            let (t2, c3) = peek_spec(c2);
            if !is_token(t2, TokenKind::Punc, stop) {
                if names {
                    lemma_var_name(c3);
                } else {
                    lemma_expression(c3);
                }
            }
        }
    }
}

/// Parsing the items of a list is sound.
pub proof fn lemma_items(
    c: Cursor,
    stop: Seq<char>,
    sep: Seq<char>,
    names: bool,
    first: bool,
    acc: Seq<ExprV>,
)
    requires
        within(c),
    ensures
        sound(c, items_spec(c, stop, sep, names, first, acc)),
    decreases budget(c), 9nat,
{
    lemma_item(c, stop, sep, names, first);
    match item_spec(c, stop, sep, names, first) {
        (Ok(Some(e)), c1) => {
            lemma_items(c1, stop, sep, names, false, acc.push(e));
        },
        _ => {},
    }
}

/// Parsing the operators behind an operand is sound.
pub proof fn lemma_maybe_binary(left: ExprV, prec: nat, c: Cursor)
    requires
        within(c),
    ensures
        sound(c, maybe_binary_spec(left, prec, c)),
    decreases budget(c), 10nat,
{
    lemma_peek(c);
    let (t, c1) = peek_spec(c);
    match t {
        Some(tok) => {
            if tok.kind is Op {
                lemma_binary(left, tok, prec, c1);
            }
        },
        None => {},
    }
}

/// Parsing an operator and its right side is sound.
pub proof fn lemma_binary(left: ExprV, op: TokenV, prec: nat, c: Cursor)
    requires
        within(c),
        c.cached.is_some(),
    ensures
        sound(c, parse_binary_spec(left, op, prec, c)),
    decreases budget(c), 9nat,
{
    lemma_fail_text(c, unexpected_text(op));
    match precedence_spec(op.text) {
        Some(his) => {
            if his > prec {
                lemma_next(c);
                let c2 = next_spec(c).1;
                lemma_atom(c2);
                match parse_atom_spec(c2) {
                    (Ok(atom), c3) => {
                        lemma_maybe_binary(atom, his, c3);
                        match maybe_binary_spec(atom, his, c3) {
                            (Ok(right), c4) => {
                                lemma_maybe_binary(fold_spec(op.text, left, right), prec, c4);
                            },
                            _ => {},
                        }
                    },
                    _ => {},
                }
            }
        },
        None => {},
    }
}

/// Parsing a whole text is sound.
pub proof fn lemma_toplevel(c: Cursor, acc: Seq<ExprV>)
    requires
        within(c),
    ensures
        sound(c, toplevel_spec(c, acc)),
    decreases budget(c), 11nat,
{
    lemma_peek(c);
    let (t, c1) = peek_spec(c);
    if t.is_some() {
        lemma_expression(c1);
        match parse_expression_spec(c1) {
            (Ok(e), c2) => {
                lemma_peek(c2);
                let (t2, c3) = peek_spec(c2);
                if t2.is_some() {
                    lemma_skip(c3, TokenKind::Punc, ";"@, "Expected punctuation "@);
                    match skip_punc_spec(c3, ";"@) {
                        (None, c4) => {
                            lemma_toplevel(c4, acc.push(e));
                        },
                        _ => {},
                    }
                }
            },
            _ => {},
        }
    }
}

} // verus!
