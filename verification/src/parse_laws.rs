//! Laws of the grammar, proved from the definitions of the scanner and of
//! the parser.

use vstd::prelude::*;
use crate::chars::spec_is_digit;
use crate::expr::ExprV;
use crate::parser::{
    is_token, lemma_toplevel, maybe_binary_spec, maybe_call_spec, parse_atom_spec,
    parse_expression_spec, parse_primary_spec, parse_spec, skip_punc_spec, toplevel_spec,
};
use crate::token::{TokenKind, TokenV};
use crate::token_stream::{
    budget, class_run, lemma_class_run, lemma_next, lemma_peek, lemma_scan_bounds, next_spec,
    peek_spec, scan, skip_blanks, within, Cursor, Scanned,
};

verus! {

/// Parsing always comes to an answer: expressions, or a failure with its
/// message. The measure of the stream falls with every token, so the
/// grammar never meets the result that stands for a measure that did not
/// fall.
pub proof fn law_parse_comes_to_an_answer(c: Cursor)
    requires
        within(c),
    ensures
        parse_spec(c) != Err::<Seq<ExprV>, Seq<char>>(Seq::empty()),
{
    lemma_toplevel(c, Seq::empty());
}

/// The state of a stream after `n` tokens have been consumed.
pub open spec fn after(c: Cursor, n: nat) -> Cursor
    decreases n,
{
    if n == 0 {
        c
    } else {
        after(next_spec(c).1, (n - 1) as nat)
    }
}

/// The token of a stream at place `n`, counted from 0.
pub open spec fn token_from(c: Cursor, n: nat) -> Option<TokenV> {
    next_spec(after(c, n)).0
}

/// Whether the stream begins with a numeral of this text between `depth`
/// opening and as many closing parentheses.
pub open spec fn wrapped_numeral(c: Cursor, depth: nat, text: Seq<char>) -> bool {
    &&& forall|i: nat|
        i < depth ==> #[trigger] token_from(c, i) == Some(
            TokenV { kind: TokenKind::Punc, text: "("@ },
        )
    &&& token_from(c, depth) == Some(TokenV { kind: TokenKind::Num, text })
    &&& forall|i: nat|
        depth < i <= 2 * depth ==> #[trigger] token_from(c, i) == Some(
            TokenV { kind: TokenKind::Punc, text: ")"@ },
        )
}

/// Whether an expression ends before `t`: `t` is no operator and opens no
/// argument list.
pub open spec fn ends_expression(t: Option<TokenV>) -> bool {
    match t {
        Some(tok) => !(tok.kind is Op) && !is_token(t, TokenKind::Punc, "("@),
        None => true,
    }
}

/// Consuming tokens keeps the scanner within the text and lowers the
/// measure with each token.
pub proof fn lemma_after(c: Cursor, n: nat)
    requires
        within(c),
        forall|i: nat| i < n ==> (#[trigger] token_from(c, i)).is_some(),
    ensures
        within(after(c, n)),
        budget(after(c, n)) <= budget(c),
        n > 0 ==> budget(after(c, n)) < budget(c),
    decreases n,
{
    if n > 0 {
        lemma_next(c);
        let c1 = next_spec(c).1;
        assert(token_from(c, 0).is_some());
        assert forall|i: nat| i < n - 1 implies (#[trigger] token_from(c1, i)).is_some() by {
            assert(token_from(c, i + 1).is_some());
            assert(after(c, i + 1) == after(c1, i));
        }
        lemma_after(c1, (n - 1) as nat);
    }
}

/// A numeral in parentheses, however many, parses to the node of the
/// numeral alone: the parentheses leave no trace. The parse ends with the
/// token behind the last parenthesis read ahead.
pub proof fn law_parentheses_leave_no_trace(c: Cursor, depth: nat, text: Seq<char>)
    requires
        within(c),
        wrapped_numeral(c, depth, text),
        ends_expression(peek_spec(after(c, 2 * depth + 1)).0),
    ensures
        parse_expression_spec(c) == (
            Ok::<ExprV, Seq<char>>(ExprV::Num { value: text }),
            peek_spec(after(c, 2 * depth + 1)).1,
        ),
    decreases depth,
{
    reveal_strlit("(");
    reveal_strlit(")");
    assert("("@[0] == '(' && ")"@[0] == ')');
    let count: nat = 2 * depth + 1;
    let node = ExprV::Num { value: text };
    let last = after(c, count);
    assert forall|i: nat| i < count implies (#[trigger] token_from(c, i)).is_some() by {}
    lemma_after(c, count);
    lemma_peek(c);
    lemma_next(c);
    lemma_peek(last);
    let c1 = peek_spec(c).1;
    let c2 = next_spec(c1).1;
    assert(c2 == after(c, 1)) by {
        reveal_with_fuel(after, 2);
    }
    assert(peek_spec(c).0 == token_from(c, 0));
    let end = peek_spec(last).1;
    if depth == 0 {
        assert(token_from(c, 0) == Some(TokenV { kind: TokenKind::Num, text }));
        assert(last == c2);
        assert(parse_primary_spec(c) == (Ok::<ExprV, Seq<char>>(node), c2));
    } else {
        let inner: nat = (depth - 1) as nat;
        assert(token_from(c, 0) == Some(TokenV { kind: TokenKind::Punc, text: "("@ }));
        assert forall|i: nat| #![auto] after(c2, i) == after(c, i + 1) by {}
        assert(wrapped_numeral(c2, inner, text)) by {
            assert forall|i: nat| i < inner implies #[trigger] token_from(c2, i) == Some(
                TokenV { kind: TokenKind::Punc, text: "("@ },
            ) by {
                assert(token_from(c2, i) == token_from(c, i + 1));
            }
            assert(token_from(c2, inner) == token_from(c, depth));
            assert forall|i: nat| inner < i <= 2 * inner implies #[trigger] token_from(c2, i)
                == Some(TokenV { kind: TokenKind::Punc, text: ")"@ }) by {
                assert(token_from(c2, i) == token_from(c, i + 1));
            }
        }
        let before_close = after(c2, 2 * inner + 1);
        assert(before_close == after(c, 2 * depth));
        assert(token_from(c, 2 * depth) == Some(TokenV { kind: TokenKind::Punc, text: ")"@ }));
        assert forall|i: nat| i < 2 * depth implies (#[trigger] token_from(c, i)).is_some() by {}
        lemma_after(c, 2 * depth);
        lemma_peek(before_close);
        lemma_next(before_close);
        law_parentheses_leave_no_trace(c2, inner, text);
        let c3 = peek_spec(before_close).1;
        assert(parse_expression_spec(c2) == (Ok::<ExprV, Seq<char>>(node), c3));
        assert(next_spec(c3).1 == last) by {
            assert(after(c, 2 * depth + 1) == after(next_spec(c).1, 2 * depth));
            lemma_after_step(c, 2 * depth);
        }
        assert(skip_punc_spec(c3, ")"@) == (None::<Seq<char>>, last));
        assert(parse_primary_spec(c) == (Ok::<ExprV, Seq<char>>(node), last));
    }
    assert(maybe_call_spec(node, last) == (Ok::<ExprV, Seq<char>>(node), end));
    assert(parse_atom_spec(c) == (Ok::<ExprV, Seq<char>>(node), end));
    lemma_peek(end);
    assert(maybe_binary_spec(node, 0, end) == (Ok::<ExprV, Seq<char>>(node), end));
}

/// Consuming `n` tokens and then one is consuming `n + 1`.
pub proof fn lemma_after_step(c: Cursor, n: nat)
    ensures
        after(c, n + 1) == next_spec(after(c, n)).1,
    decreases n,
{
    let c1 = next_spec(c).1;
    assert(after(c, n + 1) == after(c1, n));
    if n > 0 {
        lemma_after_step(c1, (n - 1) as nat);
        assert(after(c, n) == after(c1, (n - 1) as nat));
    } else {
        assert(after(c1, 0) == c1);
    }
}


/// The state of a stream that has scanned `text` up to `pos` and has read
/// no token ahead.
pub open spec fn at(text: Seq<char>, pos: int) -> Cursor {
    Cursor { text, pos, cached: None, failure: None }
}

/// The text of `n` characters `ch`.
pub open spec fn repeat(ch: char, n: nat) -> Seq<char> {
    Seq::new(n, |i: int| ch)
}

/// Whether `n` is a numeral: digits, at least one, and optionally a point
/// and more digits.
pub open spec fn is_numeral(n: Seq<char>) -> bool {
    let whole = class_run(|c: char| spec_is_digit(c), n, 0);
    whole > 0 && (whole == n.len() || (n[whole] == '.' && class_run(
        |c: char| spec_is_digit(c),
        n,
        whole + 1,
    ) == n.len()))
}

/// A numeral of this text between `depth` pairs of parentheses, followed by
/// `rest`.
pub open spec fn in_parentheses(depth: nat, numeral: Seq<char>, rest: Seq<char>) -> Seq<char> {
    repeat('(', depth) + numeral + repeat(')', depth) + rest
}

/// A run holds only characters of its class and ends before one that is
/// not of it, or at the end of the text.
pub proof fn lemma_class_run_holds(class: spec_fn(char) -> bool, s: Seq<char>, pos: int)
    requires
        0 <= pos <= s.len(),
    ensures
        pos <= class_run(class, s, pos) <= s.len(),
        forall|j: int| pos <= j < class_run(class, s, pos) ==> class(#[trigger] s[j]),
        class_run(class, s, pos) < s.len() ==> !class(s[class_run(class, s, pos)]),
    decreases s.len() - pos,
{
    if pos < s.len() && class(s[pos]) {
        lemma_class_run_holds(class, s, pos + 1);
    }
}

/// Consuming `a` tokens and then `b` is consuming `a + b`.
pub proof fn lemma_after_add(c: Cursor, a: nat, b: nat)
    ensures
        after(c, a + b) == after(after(c, a), b),
    decreases a,
{
    if a > 0 {
        lemma_after_add(next_spec(c).1, (a - 1) as nat, b);
        assert(after(c, a + b) == after(next_spec(c).1, (a + b - 1) as nat));
    }
}

/// Where a token is scanned at `pos`, a stream that stands there yields it
/// and then stands behind it.
pub proof fn lemma_next_at(s: Seq<char>, pos: int, token: TokenV, end: int)
    requires
        scan(s, pos) == (Scanned::Token { token, end }),
    ensures
        next_spec(at(s, pos)) == (Some(token), at(s, end)),
{
}

/// A parenthesis is scanned as the punctuation token of its text.
pub proof fn lemma_scan_parenthesis(s: Seq<char>, pos: int)
    requires
        0 <= pos < s.len(),
        s[pos] == '(' || s[pos] == ')',
    ensures
        s[pos] == '(' ==> scan(s, pos) == (Scanned::Token {
            token: TokenV { kind: TokenKind::Punc, text: "("@ },
            end: pos + 1,
        }),
        s[pos] == ')' ==> scan(s, pos) == (Scanned::Token {
            token: TokenV { kind: TokenKind::Punc, text: ")"@ },
            end: pos + 1,
        }),
{
    reveal(scan);
    reveal_strlit("(");
    reveal_strlit(")");
    assert(skip_blanks(s, pos, false) == pos);
    assert(seq![s[pos]] =~= (if s[pos] == '(' {
        "("@
    } else {
        ")"@
    }));
}

/// A numeral is scanned as the number token of its text, where no digit
/// and no point follows it.
pub proof fn lemma_scan_numeral(s: Seq<char>, pos: int, numeral: Seq<char>)
    requires
        is_numeral(numeral),
        0 <= pos,
        pos + numeral.len() <= s.len(),
        s.subrange(pos, pos + numeral.len()) == numeral,
        pos + numeral.len() < s.len() ==> !spec_is_digit(s[pos + numeral.len()]) && s[pos
            + numeral.len()] != '.',
    ensures
        scan(s, pos) == (Scanned::Token {
            token: TokenV { kind: TokenKind::Num, text: numeral },
            end: pos + numeral.len(),
        }),
{
    reveal(scan);
    let digit = |c: char| spec_is_digit(c);
    let n = numeral;
    let len = n.len() as int;
    assert forall|j: int| 0 <= j < len implies n[j] == s[pos + j] by {
        assert(s.subrange(pos, pos + len)[j] == s[pos + j]);
    }
    lemma_class_run_holds(digit, n, 0);
    let whole = class_run(digit, n, 0);
    assert(digit(n[0]));
    assert(skip_blanks(s, pos, false) == pos);
    assert forall|j: int| pos <= j < pos + whole implies digit(#[trigger] s[j]) by {
        assert(digit(n[j - pos]));
    }
    if whole < len {
        assert(!digit(n[whole]));
    }
    lemma_class_run(digit, s, pos, pos + whole);
    if whole < len {
        lemma_class_run_holds(digit, n, whole + 1);
        assert forall|j: int| pos + whole + 1 <= j < pos + len implies digit(#[trigger] s[j]) by {
            assert(digit(n[j - pos]));
        }
        lemma_class_run(digit, s, pos + whole + 1, pos + len);
    }
}

/// A stream that stands before `count` tokens of one character each, all
/// scanned as `token`, yields them and then stands behind them.
pub proof fn lemma_after_run(s: Seq<char>, pos: int, count: nat, token: TokenV)
    requires
        forall|j: int|
            pos <= j < pos + count ==> #[trigger] scan(s, j) == (Scanned::Token {
                token,
                end: j + 1,
            }),
    ensures
        after(at(s, pos), count) == at(s, pos + count),
        forall|i: nat| i < count ==> #[trigger] token_from(at(s, pos), i) == Some(token),
    decreases count,
{
    if count > 0 {
        let shorter: nat = (count - 1) as nat;
        lemma_after_run(s, pos, shorter, token);
        lemma_after_step(at(s, pos), shorter);
        assert(scan(s, pos + shorter) == (Scanned::Token { token, end: pos + shorter + 1 }));
        lemma_next_at(s, pos + shorter, token, pos + shorter + 1);
        assert forall|i: nat| i < count implies #[trigger] token_from(at(s, pos), i) == Some(
            token,
        ) by {
            if i == shorter {
            }
        }
    }
}

/// A numeral in parentheses, however deep, followed by a semicolon or by
/// nothing, parses to the one node of the numeral: the same node for every
/// depth, that of the numeral without parentheses.
pub proof fn law_parenthesized_numeral(depth: nat, numeral: Seq<char>, rest: Seq<char>)
    requires
        is_numeral(numeral),
        rest.len() == 0 || rest[0] == ';',
    ensures
        parse_expression_spec(at(in_parentheses(depth, numeral, rest), 0)).0 == Ok::<
            ExprV,
            Seq<char>,
        >(ExprV::Num { value: numeral }),
        parse_expression_spec(at(in_parentheses(depth, numeral, rest), 0)).0
            == parse_expression_spec(at(in_parentheses(0, numeral, rest), 0)).0,
{
    lemma_parenthesized_numeral(depth, numeral, rest);
    lemma_parenthesized_numeral(0, numeral, rest);
}

/// The parse of a numeral in parentheses, for one depth.
pub proof fn lemma_parenthesized_numeral(depth: nat, numeral: Seq<char>, rest: Seq<char>)
    requires
        is_numeral(numeral),
        rest.len() == 0 || rest[0] == ';',
    ensures
        parse_expression_spec(at(in_parentheses(depth, numeral, rest), 0)).0 == Ok::<
            ExprV,
            Seq<char>,
        >(ExprV::Num { value: numeral }),
{
    lemma_tokens_in_parentheses(depth, numeral, rest);
    law_parentheses_leave_no_trace(at(in_parentheses(depth, numeral, rest), 0), depth, numeral);
}

/// The tokens of a numeral in parentheses: the opening parentheses, the
/// number, the closing parentheses; behind them the stream stands before
/// `rest`, which begins with no operator and no parenthesis.
pub proof fn lemma_tokens_in_parentheses(depth: nat, numeral: Seq<char>, rest: Seq<char>)
    requires
        is_numeral(numeral),
        rest.len() == 0 || rest[0] == ';',
    ensures
        wrapped_numeral(at(in_parentheses(depth, numeral, rest), 0), depth, numeral),
        after(at(in_parentheses(depth, numeral, rest), 0), 2 * depth + 1) == at(
            in_parentheses(depth, numeral, rest),
            (2 * depth + numeral.len()) as int,
        ),
        in_parentheses(depth, numeral, rest).len() == 2 * depth + numeral.len() + rest.len(),
        ends_expression(
            peek_spec(
                at(in_parentheses(depth, numeral, rest), (2 * depth + numeral.len()) as int),
            ).0,
        ),
        rest.len() == 0 ==> peek_spec(
            at(in_parentheses(depth, numeral, rest), (2 * depth + numeral.len()) as int),
        ).0.is_none(),
        rest.len() > 0 ==> peek_spec(
            at(in_parentheses(depth, numeral, rest), (2 * depth + numeral.len()) as int),
        ).0 == Some(TokenV { kind: TokenKind::Punc, text: ";"@ }),
{
    reveal_strlit("(");
    reveal_strlit(")");
    reveal_strlit(";");
    let s = in_parentheses(depth, numeral, rest);
    let len = numeral.len() as int;
    let d = depth as int;
    let c = at(s, 0);
    let open = TokenV { kind: TokenKind::Punc, text: "("@ };
    let close = TokenV { kind: TokenKind::Punc, text: ")"@ };
    let number = TokenV { kind: TokenKind::Num, text: numeral };
    lemma_class_run_holds(|c: char| spec_is_digit(c), numeral, 0);
    assert(s.len() == d + len + d + rest.len());
    assert forall|j: int| 0 <= j < d implies s[j] == '(' by {}
    assert forall|j: int| d <= j < d + len implies s[j] == numeral[j - d] by {}
    assert forall|j: int| d + len <= j < d + len + d implies s[j] == ')' by {}
    assert forall|j: int| d + len + d <= j < s.len() implies s[j] == rest[j - d - len - d] by {}
    assert(s.subrange(d, d + len) =~= numeral);
    assert forall|j: int| 0 <= j < d implies #[trigger] scan(s, j) == (Scanned::Token {
        token: open,
        end: j + 1,
    }) by {
        lemma_scan_parenthesis(s, j);
    }
    assert forall|j: int| d + len <= j < d + len + d implies #[trigger] scan(s, j) == (
    Scanned::Token { token: close, end: j + 1 }) by {
        lemma_scan_parenthesis(s, j);
    }
    lemma_scan_numeral(s, d, numeral);
    lemma_after_run(s, 0, depth, open);
    lemma_next_at(s, d, number, d + len);
    lemma_after_step(c, depth);
    assert(after(c, depth + 1) == at(s, d + len));
    lemma_after_run(s, d + len, depth, close);
    assert forall|i: nat| depth < i <= 2 * depth implies #[trigger] token_from(c, i) == Some(
        close,
    ) by {
        let k: nat = (i - depth - 1) as nat;
        lemma_after_add(c, depth + 1, k);
        assert(after(c, i) == after(at(s, d + len), k));
        assert(token_from(at(s, d + len), k) == Some(close));
    }
    assert(wrapped_numeral(c, depth, numeral));
    lemma_after_add(c, depth + 1, depth);
    let last = after(c, 2 * depth + 1);
    assert(last == at(s, d + len + d));
    reveal(scan);
    let p = d + len + d;
    assert(skip_blanks(s, p, false) == p);
    if rest.len() > 0 {
        assert(s[p] == ';');
        assert(seq![';'] =~= ";"@);
        assert(";"@[0] != "("@[0]);
    }
}

/// A statement that is a numeral in parentheses, however deep, parses to
/// what the numeral alone parses to: the one node of the numeral. A
/// semicolon may end the statement.
pub proof fn law_parenthesized_numeral_statement(depth: nat, numeral: Seq<char>, ended: bool)
    requires
        is_numeral(numeral),
    ensures
        parse_spec(
            at(
                in_parentheses(
                    depth,
                    numeral,
                    if ended {
                        ";"@
                    } else {
                        Seq::empty()
                    },
                ),
                0,
            ),
        ) == Ok::<Seq<ExprV>, Seq<char>>(seq![ExprV::Num { value: numeral }]),
{
    reveal_strlit(";");
    let rest = if ended {
        ";"@
    } else {
        Seq::empty()
    };
    let s = in_parentheses(depth, numeral, rest);
    let c = at(s, 0);
    let node = ExprV::Num { value: numeral };
    let count: nat = 2 * depth + 1;
    lemma_tokens_in_parentheses(depth, numeral, rest);
    lemma_peek(c);
    let c1 = peek_spec(c).1;
    assert(next_spec(c1) == next_spec(c));
    assert forall|i: nat| #![auto] token_from(c1, i) == token_from(c, i) by {
        if i > 0 {
            assert(after(c1, i) == after(next_spec(c1).1, (i - 1) as nat));
            assert(after(c, i) == after(next_spec(c).1, (i - 1) as nat));
        }
    }
    assert(wrapped_numeral(c1, depth, numeral));
    assert(after(c1, count) == after(c, count)) by {
        assert(after(c1, count) == after(next_spec(c1).1, (count - 1) as nat));
        assert(after(c, count) == after(next_spec(c).1, (count - 1) as nat));
    }
    let last = after(c, count);
    law_parentheses_leave_no_trace(c1, depth, numeral);
    let end = peek_spec(last).1;
    assert(parse_expression_spec(c1) == (Ok::<ExprV, Seq<char>>(node), end));
    assert(token_from(c, 0).is_some());
    assert(peek_spec(c).0.is_some());
    lemma_peek(last);
    assert(Seq::<ExprV>::empty().push(node) =~= seq![node]);
    if ended {
        lemma_next(last);
        let c4 = next_spec(end).1;
        assert(c4 == at(s, s.len() as int));
        assert forall|i: nat| i < count implies (#[trigger] token_from(c, i)).is_some() by {}
        lemma_after(c, count);
        lemma_scan_bounds(s, s.len() as int);
        assert(skip_punc_spec(end, ";"@) == (None::<Seq<char>>, c4));
        assert(toplevel_spec(c4, seq![node]) == (Ok::<Seq<ExprV>, Seq<char>>(seq![node]), c4));
    }
}

} // verus!
