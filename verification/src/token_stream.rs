//! The scanner: from characters to tokens, one token of lookahead.

use vstd::prelude::*;
use vstd::string::StringExecFns;
use crate::chars::{
    is_digit, is_id, is_id_start, is_op_char, is_punc, is_whitespace, spec_is_digit, spec_is_id,
    spec_is_id_start, spec_is_op_char, spec_is_punc, spec_is_whitespace,
};
use crate::input_stream::{col_at, line_at, located, InputStream};
use crate::text::text_is;
use crate::token::{Token, TokenKind, TokenV};

verus! {

/// The end of the longest run of characters of `class` that starts at `pos`.
pub open spec fn class_run(class: spec_fn(char) -> bool, s: Seq<char>, pos: int) -> int
    decreases s.len() - pos,
{
    if 0 <= pos < s.len() && class(s[pos]) {
        class_run(class, s, pos + 1)
    } else {
        pos
    }
}

/// A run that holds only characters of `class` and cannot be extended is the
/// longest one.
pub proof fn lemma_class_run(class: spec_fn(char) -> bool, s: Seq<char>, pos: int, end: int)
    requires
        0 <= pos <= end <= s.len(),
        forall|i: int| pos <= i < end ==> class(#[trigger] s[i]),
        end < s.len() ==> !class(s[end]),
    ensures
        class_run(class, s, pos) == end,
    decreases end - pos,
{
    if pos < end {
        lemma_class_run(class, s, pos + 1, end);
    }
}

/// The position of the first character at or after `pos` that is neither
/// whitespace nor part of a `#` comment, which runs to the end of its line.
pub open spec fn skip_blanks(s: Seq<char>, pos: int, in_comment: bool) -> int
    decreases s.len() - pos,
{
    if pos < 0 || pos >= s.len() {
        pos
    } else if in_comment {
        skip_blanks(s, pos + 1, s[pos] != '\n')
    } else if spec_is_whitespace(s[pos]) {
        skip_blanks(s, pos + 1, false)
    } else if s[pos] == '#' {
        skip_blanks(s, pos + 1, true)
    } else {
        pos
    }
}

/// Reads the body of a string literal from `pos`, just after the opening
/// quote: a backslash makes the next character literal, an unescaped quote
/// ends the string. Gives the content behind `acc` and the position after
/// the closing quote, or `None` where the text ends first.
pub open spec fn string_scan(s: Seq<char>, pos: int, acc: Seq<char>) -> Option<(Seq<char>, int)>
    decreases s.len() - pos,
{
    if pos < 0 || pos >= s.len() {
        None
    } else if s[pos] == '\\' {
        if pos + 1 >= s.len() {
            None
        } else {
            string_scan(s, pos + 2, acc.push(s[pos + 1]))
        }
    } else if s[pos] == '"' {
        Some((acc, pos + 1))
    } else {
        string_scan(s, pos + 1, acc.push(s[pos]))
    }
}

/// The keywords of the language.
pub open spec fn is_keyword_text(t: Seq<char>) -> bool {
    t == "if"@ || t == "then"@ || t == "else"@ || t == "lambda"@ || t == "\u{3bb}"@ || t == "true"@
        || t == "false"@
}

/// How `{:?}` writes a character.
pub uninterp spec fn char_debug(c: char) -> Seq<char>;

/// The text of a syntax error raised at position `at` of `s`.
pub open spec fn syntax_error_text(msg: Seq<char>, s: Seq<char>, at: int) -> Seq<char> {
    located("SYNTAX ERROR: "@ + msg, line_at(s, at), col_at(s, at))
}

/// What scanning finds at a position.
pub enum Scanned {
    /// Only blanks are left.
    End,
    /// A token, and the position after it.
    Token { token: TokenV, end: int },
    /// A lexical error with its diagnostic, and where the scanner stopped.
    Failure { message: Seq<char>, at: int },
}

/// The token that starts at `p`, a position that holds no blank.
pub open spec fn token_at(s: Seq<char>, p: int) -> Scanned {
    let c = s[p];
    if c == '"' {
        match string_scan(s, p + 1, Seq::empty()) {
            Some((content, end)) => Scanned::Token {
                token: TokenV { kind: TokenKind::Str, text: content },
                end,
            },
            None => Scanned::Failure {
                message: syntax_error_text("Unterminated string"@, s, s.len() as int),
                at: s.len() as int,
            },
        }
    } else if spec_is_digit(c) {
        let whole = class_run(|c: char| spec_is_digit(c), s, p);
        let end = if whole < s.len() && s[whole] == '.' {
            class_run(|c: char| spec_is_digit(c), s, whole + 1)
        } else {
            whole
        };
        Scanned::Token { token: TokenV { kind: TokenKind::Num, text: s.subrange(p, end) }, end }
    } else if spec_is_id_start(c) {
        let end = class_run(|c: char| spec_is_id(c), s, p);
        let text = s.subrange(p, end);
        Scanned::Token {
            token: TokenV {
                kind: if is_keyword_text(text) {
                    TokenKind::Kw
                } else {
                    TokenKind::Var
                },
                text,
            },
            end,
        }
    } else if spec_is_punc(c) {
        Scanned::Token { token: TokenV { kind: TokenKind::Punc, text: seq![c] }, end: p + 1 }
    } else if spec_is_op_char(c) {
        let end = class_run(|c: char| spec_is_op_char(c), s, p);
        Scanned::Token { token: TokenV { kind: TokenKind::Op, text: s.subrange(p, end) }, end }
    } else {
        Scanned::Failure {
            message: syntax_error_text("Can't handle character: "@ + char_debug(c), s, p),
            at: p,
        }
    }
}

/// What scanning from `pos` finds, blanks and comments skipped.
#[verifier::opaque]
pub open spec fn scan(s: Seq<char>, pos: int) -> Scanned {
    let p = skip_blanks(s, pos, false);
    if 0 <= p < s.len() {
        token_at(s, p)
    } else {
        Scanned::End
    }
}

/// The state of a token stream: the text, the position of the scanner, the
/// token that a peek has read ahead, and the diagnostic of a lexical error
/// once one was met.
pub struct Cursor {
    pub text: Seq<char>,
    pub pos: int,
    pub cached: Option<TokenV>,
    pub failure: Option<Seq<char>>,
}

/// The token that a peek shows, and the state after it. A lexical error
/// shows as the error token, once; after it the stream is at its end.
pub open spec fn peek_spec(c: Cursor) -> (Option<TokenV>, Cursor) {
    if c.cached.is_some() {
        (c.cached, c)
    } else if c.failure.is_some() {
        (None, c)
    } else {
        match scan(c.text, c.pos) {
            Scanned::End => (None, Cursor { pos: c.text.len() as int, ..c }),
            Scanned::Token { token, end } => (
                Some(token),
                Cursor { pos: end, cached: Some(token), ..c },
            ),
            Scanned::Failure { message, at } => (
                Some(Token::Error@),
                Cursor { pos: at, cached: Some(Token::Error@), failure: Some(message), ..c },
            ),
        }
    }
}

/// A measure of what is left to scan: it never grows, and falls with each
/// token that is consumed.
pub open spec fn budget(c: Cursor) -> nat {
    let chars: nat = if 0 <= c.pos <= c.text.len() {
        (2 * (c.text.len() - c.pos)) as nat
    } else {
        0
    };
    chars + (if c.cached.is_some() {
        1nat
    } else {
        0nat
    }) + (if c.failure.is_none() {
        1nat
    } else {
        0nat
    })
}

/// The token that is consumed next, and the state after it.
pub open spec fn next_spec(c: Cursor) -> (Option<TokenV>, Cursor) {
    let (t, after) = peek_spec(c);
    (t, Cursor { cached: None, ..after })
}

/// Whether the scanner's position lies within the text, and the diagnostic
/// of a lexical error, where there is one, is not empty.
pub open spec fn within(c: Cursor) -> bool {
    &&& 0 <= c.pos <= c.text.len()
    &&& c.failure.is_some() ==> c.failure.unwrap().len() > 0
}

/// A diagnostic is never empty.
pub proof fn lemma_located_is_not_empty(msg: Seq<char>, line: nat, col: nat)
    ensures
        located(msg, line, col).len() > 0,
{
    reveal_strlit(" at line ");
}

/// Skipping blanks moves forward and stays within the text.
pub proof fn lemma_skip_blanks_bounds(s: Seq<char>, pos: int, in_comment: bool)
    requires
        0 <= pos <= s.len(),
    ensures
        pos <= skip_blanks(s, pos, in_comment) <= s.len(),
    decreases s.len() - pos,
{
    if pos < s.len() {
        if in_comment {
            lemma_skip_blanks_bounds(s, pos + 1, s[pos] != '\n');
        } else if spec_is_whitespace(s[pos]) {
            lemma_skip_blanks_bounds(s, pos + 1, false);
        } else if s[pos] == '#' {
            lemma_skip_blanks_bounds(s, pos + 1, true);
        }
    }
}

/// A run ends within the text, and behind its first character where that
/// one is of the class.
pub proof fn lemma_class_run_bounds(class: spec_fn(char) -> bool, s: Seq<char>, pos: int)
    requires
        0 <= pos <= s.len(),
    ensures
        pos <= class_run(class, s, pos) <= s.len(),
        pos < s.len() && class(s[pos]) ==> pos < class_run(class, s, pos),
    decreases s.len() - pos,
{
    if pos < s.len() && class(s[pos]) {
        lemma_class_run_bounds(class, s, pos + 1);
    }
}

/// A string literal ends within the text, behind where its body starts.
pub proof fn lemma_string_scan_bounds(s: Seq<char>, pos: int, acc: Seq<char>)
    requires
        0 <= pos <= s.len(),
    ensures
        match string_scan(s, pos, acc) {
            Some((_, end)) => pos < end <= s.len(),
            None => true,
        },
    decreases s.len() - pos,
{
    if pos < s.len() {
        if s[pos] == '\\' {
            if pos + 1 < s.len() {
                lemma_string_scan_bounds(s, pos + 2, acc.push(s[pos + 1]));
            }
        } else if s[pos] != '"' {
            lemma_string_scan_bounds(s, pos + 1, acc.push(s[pos]));
        }
    }
}

/// A token ends within the text and behind where scanning began; a lexical
/// error stops the scanner within the text; at the end of the text only
/// the end is found.
pub proof fn lemma_scan_bounds(s: Seq<char>, pos: int)
    requires
        0 <= pos <= s.len(),
    ensures
        match scan(s, pos) {
            Scanned::Token { token, end } => pos < end <= s.len(),
            Scanned::Failure { message, at } => pos <= at <= s.len() && message.len() > 0,
            Scanned::End => true,
        },
        pos == s.len() ==> scan(s, pos) == Scanned::End,
{
    reveal(scan);
    assert forall|msg: Seq<char>, at: int| #![auto] syntax_error_text(msg, s, at).len() > 0 by {
        lemma_located_is_not_empty("SYNTAX ERROR: "@ + msg, line_at(s, at), col_at(s, at));
    }
    lemma_skip_blanks_bounds(s, pos, false);
    let p = skip_blanks(s, pos, false);
    if p < s.len() {
        let c = s[p];
        lemma_string_scan_bounds(s, p + 1, Seq::empty());
        let digit = |c: char| spec_is_digit(c);
        lemma_class_run_bounds(digit, s, p);
        let whole = class_run(digit, s, p);
        if whole < s.len() {
            lemma_class_run_bounds(digit, s, whole + 1);
        }
        lemma_class_run_bounds(|c: char| spec_is_id(c), s, p);
        lemma_class_run_bounds(|c: char| spec_is_op_char(c), s, p);
    }
}

/// A peek keeps the scanner within the text and does not raise the
/// measure; the token it shows is the one that is consumed next, and a
/// second peek shows it again.
pub proof fn lemma_peek(c: Cursor)
    requires
        within(c),
    ensures
        within(peek_spec(c).1),
        peek_spec(c).1.text == c.text,
        budget(peek_spec(c).1) <= budget(c),
        peek_spec(peek_spec(c).1) == peek_spec(c),
        next_spec(peek_spec(c).1) == next_spec(c),
        next_spec(c).0 == peek_spec(c).0,
{
    lemma_scan_bounds(c.text, c.pos);
    lemma_scan_bounds(c.text, c.text.len() as int);
}

/// Consuming a token keeps the scanner within the text and lowers the
/// measure; at the end of the tokens the measure does not rise.
pub proof fn lemma_next(c: Cursor)
    requires
        within(c),
    ensures
        within(next_spec(c).1),
        next_spec(c).1.text == c.text,
        budget(next_spec(c).1) <= budget(c),
        next_spec(c).0.is_some() ==> budget(next_spec(c).1) < budget(c),
{
    lemma_scan_bounds(c.text, c.pos);
}

/// The view of an optional token.
pub open spec fn token_view(t: Option<Token>) -> Option<TokenV> {
    match t {
        Some(t) => Some(t@),
        None => None,
    }
}

/// The view of an optional text.
pub open spec fn text_view(t: Option<String>) -> Option<Seq<char>> {
    match t {
        Some(t) => Some(t@),
        None => None,
    }
}

/// A scanner over an input stream, with the token that a peek has read
/// ahead and the diagnostic of a lexical error.
pub struct TokenStream {
    current: Option<Token>,
    input: InputStream,
    failure: Option<String>,
}

impl View for TokenStream {
    type V = Cursor;

    closed spec fn view(&self) -> Cursor {
        Cursor {
            text: self.input.text(),
            pos: self.input.pos() as int,
            cached: token_view(self.current),
            failure: text_view(self.failure),
        }
    }
}

/// Writes a character as `{:?}` does (`format!`).
#[verifier::external_body]
fn debug_char(c: char) -> (r: String)
    ensures
        r@ == char_debug(c),
{
    format!("{:?}", c)
}

impl TokenStream {
    /// The scanner lies within its text.
    pub closed spec fn wf(&self) -> bool {
        self.input.wf()
    }

    /// A token stream that scans `input` from its cursor on.
    pub fn new(input: InputStream) -> (r: TokenStream)
        requires
            input.wf(),
        ensures
            r.wf(),
            r@ == (Cursor {
                text: input.text(),
                pos: input.pos() as int,
                cached: None,
                failure: None,
            }),
    {
        TokenStream { current: None, input, failure: None }
    }

    /// Returns the next token and consumes it.
    pub fn next(&mut self) -> (r: Option<Token>)
        requires
            old(self).wf(),
        ensures
            final(self).wf(),
            (token_view(r), final(self)@) == next_spec(old(self)@),
            budget(final(self)@) <= budget(old(self)@),
            r.is_some() ==> budget(final(self)@) < budget(old(self)@),
    {
        let r = self.peek();
        self.current = None;
        r
    }

    /// Returns the next token without consuming it.
    pub fn peek(&mut self) -> (r: Option<Token>)
        requires
            old(self).wf(),
        ensures
            final(self).wf(),
            (token_view(r), final(self)@) == peek_spec(old(self)@),
            budget(final(self)@) <= budget(old(self)@),
    {
        proof {
            self.input.lemma_cursor_in_text();
        }
        if self.current.is_none() && self.failure.is_none() {
            self.current = self.read_next();
        }
        match &self.current {
            Some(t) => Some(t.clone()),
            None => None,
        }
    }

    /// Whether no token is left.
    pub fn is_eof(&mut self) -> (r: bool)
        requires
            old(self).wf(),
        ensures
            final(self).wf(),
            final(self)@ == peek_spec(old(self)@).1,
            r == peek_spec(old(self)@).0.is_none(),
            budget(final(self)@) <= budget(old(self)@),
    {
        self.peek().is_none()
    }

    /// The diagnostic of the lexical error that ended the stream, if any.
    pub fn diagnostic(&self) -> (r: Option<String>)
        ensures
            text_view(r) == self@.failure,
    {
        match &self.failure {
            Some(m) => Some(m.clone()),
            None => None,
        }
    }

    /// The diagnostic for `msg` at the scanner's position.
    pub fn croak(&self, msg: &str) -> (r: String)
        requires
            self.wf(),
        ensures
            r@ == located(msg@, line_at(self@.text, self@.pos), col_at(self@.text, self@.pos)),
    {
        self.input.croak(msg)
    }

    /// The diagnostic of a syntax error at the scanner's position.
    pub fn syntax_error(&self, msg: &str) -> (r: String)
        requires
            self.wf(),
        ensures
            r@ == syntax_error_text(msg@, self@.text, self@.pos),
    {
        let mut full = String::from_str("SYNTAX ERROR: ");
        full.append(msg);
        self.input.croak(full.as_str())
    }

    fn read_next(&mut self) -> (r: Option<Token>)
        requires
            old(self).wf(),
            old(self).current.is_none(),
            old(self).failure.is_none(),
        ensures
            final(self).wf(),
            final(self).current.is_none(),
            final(self).input.text() == old(self).input.text(),
            old(self).input.pos() <= final(self).input.pos() <= final(self).input.text().len(),
            match scan(old(self).input.text(), old(self).input.pos() as int) {
                Scanned::End => {
                    &&& r.is_none()
                    &&& final(self).failure.is_none()
                    &&& final(self).input.pos() == old(self).input.text().len()
                },
                Scanned::Token { token, end } => {
                    &&& r.is_some()
                    &&& r.unwrap()@ == token
                    &&& final(self).failure.is_none()
                    &&& final(self).input.pos() == end
                    &&& old(self).input.pos() < end
                },
                Scanned::Failure { message, at } => {
                    &&& r == Some(Token::Error)
                    &&& text_view(final(self).failure) == Some(message)
                    &&& final(self).input.pos() == at
                },
            },
    {
        reveal(scan);
        self.skip_blanks();
        let ch = match self.input.peek() {
            Some(c) => c,
            None => {
                return None;
            },
        };
        if ch == '"' {
            return Some(self.read_string());
        }
        if is_digit(&ch) {
            return Some(self.read_number());
        }
        if is_id_start(&ch) {
            return Some(self.read_identifier());
        }
        if is_punc(&ch) {
            self.input.next();
            let mut value = String::new();
            value.push(ch);
            return Some(Token::Punc { value });
        }
        if is_op_char(&ch) {
            let ghost s = self.input.text();
            let ghost p = self.input.pos() as int;
            let value = self.input.read_while(is_op_char);
            proof {
                lemma_class_run(|c: char| spec_is_op_char(c), s, p, self.input.pos() as int);
            }
            return Some(Token::Op { value });
        }
        let mut msg = String::from_str("Can't handle character: ");
        let shown = debug_char(ch);
        msg.append(shown.as_str());
        self.failure = Some(self.syntax_error(msg.as_str()));
        Some(Token::Error)
    }

    fn skip_blanks(&mut self)
        requires
            old(self).wf(),
        ensures
            final(self).wf(),
            final(self).current == old(self).current,
            final(self).failure == old(self).failure,
            final(self).input.text() == old(self).input.text(),
            old(self).input.pos() <= final(self).input.pos() <= final(self).input.text().len(),
            final(self).input.pos() == skip_blanks(
                old(self).input.text(),
                old(self).input.pos() as int,
                false,
            ),
    {
        let mut in_comment = false;
        proof {
            self.input.lemma_cursor_in_text();
        }
        let ghost s = self.input.text();
        let ghost start = self.input.pos() as int;
        loop
            invariant
                self.input.wf(),
                self.current == old(self).current,
                self.failure == old(self).failure,
                self.input.text() == s,
                start <= self.input.pos() <= s.len(),
                skip_blanks(s, start, false) == skip_blanks(s, self.input.pos() as int, in_comment),
            ensures
                self.input.wf(),
                self.current == old(self).current,
                self.failure == old(self).failure,
                self.input.text() == s,
                start <= self.input.pos() <= s.len(),
                self.input.pos() == skip_blanks(s, start, false),
            decreases s.len() - self.input.pos(),
        {
            match self.input.peek() {
                None => {
                    break;
                },
                Some(c) => {
                    if in_comment {
                        self.input.next();
                        in_comment = c != '\n';
                    } else if is_whitespace(&c) {
                        self.input.next();
                    } else if c == '#' {
                        self.input.next();
                        in_comment = true;
                    } else {
                        break;
                    }
                },
            }
        }
    }

    fn read_string(&mut self) -> (r: Token)
        requires
            old(self).wf(),
            old(self).failure.is_none(),
            old(self).input.current() == Some('"'),
        ensures
            final(self).wf(),
            final(self).current == old(self).current,
            final(self).input.text() == old(self).input.text(),
            old(self).input.pos() < final(self).input.pos() <= final(self).input.text().len(),
            match string_scan(
                old(self).input.text(),
                (old(self).input.pos() + 1) as int,
                Seq::empty(),
            ) {
                Some((content, end)) => {
                    &&& r == (Token::Str { value: r->Str_value })
                    &&& r->Str_value@ == content
                    &&& final(self).input.pos() == end
                    &&& final(self).failure.is_none()
                },
                None => {
                    &&& r == Token::Error
                    &&& final(self).input.pos() == old(self).input.text().len()
                    &&& text_view(final(self).failure) == Some(
                        syntax_error_text(
                            "Unterminated string"@,
                            old(self).input.text(),
                            old(self).input.text().len() as int,
                        ),
                    )
                },
            },
    {
        self.input.next();
        let mut escaped = false;
        let mut string = String::new();
        let ghost s = self.input.text();
        let ghost start = self.input.pos() as int;
        loop
            invariant
                self.input.wf(),
                self.current == old(self).current,
                self.failure.is_none(),
                self.input.text() == s,
                s == old(self).input.text(),
                start == old(self).input.pos() + 1,
                0 <= start <= self.input.pos() <= s.len(),
                !escaped ==> string_scan(s, start, Seq::empty()) == string_scan(
                    s,
                    self.input.pos() as int,
                    string@,
                ),
                escaped ==> string_scan(s, start, Seq::empty()) == (if self.input.pos()
                    >= s.len() {
                    None
                } else {
                    string_scan(
                        s,
                        (self.input.pos() + 1) as int,
                        string@.push(s[self.input.pos() as int]),
                    )
                }),
            decreases s.len() - self.input.pos(),
        {
            match self.input.next() {
                Some(c) => {
                    if escaped {
                        string.push(c);
                        escaped = false;
                    } else if c == '\\' {
                        escaped = true;
                    } else if c == '"' {
                        return Token::Str { value: string };
                    } else {
                        string.push(c);
                    }
                },
                None => {
                    self.failure = Some(self.syntax_error("Unterminated string"));
                    return Token::Error;
                },
            }
        }
    }

    fn read_number(&mut self) -> (r: Token)
        requires
            old(self).wf(),
            old(self).input.pos() < old(self).input.text().len(),
            spec_is_digit(old(self).input.text()[old(self).input.pos() as int]),
        ensures
            final(self).wf(),
            final(self).current == old(self).current,
            final(self).failure == old(self).failure,
            final(self).input.text() == old(self).input.text(),
            old(self).input.pos() < final(self).input.pos() <= final(self).input.text().len(),
            ({
                let s = old(self).input.text();
                let p = old(self).input.pos() as int;
                let whole = class_run(|c: char| spec_is_digit(c), s, p);
                let end = if whole < s.len() && s[whole] == '.' {
                    class_run(|c: char| spec_is_digit(c), s, whole + 1)
                } else {
                    whole
                };
                r == (Token::Num { value: r->Num_value }) && r->Num_value@ == s.subrange(p, end)
                    && final(self).input.pos() == end
            }),
    {
        let ghost s = self.input.text();
        let ghost p = self.input.pos() as int;
        let mut number = self.input.read_while(is_digit);
        let ghost whole = self.input.pos() as int;
        proof {
            lemma_class_run(|c: char| spec_is_digit(c), s, p, whole);
        }
        if let Some(c) = self.input.peek() {
            if c == '.' {
                number.push('.');
                self.input.next();
                let rest = self.input.read_while(is_digit);
                number.append(rest.as_str());
                proof {
                    lemma_class_run(
                        |c: char| spec_is_digit(c),
                        s,
                        whole + 1,
                        self.input.pos() as int,
                    );
                    assert(number@ =~= s.subrange(p, self.input.pos() as int));
                }
            }
        }
        Token::Num { value: number }
    }

    fn read_identifier(&mut self) -> (r: Token)
        requires
            old(self).wf(),
            old(self).input.pos() < old(self).input.text().len(),
            spec_is_id_start(old(self).input.text()[old(self).input.pos() as int]),
        ensures
            final(self).wf(),
            final(self).current == old(self).current,
            final(self).failure == old(self).failure,
            final(self).input.text() == old(self).input.text(),
            old(self).input.pos() < final(self).input.pos() <= final(self).input.text().len(),
            ({
                let s = old(self).input.text();
                let p = old(self).input.pos() as int;
                let end = class_run(|c: char| spec_is_id(c), s, p);
                let text = s.subrange(p, end);
                &&& final(self).input.pos() == end
                &&& is_keyword_text(text) ==> r == (Token::Kw { value: r->Kw_value })
                    && r->Kw_value@ == text
                &&& !is_keyword_text(text) ==> r == (Token::Var { value: r->Var_value })
                    && r->Var_value@ == text
            }),
    {
        let ghost s = self.input.text();
        let ghost p = self.input.pos() as int;
        let id = self.input.read_while(is_id);
        proof {
            lemma_class_run(|c: char| spec_is_id(c), s, p, self.input.pos() as int);
        }
        if is_keyword(&id) {
            Token::Kw { value: id }
        } else {
            Token::Var { value: id }
        }
    }
}

/// Whether `id` is one of the keywords.
pub fn is_keyword(id: &String) -> (r: bool)
    ensures
        r == is_keyword_text(id@),
{
    text_is(id, "if") || text_is(id, "then") || text_is(id, "else") || text_is(id, "lambda")
        || text_is(id, "\u{3bb}") || text_is(id, "true") || text_is(id, "false")
}

} // verus!
