//! Character classes of the language's lexical grammar.

use vstd::prelude::*;

verus! {

/// The lambda glyph, an alias of the keyword `lambda`.
pub open spec fn lambda_glyph() -> char {
    '\u{3bb}'
}

/// ASCII whitespace: space, tab, line feed, form feed, carriage return.
pub open spec fn spec_is_whitespace(c: char) -> bool {
    c == ' ' || c == '\t' || c == '\n' || c == '\x0c' || c == '\r'
}

/// The punctuation characters.
pub open spec fn spec_is_punc(c: char) -> bool {
    c == ',' || c == ';' || c == '(' || c == ')' || c == '{' || c == '}' || c == '[' || c == ']'
}

/// The characters of which operators are made.
pub open spec fn spec_is_op_char(c: char) -> bool {
    c == '+' || c == '-' || c == '*' || c == '/' || c == '%' || c == '=' || c == '&' || c == '|'
        || c == '<' || c == '>' || c == '!'
}

/// The ASCII decimal digits.
pub open spec fn spec_is_digit(c: char) -> bool {
    '0' <= c <= '9'
}

/// The ASCII letters.
pub open spec fn spec_is_letter(c: char) -> bool {
    ('a' <= c <= 'z') || ('A' <= c <= 'Z')
}

/// The characters that may begin an identifier.
pub open spec fn spec_is_id_start(c: char) -> bool {
    spec_is_letter(c) || c == '_' || c == lambda_glyph()
}

/// The characters that may continue an identifier.
pub open spec fn spec_is_id(c: char) -> bool {
    spec_is_id_start(c) || spec_is_digit(c) || c == '?' || c == '!' || c == '-' || c == '<'
        || c == '>' || c == '='
}

/// ASCII whitespace: space, tab, line feed, form feed, carriage return.
pub fn is_whitespace(c: &char) -> (r: bool)
    ensures
        r == spec_is_whitespace(*c),
{
    *c == ' ' || *c == '\t' || *c == '\n' || *c == '\x0c' || *c == '\r'
}

/// One of the punctuation characters `,;(){}[]`.
pub fn is_punc(c: &char) -> (r: bool)
    ensures
        r == spec_is_punc(*c),
{
    *c == ',' || *c == ';' || *c == '(' || *c == ')' || *c == '{' || *c == '}' || *c == '['
        || *c == ']'
}

/// One of the operator characters `+-*/%=&|<>!`.
pub fn is_op_char(c: &char) -> (r: bool)
    ensures
        r == spec_is_op_char(*c),
{
    *c == '+' || *c == '-' || *c == '*' || *c == '/' || *c == '%' || *c == '=' || *c == '&'
        || *c == '|' || *c == '<' || *c == '>' || *c == '!'
}

/// An ASCII decimal digit.
pub fn is_digit(c: &char) -> (r: bool)
    ensures
        r == spec_is_digit(*c),
{
    '0' <= *c && *c <= '9'
}

/// A character that may begin an identifier: an ASCII letter, `_` or the
/// lambda glyph.
pub fn is_id_start(c: &char) -> (r: bool)
    ensures
        r == spec_is_id_start(*c),
{
    ('a' <= *c && *c <= 'z') || ('A' <= *c && *c <= 'Z') || *c == '_' || *c == '\u{3bb}'
}

/// A character that may continue an identifier.
pub fn is_id(c: &char) -> (r: bool)
    ensures
        r == spec_is_id(*c),
{
    is_id_start(c) || is_digit(c) || *c == '?' || *c == '!' || *c == '-' || *c == '<' || *c == '>'
        || *c == '='
}

} // verus!
