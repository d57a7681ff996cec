use lambda_lang::input_stream::InputStream;
use lambda_lang::token::Token;
use lambda_lang::token_stream::{is_keyword, TokenStream};

fn stream(input: &str) -> TokenStream {
    TokenStream::new(InputStream::new(String::from(input)))
}

fn tokens_of(input: &str) -> Vec<Token> {
    let mut stream = stream(input);
    let mut out = Vec::new();
    while let Some(token) = stream.next() {
        out.push(token);
    }
    out
}

fn kw(value: &str) -> Token {
    Token::Kw { value: String::from(value) }
}

fn num(value: &str) -> Token {
    Token::Num { value: String::from(value) }
}

fn op(value: &str) -> Token {
    Token::Op { value: String::from(value) }
}

fn punc(value: &str) -> Token {
    Token::Punc { value: String::from(value) }
}

fn string(value: &str) -> Token {
    Token::Str { value: String::from(value) }
}

fn var(value: &str) -> Token {
    Token::Var { value: String::from(value) }
}

#[test]
fn scanner_reads_operators_as_maximal_runs() {
    assert_eq!(
        tokens_of("a <= 12.5 && b"),
        vec![var("a"), op("<="), num("12.5"), op("&&"), var("b")]
    );
    assert_eq!(tokens_of("1+-2"), vec![num("1"), op("+-"), num("2")]);
    assert_eq!(tokens_of("!a"), vec![op("!"), var("a")]);
}

#[test]
fn scanner_reads_every_kind_of_token() {
    assert_eq!(
        tokens_of("if x then \"s\" else lambda (a, b) { 1; };"),
        vec![
            kw("if"),
            var("x"),
            kw("then"),
            string("s"),
            kw("else"),
            kw("lambda"),
            punc("("),
            var("a"),
            punc(","),
            var("b"),
            punc(")"),
            punc("{"),
            num("1"),
            punc(";"),
            punc("}"),
            punc(";"),
        ]
    );
    assert_eq!(
        tokens_of("true false \u{3bb} [ ]"),
        vec![kw("true"), kw("false"), kw("\u{3bb}"), punc("["), punc("]")]
    );
}

#[test]
fn identifiers_take_digits_and_marks() {
    assert_eq!(
        tokens_of("is-ok? x1 a<=b _p!"),
        vec![var("is-ok?"), var("x1"), var("a<=b"), var("_p!")]
    );
    assert_eq!(tokens_of("iffy lambdas"), vec![var("iffy"), var("lambdas")]);
}

#[test]
fn numbers_take_one_point() {
    assert_eq!(tokens_of("12"), vec![num("12")]);
    assert_eq!(tokens_of("12.50"), vec![num("12.50")]);
    assert_eq!(tokens_of("1. "), vec![num("1.")]);
    assert_eq!(tokens_of("1x"), vec![num("1"), var("x")]);
}

#[test]
fn a_second_point_is_no_part_of_a_number() {
    let mut stream = stream("1.2.3");
    assert_eq!(Some(num("1.2")), stream.next());
    assert_eq!(Some(Token::Error), stream.next());
    assert_eq!(
        Some(String::from("SYNTAX ERROR: Can't handle character: '.' at line 1, col 4")),
        stream.diagnostic()
    );
    assert_eq!(None, stream.next());
}

#[test]
fn blanks_and_comments_are_skipped() {
    assert_eq!(tokens_of("  \t\n 1 # one\n# two\n\n2#three"), vec![num("1"), num("2")]);
    assert_eq!(tokens_of("# only a comment"), vec![]);
    assert_eq!(tokens_of(""), vec![]);
    assert_eq!(tokens_of(" \n "), vec![]);
}

#[test]
fn a_backslash_makes_the_next_character_literal() {
    assert_eq!(tokens_of("\"a\\\"b\""), vec![string("a\"b")]);
    assert_eq!(tokens_of("\"a\\nb\""), vec![string("anb")]);
    assert_eq!(tokens_of("\"a\\\\\""), vec![string("a\\")]);
    assert_eq!(tokens_of("\"\""), vec![string("")]);
    assert_eq!(tokens_of("\"# no comment\""), vec![string("# no comment")]);
}

#[test]
fn peek_caches_the_token() {
    let mut stream = stream("a b");
    assert!(!stream.is_eof());
    assert_eq!(Some(var("a")), stream.peek());
    assert_eq!(Some(var("a")), stream.peek());
    assert_eq!(Some(var("a")), stream.next());
    assert_eq!(Some(var("b")), stream.next());
    assert_eq!(None, stream.peek());
    assert!(stream.is_eof());
    assert_eq!(None, stream.next());
    assert_eq!(None, stream.diagnostic());
}

#[test]
fn an_unterminated_string_ends_the_stream() {
    let mut stream = stream("x \"abc");
    assert_eq!(Some(var("x")), stream.next());
    assert_eq!(Some(Token::Error), stream.peek());
    assert_eq!(Some(Token::Error), stream.next());
    assert_eq!(
        Some(String::from("SYNTAX ERROR: Unterminated string at line 1, col 7")),
        stream.diagnostic()
    );
    assert_eq!(None, stream.next());
    assert!(stream.is_eof());
}

#[test]
fn an_unknown_character_is_shown_as_debug_shows_it() {
    let mut stream = stream("\n  \u{e9}");
    assert_eq!(Some(Token::Error), stream.next());
    assert_eq!(
        Some(format!(
            "SYNTAX ERROR: Can't handle character: {:?} at line 2, col 3",
            '\u{e9}'
        )),
        stream.diagnostic()
    );
    let mut stream = stream_of_tab();
    assert_eq!(Some(Token::Error), stream.next());
    assert_eq!(
        Some(String::from("SYNTAX ERROR: Can't handle character: '\\u{7f}' at line 1, col 1")),
        stream.diagnostic()
    );
}

fn stream_of_tab() -> TokenStream {
    stream("\u{7f}")
}

#[test]
fn diagnostics_name_the_position_of_the_scanner() {
    let mut stream = stream("ab\n  cd");
    assert_eq!("m at line 1, col 1", stream.croak("m"));
    stream.peek();
    assert_eq!("m at line 1, col 3", stream.croak("m"));
    stream.next();
    stream.next();
    assert_eq!("SYNTAX ERROR: m at line 2, col 5", stream.syntax_error("m"));
}

#[test]
fn tokens_show_their_text() {
    assert_eq!("if", kw("if").to_text());
    assert_eq!("1.50", num("1.50").to_text());
    assert_eq!("<=", op("<=").to_text());
    assert_eq!(";", punc(";").to_text());
    assert_eq!("a b", string("a b").to_text());
    assert_eq!("x", var("x").to_text());
    assert_eq!("ERROR", Token::Error.to_text());
    assert_eq!(var("x"), var("x").clone());
}

#[test]
fn the_keywords_are_seven() {
    for word in ["if", "then", "else", "lambda", "\u{3bb}", "true", "false"] {
        assert!(is_keyword(&String::from(word)));
    }
    for word in ["If", "iff", "", "lambd", "truee", "\u{3bb}\u{3bb}"] {
        assert!(!is_keyword(&String::from(word)));
    }
}
