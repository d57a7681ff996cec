use lambda_lang::chars::{is_digit, is_id, is_id_start, is_op_char, is_punc, is_whitespace};
use lambda_lang::input_stream::InputStream;
use lambda_lang::text::{decimal_text, text_is};

#[test]
fn peek_does_not_consume() {
    let mut input = InputStream::new(String::from("ab"));
    assert_eq!(Some('a'), input.peek());
    assert_eq!(Some('a'), input.peek());
    assert_eq!(Some('a'), input.next());
    assert_eq!(Some('b'), input.peek());
    assert_eq!(Some('b'), input.next());
    assert_eq!(None, input.peek());
    assert_eq!(None, input.next());
    assert_eq!(None, input.next());
}

#[test]
fn an_empty_text_has_no_character() {
    let mut input = InputStream::new(String::new());
    assert_eq!(None, input.peek());
    assert_eq!(None, input.next());
    assert_eq!("oops at line 1, col 1", input.croak("oops"));
}

#[test]
fn read_while_takes_the_longest_run() {
    let mut input = InputStream::new(String::from("123abc"));
    assert_eq!("123", input.read_while(is_digit));
    assert_eq!(Some('a'), input.peek());
    assert_eq!("", input.read_while(is_digit));
    assert_eq!("abc", input.read_while(|c: &char| *c != ';'));
    assert_eq!(None, input.peek());
    assert_eq!("", input.read_while(|_c: &char| true));
}

#[test]
fn croak_reports_line_and_column() {
    let mut input = InputStream::new(String::from("ab\ncd\n\nxyz"));
    assert_eq!("here at line 1, col 1", input.croak("here"));
    input.next();
    assert_eq!("here at line 1, col 2", input.croak("here"));
    input.next();
    assert_eq!("here at line 1, col 3", input.croak("here"));
    input.next();
    assert_eq!("here at line 2, col 1", input.croak("here"));
    input.read_while(|c: &char| *c != 'z');
    assert_eq!("here at line 4, col 3", input.croak("here"));
    input.next();
    input.next();
    assert_eq!("here at line 4, col 4", input.croak("here"));
}

#[test]
fn characters_beyond_ascii_count_as_one_column() {
    let mut input = InputStream::new(String::from("\u{3bb}\u{e9}x"));
    assert_eq!(Some('\u{3bb}'), input.next());
    assert_eq!(Some('\u{e9}'), input.next());
    assert_eq!("m at line 1, col 3", input.croak("m"));
    assert_eq!(Some('x'), input.next());
}

#[test]
fn character_classes() {
    for c in [' ', '\t', '\n', '\r', '\x0c'] {
        assert!(is_whitespace(&c));
    }
    assert!(!is_whitespace(&'\x0b'));
    assert!(!is_whitespace(&'a'));
    for c in ",;(){}[]".chars() {
        assert!(is_punc(&c));
        assert!(!is_op_char(&c));
    }
    for c in "+-*/%=&|<>!".chars() {
        assert!(is_op_char(&c));
        assert!(!is_punc(&c));
    }
    assert!(!is_op_char(&'^'));
    for c in "0123456789".chars() {
        assert!(is_digit(&c));
        assert!(is_id(&c));
        assert!(!is_id_start(&c));
    }
    assert!(!is_digit(&'/'));
    assert!(!is_digit(&':'));
    for c in "azAZ_\u{3bb}".chars() {
        assert!(is_id_start(&c));
        assert!(is_id(&c));
    }
    for c in "?!-<>=".chars() {
        assert!(is_id(&c));
        assert!(!is_id_start(&c));
    }
    for c in "@[`{ \u{e9}".chars() {
        assert!(!is_id_start(&c));
        assert!(!is_id(&c));
    }
}

#[test]
fn decimal_text_writes_numerals() {
    assert_eq!("0", decimal_text(0));
    assert_eq!("7", decimal_text(7));
    assert_eq!("10", decimal_text(10));
    assert_eq!("1234567890", decimal_text(1234567890));
    assert_eq!(
        "340282366920938463463374607431768211455",
        decimal_text(u128::MAX)
    );
}

#[test]
fn text_is_compares_contents() {
    assert!(text_is(&String::from("then"), "then"));
    assert!(!text_is(&String::from("then"), "the"));
    assert!(!text_is(&String::from(""), "x"));
}
