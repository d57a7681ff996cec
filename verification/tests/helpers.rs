use lambda_lang::env::{define_in, find_in, Binding};
use lambda_lang::expr::{clone_exprs, exprs_equal, Expr};
use lambda_lang::interpreter::{
    apply_equality_op, apply_logical_op, apply_numeric_op, compare_numbers, is_arithmetic_op,
    is_comparison_op, is_equality_op, is_falsy, is_logical_op, joined, names_of, take_first,
    uncallable, Action, Control,
};
use lambda_lang::l_value::LValue;
use lambda_lang::number::Number;
use lambda_lang::parser::{block_of, fold, kw_is, precedence, punc_is};
use lambda_lang::token::Token;

fn n(value: f64) -> Number {
    Number::from_bits(value.to_bits())
}

fn number(value: f64) -> LValue {
    LValue::Num(n(value))
}

fn text(value: &str) -> String {
    String::from(value)
}

fn var(name: &str) -> Expr {
    Expr::Var { name: text(name) }
}

#[test]
fn arithmetic_on_two_numbers_is_asked_of_the_host() {
    for operator in ["+", "-", "*", "/", "%"] {
        assert_eq!(
            (
                Control::Waiting,
                Action::Arithmetic { operator: text(operator), left: n(1.0), right: n(2.0) }
            ),
            apply_numeric_op(text(operator), &number(1.0), &number(2.0))
        );
    }
}

#[test]
fn an_ordering_of_two_numbers_is_decided_at_once() {
    let cases = [("<", true), (">", false), ("<=", true), (">=", false)];
    for (operator, expected) in cases {
        assert_eq!(
            (Control::Value(LValue::Bool(expected)), Action::Continue),
            apply_numeric_op(text(operator), &number(1.0), &number(2.0))
        );
        assert_eq!(expected, compare_numbers(&text(operator), &n(1.0), &n(2.0)));
        assert_eq!(
            operator.len() == 2,
            compare_numbers(&text(operator), &n(2.0), &n(2.0))
        );
    }
}

#[test]
fn an_operator_that_is_not_numeric_cannot_be_applied_to_numbers() {
    assert_eq!(
        (Control::Failed(text("cannot apply numeric operator ^")), Action::Continue),
        apply_numeric_op(text("^"), &number(1.0), &number(2.0))
    );
}

#[test]
fn operands_that_are_not_numbers_are_refused() {
    assert_eq!(
        (Control::Failed(text("expected two numbers, got boolean - number")), Action::Continue),
        apply_numeric_op(text("-"), &LValue::Bool(true), &number(2.0))
    );
    assert_eq!(
        (Control::Failed(text("expected two numbers, got number >= native")), Action::Continue),
        apply_numeric_op(text(">="), &number(2.0), &LValue::Native(text("print")))
    );
}

#[test]
fn equality_operators_compare_values() {
    assert_eq!(
        Control::Value(LValue::Bool(true)),
        apply_equality_op(&text("=="), &number(0.0), &number(-0.0))
    );
    assert_eq!(
        Control::Value(LValue::Bool(false)),
        apply_equality_op(&text("!="), &number(0.0), &number(-0.0))
    );
    assert_eq!(
        Control::Value(LValue::Bool(true)),
        apply_equality_op(&text("!="), &number(f64::NAN), &number(f64::NAN))
    );
    assert_eq!(
        Control::Failed(text("cannot apply equality operator <>")),
        apply_equality_op(&text("<>"), &number(1.0), &number(1.0))
    );
}

#[test]
fn logical_operators_decide_by_the_left_operand() {
    assert_eq!(
        Control::Value(LValue::Bool(false)),
        apply_logical_op(&text("&&"), LValue::Bool(false), Expr::Error)
    );
    assert_eq!(
        Control::Eval(var("x")),
        apply_logical_op(&text("&&"), number(0.0), var("x"))
    );
    assert_eq!(
        Control::Eval(var("x")),
        apply_logical_op(&text("||"), LValue::Bool(false), var("x"))
    );
    assert_eq!(
        Control::Value(LValue::Str(text(""))),
        apply_logical_op(&text("||"), LValue::Str(text("")), Expr::Error)
    );
    assert_eq!(
        Control::Failed(text("cannot apply logical operator ^^")),
        apply_logical_op(&text("^^"), LValue::Bool(true), var("x"))
    );
}

#[test]
fn operators_fall_into_four_classes() {
    let classes: [(&str, [bool; 4]); 14] = [
        ("+", [true, false, false, false]),
        ("-", [true, false, false, false]),
        ("*", [true, false, false, false]),
        ("/", [true, false, false, false]),
        ("%", [true, false, false, false]),
        (">", [false, true, false, false]),
        ("<", [false, true, false, false]),
        ("<=", [false, true, false, false]),
        (">=", [false, true, false, false]),
        ("==", [false, false, true, false]),
        ("!=", [false, false, true, false]),
        ("&&", [false, false, false, true]),
        ("||", [false, false, false, true]),
        ("=", [false, false, false, false]),
    ];
    for (operator, expected) in classes {
        let operator = text(operator);
        assert_eq!(
            expected,
            [
                is_arithmetic_op(&operator),
                is_comparison_op(&operator),
                is_equality_op(&operator),
                is_logical_op(&operator),
            ]
        );
    }
}

#[test]
fn only_false_is_falsy() {
    assert!(is_falsy(&LValue::Bool(false)));
    assert!(!is_falsy(&LValue::Bool(true)));
    assert!(!is_falsy(&number(0.0)));
    assert!(!is_falsy(&LValue::Str(text(""))));
    assert!(!is_falsy(&LValue::Native(text("false"))));
}

#[test]
fn precedences_are_those_of_the_table() {
    let table = [
        ("=", 1),
        ("||", 2),
        ("&&", 3),
        ("<", 7),
        (">", 7),
        ("<=", 7),
        (">=", 7),
        ("==", 7),
        ("!=", 7),
        ("+", 10),
        ("-", 10),
        ("*", 20),
        ("/", 20),
        ("%", 20),
    ];
    for (operator, expected) in table {
        assert_eq!(Some(expected), precedence(&text(operator)));
    }
    for operator in ["!", "+-", "===", "", "&", "|"] {
        assert_eq!(None, precedence(&text(operator)));
    }
}

#[test]
fn a_block_of_no_statement_is_false_and_of_one_is_the_statement() {
    assert_eq!(Expr::Bool { value: false }, block_of(vec![]));
    assert_eq!(var("a"), block_of(vec![var("a")]));
    assert_eq!(
        Expr::Block { exprs: vec![var("a"), var("b")] },
        block_of(vec![var("a"), var("b")])
    );
}

#[test]
fn fold_makes_an_assignment_of_the_equals_sign() {
    assert_eq!(
        Expr::Assign { operator: text("="), left: Box::new(var("a")), right: Box::new(var("b")) },
        fold(text("="), var("a"), var("b"))
    );
    assert_eq!(
        Expr::Binary { operator: text("=="), left: Box::new(var("a")), right: Box::new(var("b")) },
        fold(text("=="), var("a"), var("b"))
    );
}

#[test]
fn tokens_are_told_by_kind_and_text() {
    let open = Some(Token::Punc { value: text("(") });
    let word = Some(Token::Kw { value: text("if") });
    assert!(punc_is(&open, "("));
    assert!(!punc_is(&open, ")"));
    assert!(!punc_is(&word, "if"));
    assert!(!punc_is(&None, "("));
    assert!(kw_is(&word, "if"));
    assert!(!kw_is(&word, "then"));
    assert!(!kw_is(&Some(Token::Var { value: text("if") }), "if"));
    assert!(!kw_is(&Some(Token::Error), "ERROR"));
}

#[test]
fn names_are_taken_from_variable_nodes_in_order() {
    let vars = vec![var("a"), Expr::Error, var("b"), var("a")];
    assert_eq!(vec![text("a"), text("b"), text("a")], names_of(&vars));
    assert_eq!(Vec::<String>::new(), names_of(&vec![]));
}

#[test]
fn take_first_removes_the_first_node() {
    let mut nodes = vec![var("a"), var("b"), var("c")];
    assert_eq!(var("a"), take_first(&mut nodes));
    assert_eq!(vec![var("b"), var("c")], nodes);
}

#[test]
fn lists_of_nodes_are_copied_and_compared() {
    let nodes = vec![var("a"), Expr::Num { value: text("1") }];
    let copy = clone_exprs(&nodes);
    assert_eq!(nodes, copy);
    assert!(exprs_equal(&nodes, &copy));
    assert!(!exprs_equal(&nodes, &vec![var("a")]));
    assert!(!exprs_equal(&nodes, &vec![var("a"), Expr::Num { value: text("1.0") }]));
    assert!(!var("a").equals(&Expr::Str { value: text("a") }));
}

#[test]
fn texts_are_joined() {
    assert_eq!("ab", joined("a", "b"));
    assert_eq!("a", joined("a", ""));
    assert_eq!("Unable to call on \"boolean\"", uncallable(&LValue::Bool(true)));
}

#[test]
fn a_scope_keeps_one_binding_for_a_name() {
    let mut scope: Vec<Binding> = Vec::new();
    define_in(&mut scope, text("a"), number(1.0));
    define_in(&mut scope, text("b"), number(2.0));
    define_in(&mut scope, text("a"), number(3.0));
    assert_eq!(
        vec![
            Binding { name: text("a"), value: number(3.0) },
            Binding { name: text("b"), value: number(2.0) },
        ],
        scope
    );
    assert_eq!(Some(0), find_in(&scope, &text("a")));
    assert_eq!(Some(1), find_in(&scope, &text("b")));
    assert_eq!(None, find_in(&scope, &text("c")));
}
