use lambda_lang::env::Env;
use lambda_lang::expr::Expr;
use lambda_lang::input_stream::InputStream;
use lambda_lang::interpreter::{evaluate, Action};
use lambda_lang::l_value::LValue;
use lambda_lang::number::Number;
use lambda_lang::parser::Parser;
use lambda_lang::token_stream::TokenStream;

fn number(value: f64) -> LValue {
    LValue::Num(Number::from_bits(value.to_bits()))
}

fn num(value: f64) -> Expr {
    Expr::Num { value: format!("{}", value) }
}

fn arithmetic(operator: &str, left: f64, right: f64) -> f64 {
    match operator {
        "+" => left + right,
        "-" => left - right,
        "*" => left * right,
        "/" => left / right,
        "%" => left % right,
        _ => panic!("no arithmetic operator: {}", operator),
    }
}

fn native(name: &str, args: Vec<LValue>) -> Result<LValue, String> {
    match name {
        "first" => Ok(args.first().unwrap_or(&LValue::Bool(false)).clone()),
        _ => Err(format!("no native function: {}", name)),
    }
}

fn run(expr: Expr, env: &mut Env) -> Result<LValue, String> {
    let scope = std::mem::replace(env, Env::new());
    let mut machine = evaluate(expr, scope);
    let result = loop {
        match machine.step() {
            Action::Continue => {}
            Action::Idle => panic!("the machine is idle"),
            Action::Convert { text } => {
                assert!(machine.resume(Ok(number(text.parse().expect("Invalid float")))));
            }
            Action::Arithmetic { operator, left, right } => {
                let value = arithmetic(
                    &operator,
                    f64::from_bits(left.to_bits()),
                    f64::from_bits(right.to_bits()),
                );
                assert!(machine.resume(Ok(number(value))));
            }
            Action::Native { name, args } => {
                assert!(machine.resume(native(&name, args)));
            }
            Action::Done(result) => break result,
        }
    };
    assert!(machine.is_finished());
    *env = machine.into_env();
    result
}

fn parse_string(input: &str) -> Vec<Expr> {
    let mut parser = Parser::new(TokenStream::new(InputStream::new(String::from(input))));
    match parser.parse() {
        Ok(exprs) => exprs,
        Err(message) => panic!("{}", message),
    }
}

fn run_source(input: &str, env: &mut Env) -> Result<LValue, String> {
    let mut result = Ok(LValue::Bool(false));
    for expr in parse_string(input) {
        result = run(expr, env);
        if result.is_err() {
            break;
        }
    }
    result
}

#[test]
fn it_evaluates_a_number() {
    let input = num(1.0);
    let mut env = Env::new();

    let result = run(input, &mut env);

    assert!(result.is_ok());
    assert_eq!(number(1.0), result.unwrap());
}

#[test]
fn it_evaluates_a_string() {
    let input = Expr::Str {
        value: "Rusty!".into(),
    };
    let mut env = Env::new();

    let result = run(input, &mut env);

    assert!(result.is_ok());
    assert_eq!(LValue::Str("Rusty!".into()), result.unwrap());
}

#[test]
fn it_evaluates_a_boolean() {
    let input = Expr::Bool { value: true };
    let mut env = Env::new();

    let result = run(input, &mut env);

    assert!(result.is_ok());
    assert_eq!(LValue::Bool(true), result.unwrap());
}

#[test]
fn it_evaluates_a_var_expr() {
    let input = Expr::Var {
        name: "my_bool".into(),
    };
    let mut env = Env::new();
    env.def("my_bool".into(), &LValue::Bool(true));

    let result = run(input, &mut env);

    assert!(result.is_ok());
    assert_eq!(LValue::Bool(true), result.unwrap());
}

#[test]
fn it_fails_to_evaluate_an_undefined_variable() {
    let input = Expr::Var {
        name: "undefined_var".into(),
    };
    let mut env = Env::new();

    let result = run(input, &mut env);

    assert!(result.is_err());
    assert_eq!(
        String::from("undefined variable undefined_var"),
        result.unwrap_err()
    );
}

#[test]
fn it_evaluates_an_assign_expr() {
    let input = Expr::Assign {
        operator: "=".into(),
        left: Box::new(Expr::Var {
            name: "my_bool".into(),
        }),
        right: Box::new(Expr::Bool { value: true }),
    };
    let mut env = Env::new();
    env.def("my_bool".into(), &LValue::Bool(false));

    let result = run(input, &mut env);

    assert!(result.is_ok());
    assert_eq!(LValue::Bool(true), result.unwrap());
}

#[test]
fn it_denies_assigning_to_expr_that_is_not_a_variable() {
    let input = Expr::Assign {
        operator: "=".into(),
        left: Box::new(Expr::Str {
            value: "my_bool".into(),
        }),
        right: Box::new(Expr::Bool { value: true }),
    };
    let mut env = Env::new();
    env.def("my_bool".into(), &LValue::Bool(false));

    let result = run(input, &mut env);

    assert!(result.is_err());
    assert_eq!(String::from("cannot assign to string"), result.unwrap_err());
}

#[test]
fn it_evaluates_a_sum() {
    let input = Expr::Binary {
        operator: "+".into(),
        left: Box::new(num(1.0)),
        right: Box::new(num(2.0)),
    };

    let result = run(input, &mut Env::new());

    assert!(result.is_ok());
    assert_eq!(number(3.0), result.unwrap());
}

#[test]
fn it_evaluates_a_sum_with_variables() {
    let input = Expr::Binary {
        operator: "+".into(),
        left: Box::new(Expr::Var { name: "a".into() }),
        right: Box::new(Expr::Var { name: "b".into() }),
    };

    let mut env = Env::new();
    env.set("a", &number(1.0)).unwrap();
    env.set("b", &number(2.0)).unwrap();

    let result = run(input, &mut env);

    assert!(result.is_ok());
    assert_eq!(number(3.0), result.unwrap());
}

#[test]
fn it_evaluates_a_subtraction() {
    let input = Expr::Binary {
        operator: "-".into(),
        left: Box::new(num(1.0)),
        right: Box::new(num(2.0)),
    };

    let result = run(input, &mut Env::new());

    assert!(result.is_ok());
    assert_eq!(number(-1.0), result.unwrap());
}

#[test]
fn it_evaluates_a_multiplication() {
    let input = Expr::Binary {
        operator: "*".into(),
        left: Box::new(num(2.0)),
        right: Box::new(num(2.0)),
    };

    let result = run(input, &mut Env::new());

    assert!(result.is_ok());
    assert_eq!(number(4.0), result.unwrap());
}

#[test]
fn it_evaluates_a_division() {
    let input = Expr::Binary {
        operator: "/".into(),
        left: Box::new(num(2.0)),
        right: Box::new(num(2.0)),
    };

    let result = run(input, &mut Env::new());

    assert!(result.is_ok());
    assert_eq!(number(1.0), result.unwrap());
}

#[test]
fn it_does_not_error_on_a_division_by_zero() {
    let input = Expr::Binary {
        operator: "/".into(),
        left: Box::new(num(2.0)),
        right: Box::new(num(0.0)),
    };

    let result = run(input, &mut Env::new());

    assert!(result.is_ok());
    assert_eq!(number(f64::INFINITY), result.unwrap());
}

#[test]
fn it_evaluates_a_mod_operation() {
    let input = Expr::Binary {
        operator: "%".into(),
        left: Box::new(num(5.0)),
        right: Box::new(num(2.0)),
    };

    let result = run(input, &mut Env::new());

    assert!(result.is_ok());
    assert_eq!(number(1.0), result.unwrap());
}

#[test]
fn it_evaluates_greater_than() {
    let input = Expr::Binary {
        operator: ">".into(),
        left: Box::new(num(5.0)),
        right: Box::new(num(2.0)),
    };

    let result = run(input, &mut Env::new());

    assert!(result.is_ok());
    assert_eq!(LValue::Bool(true), result.unwrap());

    let input = Expr::Binary {
        operator: ">".into(),
        left: Box::new(num(2.0)),
        right: Box::new(num(5.0)),
    };

    let result = run(input, &mut Env::new());

    assert!(result.is_ok());
    assert_eq!(LValue::Bool(false), result.unwrap());
}

#[test]
fn it_evaluates_smaller_than() {
    let input = Expr::Binary {
        operator: "<".into(),
        left: Box::new(num(2.0)),
        right: Box::new(num(5.0)),
    };

    let result = run(input, &mut Env::new());

    assert!(result.is_ok());
    assert_eq!(LValue::Bool(true), result.unwrap());

    let input = Expr::Binary {
        operator: "<".into(),
        left: Box::new(num(5.0)),
        right: Box::new(num(2.0)),
    };

    let result = run(input, &mut Env::new());

    assert!(result.is_ok());
    assert_eq!(LValue::Bool(false), result.unwrap());
}

#[test]
fn it_evaluates_greater_or_equals_than() {
    let input = Expr::Binary {
        operator: ">=".into(),
        left: Box::new(num(5.0)),
        right: Box::new(num(2.0)),
    };

    let result = run(input, &mut Env::new());

    assert!(result.is_ok());
    assert_eq!(LValue::Bool(true), result.unwrap());

    let input = Expr::Binary {
        operator: ">=".into(),
        left: Box::new(num(2.0)),
        right: Box::new(num(2.0)),
    };

    let result = run(input, &mut Env::new());

    assert!(result.is_ok());
    assert_eq!(LValue::Bool(true), result.unwrap());
}

#[test]
fn it_evaluates_smaller_or_equals_than() {
    let input = Expr::Binary {
        operator: "<=".into(),
        left: Box::new(num(2.0)),
        right: Box::new(num(5.0)),
    };

    let result = run(input, &mut Env::new());

    assert!(result.is_ok());
    assert_eq!(LValue::Bool(true), result.unwrap());

    let input = Expr::Binary {
        operator: "<=".into(),
        left: Box::new(num(2.0)),
        right: Box::new(num(2.0)),
    };

    let result = run(input, &mut Env::new());

    assert!(result.is_ok());
    assert_eq!(LValue::Bool(true), result.unwrap());
}

#[test]
fn it_assert_numeric_inputs() {
    let input = Expr::Binary {
        operator: "+".into(),
        left: Box::new(num(1.0)),
        right: Box::new(Expr::Str {
            value: "hello".into(),
        }),
    };

    let result = run(input, &mut Env::new());

    assert!(result.is_err());
    assert_eq!(
        String::from("expected two numbers, got number + string"),
        result.unwrap_err()
    );
}

#[test]
fn it_evaluates_a_logical_and_operator() {
    let input = Expr::Binary {
        operator: "&&".into(),
        left: Box::new(num(1.0)),
        right: Box::new(num(2.0)),
    };

    let result = run(input, &mut Env::new());

    assert!(result.is_ok());
    assert_eq!(number(2.0), result.unwrap());
}

#[test]
fn it_does_not_evaluate_rhs_if_lhs_is_false_on_a_and_operator() {
    let input = Expr::Binary {
        operator: "&&".into(),
        left: Box::new(Expr::Bool { value: false }),
        right: Box::new(Expr::Error),
    };

    let result = run(input, &mut Env::new());

    assert!(result.is_ok());
    assert_eq!(LValue::Bool(false), result.unwrap());
}

#[test]
fn it_evaluates_a_logical_or_operator() {
    let input = Expr::Binary {
        operator: "||".into(),
        left: Box::new(Expr::Bool { value: false }),
        right: Box::new(num(2.0)),
    };

    let result = run(input, &mut Env::new());

    assert!(result.is_ok());
    assert_eq!(number(2.0), result.unwrap());
}

#[test]
fn it_does_not_evaluate_rhs_if_lhs_is_truthy_on_a_or_operator() {
    let input = Expr::Binary {
        operator: "||".into(),
        left: Box::new(Expr::Str { value: "".into() }),
        right: Box::new(Expr::Error),
    };

    let result = run(input, &mut Env::new());

    assert!(result.is_ok());
    assert_eq!(LValue::Str("".into()), result.unwrap());
}

#[test]
fn it_does_not_evaluate_invalid_binary_operators() {
    let input = Expr::Binary {
        operator: "?".into(),
        left: Box::new(num(1.0)),
        right: Box::new(num(1.0)),
    };

    let result = run(input, &mut Env::new());

    assert!(result.is_err());
    assert_eq!(
        String::from("cannot apply binary operator ?"),
        result.unwrap_err()
    );
}

#[test]
fn it_evaluates_an_equality_operator() {
    let input = Expr::Binary {
        operator: "==".into(),
        left: Box::new(num(2.0)),
        right: Box::new(num(2.0)),
    };

    let result = run(input, &mut Env::new());

    assert!(result.is_ok());
    assert_eq!(LValue::Bool(true), result.unwrap());

    let input = Expr::Binary {
        operator: "==".into(),
        left: Box::new(Expr::Bool { value: false }),
        right: Box::new(num(2.0)),
    };

    let result = run(input, &mut Env::new());

    assert!(result.is_ok());
    assert_eq!(LValue::Bool(false), result.unwrap());
}

#[test]
fn it_evaluates_an_inequality_operator() {
    let input = Expr::Binary {
        operator: "!=".into(),
        left: Box::new(Expr::Bool { value: false }),
        right: Box::new(num(2.0)),
    };

    let result = run(input, &mut Env::new());

    assert!(result.is_ok());
    assert_eq!(LValue::Bool(true), result.unwrap());

    let input = Expr::Binary {
        operator: "!=".into(),
        left: Box::new(num(2.0)),
        right: Box::new(num(2.0)),
    };

    let result = run(input, &mut Env::new());

    assert!(result.is_ok());
    assert_eq!(LValue::Bool(false), result.unwrap());
}

#[test]
fn it_evaluates_an_if_else_expr() {
    let input = Expr::If {
        cond: Box::new(num(0.0)),
        then: Box::new(num(1.0)),
        otherwise: Some(Box::new(num(2.0))),
    };

    let result = run(input, &mut Env::new());

    assert!(result.is_ok());
    assert_eq!(number(1.0), result.unwrap());

    let input = Expr::If {
        cond: Box::new(Expr::Bool { value: false }),
        then: Box::new(num(1.0)),
        otherwise: Some(Box::new(num(2.0))),
    };

    let result = run(input, &mut Env::new());

    assert!(result.is_ok());
    assert_eq!(number(2.0), result.unwrap());
}

#[test]
fn it_evaluates_an_if_expr_without_else() {
    let input = Expr::If {
        cond: Box::new(Expr::Bool { value: false }),
        then: Box::new(num(1.0)),
        otherwise: None,
    };

    let result = run(input, &mut Env::new());

    assert!(result.is_ok());
    assert_eq!(LValue::Bool(false), result.unwrap());
}

#[test]
fn it_evaluates_a_block() {
    let input = Expr::Block {
        exprs: vec![num(1.0), num(2.0)],
    };

    let result = run(input, &mut Env::new());

    assert!(result.is_ok());
    assert_eq!(number(2.0), result.unwrap());
}

#[test]
fn it_evaluates_an_empty_block_to_false() {
    let input = Expr::Block { exprs: vec![] };

    let result = run(input, &mut Env::new());

    assert!(result.is_ok());
    assert_eq!(LValue::Bool(false), result.unwrap());
}

#[test]
fn it_does_not_evaluate_an_error_expr() {
    let input = Expr::Error;
    let mut env = Env::new();

    let result = run(input, &mut env);

    assert!(result.is_err());
    assert_eq!(
        String::from("Internal interpreter error: don't know how to evaluate error expression"),
        result.unwrap_err()
    );
}


#[test]
fn division_by_zero_is_positive_infinity_end_to_end() {
    let result = run_source("2 / 0;", &mut Env::new());
    assert_eq!(Ok(number(f64::INFINITY)), result);
}

#[test]
fn zero_divided_by_zero_is_not_a_number() {
    let result = run_source("0 / 0;", &mut Env::new()).unwrap();
    match result {
        LValue::Num(n) => assert!(n.is_nan()),
        other => panic!("not a number: {:?}", other),
    }
}

#[test]
fn assignment_returns_the_value_and_binds_it() {
    let mut env = Env::new();
    assert_eq!(Ok(number(5.0)), run_source("a = 5;", &mut env));
    assert_eq!(Ok(number(5.0)), run_source("a;", &mut env));
    assert_eq!(Ok(number(5.0)), env.get(String::from("a")));
}

#[test]
fn closures_capture_a_snapshot_of_their_environment() {
    let result = run_source("{ x = 1; f = lambda () x; x = 2; f() };", &mut Env::new());
    assert_eq!(Ok(number(1.0)), result);
}

#[test]
fn multiplication_binds_tighter_than_addition() {
    let parsed = parse_string("1 + 2 * 3;");
    assert_eq!(
        vec![Expr::Binary {
            operator: String::from("+"),
            left: Box::new(num(1.0)),
            right: Box::new(Expr::Binary {
                operator: String::from("*"),
                left: Box::new(num(2.0)),
                right: Box::new(num(3.0)),
            }),
        }],
        parsed
    );
    assert_eq!(Ok(number(7.0)), run_source("1 + 2 * 3;", &mut Env::new()));
}

#[test]
fn zero_is_truthy_in_a_condition() {
    assert_eq!(Ok(number(1.0)), run_source("if 0 then 1 else 2;", &mut Env::new()));
    assert_eq!(Ok(number(2.0)), run_source("if false then 1 else 2;", &mut Env::new()));
    assert_eq!(Ok(LValue::Bool(false)), run_source("if false then 1;", &mut Env::new()));
}

#[test]
fn a_call_with_too_few_arguments_fails() {
    let result = run_source("f = lambda (a, b) a + b; f(1);", &mut Env::new());
    assert_eq!(Err(String::from("too few arguments (given 1, expected 2)")), result);
}

#[test]
fn surplus_arguments_are_ignored() {
    let result = run_source("f = lambda (a, b) a + b; f(1, 2, 3);", &mut Env::new());
    assert_eq!(Ok(number(3.0)), result);
}

#[test]
fn calls_chain() {
    let result = run_source(
        "adder = lambda (a) lambda (b) a + b; adder(1)(2);",
        &mut Env::new(),
    );
    assert_eq!(Ok(number(3.0)), result);
}

#[test]
fn a_closure_runs_in_a_scope_of_its_own() {
    let mut env = Env::new();
    let result = run_source("x = 1; f = lambda (x) { x = x + 1; x }; f(10);", &mut env);
    assert_eq!(Ok(number(11.0)), result);
    assert_eq!(Ok(number(1.0)), env.get(String::from("x")));
}

#[test]
fn assigning_an_unknown_name_inside_a_closure_fails() {
    let mut env = Env::new();
    let result = run_source("f = lambda () y = 1; f();", &mut env);
    assert_eq!(
        Err(String::from("attempting to assign to undefined variable y")),
        result
    );
    assert!(env.is_root());
    assert!(env.get(String::from("f")).is_ok());
}

#[test]
fn a_recursive_closure_needs_its_own_name() {
    let result = run_source(
        "fact = lambda (self, n) if n <= 1 then 1 else n * self(self, n - 1); fact(fact, 5);",
        &mut Env::new(),
    );
    assert_eq!(Ok(number(120.0)), result);
}

#[test]
fn calling_a_number_fails() {
    let result = run_source("x = 1; x(2);", &mut Env::new());
    assert_eq!(Err(String::from("Unable to call on \"number\"")), result);
}

#[test]
fn a_native_function_is_called_like_a_closure() {
    let mut env = Env::new();
    env.def(String::from("first"), &LValue::Native(String::from("first")));
    assert_eq!(Ok(number(4.0)), run_source("first(2 + 2, 5);", &mut env));
    assert_eq!(Ok(LValue::Bool(false)), run_source("first();", &mut env));
}

#[test]
fn numbers_compare_as_doubles() {
    let env = &mut Env::new();
    assert_eq!(Ok(LValue::Bool(true)), run_source("0 - 1 < 0;", env));
    assert_eq!(Ok(LValue::Bool(true)), run_source("0 - 2 < 0 - 1;", env));
    assert_eq!(Ok(LValue::Bool(false)), run_source("0 - 1 < 0 - 2;", env));
    assert_eq!(Ok(LValue::Bool(true)), run_source("0 * (0 - 1) == 0;", env));
    assert_eq!(Ok(LValue::Bool(false)), run_source("0 * (0 - 1) < 0;", env));
    assert_eq!(Ok(LValue::Bool(true)), run_source("0 * (0 - 1) >= 0;", env));
    assert_eq!(Ok(LValue::Bool(false)), run_source("0 / 0 == 0 / 0;", env));
    assert_eq!(Ok(LValue::Bool(true)), run_source("0 / 0 != 0 / 0;", env));
    assert_eq!(Ok(LValue::Bool(false)), run_source("0 / 0 <= 1;", env));
    assert_eq!(Ok(LValue::Bool(true)), run_source("1.5 > 1.25;", env));
    assert_eq!(Ok(LValue::Bool(true)), run_source("1 / 0 > 1000000;", env));
}

#[test]
fn values_of_different_kinds_are_never_equal() {
    let env = &mut Env::new();
    assert_eq!(Ok(LValue::Bool(false)), run_source("1 == \"1\";", env));
    assert_eq!(Ok(LValue::Bool(true)), run_source("1 != \"1\";", env));
    assert_eq!(Ok(LValue::Bool(true)), run_source("\"a\" == \"a\";", env));
    assert_eq!(Ok(LValue::Bool(false)), run_source("true == false;", env));
    assert_eq!(
        Ok(LValue::Bool(true)),
        run_source("(lambda (x) x) == (lambda (x) x);", env)
    );
    assert_eq!(
        Ok(LValue::Bool(false)),
        run_source("(lambda (x) x) == (lambda (y) y);", env)
    );
}

#[test]
fn the_right_operand_of_a_logical_operator_is_skipped_when_the_left_decides() {
    let env = &mut Env::new();
    assert_eq!(Ok(LValue::Bool(false)), run_source("false && undefined_var;", env));
    assert_eq!(Ok(number(0.0)), run_source("0 || undefined_var;", env));
    assert_eq!(
        Err(String::from("undefined variable undefined_var")),
        run_source("true && undefined_var;", env)
    );
}

#[test]
fn a_failure_names_the_kinds_of_the_operands() {
    let env = &mut Env::new();
    assert_eq!(
        Err(String::from("expected two numbers, got string < boolean")),
        run_source("\"a\" < true;", env)
    );
    assert_eq!(
        Err(String::from("expected two numbers, got lambda * number")),
        run_source("(lambda () 1) * 2;", env)
    );
}

#[test]
fn a_step_on_a_waiting_or_finished_machine_is_idle() {
    let mut machine = evaluate(num(1.0), Env::new());
    assert_eq!(Action::Convert { text: String::from("1") }, machine.step());
    assert!(machine.is_waiting());
    assert_eq!(Action::Idle, machine.step());
    assert!(machine.resume(Ok(number(1.0))));
    assert!(!machine.resume(Ok(number(2.0))));
    assert_eq!(Action::Done(Ok(number(1.0))), machine.step());
    assert_eq!(Action::Idle, machine.step());
    assert!(!machine.resume(Ok(number(2.0))));
}

#[test]
fn a_failure_of_the_host_fails_the_evaluation_and_restores_the_environment() {
    let mut env = Env::new();
    env.def(String::from("missing"), &LValue::Native(String::from("missing")));
    let result = run_source("f = lambda (x) missing(x); f(1);", &mut env);
    assert_eq!(Err(String::from("no native function: missing")), result);
    assert!(env.is_root());
    assert!(env.get(String::from("f")).is_ok());
    assert_eq!(Err(String::from("undefined variable x")), env.get(String::from("x")));
}

#[test]
fn evaluating_the_error_node_fails() {
    let mut env = Env::new();
    env.def(String::from("a"), &LValue::Bool(true));
    let before = env.clone();
    let input = Expr::Block { exprs: vec![Expr::Var { name: String::from("a") }, Expr::Error] };
    assert_eq!(
        Err(String::from(
            "Internal interpreter error: don't know how to evaluate error expression"
        )),
        run(input, &mut env)
    );
    assert_eq!(before, env);
}

#[test]
fn a_lambda_takes_its_names_from_variable_nodes() {
    let input = Expr::Call {
        func: Box::new(Expr::Lambda {
            vars: vec![
                Expr::Var { name: String::from("a") },
                Expr::Str { value: String::from("s") },
                Expr::Var { name: String::from("b") },
            ],
            body: Box::new(Expr::Var { name: String::from("b") }),
        }),
        args: vec![num(1.0), num(2.0)],
    };
    assert_eq!(Ok(number(2.0)), run(input, &mut Env::new()));
}

#[test]
fn run_stops_where_the_host_is_needed() {
    let input = parse_string("if true then \"yes\" else 1 + 2;").remove(0);
    let mut machine = evaluate(input, Env::new());
    assert_eq!(
        Action::Done(Ok(LValue::Str(String::from("yes")))),
        machine.run(100)
    );
    assert_eq!(Action::Idle, machine.run(100));

    let input = parse_string("1 + 2;").remove(0);
    let mut machine = evaluate(input, Env::new());
    assert_eq!(Action::Continue, machine.run(0));
    assert_eq!(Action::Continue, machine.run(1));
    assert_eq!(Action::Convert { text: String::from("1") }, machine.run(100));
    assert!(machine.resume(Ok(number(1.0))));
    assert_eq!(Action::Convert { text: String::from("2") }, machine.run(100));
    assert!(machine.resume(Ok(number(2.0))));
    assert_eq!(
        Action::Arithmetic {
            operator: String::from("+"),
            left: Number::from_bits(1.0f64.to_bits()),
            right: Number::from_bits(2.0f64.to_bits()),
        },
        machine.run(100)
    );
    assert!(machine.resume(Ok(number(3.0))));
    assert_eq!(Action::Done(Ok(number(3.0))), machine.run(100));
}

#[test]
fn run_gives_up_after_its_limit() {
    let mut env = Env::new();
    assert!(run_source("loop = lambda (self) self(self);", &mut env).is_ok());
    let input = parse_string("loop(loop);").remove(0);
    let mut machine = evaluate(input, env);
    assert_eq!(Action::Continue, machine.run(10000));
    assert!(!machine.is_finished());
    assert!(!machine.is_waiting());
}
