use lambda_lang::env::Env;
use lambda_lang::expr::Expr;
use lambda_lang::interpreter::Action;
use lambda_lang::l_value::{LValue, Lambda};
use lambda_lang::number::Number;
use lambda_lang::prelude::{define_prelude, first_or_false};

fn number(value: f64) -> LValue {
    LValue::Num(Number::from_bits(value.to_bits()))
}

fn text(value: &str) -> LValue {
    LValue::Str(String::from(value))
}

fn name(value: &str) -> String {
    String::from(value)
}

#[test]
fn a_new_environment_is_the_root_and_binds_nothing() {
    let env = Env::new();
    assert!(env.is_root());
    assert_eq!(Err(name("undefined variable x")), env.get(name("x")));
    assert!(!Env::with_enclosing(env).is_root());
}

#[test]
fn def_binds_and_overwrites_in_the_current_scope() {
    let mut env = Env::new();
    env.def(name("x"), &number(1.0));
    env.def(name("y"), &text("why"));
    assert_eq!(Ok(number(1.0)), env.get(name("x")));
    env.def(name("x"), &number(2.0));
    assert_eq!(Ok(number(2.0)), env.get(name("x")));
    assert_eq!(Ok(text("why")), env.get(name("y")));
}

#[test]
fn def_shadows_an_outer_binding() {
    let mut outer = Env::new();
    outer.def(name("x"), &number(1.0));
    outer.def(name("y"), &number(5.0));
    let mut inner = Env::with_enclosing(outer.clone());
    assert_eq!(Ok(number(1.0)), inner.get(name("x")));
    inner.def(name("x"), &number(2.0));
    assert_eq!(Ok(number(2.0)), inner.get(name("x")));
    assert_eq!(Ok(number(5.0)), inner.get(name("y")));
    assert_eq!(Ok(number(1.0)), outer.get(name("x")));
}

#[test]
fn set_changes_the_nearest_scope_that_binds_the_name() {
    let mut outer = Env::new();
    outer.def(name("x"), &number(1.0));
    let mut inner = Env::with_enclosing(outer);
    assert_eq!(Ok(number(3.0)), inner.set("x", &number(3.0)));
    assert_eq!(Ok(number(3.0)), inner.get(name("x")));
    inner.def(name("x"), &number(4.0));
    assert_eq!(Ok(number(5.0)), inner.set("x", &number(5.0)));
    assert_eq!(Ok(number(5.0)), inner.get(name("x")));
    let mut expected_outer = Env::new();
    expected_outer.def(name("x"), &number(3.0));
    let mut expected = Env::with_enclosing(expected_outer);
    expected.def(name("x"), &number(5.0));
    assert_eq!(expected, inner);
}

#[test]
fn set_of_an_unknown_name_defines_it_only_in_the_root() {
    let mut root = Env::new();
    assert_eq!(Ok(number(1.0)), root.set("x", &number(1.0)));
    assert_eq!(Ok(number(1.0)), root.get(name("x")));
    let mut inner = Env::with_enclosing(root);
    let before = inner.clone();
    assert_eq!(
        Err(name("attempting to assign to undefined variable y")),
        inner.set("y", &number(2.0))
    );
    assert_eq!(before, inner);
    assert_eq!(Err(name("undefined variable y")), inner.get(name("y")));
}

#[test]
fn lookup_gives_the_innermost_scope() {
    let mut outer = Env::new();
    outer.def(name("x"), &number(1.0));
    outer.def(name("y"), &number(1.0));
    let mut inner = Env::with_enclosing(outer);
    inner.def(name("x"), &number(2.0));
    assert_eq!(Some(1), inner.lookup(&name("x")));
    assert_eq!(Some(0), inner.lookup(&name("y")));
    assert_eq!(None, inner.lookup(&name("z")));
}

#[test]
fn values_name_their_kind() {
    assert_eq!("string", text("").name());
    assert_eq!("number", number(0.0).name());
    assert_eq!("boolean", LValue::Bool(true).name());
    assert_eq!("native", LValue::Native(name("print")).name());
    let closure = LValue::Lambda(Lambda {
        vars: vec![],
        body: Expr::Bool { value: true },
        env: Env::new(),
    });
    assert_eq!("lambda", closure.name());
    assert_eq!(closure, closure.clone());
}

#[test]
fn nodes_name_their_kind() {
    let leaf = || Box::new(Expr::Error);
    let cases = vec![
        (Expr::Lambda { vars: vec![], body: leaf() }, "lambda"),
        (Expr::Block { exprs: vec![] }, "block"),
        (Expr::Call { func: leaf(), args: vec![] }, "call"),
        (Expr::If { cond: leaf(), then: leaf(), otherwise: None }, "if"),
        (Expr::Var { name: name("x") }, "variable"),
        (Expr::Bool { value: true }, "boolean"),
        (Expr::Str { value: name("") }, "string"),
        (Expr::Num { value: name("1") }, "number"),
        (Expr::Assign { operator: name("="), left: leaf(), right: leaf() }, "assign"),
        (Expr::Binary { operator: name("+"), left: leaf(), right: leaf() }, "binary"),
        (Expr::Error, "error"),
    ];
    for (expr, kind) in cases {
        assert_eq!(kind, expr.name());
        assert!(expr.equals(&expr.clone()));
        assert_eq!(expr, expr.clone());
    }
}

#[test]
fn a_call_binds_parameters_in_a_new_scope() {
    let mut captured = Env::new();
    captured.def(name("a"), &number(0.0));
    let lambda = Lambda {
        vars: vec![name("a"), name("b"), name("a")],
        body: Expr::Var { name: name("a") },
        env: captured.clone(),
    };
    let scope = lambda.bind(vec![number(1.0), number(2.0), number(3.0), number(4.0)]).unwrap();
    assert!(!scope.is_root());
    assert_eq!(Ok(number(3.0)), scope.get(name("a")));
    assert_eq!(Ok(number(2.0)), scope.get(name("b")));
    let mut expected = Env::with_enclosing(captured);
    expected.def(name("a"), &number(3.0));
    expected.def(name("b"), &number(2.0));
    assert_eq!(expected, scope);
    assert_eq!(
        Err(name("too few arguments (given 2, expected 3)")),
        lambda.bind(vec![number(1.0), number(2.0)])
    );
    assert_eq!(
        Err(name("too few arguments (given 0, expected 3)")),
        lambda.call(vec![])
    );
    let mut machine = lambda.call(vec![number(1.0), number(2.0), number(3.0)]).unwrap();
    assert_eq!(Action::Done(Ok(number(3.0))), machine.run(10));
    assert_eq!(expected, machine.into_env());
}

#[test]
fn numbers_are_compared_by_value() {
    let n = |value: f64| Number::from_bits(value.to_bits());
    let samples = [
        0.0,
        -0.0,
        1.0,
        -1.0,
        1.5,
        -1.5,
        2.0,
        1e300,
        -1e300,
        5e-324,
        -5e-324,
        f64::MAX,
        f64::MIN,
        f64::MIN_POSITIVE,
        f64::INFINITY,
        f64::NEG_INFINITY,
        f64::NAN,
        -f64::NAN,
    ];
    for a in samples {
        assert_eq!(a.is_nan(), n(a).is_nan());
        assert_eq!(a.to_bits(), n(a).to_bits());
        for b in samples {
            assert_eq!(a == b, n(a).equals(&n(b)), "{} == {}", a, b);
            assert_eq!(a < b, n(a).less_than(&n(b)), "{} < {}", a, b);
            assert_eq!(a == b, number(a).equals(&number(b)), "{} == {}", a, b);
        }
    }
}

#[test]
fn values_are_equal_by_kind_and_content() {
    assert!(text("a").equals(&text("a")));
    assert!(!text("a").equals(&text("b")));
    assert!(!text("1").equals(&number(1.0)));
    assert!(LValue::Bool(true).equals(&LValue::Bool(true)));
    assert!(!LValue::Bool(true).equals(&LValue::Bool(false)));
    assert!(LValue::Native(name("print")).equals(&LValue::Native(name("print"))));
    assert!(!LValue::Native(name("print")).equals(&LValue::Native(name("puts"))));
    let closure = |body: &str, bound: f64| {
        let mut env = Env::new();
        env.def(name("k"), &number(bound));
        LValue::Lambda(Lambda { vars: vec![name("x")], body: Expr::Var { name: name(body) }, env })
    };
    assert!(closure("x", 1.0).equals(&closure("x", 1.0)));
    assert!(!closure("x", 1.0).equals(&closure("k", 1.0)));
    assert!(!closure("x", 1.0).equals(&closure("x", 2.0)));
}

#[test]
fn the_prelude_binds_the_names_of_the_host_functions() {
    let mut env = Env::new();
    define_prelude(&mut env);
    for native in ["print", "puts", "sleep", "time"] {
        assert_eq!(Ok(LValue::Native(name(native))), env.get(name(native)));
    }
    assert_eq!(Err(name("undefined variable exit")), env.get(name("exit")));
}

#[test]
fn first_or_false_gives_the_first_argument() {
    assert_eq!(LValue::Bool(false), first_or_false(&vec![]));
    assert_eq!(text("a"), first_or_false(&vec![text("a"), text("b")]));
}

#[test]
fn values_are_made_from_plain_values() {
    assert_eq!(number(1.5), LValue::from(Number::from_bits(1.5f64.to_bits())));
    assert_eq!(text("a"), LValue::from(name("a")));
    assert_eq!(LValue::Bool(true), LValue::from(true));
    let value: LValue = false.into();
    assert_eq!(LValue::Bool(false), value);
}
