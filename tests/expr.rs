use altc::ast::Value;
use altc::bindings::Bindings;
use altc::lexer::lex;
use altc::ops::Operation;
use altc::parse::parse_program;
use altc::target::Target;

fn eval_expr(x: Value) -> f64 {
    match x {
        Value::Expr(lhs, rhs, op) => match op {
            Operation::Add => eval_expr(*lhs) + eval_expr(*rhs),
            Operation::Mul => eval_expr(*lhs) * eval_expr(*rhs),
            Operation::Sub => eval_expr(*lhs) - eval_expr(*rhs),
            Operation::Div => eval_expr(*lhs) / eval_expr(*rhs),
            Operation::LT => {
                if eval_expr(*lhs) < eval_expr(*rhs) {
                    1.0
                } else {
                    0.0
                }
            }
            _ => 0.0,
        },
        Value::Int(x) => x as f64,
        _ => 0.0,
    }
}

fn check_case(code: &str, expect: f64) {
    let tokens = lex(code);
    let mut bindings = Bindings::new(Target::linux_x86_64());
    let mut result = parse_program(&tokens, &mut bindings).unwrap();
    assert_eq!(eval_expr(result.remove(0)), expect);
}

#[test]
fn simple() {
    check_case("2 + 2 * 2", 6.0);
}

#[test]
fn medium() {
    check_case("4 * 2 / 5 * 2 + 2 * 4", 11.2);
}

#[test]
fn hard() {
    check_case(
        "4 * 2 / 5 * 2 + 2 * 4 * 5 / 2 * 4 + 4 * 2 / 5 * 2 - 2 * 4 * 5 / 2 * 4 + 4 * 2 / 5 * 2 + 2 * 4 * 5 / 2 * 4",
        89.60000000000001,
    );
}

#[test]
fn medium2() {
    check_case("4 / 2 * 2 + 2 - 2 / 2", 5.0);
}

#[test]
fn sub() {
    check_case("1 - 2", -1.0);
}

#[test]
fn sub2() {
    check_case("1 * 1 / 2 - 2", -1.5);
}

#[test]
fn sub3() {
    check_case("1 * 1 / 2 - 2 / 1 * 2", -3.5);
}

#[test]
fn nested() {
    check_case("2 * (1 + 2)", 6.0);
}

#[test]
fn simple2() {
    check_case("1 + 2 / 2", 2.0);
}

#[test]
fn logical_simple() {
    check_case("4 / 2 * 2 + 2 - 2 / 2 < 4 / 2 * 2 + 2 - 2 / 2", 0.0);
}

#[test]
fn logical_simple2() {
    check_case("4 / 2 * 2 + 2 - 2 / 2 < 4 / 2 * 2 + 2 + 2 / 2", 1.0);
}
