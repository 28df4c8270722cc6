use rust_parser::expressions::expression;
use rust_parser::functions::function_header;
use rust_parser::items::p_enum_inner;
use rust_parser::ast::{Enum, Expression, FunctionHeader};
use rust_parser::progress::{Finished, Master};

fn qp_enum(s: &str) -> Finished<Enum> {
    let mut pm = Master::new();
    let r = p_enum_inner(&mut pm, s.as_bytes(), 0);
    pm.finish(r)
}

fn qp_header(s: &str) -> Finished<FunctionHeader> {
    let mut pm = Master::new();
    let r = function_header(&mut pm, s.as_bytes(), 0);
    pm.finish(r)
}

fn qp_expression(s: &str) -> Finished<Expression> {
    let mut pm = Master::new();
    let r = expression(&mut pm, s.as_bytes(), 0);
    pm.finish(r)
}

fn unwrap_progress<T>(p: Finished<T>) -> T {
    match p {
        Finished::Parsed { value, .. } => value,
        Finished::Failed { point, errors } => {
            panic!("Failed parsing at {:?}: {:?}", point, errors)
        }
    }
}

#[test]
fn enum_with_trailing_stuff() {
    let p = qp_enum("enum A {} impl Foo for Bar {}");
    assert_eq!(unwrap_progress(p).extent, (0, 9))
}

#[test]
fn fn_with_public_modifier() {
    let p = qp_header("pub fn foo()");
    assert_eq!(unwrap_progress(p).extent, (0, 12))
}

#[test]
fn fn_with_self_type() {
    let p = qp_header("fn foo(&self)");
    assert_eq!(unwrap_progress(p).extent, (0, 13))
}

#[test]
fn fn_with_return_type() {
    let p = qp_header("fn foo() -> bool");
    assert_eq!(unwrap_progress(p).extent, (0, 16))
}

#[test]
fn expr_true() {
    let p = qp_expression("true");
    assert_eq!(unwrap_progress(p).extent, (0, 4))
}

#[test]
fn expr_let_mut() {
    let p = qp_expression("let mut pm = Master::new()");
    assert_eq!(unwrap_progress(p).extent, (0, 26))
}

#[test]
fn expr_let_no_value() {
    let p = qp_expression("let pm");
    assert_eq!(unwrap_progress(p).extent, (0, 6))
}

#[test]
fn expr_value_with_path() {
    let p = qp_expression("Master::new()");
    assert_eq!(unwrap_progress(p).extent, (0, 13))
}

#[test]
fn expr_function_call() {
    let p = qp_expression("foo()");
    assert_eq!(unwrap_progress(p).extent, (0, 5))
}

#[test]
fn expr_function_call_with_args() {
    let p = qp_expression("foo(true)");
    assert_eq!(unwrap_progress(p).extent, (0, 9))
}

#[test]
fn expr_loop() {
    let p = qp_expression("loop {}");
    assert_eq!(unwrap_progress(p).extent, (0, 7))
}
