use loxscript::error::Error;
use loxscript::expr::{tree_text, tree_text_pretty, BinaryOp, Expr, ExprLiteral, Node, Stmt, UnaryOp};
use loxscript::interpreter::{Interpreter, Value};
use loxscript::parser::Parser;
use loxscript::scanner::Scanner;

fn run(src: &str) -> (Interpreter, Result<(), loxscript::error::RuntimeError>) {
    let mut scanner = Scanner::new();
    let tokens = scanner.scan_from_string(src.to_string()).unwrap();
    let mut parser = Parser::new();
    let stmts = parser.parse(tokens).unwrap();
    let mut interp = Interpreter::new();
    let r = interp.interpret(stmts);
    (interp, r)
}

fn eval(src: &str) -> Result<Value, loxscript::error::RuntimeError> {
    let mut scanner = Scanner::new();
    let tokens = scanner.scan_from_string(src.to_string()).unwrap();
    let mut parser = Parser::new();
    let stmts = parser.parse(tokens).unwrap();
    assert_eq!(stmts.len(), 1);
    let interp = Interpreter::new();
    match stmts.into_iter().next().unwrap() {
        Stmt::ExprStmt(e) | Stmt::Print(e) => interp.interpret_expr(e),
    }
}

fn ilit(v: i64) -> Expr {
    Expr::Literal(Some(ExprLiteral::Int(v)))
}

#[test]
fn print_one_plus_two_writes_int_three() {
    let (interp, r) = run("print 1 + 2;");
    assert!(r.is_ok());
    assert_eq!(interp.output, vec!["Int(3)".to_string()]);
}

#[test]
fn print_renders_each_value_shape() {
    let (interp, r) = run("print 1; print \"hi\"; print true; print false; print null; print -5;");
    assert!(r.is_ok());
    assert_eq!(
        interp.output,
        vec![
            "Int(1)".to_string(),
            "String(\"hi\")".to_string(),
            "Bool(true)".to_string(),
            "Bool(false)".to_string(),
            "Null".to_string(),
            "Int(-5)".to_string(),
        ]
    );
}

#[test]
fn division_by_integer_zero_fails() {
    let (interp, r) = run("1 / 0;");
    let err = r.unwrap_err();
    assert_eq!(err.get_message(), "Cannot divide by zero");
    assert!(interp.output.is_empty());
}

#[test]
fn first_error_aborts_later_statements_but_keeps_earlier_output() {
    let (interp, r) = run("print 1; 1 / 0; print 2;");
    assert!(r.is_err());
    assert_eq!(interp.output, vec!["Int(1)".to_string()]);
}

#[test]
fn string_times_int_repeats() {
    assert_eq!(
        eval("\"ab\" * 3;").unwrap(),
        Value::String("ababab".to_string())
    );
}

#[test]
fn int_times_string_repeats_identically() {
    assert_eq!(
        eval("3 * \"ab\";").unwrap(),
        Value::String("ababab".to_string())
    );
}

#[test]
fn string_times_non_positive_int_is_empty() {
    assert_eq!(eval("\"ab\" * 0;").unwrap(), Value::String(String::new()));
    assert_eq!(eval("\"ab\" * -2;").unwrap(), Value::String(String::new()));
}

#[test]
fn integer_arithmetic() {
    assert_eq!(eval("1 + 2;").unwrap(), Value::Int(3));
    assert_eq!(eval("1 - 2;").unwrap(), Value::Int(-1));
    assert_eq!(eval("6 * 7;").unwrap(), Value::Int(42));
    assert_eq!(eval("7 / 2;").unwrap(), Value::Int(3));
    assert_eq!(eval("-7 / 2;").unwrap(), Value::Int(-3));
    assert_eq!(eval("7 / -2;").unwrap(), Value::Int(-3));
}

#[test]
fn integer_overflow_is_an_error_not_a_panic() {
    let err = eval("9223372036854775807 + 1;").unwrap_err();
    assert_eq!(err.get_message(), "Integer overflow");
    let err = eval("9223372036854775807 * 2;").unwrap_err();
    assert_eq!(err.get_message(), "Integer overflow");
}

#[test]
fn grouping_leaves_its_closing_paren_to_the_lenient_consume() {
    // primary stops at the `)` without consuming it, so what follows the
    // grouping is skipped on the way to the semicolon
    assert_eq!(eval("(1 + 2) * 3;").unwrap(), Value::Int(3));
}

#[test]
fn string_concatenation_and_comparison() {
    assert_eq!(
        eval("\"foo\" + \"bar\";").unwrap(),
        Value::String("foobar".to_string())
    );
    assert_eq!(eval("\"abc\" < \"abd\";").unwrap(), Value::Bool(true));
    assert_eq!(eval("\"abc\" < \"ab\";").unwrap(), Value::Bool(false));
    assert_eq!(eval("\"ab\" <= \"ab\";").unwrap(), Value::Bool(true));
    assert_eq!(eval("\"b\" > \"a\";").unwrap(), Value::Bool(true));
    assert_eq!(eval("\"a\" >= \"b\";").unwrap(), Value::Bool(false));
    assert_eq!(eval("\"x\" == \"x\";").unwrap(), Value::Bool(true));
    assert_eq!(eval("\"x\" != \"y\";").unwrap(), Value::Bool(true));
}

#[test]
fn empty_string_comparisons() {
    assert_eq!(eval("\"\" < \"a\";").unwrap(), Value::Bool(true));
    assert_eq!(eval("\"a\" < \"\";").unwrap(), Value::Bool(false));
    assert_eq!(eval("\"\" == \"\";").unwrap(), Value::Bool(true));
    assert_eq!(eval("\"\" <= \"\";").unwrap(), Value::Bool(true));
    assert_eq!(
        eval("\"\" + \"\";").unwrap(),
        Value::String(String::new())
    );
}

#[test]
fn boolean_comparison_orders_false_before_true() {
    assert_eq!(eval("false < true;").unwrap(), Value::Bool(true));
    assert_eq!(eval("true <= false;").unwrap(), Value::Bool(false));
    assert_eq!(eval("true > false;").unwrap(), Value::Bool(true));
    assert_eq!(eval("false >= true;").unwrap(), Value::Bool(false));
    assert_eq!(eval("true == true;").unwrap(), Value::Bool(true));
    assert_eq!(eval("true != false;").unwrap(), Value::Bool(true));
}

#[test]
fn null_compares_equal_only_to_null() {
    assert_eq!(eval("null == null;").unwrap(), Value::Bool(true));
    assert_eq!(eval("null == 1;").unwrap(), Value::Bool(false));
    assert_eq!(eval("1 == null;").unwrap(), Value::Bool(false));
    assert_eq!(eval("null != null;").unwrap(), Value::Bool(false));
    assert_eq!(eval("null != \"x\";").unwrap(), Value::Bool(true));
}

#[test]
fn null_is_never_orderable() {
    let err = eval("null < null;").unwrap_err();
    assert_eq!(err.get_message(), "Cannot compare Null and Null");
    let err = eval("null < 1;").unwrap_err();
    assert_eq!(err.get_message(), "Cannot compare Null and Int");
}

#[test]
fn mixed_type_operations_fail_with_named_types() {
    assert_eq!(
        eval("1 + \"x\";").unwrap_err().get_message(),
        "Cannot add Int and String"
    );
    assert_eq!(
        eval("\"x\" - 1;").unwrap_err().get_message(),
        "Cannot subtract String and Int"
    );
    assert_eq!(
        eval("true * false;").unwrap_err().get_message(),
        "Cannot multiply Bool and Bool"
    );
    assert_eq!(
        eval("\"x\" / 2;").unwrap_err().get_message(),
        "Cannot divide String and Int"
    );
    assert_eq!(
        eval("1 == \"x\";").unwrap_err().get_message(),
        "Cannot compare Int and String"
    );
    assert_eq!(
        eval("true < 1;").unwrap_err().get_message(),
        "Cannot compare Bool and Int"
    );
}

#[test]
fn unary_operators() {
    assert_eq!(eval("-5;").unwrap(), Value::Int(-5));
    assert_eq!(eval("!true;").unwrap(), Value::Bool(false));
    assert_eq!(eval("!false;").unwrap(), Value::Bool(true));
    assert_eq!(
        eval("-true;").unwrap_err().get_message(),
        "Cannot apply '-' unary operator to Bool"
    );
    assert_eq!(
        eval("!1;").unwrap_err().get_message(),
        "Cannot apply '!' unary operator to Int"
    );
    assert_eq!(
        eval("!null;").unwrap_err().get_message(),
        "Cannot apply '!' unary operator to Null"
    );
    assert_eq!(
        eval("-\"x\";").unwrap_err().get_message(),
        "Cannot apply '-' unary operator to String"
    );
}

#[test]
fn grouping_evaluates_its_inner_expression() {
    assert_eq!(eval("(((7)));").unwrap(), Value::Int(7));
}

#[test]
fn hand_built_trees_evaluate_without_panicking() {
    // a deep chain of groupings, unaries and binaries over every value shape
    let interp = Interpreter::new();
    let deep = Expr::Unary(
        UnaryOp::Minus,
        Box::new(Expr::Grouping(Box::new(Expr::Binary(
            Box::new(ilit(2)),
            BinaryOp::Star,
            Box::new(Expr::Binary(
                Box::new(ilit(3)),
                BinaryOp::Plus,
                Box::new(ilit(4)),
            )),
        )))),
    );
    assert_eq!(interp.interpret_expr(deep).unwrap(), Value::Int(-14));

    let bad = Expr::Binary(
        Box::new(Expr::Literal(None)),
        BinaryOp::Plus,
        Box::new(Expr::Literal(Some(ExprLiteral::Str("s".to_string())))),
    );
    assert_eq!(
        interp.interpret_expr(bad).unwrap_err().get_message(),
        "Cannot add Null and String"
    );

    let overflowing = Expr::Binary(
        Box::new(Expr::Unary(UnaryOp::Minus, Box::new(ilit(i64::MAX)))),
        BinaryOp::Minus,
        Box::new(ilit(2)),
    );
    assert_eq!(
        interp.interpret_expr(overflowing).unwrap_err().get_message(),
        "Integer overflow"
    );

    let min_div = Expr::Binary(
        Box::new(ilit(i64::MIN)),
        BinaryOp::Slash,
        Box::new(ilit(-1)),
    );
    assert_eq!(
        interp.interpret_expr(min_div).unwrap_err().get_message(),
        "Integer overflow"
    );
}

#[test]
fn eval_binary_values_matches_the_operator_table() {
    let interp = Interpreter::new();
    assert_eq!(
        interp
            .eval_binary_values(BinaryOp::Plus, Value::Int(20), Value::Int(22))
            .unwrap(),
        Value::Int(42)
    );
    assert_eq!(
        interp
            .eval_binary_values(
                BinaryOp::Star,
                Value::String("ab".to_string()),
                Value::Int(2)
            )
            .unwrap(),
        Value::String("abab".to_string())
    );
}

#[test]
fn eval_unary_value_matches_the_operator_table() {
    let interp = Interpreter::new();
    assert_eq!(
        interp
            .eval_unary_value(UnaryOp::Minus, Value::Int(9))
            .unwrap(),
        Value::Int(-9)
    );
    assert_eq!(
        interp
            .eval_unary_value(UnaryOp::Minus, Value::Int(i64::MIN))
            .unwrap_err()
            .get_message(),
        "Integer overflow"
    );
}

#[test]
fn get_type_names_each_variant() {
    assert_eq!(Value::Int(1).get_type(), "Int");
    assert_eq!(Value::String("x".to_string()).get_type(), "String");
    assert_eq!(Value::Bool(true).get_type(), "Bool");
    assert_eq!(Value::Null.get_type(), "Null");
}

#[test]
fn expression_statement_produces_no_output() {
    let (interp, r) = run("1 + 2; \"x\";");
    assert!(r.is_ok());
    assert!(interp.output.is_empty());
}

#[test]
fn tree_renderings() {
    let e = Expr::Binary(
        Box::new(ilit(1)),
        BinaryOp::Plus,
        Box::new(Expr::Binary(
            Box::new(ilit(2)),
            BinaryOp::Star,
            Box::new(ilit(3)),
        )),
    );
    assert_eq!(tree_text_pretty(&e), "Int(1) + Int(2) * Int(3)");
    assert_eq!(tree_text(&e), "+ (Int(1) * (Int(2) Int(3)))");
    let g = Expr::Grouping(Box::new(Expr::Unary(
        UnaryOp::Bang,
        Box::new(Expr::Literal(Some(ExprLiteral::Bool(true)))),
    )));
    assert_eq!(tree_text_pretty(&g), "( !Bool(true) )");
    let f = Expr::Literal(Some(ExprLiteral::Float("1.5".to_string())));
    assert_eq!(tree_text_pretty(&f), "Float(1.5)");
    let n = Expr::Literal(None);
    assert_eq!(tree_text_pretty(&n), "");
    let s = Expr::Literal(Some(ExprLiteral::Str("hi".to_string())));
    assert_eq!(tree_text(&s), "Str(\"hi\")");
}

#[test]
fn duplicate_copies_a_tree() {
    let e = Expr::Binary(
        Box::new(ilit(1)),
        BinaryOp::Plus,
        Box::new(Expr::Literal(Some(ExprLiteral::Str("x".to_string())))),
    );
    let d = e.duplicate();
    assert_eq!(tree_text(&d), tree_text(&e));
}

#[test]
fn error_enum_carries_its_message() {
    let e = Error::ScannerError {
        msg: "bad input".to_string(),
    };
    assert_eq!(e.message(), "bad input");
    let e = Error::ParserError {
        msg: "bad syntax".to_string(),
    };
    assert_eq!(e.message(), "bad syntax");
}

#[test]
fn node_links_and_borrows_its_children() {
    let mut n = Node::new(ilit(1));
    assert!(n.get_left().is_none());
    assert!(n.get_right().is_none());
    n.set_left(Box::new(Node::new(ilit(2))));
    n.set_right(Box::new(Node::new(ilit(3))));
    match n.get_left() {
        Some(l) => l.value = ilit(4),
        None => panic!("left child expected"),
    }
    let left = n.left_child.as_ref().unwrap();
    assert_eq!(tree_text(&left.value), "Int(4)");
    let right = n.right_child.as_ref().unwrap();
    assert_eq!(tree_text(&right.value), "Int(3)");
}
