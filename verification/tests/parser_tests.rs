use loxscript::expr::{BinaryOp, Expr, ExprLiteral, Stmt, UnaryOp};
use loxscript::parser::Parser;
use loxscript::scanner::Scanner;
use loxscript::token::Token;

fn scan(src: &str) -> Vec<Token> {
    let mut scanner = Scanner::new();
    scanner.scan_from_string(src.to_string()).unwrap()
}

fn parse(src: &str) -> Result<Vec<Stmt>, loxscript::error::ParserError> {
    let mut parser = Parser::new();
    parser.parse(scan(src))
}

fn int_lit(e: &Expr) -> i64 {
    match e {
        Expr::Literal(Some(ExprLiteral::Int(v))) => *v,
        other => panic!("expected an integer literal, got {:?}", other),
    }
}

#[test]
fn multiplication_binds_tighter_than_addition() {
    let stmts = parse("1 + 2 * 3;").unwrap();
    assert_eq!(stmts.len(), 1);
    match &stmts[0] {
        Stmt::ExprStmt(Expr::Binary(left, BinaryOp::Plus, right)) => {
            assert_eq!(int_lit(left), 1);
            match &**right {
                Expr::Binary(rl, BinaryOp::Star, rr) => {
                    assert_eq!(int_lit(rl), 2);
                    assert_eq!(int_lit(rr), 3);
                }
                other => panic!("expected 2 * 3 on the right, got {:?}", other),
            }
        }
        other => panic!("expected a plus at the root, got {:?}", other),
    }
}

#[test]
fn print_statement_parses() {
    let stmts = parse("print 1;").unwrap();
    assert_eq!(stmts.len(), 1);
    match &stmts[0] {
        Stmt::Print(e) => assert_eq!(int_lit(e), 1),
        other => panic!("expected a print statement, got {:?}", other),
    }
}

#[test]
fn several_statements_parse_in_order() {
    let stmts = parse("1; print 2; 3;").unwrap();
    assert_eq!(stmts.len(), 3);
    assert!(matches!(stmts[0], Stmt::ExprStmt(_)));
    assert!(matches!(stmts[1], Stmt::Print(_)));
    assert!(matches!(stmts[2], Stmt::ExprStmt(_)));
}

#[test]
fn grouping_and_unary_parse() {
    let stmts = parse("-(1);").unwrap();
    match &stmts[0] {
        Stmt::ExprStmt(Expr::Unary(UnaryOp::Minus, inner)) => match &**inner {
            Expr::Grouping(g) => assert_eq!(int_lit(g), 1),
            other => panic!("expected a grouping, got {:?}", other),
        },
        other => panic!("expected a unary minus, got {:?}", other),
    }
}

#[test]
fn double_bang_parses_as_nested_unary() {
    let stmts = parse("!!true;").unwrap();
    match &stmts[0] {
        Stmt::ExprStmt(Expr::Unary(UnaryOp::Bang, inner)) => match &**inner {
            Expr::Unary(UnaryOp::Bang, inner2) => {
                assert!(matches!(
                    &**inner2,
                    Expr::Literal(Some(ExprLiteral::Bool(true)))
                ));
            }
            other => panic!("expected a nested bang, got {:?}", other),
        },
        other => panic!("expected a bang, got {:?}", other),
    }
}

#[test]
fn null_parses_to_empty_literal() {
    let stmts = parse("null;").unwrap();
    assert!(matches!(stmts[0], Stmt::ExprStmt(Expr::Literal(None))));
}

#[test]
fn comparison_and_equality_parse() {
    let stmts = parse("1 < 2 == true;").unwrap();
    match &stmts[0] {
        Stmt::ExprStmt(Expr::Binary(left, BinaryOp::EqualEqual, right)) => {
            assert!(matches!(&**left, Expr::Binary(_, BinaryOp::Less, _)));
            assert!(matches!(
                &**right,
                Expr::Literal(Some(ExprLiteral::Bool(true)))
            ));
        }
        other => panic!("expected an equality at the root, got {:?}", other),
    }
}

#[test]
fn only_first_operator_of_a_run_is_consumed() {
    // The binary rules hand back the first pair they build, and the lenient
    // semicolon consume skips what is left of the run.
    let stmts = parse("1 + 2 + 3;").unwrap();
    assert_eq!(stmts.len(), 1);
    match &stmts[0] {
        Stmt::ExprStmt(Expr::Binary(left, BinaryOp::Plus, right)) => {
            assert_eq!(int_lit(left), 1);
            assert_eq!(int_lit(right), 2);
        }
        other => panic!("expected a plus of two literals, got {:?}", other),
    }
}

#[test]
fn invalid_leading_token_fails_with_its_lexeme_and_line() {
    let err = parse(")").unwrap_err();
    assert_eq!(err.get_message(), "Invalid syntax ')' in line 1");
    assert!(err.token.is_some());
}

#[test]
fn missing_semicolon_fails() {
    let err = parse("1 + 2").unwrap_err();
    assert_eq!(err.get_message(), "Expected ';' after value");
    assert!(err.token.is_none());
}

#[test]
fn unclosed_grouping_fails() {
    let err = parse("(1 + 2").unwrap_err();
    assert_eq!(err.get_message(), "Expected ')' after experssion");
}

#[test]
fn float_literals_parse_through() {
    let stmts = parse("1.5;").unwrap();
    match &stmts[0] {
        Stmt::ExprStmt(Expr::Literal(Some(ExprLiteral::Float(text)))) => {
            assert_eq!(text, "1.5");
        }
        other => panic!("expected a float literal, got {:?}", other),
    }
}

#[test]
fn string_literal_parses_through() {
    let stmts = parse("\"hi\";").unwrap();
    match &stmts[0] {
        Stmt::ExprStmt(Expr::Literal(Some(ExprLiteral::Str(text)))) => {
            assert_eq!(text, "hi");
        }
        other => panic!("expected a string literal, got {:?}", other),
    }
}

#[test]
fn reset_gives_a_fresh_parser_for_the_next_run() {
    let mut parser = Parser::new();
    let first = parser.parse(scan("1;")).unwrap();
    assert_eq!(first.len(), 1);
    parser.reset();
    let second = parser.parse(scan("2; 3;")).unwrap();
    assert_eq!(second.len(), 2);
}

#[test]
fn lenient_consume_skips_junk_before_the_semicolon() {
    // "1 2 ; 3": the 2 is skipped by the lenient consume, the statement is
    // the literal 1, and the trailing 3 then misses its own semicolon.
    let r = parse("1 2 ; 3");
    assert!(r.is_err());
    assert_eq!(r.unwrap_err().get_message(), "Expected ';' after value");
    let stmts = parse("1 2 ;").unwrap();
    assert_eq!(stmts.len(), 1);
    match &stmts[0] {
        Stmt::ExprStmt(e) => assert_eq!(int_lit(e), 1),
        other => panic!("expected an expression statement, got {:?}", other),
    }
}

#[test]
fn synchronize_stops_after_semicolon_or_at_keyword() {
    let mut parser = Parser::new();
    parser.tokens = scan("+ + ; 9");
    parser.synchronize();
    // cursor is past the error token and the following junk, just after `;`
    assert_eq!(parser.pos, 3);
    let mut parser = Parser::new();
    parser.tokens = scan("+ + print 9;");
    parser.synchronize();
    assert_eq!(parser.tokens[parser.pos as usize].lexeme, "print");
}
