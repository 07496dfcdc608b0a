use loxscript::scanner::Scanner;
use loxscript::token::{Token, TokenLiteral, TokenType};

fn scan(src: &str) -> Result<Vec<Token>, loxscript::error::ScannerError> {
    let mut scanner = Scanner::new();
    scanner.scan_from_string(src.to_string())
}

fn kinds(tokens: &[Token]) -> Vec<TokenType> {
    tokens.iter().map(|t| t.ttype).collect()
}

#[test]
fn single_punctuation_each_yields_one_token_and_eof() {
    let cases = [
        ("(", TokenType::LeftParen),
        (")", TokenType::RightParen),
        ("{", TokenType::LeftBrace),
        ("}", TokenType::RightBrace),
        (",", TokenType::Comma),
        (".", TokenType::Dot),
        ("-", TokenType::Minus),
        ("+", TokenType::Plus),
        (";", TokenType::Semicolon),
        ("*", TokenType::Star),
    ];
    for (src, kind) in cases {
        let toks = scan(src).unwrap();
        assert_eq!(toks.len(), 2, "source {:?}", src);
        assert_eq!(toks[0].ttype, kind);
        assert_eq!(toks[0].lexeme, src);
        assert!(toks[0].literal.is_none());
        assert_eq!(toks[0].line, 1);
        assert_eq!(toks[0].pos, 0);
        assert_eq!(toks[1].ttype, TokenType::Eof);
        assert_eq!(toks[1].lexeme, "eof");
    }
}

#[test]
fn two_character_operators() {
    let toks = scan("!= == <= >= ! = < >").unwrap();
    assert_eq!(
        kinds(&toks),
        vec![
            TokenType::BangEqual,
            TokenType::EqualEqual,
            TokenType::LessEqual,
            TokenType::GreaterEqual,
            TokenType::Bang,
            TokenType::Equal,
            TokenType::Less,
            TokenType::Greater,
            TokenType::Eof,
        ]
    );
}

#[test]
fn one_plus_two_scans_to_number_plus_number_eof() {
    let toks = scan("1 + 2").unwrap();
    assert_eq!(toks.len(), 4);
    assert_eq!(toks[0].ttype, TokenType::Number);
    assert!(matches!(toks[0].literal, Some(TokenLiteral::Int(1))));
    assert_eq!(toks[1].ttype, TokenType::Plus);
    assert_eq!(toks[2].ttype, TokenType::Number);
    assert!(matches!(toks[2].literal, Some(TokenLiteral::Int(2))));
    assert_eq!(toks[3].ttype, TokenType::Eof);
}

#[test]
fn fractional_numeral_scans_to_single_float_token() {
    let toks = scan("1.5").unwrap();
    assert_eq!(toks.len(), 2);
    assert_eq!(toks[0].ttype, TokenType::Number);
    assert_eq!(toks[0].lexeme, "1.5");
    match &toks[0].literal {
        Some(TokenLiteral::Float(text)) => assert_eq!(text, "1.5"),
        other => panic!("expected a float literal, got {:?}", other),
    }
}

#[test]
fn trailing_dot_numeral_fails() {
    let err = scan("100.").unwrap_err();
    assert_eq!(err.get_message(), "Invalid syntax in line 1");
}

#[test]
fn trailing_dot_numeral_fails_mid_input_too() {
    let err = scan("100.abc").unwrap_err();
    assert_eq!(err.get_message(), "Invalid syntax in line 1");
}

#[test]
fn numeral_with_two_dots_fails() {
    let err = scan("1.2.3").unwrap_err();
    assert_eq!(err.get_message(), "Invalid syntax '1.2.3' in line 1");
}

#[test]
fn int_numeral_too_large_for_i64_fails() {
    let toks = scan("9223372036854775807").unwrap();
    assert!(matches!(
        toks[0].literal,
        Some(TokenLiteral::Int(9223372036854775807))
    ));
    let err = scan("9223372036854775808").unwrap_err();
    assert_eq!(
        err.get_message(),
        "Invalid syntax '9223372036854775808' in line 1"
    );
}

#[test]
fn unterminated_string_fails_with_opening_line() {
    let err = scan("\"abc").unwrap_err();
    assert_eq!(err.get_message(), "String in line 1 is not closed");
    assert_eq!(err.line, 1);
    assert_eq!(err.pos, 0);
    assert_eq!(err.source_line, "\"abc");
}

#[test]
fn closed_string_scans_to_one_token_with_quoted_lexeme() {
    let toks = scan("\"abc\"").unwrap();
    assert_eq!(toks.len(), 2);
    assert_eq!(toks[0].ttype, TokenType::String);
    assert_eq!(toks[0].lexeme, "\"abc\"");
    match &toks[0].literal {
        Some(TokenLiteral::Str(text)) => assert_eq!(text, "abc"),
        other => panic!("expected a string literal, got {:?}", other),
    }
}

#[test]
fn string_with_embedded_newline_advances_line_counter() {
    let toks = scan("\"a\nb\" x").unwrap();
    assert_eq!(toks[0].ttype, TokenType::String);
    match &toks[0].literal {
        Some(TokenLiteral::Str(text)) => assert_eq!(text, "a\nb"),
        other => panic!("expected a string literal, got {:?}", other),
    }
    // the string token records the opening line
    assert_eq!(toks[0].line, 1);
    // what follows it is on the next line
    assert_eq!(toks[1].ttype, TokenType::Identifier);
    assert_eq!(toks[1].line, 2);
}

#[test]
fn nested_block_comment_scans_to_nothing() {
    let toks = scan("/* a /* b */ c */").unwrap();
    assert_eq!(toks.len(), 1);
    assert_eq!(toks[0].ttype, TokenType::Eof);
}

#[test]
fn unclosed_block_comment_fails() {
    let err = scan("/* a").unwrap_err();
    assert_eq!(err.get_message(), "Comment in line 1 is not closed");
}

#[test]
fn unclosed_nested_comment_reports_outermost_opening_line() {
    let err = scan("/* a\n/* b */").unwrap_err();
    assert_eq!(err.get_message(), "Comment in line 1 is not closed");
}

#[test]
fn line_comment_discards_rest_of_line() {
    let toks = scan("1 // rest is ignored ; + 2\n3").unwrap();
    assert_eq!(
        kinds(&toks),
        vec![TokenType::Number, TokenType::Number, TokenType::Eof]
    );
    assert_eq!(toks[0].line, 1);
    assert_eq!(toks[1].line, 2);
}

#[test]
fn slash_alone_is_a_token() {
    let toks = scan("1 / 2").unwrap();
    assert_eq!(
        kinds(&toks),
        vec![
            TokenType::Number,
            TokenType::Slash,
            TokenType::Number,
            TokenType::Eof
        ]
    );
}

#[test]
fn keywords_booleans_and_identifiers() {
    let toks = scan("if else class fn for while null print return super this let and or").unwrap();
    assert_eq!(
        kinds(&toks),
        vec![
            TokenType::If,
            TokenType::Else,
            TokenType::Class,
            TokenType::Fn,
            TokenType::For,
            TokenType::While,
            TokenType::Null,
            TokenType::Print,
            TokenType::Return,
            TokenType::Super,
            TokenType::This,
            TokenType::Let,
            TokenType::And,
            TokenType::Or,
            TokenType::Eof,
        ]
    );
    let toks = scan("true false truthy _x").unwrap();
    assert_eq!(toks[0].ttype, TokenType::Bool);
    assert!(matches!(toks[0].literal, Some(TokenLiteral::Bool(true))));
    assert_eq!(toks[1].ttype, TokenType::Bool);
    assert!(matches!(toks[1].literal, Some(TokenLiteral::Bool(false))));
    assert_eq!(toks[2].ttype, TokenType::Identifier);
    assert_eq!(toks[2].lexeme, "truthy");
    assert_eq!(toks[3].ttype, TokenType::Identifier);
    assert_eq!(toks[3].lexeme, "_x");
}

#[test]
fn keyword_token_records_its_start_column() {
    let toks = scan("  print x").unwrap();
    assert_eq!(toks[0].ttype, TokenType::Print);
    assert_eq!(toks[0].pos, 2);
    assert_eq!(toks[1].ttype, TokenType::Identifier);
    assert_eq!(toks[1].pos, 8);
}

#[test]
fn unexpected_character_fails_with_the_character_and_line() {
    let err = scan("1\n@").unwrap_err();
    assert_eq!(err.get_message(), "Unexpected character '@' in line 2");
    assert_eq!(err.line, 2);
    assert_eq!(err.pos, 0);
    assert_eq!(err.source_line, "@");
}

#[test]
fn newlines_advance_the_line_counter() {
    let toks = scan("1\n2\n3").unwrap();
    assert_eq!(toks[0].line, 1);
    assert_eq!(toks[1].line, 2);
    assert_eq!(toks[2].line, 3);
}

#[test]
fn reset_allows_scanning_a_second_source() {
    let mut scanner = Scanner::new();
    let first = scanner.scan_from_string("1".to_string()).unwrap();
    assert_eq!(first.len(), 2);
    scanner.reset();
    let second = scanner.scan_from_string("2 3".to_string()).unwrap();
    assert_eq!(second.len(), 3);
    assert!(matches!(second[0].literal, Some(TokenLiteral::Int(2))));
}

#[test]
fn empty_source_scans_to_eof_alone() {
    let toks = scan("").unwrap();
    assert_eq!(toks.len(), 1);
    assert_eq!(toks[0].ttype, TokenType::Eof);
    assert_eq!(toks[0].line, 1);
    assert_eq!(toks[0].pos, 0);
}

#[test]
fn scan_tokens_on_a_fresh_scanner_yields_eof() {
    let mut scanner = Scanner::new();
    let toks = scanner.scan_tokens().unwrap();
    assert_eq!(kinds(&toks), vec![TokenType::Eof]);
}

#[test]
fn spaces_tabs_and_carriage_returns_only_advance_the_column() {
    let toks = scan("\t\r 1").unwrap();
    assert_eq!(toks[0].ttype, TokenType::Number);
    assert_eq!(toks[0].line, 1);
    assert_eq!(toks[0].pos, 4);
}

#[test]
fn token_new_builds_the_token_given() {
    let t = Token::new(TokenType::Plus, "+".to_string(), None, 3, 7);
    assert_eq!(t.ttype, TokenType::Plus);
    assert_eq!(t.lexeme, "+");
    assert!(t.literal.is_none());
    assert_eq!(t.line, 3);
    assert_eq!(t.pos, 7);
}
