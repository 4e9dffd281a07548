//! The dice-expression front end: lexer, parser, analyzer, and the text
//! utilities behind the intrinsic runtime.

use dice_rust::analyzer::SemanticAnalyzer;
use dice_rust::ast::{ExpressionKind, StatementKind};
use dice_rust::errors::{ParseError, SemanticError};
use dice_rust::lexer::{Lexer, TokenKind};
use dice_rust::parser::Parser;
use dice_rust::text::{int_to_string, parse_int_text, parse_u32_digits};

fn parsed_dice(source: &str) -> (u32, u32) {
    let mut analyzer = SemanticAnalyzer::new(source).unwrap();
    let program = analyzer.analyze().unwrap();
    let stmt = program.statement.unwrap();
    let StatementKind::Expression { expr } = stmt.kind;
    let ExpressionKind::Dice { count, faces } = expr.kind;
    (count, faces)
}

#[test]
fn lexing_a_dice_expression_yields_three_tokens_and_eof() {
    let lexer = Lexer::new("2d100");
    let tokens = lexer.lex().unwrap();
    let kinds: Vec<TokenKind> = tokens.iter().map(|t| t.kind).collect();
    assert_eq!(
        kinds,
        vec![
            TokenKind::U32(2),
            TokenKind::Dice,
            TokenKind::U32(100),
            TokenKind::Eof
        ]
    );
}

#[test]
fn the_capital_dice_operator_lexes_too() {
    let lexer = Lexer::new("1D8");
    let tokens = lexer.lex().unwrap();
    assert_eq!(tokens[1].kind, TokenKind::Dice);
}

#[test]
fn an_unexpected_character_is_a_lexical_error() {
    let lexer = Lexer::new("2+6");
    match lexer.lex() {
        Err(ParseError::LexicalError { .. }) => {}
        other => panic!("expected a lexical error, got {:?}", other),
    }
}

#[test]
fn a_long_identifier_is_no_dice_operator() {
    let lexer = Lexer::new("2dd6");
    assert!(lexer.lex().is_err());
}

#[test]
fn an_oversized_count_is_an_invalid_number() {
    let lexer = Lexer::new("99999999999d2");
    match lexer.lex() {
        Err(ParseError::InvalidNumberLiteral { .. }) => {}
        other => panic!("expected an invalid-number error, got {:?}", other),
    }
}

#[test]
fn parsing_builds_the_dice_node() {
    let mut parser = Parser::new("3d4").unwrap();
    let program = parser.parse().unwrap();
    let stmt = program.statement.unwrap();
    let StatementKind::Expression { expr } = stmt.kind;
    let ExpressionKind::Dice { count, faces } = expr.kind;
    assert_eq!((count, faces), (3, 4));
}

#[test]
fn a_leading_operator_is_a_syntax_error() {
    let mut parser = Parser::new("d6").unwrap();
    assert!(parser.parse().is_err());
}

#[test]
fn a_missing_face_count_is_refused() {
    let mut parser = Parser::new("3d").unwrap();
    assert!(parser.parse().is_err());
}

#[test]
fn the_analyzer_accepts_a_sound_expression() {
    assert_eq!(parsed_dice("2d6"), (2, 6));
}

#[test]
fn a_zero_count_is_a_semantic_error() {
    let mut analyzer = SemanticAnalyzer::new("0d6").unwrap();
    assert_eq!(analyzer.analyze().unwrap_err(), SemanticError::DiceCountZero);
}

#[test]
fn zero_faces_are_a_semantic_error() {
    let mut analyzer = SemanticAnalyzer::new("2d0").unwrap();
    assert_eq!(analyzer.analyze().unwrap_err(), SemanticError::DiceFacesZero);
}

#[test]
fn integers_render_in_decimal() {
    assert_eq!(int_to_string(0), "0");
    assert_eq!(int_to_string(-45), "-45");
    assert_eq!(int_to_string(2147483647), "2147483647");
    assert_eq!(int_to_string(-2147483648), "-2147483648");
}

#[test]
fn decimal_text_parses_exactly() {
    assert_eq!(parse_int_text("-123"), Some(-123));
    assert_eq!(parse_int_text("+7"), Some(7));
    assert_eq!(parse_int_text("2147483647"), Some(2147483647));
    assert_eq!(parse_int_text("-2147483648"), Some(-2147483648));
    assert_eq!(parse_int_text("2147483648"), None);
    assert_eq!(parse_int_text("12a"), None);
    assert_eq!(parse_int_text(""), None);
    assert_eq!(parse_u32_digits("4294967295"), Some(4294967295));
    assert_eq!(parse_u32_digits("4294967296"), None);
}

#[test]
fn tokens_come_one_at_a_time() {
    let mut lexer = Lexer::new("4d8");
    assert_eq!(lexer.next_token().unwrap().kind, TokenKind::U32(4));
    assert_eq!(lexer.next_token().unwrap().kind, TokenKind::Dice);
    assert_eq!(lexer.next_token().unwrap().kind, TokenKind::U32(8));
    assert_eq!(lexer.next_token().unwrap().kind, TokenKind::Eof);
    assert_eq!(lexer.next_token().unwrap().kind, TokenKind::Eof);
}

#[test]
fn trailing_tokens_after_a_dice_expression_are_refused() {
    match SemanticAnalyzer::new("2d3d4") {
        Err(ParseError::UnexpectedEndOfInput) => {}
        Err(other) => panic!("expected the end-of-input fault, got {:?}", other),
        Ok(_) => panic!("expected the end-of-input fault, got a parse"),
    }
}

#[test]
fn an_oversized_number_is_pinned_to_the_number_fault() {
    match SemanticAnalyzer::new("2d99999999999") {
        Err(ParseError::InvalidNumberLiteral { .. }) => {}
        Err(other) => panic!("expected an invalid-number error, got {:?}", other),
        Ok(_) => panic!("expected an invalid-number error, got a parse"),
    }
}

#[test]
fn a_bad_character_is_pinned_to_the_lexical_fault() {
    match SemanticAnalyzer::new("2%3") {
        Err(ParseError::LexicalError { .. }) => {}
        Err(other) => panic!("expected a lexical error, got {:?}", other),
        Ok(_) => panic!("expected a lexical error, got a parse"),
    }
}
