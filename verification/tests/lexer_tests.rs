use zyxt::lexer::lex;
use zyxt::token::{OprType, TokenType};

#[test]
fn lex_empty_input_gives_no_tokens() {
    let r = lex(String::from("   \n  "), "test.zy").unwrap();
    assert!(r.is_empty());
}

#[test]
fn lex_declaration() {
    let r = lex(String::from("x := 1"), "test.zy").unwrap();
    let types: Vec<TokenType> = r.iter().map(|t| t.type_).collect();
    assert_eq!(
        types,
        vec![TokenType::Variable, TokenType::DeclarationOpr, TokenType::LiteralNumber]
    );
    assert_eq!(r[0].value, "x");
    assert_eq!(r[2].value, "1");
    assert_eq!(r[2].whitespace, " ");
    assert_eq!(r[0].position.line, 1);
    assert_eq!(r[0].position.column, 1);
}

#[test]
fn lex_operator() {
    let r = lex(String::from("1 + 2"), "t").unwrap();
    assert_eq!(r[1].type_, TokenType::NormalOpr(OprType::Plus));
}

use zyxt::lexer::{clean_whitespaces, old_lex};
use zyxt::token::{Keyword, Side, Token};
use zyxt::position::Position;

fn types_of(v: &[Token]) -> Vec<TokenType> {
    v.iter().map(|t| t.type_).collect()
}

fn values_of(v: &[Token]) -> Vec<String> {
    v.iter().map(|t| t.value.clone()).collect()
}

#[test]
fn lex_positions_follow_lines() {
    let r = lex(String::from("a\nbc"), "t").unwrap();
    assert_eq!(values_of(&r), vec!["a", "bc"]);
    assert_eq!(r[1].position.line, 2);
    assert_eq!(r[1].position.column, 1);
    assert_eq!(r[1].whitespace, "\n");
}

#[test]
fn lex_reads_a_string_literal() {
    let r = lex(String::from("\"hi there\""), "t").unwrap();
    assert_eq!(r.len(), 1);
    assert_eq!(r[0].type_, TokenType::LiteralString);
}

#[test]
fn lex_unknown_grapheme_is_error_2_1_1() {
    let e = lex(String::from("a\u{301}"), "t").unwrap_err();
    assert_eq!(e.code, "2.1.1");
    assert_eq!(e.raw, "a\u{301}");
    assert_eq!(e.message, "Ident `a\u{301}` not recognised by lexer");
}

#[test]
fn lex_has_no_whitespace_tokens() {
    let r = lex(String::from("  a  +   b  "), "t").unwrap();
    assert!(r.iter().all(|t| t.type_ != TokenType::Whitespace));
    assert_eq!(values_of(&r), vec!["a", "+", "b"]);
}

fn tok(value: &str, type_: TokenType) -> Token {
    Token {
        value: String::from(value),
        type_,
        position: Position::default_pos(),
        categories: &[],
        whitespace: String::new(),
    }
}

#[test]
fn clean_whitespaces_moves_white_space_onto_the_next_token() {
    let input = vec![
        tok(" ", TokenType::Whitespace),
        tok("a", TokenType::Variable),
        tok("\t", TokenType::Whitespace),
        tok(" ", TokenType::Whitespace),
        tok("b", TokenType::Variable),
        tok("\n", TokenType::Whitespace),
    ];
    let out = clean_whitespaces(input);
    assert_eq!(values_of(&out), vec!["a", "b"]);
    assert_eq!(out[0].whitespace, " ");
    assert_eq!(out[1].whitespace, "\t ");
}

#[test]
fn old_lex_declaration() {
    let r = old_lex(String::from("x := 1"), "t").unwrap();
    assert_eq!(types_of(&r), vec![TokenType::Variable, TokenType::DeclarationOpr, TokenType::LiteralNumber]);
    assert_eq!(values_of(&r), vec!["x", ":=", "1"]);
    assert_eq!(r[1].whitespace, " ");
    assert_eq!(r[2].position.column, 6);
}

#[test]
fn old_lex_merges_a_decimal_number() {
    let r = old_lex(String::from("12.5"), "t").unwrap();
    assert_eq!(types_of(&r), vec![TokenType::LiteralNumber]);
    assert_eq!(values_of(&r), vec!["12.5"]);
}

#[test]
fn old_lex_keyword_and_literal_words() {
    let r = old_lex(String::from("if true"), "t").unwrap();
    assert_eq!(types_of(&r), vec![TokenType::Keyword(Keyword::If), TokenType::LiteralMisc]);
}

#[test]
fn old_lex_sign_at_the_start() {
    let r = old_lex(String::from("-1"), "t").unwrap();
    assert_eq!(
        types_of(&r),
        vec![TokenType::UnaryOpr(OprType::MinusSign, Side::Left), TokenType::LiteralNumber]
    );
}

#[test]
fn old_lex_minus_between_values() {
    let r = old_lex(String::from("a - b"), "t").unwrap();
    assert_eq!(r[1].type_, TokenType::NormalOpr(OprType::Minus));
}

#[test]
fn old_lex_line_comment() {
    let r = old_lex(String::from("// hi"), "t").unwrap();
    assert_eq!(types_of(&r), vec![TokenType::Comment]);
    assert_eq!(values_of(&r), vec!["// hi\n"]);
}

#[test]
fn old_lex_unknown_character_is_error_2_1_1() {
    let e = old_lex(String::from("x $ 1"), "t").unwrap_err();
    assert_eq!(e.code, "2.1.1");
    assert_eq!(e.message, "Ident `$` not recognised by lexer");
    assert_eq!(e.raw, "$");
}

#[test]
fn old_lex_blank_source_has_no_tokens() {
    assert!(old_lex(String::from(" \n\t"), "t").unwrap().is_empty());
}

#[test]
fn logical_operators_lex_as_binary_operators() {
    let ts = lex(String::from("a && b || c"), "t").unwrap();
    assert_eq!(ts.len(), 5);
    assert_eq!(ts[1].value, "&&");
    assert_eq!(ts[1].type_, TokenType::NormalOpr(OprType::And));
    assert_eq!(ts[1].whitespace, " ");
    assert_eq!(ts[3].value, "||");
    assert_eq!(ts[3].type_, TokenType::NormalOpr(OprType::Or));
}

#[test]
fn comparisons_in_the_older_lexer_are_binary_operators() {
    let ts = old_lex(String::from("a == b"), "t").unwrap();
    assert!(ts.iter().any(|t| t.value == "==" && t.type_ == TokenType::NormalOpr(OprType::Eq)));
    let ts = old_lex(String::from("a != b"), "t").unwrap();
    assert!(ts.iter().any(|t| t.value == "!=" && t.type_ == TokenType::NormalOpr(OprType::Noteq)));
    let ts = old_lex(String::from("a <= b"), "t").unwrap();
    assert!(ts.iter().any(|t| t.value == "<=" && t.type_ == TokenType::NormalOpr(OprType::Lteq)));
}

#[test]
fn tokens_with_their_white_space_spell_the_source() {
    let src = "  x := 1 + 2; y:=x*3 // note";
    let r = lex(String::from(src), "t").unwrap();
    let mut spelled = String::new();
    for t in r.iter() {
        spelled.push_str(&t.whitespace);
        spelled.push_str(&t.value);
    }
    assert_eq!(spelled, format!("{}\n", src));
}
