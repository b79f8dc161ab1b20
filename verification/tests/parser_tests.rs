use zyxt::element::Element;
use zyxt::lexer::lex;
use zyxt::parser::{parse_if_expr, parse_token_list, parse_un_oprs};
use zyxt::position::Position;
use zyxt::token::{OprType, Token, TokenCategory, TokenType};

fn parse(src: &str) -> Result<Vec<Element>, zyxt::errors::ZyxtError> {
    parse_token_list(lex(String::from(src), "t").unwrap())
}

#[test]
fn a_name_parses_to_a_variable() {
    let r = parse("abc").unwrap();
    assert_eq!(r.len(), 1);
    match &r[0] {
        Element::Variable { name, parent, .. } => {
            assert_eq!(name, "abc");
            assert!(matches!(**parent, Element::NullElement));
        }
        e => panic!("{:?}", e),
    }
}

#[test]
fn a_number_parses_to_an_i32_literal() {
    let r = parse("42").unwrap();
    match &r[0] {
        Element::Literal { type_, content, .. } => {
            assert_eq!(type_.to_text(), "i32");
            assert_eq!(content, "42");
        }
        e => panic!("{:?}", e),
    }
}

#[test]
fn a_big_number_parses_to_an_i64_literal() {
    let r = parse("3000000000").unwrap();
    match &r[0] {
        Element::Literal { type_, .. } => assert_eq!(type_.to_text(), "i64"),
        e => panic!("{:?}", e),
    }
}

#[test]
fn a_text_literal_loses_its_quotes() {
    let r = parse("\"hey\"").unwrap();
    match &r[0] {
        Element::Literal { type_, content, .. } => {
            assert_eq!(type_.to_text(), "str");
            assert_eq!(content, "hey");
        }
        e => panic!("{:?}", e),
    }
}

#[test]
fn statements_are_split_at_semicolons() {
    let r = parse("a; b; c").unwrap();
    assert_eq!(r.len(), 3);
}

#[test]
fn binary_operators_split_at_the_lowest_precedence() {
    let r = parse("1 + 2 * 3").unwrap();
    assert_eq!(r.len(), 1);
    match &r[0] {
        Element::BinaryOpr { type_, operand2, .. } => {
            assert_eq!(*type_, OprType::Plus);
            assert!(matches!(**operand2, Element::BinaryOpr { type_: OprType::AstMult, .. }));
        }
        e => panic!("{:?}", e),
    }
}

#[test]
fn declaration_parses_to_a_declaration() {
    let r = parse("x := 1").unwrap();
    assert!(matches!(r[0], Element::Declare { .. }));
}

#[test]
fn declaration_without_content_is_error_2_1_5() {
    let e = parse("x :=").unwrap_err();
    assert_eq!(e.code, "2.1.5");
}

#[test]
fn else_without_if_is_error_2_1_9() {
    let toks = lex(String::from("else {1}"), "t").unwrap();
    let elements: Vec<Element> = toks.into_iter().map(Element::Token).collect();
    let e = parse_if_expr(elements).unwrap_err();
    assert_eq!(e.code, "2.1.9");
}

#[test]
fn if_else_parses_to_a_conditional() {
    let r = parse("if true {1} else {2}").unwrap();
    match &r[0] {
        Element::If { conditions, .. } => assert_eq!(conditions.len(), 2),
        e => panic!("{:?}", e),
    }
}

#[test]
fn un_oprs_leave_a_list_without_unary_operators_alone() {
    let toks = lex(String::from("a b"), "t").unwrap();
    let elements: Vec<Element> = toks.into_iter().map(Element::Token).collect();
    let r = parse_un_oprs(elements).unwrap();
    assert_eq!(r.len(), 2);
}

#[test]
fn simple_statements_split_at_semicolons() {
    let r = parse("a; 5; \"s\";").unwrap();
    assert_eq!(r.len(), 4);
    assert!(matches!(&r[0], Element::Variable { name, .. } if name == "a"));
    assert!(matches!(&r[1], Element::Literal { content, .. } if content == "5"));
    assert!(matches!(&r[2], Element::Literal { content, .. } if content == "s"));
    assert!(matches!(&r[3], Element::NullElement));
}

#[test]
fn empty_statements_are_null_elements() {
    let r = parse(";;b").unwrap();
    assert_eq!(r.len(), 3);
    assert!(matches!(&r[0], Element::NullElement));
    assert!(matches!(&r[1], Element::NullElement));
    assert!(matches!(&r[2], Element::Variable { name, .. } if name == "b"));
}

#[test]
fn a_prefix_operator_applies_to_the_element_after_it() {
    let r = parse("!a").unwrap();
    assert_eq!(r.len(), 1);
    match &r[0] {
        Element::UnaryOpr { type_, operand, .. } => {
            assert_eq!(*type_, OprType::Not);
            assert!(matches!(&**operand, Element::Variable { name, .. } if name == "a"));
        }
        e => panic!("{:?}", e),
    }
}

#[test]
fn an_if_else_chain_becomes_one_conditional() {
    let r = parse("if a {1} else {2}").unwrap();
    assert_eq!(r.len(), 1);
    match &r[0] {
        Element::If { conditions, .. } => {
            assert_eq!(conditions.len(), 2);
            assert!(matches!(&conditions[0].condition, Element::Variable { name, .. } if name == "a"));
            assert!(matches!(&conditions[1].condition, Element::NullElement));
        }
        e => panic!("{:?}", e),
    }
}

#[test]
fn a_branch_after_else_is_error_2_1_7() {
    let e = parse("if a {1} else {2} else {3}").unwrap_err();
    assert_eq!(e.code, "2.1.7");
}

#[test]
fn logical_and_parses_to_a_binary_operation() {
    let r = parse("a && b").unwrap();
    assert_eq!(r.len(), 1);
    assert!(matches!(&r[0], Element::BinaryOpr { type_: OprType::And, .. }));
}

#[test]
fn a_branch_after_else_is_error_2_1_7_after_other_elements() {
    let e = parse("x := if a {1} else {2} else {3}").unwrap_err();
    assert_eq!(e.code, "2.1.7");
}

#[test]
fn a_chain_of_names_becomes_nested_attribute_access() {
    let t = |value: &str, type_: TokenType, categories: &'static [TokenCategory]| Token {
        value: String::from(value),
        type_,
        position: Position::default_pos(),
        categories,
        whitespace: String::new(),
    };
    let toks = vec![
        t("a", TokenType::Variable, &[TokenCategory::ValueEnd]),
        t(".", TokenType::DotOpr, &[]),
        t("b", TokenType::Variable, &[TokenCategory::ValueEnd]),
        t(".", TokenType::DotOpr, &[]),
        t("c", TokenType::Variable, &[]),
    ];
    let r = parse_token_list(toks).unwrap();
    assert_eq!(r.len(), 1);
    match &r[0] {
        Element::Variable { name, raw, parent, .. } => {
            assert_eq!(name, "c");
            assert_eq!(raw, "a.b.c");
            match &**parent {
                Element::Variable { name, parent, .. } => {
                    assert_eq!(name, "b");
                    assert!(matches!(&**parent, Element::Variable { name, .. } if name == "a"));
                }
                e => panic!("{:?}", e),
            }
        }
        e => panic!("{:?}", e),
    }
}
