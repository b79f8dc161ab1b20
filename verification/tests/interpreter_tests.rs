use zyxt::element::Element;
use zyxt::interpreter::{interpret_block, interpret_expr};
use zyxt::interpreter_data::InterpreterData;
use zyxt::position::Position;
use zyxt::token::OprType;
use zyxt::typeobj::Type;
use zyxt::value::logic::{and, or};
use zyxt::value::Value;

fn lit(tname: &str, content: &str) -> Element {
    Element::Literal {
        position: Position::default_pos(),
        raw: String::from(content),
        type_: Type::from_str(tname),
        content: String::from(content),
    }
}

fn var(name: &str) -> Element {
    Element::Variable {
        position: Position::default_pos(),
        raw: String::from(name),
        name: String::from(name),
        parent: Box::new(Element::NullElement),
    }
}

#[test]
fn and_stops_at_a_false_left_operand() {
    let mut d = InterpreterData::<Value>::default_variable();
    let r = and(&lit("bool", "false"), &var("undefined"), &mut d).unwrap();
    assert!(matches!(r, Value::Bool(false)));
}

#[test]
fn and_of_two_true_operands() {
    let mut d = InterpreterData::<Value>::default_variable();
    let r = and(&lit("bool", "true"), &lit("i32", "1"), &mut d).unwrap();
    assert!(matches!(r, Value::Bool(true)));
}

#[test]
fn and_reaches_an_undefined_right_operand() {
    let mut d = InterpreterData::<Value>::default_variable();
    let e = and(&lit("bool", "true"), &var("undefined"), &mut d).unwrap_err();
    assert_eq!(e.code, "3.0");
}

#[test]
fn or_stops_at_a_true_left_operand() {
    let mut d = InterpreterData::<Value>::default_variable();
    let r = or(&lit("bool", "true"), &var("undefined"), &mut d).unwrap();
    assert!(matches!(r, Value::Bool(true)));
}

#[test]
fn or_of_false_and_zero() {
    let mut d = InterpreterData::<Value>::default_variable();
    let r = or(&lit("bool", "false"), &lit("u8", "0"), &mut d).unwrap();
    assert!(matches!(r, Value::Bool(false)));
}

#[test]
fn literal_interprets_to_its_value() {
    let mut d = InterpreterData::<Value>::default_variable();
    assert!(matches!(interpret_expr(lit("i16", "-300"), &mut d), Ok(Value::I16(-300))));
    let e = interpret_expr(lit("i8", "300"), &mut d).unwrap_err();
    assert_eq!(e.code, "0.0");
}

#[test]
fn binary_operation_failure_is_error_4_1_0() {
    let mut d = InterpreterData::<Value>::default_variable();
    let sum = Element::BinaryOpr {
        position: Position::default_pos(),
        raw: String::from("127 + 1"),
        type_: OprType::Plus,
        operand1: Box::new(lit("i8", "127")),
        operand2: Box::new(lit("i8", "1")),
    };
    let e = interpret_expr(sum, &mut d).unwrap_err();
    assert_eq!(e.code, "4.1.0");
}

#[test]
fn empty_block_is_null() {
    let mut d = InterpreterData::<Value>::default_variable();
    assert!(matches!(interpret_block(&Vec::new(), &mut d, true, true), Ok(Value::Null)));
    assert!(matches!(interpret_block(&Vec::new(), &mut d, false, false), Ok(Value::Null)));
}

#[test]
fn deferred_block_runs_when_its_frame_is_left() {
    let mut d = InterpreterData::<Value>::default_variable();
    let declare_x = Element::Declare {
        position: Position::default_pos(),
        raw: String::from("x := 1"),
        variable: Box::new(var("x")),
        content: Box::new(lit("i32", "1")),
        flags: Vec::new(),
        type_: Type::null(),
    };
    interpret_expr(declare_x, &mut d).unwrap();
    let assign = Element::Assign {
        position: Position::default_pos(),
        raw: String::from("x = 9"),
        variable: Box::new(var("x")),
        content: Box::new(lit("i32", "9")),
    };
    let defer = Element::Defer {
        position: Position::default_pos(),
        raw: String::from("defer x = 9"),
        content: vec![assign],
    };
    let block = vec![defer];
    interpret_block(&block, &mut d, true, true).unwrap();
    assert!(matches!(interpret_expr(var("x"), &mut d), Ok(Value::I32(9))));
}

fn binop(op: OprType, a: Element, b: Element) -> Element {
    Element::BinaryOpr {
        position: Position::default_pos(),
        raw: String::from("a op b"),
        type_: op,
        operand1: Box::new(a),
        operand2: Box::new(b),
    }
}

#[test]
fn binary_operation_on_literals() {
    let mut d = InterpreterData::<Value>::default_variable();
    assert!(matches!(interpret_expr(binop(OprType::Plus, lit("i32", "2"), lit("i32", "3")), &mut d), Ok(Value::I32(5))));
    assert!(matches!(interpret_expr(binop(OprType::Gt, lit("u8", "2"), lit("u8", "3")), &mut d), Ok(Value::Bool(false))));
}

#[test]
fn unary_operation_on_a_literal() {
    let mut d = InterpreterData::<Value>::default_variable();
    let neg = Element::UnaryOpr {
        position: Position::default_pos(),
        raw: String::from("-5"),
        type_: OprType::MinusSign,
        operand: Box::new(lit("i64", "5")),
    };
    assert!(matches!(interpret_expr(neg, &mut d), Ok(Value::I64(-5))));
    let bad = Element::UnaryOpr {
        position: Position::default_pos(),
        raw: String::from("-5"),
        type_: OprType::MinusSign,
        operand: Box::new(lit("u64", "5")),
    };
    assert_eq!(interpret_expr(bad, &mut d).unwrap_err().code, "4.1.1");
}

#[test]
fn type_of_a_binary_operation_on_literals() {
    let mut t = InterpreterData::<Type>::default_type();
    let mut sum = binop(OprType::Plus, lit("i16", "2"), lit("i16", "3"));
    assert_eq!(sum.eval_type(&mut t).unwrap().to_text(), "i16");
    let mut cmp = binop(OprType::Lt, lit("i16", "2"), lit("i16", "3"));
    assert_eq!(cmp.eval_type(&mut t).unwrap().to_text(), "bool");
    let mut bad = binop(OprType::Minus, lit("str", "a"), lit("i32", "1"));
    assert_eq!(bad.eval_type(&mut t).unwrap_err().code, "4.0.0");
}

#[test]
fn ter_out_prints_its_arguments_on_one_line() {
    let mut d = InterpreterData::<Value>::default_variable();
    let out = Element::Variable {
        position: Position::default_pos(),
        raw: String::from("ter.out"),
        name: String::from("out"),
        parent: Box::new(var("ter")),
    };
    let call = Element::Call {
        position: Position::default_pos(),
        raw: String::from("ter.out(1, \"a\", true)"),
        called: Box::new(out),
        args: vec![lit("i32", "1"), lit("str", "a"), lit("bool", "true")],
        kwargs: Vec::new(),
    };
    assert!(matches!(interpret_expr(call, &mut d), Ok(Value::Null)));
    assert_eq!(d.out, vec![String::from("1 a true")]);
}

fn branch(condition: Element, if_true: Vec<Element>) -> zyxt::element::Condition {
    zyxt::element::Condition { condition, if_true }
}

fn if_of(conditions: Vec<zyxt::element::Condition>) -> Element {
    Element::If { position: Position::default_pos(), raw: String::from("if"), conditions }
}

#[test]
fn if_takes_the_first_true_branch() {
    let mut d = InterpreterData::<Value>::default_variable();
    let e = if_of(vec![
        branch(lit("bool", "false"), vec![lit("i32", "1")]),
        branch(lit("bool", "true"), vec![lit("i32", "2")]),
        branch(Element::NullElement, vec![lit("i32", "3")]),
    ]);
    assert!(matches!(interpret_expr(e, &mut d), Ok(Value::I32(2))));
}

#[test]
fn if_falls_to_its_else_branch() {
    let mut d = InterpreterData::<Value>::default_variable();
    let e = if_of(vec![
        branch(lit("bool", "false"), vec![lit("i32", "1")]),
        branch(Element::NullElement, vec![lit("str", "no"), lit("i32", "3")]),
    ]);
    assert!(matches!(interpret_expr(e, &mut d), Ok(Value::I32(3))));
}

#[test]
fn if_with_no_branch_taken_is_null() {
    let mut d = InterpreterData::<Value>::default_variable();
    let e = if_of(vec![branch(lit("bool", "false"), vec![lit("i32", "1")])]);
    assert!(matches!(interpret_expr(e, &mut d), Ok(Value::Null)));
}

fn declare(name: &str, content: Element) -> Element {
    Element::Declare {
        position: Position::default_pos(),
        raw: String::from("x := v"),
        variable: Box::new(var(name)),
        content: Box::new(content),
        flags: Vec::new(),
        type_: Type::null(),
    }
}

#[test]
fn delete_removes_a_name_of_the_innermost_frame() {
    let mut d = InterpreterData::<Value>::default_variable();
    interpret_expr(declare("x", lit("i32", "4")), &mut d).unwrap();
    let del = Element::Delete {
        position: Position::default_pos(),
        raw: String::from("del x"),
        names: vec![String::from("x")],
    };
    assert!(matches!(interpret_expr(del, &mut d), Ok(Value::Null)));
    assert_eq!(interpret_expr(var("x"), &mut d).unwrap_err().code, "3.0");
    let again = Element::Delete {
        position: Position::default_pos(),
        raw: String::from("del x"),
        names: vec![String::from("x")],
    };
    assert_eq!(interpret_expr(again, &mut d).unwrap_err().code, "3.0");
}

#[test]
fn declaration_and_return_give_their_content() {
    let mut d = InterpreterData::<Value>::default_variable();
    assert!(matches!(interpret_expr(declare("y", lit("u16", "7")), &mut d), Ok(Value::U16(7))));
    let ret = Element::Return {
        position: Position::default_pos(),
        raw: String::from("ret y"),
        value: Box::new(var("y")),
    };
    match interpret_expr(ret, &mut d) {
        Ok(Value::Return(b)) => assert!(matches!(*b, Value::U16(7))),
        _ => panic!("a return gives a returned value"),
    }
}

#[test]
fn assignment_of_another_type_is_error_4_3() {
    let mut t = InterpreterData::<Type>::default_type();
    declare("z", lit("i32", "1")).eval_type(&mut t).unwrap();
    let mut assign = Element::Assign {
        position: Position::default_pos(),
        raw: String::from("z = \"s\""),
        variable: Box::new(var("z")),
        content: Box::new(lit("str", "s")),
    };
    assert_eq!(assign.eval_type(&mut t).unwrap_err().code, "4.3");
    let mut same = Element::Assign {
        position: Position::default_pos(),
        raw: String::from("z = 2"),
        variable: Box::new(var("z")),
        content: Box::new(lit("i32", "2")),
    };
    assert_eq!(same.eval_type(&mut t).unwrap().to_text(), "i32");
}

#[test]
fn declaration_with_another_type_casts_its_content() {
    let mut t = InterpreterData::<Type>::default_type();
    let mut decl = Element::Declare {
        position: Position::default_pos(),
        raw: String::from("w: i64 := 1"),
        variable: Box::new(var("w")),
        content: Box::new(lit("i32", "1")),
        flags: Vec::new(),
        type_: Type::from_str("i64"),
    };
    assert_eq!(decl.eval_type(&mut t).unwrap().to_text(), "i32");
    match decl {
        Element::Declare { content, .. } => assert!(matches!(*content, Element::BinaryOpr { type_: OprType::TypeCast, .. })),
        _ => panic!("a declaration stays a declaration"),
    }
    assert_eq!(var("w").eval_type(&mut t).unwrap().to_text(), "i64");
}

#[test]
fn empty_procedure_has_a_null_return_type() {
    let mut t = InterpreterData::<Type>::default_type();
    let mut p = Element::Procedure {
        position: Position::default_pos(),
        raw: String::from("fn {}"),
        is_fn: true,
        args: Vec::new(),
        return_type: Type::null(),
        content: Vec::new(),
    };
    match p.eval_type(&mut t).unwrap() {
        Type::Instance { name, type_args, .. } => {
            assert_eq!(name, "fn");
            assert_eq!(type_args.len(), 2);
            assert_eq!(type_args[1].to_text(), "#null");
        },
        _ => panic!("a procedure's type is an instance type"),
    }
}

fn call_of(called: Element, args: Vec<Element>) -> Element {
    Element::Call {
        position: Position::default_pos(),
        raw: String::from("f(x)"),
        called: Box::new(called),
        args,
        kwargs: Vec::new(),
    }
}

#[test]
fn an_integer_called_with_one_argument_multiplies_it() {
    let mut d = InterpreterData::<Value>::default_variable();
    assert!(matches!(interpret_expr(call_of(lit("i32", "3"), vec![lit("i32", "4")]), &mut d), Ok(Value::I32(12))));
}

#[test]
fn calling_a_string_is_error_3_1_1() {
    let mut d = InterpreterData::<Value>::default_variable();
    let e = interpret_expr(call_of(lit("str", "s"), vec![lit("i32", "4")]), &mut d).unwrap_err();
    assert_eq!(e.code, "3.1.1");
}

#[test]
fn type_of_a_call_of_ter_out_is_null() {
    let mut t = InterpreterData::<Type>::default_type();
    let out = Element::Variable {
        position: Position::default_pos(),
        raw: String::from("ter.out"),
        name: String::from("out"),
        parent: Box::new(var("ter")),
    };
    let mut c = call_of(out, vec![lit("i32", "1")]);
    assert_eq!(c.eval_type(&mut t).unwrap().to_text(), "#null");
}

#[test]
fn a_branch_runs_its_statements_in_a_frame_of_its_own() {
    let mut d = InterpreterData::<Value>::default_variable();
    let e = if_of(vec![branch(
        binop(OprType::Lt, lit("i32", "1"), lit("i32", "2")),
        vec![declare("x", lit("i32", "4")), binop(OprType::Plus, var("x"), lit("i32", "3"))],
    )]);
    assert!(matches!(interpret_expr(e, &mut d), Ok(Value::I32(7))));
    assert!(matches!(interpret_expr(var("x"), &mut d), Err(_)));
}

#[test]
fn a_block_gives_its_last_statement_after_the_others() {
    let mut d = InterpreterData::<Value>::default_variable();
    let e = Element::Block {
        position: Position::default_pos(),
        raw: String::from("{}"),
        content: vec![declare("y", lit("i32", "5")), binop(OprType::Minus, var("y"), lit("i32", "1"))],
    };
    assert!(matches!(interpret_expr(e, &mut d), Ok(Value::I32(4))));
}

#[test]
fn nested_operations_take_their_operands_values() {
    let mut d = InterpreterData::<Value>::default_variable();
    let e = binop(
        OprType::Minus,
        binop(OprType::AstMult, binop(OprType::Plus, lit("i32", "1"), lit("i32", "2")), lit("i32", "3")),
        lit("i32", "4"),
    );
    assert!(matches!(interpret_expr(e, &mut d), Ok(Value::I32(5))));
}

#[test]
fn type_of_nested_operations() {
    let mut t = InterpreterData::<Type>::default_type();
    let mut e = binop(
        OprType::Lt,
        binop(OprType::Plus, lit("i16", "2"), binop(OprType::AstMult, lit("i16", "3"), lit("i16", "4"))),
        lit("i16", "20"),
    );
    assert_eq!(e.eval_type(&mut t).unwrap().to_text(), "bool");
    let mut s = binop(OprType::Minus, binop(OprType::Plus, lit("i64", "1"), lit("i64", "2")), lit("i64", "3"));
    assert_eq!(s.eval_type(&mut t).unwrap().to_text(), "i64");
}

#[test]
fn a_declaration_of_an_operation_has_the_operation_type() {
    let mut t = InterpreterData::<Type>::default_type();
    let mut d = declare("x", binop(OprType::Plus, lit("i32", "1"), binop(OprType::AstMult, lit("i32", "2"), lit("i32", "3"))));
    assert_eq!(d.eval_type(&mut t).unwrap().to_text(), "i32");
    assert_eq!(var("x").eval_type(&mut t).unwrap().to_text(), "i32");
}

#[test]
fn a_block_of_operations_has_the_type_of_its_last_one() {
    let mut t = InterpreterData::<Type>::default_type();
    let mut b = Element::Block {
        position: Position::default_pos(),
        raw: String::from("{}"),
        content: vec![
            binop(OprType::Plus, lit("i8", "1"), lit("i8", "2")),
            binop(OprType::Lt, binop(OprType::Plus, lit("u16", "1"), lit("u16", "2")), lit("u16", "5")),
        ],
    };
    assert_eq!(b.eval_type(&mut t).unwrap().to_text(), "bool");
}

#[test]
fn checking_a_straight_line_program_succeeds() {
    let mut t = InterpreterData::<Type>::default_type();
    let prog = vec![
        declare("x", binop(OprType::Plus, lit("i32", "1"), lit("i32", "2"))),
        binop(OprType::AstMult, var("x"), lit("i32", "2")),
    ];
    let out = zyxt::instructor::gen_instructions(prog, &mut t).unwrap();
    assert_eq!(out.len(), 2);
    assert_eq!(var("x").eval_type(&mut t).unwrap().to_text(), "i32");
}

#[test]
fn an_if_returns_a_condition_error_and_tries_no_later_condition() {
    let mut d = InterpreterData::<Value>::default_variable();
    let e = if_of(vec![
        branch(lit("bool", "false"), vec![lit("i32", "1")]),
        branch(var("nowhere"), vec![lit("i32", "2")]),
    ]);
    assert_eq!(interpret_expr(e, &mut d).unwrap_err().code, "3.0");
    let f = if_of(vec![
        branch(binop(OprType::Minus, lit("str", "a"), lit("i32", "1")), vec![lit("i32", "1")]),
    ]);
    assert_eq!(interpret_expr(f, &mut d).unwrap_err().code, "4.1.0");
    let g = if_of(vec![
        branch(lit("bool", "true"), vec![lit("i32", "7")]),
        branch(var("nowhere"), vec![lit("i32", "2")]),
    ]);
    assert!(matches!(interpret_expr(g, &mut d), Ok(Value::I32(7))));
}
