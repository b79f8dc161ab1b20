use zyxt::compile;
use zyxt::interpret;
use zyxt::interpreter::interpret_expr;
use zyxt::interpreter_data::InterpreterData;
use zyxt::typeobj::Type;
use zyxt::value::Value;

fn run(src: &str) -> Result<i32, zyxt::errors::ZyxtError> {
    let mut typelist = InterpreterData::<Type>::default_type();
    let mut i_data = InterpreterData::<Value>::default_variable();
    let instructions = compile(String::from(src), "test.zy", &mut typelist)?;
    interpret(&instructions, &mut i_data)
}

fn last_value(src: &str) -> Value {
    let mut typelist = InterpreterData::<Type>::default_type();
    let mut i_data = InterpreterData::<Value>::default_variable();
    let instructions = compile(String::from(src), "test.zy", &mut typelist).unwrap();
    let mut last = Value::Null;
    for instr in instructions {
        last = interpret_expr(instr, &mut i_data).unwrap();
    }
    last
}

#[test]
fn empty_program_exits_with_zero() {
    assert_eq!(run("").unwrap(), 0);
    assert_eq!(run("   \n ").unwrap(), 0);
}

#[test]
fn program_ending_in_an_i32_exits_with_it() {
    assert_eq!(run("3").unwrap(), 3);
}

#[test]
fn program_ending_in_a_sum_exits_with_it() {
    assert_eq!(run("1 + 2").unwrap(), 3);
}

#[test]
fn declared_variable_reads_back() {
    assert_eq!(run("x := 5; x").unwrap(), 5);
}

#[test]
fn assignment_changes_the_variable() {
    assert_eq!(run("x := 5; x = 7; x").unwrap(), 7);
}

#[test]
fn undefined_variable_is_error_3_0() {
    let e = run("y").unwrap_err();
    assert_eq!(e.code, "3.0");
    assert_eq!(e.message, "Undefined variable `y`");
}

#[test]
fn program_ending_in_a_string_is_error_4_2() {
    let e = run("\"abc\"").unwrap_err();
    assert_eq!(e.code, "4.2");
}

#[test]
fn string_literal_interprets_to_its_text() {
    match last_value("\"abc\"") {
        Value::Str(s) => assert_eq!(s, "abc"),
        v => panic!("unexpected {:?}", v),
    }
}

#[test]
fn comparison_gives_a_boolean() {
    match last_value("2 > 1") {
        Value::Bool(b) => assert!(b),
        v => panic!("unexpected {:?}", v),
    }
}

#[test]
fn heap_lists_declared_variables() {
    let mut typelist = InterpreterData::<Type>::default_type();
    let mut i_data = InterpreterData::<Value>::default_variable();
    let instructions = compile(String::from("x := 5"), "test.zy", &mut typelist).unwrap();
    for instr in instructions {
        interpret_expr(instr, &mut i_data).unwrap();
    }
    let listing = i_data.heap_to_string();
    assert!(listing.ends_with("-------\nx: i32 = 5"), "{}", listing);
    assert!(listing.starts_with("str: type = <str>\ni8: type = <i8>"), "{}", listing);
}

#[test]
fn operator_at_the_end_is_error_2_1_3() {
    let e = run("1 +").unwrap_err();
    assert_eq!(e.code, "2.1.3");
}

#[test]
fn unclosed_parenthesis_is_a_syntax_error() {
    let e = run("(1 + 2").unwrap_err();
    assert!(e.code.starts_with("2.0"), "{:?}", e);
}

#[test]
fn assignment_to_undeclared_variable_is_error_3_0() {
    let e = run("z = 1").unwrap_err();
    assert_eq!(e.code, "3.0");
}

#[test]
fn subtracting_from_a_string_is_error_4_0_0() {
    let e = run("\"a\" - 1").unwrap_err();
    assert_eq!(e.code, "4.0.0");
}

#[test]
fn law_write_then_read_on_a_program() {
    match last_value("x := 2; x = x * 21; x") {
        Value::I32(v) => assert_eq!(v, 42),
        v => panic!("unexpected {:?}", v),
    }
}

#[test]
fn law_declared_type_reads_back_on_a_program() {
    let mut typelist = InterpreterData::<Type>::default_type();
    let instructions = compile(String::from("x := \"hi\""), "test.zy", &mut typelist).unwrap();
    assert_eq!(instructions.len(), 1);
    let mut read = compile(String::from("y := 3"), "test.zy", &mut typelist).unwrap();
    assert_eq!(read.len(), 1);
    let mut read = compile(String::from("x"), "test.zy", &mut typelist).unwrap();
    let t = read.remove(0).eval_type(&mut typelist).unwrap();
    assert_eq!(t.to_text(), "str");
}

#[test]
fn straight_line_program_uses_earlier_declarations() {
    assert_eq!(run("x := 2; y := x + 3; x = y * 2; x").unwrap(), 10);
}

#[test]
fn program_ending_in_a_declaration_exits_with_its_value() {
    assert_eq!(run("z := 4").unwrap(), 4);
}

#[test]
fn logical_and_of_comparisons_runs() {
    assert_eq!(last_value("1 < 2 && 2 < 3").to_text(), "true");
}

#[test]
fn a_declaration_of_a_nested_expression_reads_back() {
    assert_eq!(run("x := 2; y := x * (x + 3); y").unwrap(), 10);
}

#[test]
fn a_returned_i32_is_the_exit_code() {
    assert_eq!(run("x := 5; ret x + 1").unwrap(), 6);
}

#[test]
fn a_returned_text_is_error_4_2() {
    assert_eq!(run("ret \"no\"").unwrap_err().code, "4.2");
}
