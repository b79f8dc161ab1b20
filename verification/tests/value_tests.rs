use zyxt::typeobj::Type;
use zyxt::value::arith::{add, div, modulo, mul, sub};
use zyxt::value::compare::{eq, gt, gteq, lt, lteq, noteq};
use zyxt::value::logic::xor;
use zyxt::value::typecast::{cast_to_name, parse_int, typecast};
use zyxt::value::unary::{un_minus, un_not, un_plus};
use zyxt::value::utils::OprError;
use zyxt::value::{IntKind, Value};

fn as_i32(v: Result<Value, OprError>) -> i32 {
    match v {
        Ok(Value::I32(x)) => x,
        other => panic!("not an i32: {:?}", other),
    }
}

fn as_bool(v: Result<Value, OprError>) -> bool {
    match v {
        Ok(Value::Bool(b)) => b,
        other => panic!("not a bool: {:?}", other),
    }
}

fn as_str(v: Result<Value, OprError>) -> String {
    match v {
        Ok(Value::Str(s)) => s,
        other => panic!("not a str: {:?}", other),
    }
}

#[test]
fn add_two_i32() {
    assert_eq!(as_i32(add(&Value::I32(2), Value::I32(3))), 5);
}

#[test]
fn add_bool_counts_as_one() {
    assert_eq!(as_i32(add(&Value::I32(2), Value::Bool(true))), 3);
}

#[test]
fn add_overflow_is_an_error() {
    assert!(matches!(add(&Value::I8(127), Value::I8(1)), Err(OprError::Overflow)));
}

#[test]
fn add_operand_out_of_kind_is_a_typecast_error() {
    assert!(matches!(add(&Value::I8(1), Value::I32(300)), Err(OprError::TypecastError(_))));
}

#[test]
fn add_text_has_no_implementation() {
    assert!(matches!(add(&Value::Str(String::from("a")), Value::I32(1)), Err(OprError::NoImplForOpr)));
}

#[test]
fn sub_gives_negative() {
    assert_eq!(as_i32(sub(&Value::I32(5), Value::I32(7))), -2);
}

#[test]
fn sub_below_unsigned_zero_overflows() {
    assert!(matches!(sub(&Value::U8(0), Value::U8(1)), Err(OprError::Overflow)));
}

#[test]
fn mul_two_i32() {
    assert_eq!(as_i32(mul(&Value::I32(6), Value::I32(7))), 42);
}

#[test]
fn mul_text_repeats_it() {
    assert_eq!(as_str(mul(&Value::Str(String::from("ab")), Value::I32(3))), "ababab");
    assert_eq!(as_str(mul(&Value::I32(2), Value::Str(String::from("xy")))), "xyxy");
}

#[test]
fn mul_text_by_negative_is_a_typecast_error() {
    assert!(matches!(mul(&Value::Str(String::from("ab")), Value::I32(-1)), Err(OprError::TypecastError(_))));
}

#[test]
fn div_rounds_toward_zero() {
    assert_eq!(as_i32(div(&Value::I32(7), Value::I32(2))), 3);
    assert_eq!(as_i32(div(&Value::I32(-7), Value::I32(2))), -3);
}

#[test]
fn div_by_zero_gives_the_dividend() {
    assert_eq!(as_i32(div(&Value::I32(7), Value::I32(0))), 7);
}

#[test]
fn modulo_keeps_the_sign_of_the_dividend() {
    assert_eq!(as_i32(modulo(&Value::I32(7), Value::I32(3))), 1);
    assert_eq!(as_i32(modulo(&Value::I32(-7), Value::I32(3))), -1);
}

#[test]
fn law_add_then_sub_on_values() {
    let z = add(&Value::I64(40), Value::I64(2)).unwrap();
    match sub(&z, Value::I64(2)) {
        Ok(Value::I64(x)) => assert_eq!(x, 40),
        other => panic!("{:?}", other),
    }
}

#[test]
fn law_add_and_mul_commute_on_values() {
    assert_eq!(as_i32(add(&Value::I32(9), Value::I32(4))), as_i32(add(&Value::I32(4), Value::I32(9))));
    assert_eq!(as_i32(mul(&Value::I32(9), Value::I32(4))), as_i32(mul(&Value::I32(4), Value::I32(9))));
}

#[test]
fn parse_int_reads_signs() {
    assert!(matches!(parse_int("-12", IntKind::I32), Some(Value::I32(-12))));
    assert!(matches!(parse_int("+7", IntKind::U8), Some(Value::U8(7))));
    assert!(parse_int("-1", IntKind::U8).is_none());
    assert!(parse_int("256", IntKind::U8).is_none());
    assert!(parse_int("", IntKind::I32).is_none());
    assert!(parse_int("1a", IntKind::I32).is_none());
}

#[test]
fn cast_text_to_int() {
    assert!(matches!(cast_to_name(&Value::Str(String::from("42")), "i32"), Ok(Value::I32(42))));
    assert!(matches!(cast_to_name(&Value::Str(String::from("abc")), "i32"), Err(OprError::TypecastError(_))));
}

#[test]
fn cast_int_to_text_and_bool() {
    assert_eq!(as_str(cast_to_name(&Value::I32(-5), "str")), "-5");
    assert!(as_bool(cast_to_name(&Value::I32(3), "bool")));
    assert!(!as_bool(cast_to_name(&Value::I32(0), "bool")));
}

#[test]
fn cast_bool_to_int_and_text() {
    assert!(matches!(cast_to_name(&Value::Bool(true), "u8"), Ok(Value::U8(1))));
    assert_eq!(as_str(cast_to_name(&Value::Bool(false), "str")), "false");
}

#[test]
fn cast_int_out_of_range_is_a_typecast_error() {
    assert!(matches!(cast_to_name(&Value::I32(300), "u8"), Err(OprError::TypecastError(_))));
}

#[test]
fn cast_to_unknown_type_has_no_implementation() {
    assert!(matches!(cast_to_name(&Value::I32(3), "f64"), Err(OprError::NoImplForOpr)));
}

#[test]
fn law_int_text_round_trip_on_values() {
    let text = cast_to_name(&Value::I64(-123), "str").unwrap();
    assert!(matches!(cast_to_name(&text, "i64"), Ok(Value::I64(-123))));
    let text = cast_to_name(&Value::U128(u128::MAX), "str").unwrap();
    assert!(matches!(cast_to_name(&text, "u128"), Ok(Value::U128(u128::MAX))));
}

#[test]
fn law_cast_to_own_type_on_values() {
    assert!(matches!(cast_to_name(&Value::U16(7), "u16"), Ok(Value::U16(7))));
    assert!(matches!(cast_to_name(&Value::Bool(true), "bool"), Ok(Value::Bool(true))));
    assert_eq!(as_str(cast_to_name(&Value::Str(String::from("hi")), "str")), "hi");
}

#[test]
fn typecast_to_a_type_value() {
    assert!(matches!(typecast(&Value::Str(String::from("9")), Value::Type(Type::from_str("i8"))), Ok(Value::I8(9))));
    assert!(matches!(typecast(&Value::I32(1), Value::I32(2)), Err(OprError::NoImplForOpr)));
}

#[test]
fn compare_integers() {
    assert!(as_bool(gt(&Value::I32(3), Value::I32(2))));
    assert!(!as_bool(lt(&Value::I32(3), Value::I32(2))));
    assert!(as_bool(gteq(&Value::I32(3), Value::I32(3))));
    assert!(as_bool(lteq(&Value::I32(2), Value::I32(3))));
    assert!(as_bool(eq(&Value::I32(3), Value::I32(3))));
    assert!(as_bool(noteq(&Value::I32(3), Value::I32(4))));
}

#[test]
fn compare_texts_turned_round() {
    assert!(as_bool(gt(&Value::Str(String::from("a")), Value::Str(String::from("b")))));
    assert!(as_bool(lt(&Value::Str(String::from("b")), Value::Str(String::from("a")))));
}

#[test]
fn law_gt_is_lt_turned_on_values() {
    let a = as_bool(gt(&Value::I16(-4), Value::I16(9)));
    let b = as_bool(lt(&Value::I16(9), Value::I16(-4)));
    assert_eq!(a, b);
}

#[test]
fn law_eq_reflexive_on_values() {
    assert!(as_bool(eq(&Value::Str(String::from("x")), Value::Str(String::from("x")))));
    assert!(as_bool(eq(&Value::Bool(false), Value::Bool(false))));
    assert!(as_bool(eq(&Value::U64(u64::MAX), Value::U64(u64::MAX))));
}

#[test]
fn compare_text_with_int_has_no_implementation() {
    assert!(matches!(gt(&Value::Str(String::from("a")), Value::I32(1)), Err(OprError::NoImplForOpr)));
}

#[test]
fn unary_operators() {
    assert_eq!(as_i32(un_plus(&Value::I32(5))), 5);
    assert_eq!(as_i32(un_minus(&Value::I32(5))), -5);
    assert!(matches!(un_minus(&Value::I8(-128)), Err(OprError::Overflow)));
    assert!(matches!(un_minus(&Value::U8(1)), Err(OprError::NoImplForOpr)));
    assert!(!as_bool(un_not(&Value::Bool(true))));
    assert!(as_bool(un_not(&Value::I32(0))));
    assert!(as_bool(un_not(&Value::Str(String::new()))));
}

#[test]
fn law_not_twice_on_values() {
    let once = un_not(&Value::I32(7)).unwrap();
    assert!(as_bool(un_not(&once)));
    let once = un_not(&Value::Bool(false)).unwrap();
    assert!(!as_bool(un_not(&once)));
}

#[test]
fn law_minus_twice_on_values() {
    let once = un_minus(&Value::I64(-9)).unwrap();
    match un_minus(&once) {
        Ok(Value::I64(x)) => assert_eq!(x, -9),
        other => panic!("{:?}", other),
    }
}

#[test]
fn concat_joins_the_texts() {
    assert_eq!(as_str(zyxt::value::concat::concat(&Value::I32(1), Value::Str(String::from("a")))), "1a");
    assert_eq!(as_str(zyxt::value::concat::concat(&Value::Bool(true), Value::Null)), "truenull");
}

#[test]
fn xor_of_booleans() {
    assert!(as_bool(xor(&Value::Bool(true), &Value::Bool(false))));
    assert!(!as_bool(xor(&Value::I32(1), &Value::Bool(true))));
}

#[test]
fn value_text() {
    assert_eq!(Value::I32(-42).to_text(), "-42");
    assert_eq!(Value::Null.to_text(), "null");
    assert_eq!(Value::Type(Type::from_str("i32")).to_text(), "<i32>");
}
