use vstd::prelude::*;
use crate::value::{Value, ValueView, value_view};
use crate::value::typecast::{res_view, cast_spec, cast_to_name};
use crate::value::utils::{OprError, OprErrorView};
use crate::element::Element;
use crate::errors::ZyxtError;
use crate::eval::NESTING_LIMIT;
use crate::interpreter::{and_in, or_in, frames_kept, literal_as_bool, leaf_bool};
use crate::element::elem_view;
use crate::interpreter_data::InterpreterData;

verus! {

/// Whether `^` on the values would stop the program: both convert to
/// `bool`, but one of them, a type, converts to a type.
pub open spec fn xor_fails(x: ValueView, y: ValueView) -> bool {
    &&& cast_spec(x, "bool"@) is Ok
    &&& cast_spec(y, "bool"@) is Ok
    &&& (!(cast_spec(x, "bool"@) matches Ok(ValueView::Bool(_))) || !(cast_spec(y, "bool"@) matches Ok(ValueView::Bool(_))))
}

/// What `^` gives: whether the values, converted to booleans, differ.
pub open spec fn xor_spec(x: ValueView, y: ValueView) -> Result<ValueView, OprErrorView> {
    match cast_spec(x, "bool"@) {
        Err(e) => Err(e),
        Ok(l) => match cast_spec(y, "bool"@) {
            Err(e) => Err(e),
            Ok(r) => match (l, r) {
                (ValueView::Bool(a), ValueView::Bool(b)) => Ok(ValueView::Bool(a != b)),
                _ => Err(OprErrorView::NoImplForOpr),
            },
        },
    }
}

/// Exclusive or of two values (see `xor_spec`).
pub fn xor(x: &Value, y: &Value) -> (res: Result<Value, OprError>)
    requires
        !xor_fails(value_view(*x), value_view(*y)),
    ensures
        res_view(res) == xor_spec(value_view(*x), value_view(*y)),
{
    let lhs = cast_to_name(x, "bool");
    match lhs {
        Err(e) => Err(e),
        Ok(l) => {
            let rhs = cast_to_name(y, "bool");
            match rhs {
                Err(e) => Err(e),
                Ok(r) => match (l, r) {
                    (Value::Bool(a), Value::Bool(b)) => Ok(Value::Bool(a != b)),
                    _ => Err(OprError::NoImplForOpr),
                },
            }
        },
    }
}

/// `&&`: interprets the left operand and converts it to `bool`; if it is
/// false, that is the result and the right operand is not interpreted,
/// else the result is the right operand converted to `bool`. An operand
/// that does not convert to a boolean is an internal error.
pub fn and(x: &Element, y: &Element, i_data: &mut InterpreterData<Value>) -> (res: Result<Value, ZyxtError>)
    requires
        old(i_data).wf(),
    ensures
        final(i_data).wf(),
        frames_kept(*old(i_data), *final(i_data), res is Ok),
        res matches Ok(v) ==> v is Bool,
        literal_as_bool(elem_view(*x)) == Some(false) ==> (res matches Ok(Value::Bool(false))) && *final(i_data)
            == *old(i_data),
        leaf_bool(elem_view(*x), *old(i_data)) is Some && leaf_bool(elem_view(*y), *old(i_data)) is Some
            ==> res == Ok::<Value, ZyxtError>(Value::Bool(leaf_bool(elem_view(*x), *old(i_data)).unwrap() && leaf_bool(elem_view(*y), *old(i_data)).unwrap())) && *final(i_data) == *old(i_data),
{
    and_in(x, y, i_data, NESTING_LIMIT)
}

/// `||`: interprets the left operand and converts it to `bool`; if it is
/// true, that is the result and the right operand is not interpreted,
/// else the result is the right operand converted to `bool`. An operand
/// that does not convert to a boolean is an internal error.
pub fn or(x: &Element, y: &Element, i_data: &mut InterpreterData<Value>) -> (res: Result<Value, ZyxtError>)
    requires
        old(i_data).wf(),
    ensures
        final(i_data).wf(),
        frames_kept(*old(i_data), *final(i_data), res is Ok),
        res matches Ok(v) ==> v is Bool,
        literal_as_bool(elem_view(*x)) == Some(true) ==> (res matches Ok(Value::Bool(true))) && *final(i_data)
            == *old(i_data),
        leaf_bool(elem_view(*x), *old(i_data)) is Some && leaf_bool(elem_view(*y), *old(i_data)) is Some
            ==> res == Ok::<Value, ZyxtError>(Value::Bool(leaf_bool(elem_view(*x), *old(i_data)).unwrap() || leaf_bool(elem_view(*y), *old(i_data)).unwrap())) && *final(i_data) == *old(i_data),
{
    or_in(x, y, i_data, NESTING_LIMIT)
}

} // verus!
