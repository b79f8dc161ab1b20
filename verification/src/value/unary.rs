use vstd::prelude::*;
use crate::value::{
    IntKind, Value, ValueView, value_view, int_of, make_int, in_kind, kind_signed, int_parts,
    make_value, clone_value,
};
use crate::value::typecast::{res_view, cast_spec, cast_to_name};
use crate::value::utils::{OprError, OprErrorView};

verus! {

/// What unary `+` gives: an integer unchanged.
pub open spec fn un_plus_spec(x: ValueView) -> Result<ValueView, OprErrorView> {
    match int_of(x) {
        Some(_) => Ok(x),
        None => Err(OprErrorView::NoImplForOpr),
    }
}

/// What unary `-` gives: the negation of a signed integer, an overflow for
/// the kind's least number.
pub open spec fn un_minus_spec(x: ValueView) -> Result<ValueView, OprErrorView> {
    match int_of(x) {
        Some((k, a)) => if !kind_signed(k) {
            Err(OprErrorView::NoImplForOpr)
        } else if in_kind(k, -a) {
            Ok(make_int(k, -a))
        } else {
            Err(OprErrorView::Overflow)
        },
        None => Err(OprErrorView::NoImplForOpr),
    }
}

/// Whether `!` on the value would never end: a type converts to a type,
/// which `!` converts again.
pub open spec fn un_not_diverges(x: ValueView) -> bool {
    x is Type
}

/// What `!` gives: the negation of the value converted to a boolean.
pub open spec fn un_not_spec(x: ValueView) -> Result<ValueView, OprErrorView> {
    match x {
        ValueView::Bool(b) => Ok(ValueView::Bool(!b)),
        _ => match cast_spec(x, "bool"@) {
            Ok(ValueView::Bool(c)) => Ok(ValueView::Bool(!c)),
            r => r,
        },
    }
}

/// Unary `+` (see `un_plus_spec`).
pub fn un_plus(x: &Value) -> (res: Result<Value, OprError>)
    ensures
        res_view(res) == un_plus_spec(value_view(*x)),
{
    match int_parts(x) {
        Some(_) => Ok(clone_value(x)),
        None => Err(OprError::NoImplForOpr),
    }
}

/// Unary `-` (see `un_minus_spec`).
pub fn un_minus(x: &Value) -> (res: Result<Value, OprError>)
    ensures
        res_view(res) == un_minus_spec(value_view(*x)),
{
    match int_parts(x) {
        Some((k, neg, mag)) => {
            let signed = match k {
                IntKind::I8 | IntKind::I16 | IntKind::I32 | IntKind::I64 | IntKind::I128
                | IntKind::Isize => true,
                _ => false,
            };
            if !signed {
                return Err(OprError::NoImplForOpr);
            }
            match make_value(k, !neg && mag > 0, mag) {
                Some(v) => Ok(v),
                None => Err(OprError::Overflow),
            }
        },
        None => Err(OprError::NoImplForOpr),
    }
}

/// `!` (see `un_not_spec`).
pub fn un_not(x: &Value) -> (res: Result<Value, OprError>)
    requires
        !un_not_diverges(value_view(*x)),
    ensures
        res_view(res) == un_not_spec(value_view(*x)),
{
    match x {
        Value::Bool(b) => Ok(Value::Bool(!*b)),
        _ => match cast_to_name(x, "bool") {
            Ok(Value::Bool(c)) => Ok(Value::Bool(!c)),
            r => r,
        },
    }
}

} // verus!
