use vstd::prelude::*;
use crate::element::{TypeView, type_view};
use crate::typeobj::Type;

verus! {

/// Why an operation on values gave no value.
#[derive(Debug)]
pub enum OprError {
    /// The operand could not be converted to the type.
    TypecastError(Type),
    /// The operation is not defined for the operands.
    NoImplForOpr,
    /// The result does not fit the integer type of the operation.
    Overflow,
}

/// An operation error as plain values.
pub enum OprErrorView {
    TypecastError(TypeView),
    NoImplForOpr,
    Overflow,
}

/// The plain-value view of an operation error.
pub open spec fn opr_err_view(e: OprError) -> OprErrorView {
    match e {
        OprError::TypecastError(t) => OprErrorView::TypecastError(type_view(t)),
        OprError::NoImplForOpr => OprErrorView::NoImplForOpr,
        OprError::Overflow => OprErrorView::Overflow,
    }
}

} // verus!
