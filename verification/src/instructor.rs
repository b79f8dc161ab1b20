use vstd::prelude::*;
use crate::element::{Element, elem_view, elems_view};
use crate::errors::ZyxtError;
use crate::eval::{NESTING_LIMIT, checked_as, gen_instructions_in, leaf_unchanged, type_stmts, type_env};
use crate::interpreter_data::InterpreterData;
use crate::typeobj::Type;

verus! {

/// Checks the types of a program's statements, in order, each against the
/// names the ones before it declared (see `Element::eval_type`), and gives
/// back the checked statements, or the first error. A statement with no
/// element in it to check comes back as it was; a bare token is an error.
/// Literals and null elements alone are always accepted, and so is any
/// straight-line program whose statements check in order (see
/// `type_stmts`). A declaration comes back with the type it declares (see
/// `checked_as`).
pub fn gen_instructions(input: Vec<Element>, typelist: &mut InterpreterData<Type>) -> (res: Result<Vec<Element>, ZyxtError>)
    requires
        old(typelist).wf(),
    ensures
        final(typelist).wf(),
        final(typelist).out@.len() >= old(typelist).out@.len(),
        res matches Ok(v) ==> v@.len() == input@.len(),
        input@.len() == 0 ==> res is Ok,
        res matches Ok(v) ==> forall|j: int| 0 <= j < v@.len() ==> !(elem_view(#[trigger] input@[j]) is Token)
            && leaf_unchanged(elem_view(input@[j]), elem_view(v@[j])),
        (forall|j: int| 0 <= j < input@.len() ==> elem_view(#[trigger] input@[j]) is Literal || elem_view(input@[j])
            is NullElement) ==> res is Ok,
        res matches Ok(v) ==> forall|j: int| 0 <= j < v@.len() ==> checked_as(elem_view(#[trigger] input@[j]), elem_view(v@[j])),
        type_stmts(elems_view(input@), type_env(*old(typelist))) ==> res is Ok,
{
    gen_instructions_in(input, typelist, NESTING_LIMIT)
}

} // verus!
