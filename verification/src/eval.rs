use vstd::prelude::*;
use vstd::string::*;
use crate::element::{
    Element, ElementView, TypeView, elem_view, elems_view, type_view, clone_element, clone_elements, clone_type, type_eq,
};
use crate::errors::{ZyxtError, internal_error, error_2_1_0, error_2_2, error_4_0_0, error_4_0_1, error_4_3};
use crate::interpreter_data::InterpreterData;
use crate::interpreter::op_height;
use crate::position::Position;
use crate::scope::{env_get, frame_get};
use crate::token::{Flag, OprType, Token, opr_name, opr_text};
use crate::typeobj::{Type, named_type, type_text};
use crate::value::{Value, value_view, type_of_value};
use crate::value::methods::{bin_opr_spec, un_opr_spec, default_spec};
use crate::value::utils::{OprError, OprErrorView};

verus! {

broadcast use vstd::std_specs::vec::group_vec_axioms;

/// How deep the type checker and the interpreter follow nested syntax
/// trees and calls before they stop with an internal error.
pub const NESTING_LIMIT: u64 = 2000;

/// The operators whose result is always a boolean.
pub open spec fn bool_result_opr(o: OprType) -> bool {
    o == OprType::Eq || o == OprType::Noteq || o == OprType::Lt || o == OprType::Lteq || o
        == OprType::Gt || o == OprType::Gteq || o == OprType::Iseq || o == OprType::And || o
        == OprType::Or || o == OprType::Xor
}

/// The error for an operator not implemented for types: error 4.0.0 with
/// the operator's name and the types as written, at the place.
pub open spec fn is_error_4_0_0(e: ZyxtError, o: OprType, t1: TypeView, t2: TypeView, position: Position, raw: String) -> bool {
    &&& e.code@ == "4.0.0"@
    &&& e.message@ == "Operator "@ + opr_text(o) + " not implemented for types `"@ + type_text(t1) + "`, `"@
        + type_text(t2) + "`"@
    &&& e.position == Some(position)
    &&& e.raw == raw
}

/// Whether a list of declaration flags holds a flag.
fn has_flag(flags: &Vec<Flag>, f: Flag) -> (res: bool)
    ensures
        res == flags@.contains(f),
{
    let mut i: usize = 0;
    while i < flags.len()
        invariant
            0 <= i <= flags@.len(),
            forall|j: int| 0 <= j < i ==> flags@[j] != f,
        decreases flags@.len() - i,
    {
        if flags[i] == f {
            return true;
        }
        i = i + 1;
    }
    false
}

/// Gives a name a syntax tree among named attributes: replaces the first
/// entry of that name, or adds one.
fn set_attr(attrs: &mut Vec<(String, Element)>, name: String, value: Element)
    ensures
        crate::scope::set_first_named(old(attrs)@, final(attrs)@, name, value),
{
    let mut i: usize = 0;
    while i < attrs.len()
        invariant
            0 <= i <= attrs@.len(),
            attrs@ == old(attrs)@,
            forall|j: int| 0 <= j < i ==> (#[trigger] attrs@[j]).0@ != name@,
        decreases attrs@.len() - i,
    {
        if crate::text::str_eq(attrs[i].0.as_str(), name.as_str()) {
            let ghost k = i as int;
            attrs.set(i, (name, value));
            assert(old(attrs)@[k].0@ == name@);
            return;
        }
        i = i + 1;
    }
    attrs.push((name, value));
}

/// The type the type checker gives an element that holds no element to
/// check: a literal's type, or the type a variable is declared with.
pub open spec fn leaf_type(e: ElementView, t: InterpreterData<Type>) -> Option<TypeView> {
    match e {
        ElementView::Literal { type_, .. } => Some(type_),
        ElementView::Variable { name, .. } => match env_get(t.frames(), name) {
            Some(v) => Some(type_view(v)),
            None => None,
        },
        _ => None,
    }
}

/// The type a binary operation on values of the types gives (see
/// `bin_op_return_type`): the second type for a typecast, `bool` for
/// comparisons and logic, else the type of the operation on the types'
/// starting values, or the type it failed to convert to; error 4.0.0
/// where the operation is not implemented, 0.0 for a type with no
/// starting value.
pub open spec fn bin_type_ok(o: OprType, t1: TypeView, t2: TypeView, res: Result<Type, ZyxtError>) -> bool {
    if o == OprType::TypeCast {
        res matches Ok(t) && type_view(t) == t2
    } else if bool_result_opr(o) {
        res matches Ok(t) && type_view(t) == named_type("bool"@)
    } else {
        match (default_spec(t1), default_spec(t2)) {
            (Some(v1), Some(v2)) => match bin_opr_spec(o, v1, v2) {
                Ok(v) => res matches Ok(t) && type_view(t) == type_of_value(v),
                Err(OprErrorView::TypecastError(ty)) => res matches Ok(t) && type_view(t) == ty,
                Err(_) => res matches Err(e) && e.code@ == "4.0.0"@,
            },
            _ => res matches Err(e) && e.code@ == "0.0"@,
        }
    }
}

/// The type a unary operation on a value of the type gives (see
/// `un_op_return_type`).
pub open spec fn un_type_ok(o: OprType, t1: TypeView, res: Result<Type, ZyxtError>) -> bool {
    if o == OprType::Not {
        res matches Ok(t) && type_view(t) == named_type("bool"@)
    } else {
        match default_spec(t1) {
            Some(v) => match un_opr_spec(o, v) {
                Ok(r) => res matches Ok(t) && type_view(t) == type_of_value(r),
                Err(OprErrorView::TypecastError(ty)) => res matches Ok(t) && type_view(t) == ty,
                Err(_) => res matches Err(e) && e.code@ == "4.0.1"@,
            },
            None => res matches Err(e) && e.code@ == "0.0"@,
        }
    }
}

/// What checking an operation on operands that hold no element to check
/// gives: the type of the operation on the operands' types (a cast to a
/// type named by a variable of type `type` is left out); the type checker's
/// state is left as it was.
pub open spec fn eval_op_ok(old_self: ElementView, old_t: InterpreterData<Type>, final_t: InterpreterData<Type>, res: Result<Type, ZyxtError>) -> bool {
    match old_self {
        ElementView::BinaryOpr { type_, operand1, operand2, .. } => match (leaf_type(*operand1, old_t), leaf_type(*operand2, old_t)) {
            (Some(t1), Some(t2)) => !(type_ == OprType::TypeCast && t2 == named_type("type"@)) ==> (final_t == old_t
                && bin_type_ok(type_, t1, t2, res)),
            _ => true,
        },
        ElementView::UnaryOpr { type_, operand, .. } => match leaf_type(*operand, old_t) {
            Some(t1) => final_t == old_t && un_type_ok(type_, t1, res),
            None => true,
        },
        ElementView::Call { called, args, .. } => call_type_ok(*called, args, old_t, final_t, res),
        _ => true,
    }
}

/// What checking a block, a deferred block or an `if` gives where the block
/// (for an `if`, its first branch) holds only expressions with a type (see
/// `typed_exprs`): the type of its last one, with the frames as they were.
pub open spec fn eval_block_ok(old_self: ElementView, old_t: InterpreterData<Type>, final_t: InterpreterData<Type>, res: Result<Type, ZyxtError>) -> bool {
    match old_self {
        ElementView::Block { content, .. } | ElementView::Defer { content, .. } => typed_exprs(content, old_t) ==> (res matches Ok(
            t,
        ) && type_view(t) == expr_type(content.last(), old_t).unwrap()) && final_t.frames() == old_t.frames(),
        ElementView::If { conditions, .. } => conditions.len() > 0 && typed_exprs(conditions[0].if_true, old_t) ==> (res matches Ok(
            t,
        ) && type_view(t) == expr_type(conditions[0].if_true.last(), old_t).unwrap()) && final_t.frames() == old_t.frames(),
        _ => true,
    }
}

/// The type a binary operation on operands of the types gives where it
/// has one (see `bin_type_ok`); none where checking it fails.
pub open spec fn bin_type_of(o: OprType, t1: TypeView, t2: TypeView) -> Option<TypeView> {
    if o == OprType::TypeCast {
        Some(t2)
    } else if bool_result_opr(o) {
        Some(named_type("bool"@))
    } else {
        match (default_spec(t1), default_spec(t2)) {
            (Some(v1), Some(v2)) => match bin_opr_spec(o, v1, v2) {
                Ok(v) => Some(type_of_value(v)),
                Err(OprErrorView::TypecastError(ty)) => Some(ty),
                Err(_) => None,
            },
            _ => None,
        }
    }
}

/// The type a unary operation on an operand of the type gives where it has
/// one (see `un_type_ok`); none where checking it fails.
pub open spec fn un_type_of(o: OprType, t1: TypeView) -> Option<TypeView> {
    if o == OprType::Not {
        Some(named_type("bool"@))
    } else {
        match default_spec(t1) {
            Some(v) => match un_opr_spec(o, v) {
                Ok(r) => Some(type_of_value(r)),
                Err(OprErrorView::TypecastError(ty)) => Some(ty),
                Err(_) => None,
            },
            None => None,
        }
    }
}

/// The type of an expression built of operations on literals and
/// variables, nested to any depth, where checking it succeeds: each
/// operation's type on its operands' types (a cast to a type named by a
/// variable of type `type` is left out).
pub open spec fn nested_type(e: ElementView, t: InterpreterData<Type>) -> Option<TypeView>
    decreases e,
{
    match e {
        ElementView::BinaryOpr { type_, operand1, operand2, .. } => match (nested_type(*operand1, t), nested_type(*operand2, t)) {
            (Some(t1), Some(t2)) => if type_ == OprType::TypeCast && t2 == named_type("type"@) {
                None
            } else {
                bin_type_of(type_, t1, t2)
            },
            _ => None,
        },
        ElementView::UnaryOpr { type_, operand, .. } => match nested_type(*operand, t) {
            Some(t1) => un_type_of(type_, t1),
            None => None,
        },
        _ => leaf_type(e, t),
    }
}

/// What checking a declaration of a variable gives where its content has a
/// nested type (see `nested_type`) and the declared type is none
/// (`#null`), that type, or the type of an instance: the content's type,
/// with the variable declared in the innermost frame with the declared
/// type (the content's where none is declared).
pub open spec fn eval_decl_type_ok(old_self: ElementView, old_t: InterpreterData<Type>, final_t: InterpreterData<Type>, res: Result<Type, ZyxtError>) -> bool {
    match old_self {
        ElementView::Declare { variable, content, type_, .. } => match *variable {
            ElementView::Variable { name, .. } => match nested_type(*content, old_t) {
                Some(tc) => (type_ == named_type("#null"@) || type_ == tc || !(type_ is Definition)) ==> {
                    &&& res matches Ok(t) && type_view(t) == tc
                    &&& exists|w: Type| #[trigger] crate::scope::declared(old_t.frames(), final_t.frames(), name, w) && type_view(w) == (if type_
                        == named_type("#null"@) {
                        tc
                    } else {
                        type_
                    })
                    &&& final_t.defer == old_t.defer && final_t.out == old_t.out
                },
                None => true,
            },
            _ => true,
        },
        _ => true,
    }
}

/// The types of a state's names, as a function of the name: the type of
/// the innermost binding of the name.
pub open spec fn type_env(t: InterpreterData<Type>) -> spec_fn(Seq<char>) -> Option<TypeView> {
    |k: Seq<char>|
        match env_get(t.frames(), k) {
            Some(v) => Some(type_view(v)),
            None => None,
        }
}

/// An environment of types with one name bound to a type.
pub open spec fn type_env_with(env: spec_fn(Seq<char>) -> Option<TypeView>, name: Seq<char>, ty: TypeView) -> spec_fn(
    Seq<char>,
) -> Option<TypeView> {
    |k: Seq<char>|
        if k == name {
            Some(ty)
        } else {
            env(k)
        }
}

/// The type of an expression in an environment of types (see
/// `nested_type`).
pub open spec fn nested_type_in(e: ElementView, env: spec_fn(Seq<char>) -> Option<TypeView>) -> Option<TypeView>
    decreases e,
{
    match e {
        ElementView::BinaryOpr { type_, operand1, operand2, .. } => match (
            nested_type_in(*operand1, env),
            nested_type_in(*operand2, env),
        ) {
            (Some(t1), Some(t2)) => if type_ == OprType::TypeCast && t2 == named_type("type"@) {
                None
            } else {
                bin_type_of(type_, t1, t2)
            },
            _ => None,
        },
        ElementView::UnaryOpr { type_, operand, .. } => match nested_type_in(*operand, env) {
            Some(t1) => un_type_of(type_, t1),
            None => None,
        },
        ElementView::Literal { type_, .. } => Some(type_),
        ElementView::Variable { name, .. } => env(name),
        _ => None,
    }
}

/// One statement of a straight-line program, checked in an environment of
/// types: the environment after it where it checks. An expression whose
/// operations nest fewer than 500 deep and that has a type leaves the
/// environment as it was; a declaration of a variable with such content,
/// and a declared type that is none (`#null`), the content's type, or the
/// type of an instance, binds the name to the declared type (the content's
/// where none is declared). None for any other statement.
pub open spec fn type_step(e: ElementView, env: spec_fn(Seq<char>) -> Option<TypeView>) -> Option<
    spec_fn(Seq<char>) -> Option<TypeView>,
> {
    match e {
        ElementView::Declare { variable, content, type_, .. } => match *variable {
            ElementView::Variable { name, .. } => if op_height(*content) < 500 {
                match nested_type_in(*content, env) {
                    Some(tc) => if type_ == named_type("#null"@) {
                        Some(type_env_with(env, name, tc))
                    } else if type_ == tc || !(type_ is Definition) {
                        Some(type_env_with(env, name, type_))
                    } else {
                        None
                    },
                    None => None,
                }
            } else {
                None
            },
            _ => None,
        },
        _ => if op_height(e) < 500 && nested_type_in(e, env) is Some {
            Some(env)
        } else {
            None
        },
    }
}

/// Whether a straight-line program checks, statement by statement, from an
/// environment of types (see `type_step`).
pub open spec fn type_stmts(s: Seq<ElementView>, env: spec_fn(Seq<char>) -> Option<TypeView>) -> bool
    decreases s.len(),
{
    if s.len() == 0 {
        true
    } else {
        match type_step(s[0], env) {
            Some(env2) => type_stmts(s.drop_first(), env2),
            None => false,
        }
    }
}

proof fn lemma_nested_type_in(e: ElementView, t: InterpreterData<Type>)
    ensures
        nested_type(e, t) == nested_type_in(e, type_env(t)),
    decreases e,
{
    match e {
        ElementView::BinaryOpr { operand1, operand2, .. } => {
            lemma_nested_type_in(*operand1, t);
            lemma_nested_type_in(*operand2, t);
        },
        ElementView::UnaryOpr { operand, .. } => {
            lemma_nested_type_in(*operand, t);
        },
        _ => {},
    }
}

/// What checking a statement of a straight-line program gives, from the
/// contracts of `eval_type`: success, and the environment after it.
proof fn lemma_type_step(e: ElementView, t0: InterpreterData<Type>, t1: InterpreterData<Type>, r: Result<Type, ZyxtError>)
    requires
        eval_nested_ok(e, t0, t1, r),
        e is Declare ==> eval_decl_type_ok(e, t0, t1, r),
        type_step(e, type_env(t0)) is Some,
    ensures
        r is Ok,
        type_env(t1) == type_step(e, type_env(t0)).unwrap(),
{
    match e {
        ElementView::Declare { variable, content, type_, .. } => {
            lemma_nested_type_in(*content, t0);
            match *variable {
                ElementView::Variable { name, .. } => {
                    let w = choose|w: Type| #[trigger] crate::scope::declared(t0.frames(), t1.frames(), name, w)
                        && type_view(w) == (if type_ == named_type("#null"@) {
                        nested_type(*content, t0).unwrap()
                    } else {
                        type_
                    });
                    let env2 = type_step(e, type_env(t0)).unwrap();
                    assert forall|k: Seq<char>| #[trigger] type_env(t1)(k) == env2(k) by {
                        assert(t1.frames().drop_last() == t0.frames().drop_last());
                        if k != name {
                            assert(frame_get(t1.frames().last(), k) == frame_get(t0.frames().last(), k));
                        }
                    }
                    assert(type_env(t1) =~= env2);
                },
                _ => {},
            }
        },
        _ => {
            lemma_nested_type_in(e, t0);
        },
    }
}

/// What checking an expression with a nested type (see `nested_type`)
/// gives: that type, with the type checker's state as it was.
pub open spec fn eval_nested_ok(old_self: ElementView, old_t: InterpreterData<Type>, final_t: InterpreterData<Type>, res: Result<Type, ZyxtError>) -> bool {
    nested_type(old_self, old_t) is Some ==> {
        &&& res matches Ok(t) && type_view(t) == nested_type(old_self, old_t).unwrap()
        &&& final_t == old_t
    }
}

impl Element {
    /// The type a binary operation on values of the types gives: the second
    /// type for a typecast, `bool` for comparisons and logic, otherwise the
    /// type of what the operation gives on the types' starting values, or,
    /// where it fails to convert, the type it failed to convert to. Error
    /// 4.0.0 where the operation is not implemented, 0.0 for a type with no
    /// starting value.
    pub fn bin_op_return_type(type_: &OprType, type1: Type, type2: Type, position: &Position, raw: &String) -> (res: Result<Type, ZyxtError>)
        ensures
            *type_ == OprType::TypeCast ==> (res matches Ok(t) && type_view(t) == type_view(type2)),
            *type_ != OprType::TypeCast && bool_result_opr(*type_) ==> (res matches Ok(t) && type_view(t)
                == named_type("bool"@)),
            *type_ != OprType::TypeCast && !bool_result_opr(*type_) ==> match (default_spec(type_view(type1)), default_spec(type_view(type2))) {
                (Some(v1), Some(v2)) => match bin_opr_spec(*type_, v1, v2) {
                    Ok(v) => res matches Ok(t) && type_view(t) == type_of_value(v),
                    Err(OprErrorView::TypecastError(ty)) => res matches Ok(t) && type_view(t) == ty,
                    Err(_) => res matches Err(e) && is_error_4_0_0(e, *type_, type_view(type1), type_view(type2), *position, *raw),
                },
                _ => res matches Err(e) && e.code@ == "0.0"@,
            },
    {
        if *type_ == OprType::TypeCast {
            return Ok(type2);
        } else if *type_ == OprType::Eq || *type_ == OprType::Noteq || *type_ == OprType::Lt || *type_
            == OprType::Lteq || *type_ == OprType::Gt || *type_ == OprType::Gteq || *type_
            == OprType::Iseq || *type_ == OprType::And || *type_ == OprType::Or || *type_
            == OprType::Xor {
            return Ok(Type::from_str("bool"));
        }
        let t1 = clone_type(&type1);
        let t2 = clone_type(&type2);
        let v1 = Value::default(t1)?;
        let v2 = Value::default(t2)?;
        match v1.bin_opr(type_, v2) {
            Ok(v) => Ok(v.get_type_obj()),
            Err(OprError::TypecastError(ty)) => Ok(ty),
            Err(_) => Err(error_4_0_0(String::from_str(opr_name(type_)), type1.to_text(), type2.to_text()).with_pos_and_raw(position, raw)),
        }
    }

    /// The type a unary operation on a value of the type gives: `bool` for
    /// `!`, otherwise the type of what the operation gives on the type's
    /// starting value, or, where it fails to convert, the type it failed to
    /// convert to. Error 4.0.1 where the operation is not implemented, 0.0
    /// for a type with no starting value.
    pub fn un_op_return_type(type_: &OprType, opnd_type: Type, position: &Position, raw: &String) -> (res: Result<Type, ZyxtError>)
        ensures
            *type_ == OprType::Not ==> (res matches Ok(t) && type_view(t) == named_type("bool"@)),
            *type_ != OprType::Not ==> match default_spec(type_view(opnd_type)) {
                Some(v) => match un_opr_spec(*type_, v) {
                    Ok(r) => res matches Ok(t) && type_view(t) == type_of_value(r),
                    Err(OprErrorView::TypecastError(ty)) => res matches Ok(t) && type_view(t) == ty,
                    Err(_) => res matches Err(e) && e.code@ == "4.0.1"@ && e.message@ == "Operator "@
                        + opr_text(*type_) + " not implemented for type `"@ + type_text(type_view(opnd_type))
                        + "`"@ && e.position == Some(*position) && e.raw == *raw,
                },
                None => res matches Err(e) && e.code@ == "0.0"@,
            },
    {
        if *type_ == OprType::Not {
            return Ok(Type::from_str("bool"));
        }
        let t = clone_type(&opnd_type);
        let v = Value::default(t)?;
        match v.un_opr(type_) {
            Ok(r) => Ok(r.get_type_obj()),
            Err(OprError::TypecastError(ty)) => Ok(ty),
            Err(_) => Err(error_4_0_1(String::from_str(opr_name(type_)), opnd_type.to_text()).with_pos_and_raw(position, raw)),
        }
    }
}

/// Whether the error is error 2.1.0 for the text, at the place.
pub open spec fn is_unexpected(e: ZyxtError, text: Seq<char>, raw: Seq<char>) -> bool {
    &&& e.code@ == "2.1.0"@
    &&& e.message@ == "Unexpected ident `"@ + text + "`"@
    &&& e.raw@ == raw
}

/// What `eval_type` gives for an element with no element in it to check,
/// leaving the element and the type checker's frames as they were, for a
/// declaration (the type the variable is then declared with), and for an
/// empty block, deferred block or first branch of an `if` (`#null`); a
/// procedure has the type `fn` or `proc` of `#null` and its return type
/// (`#null` for an empty body), a class or a struct its definition.
pub open spec fn eval_leaf_ok(old_self: ElementView, final_self: ElementView, old_t: InterpreterData<Type>, final_t: InterpreterData<Type>, res: Result<Type, ZyxtError>) -> bool {
    match old_self {
        ElementView::Literal { type_, .. } => (res matches Ok(t) && type_view(t) == type_) && final_self
            == old_self && final_t == old_t,
        ElementView::Variable { name, position, raw, .. } => final_self == old_self && final_t == old_t
            && match env_get(old_t.frames(), name) {
            Some(v) => res matches Ok(t) && type_view(t) == type_view(v),
            None => res matches Err(e) && e.code@ == "3.0"@ && e.message@ == "Undefined variable `"@ + name
                + "`"@ && (e.position matches Some(p) && p@ == position) && e.raw@ == raw,
        },
        ElementView::Token(t) => res matches Err(e) && is_unexpected(e, t.value, t.value) && (e.position matches Some(p)
            && p@ == t.position),
        ElementView::Declare { variable, type_, .. } => match *variable {
            ElementView::Variable { name, .. } => match res {
                Ok(t) => env_get(final_t.frames(), name) is Some && type_view(env_get(final_t.frames(), name).unwrap())
                    == (if type_ == named_type("#null"@) {
                    type_view(t)
                } else {
                    type_
                }),
                Err(_) => true,
            },
            _ => res is Err,
        },
        ElementView::NullElement | ElementView::Delete { .. } | ElementView::Comment { .. }
        | ElementView::Return { .. } => (res matches Ok(t) && type_view(t) == named_type("#null"@))
            && final_self == old_self,
        ElementView::Block { content, .. } | ElementView::Defer { content, .. } => content.len() == 0 ==> (res matches Ok(t)
            && type_view(t) == named_type("#null"@)),
        ElementView::If { conditions, .. } => conditions.len() > 0 && conditions[0].if_true.len() == 0 ==> (res matches Ok(t)
            && type_view(t) == named_type("#null"@)),
        ElementView::Procedure { is_fn, content, .. } => {
            &&& res matches Ok(t) ==> (type_view(t) matches TypeView::Instance { name, type_args, .. } && name
                == proc_type_name(is_fn) && type_args.len() == 2 && type_args[0] == named_type("#null"@))
            &&& content.len() == 0 ==> (res matches Ok(t) && type_view(t) == TypeView::Instance {
                name: proc_type_name(is_fn),
                type_args: seq![named_type("#null"@), named_type("#null"@)],
                inst_attrs: Seq::empty(),
                implementation: None,
            })
        },
        ElementView::Class { is_struct, inst_attrs, content, .. } => {
            &&& res matches Ok(t) ==> (type_view(t) matches TypeView::Definition { name, generics, class_attrs, .. } && name
                == (if is_struct { "struct"@ } else { "class"@ }) && generics.len() == 0 && class_attrs.len() == 0)
            &&& content.len() == 0 ==> (res matches Ok(t) && type_view(t) == TypeView::Definition {
                name: if is_struct { "struct"@ } else { "class"@ },
                generics: Seq::empty(),
                class_attrs: Seq::empty(),
                inst_attrs,
            })
        },
        _ => true,
    }
}

/// The name of a procedure's type: `fn` or `proc`.
pub open spec fn proc_type_name(is_fn: bool) -> Seq<char> {
    if is_fn {
        "fn"@
    } else {
        "proc"@
    }
}

/// What checking a declaration or an assignment gives when what it writes
/// to is a variable and its content holds no element to check and has a
/// type. A declaration with a declared type that is an instance type, or
/// the content's type, gives the content's type and comes out declaring
/// the type it gives the variable (see `declared_type`), its content cast
/// to the declared type where that is neither the content's type nor
/// `#null`. An assignment gives the variable's type where it is the
/// content's, error 4.3 where it is not, and error 3.0 where the variable
/// is not declared; it leaves the type checker's state as it was.
pub open spec fn eval_write_ok(old_self: ElementView, final_self: ElementView, old_t: InterpreterData<Type>, final_t: InterpreterData<Type>, res: Result<Type, ZyxtError>) -> bool {
    match old_self {
        ElementView::Declare { variable, content, type_, .. } => match (*variable, leaf_type(*content, old_t)) {
            (ElementView::Variable { .. }, Some(ct)) => (type_ is Instance || type_ == ct) ==> {
                &&& res matches Ok(t) && type_view(t) == ct
                &&& final_self matches ElementView::Declare { type_: ft, content: fc, variable: fv, .. }
                &&& *fv == *variable
                &&& ft == declared_type(old_self, ct)
                &&& if type_ == named_type("#null"@) || type_ == ct {
                    *fc == *content
                } else {
                    *fc matches ElementView::BinaryOpr { type_: OprType::TypeCast, operand1, .. } && *operand1 == *content
                }
            },
            _ => true,
        },
        ElementView::Assign { variable, content, .. } => match (*variable, leaf_type(*content, old_t)) {
            (ElementView::Variable { name, .. }, Some(ct)) => final_t == old_t && match env_get(old_t.frames(), name) {
                Some(v) => if type_view(v) == ct {
                    res matches Ok(t) && type_view(t) == ct
                } else {
                    res matches Err(e) && e.code@ == "4.3"@
                },
                None => res matches Err(e) && e.code@ == "3.0"@,
            },
            _ => true,
        },
        _ => true,
    }
}

/// The type of an expression whose operations nest fewer than 500 deep
/// (see `nested_type`).
pub open spec fn expr_type(e: ElementView, t: InterpreterData<Type>) -> Option<TypeView> {
    if op_height(e) < 500 {
        nested_type(e, t)
    } else {
        None
    }
}

/// A non-empty list of expressions that each have a type (see
/// `expr_type`), in a state of the type checker.
pub open spec fn typed_exprs(content: Seq<ElementView>, t: InterpreterData<Type>) -> bool {
    content.len() > 0 && forall|i: int| 0 <= i < content.len() ==> (#[trigger] expr_type(content[i], t)) is Some
}

/// A new empty frame changes the type of no expression.
proof fn lemma_nested_type_new_frame(e: ElementView, t: InterpreterData<Type>, t2: InterpreterData<Type>)
    requires
        t2.frames() == t.frames().push(Seq::empty()),
    ensures
        nested_type(e, t2) == nested_type(e, t),
    decreases e,
{
    match e {
        ElementView::Variable { name, .. } => {
            assert(frame_get(Seq::<(String, Type)>::empty(), name) is None);
            assert(t2.frames().drop_last() =~= t.frames());
        },
        ElementView::BinaryOpr { operand1, operand2, .. } => {
            lemma_nested_type_new_frame(*operand1, t, t2);
            lemma_nested_type_new_frame(*operand2, t, t2);
        },
        ElementView::UnaryOpr { operand, .. } => {
            lemma_nested_type_new_frame(*operand, t, t2);
        },
        _ => {},
    }
}

/// What checking a declaration or an assignment gives, whatever its
/// content. A target that is not a variable is error 2.2 (an internal
/// error for the null element), with the element and the type checker's
/// state left as they were. A declaration that succeeds gives the
/// content's type and comes out with its target, place, text and flags
/// kept and the type it declares (the content's type where `#null` was
/// written), which the innermost frame then binds the name to; its content
/// is cast to a declared type that differs from the content's. An
/// assignment that succeeds gives the variable's type, the type the name
/// is bound to afterwards, and keeps its target, place and text.
pub open spec fn eval_decl_ok(old_self: ElementView, final_self: ElementView, old_t: InterpreterData<Type>, final_t: InterpreterData<Type>, res: Result<Type, ZyxtError>) -> bool {
    match old_self {
        ElementView::Declare { position, raw, variable, type_, flags, .. } => match *variable {
            ElementView::Variable { name, .. } => res matches Ok(t) ==> {
                &&& final_self matches ElementView::Declare {
                    position: fp,
                    raw: fr,
                    variable: fv,
                    type_: ft,
                    flags: ff,
                    content: fc,
                }
                &&& fp == position && fr == raw && fv == variable && ff == flags
                &&& ft == (if type_ == named_type("#null"@) {
                    type_view(t)
                } else {
                    type_
                })
                &&& (type_ != named_type("#null"@) && type_ != type_view(t) ==> ({
                    &&& *fc matches ElementView::BinaryOpr { type_: OprType::TypeCast, position: cp, raw: cr, operand2: o2, .. }
                    &&& cp == position && cr == raw
                    &&& *o2 matches ElementView::Variable { name: on, raw: orw, parent: op, .. }
                    &&& on == crate::typeobj::name_of_type(type_) && orw == type_text(type_) && *op == ElementView::NullElement
                }))
                &&& frame_get(final_t.frames().last(), name) matches Some(w) && type_view(w) == ft
            },
            _ => {
                &&& final_self == old_self && final_t == old_t
                &&& res matches Err(e) && (!(*variable is NullElement) ==> e.code@ == "2.2"@)
            },
        },
        ElementView::Assign { position, raw, variable, .. } => match *variable {
            ElementView::Variable { name, .. } => res matches Ok(t) ==> {
                &&& final_self matches ElementView::Assign { position: fp, raw: fr, variable: fv, .. }
                &&& fp == position && fr == raw && fv == variable
                &&& env_get(final_t.frames(), name) matches Some(w) && type_view(w) == type_view(t)
            },
            _ => {
                &&& final_self == old_self && final_t == old_t
                &&& res matches Err(e) && (!(*variable is NullElement) ==> e.code@ == "2.2"@)
            },
        },
        _ => true,
    }
}

/// The type a declaration gives its variable: the declared type, or the
/// content's type where none is declared (`#null`).
pub open spec fn declared_type(decl: ElementView, content_type: TypeView) -> TypeView {
    match decl {
        ElementView::Declare { type_, .. } => if type_ == named_type("#null"@) {
            content_type
        } else {
            type_
        },
        _ => content_type,
    }
}

/// A declared variable has, for the type checker, the type its declaration
/// gave it: once the check of a declaration has succeeded, checking the
/// variable gives the declared type, or the content's type where none was
/// declared.
pub proof fn law_declared_type_reads_back(
    decl: ElementView,
    read: ElementView,
    decl_after: ElementView,
    read_after: ElementView,
    t0: InterpreterData<Type>,
    t1: InterpreterData<Type>,
    t2: InterpreterData<Type>,
    r1: Result<Type, ZyxtError>,
    r2: Result<Type, ZyxtError>,
)
    requires
        crate::interpreter::written_name(decl) is Some,
        decl is Declare,
        read matches ElementView::Variable { name, .. } && name == crate::interpreter::written_name(decl).unwrap(),
        eval_leaf_ok(decl, decl_after, t0, t1, r1),
        r1 is Ok,
        eval_leaf_ok(read, read_after, t1, t2, r2),
    ensures
        r2 is Ok,
        type_view(r2.unwrap()) == declared_type(decl, type_view(r1.unwrap())),
{
}

/// Whether an element names the printing procedure `ter.out`.
pub open spec fn is_out_callee(called: ElementView) -> bool {
    called matches ElementView::Variable { name, parent, .. } && name == "out"@ && (*parent matches ElementView::Variable {
        name: pname,
        ..
    } && pname == "ter"@)
}

/// What the type of a call is when its arguments hold no element to check
/// and have types: `#null` for `ter.out` (`out` of anything but a name is
/// an internal error); for a callee with no element in
/// it to check, the return type of a procedure type (an internal error
/// where that type has none), `#null` for any other type; the type
/// checker's state is left as it was.
pub open spec fn call_type_ok(called: ElementView, args: Seq<ElementView>, old_t: InterpreterData<Type>, final_t: InterpreterData<Type>, res: Result<Type, ZyxtError>) -> bool {
    (forall|i: int| 0 <= i < args.len() ==> (#[trigger] leaf_type(args[i], old_t)) is Some) ==> if is_out_callee(called) {
        (res matches Ok(t) && type_view(t) == named_type("#null"@)) && final_t == old_t
    } else if called matches ElementView::Variable { name, parent, .. } && name == "out"@ && !(*parent is Variable) {
        res matches Err(e) && e.code@ == "0.0"@
    } else {
        match leaf_type(called, old_t) {
            Some(TypeView::Instance { name, type_args, .. }) => final_t == old_t && if name == "proc"@ || name == "fn"@ {
                if type_args.len() >= 2 {
                    res matches Ok(t) && type_view(t) == type_args[1]
                } else {
                    res matches Err(e) && e.code@ == "0.0"@
                }
            } else {
                res matches Ok(t) && type_view(t) == named_type("#null"@)
            },
            Some(TypeView::Definition { .. }) => final_t == old_t && (res matches Ok(t) && type_view(t) == named_type(
                "#null"@,
            )),
            None => true,
        }
    }
}

impl Element {
    /// The type of the last statement of a block (`#null` for none), and no
    /// return type; with `add_set`, the block has a frame of names of its own.
    /// A block of expressions that each have a type (see `typed_exprs`) has
    /// the type of its last one and leaves the frames as they were.
    pub fn block_type(content: &mut Vec<Element>, typelist: &mut InterpreterData<Type>, add_set: bool) -> (res: Result<(Type, Option<Type>), ZyxtError>)
        requires
            old(typelist).wf(),
        ensures
            final(typelist).wf(),
            final(typelist).out@.len() >= old(typelist).out@.len(),
            res matches Ok(r) ==> r.1 is None,
            old(content)@.len() == 0 ==> (res matches Ok(r) && type_view(r.0) == named_type("#null"@)),
            typed_exprs(elems_view(old(content)@), *old(typelist)) ==> (res matches Ok(r) && type_view(r.0) == expr_type(
                elems_view(old(content)@).last(),
                *old(typelist),
            ).unwrap()) && final(typelist).frames() == old(typelist).frames(),
    {
        Element::block_type_in(content, typelist, add_set, NESTING_LIMIT)
    }

    fn block_type_in(content: &mut Vec<Element>, typelist: &mut InterpreterData<Type>, add_set: bool, depth: u64) -> (res: Result<(Type, Option<Type>), ZyxtError>)
        requires
            old(typelist).wf(),
        ensures
            final(typelist).wf(),
            final(typelist).out@.len() >= old(typelist).out@.len(),
            res matches Ok(r) ==> r.1 is None,
            old(content)@.len() == 0 ==> (res matches Ok(r) && type_view(r.0) == named_type("#null"@)),
            res is Ok ==> final(typelist).heap@.len() >= old(typelist).heap@.len() && final(typelist).defer@.len() >= old(typelist).defer@.len(),
            depth > 500 && typed_exprs(elems_view(old(content)@), *old(typelist)) ==> (res matches Ok(r) && type_view(r.0)
                == expr_type(elems_view(old(content)@).last(), *old(typelist)).unwrap()) && final(typelist).frames() == old(
                typelist,
            ).frames(),
        decreases depth, 1int,
    {
        let ghost cv = elems_view(content@);
        proof {
            crate::element::lemma_elems_view(content@);
        }
        let ghost leaves = depth > 500 && typed_exprs(cv, *old(typelist));
        let mut last = Type::null();
        if add_set {
            typelist.add_frame(None);
        }
        let ghost start = *typelist;
        let ghost h0 = typelist.heap@.len();
        let ghost d0 = typelist.defer@.len();
        let mut i: usize = 0;
        while i < content.len()
            invariant
                typelist.wf(),
                typelist.out@.len() >= old(typelist).out@.len(),
                typelist.heap@.len() >= h0,
                typelist.defer@.len() >= d0,
                h0 == old(typelist).heap@.len() + (if add_set { 1int } else { 0int }),
                d0 == old(typelist).defer@.len() + (if add_set { 1int } else { 0int }),
                content@.len() == old(content)@.len(),
                0 <= i <= content@.len(),
                i == 0 ==> type_view(last) == named_type("#null"@),
                cv.len() == content@.len(),
                cv == elems_view(old(content)@),
                forall|j: int| i <= j < content@.len() ==> #[trigger] elem_view(content@[j]) == cv[j],
                leaves == (depth > 500 && typed_exprs(cv, *old(typelist))),
                leaves ==> *typelist == start,
                add_set ==> start.frames() == old(typelist).frames().push(Seq::empty()) && start.heap@.len() >= 2
                    && start.defer@.len() >= 2,
                !add_set ==> start == *old(typelist),
                leaves && i > 0 ==> type_view(last) == expr_type(cv[i - 1], *old(typelist)).unwrap(),
            decreases content@.len() - i,
        {
            let mut ele = Element::NullElement;
            content.set_and_swap(i, &mut ele);
            proof {
                if leaves {
                    assert(elem_view(ele) == cv[i as int]);
                    assert(expr_type(cv[i as int], *old(typelist)) is Some);
                    if add_set {
                        lemma_nested_type_new_frame(cv[i as int], *old(typelist), start);
                    }
                }
            }
            let r = ele.eval_type_in(typelist, depth);
            content.set_and_swap(i, &mut ele);
            last = r?;
            i = i + 1;
        }
        if add_set {
            typelist.pop_frame();
            proof {
                if leaves {
                    assert(old(typelist).frames().push(Seq::empty()).drop_last() =~= old(typelist).frames());
                }
            }
        }
        Ok((last, None))
    }

    /// The type a call gives, after the arguments' types are checked:
    /// `#null` for the printing procedure `ter.out`, the return type of a
    /// procedure, and `#null` for anything else. Calling `out` on anything
    /// but a variable is an internal error.
    pub fn call_return_type(called: &mut Element, args: &mut Vec<Element>, typelist: &mut InterpreterData<Type>) -> (res: Result<Type, ZyxtError>)
        requires
            old(typelist).wf(),
        ensures
            final(typelist).wf(),
            final(typelist).out@.len() >= old(typelist).out@.len(),
            call_type_ok(elem_view(*old(called)), elems_view(old(args)@), *old(typelist), *final(typelist), res),
    {
        Element::call_return_type_in(called, args, typelist, NESTING_LIMIT)
    }

    fn call_return_type_in(called: &mut Element, args: &mut Vec<Element>, typelist: &mut InterpreterData<Type>, depth: u64) -> (res: Result<Type, ZyxtError>)
        requires
            old(typelist).wf(),
        ensures
            final(typelist).wf(),
            final(typelist).out@.len() >= old(typelist).out@.len(),
            res is Ok ==> final(typelist).heap@.len() >= old(typelist).heap@.len() && final(typelist).defer@.len() >= old(typelist).defer@.len(),
            depth > 0 ==> call_type_ok(elem_view(*old(called)), elems_view(old(args)@), *old(typelist), *final(typelist), res),
        decreases depth, 1int,
    {
        let ghost av = elems_view(args@);
        proof {
            crate::element::lemma_elems_view(args@);
        }
        let ghost leaves = depth > 0 && forall|j: int| 0 <= j < av.len() ==> (#[trigger] leaf_type(av[j], *old(typelist))) is Some;
        let mut i: usize = 0;
        while i < args.len()
            invariant
                typelist.wf(),
                typelist.out@.len() >= old(typelist).out@.len(),
                typelist.heap@.len() >= old(typelist).heap@.len(),
                typelist.defer@.len() >= old(typelist).defer@.len(),
                0 <= i <= args@.len(),
                args@.len() == av.len(),
                av == elems_view(old(args)@),
                forall|j: int| i <= j < args@.len() ==> #[trigger] elem_view(args@[j]) == av[j],
                leaves == (depth > 0 && forall|j: int| 0 <= j < av.len() ==> (#[trigger] leaf_type(av[j], *old(typelist))) is Some),
                leaves ==> *typelist == *old(typelist),
                *called == *old(called),
            decreases args@.len() - i,
        {
            let mut a = Element::NullElement;
            args.set_and_swap(i, &mut a);
            proof {
                if leaves {
                    assert(elem_view(a) == av[i as int]);
                    assert(leaf_type(av[i as int], *old(typelist)) is Some);
                }
            }
            let r = a.eval_type_in(typelist, depth);
            args.set_and_swap(i, &mut a);
            r?;
            i = i + 1;
        }
        let ghost cv = elem_view(*called);
        match called {
            Element::Variable { name, parent, .. } => {
                assert(cv matches ElementView::Variable { name: n, parent: p, .. } && n == name@ && *p == elem_view(**parent));
                if crate::text::str_eq(name.as_str(), "out") {
                    match &**parent {
                        Element::Variable { name: pname, .. } => {
                            if crate::text::str_eq(pname.as_str(), "ter") {
                                return Ok(Type::null());
                            }
                        },
                        _ => {
                            return Err(internal_error("`out` called on something that is not a variable"));
                        },
                    }
                }
            },
            _ => {},
        }
        let t = called.eval_type_in(typelist, depth)?;
        match t {
            Type::Instance { name, type_args, .. } => {
                proof {
                    crate::element::lemma_types_view(type_args@);
                    reveal_strlit("proc");
                    reveal_strlit("fn");
                }
                if crate::text::str_eq(name.as_str(), "proc") || crate::text::str_eq(name.as_str(), "fn") {
                    if type_args.len() < 2 {
                        return Err(internal_error("procedure type without a return type"));
                    }
                    return Ok(clone_type(&type_args[1]));
                }
                Ok(Type::null())
            },
            _ => Ok(Type::null()),
        }
    }

    /// The type of an element, checking it and the elements in it: a
    /// literal's type; the type a variable is declared with (error 3.0 if
    /// it is not); for a declaration, the type of its content, the variable
    /// being declared with the declared type or, if none, that type, and the
    /// content cast to a declared type that differs; for a block, an `if`
    /// (its first branch), a deferred block and a procedure's body, the type
    /// of the last statement; for an operation, the type it gives (see
    /// `bin_op_return_type`, `un_op_return_type`); for an assignment, the
    /// variable's type, which must be the content's (error 4.3); for a
    /// call, the return type of the procedure called (`#null` for `ter.out`
    /// and for a value of any other type); for a class, its definition. Preprocessed code is run and replaced by its
    /// value. A token is error 2.1.0; anything else has the type `#null`.
    pub fn eval_type(&mut self, typelist: &mut InterpreterData<Type>) -> (res: Result<Type, ZyxtError>)
        requires
            old(typelist).wf(),
        ensures
            final(typelist).wf(),
            final(typelist).out@.len() >= old(typelist).out@.len(),
            eval_leaf_ok(elem_view(*old(self)), elem_view(*final(self)), *old(typelist), *final(typelist), res),
            eval_op_ok(elem_view(*old(self)), *old(typelist), *final(typelist), res),
            eval_block_ok(elem_view(*old(self)), *old(typelist), *final(typelist), res),
            eval_write_ok(elem_view(*old(self)), elem_view(*final(self)), *old(typelist), *final(typelist), res),
            eval_decl_ok(elem_view(*old(self)), elem_view(*final(self)), *old(typelist), *final(typelist), res),
            op_height(elem_view(*old(self))) < NESTING_LIMIT ==> eval_nested_ok(elem_view(*old(self)), *old(typelist), *final(typelist), res),
            (elem_view(*old(self)) matches ElementView::Declare { content, .. } && op_height(*content) + 1 < NESTING_LIMIT)
                ==> eval_decl_type_ok(elem_view(*old(self)), *old(typelist), *final(typelist), res),
    {
        self.eval_type_in(typelist, NESTING_LIMIT)
    }

    #[verifier::rlimit(40)]
    fn eval_type_in(&mut self, typelist: &mut InterpreterData<Type>, depth: u64) -> (res: Result<Type, ZyxtError>)
        requires
            old(typelist).wf(),
        ensures
            final(typelist).wf(),
            final(typelist).out@.len() >= old(typelist).out@.len(),
            res is Ok ==> final(typelist).heap@.len() >= old(typelist).heap@.len() && final(typelist).defer@.len() >= old(typelist).defer@.len(),
            depth > 0 ==> eval_leaf_ok(elem_view(*old(self)), elem_view(*final(self)), *old(typelist), *final(typelist), res),
            depth > 1 ==> eval_op_ok(elem_view(*old(self)), *old(typelist), *final(typelist), res),
            depth > 501 ==> eval_block_ok(elem_view(*old(self)), *old(typelist), *final(typelist), res),
            depth > 1 ==> eval_write_ok(elem_view(*old(self)), elem_view(*final(self)), *old(typelist), *final(typelist), res),
            depth > 0 ==> eval_decl_ok(elem_view(*old(self)), elem_view(*final(self)), *old(typelist), *final(typelist), res),
            depth > op_height(elem_view(*old(self))) ==> eval_nested_ok(elem_view(*old(self)), *old(typelist), *final(typelist), res),
            depth > 1 && (elem_view(*old(self)) matches ElementView::Declare { content, .. } && depth > op_height(*content) + 1)
                ==> eval_decl_type_ok(elem_view(*old(self)), *old(typelist), *final(typelist), res),
        decreases depth, 0int,
    {
        if depth == 0 {
            return Err(internal_error("syntax tree nested too deeply"));
        }
        let mut e = Element::NullElement;
        std::mem::swap(&mut e, self);
        match e {
            Element::Literal { position, raw, type_, content } => {
                let t = clone_type(&type_);
                *self = Element::Literal { position, raw, type_, content };
                Ok(t)
            },
            Element::Variable { position, raw, name, parent } => {
                let r = typelist.get_val(&name, &position, &raw);
                *self = Element::Variable { position, raw, name, parent };
                r
            },
            Element::Block { position, raw, mut content } => {
                proof {
                    crate::element::lemma_elems_view(content@);
                }
                let r = Element::block_type_in(&mut content, typelist, true, depth - 1);
                *self = Element::Block { position, raw, content };
                match r {
                    Ok((t, _)) => Ok(t),
                    Err(err) => Err(err),
                }
            },
            Element::Call { position, raw, called, mut args, kwargs } => {
                let mut c = *called;
                let r = Element::call_return_type_in(&mut c, &mut args, typelist, depth - 1);
                *self = Element::Call { position, raw, called: Box::new(c), args, kwargs };
                r
            },
            Element::Declare { position, raw, variable, content, flags, type_ } => {
                if !variable.is_pattern() {
                    let err = error_2_2().with_element(&variable);
                    *self = Element::Declare { position, raw, variable, content, flags, type_ };
                    return Err(err);
                }
                let ghost c0 = elem_view(*content);
                let mut c = *content;
                let ct = c.eval_type_in(typelist, depth - 1);
                let content_type = match ct {
                    Ok(t) => t,
                    Err(err) => {
                        *self = Element::Declare { position, raw, variable, content: Box::new(c), flags, type_ };
                        return Err(err);
                    },
                };
                let name = variable.get_name();
                assert(elem_view(*variable) matches ElementView::Variable { name: n2, .. } && n2 == name@);
                assert(elem_view(*old(self)) matches ElementView::Declare { variable: vv, .. } && *vv == elem_view(*variable));
                let ghost tv = type_view(type_);
                if type_.is_named("#null") {
                    typelist.declare_val(name.as_str(), &content_type);
                    proof {
                        let w = frame_get(typelist.frames().last(), name@).unwrap();
                        assert(cloned(content_type, w));
                        assert(type_view(w) == type_view(content_type));
                        assert(env_get(typelist.frames(), name@) == Some(w));
                    }
                    *self = Element::Declare {
                        position,
                        raw,
                        variable,
                        content: Box::new(c),
                        flags,
                        type_: clone_type(&content_type),
                    };
                } else {
                    typelist.declare_val(name.as_str(), &type_);
                    proof {
                        let w = frame_get(typelist.frames().last(), name@).unwrap();
                        assert(cloned(type_, w));
                        assert(type_view(w) == type_view(type_));
                        assert(env_get(typelist.frames(), name@) == Some(w));
                    }
                    if !type_eq(&content_type, &type_) {
                        match &type_ {
                            Type::Instance { .. } => {
                                let target = type_.as_element();
                                let ghost cv = elem_view(c);
                                proof {
                                    if depth > 1 && leaf_type(c0, *old(typelist)) is Some {
                                        assert(cv == c0);
                                    }
                                }
                                let new_content = Element::BinaryOpr {
                                    position: position.clone(),
                                    raw: raw.clone(),
                                    type_: OprType::TypeCast,
                                    operand1: Box::new(c),
                                    operand2: Box::new(target),
                                };
                                let ghost nv = elem_view(new_content);
                                assert(nv matches ElementView::BinaryOpr { type_: OprType::TypeCast, operand1, .. } && *operand1 == cv);
                                *self = Element::Declare { position, raw, variable, content: Box::new(new_content), flags, type_ };
                                assert(elem_view(*self) matches ElementView::Declare { content: fc, .. } && *fc == nv);
                            },
                            Type::Definition { .. } => {
                                *self = Element::Declare { position, raw, variable, content: Box::new(c), flags, type_ };
                                return Err(internal_error("a class has no element to cast to"));
                            },
                        }
                    } else {
                        *self = Element::Declare { position, raw, variable, content: Box::new(c), flags, type_ };
                    }
                }
                Ok(content_type)
            },
            Element::If { position, raw, mut conditions } => {
                proof {
                    crate::element::lemma_conds_view(conditions@);
                    if conditions@.len() > 0 {
                        crate::element::lemma_elems_view(conditions@[0].if_true@);
                    }
                }
                if conditions.len() == 0 {
                    *self = Element::If { position, raw, conditions };
                    return Err(internal_error("`if` without branches"));
                }
                let mut first = crate::element::Condition { condition: Element::NullElement, if_true: Vec::new() };
                conditions.set_and_swap(0, &mut first);
                let r = Element::block_type_in(&mut first.if_true, typelist, true, depth - 1);
                conditions.set_and_swap(0, &mut first);
                *self = Element::If { position, raw, conditions };
                match r {
                    Ok((t, _)) => Ok(t),
                    Err(err) => Err(err),
                }
            },
            Element::BinaryOpr { position, raw, type_, operand1, operand2 } => {
                let mut o1 = *operand1;
                let mut o2 = *operand2;
                let r1 = o1.eval_type_in(typelist, depth - 1);
                let t1 = match r1 {
                    Ok(t) => t,
                    Err(err) => {
                        *self = Element::BinaryOpr { position, raw, type_, operand1: Box::new(o1), operand2: Box::new(o2) };
                        return Err(err);
                    },
                };
                let r2 = o2.eval_type_in(typelist, depth - 1);
                let t2 = match r2 {
                    Ok(t) => t,
                    Err(err) => {
                        *self = Element::BinaryOpr { position, raw, type_, operand1: Box::new(o1), operand2: Box::new(o2) };
                        return Err(err);
                    },
                };
                let r = if type_ == OprType::TypeCast && t2.is_named("type") {
                    match &o2 {
                        Element::Variable { name, .. } => Ok(Type::from_str(name.as_str())),
                        _ => Err(internal_error("cast to a type that is not a name")),
                    }
                } else {
                    Element::bin_op_return_type(&type_, t1, t2, &position, &raw)
                };
                *self = Element::BinaryOpr { position, raw, type_, operand1: Box::new(o1), operand2: Box::new(o2) };
                r
            },
            Element::UnaryOpr { position, raw, type_, operand } => {
                let mut o = *operand;
                let r = o.eval_type_in(typelist, depth - 1);
                let result = match r {
                    Ok(t) => Element::un_op_return_type(&type_, t, &position, &raw),
                    Err(err) => Err(err),
                };
                *self = Element::UnaryOpr { position, raw, type_, operand: Box::new(o) };
                result
            },
            Element::Procedure { position, raw, is_fn, args, return_type, mut content } => {
                proof {
                    crate::element::lemma_elems_view(content@);
                }
                typelist.add_frame(None);
                let mut i: usize = 0;
                while i < args.len()
                    invariant
                        depth > 0,
                        elem_view(*old(self)) is Procedure,
                        typelist.wf(),
                        typelist.out@.len() >= old(typelist).out@.len(),
                        typelist.heap@.len() >= old(typelist).heap@.len(),
                        typelist.defer@.len() >= old(typelist).defer@.len(),
                        0 <= i <= args@.len(),
                    decreases args@.len() - i,
                {
                    typelist.declare_val(args[i].name.as_str(), &args[i].type_);
                    i = i + 1;
                }
                let r = Element::block_type_in(&mut content, typelist, false, depth - 1);
                match r {
                    Ok((res, _)) => {
                        let ret = clone_type(&res);
                        let ghost rv = type_view(res);
                        let targs = vec![Type::null(), res];
                        let attrs: Vec<(String, Element)> = Vec::new();
                        proof {
                            crate::element::lemma_types_view(targs@);
                            reveal_strlit("fn");
                            reveal_strlit("proc");
                            assert(crate::element::attrs_view(attrs@) =~= Seq::<(Seq<char>, ElementView)>::empty());
                            assert(crate::element::types_view(targs@) =~= seq![named_type("#null"@), rv]);
                        }
                        let t = Type::Instance {
                            name: if is_fn {
                                String::from_str("fn")
                            } else {
                                String::from_str("proc")
                            },
                            type_args: targs,
                            inst_attrs: attrs,
                            implementation: None,
                        };
                        *self = Element::Procedure { position, raw, is_fn, args, return_type: ret, content };
                        Ok(t)
                    },
                    Err(err) => {
                        *self = Element::Procedure { position, raw, is_fn, args, return_type, content };
                        Err(err)
                    },
                }
            },
            Element::Preprocess { position, raw, content } => {
                let mut pre_typelist = InterpreterData::<Type>::default_type();
                let pre = gen_instructions_in(clone_elements(&content), &mut pre_typelist, depth - 1);
                let pre_instructions = match pre {
                    Ok(p) => p,
                    Err(err) => {
                        *self = Element::Preprocess { position, raw, content };
                        return Err(err);
                    },
                };
                let mut i_data = InterpreterData::<Value>::default_variable();
                let v = crate::interpreter::interpret_block(&pre_instructions, &mut i_data, true, false);
                let pre_value = match v {
                    Ok(v) => v,
                    Err(err) => {
                        *self = Element::Preprocess { position, raw, content };
                        return Err(err);
                    },
                };
                let mut k: usize = 0;
                while k < i_data.out.len()
                    invariant
                        depth > 0,
                        elem_view(*old(self)) is Preprocess,
                        typelist.wf(),
                        typelist.out@.len() >= old(typelist).out@.len(),
                        typelist.heap == old(typelist).heap,
                        typelist.defer == old(typelist).defer,
                        0 <= k <= i_data.out@.len(),
                    decreases i_data.out@.len() - k,
                {
                    typelist.out.push(i_data.out[k].clone());
                    k = k + 1;
                }
                if crate::value::methods::value_holds_instance(&pre_value) {
                    *self = Element::Preprocess { position, raw, content };
                    return Err(internal_error("an instance has no element"));
                }
                let mut new_self = pre_value.as_element();
                let r = new_self.eval_type_in(typelist, depth - 1);
                *self = new_self;
                r
            },
            Element::Defer { position, raw, mut content } => {
                proof {
                    crate::element::lemma_elems_view(content@);
                }
                let r = Element::block_type_in(&mut content, typelist, false, depth - 1);
                *self = Element::Defer { position, raw, content };
                match r {
                    Ok((t, _)) => Ok(t),
                    Err(err) => Err(err),
                }
            },
            Element::Assign { position, raw, variable, content } => {
                if !variable.is_pattern() {
                    let err = error_2_2().with_element(&variable);
                    *self = Element::Assign { position, raw, variable, content };
                    return Err(err);
                }
                let mut c = *content;
                let ct = c.eval_type_in(typelist, depth - 1);
                let name = variable.get_name();
                assert(elem_view(*variable) matches ElementView::Variable { name: n2, .. } && n2 == name@);
                assert(elem_view(*old(self)) matches ElementView::Assign { variable: vv, .. } && *vv == elem_view(*variable));
                let result = match ct {
                    Ok(content_type) => {
                        match typelist.get_val(&name, &position, &raw) {
                            Ok(var_type) => {
                                if !type_eq(&content_type, &var_type) {
                                    Err(error_4_3(name, var_type.to_text(), content_type.to_text()).with_pos_and_raw(&position, &raw))
                                } else {
                                    Ok(var_type)
                                }
                            },
                            Err(err) => Err(err),
                        }
                    },
                    Err(err) => Err(err),
                };
                *self = Element::Assign { position, raw, variable, content: Box::new(c) };
                result
            },
            Element::Class { position, raw, is_struct, class_attrs, mut inst_attrs, mut content, args } => {
                proof {
                    crate::element::lemma_elems_view(content@);
                }
                let ghost n0 = content@.len();
                let ghost ia0 = crate::element::attrs_view(inst_attrs@);
                typelist.add_frame(None);
                let ghost h1 = typelist.heap@.len();
                let ghost d1 = typelist.defer@.len();
                let mut i: usize = 0;
                while i < content.len()
                    invariant
                        depth > 0,
                        elem_view(*old(self)) is Class,
                        typelist.wf(),
                        typelist.out@.len() >= old(typelist).out@.len(),
                        typelist.heap@.len() >= h1,
                        typelist.defer@.len() >= d1,
                        h1 == old(typelist).heap@.len() + 1,
                        d1 == old(typelist).defer@.len() + 1,
                        0 <= i <= content@.len(),
                        content@.len() == n0,
                        elem_view(*old(self)) matches ElementView::Class { content: oc, .. } && oc.len() == n0,
                        n0 == 0 ==> crate::element::attrs_view(inst_attrs@) == ia0,
                    decreases content@.len() - i,
                {
                    let mut expr = Element::NullElement;
                    content.set_and_swap(i, &mut expr);
                    let r = expr.eval_type_in(typelist, depth - 1);
                    match r {
                        Ok(_) => {},
                        Err(err) => {
                            content.set_and_swap(i, &mut expr);
                            *self = Element::Class { position, raw, is_struct, class_attrs, inst_attrs, content, args };
                            return Err(err);
                        },
                    }
                    let mut outcome: Result<(), ZyxtError> = Ok(());
                    let rebuilt = match expr {
                        Element::Declare { position: dp, raw: dr, variable, content: dc, flags, type_ } => {
                            let mut c = *dc;
                            match c.eval_type_in(typelist, depth - 1) {
                                Ok(_) => {
                                    let inst = has_flag(&flags, Flag::Inst);
                                    if inst && args.is_some() {
                                        outcome = Err(internal_error("instance attribute in a struct with parameters"));
                                    } else if inst {
                                        if variable.is_pattern() {
                                            set_attr(&mut inst_attrs, variable.get_name(), clone_element(&c));
                                        } else {
                                            outcome = Err(internal_error("declaration of something that is not a variable"));
                                        }
                                    }
                                },
                                Err(err) => {
                                    outcome = Err(err);
                                },
                            }
                            Element::Declare { position: dp, raw: dr, variable, content: Box::new(c), flags, type_ }
                        },
                        other => other,
                    };
                    let mut back = rebuilt;
                    content.set_and_swap(i, &mut back);
                    match outcome {
                        Ok(()) => {},
                        Err(err) => {
                            *self = Element::Class { position, raw, is_struct, class_attrs, inst_attrs, content, args };
                            return Err(err);
                        },
                    }
                    i = i + 1;
                }
                typelist.pop_frame();
                let generics: Vec<crate::element::Argument> = Vec::new();
                let no_attrs: Vec<(String, Element)> = Vec::new();
                proof {
                    assert(crate::element::args_view(generics@) =~= Seq::<crate::element::ArgumentView>::empty());
                    assert(crate::element::attrs_view(no_attrs@) =~= Seq::<(Seq<char>, ElementView)>::empty());
                    reveal_strlit("struct");
                    reveal_strlit("class");
                }
                let t = Type::Definition {
                    name: if is_struct {
                        String::from_str("struct")
                    } else {
                        String::from_str("class")
                    },
                    generics,
                    class_attrs: no_attrs,
                    inst_attrs: crate::element::clone_attrs(&inst_attrs),
                };
                *self = Element::Class { position, raw, is_struct, class_attrs, inst_attrs, content, args };
                Ok(t)
            },
            Element::NullElement => {
                *self = Element::NullElement;
                Ok(Type::null())
            },
            Element::Delete { position, raw, names } => {
                *self = Element::Delete { position, raw, names };
                Ok(Type::null())
            },
            Element::Comment { position, raw, content } => {
                *self = Element::Comment { position, raw, content };
                Ok(Type::null())
            },
            Element::Return { position, raw, value } => {
                *self = Element::Return { position, raw, value };
                Ok(Type::null())
            },
            Element::Token(t) => {
                let err = error_2_1_0(t.value.clone()).with_pos_and_raw(&t.position, &t.value);
                *self = Element::Token(t);
                Err(err)
            },
        }
    }
}

/// How the type checker leaves a declaration or an assignment of a
/// variable: with its place, text and target (and a declaration's flags)
/// kept, a declaration with its declared type, or, where `#null` was
/// written and the content is a literal, the literal's type.
pub open spec fn checked_as(before: ElementView, after: ElementView) -> bool {
    match before {
        ElementView::Declare { position, raw, variable, content, flags, type_ } => *variable is Variable ==> {
            &&& after matches ElementView::Declare { position: fp, raw: fr, variable: fv, flags: ff, type_: ft, .. }
            &&& fp == position && fr == raw && fv == variable && ff == flags
            &&& type_ != named_type("#null"@) ==> ft == type_
            &&& type_ == named_type("#null"@) ==> (*content matches ElementView::Literal { type_: lt, .. } ==> ft == lt)
        },
        ElementView::Assign { position, raw, variable, .. } => *variable is Variable ==> (after matches ElementView::Assign {
            position: fp,
            raw: fr,
            variable: fv,
            ..
        } && fp == position && fr == raw && fv == variable),
        _ => true,
    }
}

/// An element with no element in it to check comes out of the type checker
/// as it went in.
pub open spec fn leaf_unchanged(before: ElementView, after: ElementView) -> bool {
    (before is Literal || before is Variable || before is NullElement || before is Delete || before is Comment
        || before is Return) ==> after == before
}

/// Checks the types of a list of elements, in order (see `Element::eval_type`).
#[verifier::loop_isolation(false)]
pub(crate) fn gen_instructions_in(mut input: Vec<Element>, typelist: &mut InterpreterData<Type>, depth: u64) -> (res: Result<Vec<Element>, ZyxtError>)
    requires
        old(typelist).wf(),
    ensures
        final(typelist).wf(),
        final(typelist).out@.len() >= old(typelist).out@.len(),
        res matches Ok(v) ==> v@.len() == input@.len(),
        input@.len() == 0 ==> res is Ok,
        depth > 0 ==> (res matches Ok(v) ==> forall|j: int| 0 <= j < v@.len() ==> !(elem_view(#[trigger] input@[j]) is Token)
            && leaf_unchanged(elem_view(input@[j]), elem_view(v@[j]))),
        depth > 0 && (forall|j: int| 0 <= j < input@.len() ==> elem_view(#[trigger] input@[j]) is Literal || elem_view(input@[j])
            is NullElement) ==> res is Ok,
        depth > 1 ==> (res matches Ok(v) ==> forall|j: int| 0 <= j < v@.len() ==> checked_as(elem_view(#[trigger] input@[j]), elem_view(v@[j]))),
        depth > 501 && type_stmts(elems_view(input@), type_env(*old(typelist))) ==> res is Ok,
    decreases depth, 2int,
{
    let mut i: usize = 0;
    let ghost orig = input@;
    let ghost iv = elems_view(input@);
    proof {
        crate::element::lemma_elems_view(input@);
        assert(iv.skip(0) =~= iv);
    }
    let ghost typed = depth > 501 && type_stmts(iv, type_env(*old(typelist)));
    while i < input.len()
        invariant
            iv == elems_view(orig),
            iv.len() == orig.len(),
            forall|j: int| 0 <= j < orig.len() ==> #[trigger] iv[j] == elem_view(orig[j]),
            typed == (depth > 501 && type_stmts(iv, type_env(*old(typelist)))),
            typed ==> type_stmts(iv.skip(i as int), type_env(*typelist)),
            typelist.wf(),
            typelist.out@.len() >= old(typelist).out@.len(),
            0 <= i <= input@.len(),
            input@.len() == orig.len(),
            forall|j: int| i <= j < orig.len() ==> input@[j] == orig[j],
            depth > 0 ==> forall|j: int| 0 <= j < i ==> !(elem_view(#[trigger] orig[j]) is Token)
                && leaf_unchanged(elem_view(orig[j]), elem_view(input@[j])),
            depth > 1 ==> forall|j: int| 0 <= j < i ==> checked_as(elem_view(#[trigger] orig[j]), elem_view(input@[j])),
        decreases input@.len() - i,
    {
        let mut ele = Element::NullElement;
        input.set_and_swap(i, &mut ele);
        let ghost t0 = *typelist;
        let ghost ev = elem_view(ele);
        proof {
            if typed {
                assert(iv.skip(i as int)[0] == iv[i as int]);
                assert(iv.skip(i as int).drop_first() =~= iv.skip(i + 1));
                assert(ev == iv[i as int]);
            }
        }
        let r = ele.eval_type_in(typelist, depth);
        proof {
            if typed {
                lemma_type_step(ev, t0, *typelist, r);
            }
            if depth > 0 && (forall|j: int| 0 <= j < orig.len() ==> elem_view(#[trigger] orig[j]) is Literal || elem_view(orig[j])
                is NullElement) {
                assert(elem_view(orig[i as int]) is Literal || elem_view(orig[i as int]) is NullElement);
            }
        }
        input.set_and_swap(i, &mut ele);
        r?;
        i = i + 1;
    }
    Ok(input)
}

} // verus!
