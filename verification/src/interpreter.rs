use vstd::prelude::*;
use vstd::string::*;
use crate::element::{
    Argument, ConditionView, Element, ElementView, cond_view, conds_view, elem_view, elems_view, type_view, clone_args, clone_attrs,
    clone_element, clone_elements, clone_type,
};
use crate::errors::{ZyxtError, internal_error, error_3_1_1, error_4_1_0, error_4_1_1, error_4_2};
use crate::eval::NESTING_LIMIT;
use crate::interpreter_data::{FrameData, InterpreterData, prim_names, prim_name_list};
use crate::position::Position;
use crate::scope::{env_get, frame_get, frames_view, frames_unique, frame_unique, frames_declare};
use crate::text::str_eq;
use crate::token::{OprType, opr_name};
use crate::typeobj::{Type, named_type};
use crate::value::{Value, ValueView, value_view, clone_value, type_of_value};
use crate::value::methods::{
    bin_opr_fails, un_opr_fails, call_fails, call_spec, content_spec, value_holds_instance, bin_opr_spec, un_opr_spec,
};
use crate::value::typecast::cast_to_name;

verus! {

broadcast use vstd::std_specs::vec::group_vec_axioms;

/// Whether a binary operation on the values would stop the program (see
/// `bin_opr_fails`).
fn bin_opr_fails_exec(opr: &OprType, x: &Value, y: &Value) -> (res: bool)
    ensures
        res == bin_opr_fails(*opr, value_view(*x), value_view(*y)),
    decreases x,
{
    match x {
        Value::Return(b) => bin_opr_fails_exec(opr, &**b, y),
        _ => {
            if *opr == OprType::And || *opr == OprType::Or {
                return true;
            }
            if *opr != OprType::Xor {
                return false;
            }
            let l = cast_to_name(x, "bool");
            let r = cast_to_name(y, "bool");
            match (&l, &r) {
                (Ok(lv), Ok(rv)) => !(matches!(lv, Value::Bool(_)) && matches!(rv, Value::Bool(_))),
                _ => false,
            }
        },
    }
}

/// Whether a unary operation on the value would never end (see `un_opr_fails`).
fn un_opr_fails_exec(opr: &OprType, x: &Value) -> (res: bool)
    ensures
        res == un_opr_fails(*opr, value_view(*x)),
    decreases x,
{
    match x {
        Value::Return(b) => un_opr_fails_exec(opr, &**b),
        Value::Type(_) => *opr == OprType::Not,
        _ => false,
    }
}

/// Whether calling the value with that many arguments would stop the
/// program (see `call_fails`).
fn call_fails_exec(x: &Value, n: usize) -> (res: bool)
    ensures
        res == call_fails(value_view(*x), n as nat),
    decreases x,
{
    if n != 1 {
        return false;
    }
    match x {
        Value::Return(b) => call_fails_exec(&**b, n),
        Value::Proc { .. } | Value::Type(_) | Value::ClassInstance { .. } => true,
        _ => false,
    }
}

/// What interpreting an element gives and leaves: the value of an element
/// that holds no element to interpret (which leaves the state as it was),
/// and what a declaration, an assignment, a deferral, a return and an
/// empty `if` or block give.
pub open spec fn interp_leaf_ok(input: ElementView, old_d: InterpreterData<Value>, final_d: InterpreterData<Value>, res: Result<Value, ZyxtError>) -> bool {
    match input {
        ElementView::NullElement => (res matches Ok(v) && value_view(v) == ValueView::Null) && final_d == old_d,
        ElementView::Literal { type_, content, .. } => final_d == old_d && match content_spec(type_, content) {
            Some(v) => res matches Ok(r) && value_view(r) == v,
            None => res matches Err(e) && e.code@ == "0.0"@,
        },
        ElementView::Variable { name, position, raw, .. } => final_d == old_d && match env_get(old_d.frames(), name) {
            Some(v) => res matches Ok(r) && value_view(r) == value_view(v),
            None => res matches Err(e) && e.code@ == "3.0"@ && e.message@ == "Undefined variable `"@ + name
                + "`"@ && (e.position matches Some(p) && p@ == position) && e.raw@ == raw,
        },
        ElementView::Procedure { is_fn, args, return_type, content, .. } => (res matches Ok(v)
            && value_view(v) == ValueView::Proc { is_fn, args, return_type, content }) && final_d == old_d,
        ElementView::Token(_) | ElementView::Comment { .. } | ElementView::Preprocess { .. } => (res matches Err(e)
            && e.code@ == "0.0"@) && final_d == old_d,
        ElementView::Defer { content, .. } => (res matches Ok(v) && value_view(v) == ValueView::Null)
            && final_d.heap@ == old_d.heap@ && final_d.defer@.len() == old_d.defer@.len()
            && elems_view(final_d.defer@.last()@.last()@) == content,
        ElementView::Declare { variable, .. } => match *variable {
            ElementView::Variable { name, .. } => match res {
                Ok(v) => env_get(final_d.frames(), name) is Some && value_view(env_get(final_d.frames(), name).unwrap())
                    == value_view(v),
                Err(_) => true,
            },
            _ => res matches Err(e) && e.code@ == "0.0"@,
        },
        ElementView::Assign { variable, .. } => match *variable {
            ElementView::Variable { name, .. } => match res {
                Ok(v) => env_get(final_d.frames(), name) is Some && value_view(env_get(final_d.frames(), name).unwrap())
                    == value_view(v),
                Err(_) => true,
            },
            _ => res matches Err(e) && e.code@ == "0.0"@,
        },
        ElementView::Return { .. } => match res {
            Ok(v) => v is Return,
            Err(_) => true,
        },
        ElementView::Delete { names, .. } => {
            &&& (res matches Ok(v) ==> v is Null && final_d.frames().drop_last() == old_d.frames().drop_last()
                && forall|i: int| 0 <= i < names.len() ==> frame_get(final_d.frames().last(), #[trigger] names[i]) is None)
            &&& (res matches Err(e) ==> e.code@ == "3.0"@)
            &&& names.len() == 0 ==> (res matches Ok(v) && v is Null) && final_d == old_d
            &&& names.len() == 1 ==> (res is Ok <==> frame_get(old_d.frames().last(), names[0]) is Some)
        },
        ElementView::If { conditions, .. } => conditions.len() == 0 ==> (res matches Ok(v) && v is Null),
        ElementView::Block { content, .. } => content.len() == 0 ==> (res matches Ok(v) && v is Null),
        ElementView::Class { is_struct, class_attrs, inst_attrs, .. } => (res matches Ok(v) && value_view(v)
            == ValueView::Type(crate::element::TypeView::Definition {
            name: if is_struct {
                "struct"@
            } else {
                "class"@
            },
            generics: Seq::empty(),
            class_attrs,
            inst_attrs,
        })) && final_d == old_d,
        _ => true,
    }
}

/// The name a declaration or an assignment writes, when what it writes
/// to is a variable.
pub open spec fn written_name(e: ElementView) -> Option<Seq<char>> {
    match e {
        ElementView::Declare { variable, .. } => match *variable {
            ElementView::Variable { name, .. } => Some(name),
            _ => None,
        },
        ElementView::Assign { variable, .. } => match *variable {
            ElementView::Variable { name, .. } => Some(name),
            _ => None,
        },
        _ => None,
    }
}

/// What a write gives is what a read of the name gives next: once a
/// declaration or an assignment of a variable has succeeded, interpreting
/// that variable gives the value the write gave.
pub proof fn law_write_then_read(
    write: ElementView,
    read: ElementView,
    d0: InterpreterData<Value>,
    d1: InterpreterData<Value>,
    d2: InterpreterData<Value>,
    r1: Result<Value, ZyxtError>,
    r2: Result<Value, ZyxtError>,
)
    requires
        written_name(write) is Some,
        read matches ElementView::Variable { name, .. } && name == written_name(write).unwrap(),
        interp_leaf_ok(write, d0, d1, r1),
        r1 is Ok,
        interp_leaf_ok(read, d1, d2, r2),
    ensures
        r2 is Ok,
        value_view(r2.unwrap()) == value_view(r1.unwrap()),
{
}

/// The value of an element that holds no element to interpret, in a
/// state: null, a literal's value, a variable's value; `None` for anything
/// else, and for a literal or a variable that has no value.
pub open spec fn leaf_value(e: ElementView, d: InterpreterData<Value>) -> Option<ValueView> {
    match e {
        ElementView::NullElement => Some(ValueView::Null),
        ElementView::Literal { type_, content, .. } => content_spec(type_, content),
        ElementView::Variable { name, .. } => match env_get(d.frames(), name) {
            Some(v) => Some(value_view(v)),
            None => None,
        },
        _ => None,
    }
}

/// What interpreting an operation on operands that hold no element to
/// interpret gives: the operation on their values (see `bin_opr_spec` and
/// `un_opr_spec`), or error 4.1.0 (binary) or 4.1.1 (unary) where it fails;
/// the state is left as it was. `&&` and `||` are described by `and` and
/// `or`, and operations that would stop the program are left out. A block
/// of such elements gives the value of its last one.
pub open spec fn interp_op_ok(input: ElementView, old_d: InterpreterData<Value>, final_d: InterpreterData<Value>, res: Result<Value, ZyxtError>) -> bool {
    match input {
        ElementView::BinaryOpr { type_, operand1, operand2, .. } => match (leaf_value(*operand1, old_d), leaf_value(*operand2, old_d)) {
            (Some(a), Some(b)) => (type_ != OprType::And && type_ != OprType::Or && !bin_opr_fails(type_, a, b)) ==> (final_d
                == old_d && match bin_opr_spec(type_, a, b) {
                Ok(v) => res matches Ok(r) && value_view(r) == v,
                Err(_) => res matches Err(e) && e.code@ == "4.1.0"@,
            }),
            _ => true,
        },
        ElementView::UnaryOpr { type_, operand, .. } => match leaf_value(*operand, old_d) {
            Some(a) => !un_opr_fails(type_, a) ==> (final_d == old_d && match un_opr_spec(type_, a) {
                Ok(v) => res matches Ok(r) && value_view(r) == v,
                Err(_) => res matches Err(e) && e.code@ == "4.1.1"@,
            }),
            None => true,
        },
        ElementView::Block { content, .. } => block_of_leaves(content, old_d) ==> (res matches Ok(v) && value_view(v)
            == leaf_value(content.last(), old_d).unwrap()),
        _ => true,
    }
}

/// What a declaration, an assignment and a `return` give when what they
/// hold is an element with no element to interpret and a value: a
/// declaration gives that value; an assignment gives it where the name is
/// bound, and is error 3.0 where it is not; a `return` gives that value,
/// marked as returned.
pub open spec fn interp_write_ok(input: ElementView, old_d: InterpreterData<Value>, res: Result<Value, ZyxtError>) -> bool {
    match input {
        ElementView::Declare { variable, content, .. } => (*variable is Variable && leaf_value(*content, old_d) is Some)
            ==> (res matches Ok(r) && value_view(r) == leaf_value(*content, old_d).unwrap()),
        ElementView::Assign { variable, content, .. } => match *variable {
            ElementView::Variable { name, .. } => leaf_value(*content, old_d) is Some ==> match env_get(old_d.frames(), name) {
                Some(_) => res matches Ok(r) && value_view(r) == leaf_value(*content, old_d).unwrap(),
                None => res matches Err(e) && e.code@ == "3.0"@,
            },
            _ => true,
        },
        ElementView::Return { value, .. } => leaf_value(*value, old_d) is Some ==> (res matches Ok(Value::Return(b))
            && value_view(*b) == leaf_value(*value, old_d).unwrap()),
        _ => true,
    }
}

/// What interpreting a condition gives where it is known: the value of an
/// expression of a straight-line program (see `expr_in`); error 3.0 for a
/// name with no value; error 4.1.0 for an operation on elements with no
/// element to interpret that fails (`&&`, `||` and the operations that
/// would stop the program are left out). None for any other condition.
pub open spec fn cond_outcome(c: ElementView, d: InterpreterData<Value>) -> Option<Result<ValueView, Seq<char>>> {
    match expr_in(c, env_view(d)) {
        Some(v) => Some(Ok(v)),
        None => match c {
            ElementView::Variable { name, .. } => if env_get(d.frames(), name) is None {
                Some(Err("3.0"@))
            } else {
                None
            },
            ElementView::BinaryOpr { type_, operand1, operand2, .. } => match (leaf_value(*operand1, d), leaf_value(*operand2, d)) {
                (Some(a), Some(b)) => if type_ != OprType::And && type_ != OprType::Or && !bin_opr_fails(type_, a, b)
                    && bin_opr_spec(type_, a, b) is Err {
                    Some(Err("4.1.0"@))
                } else {
                    None
                },
                _ => None,
            },
            _ => None,
        },
    }
}

/// How the branches of an `if` are tried, from the `k`th on, in order: the
/// first whose condition is empty or gives `true` is taken (none where no
/// branch is); a condition with another value lets the next one be tried;
/// a condition's error ends the `if` with that error, the later conditions
/// not being tried. None where a condition tried is not known (see
/// `cond_outcome`).
pub open spec fn if_outcome(conds: Seq<ConditionView>, d: InterpreterData<Value>, k: int) -> Option<Result<Option<int>, Seq<char>>>
    decreases conds.len() - k,
{
    if k < 0 || k >= conds.len() {
        Some(Ok(None))
    } else if conds[k].condition is NullElement {
        Some(Ok(Some(k)))
    } else {
        match cond_outcome(conds[k].condition, d) {
            Some(Ok(v)) => if v == ValueView::Bool(true) {
                Some(Ok(Some(k)))
            } else {
                if_outcome(conds, d, k + 1)
            },
            Some(Err(code)) => Some(Err(code)),
            None => None,
        }
    }
}

/// What an `if` gives where how its branches are tried is known (see
/// `if_outcome`): null, with the state as it was, where no branch is taken;
/// the error of a condition; the value of the last statement of the branch
/// taken (null for an empty one), where that branch is a straight-line
/// program (see `run_stmts`) run in the state. What a block that is a
/// straight-line program gives: the value of its last statement.
pub open spec fn interp_if_ok(input: ElementView, old_d: InterpreterData<Value>, final_d: InterpreterData<Value>, res: Result<Value, ZyxtError>) -> bool {
    match input {
        ElementView::If { conditions, .. } => match if_outcome(conditions, old_d, 0) {
            Some(Ok(None)) => (res matches Ok(v) && v is Null) && final_d == old_d,
            Some(Ok(Some(i))) => {
                &&& conditions[i].if_true.len() == 0 ==> (res matches Ok(v) && v is Null)
                &&& run_stmts(conditions[i].if_true, env_view(old_d)) is Some ==> (res matches Ok(v) && value_view(v)
                    == run_stmts(conditions[i].if_true, env_view(old_d)).unwrap())
            },
            Some(Err(code)) => res matches Err(e) && e.code@ == code,
            None => true,
        },
        ElementView::Block { content, .. } => run_stmts(content, env_view(old_d)) is Some ==> (res matches Ok(v)
            && value_view(v) == run_stmts(content, env_view(old_d)).unwrap()),
        _ => true,
    }
}

/// The names of a state and their values, as a function of the name: the
/// value of the innermost binding of the name.
pub open spec fn env_view(d: InterpreterData<Value>) -> spec_fn(Seq<char>) -> Option<ValueView> {
    |k: Seq<char>|
        match env_get(d.frames(), k) {
            Some(v) => Some(value_view(v)),
            None => None,
        }
}

/// An environment with one name bound to a value.
pub open spec fn env_with(env: spec_fn(Seq<char>) -> Option<ValueView>, name: Seq<char>, v: ValueView) -> spec_fn(
    Seq<char>,
) -> Option<ValueView> {
    |k: Seq<char>|
        if k == name {
            Some(v)
        } else {
            env(k)
        }
}

/// The value, in an environment, of an expression built of operations on
/// elements with no element to interpret, nested to any depth: each
/// operation applied to its operands' values where it succeeds (`&&`, `||`
/// and the operations that would stop the program are left out); none
/// where an operand has none.
pub open spec fn nested_value(e: ElementView, env: spec_fn(Seq<char>) -> Option<ValueView>) -> Option<ValueView>
    decreases e,
{
    match e {
        ElementView::BinaryOpr { type_, operand1, operand2, .. } => match (
            nested_value(*operand1, env),
            nested_value(*operand2, env),
        ) {
            (Some(a), Some(b)) => if type_ != OprType::And && type_ != OprType::Or && !bin_opr_fails(type_, a, b) {
                match bin_opr_spec(type_, a, b) {
                    Ok(v) => Some(v),
                    Err(_) => None,
                }
            } else {
                None
            },
            _ => None,
        },
        ElementView::UnaryOpr { type_, operand, .. } => match nested_value(*operand, env) {
            Some(a) => if !un_opr_fails(type_, a) {
                match un_opr_spec(type_, a) {
                    Ok(v) => Some(v),
                    Err(_) => None,
                }
            } else {
                None
            },
            None => None,
        },
        _ => leaf_in(e, env),
    }
}

/// How deeply operations nest in an element: 0 for anything but an
/// operation.
pub open spec fn op_height(e: ElementView) -> nat
    decreases e,
{
    match e {
        ElementView::BinaryOpr { operand1, operand2, .. } => {
            let a = op_height(*operand1);
            let b = op_height(*operand2);
            1 + if a < b {
                b
            } else {
                a
            }
        },
        ElementView::UnaryOpr { operand, .. } => 1 + op_height(*operand),
        _ => 0,
    }
}

/// What interpreting an expression with a nested value (see
/// `nested_value`) gives: that value, with the state as it was.
pub open spec fn interp_nested_ok(input: ElementView, old_d: InterpreterData<Value>, final_d: InterpreterData<Value>, res: Result<Value, ZyxtError>) -> bool {
    nested_value(input, env_view(old_d)) is Some ==> {
        &&& res matches Ok(x) && value_view(x) == nested_value(input, env_view(old_d)).unwrap()
        &&& final_d == old_d
    }
}

/// The value, in an environment, of an element with no element to
/// interpret (see `leaf_value`).
pub open spec fn leaf_in(e: ElementView, env: spec_fn(Seq<char>) -> Option<ValueView>) -> Option<ValueView> {
    match e {
        ElementView::NullElement => Some(ValueView::Null),
        ElementView::Literal { type_, content, .. } => content_spec(type_, content),
        ElementView::Variable { name, .. } => env(name),
        _ => None,
    }
}

/// The value, in an environment, of an expression of a straight-line
/// program: its nested value (see `nested_value`) where its operations
/// nest fewer than 500 deep; none for anything else.
pub open spec fn expr_in(e: ElementView, env: spec_fn(Seq<char>) -> Option<ValueView>) -> Option<ValueView> {
    if op_height(e) < 500 {
        nested_value(e, env)
    } else {
        None
    }
}

/// One statement of a straight-line program, run in an environment: its
/// value, never a returned one, and the environment after it. A
/// declaration, or an assignment of a bound name, binds the name to the
/// value of its expression; an expression leaves the environment as it
/// was. None for any other statement, and where the statement fails.
pub open spec fn stmt_step(e: ElementView, env: spec_fn(Seq<char>) -> Option<ValueView>) -> Option<
    (ValueView, spec_fn(Seq<char>) -> Option<ValueView>),
> {
    let r = match e {
        ElementView::Declare { variable, content, .. } => match *variable {
            ElementView::Variable { name, .. } => match expr_in(*content, env) {
                Some(v) => Some((v, env_with(env, name, v))),
                None => None,
            },
            _ => None,
        },
        ElementView::Assign { variable, content, .. } => match *variable {
            ElementView::Variable { name, .. } => match (expr_in(*content, env), env(name)) {
                (Some(v), Some(_)) => Some((v, env_with(env, name, v))),
                _ => None,
            },
            _ => None,
        },
        _ => match expr_in(e, env) {
            Some(v) => Some((v, env)),
            None => None,
        },
    };
    match r {
        Some((v, _)) => if v is Return {
            None
        } else {
            r
        },
        None => None,
    }
}

/// The value of the last statement of a straight-line program run in an
/// environment, null for no statement; none where a statement is not of
/// such a program or fails.
pub open spec fn run_stmts(s: Seq<ElementView>, env: spec_fn(Seq<char>) -> Option<ValueView>) -> Option<ValueView>
    decreases s.len(),
{
    if s.len() == 0 {
        Some(ValueView::Null)
    } else {
        match stmt_step(s[0], env) {
            Some((v, env2)) => if s.len() == 1 {
                Some(v)
            } else {
                run_stmts(s.drop_first(), env2)
            },
            None => None,
        }
    }
}

/// What a declaration or an assignment gives when its content is an
/// expression of a straight-line program (see `expr_in`): the value of
/// the expression, the name bound to it in the state's environment, and
/// the frames' number, the deferred blocks and the printed lines as they
/// were; an assignment of a name that is not bound is error 3.0.
pub open spec fn interp_decl_ok(input: ElementView, old_d: InterpreterData<Value>, final_d: InterpreterData<Value>, res: Result<Value, ZyxtError>) -> bool {
    match input {
        ElementView::Declare { variable, content, .. } => match *variable {
            ElementView::Variable { name, .. } => expr_in(*content, env_view(old_d)) matches Some(v) ==> {
                &&& res matches Ok(r) && value_view(r) == v
                &&& env_view(final_d) == env_with(env_view(old_d), name, v)
                &&& final_d.heap@.len() == old_d.heap@.len()
                &&& final_d.defer == old_d.defer
                &&& final_d.out == old_d.out
            },
            _ => true,
        },
        ElementView::Assign { variable, content, .. } => match *variable {
            ElementView::Variable { name, .. } => expr_in(*content, env_view(old_d)) matches Some(v) ==> match env_get(
                old_d.frames(),
                name,
            ) {
                Some(_) => {
                    &&& res matches Ok(r) && value_view(r) == v
                    &&& env_view(final_d) == env_with(env_view(old_d), name, v)
                    &&& final_d.heap@.len() == old_d.heap@.len()
                    &&& final_d.defer == old_d.defer
                    &&& final_d.out == old_d.out
                },
                None => res matches Err(e) && e.code@ == "3.0"@,
            },
            _ => true,
        },
        _ => true,
    }
}

/// The value of an element with no element to interpret is its value in
/// the state's environment.
proof fn lemma_leaf_in(e: ElementView, d: InterpreterData<Value>)
    ensures
        leaf_value(e, d) == leaf_in(e, env_view(d)),
{
}

/// What interpreting an expression of a straight-line program gives, from
/// the contracts of `interpret_expr`: its value, with the state as it was.
proof fn lemma_expr_result(e: ElementView, d0: InterpreterData<Value>, d1: InterpreterData<Value>, r: Result<Value, ZyxtError>)
    requires
        interp_nested_ok(e, d0, d1, r),
        expr_in(e, env_view(d0)) is Some,
    ensures
        r matches Ok(x) && value_view(x) == expr_in(e, env_view(d0)).unwrap(),
        d1 == d0,
{
}

/// Declaring a name in the innermost frame binds it in the environment and
/// leaves the other names as they were.
proof fn lemma_declared_env(d0: InterpreterData<Value>, d1: InterpreterData<Value>, name: Seq<char>, w: Value)
    requires
        crate::scope::declared(d0.frames(), d1.frames(), name, w),
    ensures
        env_view(d1) == env_with(env_view(d0), name, value_view(w)),
{
    assert forall|k: Seq<char>| #[trigger] env_view(d1)(k) == env_with(env_view(d0), name, value_view(w))(k) by {
        assert(d1.frames().drop_last() == d0.frames().drop_last());
        if k != name {
            assert(frame_get(d1.frames().last(), k) == frame_get(d0.frames().last(), k));
        }
    }
    assert(env_view(d1) =~= env_with(env_view(d0), name, value_view(w)));
}

/// Assigning a name gives it the value in the environment and leaves the
/// other names as they were.
proof fn lemma_assigned_env(d0: InterpreterData<Value>, d1: InterpreterData<Value>, name: Seq<char>, w: Value)
    requires
        crate::scope::assigned(d0.frames(), d1.frames(), name, w),
    ensures
        env_view(d1) == env_with(env_view(d0), name, value_view(w)),
{
    assert forall|k: Seq<char>| #[trigger] env_view(d1)(k) == env_with(env_view(d0), name, value_view(w))(k) by {
        if k != name {
            assert(env_get(d1.frames(), k) == env_get(d0.frames(), k));
        }
    }
    assert(env_view(d1) =~= env_with(env_view(d0), name, value_view(w)));
}

/// What interpreting a statement of a straight-line program gives, from
/// the contracts of `interpret_expr`: the value and the environment that
/// `stmt_step` gives, with the frames' number, the deferred blocks and the
/// printed lines as they were.
proof fn lemma_stmt_result(e: ElementView, d0: InterpreterData<Value>, d1: InterpreterData<Value>, r: Result<Value, ZyxtError>)
    requires
        interp_leaf_ok(e, d0, d1, r),
        interp_nested_ok(e, d0, d1, r),
        interp_decl_ok(e, d0, d1, r),
        stmt_step(e, env_view(d0)) is Some,
    ensures
        r matches Ok(x) && value_view(x) == stmt_step(e, env_view(d0)).unwrap().0,
        env_view(d1) == stmt_step(e, env_view(d0)).unwrap().1,
        d1.heap@.len() == d0.heap@.len(),
        d1.defer == d0.defer,
        d1.out == d0.out,
{
    match e {
        ElementView::Declare { .. } => {},
        ElementView::Assign { variable, .. } => {
            match *variable {
                ElementView::Variable { name, .. } => {
                    assert(env_view(d0)(name) is Some);
                },
                _ => {},
            }
        },
        _ => {
            lemma_expr_result(e, d0, d1, r);
        },
    }
}

/// What a straight-line program run in an environment ends with: the value
/// of a `return` of an expression (see `expr_in`) that follows statements
/// of a straight-line program (see `stmt_step`), marked as returned; else
/// the value of the last statement (null for none). None where a statement
/// is not of such a program or fails.
pub open spec fn run_prog(s: Seq<ElementView>, env: spec_fn(Seq<char>) -> Option<ValueView>) -> Option<(ValueView, bool)>
    decreases s.len(),
{
    if s.len() == 0 {
        Some((ValueView::Null, false))
    } else {
        match s[0] {
            ElementView::Return { value, .. } => match expr_in(*value, env) {
                Some(v) => if v is Return {
                    None
                } else {
                    Some((v, true))
                },
                None => None,
            },
            _ => match stmt_step(s[0], env) {
                Some((v, env2)) => if s.len() == 1 {
                    Some((v, false))
                } else {
                    run_prog(s.drop_first(), env2)
                },
                None => None,
            },
        }
    }
}

/// The value the last of the names equal to `k` is paired with.
pub open spec fn arg_lookup(names: Seq<Seq<char>>, vals: Seq<ValueView>, k: Seq<char>) -> Option<ValueView>
    decreases names.len(),
{
    if names.len() == 0 || vals.len() != names.len() {
        None
    } else if names.last() == k {
        Some(vals.last())
    } else {
        arg_lookup(names.drop_last(), vals.drop_last(), k)
    }
}

/// The environment in which each name stands for the value at its index.
pub open spec fn args_env(names: Seq<Seq<char>>, vals: Seq<ValueView>) -> spec_fn(Seq<char>) -> Option<ValueView> {
    |k: Seq<char>| arg_lookup(names, vals, k)
}

/// The names of a procedure's parameters, in order.
pub open spec fn param_names(params: Seq<crate::element::ArgumentView>) -> Seq<Seq<char>> {
    params.map_values(|a: crate::element::ArgumentView| a.name)
}

/// What calling a procedure gives, where the callee and the arguments hold
/// no element to interpret, one argument is given for each parameter, the
/// parameters' names differ, and the procedure's block is a straight-line
/// program (see `run_stmts`) in which the k-th parameter stands for the
/// value of the k-th argument: the value of the block's last statement.
pub open spec fn interp_proc_call_ok(input: ElementView, old_d: InterpreterData<Value>, res: Result<Value, ZyxtError>) -> bool {
    match input {
        ElementView::Call { called, args, .. } => match leaf_value(*called, old_d) {
            Some(ValueView::Proc { args: params, content, .. }) => {
                (!(*called matches ElementView::Variable { name, .. } && name == "out"@) && args.len() == params.len()
                    && (forall|i: int| 0 <= i < args.len() ==> (#[trigger] leaf_value(args[i], old_d)) is Some) && (forall|
                    i: int,
                    j: int,
                | 0 <= i < j < params.len() ==> (#[trigger] params[i]).name != (#[trigger] params[j]).name) && run_stmts(
                    content,
                    args_env(param_names(params), leaf_values(args, old_d)),
                ) is Some) ==> (res matches Ok(v) && value_view(v) == run_stmts(
                    content,
                    args_env(param_names(params), leaf_values(args, old_d)),
                ).unwrap())
            },
            _ => true,
        },
        _ => true,
    }
}

proof fn lemma_lookup_entries(entries: Seq<(String, Value)>, names: Seq<Seq<char>>, vals: Seq<ValueView>)
    requires
        entries.len() == names.len(),
        vals.len() == names.len(),
        forall|j: int| 0 <= j < entries.len() ==> (#[trigger] entries[j]).0@ == names[j] && value_view(entries[j].1) == vals[j],
    ensures
        forall|k: Seq<char>| #[trigger] arg_lookup(names, vals, k) is Some ==> (frame_get(entries, k) matches Some(v)
            && value_view(v) == arg_lookup(names, vals, k).unwrap()),
    decreases entries.len(),
{
    if entries.len() > 0 {
        lemma_lookup_entries(entries.drop_last(), names.drop_last(), vals.drop_last());
        assert forall|k: Seq<char>| #[trigger] arg_lookup(names, vals, k) is Some implies (frame_get(entries, k) matches Some(v)
            && value_view(v) == arg_lookup(names, vals, k).unwrap()) by {
            if names.last() != k {
                assert(arg_lookup(names.drop_last(), vals.drop_last(), k) is Some);
            }
        }
    }
}

/// Where the innermost frame binds each parameter to the value of its
/// argument, the state gives each parameter that value.
proof fn lemma_call_env(d: InterpreterData<Value>, entries: Seq<(String, Value)>, names: Seq<Seq<char>>, vals: Seq<ValueView>)
    requires
        d.frames().len() > 0,
        entries.len() == names.len(),
        vals.len() == names.len(),
        forall|j: int| 0 <= j < entries.len() ==> (#[trigger] entries[j]).0@ == names[j] && value_view(entries[j].1) == vals[j],
        forall|k: Seq<char>| match #[trigger] frame_get(entries, k) {
            Some(v) => frame_get(d.frames().last(), k) matches Some(w) && value_view(w) == value_view(v),
            None => true,
        },
    ensures
        env_extends(args_env(names, vals), env_view(d)),
{
    lemma_lookup_entries(entries, names, vals);
    assert forall|k: Seq<char>| #[trigger] args_env(names, vals)(k) is Some implies env_view(d)(k) == args_env(names, vals)(k) by {
        assert(arg_lookup(names, vals, k) is Some);
        let v = frame_get(entries, k).unwrap();
        assert(frame_get(d.frames().last(), k) is Some);
    }
}

/// Whether an environment gives every name of another the same value.
pub open spec fn env_extends(small: spec_fn(Seq<char>) -> Option<ValueView>, big: spec_fn(Seq<char>) -> Option<ValueView>) -> bool {
    forall|k: Seq<char>| #[trigger] small(k) is Some ==> big(k) == small(k)
}

proof fn lemma_nested_value_extends(e: ElementView, e1: spec_fn(Seq<char>) -> Option<ValueView>, e2: spec_fn(Seq<char>) -> Option<ValueView>)
    requires
        env_extends(e1, e2),
        nested_value(e, e1) is Some,
    ensures
        nested_value(e, e2) == nested_value(e, e1),
    decreases e,
{
    match e {
        ElementView::BinaryOpr { operand1, operand2, .. } => {
            lemma_nested_value_extends(*operand1, e1, e2);
            lemma_nested_value_extends(*operand2, e1, e2);
        },
        ElementView::UnaryOpr { operand, .. } => {
            lemma_nested_value_extends(*operand, e1, e2);
        },
        ElementView::Variable { name, .. } => {
            assert(e1(name) is Some);
        },
        _ => {},
    }
}

/// A straight-line program gives the same value in an environment that
/// gives more names values.
proof fn lemma_run_stmts_extends(s: Seq<ElementView>, e1: spec_fn(Seq<char>) -> Option<ValueView>, e2: spec_fn(Seq<char>) -> Option<ValueView>)
    requires
        env_extends(e1, e2),
        run_stmts(s, e1) is Some,
    ensures
        run_stmts(s, e2) == run_stmts(s, e1),
    decreases s.len(),
{
    if s.len() > 0 {
        let e = s[0];
        let r1 = stmt_step(e, e1);
        match e {
            ElementView::Declare { variable, content, .. } => {
                lemma_nested_value_extends(*content, e1, e2);
                match *variable {
                    ElementView::Variable { name, .. } => {
                        let v = expr_in(*content, e1).unwrap();
                        let n1 = env_with(e1, name, v);
                        let n2 = env_with(e2, name, v);
                        assert(env_extends(n1, n2)) by {
                            assert forall|k: Seq<char>| #[trigger] n1(k) is Some implies n2(k) == n1(k) by {
                                if k != name {
                                    assert(e1(k) is Some);
                                }
                            }
                        }
                        assert(stmt_step(e, e2) == Some((v, n2)));
                        if s.len() > 1 {
                            lemma_run_stmts_extends(s.drop_first(), n1, n2);
                        }
                    },
                    _ => {},
                }
            },
            ElementView::Assign { variable, content, .. } => {
                lemma_nested_value_extends(*content, e1, e2);
                match *variable {
                    ElementView::Variable { name, .. } => {
                        assert(e1(name) is Some);
                        let v = expr_in(*content, e1).unwrap();
                        let n1 = env_with(e1, name, v);
                        let n2 = env_with(e2, name, v);
                        assert(env_extends(n1, n2)) by {
                            assert forall|k: Seq<char>| #[trigger] n1(k) is Some implies n2(k) == n1(k) by {
                                if k != name {
                                    assert(e1(k) is Some);
                                }
                            }
                        }
                        assert(stmt_step(e, e2) == Some((v, n2)));
                        if s.len() > 1 {
                            lemma_run_stmts_extends(s.drop_first(), n1, n2);
                        }
                    },
                    _ => {},
                }
            },
            _ => {
                lemma_nested_value_extends(e, e1, e2);
                if s.len() > 1 {
                    lemma_run_stmts_extends(s.drop_first(), e1, e2);
                }
            },
        }
    }
}

/// The exit code of a straight-line program (see `run_prog`) run with no
/// deferred block on its frame: the value it ends with if it is an `i32`;
/// 0 if it is null and not returned; error 4.2 for any other value.
pub open spec fn program_exit_ok(input: Seq<ElementView>, old_d: InterpreterData<Value>, res: Result<i32, ZyxtError>) -> bool {
    (old_d.defer@.last()@.len() == 0 && run_prog(input, env_view(old_d)) is Some) ==> match run_prog(
        input,
        env_view(old_d),
    ).unwrap() {
        (ValueView::I32(n), _) => res == Ok::<i32, ZyxtError>(n),
        (ValueView::Null, false) => res == Ok::<i32, ZyxtError>(0),
        _ => res matches Err(e) && e.code@ == "4.2"@,
    }
}

/// Values shown one after the other, separated by a space.
pub open spec fn texts_joined(vals: Seq<ValueView>) -> Seq<char>
    decreases vals.len(),
{
    if vals.len() == 0 {
        Seq::empty()
    } else if vals.len() == 1 {
        crate::value::display::value_text(vals[0])
    } else {
        texts_joined(vals.drop_last()) + " "@ + crate::value::display::value_text(vals.last())
    }
}

/// The values of elements that hold no element to interpret, in a state.
pub open spec fn leaf_values(args: Seq<ElementView>, d: InterpreterData<Value>) -> Seq<ValueView> {
    args.map_values(|a: ElementView| leaf_value(a, d).unwrap())
}

/// Whether an element is a call of the printing procedure `ter.out`.
pub open spec fn is_out_call(e: ElementView) -> bool {
    match e {
        ElementView::Call { called, .. } => match *called {
            ElementView::Variable { name, parent, .. } => name == "out"@ && match *parent {
                ElementView::Variable { name: pname, .. } => pname == "ter"@,
                _ => false,
            },
            _ => false,
        },
        _ => false,
    }
}

/// What a call of `ter.out` with arguments that hold no element to
/// interpret gives: null, and one more printed line, the arguments' values
/// shown one after the other and separated by spaces; the frames are left
/// as they were.
pub open spec fn interp_out_ok(input: ElementView, old_d: InterpreterData<Value>, final_d: InterpreterData<Value>, res: Result<Value, ZyxtError>) -> bool {
    match input {
        ElementView::Call { args, .. } => (is_out_call(input) && forall|i: int| 0 <= i < args.len() ==> (#[trigger] leaf_value(args[i], old_d)) is Some)
            ==> (res matches Ok(v) && v is Null) && final_d.heap == old_d.heap && final_d.defer == old_d.defer
            && final_d.out@.len() == old_d.out@.len() + 1 && final_d.out@.drop_last() == old_d.out@
            && final_d.out@.last()@ == texts_joined(leaf_values(args, old_d)),
        _ => true,
    }
}

/// What a call of a value that is not a procedure gives, when the callee
/// and the arguments hold no element to interpret (and the callee is not
/// named `out`): what calling the value with the arguments' values gives
/// (see `call_spec`), or error 3.1.1 where it fails; calls that would stop
/// the program are left out. The state is left as it was.
pub open spec fn interp_call_ok(input: ElementView, old_d: InterpreterData<Value>, final_d: InterpreterData<Value>, res: Result<Value, ZyxtError>) -> bool {
    match input {
        ElementView::Call { called, args, .. } => match leaf_value(*called, old_d) {
            Some(f) => {
                (!(*called matches ElementView::Variable { name, .. } && name == "out"@) && !(f is Proc) && (forall|i: int|
                    0 <= i < args.len() ==> (#[trigger] leaf_value(args[i], old_d)) is Some) && !call_fails(f, args.len()))
                    ==> final_d == old_d && match call_spec(f, leaf_values(args, old_d)) {
                    Ok(v) => res matches Ok(r) && value_view(r) == v,
                    Err(_) => res matches Err(e) && e.code@ == "3.1.1"@,
                }
            },
            None => true,
        },
        _ => true,
    }
}

/// How interpreting changes the numbers of frames: never below what they
/// were, and back to what they were when it succeeds.
pub open spec fn frames_kept(old_d: InterpreterData<Value>, final_d: InterpreterData<Value>, ok: bool) -> bool {
    &&& final_d.heap@.len() >= old_d.heap@.len()
    &&& final_d.defer@.len() >= old_d.defer@.len()
    &&& ok ==> final_d.heap@.len() == old_d.heap@.len() && final_d.defer@.len() == old_d.defer@.len()
}

/// Lines printed by one interpreter state, added to those of another.
fn append_out(to: &mut InterpreterData<Value>, from: &InterpreterData<Value>)
    ensures
        final(to).heap == old(to).heap,
        final(to).defer == old(to).defer,
        final(to).frame_data == old(to).frame_data,
        final(to).out@ == old(to).out@ + from.out@,
{
    let mut i: usize = 0;
    while i < from.out.len()
        invariant
            to.heap == old(to).heap,
            to.defer == old(to).defer,
            to.frame_data == old(to).frame_data,
            to.out@ == old(to).out@ + from.out@.take(i as int),
            0 <= i <= from.out@.len(),
        decreases from.out@.len() - i,
    {
        to.out.push(from.out[i].clone());
        proof {
            assert(from.out@.take(i + 1) =~= from.out@.take(i as int).push(from.out@[i as int]));
        }
        i = i + 1;
    }
    proof {
        assert(from.out@.take(from.out@.len() as int) =~= from.out@);
    }
}

/// How a named value is shown in a listing of the frames: `name: type = value`.
pub open spec fn entry_text(e: (String, Value)) -> Seq<char> {
    e.0@ + ": "@ + crate::typeobj::type_text(type_of_value(value_view(e.1))) + " = "@
        + crate::value::display::value_text(value_view(e.1))
}

/// A frame's entries shown one per line.
pub open spec fn frame_text(f: Seq<(String, Value)>) -> Seq<char>
    decreases f.len(),
{
    if f.len() == 0 {
        Seq::empty()
    } else if f.len() == 1 {
        entry_text(f[0])
    } else {
        frame_text(f.drop_last()) + "\n"@ + entry_text(f.last())
    }
}

/// The frames shown one after another, with a line of dashes between two.
pub open spec fn frames_text(fs: Seq<Seq<(String, Value)>>) -> Seq<char>
    decreases fs.len(),
{
    if fs.len() == 0 {
        Seq::empty()
    } else if fs.len() == 1 {
        frame_text(fs[0])
    } else {
        frames_text(fs.drop_last()) + "\n-------\n"@ + frame_text(fs.last())
    }
}

impl InterpreterData<Value> {
    /// The interpreter's starting state: every primitive type name bound to
    /// that type in the outermost frame, and an empty frame above it.
    pub fn default_variable() -> (res: InterpreterData<Value>)
        ensures
            res.wf(),
            res.frames().len() == 2,
            res.defer@.len() == 2,
            res.frames()[1] == Seq::<(String, Value)>::empty(),
            res.out@.len() == 0,
            forall|i: int| 0 <= i < prim_names().len() ==> ((#[trigger] frame_get(res.frames()[0], prim_names()[i])) matches Some(v)
                && value_view(v) == ValueView::Type(named_type(prim_names()[i]))),
            forall|k: Seq<char>| #[trigger] frame_get(res.frames()[0], k) is Some ==> prim_names().contains(k),
            forall|i: int| 0 <= i < 2 ==> (#[trigger] res.defer@[i])@.len() == 0,
            res.frame_data@ == seq![None::<FrameData<Value>>],
    {
        let names = prim_name_list();
        let mut heap: Vec<Vec<(String, Value)>> = vec![Vec::new()];
        let mut i: usize = 0;
        proof {
            assert(frames_unique(frames_view(heap@))) by {
                assert forall|x: int| 0 <= x < frames_view(heap@).len() implies frame_unique(#[trigger] frames_view(heap@)[x]) by {
                    assert(frames_view(heap@)[x] == heap@[x]@);
                }
            }
            assert(frames_view(heap@)[0] =~= Seq::<(String, Value)>::empty());
            crate::scope::lemma_no_names::<Value>(prim_names());
        }
        while i < names.len()
            invariant
                names@.len() == prim_names().len(),
                forall|j: int| 0 <= j < names@.len() ==> (#[trigger] names@[j])@ == prim_names()[j],
                0 <= i <= names@.len(),
                heap@.len() == 1,
                frames_unique(frames_view(heap@)),
                forall|j: int| 0 <= j < i ==> ((#[trigger] frame_get(frames_view(heap@)[0], prim_names()[j])) matches Some(v)
                    && value_view(v) == ValueView::Type(named_type(prim_names()[j]))),
                forall|k: Seq<char>| #[trigger] frame_get(frames_view(heap@)[0], k) is Some ==> prim_names().take(i as int).contains(k),
            decreases names@.len() - i,
        {
            let v = Value::Type(Type::from_str(names[i]));
            let ghost before = frames_view(heap@);
            frames_declare(&mut heap, names[i], &v);
            proof {
                let after = frames_view(heap@);
                crate::scope::lemma_declare_keeps_names(before, after, frame_get(after.last(), names@[i as int]@).unwrap(), prim_names(), i as int);
                assert forall|j: int| 0 <= j < i + 1 implies ((#[trigger] frame_get(after[0], prim_names()[j])) matches Some(v2)
                    && value_view(v2) == ValueView::Type(named_type(prim_names()[j]))) by {
                    if prim_names()[j] != names@[i as int]@ {
                        assert(frame_get(after.last(), prim_names()[j]) == frame_get(before.last(), prim_names()[j]));
                    }
                }
            }
            i = i + 1;
        }
        let mut v = InterpreterData { heap, defer: vec![Vec::new()], frame_data: Vec::new(), out: Vec::new() };
        proof {
            assert(prim_names().take(prim_names().len() as int) =~= prim_names());
        }
        let ghost base_frame = v.frames()[0];
        v.add_frame(None);
        proof {
            assert(v.frames()[0] == base_frame);
        }
        v
    }

    /// The frames of named values, innermost last, each entry shown as
    /// `name: type = value` on a line of its own, with a line of dashes
    /// between two frames.
    pub fn heap_to_string(&self) -> (res: String)
        ensures
            res@ == frames_text(self.frames()),
    {
        let mut res = String::new();
        let mut i: usize = 0;
        while i < self.heap.len()
            invariant
                0 <= i <= self.heap@.len(),
                self.frames().len() == self.heap@.len(),
                res@ == frames_text(self.frames().take(i as int)),
            decreases self.heap@.len() - i,
        {
            proof {
                assert(self.frames().take(i + 1).drop_last() == self.frames().take(i as int));
            }
            if i > 0 {
                res.append("\n-------\n");
            }
            let frame = &self.heap[i];
            let mut j: usize = 0;
            let ghost start = res@;
            let ghost f = self.frames()[i as int];
            proof {
                assert(f == frame@);
            }
            while j < frame.len()
                invariant
                    0 <= j <= frame@.len(),
                    f == frame@,
                    res@ == start + frame_text(f.take(j as int)),
                decreases frame@.len() - j,
            {
                proof {
                    assert(f.take(j + 1).drop_last() == f.take(j as int));
                }
                if j > 0 {
                    res.append("\n");
                }
                let entry = &frame[j];
                res.append(entry.0.as_str());
                res.append(": ");
                let t = entry.1.get_type_obj().to_text();
                res.append(t.as_str());
                res.append(" = ");
                let v = entry.1.to_text();
                res.append(v.as_str());
                proof {
                    assert(f.take(j + 1).last() == f[j as int]);
                }
                j = j + 1;
            }
            proof {
                assert(f.take(frame@.len() as int) == f);
            }
            i = i + 1;
        }
        proof {
            assert(self.frames().take(self.heap@.len() as int) == self.frames());
        }
        res
    }

    /// Leaves the innermost frame: its names and call data go, then its
    /// deferred blocks run, in the order they were deferred, until one
    /// returns a value, which is given back.
    pub fn pop_frame(&mut self) -> (res: Result<Option<Value>, ZyxtError>)
        requires
            old(self).wf(),
            old(self).heap@.len() >= 2,
            old(self).defer@.len() >= 2,
        ensures
            final(self).wf(),
            res is Ok ==> final(self).heap@.len() == old(self).heap@.len() - 1 && final(self).defer@.len()
                == old(self).defer@.len() - 1,
            old(self).defer@.last()@.len() == 0 ==> (res matches Ok(r) && r is None) && final(self).frames()
                == old(self).frames().drop_last() && final(self).defer@ == old(self).defer@.drop_last(),
    {
        self.pop_frame_in(NESTING_LIMIT)
    }

    pub(crate) fn pop_frame_in(&mut self, depth: u64) -> (res: Result<Option<Value>, ZyxtError>)
        requires
            old(self).wf(),
            old(self).heap@.len() >= 2,
            old(self).defer@.len() >= 2,
        ensures
            final(self).wf(),
            final(self).heap@.len() >= old(self).heap@.len() - 1,
            final(self).defer@.len() >= old(self).defer@.len() - 1,
            res is Ok ==> final(self).heap@.len() == old(self).heap@.len() - 1 && final(self).defer@.len()
                == old(self).defer@.len() - 1,
            old(self).defer@.last()@.len() == 0 ==> (res matches Ok(r) && r is None) && final(self).frames()
                == old(self).frames().drop_last() && final(self).defer@ == old(self).defer@.drop_last(),
        decreases depth, 1int,
    {
        self.heap.pop();
        self.frame_data.pop();
        proof {
            assert(self.frames() =~= old(self).frames().drop_last());
            assert forall|i: int| 0 <= i < self.frames().len() implies frame_unique(#[trigger] self.frames()[i]) by {
                assert(self.frames()[i] == old(self).frames()[i]);
            }
        }
        let last = self.defer.len() - 1;
        let blocks = crate::element::clone_blocks(&self.defer[last]);
        if blocks.len() == 0 {
            self.defer.pop();
            proof {
                assert(self.defer@ =~= old(self).defer@.drop_last());
            }
            return Ok(None);
        }
        if depth == 0 {
            self.defer.pop();
            return Err(internal_error("interpretation nested too deeply"));
        }
        let ghost h1 = self.heap@.len();
        let ghost d1 = self.defer@.len();
        let mut i: usize = 0;
        while i < blocks.len()
            invariant
                self.wf(),
                self.heap@.len() == h1,
                self.defer@.len() == d1,
                h1 == old(self).heap@.len() - 1,
                d1 == old(self).defer@.len(),
                d1 >= 2,
                depth > 0,
                blocks@.len() == old(self).defer@.last()@.len(),
                0 <= i <= blocks@.len(),
            decreases blocks@.len() - i,
        {
            let r = interpret_block_in(&blocks[i], self, false, false, depth - 1);
            match r? {
                Value::Return(v) => {
                    self.defer.pop();
                    return Ok(Some(*v));
                },
                _ => {},
            }
            i = i + 1;
        }
        self.defer.pop();
        Ok(None)
    }
}

/// The value of an element (see `interpret_expr`), with a bound on how
/// deeply the interpretation may nest.
#[verifier::loop_isolation(false)]
#[verifier::rlimit(90)]
pub(crate) fn interpret_expr_in(input: &Element, i_data: &mut InterpreterData<Value>, depth: u64) -> (res: Result<Value, ZyxtError>)
    requires
        old(i_data).wf(),
    ensures
        final(i_data).wf(),
        frames_kept(*old(i_data), *final(i_data), res is Ok),
        depth > 0 ==> interp_leaf_ok(elem_view(*input), *old(i_data), *final(i_data), res),
        depth > 1 ==> interp_op_ok(elem_view(*input), *old(i_data), *final(i_data), res),
        depth > 1 ==> interp_out_ok(elem_view(*input), *old(i_data), *final(i_data), res),
        depth > 1 ==> interp_write_ok(elem_view(*input), *old(i_data), res),
        depth > 502 ==> interp_if_ok(elem_view(*input), *old(i_data), *final(i_data), res),
        depth > 501 ==> interp_decl_ok(elem_view(*input), *old(i_data), *final(i_data), res),
        depth > 1 ==> interp_call_ok(elem_view(*input), *old(i_data), *final(i_data), res),
        depth > op_height(elem_view(*input)) ==> interp_nested_ok(elem_view(*input), *old(i_data), *final(i_data), res),
        depth > 502 ==> interp_proc_call_ok(elem_view(*input), *old(i_data), res),
    decreases depth, 0int,
{
    if depth == 0 {
        return Err(internal_error("interpretation nested too deeply"));
    }
    proof {
        lemma_leaf_in(elem_view(*input), *old(i_data));
    }
    match input {
        Element::Token(_) | Element::Comment { .. } | Element::Preprocess { .. } => {
            Err(internal_error("element that cannot be interpreted"))
        },
        Element::NullElement => Ok(Value::Null),
        Element::UnaryOpr { type_, operand, position, raw } => {
            let v = interpret_expr_in(operand, i_data, depth - 1)?;
            if un_opr_fails_exec(type_, &v) {
                return Err(internal_error("`!` on a type never ends"));
            }
            match v.un_opr(type_) {
                Ok(r) => Ok(r),
                Err(_) => {
                    let again = interpret_expr_in(operand, i_data, depth - 1)?;
                    Err(error_4_1_1(String::from_str(opr_name(type_)), &again).with_pos_and_raw(position, raw))
                },
            }
        },
        Element::BinaryOpr { type_, operand1, operand2, position, raw } => {
            let outcome: Result<Value, ()> = if *type_ == OprType::And {
                Ok(and_in(operand1, operand2, i_data, depth - 1)?)
            } else if *type_ == OprType::Or {
                Ok(or_in(operand1, operand2, i_data, depth - 1)?)
            } else {
                let a = interpret_expr_in(operand1, i_data, depth - 1)?;
                let b = interpret_expr_in(operand2, i_data, depth - 1)?;
                if bin_opr_fails_exec(type_, &a, &b) {
                    return Err(internal_error("operation that stops the program"));
                }
                match a.bin_opr(type_, b) {
                    Ok(v) => Ok(v),
                    Err(_) => Err(()),
                }
            };
            match outcome {
                Ok(v) => Ok(v),
                Err(()) => {
                    let a = interpret_expr_in(operand1, i_data, depth - 1)?;
                    let b = interpret_expr_in(operand2, i_data, depth - 1)?;
                    Err(error_4_1_0(String::from_str(opr_name(type_)), &a, &b).with_pos_and_raw(position, raw))
                },
            }
        },
        Element::Variable { name, position, raw, .. } => i_data.get_val(name, position, raw),
        Element::Declare { variable, content, .. } => {
            let ghost d0 = *i_data;
            let var = interpret_expr_in(content, i_data, depth - 1);
            proof {
                if depth > 501 && expr_in(elem_view(**content), env_view(d0)) is Some {
                    lemma_expr_result(elem_view(**content), d0, *i_data, var);
                }
            }
            let name = match &**variable {
                Element::Variable { name, .. } => name,
                _ => {
                    return Err(internal_error("declaration of something that is not a variable"));
                },
            };
            let v = match var {
                Ok(v) => v,
                Err(e) => {
                    assert(elem_view(**variable) is Variable);
                    return Err(e);
                },
            };
            let ghost d1 = *i_data;
            i_data.declare_val(name.as_str(), &v);
            proof {
                let w = frame_get(i_data.frames().last(), name@).unwrap();
                assert(cloned(v, w));
                assert(value_view(w) == value_view(v));
                assert(env_get(i_data.frames(), name@) == Some(w));
                lemma_declared_env(d1, *i_data, name@, w);
            }
            Ok(v)
        },
        Element::Assign { variable, content, position, raw } => {
            let ghost d0 = *i_data;
            let var = interpret_expr_in(content, i_data, depth - 1);
            proof {
                if depth > 501 && expr_in(elem_view(**content), env_view(d0)) is Some {
                    lemma_expr_result(elem_view(**content), d0, *i_data, var);
                }
            }
            let name = match &**variable {
                Element::Variable { name, .. } => name,
                _ => {
                    return Err(internal_error("assignment to something that is not a variable"));
                },
            };
            let v = match var {
                Ok(v) => v,
                Err(e) => {
                    assert(elem_view(**variable) is Variable);
                    return Err(e);
                },
            };
            let ghost d1 = *i_data;
            match i_data.set_val(name, &v, position, raw) {
                Ok(()) => {
                    proof {
                        if env_get(d1.frames(), name@) is Some {
                            let w = env_get(i_data.frames(), name@).unwrap();
                            lemma_assigned_env(d1, *i_data, name@, w);
                        }
                    }
                },
                Err(e) => {
                    assert(elem_view(**variable) is Variable);
                    return Err(e);
                },
            }
            Ok(v)
        },
        Element::Literal { type_, content, .. } => Value::from_type_content(clone_type(type_), content.clone()),
        Element::Call { called, args: input_args, position, raw, .. } => {
            match &**called {
                Element::Variable { parent, name, .. } => {
                    if str_eq(name.as_str(), "out") {
                        let is_ter = match &**parent {
                            Element::Variable { name: pname, .. } => str_eq(pname.as_str(), "ter"),
                            _ => {
                                assert(!(elem_view(**parent) is Variable));
                                assert(elem_view(*input) matches ElementView::Call { called: cc, .. } && *cc == elem_view(**called));
                                assert(elem_view(**called) matches ElementView::Variable { parent: pp, .. } && *pp == elem_view(**parent));
                                return Err(internal_error("`out` called on something that is not a variable"));
                            },
                        };
                        if is_ter {
                            proof {
                                crate::element::lemma_elems_view(input_args@);
                                let av = elems_view(input_args@);
                                if forall|i: int| 0 <= i < av.len() ==> (#[trigger] leaf_value(av[i], *old(i_data))) is Some {
                                    assert forall|i: int| 0 <= i < input_args@.len() implies (#[trigger] leaf_value(
                                        elem_view(input_args@[i]),
                                        *old(i_data),
                                    )) is Some by {
                                        assert(av[i] == elem_view(input_args@[i]));
                                    }
                                }
                            }
                            let line = out_line_in(input_args, i_data, depth - 1)?;
                            let ghost before_out = i_data.out@;
                            i_data.out.push(line);
                            proof {
                                assert(i_data.out@.drop_last() =~= before_out);
                            }
                            return Ok(Value::Null);
                        }
                    }
                },
                _ => {},
            }
            let ghost d0 = *i_data;
            let ghost av = elems_view(input_args@);
            proof {
                crate::element::lemma_elems_view(input_args@);
            }
            let ghost leaves = depth > 1 && leaf_value(elem_view(**called), d0) is Some && (forall|i: int| 0 <= i < av.len()
                ==> (#[trigger] leaf_value(av[i], d0)) is Some);
            let ghost ce = elem_view(*input);
            let to_call = interpret_expr_in(called, i_data, depth - 1)?;
            match to_call {
                Value::Proc { is_fn, args, content, .. } => {
                    let ghost names = param_names(crate::element::args_view(args@));
                    let ghost vals = leaf_values(av, d0);
                    let ghost cv = elems_view(content@);
                    let ghost pcall = depth > 502 && leaves && !(elem_view(**called) matches ElementView::Variable { name, .. }
                        && name == "out"@) && av.len() == args@.len() && (forall|i: int, j: int|
                        0 <= i < j < crate::element::args_view(args@).len() ==> (#[trigger] crate::element::args_view(args@)[i]).name != (#[trigger] crate::element::args_view(
                        args@,
                    )[j]).name) && run_stmts(cv, args_env(names, vals)) is Some;
                    proof {
                        crate::element::lemma_args_view(args@);
                        assert(names.len() == args@.len());
                        assert(vals.len() == av.len());
                    }
                    let mut processed: Vec<(String, Value)> = Vec::new();
                    let mut k: usize = 0;
                    while k < args.len()
                        invariant
                            i_data.wf(),
                            frames_kept(*old(i_data), *i_data, true),
                            0 <= k <= args@.len(),
                            pcall ==> *i_data == d0 && processed@.len() == k && forall|j: int| 0 <= j < k ==> (
                                #[trigger] processed@[j]).0@ == names[j] && value_view(processed@[j].1) == vals[j],
                        decreases args@.len() - k,
                    {
                        let input_arg = if k < input_args.len() {
                            clone_element(&input_args[k])
                        } else {
                            match &args[k].default {
                                Some(d) => clone_element(d),
                                None => {
                                    return Err(internal_error("argument without a value"));
                                },
                            }
                        };
                        proof {
                            if pcall {
                                assert(elem_view(input_arg) == av[k as int]);
                                assert(leaf_value(av[k as int], d0) is Some);
                            }
                        }
                        let v = interpret_expr_in(&input_arg, i_data, depth - 1)?;
                        let ghost before = processed@;
                        let nm = args[k].name.clone();
                        proof {
                            if pcall {
                                assert(nm@ == names[k as int]);
                                assert forall|j: int| 0 <= j < before.len() implies (#[trigger] before[j]).0@ != nm@ by {
                                    assert(crate::element::args_view(args@)[j].name != crate::element::args_view(args@)[k as int].name);
                                }
                            }
                        }
                        set_named(&mut processed, nm, v);
                        proof {
                            if pcall {
                                assert(processed@ == before.push((nm, v)));
                            }
                        }
                        k = k + 1;
                    }
                    if is_fn {
                        let mut fn_data = InterpreterData::<Value>::default_variable();
                        let ghost f0 = fn_data;
                        declare_all(&mut fn_data, &processed);
                        proof {
                            if pcall {
                                lemma_call_env(fn_data, processed@, names, vals);
                                lemma_run_stmts_extends(cv, args_env(names, vals), env_view(fn_data));
                            }
                        }
                        let res = interpret_block_in(&content, &mut fn_data, true, false, depth - 1);
                        let popped = fn_data.pop_frame_in(depth - 1);
                        append_out(i_data, &fn_data);
                        popped?;
                        res
                    } else {
                        let args_copy = clone_named(&processed);
                        i_data.add_frame(Some(FrameData { position: position.clone(), raw_call: raw.clone(), args: args_copy }));
                        declare_all(i_data, &processed);
                        proof {
                            if pcall {
                                lemma_call_env(*i_data, processed@, names, vals);
                                lemma_run_stmts_extends(cv, args_env(names, vals), env_view(*i_data));
                            }
                        }
                        let res = interpret_block_in(&content, i_data, true, false, depth - 1);
                        i_data.pop_frame_in(depth - 1)?;
                        res
                    }
                },
                _ => {
                    let mut call_args: Vec<Value> = Vec::new();
                    let mut k: usize = 0;
                    proof {
                        assert(call_args@.map_values(|a: Value| value_view(a)) =~= leaf_values(av, d0).take(0));
                    }
                    while k < input_args.len()
                        invariant
                            i_data.wf(),
                            frames_kept(*old(i_data), *i_data, true),
                            0 <= k <= input_args@.len(),
                            call_args@.len() == k,
                            av == elems_view(input_args@),
                            av.len() == input_args@.len(),
                            forall|j: int| 0 <= j < input_args@.len() ==> #[trigger] av[j] == elem_view(input_args@[j]),
                            leaves == (depth > 1 && leaf_value(elem_view(**called), d0) is Some && (forall|i: int| 0 <= i < av.len()
                                ==> (#[trigger] leaf_value(av[i], d0)) is Some)),
                            leaves ==> *i_data == d0,
                            leaves ==> call_args@.map_values(|a: Value| value_view(a)) == leaf_values(av, d0).take(k as int),
                        decreases input_args@.len() - k,
                    {
                        let ghost before = call_args@.map_values(|a: Value| value_view(a));
                        let v = interpret_expr_in(&input_args[k], i_data, depth - 1)?;
                        call_args.push(v);
                        proof {
                            if leaves {
                                assert(leaf_value(av[k as int], d0) is Some);
                                assert(call_args@.map_values(|a: Value| value_view(a)) =~= before.push(value_view(v)));
                                assert(leaf_values(av, d0).take(k + 1) =~= leaf_values(av, d0).take(k as int).push(
                                    leaf_value(av[k as int], d0).unwrap(),
                                ));
                            }
                        }
                        k = k + 1;
                    }
                    proof {
                        if leaves {
                            assert(leaf_values(av, d0).take(k as int) =~= leaf_values(av, d0));
                        }
                    }
                    if call_fails_exec(&to_call, call_args.len()) {
                        return Err(internal_error("calling a type or an instance is not implemented"));
                    }
                    match to_call.call(call_args) {
                        Ok(v) => Ok(v),
                        Err(_) => Err(error_3_1_1(&to_call, String::from_str("_call")).with_pos_and_raw(position, raw)),
                    }
                },
            }
        },
        Element::If { conditions, .. } => {
            proof {
                crate::element::lemma_conds_view(conditions@);
            }
            let ghost cv = conds_view(conditions@);
            let ghost leaves = depth > 502 && if_outcome(cv, *old(i_data), 0) is Some;
            let mut k: usize = 0;
            while k < conditions.len()
                invariant
                    i_data.wf(),
                    frames_kept(*old(i_data), *i_data, true),
                    0 <= k <= conditions@.len(),
                    cv == conds_view(conditions@),
                    cv.len() == conditions@.len(),
                    forall|j: int| 0 <= j < conditions@.len() ==> #[trigger] cv[j] == cond_view(conditions@[j]),
                    leaves == (depth > 502 && if_outcome(cv, *old(i_data), 0) is Some),
                    leaves ==> *i_data == *old(i_data),
                    leaves ==> if_outcome(cv, *old(i_data), 0) == if_outcome(cv, *old(i_data), k as int),
                decreases conditions@.len() - k,
            {
                let cond = &conditions[k];
                proof {
                    assert(cv[k as int] == cond_view(*cond));
                    crate::element::lemma_elems_view(cond.if_true@);
                }
                if matches!(cond.condition, Element::NullElement) {
                    return interpret_block_in(&cond.if_true, i_data, false, true, depth - 1);
                }
                let r = interpret_expr_in(&cond.condition, i_data, depth - 1);
                proof {
                    if leaves {
                        let cc = cv[k as int].condition;
                        if expr_in(cc, env_view(*old(i_data))) is Some {
                            lemma_expr_result(cc, *old(i_data), *i_data, r);
                        } else {
                            match cc {
                                ElementView::BinaryOpr { operand1, operand2, .. } => {
                                    lemma_leaf_in(*operand1, *old(i_data));
                                    lemma_leaf_in(*operand2, *old(i_data));
                                },
                                _ => {},
                            }
                        }
                    }
                }
                let c = match r {
                    Ok(c) => c,
                    Err(e) => {
                        return Err(e);
                    },
                };
                match c {
                    Value::Bool(true) => {
                        return interpret_block_in(&cond.if_true, i_data, false, true, depth - 1);
                    },
                    _ => {},
                }
                k = k + 1;
            }
            Ok(Value::Null)
        },
        Element::Block { content, .. } => {
            proof {
                crate::element::lemma_elems_view(content@);
            }
            interpret_block_in(content, i_data, true, true, depth - 1)
        },
        Element::Delete { names, position, raw } => {
            let ghost nv = crate::element::names_view(names@);
            let mut k: usize = 0;
            while k < names.len()
                invariant
                    i_data.wf(),
                    frames_kept(*old(i_data), *i_data, true),
                    0 <= k <= names@.len(),
                    nv == crate::element::names_view(names@),
                    nv.len() == names@.len(),
                    forall|j: int| 0 <= j < names@.len() ==> #[trigger] nv[j] == names@[j]@,
                    i_data.frames().drop_last() == old(i_data).frames().drop_last(),
                    k == 0 ==> *i_data == *old(i_data),
                    k > 0 ==> frame_get(old(i_data).frames().last(), nv[0]) is Some,
                    forall|j: int| 0 <= j < k ==> frame_get(i_data.frames().last(), #[trigger] nv[j]) is None,
                decreases names@.len() - k,
            {
                let ghost before = i_data.frames();
                let r = i_data.delete_val(&names[k], position, raw);
                match r {
                    Ok(_) => {},
                    Err(e) => {
                        return Err(e);
                    },
                }
                proof {
                    assert forall|j: int| 0 <= j < k + 1 implies frame_get(i_data.frames().last(), #[trigger] nv[j]) is None by {
                        if j < k && nv[j] != names@[k as int]@ {
                            assert(frame_get(i_data.frames().last(), nv[j]) == frame_get(before.last(), nv[j]));
                        }
                    }
                }
                k = k + 1;
            }
            Ok(Value::Null)
        },
        Element::Return { value, .. } => {
            let v = interpret_expr_in(value, i_data, depth - 1)?;
            Ok(Value::Return(Box::new(v)))
        },
        Element::Procedure { is_fn, args, return_type, content, .. } => Ok(Value::Proc {
            is_fn: *is_fn,
            args: clone_args(args),
            return_type: clone_type(return_type),
            content: clone_elements(content),
        }),
        Element::Defer { content, .. } => {
            let block = clone_elements(content);
            let ghost bv = block@;
            i_data.add_defer(block);
            proof {
                assert(i_data.defer@.last()@.last()@ == bv);
            }
            Ok(Value::Null)
        },
        Element::Class { class_attrs, inst_attrs, is_struct, .. } => {
            let name = if *is_struct {
                String::from_str("struct")
            } else {
                String::from_str("class")
            };
            let generics: Vec<Argument> = Vec::new();
            proof {
                assert(crate::element::args_view(generics@) == Seq::<crate::element::ArgumentView>::empty());
            }
            Ok(Value::Type(Type::Definition {
                name,
                generics,
                class_attrs: clone_attrs(class_attrs),
                inst_attrs: clone_attrs(inst_attrs),
            }))
        },
    }
}

/// The line `ter.out` prints for its arguments: their values, interpreted
/// in order, shown and separated by spaces.
fn out_line_in(args: &Vec<Element>, i_data: &mut InterpreterData<Value>, depth: u64) -> (res: Result<String, ZyxtError>)
    requires
        old(i_data).wf(),
    ensures
        final(i_data).wf(),
        frames_kept(*old(i_data), *final(i_data), res is Ok),
        depth > 0 && (forall|i: int| 0 <= i < args@.len() ==> (#[trigger] leaf_value(elem_view(args@[i]), *old(i_data))) is Some)
            ==> (res matches Ok(line) && line@ == texts_joined(leaf_values(elems_view(args@), *old(i_data))))
            && *final(i_data) == *old(i_data),
    decreases depth, 1int,
{
    let ghost av = elems_view(args@);
    proof {
        crate::element::lemma_elems_view(args@);
    }
    let ghost leaves = depth > 0 && forall|i: int| 0 <= i < args@.len() ==> (#[trigger] leaf_value(elem_view(args@[i]), *old(i_data))) is Some;
    let mut line = String::new();
    let mut k: usize = 0;
    proof {
        assert(leaf_values(av, *old(i_data)).take(0) =~= Seq::<ValueView>::empty());
    }
    while k < args.len()
        invariant
            i_data.wf(),
            frames_kept(*old(i_data), *i_data, true),
            0 <= k <= args@.len(),
            av == elems_view(args@),
            av.len() == args@.len(),
            forall|j: int| 0 <= j < args@.len() ==> #[trigger] av[j] == elem_view(args@[j]),
            leaves == (depth > 0 && forall|i: int| 0 <= i < args@.len() ==> (#[trigger] leaf_value(elem_view(args@[i]), *old(i_data))) is Some),
            leaves ==> *i_data == *old(i_data),
            leaves ==> line@ == texts_joined(leaf_values(av, *old(i_data)).take(k as int)),
        decreases args@.len() - k,
    {
        let v = interpret_expr_in(&args[k], i_data, depth);
        let v = match v {
            Ok(v) => v,
            Err(e) => {
                return Err(e);
            },
        };
        if k > 0 {
            line.append(" ");
        }
        let shown = v.to_text();
        line.append(shown.as_str());
        proof {
            if leaves {
                let vals = leaf_values(av, *old(i_data));
                assert(leaf_value(elem_view(args@[k as int]), *old(i_data)) is Some);
                assert(vals[k as int] == leaf_value(av[k as int], *old(i_data)).unwrap());
                assert(vals.take(k + 1).drop_last() =~= vals.take(k as int));
                assert(vals.take(k + 1).last() == vals[k as int]);
                assert(line@ =~= texts_joined(vals.take(k + 1)));
            }
        }
        k = k + 1;
    }
    proof {
        if leaves {
            assert(leaf_values(av, *old(i_data)).take(args@.len() as int) =~= leaf_values(av, *old(i_data)));
        }
    }
    Ok(line)
}

/// Gives a name a value among named values: replaces the first entry of
/// that name, or adds one.
fn set_named(entries: &mut Vec<(String, Value)>, name: String, value: Value)
    ensures
        crate::scope::set_first_named(old(entries)@, final(entries)@, name, value),
{
    let mut i: usize = 0;
    while i < entries.len()
        invariant
            0 <= i <= entries@.len(),
            entries@ == old(entries)@,
            forall|j: int| 0 <= j < i ==> (#[trigger] entries@[j]).0@ != name@,
        decreases entries@.len() - i,
    {
        if str_eq(entries[i].0.as_str(), name.as_str()) {
            let ghost k = i as int;
            entries.set(i, (name, value));
            assert(old(entries)@[k].0@ == name@);
            return;
        }
        i = i + 1;
    }
    entries.push((name, value));
}

/// A copy of named values.
fn clone_named(entries: &Vec<(String, Value)>) -> (res: Vec<(String, Value)>)
    ensures
        res@.len() == entries@.len(),
        forall|i: int| 0 <= i < res@.len() ==> (#[trigger] res@[i]).0 == entries@[i].0 && value_view(res@[i].1)
            == value_view(entries@[i].1),
{
    let mut res: Vec<(String, Value)> = Vec::new();
    let mut i: usize = 0;
    while i < entries.len()
        invariant
            0 <= i <= entries@.len(),
            res@.len() == i,
            forall|j: int| 0 <= j < i ==> (#[trigger] res@[j]).0 == entries@[j].0 && value_view(res@[j].1)
                == value_view(entries@[j].1),
        decreases entries@.len() - i,
    {
        res.push((entries[i].0.clone(), clone_value(&entries[i].1)));
        i = i + 1;
    }
    res
}

/// Declares each named value in the innermost frame, in order: each name
/// comes to have the value of its last entry there, and the other names
/// and frames are left as they were.
fn declare_all(i_data: &mut InterpreterData<Value>, entries: &Vec<(String, Value)>)
    requires
        old(i_data).wf(),
    ensures
        final(i_data).wf(),
        final(i_data).heap@.len() == old(i_data).heap@.len(),
        final(i_data).defer == old(i_data).defer,
        final(i_data).out == old(i_data).out,
        final(i_data).frames().drop_last() == old(i_data).frames().drop_last(),
        forall|k: Seq<char>| match #[trigger] frame_get(entries@, k) {
            Some(v) => frame_get(final(i_data).frames().last(), k) matches Some(w) && value_view(w) == value_view(v),
            None => frame_get(final(i_data).frames().last(), k) == frame_get(old(i_data).frames().last(), k),
        },
{
    let mut i: usize = 0;
    while i < entries.len()
        invariant
            i_data.wf(),
            i_data.heap@.len() == old(i_data).heap@.len(),
            i_data.defer == old(i_data).defer,
            i_data.out == old(i_data).out,
            0 <= i <= entries@.len(),
            i_data.frames().drop_last() == old(i_data).frames().drop_last(),
            forall|k: Seq<char>| match #[trigger] frame_get(entries@.take(i as int), k) {
                Some(v) => frame_get(i_data.frames().last(), k) matches Some(w) && value_view(w) == value_view(v),
                None => frame_get(i_data.frames().last(), k) == frame_get(old(i_data).frames().last(), k),
            },
        decreases entries@.len() - i,
    {
        let ghost before = i_data.frames();
        i_data.declare_val(entries[i].0.as_str(), &entries[i].1);
        proof {
            let t = entries@.take(i + 1);
            assert(t.drop_last() =~= entries@.take(i as int));
            assert(t.last() == entries@[i as int]);
            assert forall|k: Seq<char>| match #[trigger] frame_get(t, k) {
                Some(v) => frame_get(i_data.frames().last(), k) matches Some(w) && value_view(w) == value_view(v),
                None => frame_get(i_data.frames().last(), k) == frame_get(old(i_data).frames().last(), k),
            } by {
                if k == entries@[i as int].0@ {
                    let w = frame_get(i_data.frames().last(), k).unwrap();
                    assert(cloned(entries@[i as int].1, w));
                } else {
                    assert(frame_get(i_data.frames().last(), k) == frame_get(before.last(), k));
                    assert(frame_get(t, k) == frame_get(entries@.take(i as int), k));
                }
            }
        }
        i = i + 1;
    }
    proof {
        assert(entries@.take(entries@.len() as int) =~= entries@);
    }
}

/// The boolean a literal element converts to, if it is a literal that
/// stands for a value converting to a boolean.
pub open spec fn literal_as_bool(e: ElementView) -> Option<bool> {
    match e {
        ElementView::Literal { type_, content, .. } => match content_spec(type_, content) {
            Some(v) => match crate::value::typecast::cast_spec(v, "bool"@) {
                Ok(ValueView::Bool(b)) => Some(b),
                _ => None,
            },
            None => None,
        },
        _ => None,
    }
}

/// The boolean an element with no element to interpret converts to, in a
/// state: its value (see `leaf_value`) cast to `bool`; none where it has no
/// value or does not convert to a boolean.
pub open spec fn leaf_bool(e: ElementView, d: InterpreterData<Value>) -> Option<bool> {
    match leaf_value(e, d) {
        Some(v) => match crate::value::typecast::cast_spec(v, "bool"@) {
            Ok(ValueView::Bool(b)) => Some(b),
            _ => None,
        },
        None => None,
    }
}

/// A non-empty block of statements that each hold no element to
/// interpret and give no returned value, in a state.
pub open spec fn block_of_leaves(input: Seq<ElementView>, d: InterpreterData<Value>) -> bool {
    input.len() > 0 && forall|i: int| 0 <= i < input.len() ==> #[trigger] plain_leaf(input[i], d)
}

/// A new empty frame changes the value of no name.
proof fn lemma_env_view_new_frame(d: InterpreterData<Value>, d2: InterpreterData<Value>)
    requires
        d2.frames() == d.frames().push(Seq::empty()),
    ensures
        env_view(d2) == env_view(d),
{
    assert(d2.frames().drop_last() =~= d.frames());
    assert forall|k: Seq<char>| #[trigger] env_view(d2)(k) == env_view(d)(k) by {
        assert(frame_get(Seq::<(String, Value)>::empty(), k) is None);
    }
    assert(env_view(d2) =~= env_view(d));
}

/// A new empty frame changes the value of no leaf.
proof fn lemma_leaf_value_new_frame(e: ElementView, d: InterpreterData<Value>, d2: InterpreterData<Value>)
    requires
        d2.frames() == d.frames().push(Seq::empty()),
    ensures
        leaf_value(e, d2) == leaf_value(e, d),
{
    match e {
        ElementView::Variable { name, .. } => {
            assert(d2.frames().last() == Seq::<(String, Value)>::empty());
            assert(frame_get(Seq::<(String, Value)>::empty(), name) is None);
            assert(d2.frames().drop_last() =~= d.frames());
        },
        _ => {},
    }
}

/// `&&` (see `and`), with a bound on how deeply the interpretation may nest.
pub(crate) fn and_in(x: &Element, y: &Element, i_data: &mut InterpreterData<Value>, depth: u64) -> (res: Result<Value, ZyxtError>)
    requires
        old(i_data).wf(),
    ensures
        final(i_data).wf(),
        frames_kept(*old(i_data), *final(i_data), res is Ok),
        res matches Ok(v) ==> v is Bool,
        depth > 0 && literal_as_bool(elem_view(*x)) == Some(false) ==> (res matches Ok(Value::Bool(false)))
            && *final(i_data) == *old(i_data),
        depth > 0 && leaf_bool(elem_view(*x), *old(i_data)) is Some && leaf_bool(elem_view(*y), *old(i_data)) is Some
            ==> res == Ok::<Value, ZyxtError>(Value::Bool(leaf_bool(elem_view(*x), *old(i_data)).unwrap() && leaf_bool(elem_view(*y), *old(i_data)).unwrap())) && *final(i_data) == *old(i_data),
    decreases depth, 1int,
{
    proof {
        lemma_leaf_in(elem_view(*x), *old(i_data));
        lemma_leaf_in(elem_view(*y), *old(i_data));
    }
    let lhs = interpret_expr_in(x, i_data, depth)?;
    match cast_to_name(&lhs, "bool") {
        Ok(Value::Bool(b)) => {
            if !b {
                return Ok(Value::Bool(false));
            }
        },
        _ => {
            return Err(internal_error("operand of `&&` that is not a boolean"));
        },
    }
    let rhs = interpret_expr_in(y, i_data, depth)?;
    match cast_to_name(&rhs, "bool") {
        Ok(Value::Bool(b)) => Ok(Value::Bool(b)),
        _ => Err(internal_error("operand of `&&` that is not a boolean")),
    }
}

/// `||` (see `or`), with a bound on how deeply the interpretation may nest.
pub(crate) fn or_in(x: &Element, y: &Element, i_data: &mut InterpreterData<Value>, depth: u64) -> (res: Result<Value, ZyxtError>)
    requires
        old(i_data).wf(),
    ensures
        final(i_data).wf(),
        frames_kept(*old(i_data), *final(i_data), res is Ok),
        res matches Ok(v) ==> v is Bool,
        depth > 0 && literal_as_bool(elem_view(*x)) == Some(true) ==> (res matches Ok(Value::Bool(true)))
            && *final(i_data) == *old(i_data),
        depth > 0 && leaf_bool(elem_view(*x), *old(i_data)) is Some && leaf_bool(elem_view(*y), *old(i_data)) is Some
            ==> res == Ok::<Value, ZyxtError>(Value::Bool(leaf_bool(elem_view(*x), *old(i_data)).unwrap() || leaf_bool(elem_view(*y), *old(i_data)).unwrap())) && *final(i_data) == *old(i_data),
    decreases depth, 1int,
{
    proof {
        lemma_leaf_in(elem_view(*x), *old(i_data));
        lemma_leaf_in(elem_view(*y), *old(i_data));
    }
    let lhs = interpret_expr_in(x, i_data, depth)?;
    match cast_to_name(&lhs, "bool") {
        Ok(Value::Bool(b)) => {
            if b {
                return Ok(Value::Bool(true));
            }
        },
        _ => {
            return Err(internal_error("operand of `||` that is not a boolean"));
        },
    }
    let rhs = interpret_expr_in(y, i_data, depth)?;
    match cast_to_name(&rhs, "bool") {
        Ok(Value::Bool(b)) => Ok(Value::Bool(b)),
        _ => Err(internal_error("operand of `||` that is not a boolean")),
    }
}

/// Runs a block (see `interpret_block`), with a bound on how deeply the
/// interpretation may nest.
pub(crate) fn interpret_block_in(input: &Vec<Element>, i_data: &mut InterpreterData<Value>, returnable: bool, add_frame: bool, depth: u64) -> (res: Result<Value, ZyxtError>)
    requires
        old(i_data).wf(),
    ensures
        final(i_data).wf(),
        frames_kept(*old(i_data), *final(i_data), res is Ok),
        input@.len() == 0 ==> (res matches Ok(v) && v is Null),
        depth > 0 && block_of_leaves(elems_view(input@), *old(i_data)) ==> (res matches Ok(v) && value_view(v) == leaf_value(
            elems_view(input@).last(),
            *old(i_data),
        ).unwrap()),
        depth > 501 && run_stmts(elems_view(input@), env_view(*old(i_data))) is Some ==> (res matches Ok(v) && value_view(v)
            == run_stmts(elems_view(input@), env_view(*old(i_data))).unwrap()) && final(i_data).defer@ == old(i_data).defer@,
    decreases depth, 2int,
{
    let ghost iv = elems_view(input@);
    proof {
        crate::element::lemma_elems_view(input@);
    }
    let ghost leaves = depth > 0 && block_of_leaves(iv, *old(i_data));
    let ghost env0 = env_view(*old(i_data));
    let ghost defined = depth > 501 && run_stmts(iv, env0) is Some;
    let mut last = Value::Null;
    if add_frame {
        i_data.add_frame(None);
    }
    let ghost h0 = i_data.heap@.len();
    let ghost d0 = i_data.defer@.len();
    let ghost start = *i_data;
    proof {
        if add_frame {
            lemma_env_view_new_frame(*old(i_data), start);
        }
        assert(iv.skip(0) =~= iv);
    }
    let mut k: usize = 0;
    while k < input.len()
        invariant
            i_data.wf(),
            i_data.heap@.len() == h0,
            i_data.defer@.len() == d0,
            h0 == old(i_data).heap@.len() + (if add_frame { 1int } else { 0int }),
            d0 == old(i_data).defer@.len() + (if add_frame { 1int } else { 0int }),
            add_frame ==> h0 >= 2 && d0 >= 2,
            k == 0 ==> last is Null,
            k == 0 && add_frame ==> i_data.defer@.last()@.len() == 0,
            0 <= k <= input@.len(),
            iv == elems_view(input@),
            iv.len() == input@.len(),
            forall|j: int| 0 <= j < input@.len() ==> #[trigger] iv[j] == elem_view(input@[j]),
            leaves == (depth > 0 && block_of_leaves(iv, *old(i_data))),
            add_frame ==> start.defer@.last()@.len() == 0,
            !add_frame ==> start == *old(i_data),
            leaves ==> *i_data == start,
            add_frame ==> start.frames() == old(i_data).frames().push(Seq::empty()),
            add_frame ==> start.defer@.drop_last() == old(i_data).defer@,
            leaves && k > 0 ==> value_view(last) == leaf_value(iv[k - 1], *old(i_data)).unwrap(),
            env0 == env_view(*old(i_data)),
            env_view(start) == env0,
            defined == (depth > 501 && run_stmts(iv, env0) is Some),
            defined ==> i_data.defer == start.defer,
            defined ==> run_stmts(iv, env0) == (if k < iv.len() {
                run_stmts(iv.skip(k as int), env_view(*i_data))
            } else {
                Some(value_view(last))
            }),
        decreases input@.len() - k,
    {
        let ele = &input[k];
        let ghost dk = *i_data;
        proof {
            if defined {
                assert(iv.skip(k as int)[0] == iv[k as int]);
                assert(iv.skip(k as int).drop_first() =~= iv.skip(k + 1));
            }
            if leaves {
                assert(plain_leaf(iv[k as int], *old(i_data)));
                if add_frame {
                    lemma_leaf_value_new_frame(iv[k as int], *old(i_data), start);
                }
                assert(leaf_value(iv[k as int], start) == leaf_value(iv[k as int], *old(i_data)));
                assert(plain_leaf(iv[k as int], start));
            }
        }
        match ele {
            Element::Return { value, .. } => {
                last = if returnable {
                    interpret_expr_in(value, i_data, depth)?
                } else {
                    interpret_expr_in(ele, i_data, depth)?
                };
                if add_frame {
                    let res = i_data.pop_frame_in(depth)?;
                    match res {
                        Some(r) => {
                            return Ok(r);
                        },
                        None => {},
                    }
                }
                return Ok(last);
            },
            _ => {
                let r = interpret_expr_in(ele, i_data, depth);
                proof {
                    if defined {
                        assert(elem_view(*ele) == iv[k as int]);
                        lemma_stmt_result(iv[k as int], dk, *i_data, r);
                    }
                }
                last = r?;
                proof {
                    if leaves {
                        assert(elem_view(*ele) == iv[k as int]);
                        assert(value_view(last) == leaf_value(iv[k as int], start).unwrap());
                    }
                }
                match last {
                    Value::Return(value) => {
                        if add_frame {
                            let res = i_data.pop_frame_in(depth)?;
                            match res {
                                Some(r) => {
                                    return Ok(r);
                                },
                                None => {},
                            }
                        }
                        return if returnable {
                            Ok(*value)
                        } else {
                            Ok(Value::Return(value))
                        };
                    },
                    _ => {},
                }
                proof {
                    if leaves {
                        assert(value_view(last) == leaf_value(iv[k as int], start).unwrap());
                        assert(leaf_value(iv[k as int], start) == leaf_value(iv[k as int], *old(i_data)));
                    }
                }
            },
        }
        k = k + 1;
    }
    if add_frame {
        let res = i_data.pop_frame_in(depth)?;
        match res {
            Some(r) => {
                return Ok(r);
            },
            None => {},
        }
    }
    Ok(last)
}

/// The value of an element: null for the null element, a literal's value,
/// a variable's value (error 3.0 if it has none), the value a declaration
/// or an assignment gives the variable, the result of an operation (error
/// 4.1.0 or 4.1.1 where it fails, the operands being interpreted again for
/// the message), the value of a call (a procedure's block runs with the
/// arguments, or their defaults, declared, in a fresh state for `fn` and a
/// new frame for `proc`; an integer called with one argument multiplies
/// it; error 3.1.1 for anything else), the block of the first branch of an
/// `if` whose condition is `true`, a block's value, null after a deletion
/// or a deferral, a returned value, a procedure, a class. Tokens, comments
/// and preprocessed code cannot be interpreted (error 0.0).
pub fn interpret_expr(input: Element, i_data: &mut InterpreterData<Value>) -> (res: Result<Value, ZyxtError>)
    requires
        old(i_data).wf(),
    ensures
        final(i_data).wf(),
        frames_kept(*old(i_data), *final(i_data), res is Ok),
        interp_leaf_ok(elem_view(input), *old(i_data), *final(i_data), res),
        interp_op_ok(elem_view(input), *old(i_data), *final(i_data), res),
        interp_out_ok(elem_view(input), *old(i_data), *final(i_data), res),
        interp_write_ok(elem_view(input), *old(i_data), res),
        interp_if_ok(elem_view(input), *old(i_data), *final(i_data), res),
        interp_decl_ok(elem_view(input), *old(i_data), *final(i_data), res),
        interp_call_ok(elem_view(input), *old(i_data), *final(i_data), res),
        op_height(elem_view(input)) < NESTING_LIMIT ==> interp_nested_ok(elem_view(input), *old(i_data), *final(i_data), res),
        interp_proc_call_ok(elem_view(input), *old(i_data), res),
{
    interpret_expr_in(&input, i_data, NESTING_LIMIT)
}

/// Runs a block: its statements in order, in a frame of its own with
/// `add_frame`. A `return`, or a statement whose value is returned, ends
/// the block: the returned value is the block's with `returnable`, and
/// stays a returned value without. The block's value is its last
/// statement's; leaving its frame, a deferred block that returns gives its
/// value instead.
pub fn interpret_block(input: &Vec<Element>, i_data: &mut InterpreterData<Value>, returnable: bool, add_frame: bool) -> (res: Result<Value, ZyxtError>)
    requires
        old(i_data).wf(),
    ensures
        final(i_data).wf(),
        frames_kept(*old(i_data), *final(i_data), res is Ok),
        input@.len() == 0 ==> (res matches Ok(v) && v is Null),
        block_of_leaves(elems_view(input@), *old(i_data)) ==> (res matches Ok(v) && value_view(v) == leaf_value(
            elems_view(input@).last(),
            *old(i_data),
        ).unwrap()),
        run_stmts(elems_view(input@), env_view(*old(i_data))) is Some ==> (res matches Ok(v) && value_view(v)
            == run_stmts(elems_view(input@), env_view(*old(i_data))).unwrap()),
{
    interpret_block_in(input, i_data, returnable, add_frame, NESTING_LIMIT)
}

/// An element that holds no element to interpret and whose value, in the
/// state, is not a returned value.
pub open spec fn plain_leaf(e: ElementView, d: InterpreterData<Value>) -> bool {
    match leaf_value(e, d) {
        Some(v) => !(v is Return),
        None => false,
    }
}

/// Runs a program: its statements in order, then leaves the innermost
/// frame. A `return`, or a statement whose value is returned, ends it. The
/// program's exit code is the `i32` it ends with, 0 for null; anything
/// else is error 4.2.
pub fn interpret_asts(input: &Vec<Element>, i_data: &mut InterpreterData<Value>) -> (res: Result<i32, ZyxtError>)
    requires
        old(i_data).wf(),
        old(i_data).heap@.len() >= 2,
        old(i_data).defer@.len() >= 2,
    ensures
        final(i_data).wf(),
        input@.len() == 0 && old(i_data).defer@.last()@.len() == 0 ==> res == Ok::<i32, ZyxtError>(0),
        program_exit_ok(elems_view(input@), *old(i_data), res),
{
    let ghost iv = elems_view(input@);
    proof {
        crate::element::lemma_elems_view(input@);
    }
    let ghost env0 = env_view(*old(i_data));
    let ghost defined = old(i_data).defer@.last()@.len() == 0 && run_prog(iv, env0) is Some;
    proof {
        assert(iv.skip(0) =~= iv);
    }
    let mut last = Value::Null;
    let mut k: usize = 0;
    while k < input.len()
        invariant
            i_data.wf(),
            i_data.heap@.len() == old(i_data).heap@.len(),
            i_data.defer@.len() == old(i_data).defer@.len(),
            old(i_data).heap@.len() >= 2,
            old(i_data).defer@.len() >= 2,
            0 <= k <= input@.len(),
            k == 0 ==> i_data.defer@ == old(i_data).defer@ && last is Null,
            iv == elems_view(input@),
            iv.len() == input@.len(),
            forall|j: int| 0 <= j < input@.len() ==> #[trigger] iv[j] == elem_view(input@[j]),
            env0 == env_view(*old(i_data)),
            defined == (old(i_data).defer@.last()@.len() == 0 && run_prog(iv, env0) is Some),
            defined ==> i_data.defer == old(i_data).defer,
            defined && k > 0 && iv[k - 1] is NullElement ==> last is Null,
            defined ==> run_prog(iv, env0) == (if k < iv.len() {
                run_prog(iv.skip(k as int), env_view(*i_data))
            } else {
                Some((value_view(last), false))
            }),
        decreases input@.len() - k,
    {
        let ghost dk = *i_data;
        proof {
            if defined {
                assert(iv.skip(k as int)[0] == iv[k as int]);
                assert(iv.skip(k as int).drop_first() =~= iv.skip(k + 1));
            }
        }
        let ele = &input[k];
        match ele {
            Element::Return { value, position, raw } => {
                let ghost dr = *i_data;
                let rv = interpret_expr_in(value, i_data, NESTING_LIMIT);
                proof {
                    if defined {
                        assert(iv[k as int] == elem_view(*ele));
                        lemma_expr_result(elem_view(**value), dr, *i_data, rv);
                    }
                }
                let mut return_val = rv?;
                let res = i_data.pop_frame()?;
                match res {
                    Some(r) => {
                        return_val = r;
                    },
                    None => {},
                }
                return match return_val {
                    Value::I32(v) => Ok(v),
                    _ => Err(error_4_2(&return_val).with_pos_and_raw(position, raw)),
                };
            },
            _ => {
                let r = interpret_expr_in(ele, i_data, NESTING_LIMIT);
                proof {
                    if defined {
                        lemma_stmt_result(iv[k as int], dk, *i_data, r);
                    }
                }
                last = r?;
                match last {
                    Value::Return(value) => {
                        let mut v = *value;
                        let res = i_data.pop_frame()?;
                        match res {
                            Some(r) => {
                                v = r;
                            },
                            None => {},
                        }
                        return match v {
                            Value::I32(n) => Ok(n),
                            _ => Err(error_4_2(&v).with_element(ele)),
                        };
                    },
                    _ => {},
                }
            },
        }
        k = k + 1;
    }
    let res = i_data.pop_frame()?;
    match res {
        Some(r) => {
            last = r;
        },
        None => {},
    }
    match last {
        Value::I32(v) => Ok(v),
        Value::Null => Ok(0),
        _ => {
            if input.len() == 0 {
                return Err(internal_error("no statement to blame"));
            }
            Err(error_4_2(&last).with_element(&input[input.len() - 1]))
        },
    }
}

} // verus!
