use vstd::prelude::*;
use vstd::string::*;
use crate::token::OprType;
use crate::typeobj::{Type, named_type};
use crate::value::{
    IntKind, Value, ValueView, value_view, int_of, make_int, in_kind, kind_signed, kind_min,
    kind_max, kind_name, int_parts, make_value,
};
use crate::value::typecast::res_view;
use crate::value::utils::{OprError, OprErrorView, opr_err_view};

verus! {

/// The absolute value of an integer.
pub open spec fn abs(a: int) -> int {
    if a < 0 {
        -a
    } else {
        a
    }
}

/// Division that rounds toward zero, as Rust divides integers.
pub open spec fn trunc_div(a: int, b: int) -> int {
    let q = abs(a) / abs(b);
    if (a < 0) == (b < 0) {
        q
    } else {
        -q
    }
}

/// The remainder of `trunc_div`: it takes the sign of the dividend.
pub open spec fn trunc_rem(a: int, b: int) -> int {
    let r = abs(a) % abs(b);
    if a < 0 {
        -r
    } else {
        r
    }
}

/// The integer a sign and a magnitude stand for.
pub open spec fn signed_val(neg: bool, mag: u128) -> int {
    if neg {
        -(mag as int)
    } else {
        mag as int
    }
}

/// The second operand of an arithmetic operation, converted to the kind of
/// the first as `typecast` converts it: a boolean is 1 or 0, an integer
/// must fit the kind, anything else has no implementation.
pub open spec fn operand_int(y: ValueView, k: IntKind) -> Result<int, OprErrorView> {
    match y {
        ValueView::Bool(b) => Ok(
            if b {
                1
            } else {
                0
            },
        ),
        _ => match int_of(y) {
            Some((_, j)) => if in_kind(k, j) {
                Ok(j)
            } else {
                Err(OprErrorView::TypecastError(named_type(kind_name(k))))
            },
            None => Err(OprErrorView::NoImplForOpr),
        },
    }
}

/// An arithmetic operation on two integers of a kind: sum, difference,
/// product, quotient or remainder rounded toward zero. Dividing by zero
/// gives the dividend. A result outside the kind, or the remainder of the
/// kind's least number by -1, overflows.
pub open spec fn int_arith(op: OprType, k: IntKind, a: int, b: int) -> Result<ValueView, OprErrorView> {
    if (op == OprType::Div || op == OprType::Modulo) && b == 0 {
        Ok(make_int(k, a))
    } else {
        let r = if op == OprType::Plus {
            a + b
        } else if op == OprType::Minus {
            a - b
        } else if op == OprType::Div {
            trunc_div(a, b)
        } else if op == OprType::Modulo {
            trunc_rem(a, b)
        } else {
            a * b
        };
        if in_kind(k, r) && !(op == OprType::Modulo && kind_signed(k) && a == kind_min(k) && b
            == -1) {
            Ok(make_int(k, r))
        } else {
            Err(OprErrorView::Overflow)
        }
    }
}

/// An arithmetic operation on two values: the first must be an integer,
/// the second is converted to its kind (see `operand_int`).
pub open spec fn num_opr_spec(op: OprType, x: ValueView, y: ValueView) -> Result<ValueView, OprErrorView> {
    match int_of(x) {
        Some((k, a)) => match operand_int(y, k) {
            Ok(b) => int_arith(op, k, a, b),
            Err(e) => Err(e),
        },
        None => Err(OprErrorView::NoImplForOpr),
    }
}

/// A text repeated a number of times.
pub open spec fn repeat_seq(s: Seq<char>, n: nat) -> Seq<char>
    decreases n,
{
    if n == 0 {
        Seq::empty()
    } else {
        repeat_seq(s, (n - 1) as nat) + s
    }
}

/// A text multiplied by an integer: the text repeated that many times, the
/// count taken as a `usize` as Rust's `as` takes it; a negative count is a
/// typecast error to `str`; anything but an integer has no implementation.
pub open spec fn mul_str_spec(s: Seq<char>, y: ValueView) -> Result<ValueView, OprErrorView> {
    match int_of(y) {
        Some((k, i)) => if i < 0 {
            Err(OprErrorView::TypecastError(named_type("str"@)))
        } else {
            Ok(ValueView::Str(repeat_seq(s, (i % (usize::MAX as int + 1)) as nat)))
        },
        None => Err(OprErrorView::NoImplForOpr),
    }
}

/// What multiplying two values gives: a text times an integer, in either
/// order, repeats the text; otherwise the product of integers.
pub open spec fn mul_spec(x: ValueView, y: ValueView) -> Result<ValueView, OprErrorView> {
    match x {
        ValueView::Str(s) => mul_str_spec(s, y),
        _ => match y {
            ValueView::Str(t) => mul_str_spec(t, x),
            _ => num_opr_spec(OprType::AstMult, x, y),
        },
    }
}

/// The second operand as sign and magnitude (see `operand_int`).
pub(crate) fn operand_parts(y: &Value, k: IntKind) -> (res: Result<(bool, u128), OprError>)
    ensures
        match operand_int(value_view(*y), k) {
            Ok(b) => res matches Ok((nb, mb)) && signed_val(nb, mb) == b && (nb ==> mb > 0),
            Err(e) => res matches Err(e2) && opr_err_view(e2) == e,
        },
{
    match y {
        Value::Bool(b) => Ok((false, if *b { 1 } else { 0 })),
        _ => match int_parts(y) {
            Some((_, nb, mb)) => {
                if make_value(k, nb, mb).is_some() {
                    Ok((nb, mb))
                } else {
                    Err(OprError::TypecastError(Type::from_str(crate::value::name_of_kind(k))))
                }
            },
            None => Err(OprError::NoImplForOpr),
        },
    }
}

proof fn lemma_mul_signs(na: bool, ma: u128, nb: bool, mb: u128)
    ensures
        signed_val(na, ma) * signed_val(nb, mb) == (if na != nb {
            -((ma as int) * (mb as int))
        } else {
            (ma as int) * (mb as int)
        }),
{
    let x = ma as int;
    let y = mb as int;
    if na && nb {
        assert((-x) * (-y) == x * y) by (nonlinear_arith);
    } else if na {
        assert((-x) * y == -(x * y)) by (nonlinear_arith);
    } else if nb {
        assert(x * (-y) == -(x * y)) by (nonlinear_arith);
    }
}

/// An arithmetic operation on integers of a kind given as signs and
/// magnitudes (see `int_arith`).
fn int_arith_exec(op: OprType, k: IntKind, na: bool, ma: u128, nb: bool, mb: u128) -> (res: Result<Value, OprError>)
    requires
        in_kind(k, signed_val(na, ma)),
        na ==> ma > 0,
        nb ==> mb > 0,
        op == OprType::Plus || op == OprType::Minus || op == OprType::AstMult || op == OprType::Div
            || op == OprType::Modulo,
    ensures
        res_view(res) == int_arith(op, k, signed_val(na, ma), signed_val(nb, mb)),
{
    let ghost a = signed_val(na, ma);
    let ghost b = signed_val(nb, mb);
    if (op == OprType::Div || op == OprType::Modulo) && mb == 0 {
        return match make_value(k, na, ma) {
            Some(v) => Ok(v),
            None => Err(OprError::Overflow),
        };
    }
    if op == OprType::Plus || op == OprType::Minus {
        let nb2 = if op == OprType::Minus {
            !nb && mb > 0
        } else {
            nb
        };
        assert(signed_val(nb2, mb) == if op == OprType::Minus { -b } else { b });
        let (neg, mag) = if na == nb2 {
            match ma.checked_add(mb) {
                Some(m) => (na, m),
                None => {
                    return Err(OprError::Overflow);
                },
            }
        } else if ma >= mb {
            (na, ma - mb)
        } else {
            (nb2, mb - ma)
        };
        return match make_value(k, neg, mag) {
            Some(v) => Ok(v),
            None => Err(OprError::Overflow),
        };
    }
    if op == OprType::AstMult {
        proof {
            lemma_mul_signs(na, ma, nb, mb);
        }
        return match ma.checked_mul(mb) {
            Some(m) => match make_value(k, na != nb, m) {
                Some(v) => Ok(v),
                None => Err(OprError::Overflow),
            },
            None => Err(OprError::Overflow),
        };
    }
    if op == OprType::Div {
        let q = ma / mb;
        return match make_value(k, na != nb, q) {
            Some(v) => Ok(v),
            None => Err(OprError::Overflow),
        };
    }
    let min_case = match k {
        IntKind::I8 | IntKind::I16 | IntKind::I32 | IntKind::I64 | IntKind::I128 | IntKind::Isize => {
            na && nb && mb == 1 && make_value(k, true, ma).is_some() && make_value(k, true, ma + 1).is_none()
        },
        _ => false,
    };
    if min_case {
        return Err(OprError::Overflow);
    }
    let r = ma % mb;
    match make_value(k, na, r) {
        Some(v) => Ok(v),
        None => Err(OprError::Overflow),
    }
}

/// An arithmetic operation on two values (see `num_opr_spec`).
fn num_opr(op: OprType, x: &Value, y: &Value) -> (res: Result<Value, OprError>)
    requires
        op == OprType::Plus || op == OprType::Minus || op == OprType::AstMult || op == OprType::Div
            || op == OprType::Modulo,
    ensures
        res_view(res) == num_opr_spec(op, value_view(*x), value_view(*y)),
{
    match int_parts(x) {
        Some((k, na, ma)) => match operand_parts(y, k) {
            Ok((nb, mb)) => int_arith_exec(op, k, na, ma, nb, mb),
            Err(e) => Err(e),
        },
        None => Err(OprError::NoImplForOpr),
    }
}

/// The sum of two values (see `num_opr_spec`).
pub fn add(x: &Value, y: Value) -> (res: Result<Value, OprError>)
    ensures
        res_view(res) == num_opr_spec(OprType::Plus, value_view(*x), value_view(y)),
{
    num_opr(OprType::Plus, x, &y)
}

/// The difference of two values (see `num_opr_spec`).
pub fn sub(x: &Value, y: Value) -> (res: Result<Value, OprError>)
    ensures
        res_view(res) == num_opr_spec(OprType::Minus, value_view(*x), value_view(y)),
{
    num_opr(OprType::Minus, x, &y)
}

/// The quotient of two values (see `num_opr_spec`).
pub fn div(x: &Value, y: Value) -> (res: Result<Value, OprError>)
    ensures
        res_view(res) == num_opr_spec(OprType::Div, value_view(*x), value_view(y)),
{
    num_opr(OprType::Div, x, &y)
}

/// The remainder of two values (see `num_opr_spec`).
pub fn modulo(x: &Value, y: Value) -> (res: Result<Value, OprError>)
    ensures
        res_view(res) == num_opr_spec(OprType::Modulo, value_view(*x), value_view(y)),
{
    num_opr(OprType::Modulo, x, &y)
}

/// A text multiplied by a value (see `mul_str_spec`).
fn mul_str(x: String, y: Value) -> (res: Result<Value, OprError>)
    ensures
        res_view(res) == mul_str_spec(x@, value_view(y)),
{
    match int_parts(&y) {
        Some((_, neg, mag)) => {
            if neg {
                return Err(OprError::TypecastError(Type::from_str("str")));
            }
            let m: u128 = (usize::MAX as u128) + 1;
            let count = (mag % m) as usize;
            let mut res = String::new();
            let mut j: usize = 0;
            while j < count
                invariant
                    j <= count,
                    res@ == repeat_seq(x@, j as nat),
                decreases count - j,
            {
                let ghost before = res@;
                res.append(x.as_str());
                proof {
                    assert(repeat_seq(x@, (j + 1) as nat) == repeat_seq(x@, j as nat) + x@);
                }
                j = j + 1;
            }
            Ok(Value::Str(res))
        },
        None => Err(OprError::NoImplForOpr),
    }
}

/// The product of two values (see `mul_spec`).
pub fn mul(x: &Value, y: Value) -> (res: Result<Value, OprError>)
    ensures
        res_view(res) == mul_spec(value_view(*x), value_view(y)),
{
    match x {
        Value::Str(s) => mul_str(s.clone(), y),
        _ => match y {
            Value::Str(t) => mul_str(t, crate::value::clone_value(x)),
            _ => num_opr(OprType::AstMult, x, &y),
        },
    }
}

} // verus!
