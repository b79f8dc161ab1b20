use vstd::prelude::*;
use crate::element::{args_eq, elements_eq, type_eq};
use crate::typeobj::{Type, named_type};
use crate::value::{
    Value, ValueView, value_view, value_attrs_view, int_of, in_kind, kind_name, int_parts,
    make_value, name_of_kind,
};
use crate::value::arith::{operand_int, signed_val};
use crate::value::typecast::res_view;
use crate::value::utils::{OprError, OprErrorView, opr_err_view};

verus! {

broadcast use vstd::std_specs::vec::group_vec_axioms;

/// Whether one text comes before another in character order.
pub open spec fn seq_lt(a: Seq<char>, b: Seq<char>) -> bool
    decreases a.len(),
{
    if b.len() == 0 {
        false
    } else if a.len() == 0 {
        true
    } else if a[0] != b[0] {
        a[0] < b[0]
    } else {
        seq_lt(a.drop_first(), b.drop_first())
    }
}

/// The integer a second operand of a comparison is compared as: it must be
/// an integer and fit the kind of the first.
pub open spec fn cmp_operand(y: ValueView, x: ValueView) -> Result<int, OprErrorView> {
    match int_of(y) {
        Some((_, j)) => match int_of(x) {
            Some((k, _)) => if in_kind(k, j) {
                Ok(j)
            } else {
                Err(OprErrorView::TypecastError(named_type(kind_name(k))))
            },
            None => Ok(j),
        },
        None => Err(OprErrorView::NoImplForOpr),
    }
}

/// What `>` gives: for integers, the comparison after converting the
/// second to the kind of the first; for a boolean and an integer, the
/// boolean compared with whether the integer is non-zero; for two texts,
/// whether the first comes before the second.
pub open spec fn gt_spec(x: ValueView, y: ValueView) -> Result<ValueView, OprErrorView> {
    match x {
        ValueView::Str(a) => match y {
            ValueView::Str(b) => Ok(ValueView::Bool(seq_lt(a, b))),
            _ => Err(OprErrorView::NoImplForOpr),
        },
        ValueView::Bool(a) => match cmp_operand(y, x) {
            Ok(j) => Ok(ValueView::Bool(a && j == 0)),
            Err(e) => Err(e),
        },
        _ => match int_of(x) {
            Some((_, a)) => match cmp_operand(y, x) {
                Ok(j) => Ok(ValueView::Bool(a > j)),
                Err(e) => Err(e),
            },
            None => Err(OprErrorView::NoImplForOpr),
        },
    }
}

/// What `<` gives: `>` with the comparison turned round, texts included.
pub open spec fn lt_spec(x: ValueView, y: ValueView) -> Result<ValueView, OprErrorView> {
    match x {
        ValueView::Str(a) => match y {
            ValueView::Str(b) => Ok(ValueView::Bool(seq_lt(b, a))),
            _ => Err(OprErrorView::NoImplForOpr),
        },
        ValueView::Bool(a) => match cmp_operand(y, x) {
            Ok(j) => Ok(ValueView::Bool(!a && j != 0)),
            Err(e) => Err(e),
        },
        _ => match int_of(x) {
            Some((_, a)) => match cmp_operand(y, x) {
                Ok(j) => Ok(ValueView::Bool(a < j)),
                Err(e) => Err(e),
            },
            None => Err(OprErrorView::NoImplForOpr),
        },
    }
}

/// What `==` gives: for an integer, equality after converting the second
/// operand (a number or a boolean) to its kind; for a boolean, equality
/// with a boolean or with whether an integer is non-zero; for two texts,
/// whether they are the same.
pub open spec fn eq_spec(x: ValueView, y: ValueView) -> Result<ValueView, OprErrorView> {
    match x {
        ValueView::Str(a) => match y {
            ValueView::Str(b) => Ok(ValueView::Bool(a == b)),
            _ => Err(OprErrorView::NoImplForOpr),
        },
        ValueView::Bool(a) => match y {
            ValueView::Bool(c) => Ok(ValueView::Bool(a == c)),
            _ => match int_of(y) {
                Some((_, j)) => Ok(ValueView::Bool(a == (j != 0))),
                None => Err(OprErrorView::NoImplForOpr),
            },
        },
        _ => match int_of(x) {
            Some((k, a)) => match operand_int(y, k) {
                Ok(b) => Ok(ValueView::Bool(a == b)),
                Err(e) => Err(e),
            },
            None => Err(OprErrorView::NoImplForOpr),
        },
    }
}

/// The negation of a boolean outcome; errors pass through.
pub open spec fn not_spec(r: Result<ValueView, OprErrorView>) -> Result<ValueView, OprErrorView> {
    match r {
        Ok(ValueView::Bool(b)) => Ok(ValueView::Bool(!b)),
        _ => r,
    }
}

/// One boolean outcome or, when it is false, another; errors pass through.
pub open spec fn or_spec(
    r1: Result<ValueView, OprErrorView>,
    r2: Result<ValueView, OprErrorView>,
) -> Result<ValueView, OprErrorView> {
    match r1 {
        Ok(ValueView::Bool(true)) => r1,
        Ok(ValueView::Bool(false)) => r2,
        _ => r1,
    }
}

/// Whether a text comes before another (see `seq_lt`).
fn text_lt(a: &String, b: &String) -> (res: bool)
    ensures
        res == seq_lt(a@, b@),
{
    let x = crate::text::chars_of(a.as_str());
    let y = crate::text::chars_of(b.as_str());
    let mut i: usize = 0;
    proof {
        assert(x@.subrange(0, x@.len() as int) =~= x@);
        assert(y@.subrange(0, y@.len() as int) =~= y@);
        assert(x@.subrange(0, 0) =~= y@.subrange(0, 0));
    }
    while i < x.len() && i < y.len()
        invariant
            x@ == a@,
            y@ == b@,
            0 <= i <= x@.len(),
            i <= y@.len(),
            x@.subrange(0, i as int) == y@.subrange(0, i as int),
            seq_lt(x@, y@) == seq_lt(x@.subrange(i as int, x@.len() as int), y@.subrange(i as int, y@.len() as int)),
        decreases x@.len() - i,
    {
        let ghost xs = x@.subrange(i as int, x@.len() as int);
        let ghost ys = y@.subrange(i as int, y@.len() as int);
        if x[i] != y[i] {
            proof {
                assert(xs[0] == x@[i as int]);
                assert(ys[0] == y@[i as int]);
            }
            return x[i] < y[i];
        }
        proof {
            assert(xs.drop_first() =~= x@.subrange(i + 1, x@.len() as int));
            assert(ys.drop_first() =~= y@.subrange(i + 1, y@.len() as int));
            assert(x@.subrange(0, i + 1) =~= x@.subrange(0, i as int).push(x@[i as int]));
            assert(y@.subrange(0, i + 1) =~= y@.subrange(0, i as int).push(y@[i as int]));
        }
        i = i + 1;
    }
    i < y.len()
}

/// The second operand of a comparison (see `cmp_operand`).
fn cmp_operand_exec(y: &Value, x: &Value) -> (res: Result<(bool, u128), OprError>)
    ensures
        match cmp_operand(value_view(*y), value_view(*x)) {
            Ok(j) => res matches Ok((nb, mb)) && signed_val(nb, mb) == j && (nb ==> mb > 0),
            Err(e) => res matches Err(e2) && opr_err_view(e2) == e,
        },
{
    match int_parts(y) {
        Some((_, nb, mb)) => match int_parts(x) {
            Some((k, _, _)) => {
                if make_value(k, nb, mb).is_some() {
                    Ok((nb, mb))
                } else {
                    Err(OprError::TypecastError(Type::from_str(name_of_kind(k))))
                }
            },
            None => Ok((nb, mb)),
        },
        None => Err(OprError::NoImplForOpr),
    }
}

/// Whether one signed magnitude is above another.
fn signed_gt(na: bool, ma: u128, nb: bool, mb: u128) -> (res: bool)
    requires
        na ==> ma > 0,
        nb ==> mb > 0,
    ensures
        res == (signed_val(na, ma) > signed_val(nb, mb)),
{
    if na {
        if nb {
            ma < mb
        } else {
            false
        }
    } else {
        if nb {
            true
        } else {
            ma > mb
        }
    }
}

/// Compares two values with `>` (see `gt_spec`).
pub fn gt(x: &Value, y: Value) -> (res: Result<Value, OprError>)
    ensures
        res_view(res) == gt_spec(value_view(*x), value_view(y)),
{
    match x {
        Value::Str(a) => match &y {
            Value::Str(b) => Ok(Value::Bool(text_lt(a, b))),
            _ => Err(OprError::NoImplForOpr),
        },
        Value::Bool(a) => match cmp_operand_exec(&y, x) {
            Ok((_, mb)) => Ok(Value::Bool(*a && mb == 0)),
            Err(e) => Err(e),
        },
        _ => match int_parts(x) {
            Some((_, na, ma)) => match cmp_operand_exec(&y, x) {
                Ok((nb, mb)) => Ok(Value::Bool(signed_gt(na, ma, nb, mb))),
                Err(e) => Err(e),
            },
            None => Err(OprError::NoImplForOpr),
        },
    }
}

/// Compares two values with `<` (see `lt_spec`).
pub fn lt(x: &Value, y: Value) -> (res: Result<Value, OprError>)
    ensures
        res_view(res) == lt_spec(value_view(*x), value_view(y)),
{
    match x {
        Value::Str(a) => match &y {
            Value::Str(b) => Ok(Value::Bool(text_lt(b, a))),
            _ => Err(OprError::NoImplForOpr),
        },
        Value::Bool(a) => match cmp_operand_exec(&y, x) {
            Ok((_, mb)) => Ok(Value::Bool(!*a && mb != 0)),
            Err(e) => Err(e),
        },
        _ => match int_parts(x) {
            Some((_, na, ma)) => match cmp_operand_exec(&y, x) {
                Ok((nb, mb)) => Ok(Value::Bool(signed_gt(nb, mb, na, ma))),
                Err(e) => Err(e),
            },
            None => Err(OprError::NoImplForOpr),
        },
    }
}

/// Compares two values with `==` (see `eq_spec`).
pub fn eq(x: &Value, y: Value) -> (res: Result<Value, OprError>)
    ensures
        res_view(res) == eq_spec(value_view(*x), value_view(y)),
{
    match x {
        Value::Str(a) => match &y {
            Value::Str(b) => Ok(Value::Bool(crate::text::str_eq(a.as_str(), b.as_str()))),
            _ => Err(OprError::NoImplForOpr),
        },
        Value::Bool(a) => match &y {
            Value::Bool(c) => Ok(Value::Bool(*a == *c)),
            _ => match int_parts(&y) {
                Some((_, _, mb)) => Ok(Value::Bool(*a == (mb != 0))),
                None => Err(OprError::NoImplForOpr),
            },
        },
        _ => match int_parts(x) {
            Some((k, na, ma)) => match crate::value::arith::operand_parts(&y, k) {
                Ok((nb, mb)) => Ok(Value::Bool(na == nb && ma == mb)),
                Err(e) => Err(e),
            },
            None => Err(OprError::NoImplForOpr),
        },
    }
}

/// Compares two values with `!=`: the negation of `==`.
pub fn noteq(x: &Value, y: Value) -> (res: Result<Value, OprError>)
    ensures
        res_view(res) == not_spec(eq_spec(value_view(*x), value_view(y))),
{
    match eq(x, y) {
        Ok(Value::Bool(b)) => Ok(Value::Bool(!b)),
        r => r,
    }
}

/// Compares two values with `>=`: `>`, then `==` if that was false.
pub fn gteq(x: &Value, y: Value) -> (res: Result<Value, OprError>)
    ensures
        res_view(res) == or_spec(gt_spec(value_view(*x), value_view(y)), eq_spec(value_view(*x), value_view(y))),
{
    let y2 = crate::value::clone_value(&y);
    match gt(x, y) {
        Ok(Value::Bool(true)) => Ok(Value::Bool(true)),
        Ok(Value::Bool(false)) => eq(x, y2),
        r => r,
    }
}

/// Compares two values with `<=`: `<`, then `==` if that was false.
pub fn lteq(x: &Value, y: Value) -> (res: Result<Value, OprError>)
    ensures
        res_view(res) == or_spec(lt_spec(value_view(*x), value_view(y)), eq_spec(value_view(*x), value_view(y))),
{
    let y2 = crate::value::clone_value(&y);
    match lt(x, y) {
        Ok(Value::Bool(true)) => Ok(Value::Bool(true)),
        Ok(Value::Bool(false)) => eq(x, y2),
        r => r,
    }
}

/// Whether two values are the same value of the same type.
pub fn value_eq(a: &Value, b: &Value) -> (res: bool)
    ensures
        res == (value_view(*a) == value_view(*b)),
    decreases a,
{
    match (a, b) {
        (Value::I8(x), Value::I8(y)) => *x == *y,
        (Value::I16(x), Value::I16(y)) => *x == *y,
        (Value::I32(x), Value::I32(y)) => *x == *y,
        (Value::I64(x), Value::I64(y)) => *x == *y,
        (Value::I128(x), Value::I128(y)) => *x == *y,
        (Value::Isize(x), Value::Isize(y)) => *x == *y,
        (Value::U8(x), Value::U8(y)) => *x == *y,
        (Value::U16(x), Value::U16(y)) => *x == *y,
        (Value::U32(x), Value::U32(y)) => *x == *y,
        (Value::U64(x), Value::U64(y)) => *x == *y,
        (Value::U128(x), Value::U128(y)) => *x == *y,
        (Value::Usize(x), Value::Usize(y)) => *x == *y,
        (Value::Str(x), Value::Str(y)) => crate::text::str_eq(x.as_str(), y.as_str()),
        (Value::Bool(x), Value::Bool(y)) => *x == *y,
        (Value::Type(x), Value::Type(y)) => type_eq(x, y),
        (
            Value::Proc { is_fn: f1, args: a1, return_type: r1, content: c1 },
            Value::Proc { is_fn: f2, args: a2, return_type: r2, content: c2 },
        ) => *f1 == *f2 && args_eq(a1, a2) && type_eq(r1, r2) && elements_eq(c1, c2),
        (
            Value::ClassInstance { type_: t1, attrs: a1 },
            Value::ClassInstance { type_: t2, attrs: a2 },
        ) => type_eq(t1, t2) && value_attrs_eq(a1, a2),
        (Value::Null, Value::Null) => true,
        (Value::Return(x), Value::Return(y)) => value_eq(&**x, &**y),
        _ => false,
    }
}

/// Whether two lists of named values are the same.
fn value_attrs_eq(a: &Vec<(String, Value)>, b: &Vec<(String, Value)>) -> (res: bool)
    ensures
        res == (value_attrs_view(a@) == value_attrs_view(b@)),
    decreases a,
{
    proof {
        crate::value::lemma_value_attrs_view(a@);
        crate::value::lemma_value_attrs_view(b@);
    }
    if a.len() != b.len() {
        return false;
    }
    let mut i: usize = 0;
    while i < a.len()
        invariant
            a@.len() == b@.len(),
            0 <= i <= a@.len(),
            value_attrs_view(a@).len() == a@.len(),
            value_attrs_view(b@).len() == b@.len(),
            forall|j: int| 0 <= j < a@.len() ==> #[trigger] value_attrs_view(a@)[j] == (a@[j].0@, value_view(a@[j].1)),
            forall|j: int| 0 <= j < b@.len() ==> #[trigger] value_attrs_view(b@)[j] == (b@[j].0@, value_view(b@[j].1)),
            forall|j: int| 0 <= j < i ==> value_attrs_view(a@)[j] == value_attrs_view(b@)[j],
        decreases a@.len() - i,
    {
        let same = crate::text::str_eq(a[i].0.as_str(), b[i].0.as_str()) && value_eq(&a[i].1, &b[i].1);
        if !same {
            proof {
                assert(value_attrs_view(a@)[i as int] != value_attrs_view(b@)[i as int]);
            }
            return false;
        }
        i = i + 1;
    }
    proof {
        assert(value_attrs_view(a@) =~= value_attrs_view(b@));
    }
    true
}

/// Whether two values are the same value of the same type, with no conversion.
pub fn iseq(x: &Value, y: Value) -> (res: Result<Value, OprError>)
    ensures
        res_view(res) == Ok::<ValueView, OprErrorView>(ValueView::Bool(value_view(*x) == value_view(y))),
{
    Ok(Value::Bool(value_eq(x, &y)))
}

/// Whether two values differ in value or type, with no conversion.
pub fn isnteq(x: &Value, y: Value) -> (res: Result<Value, OprError>)
    ensures
        res_view(res) == Ok::<ValueView, OprErrorView>(ValueView::Bool(value_view(*x) != value_view(y))),
{
    Ok(Value::Bool(!value_eq(x, &y)))
}

} // verus!
