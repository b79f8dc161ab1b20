use vstd::prelude::*;
use vstd::string::*;
use crate::element::{TypeView, type_view};
use crate::text::{chars_of, str_eq, signed_decimal};
use crate::typeobj::{Type, named_type};
use crate::value::{
    IntKind, Value, ValueView, value_view, int_of, make_int, in_kind, kind_signed, kind_of_name,
    kind_for_name, int_parts, make_value, type_of_value, kind_min, kind_max,
};
use crate::value::display::bool_text;
use crate::value::utils::{OprError, OprErrorView, opr_err_view};

verus! {

broadcast use vstd::std_specs::vec::group_vec_axioms;

/// The plain-value view of the outcome of an operation on values.
pub open spec fn res_view(r: Result<Value, OprError>) -> Result<ValueView, OprErrorView> {
    match r {
        Ok(v) => Ok(value_view(v)),
        Err(e) => Err(opr_err_view(e)),
    }
}

/// Whether a character is a decimal digit.
pub open spec fn is_digit(c: char) -> bool {
    '0' <= c && c <= '9'
}

/// Whether every character is a decimal digit.
pub open spec fn all_digits(d: Seq<char>) -> bool {
    forall|i: int| 0 <= i < d.len() ==> is_digit(#[trigger] d[i])
}

/// The number decimal digits stand for.
pub open spec fn digits_value(d: Seq<char>) -> nat
    decreases d.len(),
{
    if d.len() == 0 {
        0
    } else {
        digits_value(d.drop_last()) * 10 + ((d.last() as int) - ('0' as int)) as nat
    }
}

/// The integer of the kind a text stands for, read as Rust reads integers:
/// an optional `+` (or `-` for a signed kind), then at least one decimal
/// digit and nothing else, the number within the kind's range.
pub open spec fn parse_int_spec(s: Seq<char>, k: IntKind) -> Option<int> {
    if s.len() == 0 {
        None
    } else {
        let neg = s[0] == '-' && kind_signed(k);
        let d = if s[0] == '+' || neg {
            s.drop_first()
        } else {
            s
        };
        if d.len() == 0 || !all_digits(d) {
            None
        } else {
            let v = if neg {
                -(digits_value(d) as int)
            } else {
                digits_value(d) as int
            };
            if in_kind(k, v) {
                Some(v)
            } else {
                None
            }
        }
    }
}

/// What converting a value to the type of the given name gives: the value's
/// type for `type`; otherwise for a string: itself, whether it is non-empty,
/// or the integer it spells; for a boolean: its text, itself, or 1 and 0; for
/// an integer: its decimal text, whether it is non-zero, or the same number
/// in the other kind if it fits; for a type: the type `type`. A number that
/// does not fit, or a text that spells none, is a typecast error; any other
/// conversion has no implementation.
pub open spec fn cast_spec(x: ValueView, name: Seq<char>) -> Result<ValueView, OprErrorView> {
    if name == "type"@ {
        Ok(ValueView::Type(type_of_value(x)))
    } else {
        match x {
            ValueView::Str(s) => if name == "str"@ {
                Ok(ValueView::Str(s))
            } else if name == "bool"@ {
                Ok(ValueView::Bool(s.len() > 0))
            } else {
                match kind_of_name(name) {
                    Some(k) => match parse_int_spec(s, k) {
                        Some(i) => Ok(make_int(k, i)),
                        None => Err(OprErrorView::TypecastError(named_type(name))),
                    },
                    None => Err(OprErrorView::NoImplForOpr),
                }
            },
            ValueView::Bool(b) => if name == "str"@ {
                Ok(ValueView::Str(bool_text(b)))
            } else if name == "bool"@ {
                Ok(ValueView::Bool(b))
            } else {
                match kind_of_name(name) {
                    Some(k) => Ok(make_int(
                        k,
                        if b {
                            1
                        } else {
                            0
                        },
                    )),
                    None => Err(OprErrorView::NoImplForOpr),
                }
            },
            ValueView::Type(_) => Ok(ValueView::Type(named_type("type"@))),
            _ => match int_of(x) {
                Some((_, i)) => if name == "str"@ {
                    Ok(ValueView::Str(signed_decimal(i)))
                } else if name == "bool"@ {
                    Ok(ValueView::Bool(i != 0))
                } else {
                    match kind_of_name(name) {
                        Some(k) => if in_kind(k, i) {
                            Ok(make_int(k, i))
                        } else {
                            Err(OprErrorView::TypecastError(named_type(name)))
                        },
                        None => Err(OprErrorView::NoImplForOpr),
                    }
                },
                None => Err(OprErrorView::NoImplForOpr),
            },
        }
    }
}

/// What `typecast` gives: a conversion to the named type when the second
/// value is a type with a name, no implementation otherwise.
pub open spec fn typecast_spec(x: ValueView, y: ValueView) -> Result<ValueView, OprErrorView> {
    match y {
        ValueView::Type(TypeView::Instance { name, .. }) => cast_spec(x, name),
        _ => Err(OprErrorView::NoImplForOpr),
    }
}

proof fn lemma_digits_prefix(d: Seq<char>, j: int)
    requires
        0 <= j <= d.len(),
    ensures
        digits_value(d.subrange(0, j)) <= digits_value(d),
    decreases d.len(),
{
    if j < d.len() {
        lemma_digits_prefix(d.drop_last(), j);
        assert(d.drop_last().subrange(0, j) =~= d.subrange(0, j));
    } else {
        assert(d.subrange(0, j) =~= d);
    }
}

fn digit_value(c: char) -> (res: u128)
    requires
        is_digit(c),
    ensures
        res == (c as int) - ('0' as int),
        res < 10,
{
    let n: u32 = c as u32;
    (n - 48) as u128
}

/// The integer of the kind a text stands for (see `parse_int_spec`).
pub fn parse_int(s: &str, k: IntKind) -> (res: Option<Value>)
    ensures
        match parse_int_spec(s@, k) {
            Some(i) => res matches Some(v) && value_view(v) == make_int(k, i),
            None => res is None,
        },
{
    let cs = chars_of(s);
    if cs.len() == 0 {
        return None;
    }
    let neg = cs[0] == '-' && (match k {
        IntKind::I8 | IntKind::I16 | IntKind::I32 | IntKind::I64 | IntKind::I128 | IntKind::Isize => true,
        _ => false,
    });
    let start: usize = if cs[0] == '+' || neg {
        1
    } else {
        0
    };
    let ghost d = cs@.subrange(start as int, cs@.len() as int);
    proof {
        if start == 1 {
            assert(d =~= s@.drop_first());
        } else {
            assert(d =~= s@);
        }
    }
    if start == cs.len() {
        return None;
    }
    let mut mag: u128 = 0;
    let mut i: usize = start;
    while i < cs.len()
        invariant
            cs@ == s@,
            s@.len() > 0,
            neg == (s@[0] == '-' && kind_signed(k)),
            start == (if s@[0] == '+' || neg { 1int } else { 0int }),
            d == cs@.subrange(start as int, cs@.len() as int),
            d == (if s@[0] == '+' || neg { s@.drop_first() } else { s@ }),
            d.len() > 0,
            start <= i <= cs@.len(),
            all_digits(d.subrange(0, i - start)),
            mag == digits_value(d.subrange(0, i - start)),
        decreases cs@.len() - i,
    {
        let c = cs[i];
        let ghost prefix = d.subrange(0, i - start);
        let ghost next = d.subrange(0, i - start + 1);
        proof {
            assert(next.drop_last() =~= prefix);
            assert(next.last() == c);
        }
        if !(c >= '0' && c <= '9') {
            proof {
                assert(d[i - start] == c);
            }
            return None;
        }
        let v = digit_value(c);
        let m1 = mag.checked_mul(10);
        match m1 {
            None => {
                proof {
                    lemma_digits_prefix(d, i - start + 1);
                    assert(digits_value(next) == digits_value(prefix) * 10 + v);
                }
                return None;
            },
            Some(m1) => {
                let m2 = m1.checked_add(v);
                match m2 {
                    None => {
                        proof {
                            lemma_digits_prefix(d, i - start + 1);
                        }
                        return None;
                    },
                    Some(m2) => {
                        mag = m2;
                    },
                }
            },
        }
        proof {
            assert forall|j: int| 0 <= j < next.len() implies is_digit(#[trigger] next[j]) by {
                if j < prefix.len() {
                    assert(next[j] == prefix[j]);
                }
            }
        }
        i = i + 1;
    }
    proof {
        assert(d.subrange(0, d.len() as int) =~= d);
    }
    make_value(k, neg, mag)
}

/// Converts a value to the type of the given name (see `cast_spec`).
pub fn cast_to_name(x: &Value, name: &str) -> (res: Result<Value, OprError>)
    ensures
        res_view(res) == cast_spec(value_view(*x), name@),
{
    if str_eq(name, "type") {
        return Ok(x.get_type());
    }
    match x {
        Value::Str(s) => {
            if str_eq(name, "str") {
                Ok(Value::Str(s.clone()))
            } else if str_eq(name, "bool") {
                Ok(Value::Bool(!s.as_str().is_empty()))
            } else {
                match kind_for_name(name) {
                    Some(k) => match parse_int(s.as_str(), k) {
                        Some(v) => Ok(v),
                        None => Err(OprError::TypecastError(Type::from_str(name))),
                    },
                    None => Err(OprError::NoImplForOpr),
                }
            }
        },
        Value::Bool(b) => {
            if str_eq(name, "str") {
                Ok(Value::Str(x.to_text()))
            } else if str_eq(name, "bool") {
                Ok(Value::Bool(*b))
            } else {
                match kind_for_name(name) {
                    Some(k) => {
                        let r = make_value(k, false, if *b { 1 } else { 0 });
                        match r {
                            Some(v) => Ok(v),
                            None => Err(OprError::NoImplForOpr),
                        }
                    },
                    None => Err(OprError::NoImplForOpr),
                }
            }
        },
        Value::Type(_) => Ok(Value::Type(Type::from_str("type"))),
        _ => match int_parts(x) {
            Some((_, neg, mag)) => {
                if str_eq(name, "str") {
                    Ok(Value::Str(x.to_text()))
                } else if str_eq(name, "bool") {
                    Ok(Value::Bool(mag != 0))
                } else {
                    match kind_for_name(name) {
                        Some(k) => match make_value(k, neg, mag) {
                            Some(v) => Ok(v),
                            None => Err(OprError::TypecastError(Type::from_str(name))),
                        },
                        None => Err(OprError::NoImplForOpr),
                    }
                }
            },
            None => Err(OprError::NoImplForOpr),
        },
    }
}

/// Converts a value to the type given as the second value (see `typecast_spec`).
pub fn typecast(x: &Value, y: Value) -> (res: Result<Value, OprError>)
    ensures
        res_view(res) == typecast_spec(value_view(*x), value_view(y)),
{
    match y {
        Value::Type(Type::Instance { name, .. }) => cast_to_name(x, name.as_str()),
        _ => Err(OprError::NoImplForOpr),
    }
}

} // verus!
