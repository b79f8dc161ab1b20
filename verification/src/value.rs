pub mod utils;
pub mod display;
pub mod typecast;
pub mod arith;
pub mod compare;
pub mod unary;
pub mod logic;
pub mod concat;
pub mod methods;
pub mod laws;

use vstd::prelude::*;
use vstd::string::*;
use crate::element::{
    attrs_view, types_view, lemma_types_view,
    Argument, ArgumentView, Element, ElementView, TypeView, arg_view, args_view, clone_args,
    clone_elements, clone_type, elem_view, elems_view, type_view, lemma_args_view, raw_of,
};
use crate::errors::{ZyxtError, error_0_0};
use crate::text::{
    push_char, str_eq, chars_of, string_from_chars, u128_to_decimal, i128_to_decimal, decimal,
    signed_decimal, trim_text, trimmed,
};
use crate::typeobj::{Type, named_type, name_of_type, type_text};

verus! {

broadcast use vstd::std_specs::vec::group_vec_axioms;

/// A value of the language.
///
/// Floating-point and arbitrary-size numbers have no values here.
#[derive(Debug)]
pub enum Value {
    I8(i8),
    I16(i16),
    I32(i32),
    I64(i64),
    I128(i128),
    Isize(isize),
    U8(u8),
    U16(u16),
    U32(u32),
    U64(u64),
    U128(u128),
    Usize(usize),
    Str(String),
    Bool(bool),
    Type(Type),
    Proc { is_fn: bool, args: Vec<Argument>, return_type: Type, content: Vec<Element> },
    ClassInstance { type_: Type, attrs: Vec<(String, Value)> },
    Null,
    Return(Box<Value>),
}

/// A value as plain values.
pub enum ValueView {
    I8(i8),
    I16(i16),
    I32(i32),
    I64(i64),
    I128(i128),
    Isize(isize),
    U8(u8),
    U16(u16),
    U32(u32),
    U64(u64),
    U128(u128),
    Usize(usize),
    Str(Seq<char>),
    Bool(bool),
    Type(TypeView),
    Proc { is_fn: bool, args: Seq<ArgumentView>, return_type: TypeView, content: Seq<ElementView> },
    ClassInstance { type_: TypeView, attrs: Seq<(Seq<char>, ValueView)> },
    Null,
    Return(Box<ValueView>),
}

/// The plain-value view of a value.
pub open spec fn value_view(v: Value) -> ValueView
    decreases v,
{
    match v {
        Value::I8(x) => ValueView::I8(x),
        Value::I16(x) => ValueView::I16(x),
        Value::I32(x) => ValueView::I32(x),
        Value::I64(x) => ValueView::I64(x),
        Value::I128(x) => ValueView::I128(x),
        Value::Isize(x) => ValueView::Isize(x),
        Value::U8(x) => ValueView::U8(x),
        Value::U16(x) => ValueView::U16(x),
        Value::U32(x) => ValueView::U32(x),
        Value::U64(x) => ValueView::U64(x),
        Value::U128(x) => ValueView::U128(x),
        Value::Usize(x) => ValueView::Usize(x),
        Value::Str(s) => ValueView::Str(s@),
        Value::Bool(b) => ValueView::Bool(b),
        Value::Type(t) => ValueView::Type(type_view(t)),
        Value::Proc { is_fn, args, return_type, content } => ValueView::Proc {
            is_fn,
            args: args_view(args@),
            return_type: type_view(return_type),
            content: elems_view(content@),
        },
        Value::ClassInstance { type_, attrs } => ValueView::ClassInstance {
            type_: type_view(type_),
            attrs: value_attrs_view(attrs@),
        },
        Value::Null => ValueView::Null,
        Value::Return(b) => ValueView::Return(Box::new(value_view(*b))),
    }
}

/// The plain-value view of named values.
pub open spec fn value_attrs_view(s: Seq<(String, Value)>) -> Seq<(Seq<char>, ValueView)>
    decreases s,
{
    if s.len() == 0 {
        Seq::empty()
    } else {
        seq![(s[0].0@, value_view(s[0].1))] + value_attrs_view(s.drop_first())
    }
}

pub proof fn lemma_value_attrs_view(s: Seq<(String, Value)>)
    ensures
        value_attrs_view(s).len() == s.len(),
        forall|j: int| 0 <= j < s.len() ==> #[trigger] value_attrs_view(s)[j] == (s[j].0@, value_view(s[j].1)),
    decreases s.len(),
{
    if s.len() > 0 {
        lemma_value_attrs_view(s.drop_first());
        assert forall|j: int| 0 <= j < s.len() implies #[trigger] value_attrs_view(s)[j] == (s[j].0@, value_view(s[j].1)) by {
            if j > 0 {
                assert(s.drop_first()[j - 1] == s[j]);
            }
        }
    }
}

/// A copy of a value.
pub fn clone_value(v: &Value) -> (res: Value)
    ensures
        value_view(res) == value_view(*v),
    decreases v,
{
    match v {
        Value::I8(x) => Value::I8(*x),
        Value::I16(x) => Value::I16(*x),
        Value::I32(x) => Value::I32(*x),
        Value::I64(x) => Value::I64(*x),
        Value::I128(x) => Value::I128(*x),
        Value::Isize(x) => Value::Isize(*x),
        Value::U8(x) => Value::U8(*x),
        Value::U16(x) => Value::U16(*x),
        Value::U32(x) => Value::U32(*x),
        Value::U64(x) => Value::U64(*x),
        Value::U128(x) => Value::U128(*x),
        Value::Usize(x) => Value::Usize(*x),
        Value::Str(s) => Value::Str(s.clone()),
        Value::Bool(b) => Value::Bool(*b),
        Value::Type(t) => Value::Type(clone_type(t)),
        Value::Proc { is_fn, args, return_type, content } => Value::Proc {
            is_fn: *is_fn,
            args: clone_args(args),
            return_type: clone_type(return_type),
            content: clone_elements(content),
        },
        Value::ClassInstance { type_, attrs } => Value::ClassInstance {
            type_: clone_type(type_),
            attrs: clone_value_attrs(attrs),
        },
        Value::Null => Value::Null,
        Value::Return(b) => Value::Return(Box::new(clone_value(&**b))),
    }
}

/// A copy of named values.
fn clone_value_attrs(v: &Vec<(String, Value)>) -> (res: Vec<(String, Value)>)
    ensures
        value_attrs_view(res@) == value_attrs_view(v@),
    decreases v,
{
    let mut res: Vec<(String, Value)> = Vec::new();
    let mut i: usize = 0;
    while i < v.len()
        invariant
            0 <= i <= v@.len(),
            res@.len() == i,
            forall|j: int| 0 <= j < i ==> (#[trigger] res@[j]).0@ == v@[j].0@ && value_view(res@[j].1) == value_view(v@[j].1),
        decreases v@.len() - i,
    {
        let name = v[i].0.clone();
        let value = clone_value(&v[i].1);
        res.push((name, value));
        i = i + 1;
    }
    proof {
        lemma_value_attrs_view(res@);
        lemma_value_attrs_view(v@);
        assert(value_attrs_view(res@) =~= value_attrs_view(v@));
    }
    res
}

impl Clone for Value {
    fn clone(&self) -> (res: Self)
        ensures
            value_view(res) == value_view(*self),
    {
        clone_value(self)
    }
}

/// The kinds of integer a value can hold.
#[derive(Clone, Copy, Debug, PartialEq, Eq, Structural)]
pub enum IntKind {
    I8,
    I16,
    I32,
    I64,
    I128,
    Isize,
    U8,
    U16,
    U32,
    U64,
    U128,
    Usize,
}

/// The least integer of a kind.
pub open spec fn kind_min(k: IntKind) -> int {
    match k {
        IntKind::I8 => i8::MIN as int,
        IntKind::I16 => i16::MIN as int,
        IntKind::I32 => i32::MIN as int,
        IntKind::I64 => i64::MIN as int,
        IntKind::I128 => i128::MIN as int,
        IntKind::Isize => isize::MIN as int,
        _ => 0,
    }
}

/// The greatest integer of a kind.
pub open spec fn kind_max(k: IntKind) -> int {
    match k {
        IntKind::I8 => i8::MAX as int,
        IntKind::I16 => i16::MAX as int,
        IntKind::I32 => i32::MAX as int,
        IntKind::I64 => i64::MAX as int,
        IntKind::I128 => i128::MAX as int,
        IntKind::Isize => isize::MAX as int,
        IntKind::U8 => u8::MAX as int,
        IntKind::U16 => u16::MAX as int,
        IntKind::U32 => u32::MAX as int,
        IntKind::U64 => u64::MAX as int,
        IntKind::U128 => u128::MAX as int,
        IntKind::Usize => usize::MAX as int,
    }
}

/// Whether an integer is one of the kind.
pub open spec fn in_kind(k: IntKind, i: int) -> bool {
    kind_min(k) <= i <= kind_max(k)
}

/// Whether the kind has negative integers.
pub open spec fn kind_signed(k: IntKind) -> bool {
    match k {
        IntKind::I8 | IntKind::I16 | IntKind::I32 | IntKind::I64 | IntKind::I128 | IntKind::Isize => true,
        _ => false,
    }
}

/// The name of the type of a kind of integer.
pub open spec fn kind_name(k: IntKind) -> Seq<char> {
    match k {
        IntKind::I8 => "i8"@,
        IntKind::I16 => "i16"@,
        IntKind::I32 => "i32"@,
        IntKind::I64 => "i64"@,
        IntKind::I128 => "i128"@,
        IntKind::Isize => "isize"@,
        IntKind::U8 => "u8"@,
        IntKind::U16 => "u16"@,
        IntKind::U32 => "u32"@,
        IntKind::U64 => "u64"@,
        IntKind::U128 => "u128"@,
        IntKind::Usize => "usize"@,
    }
}

/// The kind of integer a type name stands for, if it stands for one.
pub open spec fn kind_of_name(n: Seq<char>) -> Option<IntKind> {
    if n == "i8"@ {
        Some(IntKind::I8)
    } else if n == "i16"@ {
        Some(IntKind::I16)
    } else if n == "i32"@ {
        Some(IntKind::I32)
    } else if n == "i64"@ {
        Some(IntKind::I64)
    } else if n == "i128"@ {
        Some(IntKind::I128)
    } else if n == "isize"@ {
        Some(IntKind::Isize)
    } else if n == "u8"@ {
        Some(IntKind::U8)
    } else if n == "u16"@ {
        Some(IntKind::U16)
    } else if n == "u32"@ {
        Some(IntKind::U32)
    } else if n == "u64"@ {
        Some(IntKind::U64)
    } else if n == "u128"@ {
        Some(IntKind::U128)
    } else if n == "usize"@ {
        Some(IntKind::Usize)
    } else {
        None
    }
}

/// The kind of integer a type name stands for (see `kind_of_name`).
pub fn kind_for_name(n: &str) -> (res: Option<IntKind>)
    ensures
        res == kind_of_name(n@),
{
    if str_eq(n, "i8") {
        Some(IntKind::I8)
    } else if str_eq(n, "i16") {
        Some(IntKind::I16)
    } else if str_eq(n, "i32") {
        Some(IntKind::I32)
    } else if str_eq(n, "i64") {
        Some(IntKind::I64)
    } else if str_eq(n, "i128") {
        Some(IntKind::I128)
    } else if str_eq(n, "isize") {
        Some(IntKind::Isize)
    } else if str_eq(n, "u8") {
        Some(IntKind::U8)
    } else if str_eq(n, "u16") {
        Some(IntKind::U16)
    } else if str_eq(n, "u32") {
        Some(IntKind::U32)
    } else if str_eq(n, "u64") {
        Some(IntKind::U64)
    } else if str_eq(n, "u128") {
        Some(IntKind::U128)
    } else if str_eq(n, "usize") {
        Some(IntKind::Usize)
    } else {
        None
    }
}

/// The name of the type of a kind of integer (see `kind_name`).
pub fn name_of_kind(k: IntKind) -> (res: &'static str)
    ensures
        res@ == kind_name(k),
{
    match k {
        IntKind::I8 => "i8",
        IntKind::I16 => "i16",
        IntKind::I32 => "i32",
        IntKind::I64 => "i64",
        IntKind::I128 => "i128",
        IntKind::Isize => "isize",
        IntKind::U8 => "u8",
        IntKind::U16 => "u16",
        IntKind::U32 => "u32",
        IntKind::U64 => "u64",
        IntKind::U128 => "u128",
        IntKind::Usize => "usize",
    }
}

/// The kind and the number of an integer value.
pub open spec fn int_of(v: ValueView) -> Option<(IntKind, int)> {
    match v {
        ValueView::I8(x) => Some((IntKind::I8, x as int)),
        ValueView::I16(x) => Some((IntKind::I16, x as int)),
        ValueView::I32(x) => Some((IntKind::I32, x as int)),
        ValueView::I64(x) => Some((IntKind::I64, x as int)),
        ValueView::I128(x) => Some((IntKind::I128, x as int)),
        ValueView::Isize(x) => Some((IntKind::Isize, x as int)),
        ValueView::U8(x) => Some((IntKind::U8, x as int)),
        ValueView::U16(x) => Some((IntKind::U16, x as int)),
        ValueView::U32(x) => Some((IntKind::U32, x as int)),
        ValueView::U64(x) => Some((IntKind::U64, x as int)),
        ValueView::U128(x) => Some((IntKind::U128, x as int)),
        ValueView::Usize(x) => Some((IntKind::Usize, x as int)),
        _ => None,
    }
}

/// The integer value of a kind and a number in its range.
pub open spec fn make_int(k: IntKind, i: int) -> ValueView {
    match k {
        IntKind::I8 => ValueView::I8(i as i8),
        IntKind::I16 => ValueView::I16(i as i16),
        IntKind::I32 => ValueView::I32(i as i32),
        IntKind::I64 => ValueView::I64(i as i64),
        IntKind::I128 => ValueView::I128(i as i128),
        IntKind::Isize => ValueView::Isize(i as isize),
        IntKind::U8 => ValueView::U8(i as u8),
        IntKind::U16 => ValueView::U16(i as u16),
        IntKind::U32 => ValueView::U32(i as u32),
        IntKind::U64 => ValueView::U64(i as u64),
        IntKind::U128 => ValueView::U128(i as u128),
        IntKind::Usize => ValueView::Usize(i as usize),
    }
}

/// The sign and size of an integer value.
fn int_parts(v: &Value) -> (res: Option<(IntKind, bool, u128)>)
    ensures
        match int_of(value_view(*v)) {
            Some((k, i)) => res matches Some((k2, neg, mag)) && k2 == k && (if neg {
                -(mag as int)
            } else {
                mag as int
            }) == i && (neg ==> mag > 0),
            None => res is None,
        },
{
    match v {
        Value::I8(x) => Some(signed_parts(IntKind::I8, *x as i128)),
        Value::I16(x) => Some(signed_parts(IntKind::I16, *x as i128)),
        Value::I32(x) => Some(signed_parts(IntKind::I32, *x as i128)),
        Value::I64(x) => Some(signed_parts(IntKind::I64, *x as i128)),
        Value::I128(x) => Some(signed_parts(IntKind::I128, *x)),
        Value::Isize(x) => Some(signed_parts(IntKind::Isize, *x as i128)),
        Value::U8(x) => Some((IntKind::U8, false, *x as u128)),
        Value::U16(x) => Some((IntKind::U16, false, *x as u128)),
        Value::U32(x) => Some((IntKind::U32, false, *x as u128)),
        Value::U64(x) => Some((IntKind::U64, false, *x as u128)),
        Value::U128(x) => Some((IntKind::U128, false, *x)),
        Value::Usize(x) => Some((IntKind::Usize, false, *x as u128)),
        _ => None,
    }
}

fn signed_parts(k: IntKind, x: i128) -> (res: (IntKind, bool, u128))
    ensures
        res.0 == k,
        (if res.1 {
            -(res.2 as int)
        } else {
            res.2 as int
        }) == x as int,
        res.1 ==> res.2 > 0,
{
    if x < 0 {
        if x == i128::MIN {
            (k, true, 170141183460469231731687303715884105728u128)
        } else {
            (k, true, (-x) as u128)
        }
    } else {
        (k, false, x as u128)
    }
}

/// The value of a kind holding a signed number, if the kind has it.
fn make_value(k: IntKind, neg: bool, mag: u128) -> (res: Option<Value>)
    ensures
        ({
            let i = if neg {
                -(mag as int)
            } else {
                mag as int
            };
            if in_kind(k, i) {
                res matches Some(v) && value_view(v) == make_int(k, i)
            } else {
                res is None
            }
        }),
{
    let ghost i = if neg {
        -(mag as int)
    } else {
        mag as int
    };
    if neg && mag > 0 {
        if mag > 170141183460469231731687303715884105728u128 {
            return None;
        }
        let x: i128 = if mag == 170141183460469231731687303715884105728u128 {
            i128::MIN
        } else {
            -(mag as i128)
        };
        assert(x as int == i);
        match k {
            IntKind::I8 => if x >= i8::MIN as i128 && x <= i8::MAX as i128 {
                Some(Value::I8(x as i8))
            } else {
                None
            },
            IntKind::I16 => if x >= i16::MIN as i128 && x <= i16::MAX as i128 {
                Some(Value::I16(x as i16))
            } else {
                None
            },
            IntKind::I32 => if x >= i32::MIN as i128 && x <= i32::MAX as i128 {
                Some(Value::I32(x as i32))
            } else {
                None
            },
            IntKind::I64 => if x >= i64::MIN as i128 && x <= i64::MAX as i128 {
                Some(Value::I64(x as i64))
            } else {
                None
            },
            IntKind::I128 => Some(Value::I128(x)),
            IntKind::Isize => if x >= isize::MIN as i128 && x <= isize::MAX as i128 {
                Some(Value::Isize(x as isize))
            } else {
                None
            },
            _ => None,
        }
    } else {
        assert(mag as int == i);
        match k {
            IntKind::I8 => if mag <= i8::MAX as u128 {
                Some(Value::I8(mag as i8))
            } else {
                None
            },
            IntKind::I16 => if mag <= i16::MAX as u128 {
                Some(Value::I16(mag as i16))
            } else {
                None
            },
            IntKind::I32 => if mag <= i32::MAX as u128 {
                Some(Value::I32(mag as i32))
            } else {
                None
            },
            IntKind::I64 => if mag <= i64::MAX as u128 {
                Some(Value::I64(mag as i64))
            } else {
                None
            },
            IntKind::I128 => if mag <= i128::MAX as u128 {
                Some(Value::I128(mag as i128))
            } else {
                None
            },
            IntKind::Isize => if mag <= isize::MAX as u128 {
                Some(Value::Isize(mag as isize))
            } else {
                None
            },
            IntKind::U8 => if mag <= u8::MAX as u128 {
                Some(Value::U8(mag as u8))
            } else {
                None
            },
            IntKind::U16 => if mag <= u16::MAX as u128 {
                Some(Value::U16(mag as u16))
            } else {
                None
            },
            IntKind::U32 => if mag <= u32::MAX as u128 {
                Some(Value::U32(mag as u32))
            } else {
                None
            },
            IntKind::U64 => if mag <= u64::MAX as u128 {
                Some(Value::U64(mag as u64))
            } else {
                None
            },
            IntKind::U128 => Some(Value::U128(mag)),
            IntKind::Usize => if mag <= usize::MAX as u128 {
                Some(Value::Usize(mag as usize))
            } else {
                None
            },
        }
    }
}


/// The type of a value: the type of its integer kind, `str`, `bool`,
/// `type`, `fn<#null, R>` or `proc<#null, R>` for a procedure returning
/// `R`, the class of an instance, `#null`; a returned value has the type of
/// the value.
pub open spec fn type_of_value(v: ValueView) -> TypeView
    decreases v,
{
    match int_of(v) {
        Some((k, _)) => named_type(kind_name(k)),
        None => match v {
            ValueView::Str(_) => named_type("str"@),
            ValueView::Bool(_) => named_type("bool"@),
            ValueView::Type(_) => named_type("type"@),
            ValueView::Proc { is_fn, return_type, .. } => TypeView::Instance {
                name: if is_fn {
                    "fn"@
                } else {
                    "proc"@
                },
                type_args: seq![named_type("#null"@), return_type],
                inst_attrs: Seq::empty(),
                implementation: None,
            },
            ValueView::ClassInstance { type_, .. } => type_,
            ValueView::Return(b) => type_of_value(*b),
            _ => named_type("#null"@),
        },
    }
}

/// Whether a value is a number; booleans count as numbers.
pub open spec fn is_num_view(v: ValueView) -> bool {
    int_of(v) is Some || v is Bool
}

impl Value {
    /// Whether the value is a number (see `is_num_view`).
    pub fn is_num(&self) -> (res: bool)
        ensures
            res == is_num_view(value_view(*self)),
    {
        match self {
            Value::I8(_) | Value::I16(_) | Value::I32(_) | Value::I64(_) | Value::I128(_)
            | Value::Isize(_) | Value::U8(_) | Value::U16(_) | Value::U32(_) | Value::U64(_)
            | Value::U128(_) | Value::Usize(_) | Value::Bool(_) => true,
            _ => false,
        }
    }

    /// The type of the value (see `type_of_value`).
    pub fn get_type_obj(&self) -> (res: Type)
        ensures
            type_view(res) == type_of_value(value_view(*self)),
        decreases self,
    {
        match self {
            Value::I8(_) => Type::from_str("i8"),
            Value::I16(_) => Type::from_str("i16"),
            Value::I32(_) => Type::from_str("i32"),
            Value::I64(_) => Type::from_str("i64"),
            Value::I128(_) => Type::from_str("i128"),
            Value::Isize(_) => Type::from_str("isize"),
            Value::U8(_) => Type::from_str("u8"),
            Value::U16(_) => Type::from_str("u16"),
            Value::U32(_) => Type::from_str("u32"),
            Value::U64(_) => Type::from_str("u64"),
            Value::U128(_) => Type::from_str("u128"),
            Value::Usize(_) => Type::from_str("usize"),
            Value::Str(_) => Type::from_str("str"),
            Value::Bool(_) => Type::from_str("bool"),
            Value::Type(_) => Type::from_str("type"),
            Value::Proc { is_fn, return_type, .. } => {
                let type_args = vec![Type::null(), clone_type(return_type)];
                let res = Type::Instance {
                    name: if *is_fn {
                        String::from_str("fn")
                    } else {
                        String::from_str("proc")
                    },
                    type_args,
                    inst_attrs: Vec::new(),
                    implementation: None,
                };
                proof {
                    lemma_types_view(type_args@);
                    assert(types_view(type_args@) =~= seq![named_type("#null"@), type_view(*return_type)]);
                    assert(attrs_view(Seq::<(String, Element)>::empty()) =~= Seq::empty());
                }
                res
            },
            Value::ClassInstance { type_, .. } => clone_type(type_),
            Value::Null => Type::null(),
            Value::Return(b) => b.get_type_obj(),
        }
    }

    /// The type of the value, as a value.
    pub fn get_type(&self) -> (res: Value)
        ensures
            value_view(res) == ValueView::Type(type_of_value(value_view(*self))),
    {
        Value::Type(self.get_type_obj())
    }
}

} // verus!
