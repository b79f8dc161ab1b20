use vstd::prelude::*;
use vstd::string::*;
use crate::element::{Element, ElementView, TypeView, elem_view, type_view, clone_args, clone_elements, clone_type};
use crate::errors::{ZyxtError, internal_error};
use crate::position::{Position, default_pos_view};
use crate::text::{str_eq, signed_decimal};
use crate::token::OprType;
use crate::typeobj::{Type, named_type, type_text};
use crate::value::{
    Value, ValueView, value_view, int_of, make_int, kind_of_name, kind_for_name, make_value,
    type_of_value, clone_value,
};
use crate::value::arith::{num_opr_spec, mul_spec, div, modulo};
use crate::value::compare::{
    gt_spec, lt_spec, eq_spec, not_spec, or_spec, gt, gteq, lt, lteq, eq, noteq, iseq, isnteq,
};
use crate::value::concat::{concat_spec, concat};
use crate::value::display::bool_text;
use crate::value::logic::{xor_fails, xor_spec, xor};
use crate::value::typecast::{res_view, typecast_spec, typecast, parse_int_spec, parse_int};
use crate::value::unary::{
    un_not_diverges, un_plus_spec, un_minus_spec, un_not_spec, un_plus, un_minus, un_not,
};
use crate::value::utils::{OprError, OprErrorView};

verus! {

/// Whether a binary operation on the values would stop the program: `&&`
/// and `||` are not operations on values, and `^` may fail (see `xor_fails`).
pub open spec fn bin_opr_fails(opr: OprType, x: ValueView, y: ValueView) -> bool
    decreases x,
{
    match x {
        ValueView::Return(b) => bin_opr_fails(opr, *b, y),
        _ => opr == OprType::And || opr == OprType::Or || (opr == OprType::Xor && xor_fails(x, y)),
    }
}

/// What a binary operation on two values gives, a returned value taken as
/// the value it holds.
pub open spec fn bin_opr_spec(opr: OprType, x: ValueView, y: ValueView) -> Result<ValueView, OprErrorView>
    decreases x,
{
    match x {
        ValueView::Return(b) => bin_opr_spec(opr, *b, y),
        _ => match opr {
            OprType::Plus => num_opr_spec(OprType::Plus, x, y),
            OprType::Minus => num_opr_spec(OprType::Minus, x, y),
            OprType::AstMult | OprType::DotMult | OprType::CrossMult => mul_spec(x, y),
            OprType::Div | OprType::FractDiv => num_opr_spec(OprType::Div, x, y),
            OprType::Modulo => num_opr_spec(OprType::Modulo, x, y),
            OprType::Eq => eq_spec(x, y),
            OprType::Noteq => not_spec(eq_spec(x, y)),
            OprType::Lt => lt_spec(x, y),
            OprType::Lteq => or_spec(lt_spec(x, y), eq_spec(x, y)),
            OprType::Gt => gt_spec(x, y),
            OprType::Gteq => or_spec(gt_spec(x, y), eq_spec(x, y)),
            OprType::Iseq => Ok(ValueView::Bool(x == y)),
            OprType::Isnteq => Ok(ValueView::Bool(x != y)),
            OprType::Xor => xor_spec(x, y),
            OprType::Concat => concat_spec(x, y),
            OprType::TypeCast => typecast_spec(x, y),
            _ => Err(OprErrorView::NoImplForOpr),
        },
    }
}

/// Whether a unary operation on the value would never end (see `un_not_diverges`).
pub open spec fn un_opr_fails(opr: OprType, x: ValueView) -> bool
    decreases x,
{
    match x {
        ValueView::Return(b) => un_opr_fails(opr, *b),
        _ => opr == OprType::Not && un_not_diverges(x),
    }
}

/// What a unary operation on a value gives, a returned value taken as the
/// value it holds.
pub open spec fn un_opr_spec(opr: OprType, x: ValueView) -> Result<ValueView, OprErrorView>
    decreases x,
{
    match x {
        ValueView::Return(b) => un_opr_spec(opr, *b),
        _ => match opr {
            OprType::MinusSign => un_minus_spec(x),
            OprType::PlusSign => un_plus_spec(x),
            OprType::Not => un_not_spec(x),
            _ => Err(OprErrorView::NoImplForOpr),
        },
    }
}

/// Whether calling the value with that many arguments would stop the
/// program: a procedure is called by the interpreter, not as a value, and
/// calling a type or an instance with one argument is not implemented.
pub open spec fn call_fails(x: ValueView, n: nat) -> bool
    decreases x,
{
    n == 1 && match x {
        ValueView::Return(b) => call_fails(*b, n),
        ValueView::Proc { .. } | ValueView::Type(_) | ValueView::ClassInstance { .. } => true,
        _ => false,
    }
}

/// What calling a value gives: an integer called with one argument
/// multiplies it; nothing else can be called.
pub open spec fn call_spec(x: ValueView, args: Seq<ValueView>) -> Result<ValueView, OprErrorView>
    decreases x,
{
    if args.len() == 1 {
        match x {
            ValueView::Return(b) => call_spec(*b, args),
            _ => if int_of(x) is Some {
                mul_spec(x, args[0])
            } else {
                Err(OprErrorView::NoImplForOpr)
            },
        }
    } else {
        Err(OprErrorView::NoImplForOpr)
    }
}

/// The value each primitive type starts from: zero, the empty text,
/// `false`, `null`, or the type `#null` for `type`; other types have none.
pub open spec fn default_spec(t: TypeView) -> Option<ValueView> {
    match t {
        TypeView::Instance { name, .. } => match kind_of_name(name) {
            Some(k) => Some(make_int(k, 0)),
            None => if name == "str"@ {
                Some(ValueView::Str(Seq::empty()))
            } else if name == "bool"@ {
                Some(ValueView::Bool(false))
            } else if name == "#null"@ || name == "#any"@ {
                Some(ValueView::Null)
            } else if name == "type"@ {
                Some(ValueView::Type(named_type("#null"@)))
            } else {
                None
            },
        },
        TypeView::Definition { .. } => None,
    }
}

/// The value a literal of the type with the given text stands for: the
/// integer it spells, the text itself, or `true` exactly for the text
/// `true`; other types, and integers that do not parse, have none.
pub open spec fn content_spec(t: TypeView, c: Seq<char>) -> Option<ValueView> {
    match t {
        TypeView::Instance { name, .. } => match kind_of_name(name) {
            Some(k) => match parse_int_spec(c, k) {
                Some(i) => Some(make_int(k, i)),
                None => None,
            },
            None => if name == "str"@ {
                Some(ValueView::Str(c))
            } else if name == "bool"@ {
                Some(ValueView::Bool(c == "true"@))
            } else {
                None
            },
        },
        TypeView::Definition { .. } => None,
    }
}

/// Whether the value is, or returns, an instance of a class.
pub open spec fn holds_instance(x: ValueView) -> bool
    decreases x,
{
    match x {
        ValueView::Return(b) => holds_instance(*b),
        ValueView::ClassInstance { .. } => true,
        _ => false,
    }
}

/// Whether the value is, or returns, an instance of a class (see `holds_instance`).
pub fn value_holds_instance(x: &Value) -> (res: bool)
    ensures
        res == holds_instance(value_view(*x)),
    decreases x,
{
    match x {
        Value::Return(b) => value_holds_instance(&**b),
        Value::ClassInstance { .. } => true,
        _ => false,
    }
}

/// The text a literal of the value holds: an integer in decimal, a text as
/// itself, a boolean as `true` or `false`, a type as written.
pub open spec fn literal_text(x: ValueView) -> Seq<char> {
    match int_of(x) {
        Some((_, i)) => signed_decimal(i),
        None => match x {
            ValueView::Str(s) => s,
            ValueView::Bool(b) => bool_text(b),
            ValueView::Type(t) => type_text(t),
            _ => Seq::empty(),
        },
    }
}

/// The syntax tree that stands for a value: a literal of its type and text,
/// a procedure, the null element for `null`, a `return` of the value for a
/// returned value; none of them has a place in a source.
pub open spec fn value_elem(x: ValueView) -> ElementView
    decreases x,
{
    match x {
        ValueView::Proc { is_fn, args, return_type, content } => ElementView::Procedure {
            position: default_pos_view(),
            raw: Seq::empty(),
            is_fn,
            args,
            return_type,
            content,
        },
        ValueView::Null => ElementView::NullElement,
        ValueView::Return(b) => ElementView::Return {
            position: default_pos_view(),
            raw: Seq::empty(),
            value: Box::new(value_elem(*b)),
        },
        _ => ElementView::Literal {
            position: default_pos_view(),
            raw: literal_text(x),
            type_: type_of_value(x),
            content: literal_text(x),
        },
    }
}

impl Value {
    /// Calls the value with arguments (see `call_spec`).
    pub fn call(&self, args: Vec<Value>) -> (res: Result<Value, OprError>)
        requires
            !call_fails(value_view(*self), args@.len()),
        ensures
            res_view(res) == call_spec(value_view(*self), args@.map_values(|a: Value| value_view(a))),
        decreases self,
    {
        let ghost av = args@.map_values(|a: Value| value_view(a));
        if args.len() == 1 {
            match self {
                Value::Return(b) => b.call(args),
                Value::I8(_) | Value::I16(_) | Value::I32(_) | Value::I64(_) | Value::I128(_)
                | Value::Isize(_) | Value::U8(_) | Value::U16(_) | Value::U32(_) | Value::U64(_)
                | Value::U128(_) | Value::Usize(_) => {
                    let a = clone_value(&args[0]);
                    proof {
                        assert(av[0] == value_view(args@[0]));
                    }
                    crate::value::arith::mul(self, a)
                },
                _ => Err(OprError::NoImplForOpr),
            }
        } else {
            Err(OprError::NoImplForOpr)
        }
    }

    /// A unary operation on the value (see `un_opr_spec`).
    pub fn un_opr(&self, type_: &OprType) -> (res: Result<Value, OprError>)
        requires
            !un_opr_fails(*type_, value_view(*self)),
        ensures
            res_view(res) == un_opr_spec(*type_, value_view(*self)),
        decreases self,
    {
        if let Value::Return(v) = self {
            return v.un_opr(type_);
        }
        match type_ {
            OprType::MinusSign => un_minus(self),
            OprType::PlusSign => un_plus(self),
            OprType::Not => un_not(self),
            _ => Err(OprError::NoImplForOpr),
        }
    }

    /// A binary operation on the value and another (see `bin_opr_spec`).
    pub fn bin_opr(&self, type_: &OprType, other: Value) -> (res: Result<Value, OprError>)
        requires
            !bin_opr_fails(*type_, value_view(*self), value_view(other)),
        ensures
            res_view(res) == bin_opr_spec(*type_, value_view(*self), value_view(other)),
        decreases self,
    {
        if let Value::Return(v) = self {
            return v.bin_opr(type_, other);
        }
        match type_ {
            OprType::Plus => crate::value::arith::add(self, other),
            OprType::Minus => crate::value::arith::sub(self, other),
            OprType::AstMult | OprType::DotMult | OprType::CrossMult => crate::value::arith::mul(self, other),
            OprType::Div | OprType::FractDiv => div(self, other),
            OprType::Modulo => modulo(self, other),
            OprType::Eq => eq(self, other),
            OprType::Noteq => noteq(self, other),
            OprType::Lt => lt(self, other),
            OprType::Lteq => lteq(self, other),
            OprType::Gt => gt(self, other),
            OprType::Gteq => gteq(self, other),
            OprType::Iseq => iseq(self, other),
            OprType::Isnteq => isnteq(self, other),
            OprType::Xor => xor(self, &other),
            OprType::Concat => concat(self, other),
            OprType::TypeCast => typecast(self, other),
            _ => Err(OprError::NoImplForOpr),
        }
    }

    /// The value a primitive type starts from (see `default_spec`); error
    /// 0.0 for a type that has none. The arbitrary-size integer types
    /// `ibig` and `ubig` and the floating-point types have no value in this
    /// library, so they are among those.
    pub fn default(type_: Type) -> (res: Result<Value, ZyxtError>)
        ensures
            match default_spec(type_view(type_)) {
                Some(v) => res matches Ok(r) && value_view(r) == v,
                None => res matches Err(e) && e.code@ == "0.0"@,
            },
    {
        match &type_ {
            Type::Instance { name, .. } => {
                match kind_for_name(name.as_str()) {
                    Some(k) => {
                        return match make_value(k, false, 0) {
                            Some(v) => Ok(v),
                            None => Err(internal_error("no zero for the integer type")),
                        };
                    },
                    None => {},
                }
                if str_eq(name.as_str(), "str") {
                    Ok(Value::Str(String::new()))
                } else if str_eq(name.as_str(), "bool") {
                    Ok(Value::Bool(false))
                } else if str_eq(name.as_str(), "#null") || str_eq(name.as_str(), "#any") {
                    Ok(Value::Null)
                } else if str_eq(name.as_str(), "type") {
                    Ok(Value::Type(Type::null()))
                } else {
                    Err(internal_error("no default value for the type"))
                }
            },
            Type::Definition { .. } => Err(internal_error("no default value for a class")),
        }
    }

    /// The value of a literal of the type with the given text (see
    /// `content_spec`); error 0.0 where there is none. Values of the
    /// arbitrary-size integer types `ibig` and `ubig` are not held by this
    /// library, so a number literal too large for `u128`, which the parser
    /// types `ibig`, is error 0.0 here.
    pub fn from_type_content(type_: Type, content: String) -> (res: Result<Value, ZyxtError>)
        ensures
            match content_spec(type_view(type_), content@) {
                Some(v) => res matches Ok(r) && value_view(r) == v,
                None => res matches Err(e) && e.code@ == "0.0"@,
            },
    {
        match &type_ {
            Type::Instance { name, .. } => {
                match kind_for_name(name.as_str()) {
                    Some(k) => {
                        return match parse_int(content.as_str(), k) {
                            Some(v) => Ok(v),
                            None => Err(internal_error("literal does not fit its type")),
                        };
                    },
                    None => {},
                }
                if str_eq(name.as_str(), "str") {
                    Ok(Value::Str(content))
                } else if str_eq(name.as_str(), "bool") {
                    Ok(Value::Bool(str_eq(content.as_str(), "true")))
                } else {
                    Err(internal_error("no literal of the type"))
                }
            },
            Type::Definition { .. } => Err(internal_error("no literal of a class")),
        }
    }

    /// The text a literal of the value holds (see `literal_text`).
    fn literal_text(&self) -> (res: String)
        ensures
            res@ == literal_text(value_view(*self)),
    {
        match self {
            Value::Str(s) => s.clone(),
            Value::Type(t) => t.to_text(),
            Value::Proc { .. } | Value::ClassInstance { .. } | Value::Null | Value::Return(_) => String::new(),
            _ => self.to_text(),
        }
    }

    /// The syntax tree that stands for the value (see `value_elem`).
    pub fn as_element(&self) -> (res: Element)
        requires
            !holds_instance(value_view(*self)),
        ensures
            elem_view(res) == value_elem(value_view(*self)),
        decreases self,
    {
        match self {
            Value::Proc { is_fn, args, return_type, content } => Element::Procedure {
                position: Position::default_pos(),
                raw: String::new(),
                is_fn: *is_fn,
                args: clone_args(args),
                return_type: clone_type(return_type),
                content: clone_elements(content),
            },
            Value::Null => Element::NullElement,
            Value::Return(b) => Element::Return {
                position: Position::default_pos(),
                raw: String::new(),
                value: Box::new(b.as_element()),
            },
            _ => {
                let text = self.literal_text();
                Element::Literal {
                    position: Position::default_pos(),
                    raw: text.clone(),
                    type_: self.get_type_obj(),
                    content: text,
                }
            },
        }
    }
}

} // verus!
