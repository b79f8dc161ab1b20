use vstd::prelude::*;
use vstd::string::*;
use crate::position::Position;
use crate::element::{Element, ElementView, elem_view, pos_of, raw_of};
use crate::token::Token;
use crate::value::{Value, value_view, type_of_value};
use crate::value::display::value_text;
use crate::typeobj::type_text;
use crate::text::{push_char, u128_to_decimal, decimal};

verus! {

/// An error of the compiler or the interpreter: its code (`"2.1.0"` and the
/// like), its message, and where in the source it arose, if known.
#[derive(Debug)]
pub struct ZyxtError {
    pub code: String,
    pub message: String,
    pub position: Option<Position>,
    pub raw: String,
}

/// Three pieces of text, one after the other.
fn text3(a: &str, b: &str, c: &str) -> (res: String)
    ensures
        res@ == a@ + b@ + c@,
{
    let mut s = String::from_str(a);
    s.append(b);
    s.append(c);
    s
}

/// Five pieces of text, one after the other.
fn text5(a: &str, b: &str, c: &str, d: &str, e: &str) -> (res: String)
    ensures
        res@ == a@ + b@ + c@ + d@ + e@,
{
    let mut s = String::from_str(a);
    s.append(b);
    s.append(c);
    s.append(d);
    s.append(e);
    s
}

/// Seven pieces of text, one after the other.
fn text7(a: &str, b: &str, c: &str, d: &str, e: &str, f: &str, g: &str) -> (res: String)
    ensures
        res@ == a@ + b@ + c@ + d@ + e@ + f@ + g@,
{
    let mut s = String::from_str(a);
    s.append(b);
    s.append(c);
    s.append(d);
    s.append(e);
    s.append(f);
    s.append(g);
    s
}

/// A one-character string.
fn char_text(c: char) -> (res: String)
    ensures
        res@ == seq![c],
{
    let mut s = String::new();
    push_char(&mut s, c);
    proof {
        assert(Seq::<char>::empty().push(c) =~= seq![c]);
    }
    s
}

/// An error with the given code and message, not yet tied to a place.
pub fn new_error(code: &str, message: String) -> (res: ZyxtError)
    ensures
        res.code@ == code@,
        res.message == message,
        res.position.is_none(),
        res.raw@ == Seq::<char>::empty(),
{
    ZyxtError { code: String::from_str(code), message, position: None, raw: String::new() }
}

/// An internal error with the given explanation (error 0.0): what stops
/// the compiler or the interpreter itself.
pub fn internal_error(what: &str) -> (res: ZyxtError)
    ensures
        res.code@ == "0.0"@,
{
    error_0_0(String::from_str(what))
}

impl ZyxtError {
    /// The same error, tied to where a syntax tree starts and its text; the
    /// null element has no place, which is an internal error.
    pub fn with_element(self, e: &Element) -> (res: ZyxtError)
        ensures
            e is NullElement ==> res.code@ == "0.0"@,
            !(e is NullElement) ==> res.code == self.code && res.message == self.message
                && (res.position matches Some(p) && p@ == pos_of(elem_view(*e))) && res.raw@
                == raw_of(elem_view(*e)),
    {
        match e {
            Element::NullElement => internal_error("null element"),
            _ => {
                let raw = e.get_raw();
                self.with_pos_and_raw(e.get_pos(), &raw)
            },
        }
    }

    /// The same error, tied to where a token starts and its text.
    pub fn with_token(self, t: &Token) -> (res: ZyxtError)
        ensures
            res.code == self.code,
            res.message == self.message,
            res.position == Some(t.position),
            res.raw@ == t.spec_raw(),
    {
        let raw = t.get_raw();
        self.with_pos_and_raw(&t.position, &raw)
    }

    /// The same error, tied to a place in the source and the text found there.
    pub fn with_pos_and_raw(self, position: &Position, raw: &String) -> (res: ZyxtError)
        ensures
            res.code == self.code,
            res.message == self.message,
            res.position == Some(*position),
            res.raw == *raw,
    {
        ZyxtError {
            code: self.code,
            message: self.message,
            position: Some(position.clone()),
            raw: raw.clone(),
        }
    }
}

/// Rust error: error 0.0.
pub fn error_0_0(stack: String) -> (res: ZyxtError)
    ensures
        res.code@ == "0.0"@,
        res.message@ == "Internal error: \n"@ + stack@ + ""@,
        res.position.is_none(),
        res.raw@ == Seq::<char>::empty(),
{

    let message = text3("Internal error: \n", stack.as_str(), "");
    new_error("0.0", message)
}

/// No file given: error 0.1.
pub fn error_0_1() -> (res: ZyxtError)
    ensures
        res.code@ == "0.1"@,
        res.message@ == "No file given"@,
        res.position.is_none(),
        res.raw@ == Seq::<char>::empty(),
{

    let message = String::from_str("No file given");
    new_error("0.1", message)
}

/// File does not exist: error 1.0.
pub fn error_1_0(filename: String) -> (res: ZyxtError)
    ensures
        res.code@ == "1.0"@,
        res.message@ == "File `"@ + filename@ + "` does not exist"@,
        res.position.is_none(),
        res.raw@ == Seq::<char>::empty(),
{

    let message = text3("File `", filename.as_str(), "` does not exist");
    new_error("1.0", message)
}

/// File cannot be opened: error 1.1.
pub fn error_1_1(filename: String) -> (res: ZyxtError)
    ensures
        res.code@ == "1.1"@,
        res.message@ == "File `"@ + filename@ + "` cannot be opened"@,
        res.position.is_none(),
        res.raw@ == Seq::<char>::empty(),
{

    let message = text3("File `", filename.as_str(), "` cannot be opened");
    new_error("1.1", message)
}

/// Parentheses not closed properly (try swapping): error 2.0.0.
pub fn error_2_0_0(paren1: char, paren2: char) -> (res: ZyxtError)
    ensures
        res.code@ == "2.0.0"@,
        res.message@ == "Parentheses `"@ + seq![paren1] + "` and `"@ + seq![paren2] + "` not closed properly; try swapping them"@,
        res.position.is_none(),
        res.raw@ == Seq::<char>::empty(),
{
    let paren1_text = char_text(paren1);
    let paren2_text = char_text(paren2);
    let message = text5("Parentheses `", paren1_text.as_str(), "` and `", paren2_text.as_str(), "` not closed properly; try swapping them");
    new_error("2.0.0", message)
}

/// Parenthesis not closed: error 2.0.1.
pub fn error_2_0_1(paren: char) -> (res: ZyxtError)
    ensures
        res.code@ == "2.0.1"@,
        res.message@ == "Parenthesis `"@ + seq![paren] + "` not closed"@,
        res.position.is_none(),
        res.raw@ == Seq::<char>::empty(),
{
    let paren_text = char_text(paren);
    let message = text3("Parenthesis `", paren_text.as_str(), "` not closed");
    new_error("2.0.1", message)
}

/// Parenthesis not opened: error 2.0.2.
pub fn error_2_0_2(paren: char) -> (res: ZyxtError)
    ensures
        res.code@ == "2.0.2"@,
        res.message@ == "Parenthesis `"@ + seq![paren] + "` not opened"@,
        res.position.is_none(),
        res.raw@ == Seq::<char>::empty(),
{
    let paren_text = char_text(paren);
    let message = text3("Parenthesis `", paren_text.as_str(), "` not opened");
    new_error("2.0.2", message)
}

/// Unexpected ident (generic): error 2.1.0.
pub fn error_2_1_0(ident: String) -> (res: ZyxtError)
    ensures
        res.code@ == "2.1.0"@,
        res.message@ == "Unexpected ident `"@ + ident@ + "`"@,
        res.position.is_none(),
        res.raw@ == Seq::<char>::empty(),
{

    let message = text3("Unexpected ident `", ident.as_str(), "`");
    new_error("2.1.0", message)
}

/// Ident the lexer did not recognise: error 2.1.1.
pub fn error_2_1_1(ident: String) -> (res: ZyxtError)
    ensures
        res.code@ == "2.1.1"@,
        res.message@ == "Ident `"@ + ident@ + "` not recognised by lexer"@,
        res.position.is_none(),
        res.raw@ == Seq::<char>::empty(),
{

    let message = text3("Ident `", ident.as_str(), "` not recognised by lexer");
    new_error("2.1.1", message)
}

/// Dot at the end of an expression: error 2.1.2.
pub fn error_2_1_2() -> (res: ZyxtError)
    ensures
        res.code@ == "2.1.2"@,
        res.message@ == "Stray `.` at end of expression"@,
        res.position.is_none(),
        res.raw@ == Seq::<char>::empty(),
{

    let message = String::from_str("Stray `.` at end of expression");
    new_error("2.1.2", message)
}

/// Binary operator at the start or end of an expression: error 2.1.3.
pub fn error_2_1_3(ident: String) -> (res: ZyxtError)
    ensures
        res.code@ == "2.1.3"@,
        res.message@ == "Stray `"@ + ident@ + "` binary operator at start/end of expression"@,
        res.position.is_none(),
        res.raw@ == Seq::<char>::empty(),
{

    let message = text3("Stray `", ident.as_str(), "` binary operator at start/end of expression");
    new_error("2.1.3", message)
}

/// Unary operator at the start or end of an expression: error 2.1.4.
pub fn error_2_1_4(ident: String) -> (res: ZyxtError)
    ensures
        res.code@ == "2.1.4"@,
        res.message@ == "Stray `"@ + ident@ + "` unary operator at start/end of expression"@,
        res.position.is_none(),
        res.raw@ == Seq::<char>::empty(),
{

    let message = text3("Stray `", ident.as_str(), "` unary operator at start/end of expression");
    new_error("2.1.4", message)
}

/// Declaration at the start or end of an expression: error 2.1.5.
pub fn error_2_1_5() -> (res: ZyxtError)
    ensures
        res.code@ == "2.1.5"@,
        res.message@ == "Stray `:=` at start/end of expression"@,
        res.position.is_none(),
        res.raw@ == Seq::<char>::empty(),
{

    let message = String::from_str("Stray `:=` at start/end of expression");
    new_error("2.1.5", message)
}

/// Non-flag between the first flag and the declared variable: error 2.1.6.
pub fn error_2_1_6(ident: String) -> (res: ZyxtError)
    ensures
        res.code@ == "2.1.6"@,
        res.message@ == "Stray `"@ + ident@ + "` between first flag and declared variable"@,
        res.position.is_none(),
        res.raw@ == Seq::<char>::empty(),
{

    let message = text3("Stray `", ident.as_str(), "` between first flag and declared variable");
    new_error("2.1.6", message)
}

/// `else` or `elif` after `else`: error 2.1.7.
pub fn error_2_1_7(ident: String) -> (res: ZyxtError)
    ensures
        res.code@ == "2.1.7"@,
        res.message@ == "`"@ + ident@ + "` detected after `else` keyword"@,
        res.position.is_none(),
        res.raw@ == Seq::<char>::empty(),
{

    let message = text3("`", ident.as_str(), "` detected after `else` keyword");
    new_error("2.1.7", message)
}

/// Block expected: error 2.1.8.
pub fn error_2_1_8(ident: String) -> (res: ZyxtError)
    ensures
        res.code@ == "2.1.8"@,
        res.message@ == "Block expected, not `"@ + ident@ + "`"@,
        res.position.is_none(),
        res.raw@ == Seq::<char>::empty(),
{

    let message = text3("Block expected, not `", ident.as_str(), "`");
    new_error("2.1.8", message)
}

/// `else` or `elif` without `if`: error 2.1.9.
pub fn error_2_1_9(ident: String) -> (res: ZyxtError)
    ensures
        res.code@ == "2.1.9"@,
        res.message@ == "Stray `"@ + ident@ + "` without starting `if`"@,
        res.position.is_none(),
        res.raw@ == Seq::<char>::empty(),
{

    let message = text3("Stray `", ident.as_str(), "` without starting `if`");
    new_error("2.1.9", message)
}

/// Stray comment start or end: error 2.1.10.
pub fn error_2_1_10(ident: String) -> (res: ZyxtError)
    ensures
        res.code@ == "2.1.10"@,
        res.message@ == "Stray unclosed/unopened `"@ + ident@ + "`"@,
        res.position.is_none(),
        res.raw@ == Seq::<char>::empty(),
{

    let message = text3("Stray unclosed/unopened `", ident.as_str(), "`");
    new_error("2.1.10", message)
}

/// Only variables can be deleted: error 2.1.11.
pub fn error_2_1_11(ident: String) -> (res: ZyxtError)
    ensures
        res.code@ == "2.1.11"@,
        res.message@ == "Only variables can be deleted (Got `"@ + ident@ + "`)"@,
        res.position.is_none(),
        res.raw@ == Seq::<char>::empty(),
{

    let message = text3("Only variables can be deleted (Got `", ident.as_str(), "`)");
    new_error("2.1.11", message)
}

/// Dereferenced variable cannot be deleted: error 2.1.12.
pub fn error_2_1_12(ident: String) -> (res: ZyxtError)
    ensures
        res.code@ == "2.1.12"@,
        res.message@ == "Cannot delete dereferenced variable (Got `"@ + ident@ + "`)"@,
        res.position.is_none(),
        res.raw@ == Seq::<char>::empty(),
{

    let message = text3("Cannot delete dereferenced variable (Got `", ident.as_str(), "`)");
    new_error("2.1.12", message)
}

/// Bar not closed: error 2.1.13.
pub fn error_2_1_13() -> (res: ZyxtError)
    ensures
        res.code@ == "2.1.13"@,
        res.message@ == "Opening bar not closed"@,
        res.position.is_none(),
        res.raw@ == Seq::<char>::empty(),
{

    let message = String::from_str("Opening bar not closed");
    new_error("2.1.13", message)
}

/// Extra values past a default value: error 2.1.14.
pub fn error_2_1_14(ident: String) -> (res: ZyxtError)
    ensures
        res.code@ == "2.1.14"@,
        res.message@ == "Extra values past default value (Got `"@ + ident@ + "`)"@,
        res.position.is_none(),
        res.raw@ == Seq::<char>::empty(),
{

    let message = text3("Extra values past default value (Got `", ident.as_str(), "`)");
    new_error("2.1.14", message)
}

/// Parameter name is not a variable: error 2.1.15.
pub fn error_2_1_15(ident: String) -> (res: ZyxtError)
    ensures
        res.code@ == "2.1.15"@,
        res.message@ == "Variable name isn't variable (Got `"@ + ident@ + "`)"@,
        res.position.is_none(),
        res.raw@ == Seq::<char>::empty(),
{

    let message = text3("Variable name isn't variable (Got `", ident.as_str(), "`)");
    new_error("2.1.15", message)
}

/// Keyword at the end of an expression: error 2.1.16.
pub fn error_2_1_16() -> (res: ZyxtError)
    ensures
        res.code@ == "2.1.16"@,
        res.message@ == "Expected an expression after the keyword"@,
        res.position.is_none(),
        res.raw@ == Seq::<char>::empty(),
{

    let message = String::from_str("Expected an expression after the keyword");
    new_error("2.1.16", message)
}

/// Class with arguments: error 2.1.17.
pub fn error_2_1_17() -> (res: ZyxtError)
    ensures
        res.code@ == "2.1.17"@,
        res.message@ == "Classes do not take arguments; use a struct"@,
        res.position.is_none(),
        res.raw@ == Seq::<char>::empty(),
{

    let message = String::from_str("Classes do not take arguments; use a struct");
    new_error("2.1.17", message)
}

/// Class or struct without a block: error 2.1.18.
pub fn error_2_1_18(keyword: String) -> (res: ZyxtError)
    ensures
        res.code@ == "2.1.18"@,
        res.message@ == "Block expected after `"@ + keyword@ + "`"@,
        res.position.is_none(),
        res.raw@ == Seq::<char>::empty(),
{

    let message = text3("Block expected after `", keyword.as_str(), "`");
    new_error("2.1.18", message)
}

/// Assignment without a variable name: error 2.2.
pub fn error_2_2() -> (res: ZyxtError)
    ensures
        res.code@ == "2.2"@,
        res.message@ == "Assignment without variable name"@,
        res.position.is_none(),
        res.raw@ == Seq::<char>::empty(),
{

    let message = String::from_str("Assignment without variable name");
    new_error("2.2", message)
}

/// Variable not defined: error 3.0.
pub fn error_3_0(varname: String) -> (res: ZyxtError)
    ensures
        res.code@ == "3.0"@,
        res.message@ == "Undefined variable `"@ + varname@ + "`"@,
        res.position.is_none(),
        res.raw@ == Seq::<char>::empty(),
{

    let message = text3("Undefined variable `", varname.as_str(), "`");
    new_error("3.0", message)
}

/// Binary operator not implemented for the types: error 4.0.0.
pub fn error_4_0_0(operator: String, type1: String, type2: String) -> (res: ZyxtError)
    ensures
        res.code@ == "4.0.0"@,
        res.message@ == "Operator "@ + operator@ + " not implemented for types `"@ + type1@ + "`, `"@ + type2@ + "`"@,
        res.position.is_none(),
        res.raw@ == Seq::<char>::empty(),
{

    let message = text7("Operator ", operator.as_str(), " not implemented for types `", type1.as_str(), "`, `", type2.as_str(), "`");
    new_error("4.0.0", message)
}

/// Unary operator not implemented for the type: error 4.0.1.
pub fn error_4_0_1(operator: String, type_: String) -> (res: ZyxtError)
    ensures
        res.code@ == "4.0.1"@,
        res.message@ == "Operator "@ + operator@ + " not implemented for type `"@ + type_@ + "`"@,
        res.position.is_none(),
        res.raw@ == Seq::<char>::empty(),
{

    let message = text5("Operator ", operator.as_str(), " not implemented for type `", type_.as_str(), "`");
    new_error("4.0.1", message)
}

/// Unfilled argument: error 2.3.
pub fn error_2_3(func: String, index: usize) -> (res: ZyxtError)
    ensures
        res.code@ == "2.3"@,
        res.message@ == "Unfilled argument #"@ + decimal(index as nat) + " of "@ + func@,
        res.position.is_none(),
        res.raw@ == Seq::<char>::empty(),
{
    let number = u128_to_decimal(index as u128);
    let mut message = String::from_str("Unfilled argument #");
    message.append(number.as_str());
    message.append(" of ");
    message.append(func.as_str());
    new_error("2.3", message)
}


/// An assignment of a value of another type than the variable's: error 4.3.
pub fn error_4_3(varname: String, var_type: String, value_type: String) -> (res: ZyxtError)
    ensures
        res.code@ == "4.3"@,
        res.message@ == "Cannot assign a value of type `"@ + value_type@ + "` to variable `"@ + varname@
            + "` of type `"@ + var_type@ + "`"@,
        res.position.is_none(),
        res.raw@ == Seq::<char>::empty(),
{
    let message = text7("Cannot assign a value of type `", value_type.as_str(), "` to variable `", varname.as_str(), "` of type `", var_type.as_str(), "`");
    new_error("4.3", message)
}

/// A binary operation that failed on its values: error 4.1.0.
pub fn error_4_1_0(operator: String, value1: &Value, value2: &Value) -> (res: ZyxtError)
    ensures
        res.code@ == "4.1.0"@,
        res.message@ == "Operator "@ + operator@ + " unsuccessful on `"@ + value_text(value_view(*value1))
            + "` (type `"@ + type_text(type_of_value(value_view(*value1))) + "`), `"@ + value_text(value_view(*value2))
            + "` (type `"@ + type_text(type_of_value(value_view(*value2))) + "`)"@,
        res.position.is_none(),
        res.raw@ == Seq::<char>::empty(),
{
    let v1 = value1.to_text();
    let t1 = value1.get_type_obj().to_text();
    let v2 = value2.to_text();
    let t2 = value2.get_type_obj().to_text();
    let mut message = text7("Operator ", operator.as_str(), " unsuccessful on `", v1.as_str(), "` (type `", t1.as_str(), "`), `");
    message.append(v2.as_str());
    message.append("` (type `");
    message.append(t2.as_str());
    message.append("`)");
    new_error("4.1.0", message)
}

/// A unary operation that failed on its value: error 4.1.1.
pub fn error_4_1_1(operator: String, value: &Value) -> (res: ZyxtError)
    ensures
        res.code@ == "4.1.1"@,
        res.message@ == "Operator "@ + operator@ + " unsuccessful on `"@ + value_text(value_view(*value))
            + "` (type `"@ + type_text(type_of_value(value_view(*value))) + "`)"@,
        res.position.is_none(),
        res.raw@ == Seq::<char>::empty(),
{
    let v = value.to_text();
    let t = value.get_type_obj().to_text();
    let mut message = text7("Operator ", operator.as_str(), " unsuccessful on `", v.as_str(), "` (type `", t.as_str(), "`)");
    new_error("4.1.1", message)
}

/// A script that returns something other than an `i32`: error 4.2.
pub fn error_4_2(value: &Value) -> (res: ZyxtError)
    ensures
        res.code@ == "4.2"@,
        res.message@ == "Non-i32 script return value detected (Got `"@ + value_text(value_view(*value)) + "`)"@,
        res.position.is_none(),
        res.raw@ == Seq::<char>::empty(),
{
    let v = value.to_text();
    let message = text3("Non-i32 script return value detected (Got `", v.as_str(), "`)");
    new_error("4.2", message)
}

/// A value without the attribute asked of it: error 3.1.1.
pub fn error_3_1_1(value: &Value, attribute: String) -> (res: ZyxtError)
    ensures
        res.code@ == "3.1.1"@,
        res.message@ == "Attribute `"@ + attribute@ + "` not found for `"@ + value_text(value_view(*value))
            + "` (type `"@ + type_text(type_of_value(value_view(*value))) + "`)"@,
        res.position.is_none(),
        res.raw@ == Seq::<char>::empty(),
{
    let v = value.to_text();
    let t = value.get_type_obj().to_text();
    let message = text7("Attribute `", attribute.as_str(), "` not found for `", v.as_str(), "` (type `", t.as_str(), "`)");
    new_error("3.1.1", message)
}

} // verus!
