use vstd::prelude::*;
use vstd::string::*;
use crate::text::{decimal, digit_char, signed_decimal};
use crate::token::OprType;
use crate::typeobj::{named_type, name_of_type};
use crate::value::{IntKind, ValueView, int_of, make_int, in_kind, kind_name, kind_of_name, kind_signed, type_of_value};
use crate::value::arith::{num_opr_spec, operand_int, int_arith};
use crate::value::compare::{gt_spec, lt_spec, eq_spec, cmp_operand};
use crate::value::typecast::{cast_spec, parse_int_spec, all_digits, digits_value, is_digit};
use crate::value::unary::{un_not_spec, un_minus_spec};

verus! {

/// The kind of an integer value.
pub open spec fn int_kind(x: ValueView) -> IntKind {
    int_of(x).unwrap().0
}

/// The number of an integer value.
pub open spec fn int_num(x: ValueView) -> int {
    int_of(x).unwrap().1
}

/// The names of the integer kinds, `str`, `bool` and `type` are all told apart.
proof fn lemma_kind_names(k: IntKind)
    ensures
        kind_of_name(kind_name(k)) == Some(k),
        kind_name(k) != "str"@,
        kind_name(k) != "bool"@,
        kind_name(k) != "type"@,
{
    reveal_strlit("i8");
    reveal_strlit("i16");
    reveal_strlit("i32");
    reveal_strlit("i64");
    reveal_strlit("i128");
    reveal_strlit("isize");
    reveal_strlit("u8");
    reveal_strlit("u16");
    reveal_strlit("u32");
    reveal_strlit("u64");
    reveal_strlit("u128");
    reveal_strlit("usize");
    reveal_strlit("str");
    reveal_strlit("bool");
    reveal_strlit("type");
    assert("i8"@.len() != "i16"@.len());
    assert("i8"@.len() != "i32"@.len());
    assert("i8"@.len() != "i64"@.len());
    assert("i8"@.len() != "i128"@.len());
    assert("i8"@.len() != "isize"@.len());
    assert("i8"@[0] != "u8"@[0]);
    assert("i8"@.len() != "u16"@.len());
    assert("i8"@.len() != "u32"@.len());
    assert("i8"@.len() != "u64"@.len());
    assert("i8"@.len() != "u128"@.len());
    assert("i8"@.len() != "usize"@.len());
    assert("i8"@.len() != "str"@.len());
    assert("i8"@.len() != "bool"@.len());
    assert("i8"@.len() != "type"@.len());
    assert("i16"@[1] != "i32"@[1]);
    assert("i16"@[1] != "i64"@[1]);
    assert("i16"@.len() != "i128"@.len());
    assert("i16"@.len() != "isize"@.len());
    assert("i16"@.len() != "u8"@.len());
    assert("i16"@[0] != "u16"@[0]);
    assert("i16"@[0] != "u32"@[0]);
    assert("i16"@[0] != "u64"@[0]);
    assert("i16"@.len() != "u128"@.len());
    assert("i16"@.len() != "usize"@.len());
    assert("i16"@[0] != "str"@[0]);
    assert("i16"@.len() != "bool"@.len());
    assert("i16"@.len() != "type"@.len());
    assert("i32"@[1] != "i64"@[1]);
    assert("i32"@.len() != "i128"@.len());
    assert("i32"@.len() != "isize"@.len());
    assert("i32"@.len() != "u8"@.len());
    assert("i32"@[0] != "u16"@[0]);
    assert("i32"@[0] != "u32"@[0]);
    assert("i32"@[0] != "u64"@[0]);
    assert("i32"@.len() != "u128"@.len());
    assert("i32"@.len() != "usize"@.len());
    assert("i32"@[0] != "str"@[0]);
    assert("i32"@.len() != "bool"@.len());
    assert("i32"@.len() != "type"@.len());
    assert("i64"@.len() != "i128"@.len());
    assert("i64"@.len() != "isize"@.len());
    assert("i64"@.len() != "u8"@.len());
    assert("i64"@[0] != "u16"@[0]);
    assert("i64"@[0] != "u32"@[0]);
    assert("i64"@[0] != "u64"@[0]);
    assert("i64"@.len() != "u128"@.len());
    assert("i64"@.len() != "usize"@.len());
    assert("i64"@[0] != "str"@[0]);
    assert("i64"@.len() != "bool"@.len());
    assert("i64"@.len() != "type"@.len());
    assert("i128"@.len() != "isize"@.len());
    assert("i128"@.len() != "u8"@.len());
    assert("i128"@.len() != "u16"@.len());
    assert("i128"@.len() != "u32"@.len());
    assert("i128"@.len() != "u64"@.len());
    assert("i128"@[0] != "u128"@[0]);
    assert("i128"@.len() != "usize"@.len());
    assert("i128"@.len() != "str"@.len());
    assert("i128"@[0] != "bool"@[0]);
    assert("i128"@[0] != "type"@[0]);
    assert("isize"@.len() != "u8"@.len());
    assert("isize"@.len() != "u16"@.len());
    assert("isize"@.len() != "u32"@.len());
    assert("isize"@.len() != "u64"@.len());
    assert("isize"@.len() != "u128"@.len());
    assert("isize"@[0] != "usize"@[0]);
    assert("isize"@.len() != "str"@.len());
    assert("isize"@.len() != "bool"@.len());
    assert("isize"@.len() != "type"@.len());
    assert("u8"@.len() != "u16"@.len());
    assert("u8"@.len() != "u32"@.len());
    assert("u8"@.len() != "u64"@.len());
    assert("u8"@.len() != "u128"@.len());
    assert("u8"@.len() != "usize"@.len());
    assert("u8"@.len() != "str"@.len());
    assert("u8"@.len() != "bool"@.len());
    assert("u8"@.len() != "type"@.len());
    assert("u16"@[1] != "u32"@[1]);
    assert("u16"@[1] != "u64"@[1]);
    assert("u16"@.len() != "u128"@.len());
    assert("u16"@.len() != "usize"@.len());
    assert("u16"@[0] != "str"@[0]);
    assert("u16"@.len() != "bool"@.len());
    assert("u16"@.len() != "type"@.len());
    assert("u32"@[1] != "u64"@[1]);
    assert("u32"@.len() != "u128"@.len());
    assert("u32"@.len() != "usize"@.len());
    assert("u32"@[0] != "str"@[0]);
    assert("u32"@.len() != "bool"@.len());
    assert("u32"@.len() != "type"@.len());
    assert("u64"@.len() != "u128"@.len());
    assert("u64"@.len() != "usize"@.len());
    assert("u64"@[0] != "str"@[0]);
    assert("u64"@.len() != "bool"@.len());
    assert("u64"@.len() != "type"@.len());
    assert("u128"@.len() != "usize"@.len());
    assert("u128"@.len() != "str"@.len());
    assert("u128"@[0] != "bool"@[0]);
    assert("u128"@[0] != "type"@[0]);
    assert("usize"@.len() != "str"@.len());
    assert("usize"@.len() != "bool"@.len());
    assert("usize"@.len() != "type"@.len());
    assert("str"@.len() != "bool"@.len());
    assert("str"@.len() != "type"@.len());
    assert("bool"@[0] != "type"@[0]);
}

/// `str`, `bool` and `type` are told apart.
proof fn lemma_base_names()
    ensures
        "str"@ != "bool"@,
        "str"@ != "type"@,
        "bool"@ != "type"@,
{
    reveal_strlit("str");
    reveal_strlit("bool");
    reveal_strlit("type");
    assert("str"@[0] != "bool"@[0]);
    assert("str"@[0] != "type"@[0]);
    assert("bool"@[0] != "type"@[0]);
}

/// An integer value is the value its kind makes of its number.
proof fn lemma_make_int_of(x: ValueView)
    requires
        int_of(x) is Some,
    ensures
        in_kind(int_kind(x), int_num(x)),
        make_int(int_kind(x), int_num(x)) == x,
{
}

/// Decimal notation is made of digits and stands for the number.
proof fn lemma_decimal_digits(n: nat)
    ensures
        decimal(n).len() > 0,
        all_digits(decimal(n)),
        digits_value(decimal(n)) == n,
    decreases n,
{
    if n < 10 {
        let s = decimal(n);
        assert(s == seq![digit_char(n)]);
        assert(s.drop_last() =~= Seq::<char>::empty());
        assert((digit_char(n) as int) - ('0' as int) == n);
        assert(digits_value(s) == digits_value(s.drop_last()) * 10 + ((s.last() as int) - ('0' as int)) as nat);
        assert(digits_value(Seq::<char>::empty()) == 0);
    } else {
        lemma_decimal_digits(n / 10);
        let s = decimal(n);
        let c = digit_char(n % 10);
        assert(s == decimal(n / 10).push(c));
        assert(s.drop_last() =~= decimal(n / 10));
        assert((c as int) - ('0' as int) == n % 10);
        assert(digits_value(s) == digits_value(s.drop_last()) * 10 + ((s.last() as int) - ('0' as int)) as nat);
        assert((n / 10) * 10 + n % 10 == n) by (nonlinear_arith);
        assert forall|i: int| 0 <= i < s.len() implies is_digit(#[trigger] s[i]) by {
            if i < s.len() - 1 {
                assert(s[i] == decimal(n / 10)[i]);
            }
        }
    }
}

/// An integer shown as text, and the text converted back to the integer's
/// own type, gives the integer back.
pub proof fn law_int_text_round_trip(x: ValueView)
    requires
        int_of(x) is Some,
    ensures
        cast_spec(x, "str"@) == Ok::<ValueView, crate::value::utils::OprErrorView>(ValueView::Str(signed_decimal(int_num(x)))),
        cast_spec(ValueView::Str(signed_decimal(int_num(x))), kind_name(int_kind(x))) == Ok::<ValueView, crate::value::utils::OprErrorView>(x),
{
    let k = int_kind(x);
    let i = int_num(x);
    lemma_kind_names(k);
    lemma_base_names();
    lemma_make_int_of(x);
    let s = signed_decimal(i);
    if i < 0 {
        lemma_decimal_digits((-i) as nat);
        let d = decimal((-i) as nat);
        assert(s == seq!['-'] + d);
        assert(s[0] == '-');
        assert(s.drop_first() =~= d);
        assert(kind_signed(k));
        assert(parse_int_spec(s, k) == Some(i));
    } else {
        lemma_decimal_digits(i as nat);
        let d = decimal(i as nat);
        assert(is_digit(d[0]));
        assert(parse_int_spec(s, k) == Some(i));
    }
}

/// Converting a text, a boolean or an integer to its own type changes nothing.
pub proof fn law_cast_to_own_type(x: ValueView)
    requires
        x is Str || x is Bool || int_of(x) is Some,
    ensures
        cast_spec(x, name_of_type(type_of_value(x))) == Ok::<ValueView, crate::value::utils::OprErrorView>(x),
{
    lemma_base_names();
    if int_of(x) is Some {
        lemma_kind_names(int_kind(x));
        lemma_make_int_of(x);
    }
}

/// `!` twice gives the value converted to a boolean (a boolean itself).
pub proof fn law_not_twice(x: ValueView)
    requires
        !(x is Type),
    ensures
        un_not_spec(x) matches Ok(r) ==> un_not_spec(r) == cast_spec(x, "bool"@),
        x matches ValueView::Bool(b) ==> (un_not_spec(x) matches Ok(r) && un_not_spec(r) == Ok::<ValueView, crate::value::utils::OprErrorView>(x)),
{
    lemma_base_names();
    if int_of(x) is Some {
        lemma_kind_names(int_kind(x));
    }
}

/// Unary `-` twice gives the integer back, wherever the first succeeds.
pub proof fn law_minus_twice(x: ValueView)
    ensures
        un_minus_spec(x) matches Ok(r) ==> un_minus_spec(r) == Ok::<ValueView, crate::value::utils::OprErrorView>(x),
{
    if un_minus_spec(x) is Ok {
        lemma_make_int_of(x);
        let k = int_kind(x);
        let a = int_num(x);
        assert(int_of(make_int(k, -a)) == Some((k, -a)));
    }
}

/// Adding an integer of the same kind and then subtracting it gives the
/// first integer back, wherever the sum fits.
pub proof fn law_add_then_sub(x: ValueView, y: ValueView)
    requires
        int_of(x) is Some,
        int_of(y) is Some,
        int_kind(x) == int_kind(y),
    ensures
        num_opr_spec(OprType::Plus, x, y) matches Ok(z) ==> num_opr_spec(OprType::Minus, z, y) == Ok::<ValueView, crate::value::utils::OprErrorView>(x),
{
    lemma_make_int_of(x);
    lemma_make_int_of(y);
    let k = int_kind(x);
    let a = int_num(x);
    let b = int_num(y);
    if num_opr_spec(OprType::Plus, x, y) is Ok {
        let z = make_int(k, a + b);
        assert(int_of(z) == Some((k, a + b)));
    }
}

/// The sum and the product of two integers of one kind do not depend on
/// their order.
pub proof fn law_add_mul_commute(x: ValueView, y: ValueView)
    requires
        int_of(x) is Some,
        int_of(y) is Some,
        int_kind(x) == int_kind(y),
    ensures
        num_opr_spec(OprType::Plus, x, y) == num_opr_spec(OprType::Plus, y, x),
        num_opr_spec(OprType::AstMult, x, y) == num_opr_spec(OprType::AstMult, y, x),
{
    lemma_make_int_of(x);
    lemma_make_int_of(y);
    let a = int_num(x);
    let b = int_num(y);
    assert(a * b == b * a) by (nonlinear_arith);
}

/// `x > y` is `y < x`, for two texts and for two integers of one kind.
pub proof fn law_gt_is_lt_turned(x: ValueView, y: ValueView)
    requires
        (x is Str && y is Str) || (int_of(x) is Some && int_of(y) is Some && int_kind(x) == int_kind(y)),
    ensures
        gt_spec(x, y) == lt_spec(y, x),
{
    if int_of(x) is Some {
        lemma_make_int_of(x);
        lemma_make_int_of(y);
    }
}

/// A text, a boolean or an integer is equal to itself.
pub proof fn law_eq_reflexive(x: ValueView)
    requires
        x is Str || x is Bool || int_of(x) is Some,
    ensures
        eq_spec(x, x) == Ok::<ValueView, crate::value::utils::OprErrorView>(ValueView::Bool(true)),
{
    if int_of(x) is Some {
        lemma_make_int_of(x);
    }
}

/// Truncating division and its remainder: the quotient times the divisor,
/// plus the remainder, gives the dividend back; the remainder is smaller
/// than the divisor and has the sign of the dividend.
proof fn lemma_trunc_div_rem(a: int, b: int)
    requires
        b != 0,
    ensures
        crate::value::arith::trunc_div(a, b) * b + crate::value::arith::trunc_rem(a, b) == a,
        crate::value::arith::abs(crate::value::arith::trunc_rem(a, b)) < crate::value::arith::abs(b),
        crate::value::arith::trunc_rem(a, b) == 0 || ((crate::value::arith::trunc_rem(a, b) > 0) == (a > 0)),
{
    let aa = crate::value::arith::abs(a);
    let bb = crate::value::arith::abs(b);
    let q = aa / bb;
    let r = aa % bb;
    assert(aa == q * bb + r && 0 <= r < bb) by (nonlinear_arith)
        requires
            bb > 0,
            aa >= 0,
            q == aa / bb,
            r == aa % bb,
    ;
    if a >= 0 && b > 0 {
    } else if a >= 0 && b < 0 {
        assert((-q) * b == q * bb) by (nonlinear_arith)
            requires
                bb == -b,
        ;
    } else if a < 0 && b > 0 {
        assert((-q) * b == -(q * bb)) by (nonlinear_arith)
            requires
                bb == b,
        ;
    } else {
        assert(q * b == -(q * bb)) by (nonlinear_arith)
            requires
                bb == -b,
        ;
    }
}

/// `/` and `%` on two integers of one kind, the divisor not zero, are
/// truncating division and its remainder: where both give a value, they
/// are integers of that kind, the quotient times the divisor plus the
/// remainder gives the dividend back, and the remainder is smaller than
/// the divisor and has the dividend's sign. `FractDiv` and `Div` agree.
pub proof fn law_divide_and_remainder(x: ValueView, y: ValueView)
    requires
        int_of(x) is Some,
        int_of(y) is Some,
        int_kind(x) == int_kind(y),
        int_num(y) != 0,
    ensures
        crate::value::methods::bin_opr_spec(OprType::FractDiv, x, y) == crate::value::methods::bin_opr_spec(OprType::Div, x, y),
        crate::value::methods::bin_opr_spec(OprType::FractDiv, x, y) matches Ok(q) ==> crate::value::methods::bin_opr_spec(
            OprType::Modulo,
            x,
            y,
        ) matches Ok(r) ==> {
            &&& int_of(q) is Some && int_kind(q) == int_kind(x)
            &&& int_of(r) is Some && int_kind(r) == int_kind(x)
            &&& int_num(q) * int_num(y) + int_num(r) == int_num(x)
            &&& crate::value::arith::abs(int_num(r)) < crate::value::arith::abs(int_num(y))
            &&& (int_num(r) == 0 || ((int_num(r) > 0) == (int_num(x) > 0)))
        },
{
    lemma_make_int_of(x);
    lemma_make_int_of(y);
    let k = int_kind(x);
    let a = int_num(x);
    let b = int_num(y);
    lemma_trunc_div_rem(a, b);
    assert(operand_int(y, k) == Ok::<int, crate::value::utils::OprErrorView>(b));
    let qv = crate::value::arith::trunc_div(a, b);
    let rv = crate::value::arith::trunc_rem(a, b);
    if num_opr_spec(OprType::Div, x, y) is Ok {
        assert(int_of(make_int(k, qv)) == Some((k, qv)));
    }
    if num_opr_spec(OprType::Modulo, x, y) is Ok {
        assert(int_of(make_int(k, rv)) == Some((k, rv)));
    }
}

/// Multiplying an integer by another of its kind, not zero, and dividing
/// the product by it gives the first integer back, wherever the product
/// fits.
pub proof fn law_mul_then_div(x: ValueView, y: ValueView)
    requires
        int_of(x) is Some,
        int_of(y) is Some,
        int_kind(x) == int_kind(y),
        int_num(y) != 0,
    ensures
        crate::value::methods::bin_opr_spec(OprType::AstMult, x, y) matches Ok(z) ==> crate::value::methods::bin_opr_spec(
            OprType::FractDiv,
            z,
            y,
        ) == Ok::<ValueView, crate::value::utils::OprErrorView>(x),
{
    lemma_make_int_of(x);
    lemma_make_int_of(y);
    let k = int_kind(x);
    let a = int_num(x);
    let b = int_num(y);
    assert(operand_int(y, k) == Ok::<int, crate::value::utils::OprErrorView>(b));
    if crate::value::methods::bin_opr_spec(OprType::AstMult, x, y) is Ok {
        let p = a * b;
        let z = make_int(k, p);
        assert(int_of(z) == Some((k, p)));
        lemma_trunc_div_rem(p, b);
        let q = crate::value::arith::trunc_div(p, b);
        let r = crate::value::arith::trunc_rem(p, b);
        assert(q == a) by (nonlinear_arith)
            requires
                q * b + r == p,
                p == a * b,
                crate::value::arith::abs(r) < crate::value::arith::abs(b),
                b != 0,
                crate::value::arith::abs(r) == (if r < 0 { -r } else { r }),
                crate::value::arith::abs(b) == (if b < 0 { -b } else { b }),
        ;
    }
}

/// Two integers of one kind compare in exactly one way: one is less than,
/// equal to, or greater than the other.
pub proof fn law_compare_trichotomy(x: ValueView, y: ValueView)
    requires
        int_of(x) is Some,
        int_of(y) is Some,
        int_kind(x) == int_kind(y),
    ensures
        lt_spec(x, y) matches Ok(ValueView::Bool(l)) && eq_spec(x, y) matches Ok(ValueView::Bool(e)) && gt_spec(x, y)
            matches Ok(ValueView::Bool(g)) && ((l && !e && !g) || (!l && e && !g) || (!l && !e && g)),
{
    lemma_make_int_of(x);
    lemma_make_int_of(y);
}

} // verus!
