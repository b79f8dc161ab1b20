use vstd::prelude::*;
use vstd::string::*;
use crate::element::{Argument, ArgumentView, arg_view, args_view, lemma_args_view, raw_of, elem_view};
use crate::text::{push_char, decimal, signed_decimal, u128_to_decimal, i128_to_decimal, trimmed, trim_text};
use crate::typeobj::{named_type, type_text};
use crate::value::{Value, ValueView, value_view, int_of};

verus! {

/// How a boolean is written.
pub open spec fn bool_text(b: bool) -> Seq<char> {
    if b {
        "true"@
    } else {
        "false"@
    }
}

/// How a parameter is written: its name, then `: ` and its type unless the
/// type is `#any`, then `: ` and the trimmed text of its default, if any.
pub open spec fn arg_text(a: ArgumentView) -> Seq<char> {
    a.name + (if a.type_ != named_type("#any"@) {
        ": "@ + type_text(a.type_)
    } else {
        Seq::empty()
    }) + (match a.default {
        Some(r) => ": "@ + trimmed(raw_of(r)),
        None => Seq::empty(),
    })
}

/// Parameters written one after the other, separated by commas.
pub open spec fn args_text(s: Seq<ArgumentView>) -> Seq<char>
    decreases s.len(),
{
    if s.len() == 0 {
        Seq::empty()
    } else if s.len() == 1 {
        arg_text(s[0])
    } else {
        args_text(s.drop_last()) + seq![','] + arg_text(s.last())
    }
}

/// How a value is shown: an integer in decimal, a string as itself, a type
/// between angle brackets, a procedure as `fn|params|: type` or
/// `proc|params|: type`, and `null`; a returned value as the value.
pub open spec fn value_text(v: ValueView) -> Seq<char>
    decreases v,
{
    match int_of(v) {
        Some((_, i)) => signed_decimal(i),
        None => match v {
            ValueView::Str(s) => s,
            ValueView::Bool(b) => bool_text(b),
            ValueView::Type(t) => seq!['<'] + type_text(t) + seq!['>'],
            ValueView::ClassInstance { type_, .. } => seq!['<'] + type_text(type_) + seq!['>'],
            ValueView::Proc { is_fn, args, return_type, .. } => (if is_fn {
                "fn"@
            } else {
                "proc"@
            }) + seq!['|'] + args_text(args) + "|: "@ + type_text(return_type),
            ValueView::Null => "null"@,
            ValueView::Return(b) => value_text(*b),
            _ => Seq::empty(),
        },
    }
}

impl Argument {
    /// How the parameter is written (see `arg_text`).
    pub fn to_text(&self) -> (res: String)
        ensures
            res@ == arg_text(arg_view(*self)),
    {
        let mut s = self.name.clone();
        if !self.type_.is_named("#any") {
            s.append(": ");
            let t = self.type_.to_text();
            s.append(t.as_str());
        }
        match &self.default {
            Some(r) => {
                s.append(": ");
                let raw = r.get_raw();
                let t = trim_text(raw.as_str());
                s.append(t.as_str());
            },
            None => {},
        }
        proof {
            let a = arg_view(*self);
            assert(s@ =~= arg_text(a));
        }
        s
    }
}

/// Parameters written one after the other, separated by commas (see `args_text`).
fn args_to_text(args: &Vec<Argument>) -> (res: String)
    ensures
        res@ == args_text(args_view(args@)),
{
    let ghost av = args_view(args@);
    proof {
        lemma_args_view(args@);
    }
    let mut s = String::new();
    let mut i: usize = 0;
    while i < args.len()
        invariant
            av == args_view(args@),
            av.len() == args@.len(),
            forall|j: int| 0 <= j < av.len() ==> #[trigger] av[j] == arg_view(args@[j]),
            0 <= i <= args@.len(),
            s@ == args_text(av.subrange(0, i as int)),
        decreases args@.len() - i,
    {
        let part = args[i].to_text();
        let ghost before = s@;
        if i > 0 {
            push_char(&mut s, ',');
        }
        s.append(part.as_str());
        proof {
            let sub = av.subrange(0, i + 1);
            assert(sub.drop_last() =~= av.subrange(0, i as int));
            assert(sub.last() == av[i as int]);
            if i == 0 {
                assert(before =~= Seq::<char>::empty());
                assert(s@ =~= args_text(sub));
            } else {
                assert(s@ =~= before + seq![','] + part@);
            }
        }
        i = i + 1;
    }
    proof {
        assert(av.subrange(0, av.len() as int) =~= av);
    }
    s
}

/// A type's text between angle brackets.
fn angled(inner: String) -> (res: String)
    ensures
        res@ == seq!['<'] + inner@ + seq!['>'],
{
    let mut s = String::new();
    push_char(&mut s, '<');
    s.append(inner.as_str());
    push_char(&mut s, '>');
    proof {
        assert(s@ =~= seq!['<'] + inner@ + seq!['>']);
    }
    s
}

impl Value {
    /// How the value is shown (see `value_text`).
    pub fn to_text(&self) -> (res: String)
        ensures
            res@ == value_text(value_view(*self)),
        decreases self,
    {
        match self {
            Value::I8(x) => i128_to_decimal(*x as i128),
            Value::I16(x) => i128_to_decimal(*x as i128),
            Value::I32(x) => i128_to_decimal(*x as i128),
            Value::I64(x) => i128_to_decimal(*x as i128),
            Value::I128(x) => i128_to_decimal(*x),
            Value::Isize(x) => i128_to_decimal(*x as i128),
            Value::U8(x) => u128_to_decimal(*x as u128),
            Value::U16(x) => u128_to_decimal(*x as u128),
            Value::U32(x) => u128_to_decimal(*x as u128),
            Value::U64(x) => u128_to_decimal(*x as u128),
            Value::U128(x) => u128_to_decimal(*x),
            Value::Usize(x) => u128_to_decimal(*x as u128),
            Value::Str(s) => s.clone(),
            Value::Bool(b) => if *b {
                String::from_str("true")
            } else {
                String::from_str("false")
            },
            Value::Type(t) => angled(t.to_text()),
            Value::ClassInstance { type_, .. } => angled(type_.to_text()),
            Value::Proc { is_fn, args, return_type, .. } => {
                let mut s = if *is_fn {
                    String::from_str("fn")
                } else {
                    String::from_str("proc")
                };
                push_char(&mut s, '|');
                let a = args_to_text(args);
                s.append(a.as_str());
                s.append("|: ");
                let t = return_type.to_text();
                s.append(t.as_str());
                proof {
                    assert(s@ =~= value_text(value_view(*self)));
                }
                s
            },
            Value::Null => String::from_str("null"),
            Value::Return(b) => b.to_text(),
        }
    }
}

} // verus!
