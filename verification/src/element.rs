use vstd::prelude::*;
use crate::position::{Position, PositionView};
use crate::token::{Flag, OprType, Token, TokenView};
use crate::typeobj::{Type, named_type};
use crate::text::push_char;

verus! {

broadcast use vstd::std_specs::vec::group_vec_axioms;

/// One branch of an `if`: its condition (`NullElement` for `else`) and its body.
#[derive(Debug)]
pub struct Condition {
    pub condition: Element,
    pub if_true: Vec<Element>,
}

/// A parameter of a procedure: its name, its type and its default value.
#[derive(Debug)]
pub struct Argument {
    pub name: String,
    pub type_: Type,
    pub default: Option<Element>,
}

/// A node of the syntax tree.
#[allow(inconsistent_fields)]
#[derive(Debug)]
pub enum Element {
    Comment { position: Position, raw: String, content: String },
    Call {
        position: Position,
        raw: String,
        called: Box<Element>,
        args: Vec<Element>,
        kwargs: Vec<(String, Element)>,
    },
    UnaryOpr { position: Position, raw: String, type_: OprType, operand: Box<Element> },
    BinaryOpr {
        position: Position,
        raw: String,
        type_: OprType,
        operand1: Box<Element>,
        operand2: Box<Element>,
    },
    Declare {
        position: Position,
        raw: String,
        variable: Box<Element>,
        content: Box<Element>,
        flags: Vec<Flag>,
        type_: Type,
    },
    Assign { position: Position, raw: String, variable: Box<Element>, content: Box<Element> },
    Literal { position: Position, raw: String, type_: Type, content: String },
    Variable { position: Position, raw: String, name: String, parent: Box<Element> },
    If { position: Position, raw: String, conditions: Vec<Condition> },
    Block { position: Position, raw: String, content: Vec<Element> },
    Delete { position: Position, raw: String, names: Vec<String> },
    Return { position: Position, raw: String, value: Box<Element> },
    Procedure {
        position: Position,
        raw: String,
        is_fn: bool,
        args: Vec<Argument>,
        return_type: Type,
        content: Vec<Element>,
    },
    Preprocess { position: Position, raw: String, content: Vec<Element> },
    Defer { position: Position, raw: String, content: Vec<Element> },
    Class {
        position: Position,
        raw: String,
        is_struct: bool,
        class_attrs: Vec<(String, Element)>,
        inst_attrs: Vec<(String, Element)>,
        content: Vec<Element>,
        args: Option<Vec<Argument>>,
    },
    NullElement,
    Token(Token),
}

/// A type as plain values.
pub enum TypeView {
    Instance {
        name: Seq<char>,
        type_args: Seq<TypeView>,
        inst_attrs: Seq<(Seq<char>, ElementView)>,
        implementation: Option<Box<TypeView>>,
    },
    Definition {
        name: Seq<char>,
        generics: Seq<ArgumentView>,
        class_attrs: Seq<(Seq<char>, ElementView)>,
        inst_attrs: Seq<(Seq<char>, ElementView)>,
    },
}

/// A condition as plain values.
pub struct ConditionView {
    pub condition: ElementView,
    pub if_true: Seq<ElementView>,
}

/// An argument as plain values.
pub struct ArgumentView {
    pub name: Seq<char>,
    pub type_: TypeView,
    pub default: Option<ElementView>,
}

/// A syntax tree as plain values.
#[allow(inconsistent_fields)]
pub enum ElementView {
    Comment { position: PositionView, raw: Seq<char>, content: Seq<char> },
    Call {
        position: PositionView,
        raw: Seq<char>,
        called: Box<ElementView>,
        args: Seq<ElementView>,
        kwargs: Seq<(Seq<char>, ElementView)>,
    },
    UnaryOpr { position: PositionView, raw: Seq<char>, type_: OprType, operand: Box<ElementView> },
    BinaryOpr {
        position: PositionView,
        raw: Seq<char>,
        type_: OprType,
        operand1: Box<ElementView>,
        operand2: Box<ElementView>,
    },
    Declare {
        position: PositionView,
        raw: Seq<char>,
        variable: Box<ElementView>,
        content: Box<ElementView>,
        flags: Seq<Flag>,
        type_: TypeView,
    },
    Assign {
        position: PositionView,
        raw: Seq<char>,
        variable: Box<ElementView>,
        content: Box<ElementView>,
    },
    Literal { position: PositionView, raw: Seq<char>, type_: TypeView, content: Seq<char> },
    Variable { position: PositionView, raw: Seq<char>, name: Seq<char>, parent: Box<ElementView> },
    If { position: PositionView, raw: Seq<char>, conditions: Seq<ConditionView> },
    Block { position: PositionView, raw: Seq<char>, content: Seq<ElementView> },
    Delete { position: PositionView, raw: Seq<char>, names: Seq<Seq<char>> },
    Return { position: PositionView, raw: Seq<char>, value: Box<ElementView> },
    Procedure {
        position: PositionView,
        raw: Seq<char>,
        is_fn: bool,
        args: Seq<ArgumentView>,
        return_type: TypeView,
        content: Seq<ElementView>,
    },
    Preprocess { position: PositionView, raw: Seq<char>, content: Seq<ElementView> },
    Defer { position: PositionView, raw: Seq<char>, content: Seq<ElementView> },
    Class {
        position: PositionView,
        raw: Seq<char>,
        is_struct: bool,
        class_attrs: Seq<(Seq<char>, ElementView)>,
        inst_attrs: Seq<(Seq<char>, ElementView)>,
        content: Seq<ElementView>,
        args: Option<Seq<ArgumentView>>,
    },
    NullElement,
    Token(TokenView),
}

/// The plain-value view of a syntax tree.
pub open spec fn elem_view(e: Element) -> ElementView
    decreases e,
{
    match e {
        Element::Comment { position, raw, content } => ElementView::Comment {
            position: position@,
            raw: raw@,
            content: content@,
        },
        Element::Call { position, raw, called, args, kwargs } => ElementView::Call {
            position: position@,
            raw: raw@,
            called: Box::new(elem_view(*called)),
            args: elems_view(args@),
            kwargs: attrs_view(kwargs@),
        },
        Element::UnaryOpr { position, raw, type_, operand } => ElementView::UnaryOpr {
            position: position@,
            raw: raw@,
            type_,
            operand: Box::new(elem_view(*operand)),
        },
        Element::BinaryOpr { position, raw, type_, operand1, operand2 } => ElementView::BinaryOpr {
            position: position@,
            raw: raw@,
            type_,
            operand1: Box::new(elem_view(*operand1)),
            operand2: Box::new(elem_view(*operand2)),
        },
        Element::Declare { position, raw, variable, content, flags, type_ } => ElementView::Declare {
            position: position@,
            raw: raw@,
            variable: Box::new(elem_view(*variable)),
            content: Box::new(elem_view(*content)),
            flags: flags@,
            type_: type_view(type_),
        },
        Element::Assign { position, raw, variable, content } => ElementView::Assign {
            position: position@,
            raw: raw@,
            variable: Box::new(elem_view(*variable)),
            content: Box::new(elem_view(*content)),
        },
        Element::Literal { position, raw, type_, content } => ElementView::Literal {
            position: position@,
            raw: raw@,
            type_: type_view(type_),
            content: content@,
        },
        Element::Variable { position, raw, name, parent } => ElementView::Variable {
            position: position@,
            raw: raw@,
            name: name@,
            parent: Box::new(elem_view(*parent)),
        },
        Element::If { position, raw, conditions } => ElementView::If {
            position: position@,
            raw: raw@,
            conditions: conds_view(conditions@),
        },
        Element::Block { position, raw, content } => ElementView::Block {
            position: position@,
            raw: raw@,
            content: elems_view(content@),
        },
        Element::Delete { position, raw, names } => ElementView::Delete {
            position: position@,
            raw: raw@,
            names: names_view(names@),
        },
        Element::Return { position, raw, value } => ElementView::Return {
            position: position@,
            raw: raw@,
            value: Box::new(elem_view(*value)),
        },
        Element::Procedure { position, raw, is_fn, args, return_type, content } =>
            ElementView::Procedure {
                position: position@,
                raw: raw@,
                is_fn,
                args: args_view(args@),
                return_type: type_view(return_type),
                content: elems_view(content@),
            },
        Element::Preprocess { position, raw, content } => ElementView::Preprocess {
            position: position@,
            raw: raw@,
            content: elems_view(content@),
        },
        Element::Defer { position, raw, content } => ElementView::Defer {
            position: position@,
            raw: raw@,
            content: elems_view(content@),
        },
        Element::Class { position, raw, is_struct, class_attrs, inst_attrs, content, args } =>
            ElementView::Class {
                position: position@,
                raw: raw@,
                is_struct,
                class_attrs: attrs_view(class_attrs@),
                inst_attrs: attrs_view(inst_attrs@),
                content: elems_view(content@),
                args: match args {
                    Some(a) => Some(args_view(a@)),
                    None => None,
                },
            },
        Element::NullElement => ElementView::NullElement,
        Element::Token(t) => ElementView::Token(t@),
    }
}

/// The plain-value view of a sequence of syntax trees.
pub open spec fn elems_view(s: Seq<Element>) -> Seq<ElementView>
    decreases s,
{
    if s.len() == 0 {
        Seq::empty()
    } else {
        seq![elem_view(s[0])] + elems_view(s.drop_first())
    }
}

/// The plain-value view of a list of named attributes.
pub open spec fn attrs_view(s: Seq<(String, Element)>) -> Seq<(Seq<char>, ElementView)>
    decreases s,
{
    if s.len() == 0 {
        Seq::empty()
    } else {
        seq![(s[0].0@, elem_view(s[0].1))] + attrs_view(s.drop_first())
    }
}

/// The plain-value view of a list of names.
pub open spec fn names_view(s: Seq<String>) -> Seq<Seq<char>> {
    s.map_values(|n: String| n@)
}

/// The plain-value view of an `if` branch.
pub open spec fn cond_view(c: Condition) -> ConditionView
    decreases c,
{
    ConditionView { condition: elem_view(c.condition), if_true: elems_view(c.if_true@) }
}

/// The plain-value view of the branches of an `if`.
pub open spec fn conds_view(s: Seq<Condition>) -> Seq<ConditionView>
    decreases s,
{
    if s.len() == 0 {
        Seq::empty()
    } else {
        seq![cond_view(s[0])] + conds_view(s.drop_first())
    }
}

/// The plain-value view of a parameter.
pub open spec fn arg_view(a: Argument) -> ArgumentView
    decreases a,
{
    ArgumentView {
        name: a.name@,
        type_: type_view(a.type_),
        default: match a.default {
            Some(d) => Some(elem_view(d)),
            None => None,
        },
    }
}

/// The plain-value view of a list of parameters.
pub open spec fn args_view(s: Seq<Argument>) -> Seq<ArgumentView>
    decreases s,
{
    if s.len() == 0 {
        Seq::empty()
    } else {
        seq![arg_view(s[0])] + args_view(s.drop_first())
    }
}

/// The plain-value view of a type.
pub open spec fn type_view(t: Type) -> TypeView
    decreases t,
{
    match t {
        Type::Instance { name, type_args, inst_attrs, implementation } => TypeView::Instance {
            name: name@,
            type_args: types_view(type_args@),
            inst_attrs: attrs_view(inst_attrs@),
            implementation: match implementation {
                Some(i) => Some(Box::new(type_view(*i))),
                None => None,
            },
        },
        Type::Definition { name, generics, class_attrs, inst_attrs } => TypeView::Definition {
            name: name@,
            generics: args_view(generics@),
            class_attrs: attrs_view(class_attrs@),
            inst_attrs: attrs_view(inst_attrs@),
        },
    }
}

/// The plain-value view of a list of types.
pub open spec fn types_view(s: Seq<Type>) -> Seq<TypeView>
    decreases s,
{
    if s.len() == 0 {
        Seq::empty()
    } else {
        seq![type_view(s[0])] + types_view(s.drop_first())
    }
}

} // verus!

verus! {

/// Each entry of a list's view is the view of the matching entry.
pub proof fn lemma_elems_view(s: Seq<Element>)
    ensures
        elems_view(s).len() == s.len(),
        forall|j: int| 0 <= j < s.len() ==> #[trigger] elems_view(s)[j] == elem_view(s[j]),
    decreases s.len(),
{
    if s.len() > 0 {
        lemma_elems_view(s.drop_first());
        assert forall|j: int| 0 <= j < s.len() implies #[trigger] elems_view(s)[j] == elem_view(
            s[j],
        ) by {
            if j > 0 {
                assert(s.drop_first()[j - 1] == s[j]);
            }
        }
    }
}

/// Each entry of a list's view is the view of the matching entry.
pub proof fn lemma_attrs_view(s: Seq<(String, Element)>)
    ensures
        attrs_view(s).len() == s.len(),
        forall|j: int| 0 <= j < s.len() ==> #[trigger] attrs_view(s)[j] == (s[j].0@, elem_view(s[j].1)),
    decreases s.len(),
{
    if s.len() > 0 {
        lemma_attrs_view(s.drop_first());
        assert forall|j: int| 0 <= j < s.len() implies #[trigger] attrs_view(s)[j] == (s[j].0@, elem_view(s[j].1)) by {
            if j > 0 {
                assert(s.drop_first()[j - 1] == s[j]);
            }
        }
    }
}

/// Each entry of a list's view is the view of the matching entry.
pub proof fn lemma_conds_view(s: Seq<Condition>)
    ensures
        conds_view(s).len() == s.len(),
        forall|j: int| 0 <= j < s.len() ==> #[trigger] conds_view(s)[j] == cond_view(s[j]),
    decreases s.len(),
{
    if s.len() > 0 {
        lemma_conds_view(s.drop_first());
        assert forall|j: int| 0 <= j < s.len() implies #[trigger] conds_view(s)[j] == cond_view(s[j]) by {
            if j > 0 {
                assert(s.drop_first()[j - 1] == s[j]);
            }
        }
    }
}

/// Each entry of a list's view is the view of the matching entry.
pub proof fn lemma_args_view(s: Seq<Argument>)
    ensures
        args_view(s).len() == s.len(),
        forall|j: int| 0 <= j < s.len() ==> #[trigger] args_view(s)[j] == arg_view(s[j]),
    decreases s.len(),
{
    if s.len() > 0 {
        lemma_args_view(s.drop_first());
        assert forall|j: int| 0 <= j < s.len() implies #[trigger] args_view(s)[j] == arg_view(s[j]) by {
            if j > 0 {
                assert(s.drop_first()[j - 1] == s[j]);
            }
        }
    }
}

/// Each entry of a list's view is the view of the matching entry.
pub proof fn lemma_types_view(s: Seq<Type>)
    ensures
        types_view(s).len() == s.len(),
        forall|j: int| 0 <= j < s.len() ==> #[trigger] types_view(s)[j] == type_view(s[j]),
    decreases s.len(),
{
    if s.len() > 0 {
        lemma_types_view(s.drop_first());
        assert forall|j: int| 0 <= j < s.len() implies #[trigger] types_view(s)[j] == type_view(s[j]) by {
            if j > 0 {
                assert(s.drop_first()[j - 1] == s[j]);
            }
        }
    }
}

/// A copy of a syntax tree.
pub fn clone_element(e: &Element) -> (res: Element)
    ensures
        elem_view(res) == elem_view(*e),
    decreases e,
{
    match e {
        Element::Comment { position, raw, content } => Element::Comment {
            position: position.clone(),
            raw: raw.clone(),
            content: content.clone(),
        },
        Element::Call { position, raw, called, args, kwargs } => Element::Call {
            position: position.clone(),
            raw: raw.clone(),
            called: Box::new(clone_element(&**called)),
            args: clone_elements(args),
            kwargs: clone_attrs(kwargs),
        },
        Element::UnaryOpr { position, raw, type_, operand } => Element::UnaryOpr {
            position: position.clone(),
            raw: raw.clone(),
            type_: *type_,
            operand: Box::new(clone_element(&**operand)),
        },
        Element::BinaryOpr { position, raw, type_, operand1, operand2 } => Element::BinaryOpr {
            position: position.clone(),
            raw: raw.clone(),
            type_: *type_,
            operand1: Box::new(clone_element(&**operand1)),
            operand2: Box::new(clone_element(&**operand2)),
        },
        Element::Declare { position, raw, variable, content, flags, type_ } => {
            let flags2 = flags.clone();
            proof {
                assert(flags2@ =~= flags@);
            }
            Element::Declare {
                position: position.clone(),
                raw: raw.clone(),
                variable: Box::new(clone_element(&**variable)),
                content: Box::new(clone_element(&**content)),
                flags: flags2,
                type_: clone_type(type_),
            }
        },
        Element::Assign { position, raw, variable, content } => Element::Assign {
            position: position.clone(),
            raw: raw.clone(),
            variable: Box::new(clone_element(&**variable)),
            content: Box::new(clone_element(&**content)),
        },
        Element::Literal { position, raw, type_, content } => Element::Literal {
            position: position.clone(),
            raw: raw.clone(),
            type_: clone_type(type_),
            content: content.clone(),
        },
        Element::Variable { position, raw, name, parent } => Element::Variable {
            position: position.clone(),
            raw: raw.clone(),
            name: name.clone(),
            parent: Box::new(clone_element(&**parent)),
        },
        Element::If { position, raw, conditions } => Element::If {
            position: position.clone(),
            raw: raw.clone(),
            conditions: clone_conds(conditions),
        },
        Element::Block { position, raw, content } => Element::Block {
            position: position.clone(),
            raw: raw.clone(),
            content: clone_elements(content),
        },
        Element::Delete { position, raw, names } => Element::Delete {
            position: position.clone(),
            raw: raw.clone(),
            names: clone_names(names),
        },
        Element::Return { position, raw, value } => Element::Return {
            position: position.clone(),
            raw: raw.clone(),
            value: Box::new(clone_element(&**value)),
        },
        Element::Procedure { position, raw, is_fn, args, return_type, content } =>
            Element::Procedure {
                position: position.clone(),
                raw: raw.clone(),
                is_fn: *is_fn,
                args: clone_args(args),
                return_type: clone_type(return_type),
                content: clone_elements(content),
            },
        Element::Preprocess { position, raw, content } => Element::Preprocess {
            position: position.clone(),
            raw: raw.clone(),
            content: clone_elements(content),
        },
        Element::Defer { position, raw, content } => Element::Defer {
            position: position.clone(),
            raw: raw.clone(),
            content: clone_elements(content),
        },
        Element::Class { position, raw, is_struct, class_attrs, inst_attrs, content, args } => {
            let args2 = match args {
                Some(a) => Some(clone_args(a)),
                None => None,
            };
            Element::Class {
                position: position.clone(),
                raw: raw.clone(),
                is_struct: *is_struct,
                class_attrs: clone_attrs(class_attrs),
                inst_attrs: clone_attrs(inst_attrs),
                content: clone_elements(content),
                args: args2,
            }
        },
        Element::NullElement => Element::NullElement,
        Element::Token(t) => Element::Token(t.clone()),
    }
}

/// A copy of a list of syntax trees.
pub fn clone_elements(v: &Vec<Element>) -> (res: Vec<Element>)
    ensures
        elems_view(res@) == elems_view(v@),
        res@.len() == v@.len(),
    decreases v,
{
    let mut res: Vec<Element> = Vec::new();
    let mut i: usize = 0;
    while i < v.len()
        invariant
            0 <= i <= v@.len(),
            res@.len() == i,
            forall|j: int| 0 <= j < i ==> elem_view(#[trigger] res@[j]) == elem_view(v@[j]),
        decreases v@.len() - i,
    {
        res.push(clone_element(&v[i]));
        i = i + 1;
    }
    proof {
        lemma_elems_view(res@);
        lemma_elems_view(v@);
        assert(elems_view(res@) =~= elems_view(v@));
    }
    res
}

/// A copy of a list of named attributes.
pub fn clone_attrs(v: &Vec<(String, Element)>) -> (res: Vec<(String, Element)>)
    ensures
        attrs_view(res@) == attrs_view(v@),
    decreases v,
{
    let mut res: Vec<(String, Element)> = Vec::new();
    let mut i: usize = 0;
    while i < v.len()
        invariant
            0 <= i <= v@.len(),
            res@.len() == i,
            forall|j: int|
                0 <= j < i ==> (#[trigger] res@[j]).0@ == v@[j].0@ && elem_view(res@[j].1)
                    == elem_view(v@[j].1),
        decreases v@.len() - i,
    {
        let name = v[i].0.clone();
        let value = clone_element(&v[i].1);
        res.push((name, value));
        i = i + 1;
    }
    proof {
        lemma_attrs_view(res@);
        lemma_attrs_view(v@);
        assert(attrs_view(res@) =~= attrs_view(v@));
    }
    res
}

/// A copy of a list of names.
pub fn clone_names(v: &Vec<String>) -> (res: Vec<String>)
    ensures
        names_view(res@) == names_view(v@),
{
    let mut res: Vec<String> = Vec::new();
    let mut i: usize = 0;
    while i < v.len()
        invariant
            0 <= i <= v@.len(),
            res@.len() == i,
            forall|j: int| 0 <= j < i ==> (#[trigger] res@[j])@ == v@[j]@,
        decreases v@.len() - i,
    {
        res.push(v[i].clone());
        i = i + 1;
    }
    proof {
        assert(names_view(res@) =~= names_view(v@));
    }
    res
}

/// A copy of an `if` branch.
pub fn clone_cond(c: &Condition) -> (res: Condition)
    ensures
        cond_view(res) == cond_view(*c),
    decreases c,
{
    Condition { condition: clone_element(&c.condition), if_true: clone_elements(&c.if_true) }
}

/// A copy of the branches of an `if`.
pub fn clone_conds(v: &Vec<Condition>) -> (res: Vec<Condition>)
    ensures
        conds_view(res@) == conds_view(v@),
    decreases v,
{
    let mut res: Vec<Condition> = Vec::new();
    let mut i: usize = 0;
    while i < v.len()
        invariant
            0 <= i <= v@.len(),
            res@.len() == i,
            forall|j: int| 0 <= j < i ==> cond_view(#[trigger] res@[j]) == cond_view(v@[j]),
        decreases v@.len() - i,
    {
        res.push(clone_cond(&v[i]));
        i = i + 1;
    }
    proof {
        lemma_conds_view(res@);
        lemma_conds_view(v@);
        assert(conds_view(res@) =~= conds_view(v@));
    }
    res
}

/// A copy of a parameter.
pub fn clone_arg(a: &Argument) -> (res: Argument)
    ensures
        arg_view(res) == arg_view(*a),
    decreases a,
{
    let default = match &a.default {
        Some(d) => Some(clone_element(d)),
        None => None,
    };
    Argument { name: a.name.clone(), type_: clone_type(&a.type_), default }
}

/// A copy of a list of parameters.
pub fn clone_args(v: &Vec<Argument>) -> (res: Vec<Argument>)
    ensures
        args_view(res@) == args_view(v@),
    decreases v,
{
    let mut res: Vec<Argument> = Vec::new();
    let mut i: usize = 0;
    while i < v.len()
        invariant
            0 <= i <= v@.len(),
            res@.len() == i,
            forall|j: int| 0 <= j < i ==> arg_view(#[trigger] res@[j]) == arg_view(v@[j]),
        decreases v@.len() - i,
    {
        res.push(clone_arg(&v[i]));
        i = i + 1;
    }
    proof {
        lemma_args_view(res@);
        lemma_args_view(v@);
        assert(args_view(res@) =~= args_view(v@));
    }
    res
}

/// A copy of a type.
pub fn clone_type(t: &Type) -> (res: Type)
    ensures
        type_view(res) == type_view(*t),
    decreases t,
{
    match t {
        Type::Instance { name, type_args, inst_attrs, implementation } => {
            let implementation2 = match implementation {
                Some(i) => Some(Box::new(clone_type(&**i))),
                None => None,
            };
            Type::Instance {
                name: name.clone(),
                type_args: clone_types(type_args),
                inst_attrs: clone_attrs(inst_attrs),
                implementation: implementation2,
            }
        },
        Type::Definition { name, generics, class_attrs, inst_attrs } => Type::Definition {
            name: name.clone(),
            generics: clone_args(generics),
            class_attrs: clone_attrs(class_attrs),
            inst_attrs: clone_attrs(inst_attrs),
        },
    }
}

/// A copy of a list of types.
pub fn clone_types(v: &Vec<Type>) -> (res: Vec<Type>)
    ensures
        types_view(res@) == types_view(v@),
    decreases v,
{
    let mut res: Vec<Type> = Vec::new();
    let mut i: usize = 0;
    while i < v.len()
        invariant
            0 <= i <= v@.len(),
            res@.len() == i,
            forall|j: int| 0 <= j < i ==> type_view(#[trigger] res@[j]) == type_view(v@[j]),
        decreases v@.len() - i,
    {
        res.push(clone_type(&v[i]));
        i = i + 1;
    }
    proof {
        lemma_types_view(res@);
        lemma_types_view(v@);
        assert(types_view(res@) =~= types_view(v@));
    }
    res
}

} // verus!

verus! {

/// Whether two syntax trees are the same in every field.
pub fn element_eq(a: &Element, b: &Element) -> (res: bool)
    ensures
        res == (elem_view(*a) == elem_view(*b)),
    decreases a,
{
    match (a, b) {
        (
            Element::Comment { position: p1, raw: r1, content: c1 },
            Element::Comment { position: p2, raw: r2, content: c2 },
        ) => p1.same_as(p2) && *r1 == *r2 && *c1 == *c2,
        (
            Element::Call { position: p1, raw: r1, called: c1, args: a1, kwargs: k1 },
            Element::Call { position: p2, raw: r2, called: c2, args: a2, kwargs: k2 },
        ) => p1.same_as(p2) && *r1 == *r2 && element_eq(&**c1, &**c2) && elements_eq(a1, a2)
            && attrs_eq(k1, k2),
        (
            Element::UnaryOpr { position: p1, raw: r1, type_: t1, operand: o1 },
            Element::UnaryOpr { position: p2, raw: r2, type_: t2, operand: o2 },
        ) => p1.same_as(p2) && *r1 == *r2 && *t1 == *t2 && element_eq(&**o1, &**o2),
        (
            Element::BinaryOpr { position: p1, raw: r1, type_: t1, operand1: x1, operand2: y1 },
            Element::BinaryOpr { position: p2, raw: r2, type_: t2, operand1: x2, operand2: y2 },
        ) => p1.same_as(p2) && *r1 == *r2 && *t1 == *t2 && element_eq(&**x1, &**x2)
            && element_eq(&**y1, &**y2),
        (
            Element::Declare { position: p1, raw: r1, variable: v1, content: c1, flags: f1, type_: t1 },
            Element::Declare { position: p2, raw: r2, variable: v2, content: c2, flags: f2, type_: t2 },
        ) => p1.same_as(p2) && *r1 == *r2 && element_eq(&**v1, &**v2) && element_eq(&**c1, &**c2)
            && flags_eq(f1, f2) && type_eq(t1, t2),
        (
            Element::Assign { position: p1, raw: r1, variable: v1, content: c1 },
            Element::Assign { position: p2, raw: r2, variable: v2, content: c2 },
        ) => p1.same_as(p2) && *r1 == *r2 && element_eq(&**v1, &**v2) && element_eq(&**c1, &**c2),
        (
            Element::Literal { position: p1, raw: r1, type_: t1, content: c1 },
            Element::Literal { position: p2, raw: r2, type_: t2, content: c2 },
        ) => p1.same_as(p2) && *r1 == *r2 && type_eq(t1, t2) && *c1 == *c2,
        (
            Element::Variable { position: p1, raw: r1, name: n1, parent: x1 },
            Element::Variable { position: p2, raw: r2, name: n2, parent: x2 },
        ) => p1.same_as(p2) && *r1 == *r2 && *n1 == *n2 && element_eq(&**x1, &**x2),
        (
            Element::If { position: p1, raw: r1, conditions: c1 },
            Element::If { position: p2, raw: r2, conditions: c2 },
        ) => p1.same_as(p2) && *r1 == *r2 && conds_eq(c1, c2),
        (
            Element::Block { position: p1, raw: r1, content: c1 },
            Element::Block { position: p2, raw: r2, content: c2 },
        ) => p1.same_as(p2) && *r1 == *r2 && elements_eq(c1, c2),
        (
            Element::Delete { position: p1, raw: r1, names: n1 },
            Element::Delete { position: p2, raw: r2, names: n2 },
        ) => p1.same_as(p2) && *r1 == *r2 && names_eq(n1, n2),
        (
            Element::Return { position: p1, raw: r1, value: v1 },
            Element::Return { position: p2, raw: r2, value: v2 },
        ) => p1.same_as(p2) && *r1 == *r2 && element_eq(&**v1, &**v2),
        (
            Element::Procedure { position: p1, raw: r1, is_fn: i1, args: a1, return_type: t1, content: c1 },
            Element::Procedure { position: p2, raw: r2, is_fn: i2, args: a2, return_type: t2, content: c2 },
        ) => p1.same_as(p2) && *r1 == *r2 && *i1 == *i2 && args_eq(a1, a2) && type_eq(t1, t2)
            && elements_eq(c1, c2),
        (
            Element::Preprocess { position: p1, raw: r1, content: c1 },
            Element::Preprocess { position: p2, raw: r2, content: c2 },
        ) => p1.same_as(p2) && *r1 == *r2 && elements_eq(c1, c2),
        (
            Element::Defer { position: p1, raw: r1, content: c1 },
            Element::Defer { position: p2, raw: r2, content: c2 },
        ) => p1.same_as(p2) && *r1 == *r2 && elements_eq(c1, c2),
        (
            Element::Class { position: p1, raw: r1, is_struct: s1, class_attrs: ca1, inst_attrs: ia1, content: c1, args: a1 },
            Element::Class { position: p2, raw: r2, is_struct: s2, class_attrs: ca2, inst_attrs: ia2, content: c2, args: a2 },
        ) => {
            let args_same = match (a1, a2) {
                (Some(x), Some(y)) => args_eq(x, y),
                (None, None) => true,
                _ => false,
            };
            p1.same_as(p2) && *r1 == *r2 && *s1 == *s2 && attrs_eq(ca1, ca2) && attrs_eq(ia1, ia2)
                && elements_eq(c1, c2) && args_same
        },
        (Element::NullElement, Element::NullElement) => true,
        (Element::Token(t1), Element::Token(t2)) => t1.same_as(t2),
        _ => false,
    }
}

/// Whether two lists of syntax trees are the same.
pub fn elements_eq(a: &Vec<Element>, b: &Vec<Element>) -> (res: bool)
    ensures
        res == (elems_view(a@) == elems_view(b@)),
    decreases a,
{
    proof {
        lemma_elems_view(a@);
        lemma_elems_view(b@);
    }
    if a.len() != b.len() {
        return false;
    }
    let mut i: usize = 0;
    while i < a.len()
        invariant
            a@.len() == b@.len(),
            0 <= i <= a@.len(),
            forall|j: int| 0 <= j < i ==> elem_view(#[trigger] a@[j]) == elem_view(b@[j]),
        decreases a@.len() - i,
    {
        if !element_eq(&a[i], &b[i]) {
            proof {
                lemma_elems_view(a@);
                lemma_elems_view(b@);
                assert(elems_view(a@)[i as int] != elems_view(b@)[i as int]);
            }
            return false;
        }
        i = i + 1;
    }
    proof {
        assert(elems_view(a@) =~= elems_view(b@));
    }
    true
}

/// Whether two lists of named attributes are the same.
pub fn attrs_eq(a: &Vec<(String, Element)>, b: &Vec<(String, Element)>) -> (res: bool)
    ensures
        res == (attrs_view(a@) == attrs_view(b@)),
    decreases a,
{
    proof {
        lemma_attrs_view(a@);
        lemma_attrs_view(b@);
    }
    if a.len() != b.len() {
        return false;
    }
    let mut i: usize = 0;
    while i < a.len()
        invariant
            a@.len() == b@.len(),
            0 <= i <= a@.len(),
            forall|j: int|
                0 <= j < i ==> (#[trigger] a@[j]).0@ == b@[j].0@ && elem_view(a@[j].1) == elem_view(
                    b@[j].1,
                ),
        decreases a@.len() - i,
    {
        if !(a[i].0 == b[i].0 && element_eq(&a[i].1, &b[i].1)) {
            proof {
                lemma_attrs_view(a@);
                lemma_attrs_view(b@);
                assert(attrs_view(a@)[i as int] != attrs_view(b@)[i as int]);
            }
            return false;
        }
        i = i + 1;
    }
    proof {
        assert(attrs_view(a@) =~= attrs_view(b@));
    }
    true
}

/// Whether two lists of names are the same.
pub fn names_eq(a: &Vec<String>, b: &Vec<String>) -> (res: bool)
    ensures
        res == (names_view(a@) == names_view(b@)),
{
    if a.len() != b.len() {
        proof {
            assert(names_view(a@).len() != names_view(b@).len());
        }
        return false;
    }
    let mut i: usize = 0;
    while i < a.len()
        invariant
            a@.len() == b@.len(),
            0 <= i <= a@.len(),
            forall|j: int| 0 <= j < i ==> (#[trigger] a@[j])@ == b@[j]@,
        decreases a@.len() - i,
    {
        if !(a[i] == b[i]) {
            proof {
                assert(names_view(a@)[i as int] != names_view(b@)[i as int]);
            }
            return false;
        }
        i = i + 1;
    }
    proof {
        assert(names_view(a@) =~= names_view(b@));
    }
    true
}

/// Whether two lists of flags are the same.
pub fn flags_eq(a: &Vec<Flag>, b: &Vec<Flag>) -> (res: bool)
    ensures
        res == (a@ == b@),
{
    if a.len() != b.len() {
        return false;
    }
    let mut i: usize = 0;
    while i < a.len()
        invariant
            a@.len() == b@.len(),
            0 <= i <= a@.len(),
            forall|j: int| 0 <= j < i ==> a@[j] == b@[j],
        decreases a@.len() - i,
    {
        if a[i] != b[i] {
            return false;
        }
        i = i + 1;
    }
    proof {
        assert(a@ =~= b@);
    }
    true
}

/// Whether two `if` branches are the same.
pub fn cond_eq(a: &Condition, b: &Condition) -> (res: bool)
    ensures
        res == (cond_view(*a) == cond_view(*b)),
    decreases a,
{
    element_eq(&a.condition, &b.condition) && elements_eq(&a.if_true, &b.if_true)
}

/// Whether two lists of `if` branches are the same.
pub fn conds_eq(a: &Vec<Condition>, b: &Vec<Condition>) -> (res: bool)
    ensures
        res == (conds_view(a@) == conds_view(b@)),
    decreases a,
{
    proof {
        lemma_conds_view(a@);
        lemma_conds_view(b@);
    }
    if a.len() != b.len() {
        return false;
    }
    let mut i: usize = 0;
    while i < a.len()
        invariant
            a@.len() == b@.len(),
            0 <= i <= a@.len(),
            forall|j: int| 0 <= j < i ==> cond_view(#[trigger] a@[j]) == cond_view(b@[j]),
        decreases a@.len() - i,
    {
        if !cond_eq(&a[i], &b[i]) {
            proof {
                lemma_conds_view(a@);
                lemma_conds_view(b@);
                assert(conds_view(a@)[i as int] != conds_view(b@)[i as int]);
            }
            return false;
        }
        i = i + 1;
    }
    proof {
        assert(conds_view(a@) =~= conds_view(b@));
    }
    true
}

/// Whether two parameters are the same.
pub fn arg_eq(a: &Argument, b: &Argument) -> (res: bool)
    ensures
        res == (arg_view(*a) == arg_view(*b)),
    decreases a,
{
    let default_same = match (&a.default, &b.default) {
        (Some(x), Some(y)) => element_eq(x, y),
        (None, None) => true,
        _ => false,
    };
    a.name == b.name && type_eq(&a.type_, &b.type_) && default_same
}

/// Whether two lists of parameters are the same.
pub fn args_eq(a: &Vec<Argument>, b: &Vec<Argument>) -> (res: bool)
    ensures
        res == (args_view(a@) == args_view(b@)),
    decreases a,
{
    proof {
        lemma_args_view(a@);
        lemma_args_view(b@);
    }
    if a.len() != b.len() {
        return false;
    }
    let mut i: usize = 0;
    while i < a.len()
        invariant
            a@.len() == b@.len(),
            0 <= i <= a@.len(),
            forall|j: int| 0 <= j < i ==> arg_view(#[trigger] a@[j]) == arg_view(b@[j]),
        decreases a@.len() - i,
    {
        if !arg_eq(&a[i], &b[i]) {
            proof {
                lemma_args_view(a@);
                lemma_args_view(b@);
                assert(args_view(a@)[i as int] != args_view(b@)[i as int]);
            }
            return false;
        }
        i = i + 1;
    }
    proof {
        assert(args_view(a@) =~= args_view(b@));
    }
    true
}

/// Whether two types are the same.
pub fn type_eq(a: &Type, b: &Type) -> (res: bool)
    ensures
        res == (type_view(*a) == type_view(*b)),
    decreases a,
{
    match (a, b) {
        (
            Type::Instance { name: n1, type_args: t1, inst_attrs: i1, implementation: m1 },
            Type::Instance { name: n2, type_args: t2, inst_attrs: i2, implementation: m2 },
        ) => {
            let impl_same = match (m1, m2) {
                (Some(x), Some(y)) => type_eq(&**x, &**y),
                (None, None) => true,
                _ => false,
            };
            *n1 == *n2 && types_eq(t1, t2) && attrs_eq(i1, i2) && impl_same
        },
        (
            Type::Definition { name: n1, generics: g1, class_attrs: c1, inst_attrs: i1 },
            Type::Definition { name: n2, generics: g2, class_attrs: c2, inst_attrs: i2 },
        ) => *n1 == *n2 && args_eq(g1, g2) && attrs_eq(c1, c2) && attrs_eq(i1, i2),
        _ => false,
    }
}

/// Whether two lists of types are the same.
pub fn types_eq(a: &Vec<Type>, b: &Vec<Type>) -> (res: bool)
    ensures
        res == (types_view(a@) == types_view(b@)),
    decreases a,
{
    proof {
        lemma_types_view(a@);
        lemma_types_view(b@);
    }
    if a.len() != b.len() {
        return false;
    }
    let mut i: usize = 0;
    while i < a.len()
        invariant
            a@.len() == b@.len(),
            0 <= i <= a@.len(),
            forall|j: int| 0 <= j < i ==> type_view(#[trigger] a@[j]) == type_view(b@[j]),
        decreases a@.len() - i,
    {
        if !type_eq(&a[i], &b[i]) {
            proof {
                lemma_types_view(a@);
                lemma_types_view(b@);
                assert(types_view(a@)[i as int] != types_view(b@)[i as int]);
            }
            return false;
        }
        i = i + 1;
    }
    proof {
        assert(types_view(a@) =~= types_view(b@));
    }
    true
}

impl Clone for Element {
    fn clone(&self) -> (res: Self)
        ensures
            elem_view(res) == elem_view(*self),
    {
        clone_element(self)
    }
}

impl Clone for Type {
    fn clone(&self) -> (res: Self)
        ensures
            type_view(res) == type_view(*self),
    {
        clone_type(self)
    }
}

impl Clone for Argument {
    fn clone(&self) -> (res: Self)
        ensures
            arg_view(res) == arg_view(*self),
    {
        clone_arg(self)
    }
}

impl Clone for Condition {
    fn clone(&self) -> (res: Self)
        ensures
            cond_view(res) == cond_view(*self),
    {
        clone_cond(self)
    }
}

} // verus!

verus! {

/// The source text of a syntax tree: a token's whitespace and value, the
/// recorded raw text of any other node, nothing for the null element.
pub open spec fn raw_of(e: ElementView) -> Seq<char> {
    match e {
        ElementView::NullElement => Seq::empty(),
        ElementView::Token(t) => t.whitespace + t.value,
        ElementView::Comment { raw, .. } => raw,
        ElementView::Call { raw, .. } => raw,
        ElementView::UnaryOpr { raw, .. } => raw,
        ElementView::BinaryOpr { raw, .. } => raw,
        ElementView::Declare { raw, .. } => raw,
        ElementView::Assign { raw, .. } => raw,
        ElementView::Literal { raw, .. } => raw,
        ElementView::Variable { raw, .. } => raw,
        ElementView::If { raw, .. } => raw,
        ElementView::Block { raw, .. } => raw,
        ElementView::Delete { raw, .. } => raw,
        ElementView::Return { raw, .. } => raw,
        ElementView::Procedure { raw, .. } => raw,
        ElementView::Preprocess { raw, .. } => raw,
        ElementView::Defer { raw, .. } => raw,
        ElementView::Class { raw, .. } => raw,
    }
}

/// The position of a syntax tree that is not the null element.
pub open spec fn pos_of(e: ElementView) -> PositionView {
    match e {
        ElementView::NullElement => PositionView { filename: Seq::empty(), line: 0, column: 0 },
        ElementView::Token(t) => t.position,
        ElementView::Comment { position, .. } => position,
        ElementView::Call { position, .. } => position,
        ElementView::UnaryOpr { position, .. } => position,
        ElementView::BinaryOpr { position, .. } => position,
        ElementView::Declare { position, .. } => position,
        ElementView::Assign { position, .. } => position,
        ElementView::Literal { position, .. } => position,
        ElementView::Variable { position, .. } => position,
        ElementView::If { position, .. } => position,
        ElementView::Block { position, .. } => position,
        ElementView::Delete { position, .. } => position,
        ElementView::Return { position, .. } => position,
        ElementView::Procedure { position, .. } => position,
        ElementView::Preprocess { position, .. } => position,
        ElementView::Defer { position, .. } => position,
        ElementView::Class { position, .. } => position,
    }
}

/// Source texts joined by newlines.
pub open spec fn raw_lines(s: Seq<ElementView>) -> Seq<char>
    decreases s.len(),
{
    if s.len() == 0 {
        Seq::empty()
    } else if s.len() == 1 {
        raw_of(s[0])
    } else {
        raw_lines(s.drop_last()) + seq!['\n'] + raw_of(s.last())
    }
}

/// The source text of a list of syntax trees.
pub trait VecElementRaw {
    /// The source texts of the entries, one per line.
    spec fn spec_raw_lines(&self) -> Seq<char>;

    /// The source texts of the entries, one per line.
    fn get_raw(&self) -> (res: String)
        ensures
            res@ == self.spec_raw_lines();
}

impl VecElementRaw for Vec<Element> {
    open spec fn spec_raw_lines(&self) -> Seq<char> {
        raw_lines(elems_view(self@))
    }

    fn get_raw(&self) -> (res: String) {
        let ghost ev = elems_view(self@);
        proof {
            lemma_elems_view(self@);
        }
        let mut s = String::new();
        let mut i: usize = 0;
        while i < self.len()
            invariant
                ev == elems_view(self@),
                ev.len() == self@.len(),
                forall|j: int| 0 <= j < ev.len() ==> #[trigger] ev[j] == elem_view(self@[j]),
                0 <= i <= self@.len(),
                s@ == raw_lines(ev.subrange(0, i as int)),
            decreases self@.len() - i,
        {
            let part = self[i].get_raw();
            let ghost before = s@;
            if i > 0 {
                push_char(&mut s, '\n');
            }
            s.append(part.as_str());
            proof {
                let sub = ev.subrange(0, i + 1);
                assert(sub.drop_last() =~= ev.subrange(0, i as int));
                assert(sub.last() == ev[i as int]);
                if i == 0 {
                    assert(before =~= Seq::<char>::empty());
                    assert(s@ =~= raw_lines(sub));
                } else {
                    assert(s@ =~= before + seq!['\n'] + part@);
                }
            }
            i = i + 1;
        }
        proof {
            assert(ev.subrange(0, ev.len() as int) =~= ev);
        }
        s
    }
}

impl Element {
    /// Where the element starts in the source.
    pub fn get_pos(&self) -> (res: &Position)
        requires
            !(*self is NullElement),
        ensures
            res@ == pos_of(elem_view(*self)),
    {
        match self {
            Element::NullElement => vstd::pervasive::unreached(),
            Element::Token(t) => &t.position,
            Element::Comment { position, .. } => position,
            Element::Call { position, .. } => position,
            Element::UnaryOpr { position, .. } => position,
            Element::BinaryOpr { position, .. } => position,
            Element::Declare { position, .. } => position,
            Element::Assign { position, .. } => position,
            Element::Literal { position, .. } => position,
            Element::Variable { position, .. } => position,
            Element::If { position, .. } => position,
            Element::Block { position, .. } => position,
            Element::Delete { position, .. } => position,
            Element::Return { position, .. } => position,
            Element::Procedure { position, .. } => position,
            Element::Preprocess { position, .. } => position,
            Element::Defer { position, .. } => position,
            Element::Class { position, .. } => position,
        }
    }

    /// The element's source text (see `raw_of`).
    pub fn get_raw(&self) -> (res: String)
        ensures
            res@ == raw_of(elem_view(*self)),
    {
        match self {
            Element::NullElement => String::new(),
            Element::Token(t) => t.get_raw(),
            Element::Comment { raw, .. } => raw.clone(),
            Element::Call { raw, .. } => raw.clone(),
            Element::UnaryOpr { raw, .. } => raw.clone(),
            Element::BinaryOpr { raw, .. } => raw.clone(),
            Element::Declare { raw, .. } => raw.clone(),
            Element::Assign { raw, .. } => raw.clone(),
            Element::Literal { raw, .. } => raw.clone(),
            Element::Variable { raw, .. } => raw.clone(),
            Element::If { raw, .. } => raw.clone(),
            Element::Block { raw, .. } => raw.clone(),
            Element::Delete { raw, .. } => raw.clone(),
            Element::Return { raw, .. } => raw.clone(),
            Element::Procedure { raw, .. } => raw.clone(),
            Element::Preprocess { raw, .. } => raw.clone(),
            Element::Defer { raw, .. } => raw.clone(),
            Element::Class { raw, .. } => raw.clone(),
        }
    }

    /// The name of a variable element.
    pub fn get_name(&self) -> (res: String)
        requires
            *self is Variable,
        ensures
            self matches Element::Variable { name, .. } && res@ == name@,
    {
        match self {
            Element::Variable { name, .. } => name.clone(),
            _ => String::new(),
        }
    }

    /// The type a variable element names.
    pub fn as_type(&self) -> (res: Type)
        requires
            *self is Variable,
        ensures
            self matches Element::Variable { name, .. } && type_view(res) == named_type(name@),
    {
        match self {
            Element::Variable { name, .. } => Type::from_str(name.as_str()),
            _ => Type::null(),
        }
    }

    /// Whether the element can stand on the left of a declaration or an
    /// assignment: only a variable can.
    pub fn is_pattern(&self) -> (res: bool)
        ensures
            res == (*self is Variable),
    {
        match self {
            Element::Variable { .. } => true,
            _ => false,
        }
    }
}


/// A copy of a list of blocks.
pub fn clone_blocks(v: &Vec<Vec<Element>>) -> (res: Vec<Vec<Element>>)
    ensures
        res@.len() == v@.len(),
        forall|j: int| 0 <= j < v@.len() ==> elems_view((#[trigger] res@[j])@) == elems_view(v@[j]@),
{
    let mut res: Vec<Vec<Element>> = Vec::new();
    let mut i: usize = 0;
    while i < v.len()
        invariant
            0 <= i <= v@.len(),
            res@.len() == i,
            forall|j: int| 0 <= j < i ==> elems_view((#[trigger] res@[j])@) == elems_view(v@[j]@),
        decreases v@.len() - i,
    {
        res.push(clone_elements(&v[i]));
        i = i + 1;
    }
    res
}

} // verus!
