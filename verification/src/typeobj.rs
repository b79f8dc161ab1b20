use vstd::prelude::*;
use vstd::string::*;
use crate::element::{Argument, Element, ElementView, TypeView, ArgumentView, elem_view, attrs_view, types_view, type_view, type_eq, clone_element, lemma_attrs_view, lemma_types_view};
use crate::position::Position;
use crate::text::push_char;

verus! {

/// A type of the language.
#[derive(Debug)]
pub enum Type {
    /// `str`, `bool`, `proc<...>` and the like: a type of values.
    Instance {
        name: String,
        type_args: Vec<Type>,
        inst_attrs: Vec<(String, Element)>,
        implementation: Option<Box<Type>>,
    },
    /// A class or struct: something that implements a type.
    Definition {
        name: String,
        generics: Vec<Argument>,
        class_attrs: Vec<(String, Element)>,
        inst_attrs: Vec<(String, Element)>,
    },
}

} // verus!

verus! {

broadcast use vstd::std_specs::vec::group_vec_axioms;

/// The view of a type with only a name.
pub open spec fn named_type(name: Seq<char>) -> TypeView {
    TypeView::Instance {
        name,
        type_args: Seq::empty(),
        inst_attrs: Seq::empty(),
        implementation: None,
    }
}

/// The name of a type.
pub open spec fn name_of_type(t: TypeView) -> Seq<char> {
    match t {
        TypeView::Instance { name, .. } => name,
        TypeView::Definition { name, .. } => name,
    }
}

/// How a type is written: its name, then its type arguments between angle
/// brackets, separated by `, `, if it has any.
pub open spec fn type_text(t: TypeView) -> Seq<char>
    decreases t,
{
    match t {
        TypeView::Instance { name, type_args, .. } => if type_args.len() == 0 {
            name
        } else {
            name + seq!['<'] + type_list_text(type_args) + seq!['>']
        },
        TypeView::Definition { name, .. } => name,
    }
}

/// Types written one after the other, separated by `, `.
pub open spec fn type_list_text(s: Seq<TypeView>) -> Seq<char>
    decreases s,
{
    if s.len() == 0 {
        Seq::empty()
    } else if s.len() == 1 {
        type_text(s[0])
    } else {
        type_list_text(s.drop_last()) + seq![',', ' '] + type_text(s.last())
    }
}

/// A map from names to syntax trees, built by inserting the entries in order.
pub open spec fn attr_map(s: Seq<(Seq<char>, ElementView)>) -> Map<Seq<char>, ElementView>
    decreases s.len(),
{
    if s.len() == 0 {
        Map::empty()
    } else {
        attr_map(s.drop_last()).insert(s.last().0, s.last().1)
    }
}

/// The attributes a type gives its values: for an instance, its own instance
/// attributes, overridden by those of its implementation; for a definition,
/// its class attributes, overridden by its instance attributes.
pub open spec fn type_attrs(t: TypeView) -> Map<Seq<char>, ElementView>
    decreases t,
{
    match t {
        TypeView::Instance { inst_attrs, implementation, .. } => match implementation {
            Some(i) => attr_map(inst_attrs).union_prefer_right(type_attrs(*i)),
            None => attr_map(inst_attrs),
        },
        TypeView::Definition { class_attrs, inst_attrs, .. } => attr_map(
            class_attrs,
        ).union_prefer_right(attr_map(inst_attrs)),
    }
}

/// Whether no name occurs twice among the entries.
pub open spec fn unique_names(s: Seq<(Seq<char>, ElementView)>) -> bool {
    forall|i: int, j: int| 0 <= i < j < s.len() ==> s[i].0 != s[j].0
}

/// With unique names, the map holds exactly the entries.
proof fn lemma_attr_map_unique(s: Seq<(Seq<char>, ElementView)>)
    requires
        unique_names(s),
    ensures
        forall|k: Seq<char>| #[trigger] attr_map(s).contains_key(k) <==> exists|i: int|
            0 <= i < s.len() && s[i].0 == k,
        forall|i: int| 0 <= i < s.len() ==> #[trigger] attr_map(s)[s[i].0] == s[i].1,
    decreases s.len(),
{
    if s.len() > 0 {
        let t = s.drop_last();
        assert(unique_names(t));
        lemma_attr_map_unique(t);
        assert forall|k: Seq<char>| #[trigger] attr_map(s).contains_key(k) <==> exists|i: int|
            0 <= i < s.len() && s[i].0 == k by {
            if attr_map(s).contains_key(k) && k != s.last().0 {
                assert(attr_map(t).contains_key(k));
                let i = choose|i: int| 0 <= i < t.len() && t[i].0 == k;
                assert(s[i].0 == k);
            }
            if exists|i: int| 0 <= i < s.len() && s[i].0 == k {
                let i = choose|i: int| 0 <= i < s.len() && s[i].0 == k;
                if i < s.len() - 1 {
                    assert(t[i].0 == k);
                    assert(attr_map(t).contains_key(k));
                }
            }
        }
        assert forall|i: int| 0 <= i < s.len() implies #[trigger] attr_map(s)[s[i].0] == s[i].1 by {
            if i < s.len() - 1 {
                assert(t[i] == s[i]);
                assert(s[i].0 != s[s.len() - 1].0);
                assert(attr_map(t)[t[i].0] == t[i].1);
            }
        }
    }
}

/// Writes a name–tree pair into a list with unique names: replaces the entry
/// of that name if there is one, else adds it at the end.
fn insert_attr(attrs: &mut Vec<(String, Element)>, name: &String, value: &Element)
    requires
        unique_names(attrs_view(old(attrs)@)),
    ensures
        unique_names(attrs_view(final(attrs)@)),
        attr_map(attrs_view(final(attrs)@)) == attr_map(attrs_view(old(attrs)@)).insert(
            name@,
            elem_view(*value),
        ),
{
    let ghost before = attrs_view(attrs@);
    proof {
        lemma_attrs_view(attrs@);
        lemma_attr_map_unique(before);
    }
    let mut i: usize = 0;
    while i < attrs.len()
        invariant
            attrs@ == old(attrs)@,
            before == attrs_view(attrs@),
            unique_names(before),
            before.len() == attrs@.len(),
            forall|j: int| 0 <= j < attrs@.len() ==> #[trigger] before[j] == (attrs@[j].0@, elem_view(attrs@[j].1)),
            0 <= i <= attrs@.len(),
            forall|j: int| 0 <= j < i ==> before[j].0 != name@,
        decreases attrs@.len() - i,
    {
        if attrs[i].0 == *name {
            let ghost old_v = attrs@;
            attrs.set(i, (name.clone(), clone_element(value)));
            proof {
                lemma_attrs_view(attrs@);
                let after = attrs_view(attrs@);
                assert(after =~= before.update(i as int, (name@, elem_view(*value))));
                assert(before[i as int].0 == name@);
                assert forall|a: int, b: int| 0 <= a < b < after.len() implies after[a].0 != after[b].0 by {
                    assert(after[a].0 == before[a].0);
                    assert(after[b].0 == before[b].0);
                }
                assert(unique_names(after));
                lemma_attr_map_unique(after);
                lemma_attr_map_unique(before);
                let expect = attr_map(before).insert(name@, elem_view(*value));
                assert forall|k: Seq<char>| #[trigger] attr_map(after).contains_key(k) <==> expect.contains_key(k) by {
                    if attr_map(after).contains_key(k) {
                        let j = choose|j: int| 0 <= j < after.len() && after[j].0 == k;
                        if j != i {
                            assert(before[j].0 == k);
                        }
                    }
                    if expect.contains_key(k) && k != name@ {
                        assert(attr_map(before).contains_key(k));
                        let j = choose|j: int| 0 <= j < before.len() && before[j].0 == k;
                        assert(j != i);
                        assert(after[j].0 == k);
                    }
                    if k == name@ {
                        assert(after[i as int].0 == k);
                    }
                }
                assert forall|k: Seq<char>| #[trigger] attr_map(after).contains_key(k) implies attr_map(after)[k] == expect[k] by {
                    let j = choose|j: int| 0 <= j < after.len() && after[j].0 == k;
                    assert(attr_map(after)[after[j].0] == after[j].1);
                    if j != i {
                        assert(before[j] == after[j]);
                        assert(attr_map(before)[before[j].0] == before[j].1);
                    }
                }
                assert(attr_map(after) =~= expect);
            }
            return;
        }
        i = i + 1;
    }
    attrs.push((name.clone(), clone_element(value)));
    proof {
        lemma_attrs_view(attrs@);
        let after = attrs_view(attrs@);
        assert(after =~= before.push((name@, elem_view(*value))));
        assert(after.drop_last() =~= before);
    }
}

impl Type {
    /// The type of the given name, with no type arguments or attributes.
    pub fn from_str(s: &str) -> (res: Type)
        ensures
            type_view(res) == named_type(s@),
    {
        let res = Type::Instance {
            name: String::from_str(s),
            type_args: Vec::new(),
            inst_attrs: Vec::new(),
            implementation: None,
        };
        proof {
            assert(types_view(Seq::<Type>::empty()) =~= Seq::<TypeView>::empty());
            assert(attrs_view(Seq::<(String, Element)>::empty()) =~= Seq::empty());
        }
        res
    }

    /// The type of `null`: `#null`.
    pub fn null() -> (res: Type)
        ensures
            type_view(res) == named_type("#null"@),
    {
        Type::from_str("#null")
    }

    /// The type that accepts anything: `#any`.
    pub fn any() -> (res: Type)
        ensures
            type_view(res) == named_type("#any"@),
    {
        Type::from_str("#any")
    }

    /// Whether this is the type of the given name, with nothing more to it.
    pub fn is_named(&self, s: &str) -> (res: bool)
        ensures
            res == (type_view(*self) == named_type(s@)),
    {
        let other = Type::from_str(s);
        type_eq(self, &other)
    }

    /// The name of the type.
    pub fn name(&self) -> (res: &String)
        ensures
            res@ == name_of_type(type_view(*self)),
    {
        match self {
            Type::Instance { name, .. } => name,
            Type::Definition { name, .. } => name,
        }
    }

    /// How the type is written (see `type_text`).
    pub fn to_text(&self) -> (res: String)
        ensures
            res@ == type_text(type_view(*self)),
        decreases self,
    {
        match self {
            Type::Instance { name, type_args, .. } => {
                proof {
                    lemma_types_view(type_args@);
                }
                if type_args.len() == 0 {
                    name.clone()
                } else {
                    let mut s = name.clone();
                    push_char(&mut s, '<');
                    let inner = types_to_text(type_args);
                    s.append(inner.as_str());
                    push_char(&mut s, '>');
                    s
                }
            },
            Type::Definition { name, .. } => name.clone(),
        }
    }

    /// The element that names this type: a variable of the type's name whose
    /// raw text is the type as written.
    pub fn as_element(&self) -> (res: Element)
        requires
            self is Instance,
        ensures
            res matches Element::Variable { name, raw, parent, .. } && name@ == name_of_type(
                type_view(*self),
            ) && raw@ == type_text(type_view(*self)) && *parent == Element::NullElement,
            elem_view(res) matches ElementView::Variable { position, .. } && position.filename
                == "[unknown]"@ && position.line == 1 && position.column == 1,
    {
        match self {
            Type::Instance { name, .. } => Element::Variable {
                position: Position::default_pos(),
                name: name.clone(),
                raw: self.to_text(),
                parent: Box::new(Element::NullElement),
            },
            Type::Definition { .. } => Element::NullElement,
        }
    }

    /// The attributes the type gives its values (see `type_attrs`), each name once.
    pub fn get_attrs(&self) -> (res: Vec<(String, Element)>)
        ensures
            unique_names(attrs_view(res@)),
            attr_map(attrs_view(res@)) == type_attrs(type_view(*self)),
        decreases self,
    {
        let mut attrs: Vec<(String, Element)> = Vec::new();
        proof {
            assert(attrs_view(attrs@) =~= Seq::empty());
        }
        match self {
            Type::Instance { inst_attrs, implementation, .. } => {
                add_attrs(&mut attrs, inst_attrs);
                match implementation {
                    Some(i) => {
                        let more = i.get_attrs();
                        add_attrs(&mut attrs, &more);
                        proof {
                            lemma_attrs_view(more@);
                            lemma_attr_map_unique(attrs_view(more@));
                            assert(attr_map(attrs_view(attrs@)) =~= attr_map(attrs_view(inst_attrs@)).union_prefer_right(type_attrs(type_view(**i))));
                        }
                    },
                    None => {},
                }
            },
            Type::Definition { class_attrs, inst_attrs, .. } => {
                add_attrs(&mut attrs, class_attrs);
                add_attrs(&mut attrs, inst_attrs);
            },
        }
        attrs
    }
}

/// Types as written, separated by `, ` (see `type_list_text`).
#[verifier::rlimit(40)]
fn types_to_text(v: &Vec<Type>) -> (res: String)
    ensures
        res@ == type_list_text(types_view(v@)),
    decreases v,
{
    let ghost tv = types_view(v@);
    proof {
        lemma_types_view(v@);
    }
    let mut s = String::new();
    let mut i: usize = 0;
    while i < v.len()
        invariant
            tv == types_view(v@),
            tv.len() == v@.len(),
            forall|j: int| 0 <= j < tv.len() ==> #[trigger] tv[j] == type_view(v@[j]),
            0 <= i <= v@.len(),
            s@ == type_list_text(tv.subrange(0, i as int)),
        decreases v@.len() - i,
    {
        let part = v[i].to_text();
        let ghost before = s@;
        if i > 0 {
            push_char(&mut s, ',');
            push_char(&mut s, ' ');
        }
        s.append(part.as_str());
        proof {
            let sub = tv.subrange(0, i + 1);
            assert(sub.drop_last() =~= tv.subrange(0, i as int));
            assert(sub.last() == tv[i as int]);
            if i == 0 {
                assert(type_list_text(sub) == type_text(sub[0]));
                assert(before =~= Seq::<char>::empty());
                assert(s@ =~= part@);
            } else {
                assert(type_list_text(sub) == type_list_text(sub.drop_last()) + seq![',', ' '] + type_text(sub.last()));
                assert(s@ =~= before + seq![',', ' '] + part@);
            }
        }
        i = i + 1;
    }
    proof {
        assert(tv.subrange(0, tv.len() as int) =~= tv);
    }
    s
}

/// Writes each entry of `more`, in order, into a list with unique names.
fn add_attrs(attrs: &mut Vec<(String, Element)>, more: &Vec<(String, Element)>)
    requires
        unique_names(attrs_view(old(attrs)@)),
    ensures
        unique_names(attrs_view(final(attrs)@)),
        attr_map(attrs_view(final(attrs)@)) == attr_map(attrs_view(old(attrs)@)).union_prefer_right(
            attr_map(attrs_view(more@)),
        ),
{
    let ghost start = attr_map(attrs_view(attrs@));
    let ghost mv = attrs_view(more@);
    proof {
        lemma_attrs_view(more@);
    }
    let mut i: usize = 0;
    while i < more.len()
        invariant
            mv == attrs_view(more@),
            mv.len() == more@.len(),
            forall|j: int| 0 <= j < mv.len() ==> #[trigger] mv[j] == (more@[j].0@, elem_view(more@[j].1)),
            0 <= i <= more@.len(),
            unique_names(attrs_view(attrs@)),
            attr_map(attrs_view(attrs@)) == start.union_prefer_right(attr_map(mv.subrange(0, i as int))),
        decreases more@.len() - i,
    {
        insert_attr(attrs, &more[i].0, &more[i].1);
        proof {
            let sub = mv.subrange(0, i + 1);
            assert(sub.drop_last() =~= mv.subrange(0, i as int));
            assert(attr_map(attrs_view(attrs@)) =~= start.union_prefer_right(attr_map(sub)));
        }
        i = i + 1;
    }
    proof {
        assert(mv.subrange(0, mv.len() as int) =~= mv);
    }
}

} // verus!
