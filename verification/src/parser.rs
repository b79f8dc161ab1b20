use vstd::prelude::*;
use vstd::string::*;
use crate::element::{
    Argument, Condition, Element, ElementView, elem_view, elems_view, clone_element,
    clone_elements, lemma_elems_view, pos_of, raw_of,
};
use crate::errors::{
    ZyxtError, internal_error, error_2_0_1, error_2_0_2, error_2_1_0, error_2_1_2, error_2_1_3,
    error_2_1_4, error_2_1_5, error_2_1_6, error_2_1_7, error_2_1_8, error_2_1_9, error_2_1_10,
    error_2_1_11, error_2_1_12, error_2_1_14, error_2_1_15, error_2_1_16, error_2_1_17,
    error_2_1_18,
};
use crate::position::Position;
use crate::text::{str_eq, trim_text, contains_char, push_char};
use crate::token::{Keyword, OprType, Side, Token, TokenCategory, TokenType, TokenView, get_order, spec_order};
use crate::typeobj::{Type, named_type};
use crate::lexer::toks_view;
use crate::value::IntKind;
use crate::value::typecast::{parse_int, parse_int_spec};

verus! {

broadcast use vstd::std_specs::vec::group_vec_axioms;

// ----------------------------------------------------------------------
// Helpers
// ----------------------------------------------------------------------

/// The type of a token element; none for any other element.
pub open spec fn tok_type(e: ElementView) -> Option<TokenType> {
    match e {
        ElementView::Token(t) => Some(t.type_),
        _ => None,
    }
}

/// Whether an element is a token of the type.
pub open spec fn is_tok(e: ElementView, ty: TokenType) -> bool {
    tok_type(e) == Some(ty)
}

/// The type of a token element (see `tok_type`).
fn token_type_of(e: &Element) -> (res: Option<TokenType>)
    ensures
        res == tok_type(elem_view(*e)),
{
    match e {
        Element::Token(t) => Some(t.type_),
        _ => None,
    }
}

/// Whether the token belongs to the category.
fn has_category(t: &Token, c: TokenCategory) -> (res: bool)
    ensures
        res == t.categories@.contains(c),
{
    let mut i: usize = 0;
    while i < t.categories.len()
        invariant
            0 <= i <= t.categories@.len(),
            forall|j: int| 0 <= j < i ==> t.categories@[j] != c,
        decreases t.categories@.len() - i,
    {
        if t.categories[i] == c {
            return true;
        }
        i = i + 1;
    }
    false
}

/// A copy of the elements from `from` up to `to`.
fn clone_range(v: &Vec<Element>, from: usize, to: usize) -> (res: Vec<Element>)
    requires
        from <= to <= v@.len(),
    ensures
        res@.len() == to - from,
        forall|k: int| 0 <= k < to - from ==> elem_view(#[trigger] res@[k]) == elem_view(v@[from + k]),
{
    let mut res: Vec<Element> = Vec::new();
    let mut i: usize = from;
    while i < to
        invariant
            from <= i <= to,
            to <= v@.len(),
            res@.len() == i - from,
            forall|k: int| 0 <= k < i - from ==> elem_view(#[trigger] res@[k]) == elem_view(v@[from + k]),
        decreases to - i,
    {
        res.push(clone_element(&v[i]));
        i = i + 1;
    }
    res
}

/// The source texts of elements, one after the other.
pub open spec fn raw_concat(s: Seq<ElementView>) -> Seq<char>
    decreases s.len(),
{
    if s.len() == 0 {
        Seq::empty()
    } else {
        raw_concat(s.drop_last()) + raw_of(s.last())
    }
}

/// The source texts of the elements from `from` up to `to`, one after the other.
fn raws_between(v: &Vec<Element>, from: usize, to: usize) -> (res: String)
    requires
        from <= to <= v@.len(),
    ensures
        res@ == raw_concat(elems_view(v@).subrange(from as int, to as int)),
{
    let ghost ev = elems_view(v@);
    proof {
        lemma_elems_view(v@);
    }
    let mut s = String::new();
    let mut i: usize = from;
    proof {
        assert(ev.subrange(from as int, from as int) =~= Seq::<ElementView>::empty());
    }
    while i < to
        invariant
            from <= i <= to,
            to <= v@.len(),
            ev == elems_view(v@),
            ev.len() == v@.len(),
            forall|j: int| 0 <= j < ev.len() ==> #[trigger] ev[j] == elem_view(v@[j]),
            s@ == raw_concat(ev.subrange(from as int, i as int)),
        decreases to - i,
    {
        let r = v[i].get_raw();
        s.append(r.as_str());
        proof {
            let sub = ev.subrange(from as int, i + 1);
            assert(sub.drop_last() =~= ev.subrange(from as int, i as int));
            assert(sub.last() == ev[i as int]);
        }
        i = i + 1;
    }
    s
}

/// The source texts of all the elements, one after the other.
fn raws_all(v: &Vec<Element>) -> (res: String)
    ensures
        res@ == raw_concat(elems_view(v@)),
{
    let s = raws_between(v, 0, v.len());
    proof {
        lemma_elems_view(v@);
        assert(elems_view(v@).subrange(0, v@.len() as int) =~= elems_view(v@));
    }
    s
}

/// Texts one after the other.
fn cat2(a: &str, b: &str) -> (res: String)
    ensures
        res@ == a@ + b@,
{
    let mut s = String::from_str(a);
    s.append(b);
    s
}

/// Texts one after the other.
fn cat3(a: &str, b: &str, c: &str) -> (res: String)
    ensures
        res@ == a@ + b@ + c@,
{
    let mut s = String::from_str(a);
    s.append(b);
    s.append(c);
    s
}

/// The character that opens a bracket of the given type; `?` for others.
pub open spec fn opening_char_of(t: TokenType) -> char {
    match t {
        TokenType::OpenParen => '(',
        TokenType::OpenSquareParen => '[',
        TokenType::OpenCurlyParen => '{',
        TokenType::OpenAngleBracket => '<',
        _ => '?',
    }
}

/// The character that opens a bracket of the given type (see
/// `opening_char_of`).
fn opening_char(t: TokenType) -> (res: char)
    ensures
        res == opening_char_of(t),
{
    match t {
        TokenType::OpenParen => '(',
        TokenType::OpenSquareParen => '[',
        TokenType::OpenCurlyParen => '{',
        TokenType::OpenAngleBracket => '<',
        _ => '?',
    }
}

/// A one-character text.
fn char_string(c: char) -> (res: String)
    ensures
        res@ == seq![c],
{
    let mut s = String::new();
    push_char(&mut s, c);
    proof {
        assert(Seq::<char>::empty().push(c) =~= seq![c]);
    }
    s
}

// ----------------------------------------------------------------------
// Brackets and lists
// ----------------------------------------------------------------------

/// The index of the bracket that closes, from the index `j` on, at the
/// nesting level `level`: the first closing bracket met at level 0, an
/// opening bracket adding a level and a closing one taking one away.
pub open spec fn close_index(v: Seq<ElementView>, opening: TokenType, closing: TokenType, j: int, level: int) -> Option<int>
    decreases v.len() - j,
{
    if j < 0 || j >= v.len() {
        None
    } else if tok_type(v[j]) == Some(closing) && level == 0 {
        Some(j)
    } else {
        close_index(
            v,
            opening,
            closing,
            j + 1,
            if tok_type(v[j]) == Some(closing) {
                level - 1
            } else if tok_type(v[j]) == Some(opening) {
                level + 1
            } else {
                level
            },
        )
    }
}

/// The elements after the opening bracket at `cursor` up to the matching
/// closing one (see `close_index`), which `cursor` is moved to; error
/// 2.0.1 at the opening bracket if none closes it (an internal error for
/// a list with no opening bracket).
fn catch_between(opening: TokenType, closing: TokenType, elements: &Vec<Element>, cursor: &mut usize) -> (res: Result<Vec<Element>, ZyxtError>)
    requires
        *old(cursor) < elements@.len(),
        elements@[*old(cursor) as int] is Token,
    ensures
        res matches Ok(c) ==> {
            &&& *old(cursor) < *final(cursor) < elements@.len()
            &&& c@.len() == *final(cursor) - *old(cursor) - 1
            &&& forall|k: int| 0 <= k < c@.len() ==> elem_view(#[trigger] c@[k]) == elem_view(elements@[*old(cursor) + 1 + k])
            &&& is_tok(elem_view(elements@[*final(cursor) as int]), closing)
        },
        match close_index(views(elements@), opening, closing, *old(cursor) + 1, 0) {
            Some(j) => res matches Ok(c) && *final(cursor) == j && views(c@) == views(elements@).subrange(
                *old(cursor) + 1,
                j,
            ),
            None => res matches Err(e) && e.code@ == (if opening == TokenType::Null {
                "0.0"@
            } else {
                "2.0.1"@
            }),
        },
{
    let ch = opening_char(opening);
    let paren_pos = elements[*cursor].get_pos().clone();
    let start = *cursor;
    let mut level: i128 = 0;
    let mut catcher: Vec<Element> = Vec::new();
    proof {
        assert(views(catcher@) =~= views(elements@).subrange(start + 1, start + 1));
    }
    loop
        invariant
            start == *old(cursor),
            start < elements@.len(),
            start <= *cursor < elements@.len(),
            catcher@.len() == *cursor - start,
            -(*cursor as int) <= level <= *cursor as int,
            forall|k: int| 0 <= k < catcher@.len() ==> elem_view(#[trigger] catcher@[k]) == elem_view(elements@[start + 1 + k]),
            close_index(views(elements@), opening, closing, start + 1, 0) == close_index(
                views(elements@),
                opening,
                closing,
                *cursor + 1,
                level as int,
            ),
            views(catcher@) == views(elements@).subrange(start + 1, *cursor + 1),
        decreases elements@.len() - *cursor,
    {
        if *cursor >= elements.len() - 1 {
            if opening == TokenType::Null {
                return Err(internal_error("no element after the list"));
            } else {
                return Err(error_2_0_1(ch).with_pos_and_raw(&paren_pos, &char_string(ch)));
            }
        }
        *cursor = *cursor + 1;
        let sel = &elements[*cursor];
        match token_type_of(sel) {
            Some(ty) => {
                if ty == closing && level == 0 {
                    return Ok(catcher);
                } else if ty == closing {
                    level = level - 1;
                } else if ty == opening {
                    level = level + 1;
                }
            },
            None => {},
        }
        let ghost before = views(catcher@);
        catcher.push(clone_element(sel));
        proof {
            assert(views(catcher@) =~= before.push(elem_view(*sel)));
            assert(views(elements@).subrange(start + 1, *cursor + 1) =~= views(elements@).subrange(start + 1, *cursor as int).push(
                elem_view(*sel),
            ));
        }
    }
}

/// Whether a list of elements is statements of at most one simple element
/// each (a name or a literal token, or an element already parsed),
/// separated by divider tokens, with no bracket among them.
pub open spec fn simple_statements(s: Seq<ElementView>, divider: TokenType, opening: TokenType, closing: TokenType) -> bool {
    &&& forall|i: int| 0 <= i < s.len() ==> tok_type(#[trigger] s[i]) == Some(divider) || (single_simple(s[i])
        && tok_type(s[i]) != Some(opening) && tok_type(s[i]) != Some(closing))
    &&& forall|i: int| 0 < i < s.len() ==> tok_type(s[i - 1]) == Some(divider) || tok_type(#[trigger] s[i]) == Some(divider)
}

/// The statements of a list of elements (see `simple_statements`): one for
/// each part between dividers, the null element for an empty part and the
/// element's simple conversion for the others.
pub open spec fn statements_of(s: Seq<ElementView>, divider: TokenType) -> Seq<ElementView>
    decreases s.len(),
{
    if s.len() == 0 {
        seq![ElementView::NullElement]
    } else {
        let p = statements_of(s.drop_last(), divider);
        if tok_type(s.last()) == Some(divider) {
            p.push(ElementView::NullElement)
        } else {
            p.update(p.len() - 1, simple_conv(s.last()).unwrap())
        }
    }
}

proof fn lemma_statements_of_len(s: Seq<ElementView>, divider: TokenType)
    ensures
        statements_of(s, divider).len() >= 1,
    decreases s.len(),
{
    if s.len() > 0 {
        lemma_statements_of_len(s.drop_last(), divider);
    }
}

/// Whether no part between dividers of a list of elements is empty: the
/// list neither starts nor ends with a divider, and has no two dividers
/// side by side.
pub open spec fn no_empty_part(s: Seq<ElementView>, divider: TokenType) -> bool {
    s.len() > 0 ==> {
        &&& tok_type(s[0]) != Some(divider)
        &&& tok_type(s.last()) != Some(divider)
        &&& forall|i: int| 0 < i < s.len() ==> !(tok_type(s[i - 1]) == Some(divider) && tok_type(#[trigger] s[i]) == Some(divider))
    }
}

/// The statements of simple statements made of tokens are null elements,
/// variables and literals.
pub proof fn lemma_statements_leaves(s: Seq<ElementView>, divider: TokenType, opening: TokenType, closing: TokenType)
    requires
        simple_statements(s, divider, opening, closing),
        forall|i: int| 0 <= i < s.len() ==> (#[trigger] s[i]) is Token,
    ensures
        forall|i: int| 0 <= i < statements_of(s, divider).len() ==> (#[trigger] statements_of(s, divider)[i]) is NullElement
            || statements_of(s, divider)[i] is Variable || statements_of(s, divider)[i] is Literal,
    decreases s.len(),
{
    if s.len() > 0 {
        let t = s.drop_last();
        assert(simple_statements(t, divider, opening, closing)) by {
            assert forall|i: int| 0 <= i < t.len() implies tok_type(#[trigger] t[i]) == Some(divider) || (single_simple(t[i])
                && tok_type(t[i]) != Some(opening) && tok_type(t[i]) != Some(closing)) by {
                assert(t[i] == s[i]);
            }
            assert forall|i: int| 0 < i < t.len() implies tok_type(t[i - 1]) == Some(divider) || tok_type(#[trigger] t[i])
                == Some(divider) by {
                assert(t[i] == s[i]);
                assert(t[i - 1] == s[i - 1]);
            }
        }
        assert forall|i: int| 0 <= i < t.len() implies (#[trigger] t[i]) is Token by {
            assert(t[i] == s[i]);
        }
        lemma_statements_leaves(t, divider, opening, closing);
        lemma_statements_of_len(t, divider);
        assert(s.last() == s[s.len() - 1]);
    }
}

/// What a list of simple statements becomes: nothing for no elements,
/// else its statements (see `statements_of`).
pub open spec fn split_result(s: Seq<ElementView>, divider: TokenType) -> Seq<ElementView> {
    if s.len() == 0 {
        Seq::empty()
    } else {
        statements_of(s, divider)
    }
}

/// The elements split at each divider token outside brackets, each part
/// parsed as an expression; an empty part is the null element if empty
/// parts are ignored and an internal error if not. Error 2.0.1 if the
/// brackets do not balance.
#[verifier::rlimit(30)]
fn split_between(divider: TokenType, opening: TokenType, closing: TokenType, elements: Vec<Element>, ignore_empty: bool) -> (res: Result<Vec<Element>, ZyxtError>)
    ensures
        elements@.len() == 0 ==> (res matches Ok(v) && v@.len() == 0),
        elements@.len() == 1 && single_simple(elem_view(elements@[0])) && tok_type(elem_view(elements@[0])) != Some(divider)
            && tok_type(elem_view(elements@[0])) != Some(opening) && tok_type(elem_view(elements@[0])) != Some(closing) ==> (res
            matches Ok(v) && v@.len() == 1 && Some(elem_view(v@[0])) == simple_conv(elem_view(elements@[0]))),
        (ignore_empty || no_empty_part(views(elements@), divider)) && simple_statements(views(elements@), divider, opening, closing)
            ==> (res matches Ok(v) && views(v@) == split_result(views(elements@), divider)),
    decreases 8 * elements@.len() + 7,
{
    let ghost v = views(elements@);
    let ghost simple = (ignore_empty || no_empty_part(v, divider)) && simple_statements(v, divider, opening, closing);
    let mut out: Vec<Element> = Vec::new();
    let mut catcher: Vec<Element> = Vec::new();
    let mut level: i128 = 0;
    let mut i: usize = 0;
    proof {
        assert(views(out@) + seq![ElementView::NullElement] =~= statements_of(v.take(0), divider));
    }
    while i < elements.len()
        invariant
            0 <= i <= elements@.len(),
            catcher@.len() <= i,
            -(i as int) <= level <= i as int,
            i == 0 ==> out@.len() == 0,
            elements@.len() == 1 && single_simple(elem_view(elements@[0])) && tok_type(elem_view(elements@[0])) != Some(divider)
                && tok_type(elem_view(elements@[0])) != Some(opening) && tok_type(elem_view(elements@[0])) != Some(closing) ==> (
            out@.len() == 0 && level == 0 && (i == 1 ==> catcher@.len() == 1 && elem_view(catcher@[0]) == elem_view(elements@[0]))),
            v == views(elements@),
            simple == ((ignore_empty || no_empty_part(v, divider)) && simple_statements(v, divider, opening, closing)),
            simple ==> level == 0,
            simple ==> catcher@.len() == (if i > 0 && tok_type(v[i - 1]) != Some(divider) { 1int } else { 0int }),
            simple && catcher@.len() == 1 ==> single_simple(elem_view(catcher@[0])),
            simple && i > 0 ==> out@.len() > 0 || catcher@.len() > 0,
            simple ==> views(out@) + seq![
                if catcher@.len() == 0 {
                    ElementView::NullElement
                } else {
                    simple_conv(elem_view(catcher@[0])).unwrap()
                },
            ] == statements_of(v.take(i as int), divider),
        decreases elements@.len() - i,
    {
        let e = &elements[i];
        let ghost before_out = views(out@);
        let ghost before_piece = if catcher@.len() == 0 {
            ElementView::NullElement
        } else {
            simple_conv(elem_view(catcher@[0])).unwrap()
        };
        proof {
            assert(v[i as int] == elem_view(*e));
            assert(v.take(i + 1).drop_last() =~= v.take(i as int));
            assert(v.take(i + 1).last() == v[i as int]);
            lemma_statements_of_len(v.take(i as int), divider);
        }
        match token_type_of(e) {
            Some(ty) => {
                if ty == divider && level == 0 {
                    if !ignore_empty && catcher.len() == 0 {
                        return Err(internal_error("empty part of a list"));
                    } else if catcher.len() == 0 {
                        out.push(Element::NullElement);
                        proof {
                            assert(views(out@) =~= before_out.push(ElementView::NullElement));
                        }
                    } else {
                        let piece = catcher;
                        catcher = Vec::new();
                        let parsed = parse_expr(piece)?;
                        out.push(parsed);
                        proof {
                            assert(views(out@) =~= before_out.push(elem_view(parsed)));
                        }
                    }
                    catcher = Vec::new();
                    proof {
                        if simple {
                            assert(views(out@) + seq![ElementView::NullElement] =~= statements_of(v.take(i + 1), divider));
                        }
                    }
                } else {
                    if ty == opening {
                        level = level + 1;
                    } else if ty == closing {
                        level = level - 1;
                    }
                    catcher.push(clone_element(e));
                    proof {
                        if simple {
                            assert(elem_view(catcher@[0]) == v[i as int]);
                            assert(views(out@) + seq![simple_conv(v[i as int]).unwrap()] =~= statements_of(v.take(i + 1), divider));
                        }
                    }
                }
            },
            None => {
                catcher.push(clone_element(e));
                proof {
                    if simple {
                        assert(elem_view(catcher@[0]) == v[i as int]);
                        assert(views(out@) + seq![simple_conv(v[i as int]).unwrap()] =~= statements_of(v.take(i + 1), divider));
                    }
                }
            },
        }
        i = i + 1;
    }
    proof {
        assert(v.take(elements@.len() as int) =~= v);
    }
    if level != 0 {
        return Err(error_2_0_1(opening_char(opening)).with_pos_and_raw(&Position::default_pos(), &String::new()));
    }
    if out.len() == 0 && catcher.len() == 0 {
        return Ok(Vec::new());
    }
    if !ignore_empty && catcher.len() == 0 {
        return Err(internal_error("empty part of a list"));
    } else if catcher.len() == 0 {
        out.push(Element::NullElement);
    } else {
        let parsed = parse_expr(catcher)?;
        out.push(parsed);
    }
    Ok(out)
}

/// The parameter that parts split at `:` make: a name, then optionally a
/// type (`#any` where none is given), then optionally a default value;
/// none where the first part is not a name, the type is neither absent
/// nor a name, or there are more than three parts.
pub open spec fn arg_from_parts(parts: Seq<ElementView>) -> Option<crate::element::ArgumentView> {
    if parts.len() == 0 || parts.len() > 3 {
        None
    } else {
        match parts[0] {
            ElementView::Variable { name, .. } => {
                let t = if parts.len() > 1 {
                    match parts[1] {
                        ElementView::NullElement => Some(named_type("#any"@)),
                        ElementView::Variable { name: tname, .. } => Some(named_type(tname)),
                        _ => None,
                    }
                } else {
                    Some(named_type("#any"@))
                };
                match t {
                    Some(ty) => Some(
                        crate::element::ArgumentView {
                            name,
                            type_: ty,
                            default: if parts.len() > 2 {
                                Some(parts[2])
                            } else {
                                None
                            },
                        },
                    ),
                    None => None,
                }
            },
            _ => None,
        }
    }
}

/// The parameter that a list of simple elements and `:` makes (see
/// `simple_statements` and `arg_from_parts`).
pub open spec fn param_of(piece: Seq<ElementView>) -> Option<crate::element::ArgumentView> {
    arg_from_parts(split_result(piece, TokenType::Colon))
}

/// One parameter: a name, then optionally `:` and a type, then optionally
/// `:` and a default value (see `param_of`).
fn parse_arg(raw_arg: Vec<Element>) -> (res: Result<Argument, ZyxtError>)
    ensures
        simple_statements(views(raw_arg@), TokenType::Colon, TokenType::Null, TokenType::Null) ==> match param_of(
            views(raw_arg@),
        ) {
            Some(a) => res matches Ok(x) && crate::element::arg_view(x) == a,
            None => res is Err,
        },
    decreases 8 * raw_arg@.len() + 8,
{
    let ghost simple = simple_statements(views(raw_arg@), TokenType::Colon, TokenType::Null, TokenType::Null);
    let ghost pv = split_result(views(raw_arg@), TokenType::Colon);
    let raw_text = crate::element::VecElementRaw::get_raw(&raw_arg);
    let parts = split_between(TokenType::Colon, TokenType::Null, TokenType::Null, raw_arg, true)?;
    if parts.len() == 0 {
        return Err(internal_error("parameter with no parts"));
    }
    let name = match &parts[0] {
        Element::Variable { name, .. } => name.clone(),
        _ => {
            let first = &parts[0];
            let err = error_2_1_15(String::from_str(","));
            return Err(match first {
                Element::NullElement => internal_error("null element"),
                _ => err.with_pos_and_raw(first.get_pos(), &raw_text),
            });
        },
    };
    proof {
        if simple {
            assert(views(parts@)[0] == elem_view(parts@[0]));
            if parts@.len() > 1 {
                assert(views(parts@)[1] == elem_view(parts@[1]));
            }
            if parts@.len() > 2 {
                assert(views(parts@)[2] == elem_view(parts@[2]));
            }
            reveal_strlit("#any");
        }
    }
    let type_elem = if parts.len() > 1 {
        clone_element(&parts[1])
    } else {
        Element::NullElement
    };
    let default = if parts.len() > 2 {
        Some(clone_element(&parts[2]))
    } else {
        None
    };
    if parts.len() > 3 {
        let fourth = &parts[3];
        let err = error_2_1_14(fourth.get_raw());
        return Err(match fourth {
            Element::NullElement => internal_error("null element"),
            _ => err.with_pos_and_raw(fourth.get_pos(), &raw_text),
        });
    }
    let type_ = match &type_elem {
        Element::NullElement => Type::any(),
        Element::Variable { .. } => type_elem.as_type(),
        _ => {
            return Err(internal_error("parameter type is not a name"));
        },
    };
    Ok(Argument { name, type_, default })
}

/// Whether an element is a `,` or a `:` token.
pub open spec fn is_param_sep(e: ElementView) -> bool {
    tok_type(e) == Some(TokenType::Comma) || tok_type(e) == Some(TokenType::Colon)
}

/// Whether a list of elements is parameters made of simple elements (see
/// `single_simple`) and `:`, separated by `,`, with no bar among them and
/// no two simple elements side by side.
pub open spec fn simple_params(v: Seq<ElementView>) -> bool {
    &&& forall|i: int| 0 <= i < v.len() ==> is_param_sep(#[trigger] v[i]) || (single_simple(v[i]) && tok_type(v[i]) != Some(
        TokenType::Null,
    ) && tok_type(v[i]) != Some(TokenType::Bar))
    &&& forall|i: int| 0 < i < v.len() ==> is_param_sep(v[i - 1]) || is_param_sep(#[trigger] v[i])
}

/// The parameters of a list of elements read from index `i` on, the
/// elements since the last `,` being `piece` and the parameters so far
/// `acc`: each part between commas is one parameter (see `param_of`); an
/// empty part, or a part that is no parameter, makes none. No element
/// gives no parameter.
pub open spec fn params_run(
    v: Seq<ElementView>,
    i: int,
    piece: Seq<ElementView>,
    acc: Seq<crate::element::ArgumentView>,
) -> Option<Seq<crate::element::ArgumentView>>
    decreases v.len() - i,
{
    if i < 0 || i >= v.len() {
        if piece.len() == 0 {
            if acc.len() == 0 {
                Some(acc)
            } else {
                None
            }
        } else {
            match param_of(piece) {
                Some(a) => Some(acc.push(a)),
                None => None,
            }
        }
    } else if tok_type(v[i]) == Some(TokenType::Comma) {
        if piece.len() == 0 {
            None
        } else {
            match param_of(piece) {
                Some(a) => params_run(v, i + 1, Seq::empty(), acc.push(a)),
                None => None,
            }
        }
    } else {
        params_run(v, i + 1, piece.push(v[i]), acc)
    }
}

/// A part of simple parameters between commas is a list of simple
/// statements separated by `:`.
proof fn lemma_piece_simple(v: Seq<ElementView>, start: int, end: int)
    requires
        simple_params(v),
        0 <= start <= end <= v.len(),
        forall|j: int| start <= j < end ==> tok_type(#[trigger] v[j]) != Some(TokenType::Comma),
    ensures
        simple_statements(v.subrange(start, end), TokenType::Colon, TokenType::Null, TokenType::Null),
{
    let piece = v.subrange(start, end);
    assert forall|x: int| 0 <= x < piece.len() implies tok_type(#[trigger] piece[x]) == Some(TokenType::Colon) || (single_simple(
        piece[x],
    ) && tok_type(piece[x]) != Some(TokenType::Null) && tok_type(piece[x]) != Some(TokenType::Null)) by {
        assert(piece[x] == v[start + x]);
    }
    assert forall|x: int| 0 < x < piece.len() implies tok_type(piece[x - 1]) == Some(TokenType::Colon) || tok_type(
        #[trigger] piece[x],
    ) == Some(TokenType::Colon) by {
        assert(piece[x] == v[start + x]);
        assert(piece[x - 1] == v[start + x - 1]);
    }
}

/// The parameters between bars, split at commas (see `params_run`).
#[verifier::rlimit(50)]
fn split_args(elements: Vec<Element>) -> (res: Result<Vec<Argument>, ZyxtError>)
    ensures
        simple_params(views(elements@)) ==> match params_run(views(elements@), 0, Seq::empty(), Seq::empty()) {
            Some(a) => res matches Ok(x) && x@.len() == a.len() && forall|j: int| 0 <= j < a.len() ==> crate::element::arg_view(
                #[trigger] x@[j],
            ) == a[j],
            None => res is Err,
        },
    decreases 8 * elements@.len() + 9,
{
    let ghost v = views(elements@);
    let ghost simple = simple_params(v);
    let ghost mut start: int = 0;
    let mut out: Vec<Argument> = Vec::new();
    let mut catcher: Vec<Element> = Vec::new();
    let mut level: i128 = 0;
    let mut i: usize = 0;
    proof {
        assert(views(catcher@) =~= v.subrange(0, 0));
        assert(views(catcher@) =~= Seq::<ElementView>::empty());
        assert(out@.map_values(|a: Argument| crate::element::arg_view(a)) =~= Seq::<crate::element::ArgumentView>::empty());
    }
    while i < elements.len()
        invariant
            0 <= i <= elements@.len(),
            catcher@.len() <= i,
            -(i as int) <= level <= i as int,
            v == views(elements@),
            simple == simple_params(v),
            simple ==> level == 0,
            simple ==> 0 <= start <= i && views(catcher@) == v.subrange(start, i as int),
            simple ==> (start > 0 ==> tok_type(v[start - 1]) == Some(TokenType::Comma)),
            simple ==> forall|j: int| start <= j < i ==> tok_type(#[trigger] v[j]) != Some(TokenType::Comma),
            simple ==> params_run(v, 0, Seq::empty(), Seq::empty()) == params_run(
                v,
                i as int,
                views(catcher@),
                out@.map_values(|a: Argument| crate::element::arg_view(a)),
            ),
        decreases elements@.len() - i,
    {
        let e = &elements[i];
        let ghost acc = out@.map_values(|a: Argument| crate::element::arg_view(a));
        proof {
            assert(v[i as int] == elem_view(*e));
            if simple {
                lemma_piece_simple(v, start, i as int);
            }
        }
        match token_type_of(e) {
            Some(ty) => {
                if ty == TokenType::Comma && level == 0 {
                    if catcher.len() == 0 {
                        return Err(internal_error("empty parameter"));
                    }
                    let piece = catcher;
                    catcher = Vec::new();
                    let parsed = parse_arg(piece)?;
                    out.push(parsed);
                    proof {
                        assert(out@.map_values(|a: Argument| crate::element::arg_view(a)) =~= acc.push(
                            crate::element::arg_view(parsed),
                        ));
                        assert(views(catcher@) =~= v.subrange(i + 1, i + 1));
                        assert(views(catcher@) =~= Seq::<ElementView>::empty());
                        start = i + 1;
                    }
                } else {
                    if ty == TokenType::Bar {
                        level = level + 1;
                    }
                    let ghost before = views(catcher@);
                    catcher.push(clone_element(e));
                    proof {
                        if simple {
                            assert(views(catcher@) =~= before.push(v[i as int]));
                            assert(v.subrange(start, i + 1) =~= v.subrange(start, i as int).push(v[i as int]));
                        }
                    }
                }
            },
            None => {
                let ghost before = views(catcher@);
                catcher.push(clone_element(e));
                proof {
                    if simple {
                        assert(views(catcher@) =~= before.push(v[i as int]));
                        assert(v.subrange(start, i + 1) =~= v.subrange(start, i as int).push(v[i as int]));
                    }
                }
            },
        }
        i = i + 1;
    }
    let ghost acc = out@.map_values(|a: Argument| crate::element::arg_view(a));
    proof {
        if simple {
            lemma_piece_simple(v, start, i as int);
        }
    }
    if level != 0 {
        return Err(error_2_0_1('?').with_pos_and_raw(&Position::default_pos(), &String::new()));
    }
    if out.len() == 0 && catcher.len() == 0 {
        return Ok(Vec::new());
    }
    if catcher.len() == 0 {
        return Err(internal_error("empty parameter"));
    }
    let parsed = parse_arg(catcher)?;
    out.push(parsed);
    proof {
        assert(out@.map_values(|a: Argument| crate::element::arg_view(a)) =~= acc.push(crate::element::arg_view(parsed)));
    }
    Ok(out)
}

/// The parameters between the bar at `cursor` and the next bar, which
/// `cursor` is moved to; their text is added to `raw`.
fn get_arguments(cursor: &mut usize, elements: &Vec<Element>, raw: &mut String) -> (res: Result<Vec<Argument>, ZyxtError>)
    requires
        *old(cursor) < elements@.len(),
        elements@[*old(cursor) as int] is Token,
    ensures
        res is Ok ==> *old(cursor) < *final(cursor) < elements@.len(),
        match close_index(views(elements@), TokenType::Bar, TokenType::Bar, *old(cursor) + 1, 0) {
            None => res matches Err(e) && e.code@ == "2.0.1"@,
            Some(j) => {
                &&& *final(cursor) == j
                &&& final(raw)@ == old(raw)@ + raw_concat(views(elements@).subrange(*old(cursor) + 1, j)) + raw_of(
                    views(elements@)[j],
                )
                &&& simple_params(views(elements@).subrange(*old(cursor) + 1, j)) ==> match params_run(
                    views(elements@).subrange(*old(cursor) + 1, j),
                    0,
                    Seq::empty(),
                    Seq::empty(),
                ) {
                    Some(a) => res matches Ok(x) && x@.len() == a.len() && forall|k: int| 0 <= k < a.len()
                        ==> crate::element::arg_view(#[trigger] x@[k]) == a[k],
                    None => res is Err,
                }
            },
        },
    decreases 8 * elements@.len() + 4,
{
    let contents = catch_between(TokenType::Bar, TokenType::Bar, elements, cursor)?;
    proof {
        lemma_elems_view(contents@);
        assert(elems_view(contents@) =~= views(contents@));
        assert(views(elements@)[*cursor as int] == elem_view(elements@[*cursor as int]));
    }
    let inner = raws_all(&contents);
    let close = elements[*cursor].get_raw();
    let mut r = raw.clone();
    r.append(inner.as_str());
    r.append(close.as_str());
    *raw = r;
    split_args(contents)
}

/// The statements of a block: the elements split at `;` outside braces.
fn parse_block(input: Vec<Element>) -> (res: Result<Vec<Element>, ZyxtError>)
    ensures
        input@.len() == 0 ==> (res matches Ok(v) && v@.len() == 0),
        input@.len() == 1 && single_simple(elem_view(input@[0])) ==> (res matches Ok(v) && v@.len() == 1 && Some(elem_view(v@[0]))
            == simple_conv(elem_view(input@[0]))),
        simple_statements(views(input@), TokenType::StatementEnd, TokenType::OpenCurlyParen, TokenType::CloseCurlyParen) ==> (res
            matches Ok(v) && views(v@) == split_result(views(input@), TokenType::StatementEnd)),
    decreases 8 * input@.len() + 8,
{
    split_between(TokenType::StatementEnd, TokenType::OpenCurlyParen, TokenType::CloseCurlyParen, input, true)
}


// ----------------------------------------------------------------------
// The stages of parsing an expression
// ----------------------------------------------------------------------

/// The error for an element missing after the element at `cursor`: error
/// 2.1.0 with the element's text, at the element.
fn error_missing_after(e: &Element) -> (res: ZyxtError)
    ensures
        *e is NullElement ==> res.code@ == "0.0"@,
        !(*e is NullElement) ==> res.code@ == "2.1.0"@ && res.message@ == "Unexpected ident `"@ + raw_of(elem_view(*e))
            + "`"@ && (res.position matches Some(p) && p@ == pos_of(elem_view(*e))) && res.raw@ == raw_of(elem_view(*e)),
{
    error_2_1_0(e.get_raw()).with_element(e)
}

/// Parenthesised groups become the expressions inside them, and braces
/// become blocks. A `(` after an element that is not a token is left for
/// a call.
fn parse_parens(elements: Vec<Element>) -> (res: Result<Vec<Element>, ZyxtError>)
    ensures
        res matches Ok(r) ==> r@.len() <= elements@.len(),
        no_open_bracket_before(elements@, elements@.len() as int) ==> (res matches Ok(r) && views(r@) == views(elements@)),
    decreases 8 * elements@.len() + 5,
{
    let mut cursor: usize = 0;
    let mut new_elements: Vec<Element> = Vec::new();
    proof {
        assert(views(new_elements@) =~= views(elements@.take(0)));
    }
    while cursor < elements.len()
        invariant
            cursor <= elements@.len(),
            new_elements@.len() <= cursor,
            no_open_bracket_before(elements@, cursor as int) ==> views(new_elements@) == views(elements@.take(cursor as int)),
            !no_open_bracket_before(elements@, cursor as int) ==> !no_open_bracket_before(elements@, elements@.len() as int),
        decreases elements@.len() - cursor,
    {
        let sel = &elements[cursor];
        let ghost c0 = cursor as int;
        let ghost before = new_elements@;
        proof {
            if is_open_bracket(elem_view(elements@[c0])) {
                assert(!no_open_bracket_before(elements@, elements@.len() as int));
            }
        }
        match sel {
            Element::Token(t) => {
                if t.type_ == TokenType::OpenParen {
                    let grouping = if cursor == 0 {
                        true
                    } else {
                        match &elements[cursor - 1] {
                            Element::Token(prev) => !has_category(prev, TokenCategory::ValueEnd),
                            _ => false,
                        }
                    };
                    if grouping {
                        let contents = catch_between(TokenType::OpenParen, TokenType::CloseParen, &elements, &mut cursor)?;
                        let e = parse_expr(contents)?;
                        new_elements.push(e);
                    } else {
                        new_elements.push(Element::Token(t.clone()));
                    }
                } else if t.type_ == TokenType::OpenCurlyParen {
                    let raw = t.get_raw();
                    let position = t.position.clone();
                    let contents = catch_between(TokenType::OpenCurlyParen, TokenType::CloseCurlyParen, &elements, &mut cursor)?;
                    let inner = raws_all(&contents);
                    let close = elements[cursor].get_raw();
                    let block_raw = cat3(raw.as_str(), inner.as_str(), close.as_str());
                    let content = parse_block(contents)?;
                    new_elements.push(Element::Block { position, raw: block_raw, content });
                } else {
                    let x = Element::Token(t.clone());
                    new_elements.push(x);
                    proof {
                        assert(!is_open_bracket(elem_view(elements@[c0])));
                        if no_open_bracket_before(elements@, c0) {
                            lemma_views_push(before, x, elements@, c0);
                            assert(no_open_bracket_before(elements@, c0 + 1));
                        }
                    }
                }
            },
            _ => {
                let x = clone_element(sel);
                new_elements.push(x);
                proof {
                    assert(!is_open_bracket(elem_view(elements@[c0])));
                    if no_open_bracket_before(elements@, c0) {
                        lemma_views_push(before, x, elements@, c0);
                        assert(no_open_bracket_before(elements@, c0 + 1));
                    }
                }
            },
        }
        cursor = cursor + 1;
    }
    proof {
        assert(elements@.take(elements@.len() as int) =~= elements@);
    }
    Ok(new_elements)
}

/// `pre` and `defer` with the block or the rest of the expression after
/// them become preprocessed and deferred code.
fn parse_preprocess_and_defer(elements: Vec<Element>) -> (res: Result<Vec<Element>, ZyxtError>)
    ensures
        res matches Ok(r) ==> r@.len() <= elements@.len(),
        no_pre_defer_before(elements@, elements@.len() as int) ==> (res matches Ok(r) && views(r@) == views(elements@)),
    decreases 8 * elements@.len() + 5,
{
    let mut cursor: usize = 0;
    let mut new_elements: Vec<Element> = Vec::new();
    proof {
        assert(views(new_elements@) =~= views(elements@.take(0)));
    }
    while cursor < elements.len()
        invariant
            cursor <= elements@.len(),
            new_elements@.len() <= cursor,
            no_pre_defer_before(elements@, cursor as int) ==> views(new_elements@) == views(elements@.take(cursor as int)),
            !no_pre_defer_before(elements@, cursor as int) ==> !no_pre_defer_before(elements@, elements@.len() as int),
        decreases elements@.len() - cursor,
    {
        let sel = &elements[cursor];
        let ghost c0 = cursor as int;
        let kw = match sel {
            Element::Token(t) => t.type_ == TokenType::Keyword(Keyword::Pre) || t.type_ == TokenType::Keyword(Keyword::Defer),
            _ => false,
        };
        if kw {
            proof {
                assert(is_pre_defer_kw(elem_view(elements@[c0])));
                assert(!no_pre_defer_before(elements@, elements@.len() as int));
            }
            let (position, value) = match sel {
                Element::Token(t) => (t.position.clone(), t.value.clone()),
                _ => (Position::default_pos(), String::new()),
            };
            if cursor == elements.len() - 1 {
                return Err(error_2_1_16().with_pos_and_raw(&position, &value));
            }
            let raw = sel.get_raw();
            let trimmed = trim_text(raw.as_str());
            let is_pre = str_eq(trimmed.as_str(), "pre");
            cursor = cursor + 1;
            let next = &elements[cursor];
            match next {
                Element::Block { content, raw: block_raw, .. } => {
                    let r = cat2(raw.as_str(), block_raw.as_str());
                    let c = clone_elements(content);
                    if is_pre {
                        new_elements.push(Element::Preprocess { position, raw: r, content: c });
                    } else {
                        new_elements.push(Element::Defer { position, raw: r, content: c });
                    }
                },
                _ => {
                    let rest = clone_range(&elements, cursor, elements.len());
                    let content = parse_expr(rest)?;
                    let r = cat2(raw.as_str(), content.get_raw().as_str());
                    if is_pre {
                        new_elements.push(Element::Preprocess { position, raw: r, content: vec![content] });
                    } else {
                        new_elements.push(Element::Defer { position, raw: r, content: vec![content] });
                    }
                    return Ok(new_elements);
                },
            }
        } else {
            let ghost before = new_elements@;
            let x = clone_element(sel);
            new_elements.push(x);
            proof {
                assert(!is_pre_defer_kw(elem_view(elements@[c0])));
                if no_pre_defer_before(elements@, c0) {
                    lemma_views_push(before, x, elements@, c0);
                    assert(no_pre_defer_before(elements@, c0 + 1));
                }
            }
        }
        cursor = cursor + 1;
    }
    proof {
        assert(elements@.take(elements@.len() as int) =~= elements@);
    }
    Ok(new_elements)
}

/// `class` and `struct`, with a struct's parameters between bars and a
/// block, become class definitions. Error 2.1.17 for a class with
/// parameters and 2.1.18 for a class without a block.
fn parse_classes_structs_and_mixins(elements: Vec<Element>) -> (res: Result<Vec<Element>, ZyxtError>)
    ensures
        res matches Ok(r) ==> r@.len() <= elements@.len(),
        no_class_before(elements@, elements@.len() as int) ==> (res matches Ok(r) && views(r@) == views(elements@)),
    decreases 8 * elements@.len() + 5,
{
    let mut cursor: usize = 0;
    let mut new_elements: Vec<Element> = Vec::new();
    proof {
        assert(views(new_elements@) =~= views(elements@.take(0)));
    }
    while cursor < elements.len()
        invariant
            cursor <= elements@.len(),
            new_elements@.len() <= cursor,
            no_class_before(elements@, cursor as int) ==> views(new_elements@) == views(elements@.take(cursor as int)),
            !no_class_before(elements@, cursor as int) ==> !no_class_before(elements@, elements@.len() as int),
        decreases elements@.len() - cursor,
    {
        let sel = &elements[cursor];
        let ghost c0 = cursor as int;
        let keyword = match sel {
            Element::Token(t) => match t.type_ {
                TokenType::Keyword(Keyword::Class) => Some(Keyword::Class),
                TokenType::Keyword(Keyword::Struct) => Some(Keyword::Struct),
                _ => None,
            },
            _ => None,
        };
        match keyword {
            Some(k) => {
                proof {
                    assert(is_class_kw(elem_view(elements@[c0])));
                    assert(!no_class_before(elements@, elements@.len() as int));
                }
                let position = sel.get_pos().clone();
                let mut raw = sel.get_raw();
                if cursor == elements.len() - 1 {
                    return Err(error_missing_after(sel));
                }
                cursor = cursor + 1;
                let mut selected = &elements[cursor];
                let mut args: Option<Vec<Argument>> = None;
                match selected {
                    Element::Token(t) => {
                        if t.type_ == TokenType::Bar {
                            if k == Keyword::Class {
                                let v = trim_text(t.value.as_str());
                                let r = cat2("class ", v.as_str());
                                return Err(error_2_1_17().with_pos_and_raw(&t.position, &r));
                            }
                            let a = get_arguments(&mut cursor, &elements, &mut raw)?;
                            args = Some(a);
                            if cursor == elements.len() - 1 {
                                return Err(error_missing_after(selected));
                            }
                            cursor = cursor + 1;
                            selected = &elements[cursor];
                        }
                    },
                    _ => {},
                }
                let mut content: Vec<Element> = Vec::new();
                match selected {
                    Element::Block { content: block_content, raw: block_raw, .. } => {
                        content = clone_elements(block_content);
                        raw = cat2(raw.as_str(), block_raw.as_str());
                    },
                    _ => {
                        if k == Keyword::Class {
                            let r = cat2(raw.as_str(), selected.get_raw().as_str());
                            return Err(match selected {
                                Element::NullElement => internal_error("null element"),
                                _ => error_2_1_18(String::from_str("class")).with_pos_and_raw(selected.get_pos(), &r),
                            });
                        }
                    },
                }
                new_elements.push(Element::Class {
                    position,
                    raw,
                    is_struct: k == Keyword::Struct,
                    class_attrs: Vec::new(),
                    inst_attrs: Vec::new(),
                    content,
                    args,
                });
            },
            None => {
                let ghost before = new_elements@;
                let x = clone_element(sel);
                new_elements.push(x);
                proof {
                    assert(!is_class_kw(elem_view(elements@[c0])));
                    if no_class_before(elements@, c0) {
                        lemma_views_push(before, x, elements@, c0);
                        assert(no_class_before(elements@, c0 + 1));
                    }
                }
            },
        }
        cursor = cursor + 1;
    }
    proof {
        assert(elements@.take(elements@.len() as int) =~= elements@);
    }
    Ok(new_elements)
}

/// The type name of a literal token: `bool` for `true` and `false`,
/// `_null` for `null`, `_num` for `inf` and `undef`; for a number, `f64`
/// with a `.`, else the first of `i32`, `i64`, `i128` and `u128` it fits,
/// else `ibig`; `str` for a text. Another literal word has none.
pub open spec fn literal_type_spec(t: TokenView) -> Option<Seq<char>> {
    if t.type_ == TokenType::LiteralMisc {
        if t.value == "true"@ || t.value == "false"@ {
            Some("bool"@)
        } else if t.value == "null"@ {
            Some("_null"@)
        } else if t.value == "inf"@ || t.value == "undef"@ {
            Some("_num"@)
        } else {
            None
        }
    } else if t.type_ == TokenType::LiteralNumber {
        if t.value.contains('.') {
            Some("f64"@)
        } else if parse_int_spec(t.value, IntKind::I32) is Some {
            Some("i32"@)
        } else if parse_int_spec(t.value, IntKind::I64) is Some {
            Some("i64"@)
        } else if parse_int_spec(t.value, IntKind::I128) is Some {
            Some("i128"@)
        } else if parse_int_spec(t.value, IntKind::U128) is Some {
            Some("u128"@)
        } else {
            Some("ibig"@)
        }
    } else {
        Some("str"@)
    }
}

/// The type name of a literal token (see `literal_type_spec`); an unknown
/// literal word is an internal error.
fn literal_type_name(t: &Token) -> (res: Result<&'static str, ZyxtError>)
    ensures
        match literal_type_spec(t@) {
            Some(n) => res matches Ok(r) && r@ == n,
            None => res matches Err(e) && e.code@ == "0.0"@,
        },
{
    if t.type_ == TokenType::LiteralMisc {
        if str_eq(t.value.as_str(), "true") || str_eq(t.value.as_str(), "false") {
            Ok("bool")
        } else if str_eq(t.value.as_str(), "null") {
            Ok("_null")
        } else if str_eq(t.value.as_str(), "inf") || str_eq(t.value.as_str(), "undef") {
            Ok("_num")
        } else {
            Err(internal_error("unknown literal"))
        }
    } else if t.type_ == TokenType::LiteralNumber {
        if contains_char(t.value.as_str(), '.') {
            Ok("f64")
        } else if parse_int(t.value.as_str(), IntKind::I32).is_some() {
            Ok("i32")
        } else if parse_int(t.value.as_str(), IntKind::I64).is_some() {
            Ok("i64")
        } else if parse_int(t.value.as_str(), IntKind::I128).is_some() {
            Ok("i128")
        } else if parse_int(t.value.as_str(), IntKind::U128).is_some() {
            Ok("u128")
        } else {
            Ok("ibig")
        }
    } else {
        Ok("str")
    }
}

/// The content of a literal token: a text without its quotes, any other
/// literal as written. A text whose first or last character is not ASCII
/// cannot be cut so, which is an internal error.
fn literal_content(t: &Token) -> (res: Result<String, ZyxtError>)
    ensures
        t.type_ != TokenType::LiteralString ==> (res matches Ok(c) && c@ == t.value@),
        t.type_ == TokenType::LiteralString ==> if t.value@.len() < 2 || !((t.value@[0] as u32) < 128) || !((t.value@.last() as u32) < 128) {
            res matches Err(e) && e.code@ == "0.0"@
        } else {
            res matches Ok(c) && c@ == t.value@.subrange(1, t.value@.len() - 1)
        },
{
    if t.type_ == TokenType::LiteralString {
        let cs = crate::text::chars_of(t.value.as_str());
        let n = cs.len();
        if n < 2 || !((cs[0] as u32) < 128) || !((cs[n - 1] as u32) < 128) {
            return Err(internal_error("text literal cannot be cut"));
        }
        let mut inner: Vec<char> = Vec::new();
        let mut i: usize = 1;
        while i < n - 1
            invariant
                1 <= i <= n - 1,
                n == cs@.len(),
                cs@ == t.value@,
                inner@ == cs@.subrange(1, i as int),
            decreases n - 1 - i,
        {
            inner.push(cs[i]);
            proof {
                assert(cs@.subrange(1, i + 1) =~= cs@.subrange(1, i as int).push(cs@[i as int]));
            }
            i = i + 1;
        }
        Ok(crate::text::string_from_chars(&inner))
    } else {
        Ok(t.value.clone())
    }
}

/// The content `literal_content` gives a literal token (see there).
pub open spec fn literal_content_spec(t: TokenView) -> Option<Seq<char>> {
    if t.type_ != TokenType::LiteralString {
        Some(t.value)
    } else if t.value.len() < 2 || !((t.value[0] as u32) < 128) || !((t.value.last() as u32) < 128) {
        None
    } else {
        Some(t.value.subrange(1, t.value.len() - 1))
    }
}

/// Whether a token is a literal.
pub open spec fn is_literal_type(ty: TokenType) -> bool {
    ty == TokenType::LiteralNumber || ty == TokenType::LiteralMisc || ty == TokenType::LiteralString
}

/// What an element becomes in `parse_vars_literals_and_calls` where no `.`
/// or parenthesis is involved: a name token a variable, a literal token a
/// literal of its type and content, any other token or element itself.
/// `None` for a `.` or a parenthesis, a literal that cannot be read, and
/// the null element.
pub open spec fn simple_conv(e: ElementView) -> Option<ElementView> {
    match e {
        ElementView::Token(t) => if t.type_ == TokenType::Variable {
            Some(
                ElementView::Variable {
                    position: t.position,
                    raw: t.whitespace + t.value,
                    name: t.value,
                    parent: Box::new(ElementView::NullElement),
                },
            )
        } else if is_literal_type(t.type_) {
            match (literal_type_spec(t), literal_content_spec(t)) {
                (Some(n), Some(c)) => Some(
                    ElementView::Literal { position: t.position, raw: t.whitespace + t.value, type_: named_type(n), content: c },
                ),
                _ => None,
            }
        } else if t.type_ == TokenType::DotOpr || t.type_ == TokenType::OpenParen || t.type_ == TokenType::CloseParen {
            None
        } else {
            Some(e)
        },
        ElementView::NullElement => None,
        _ => Some(e),
    }
}

/// Every element before the index has a simple conversion.
pub open spec fn all_simple(s: Seq<Element>, i: int) -> bool {
    forall|j: int| 0 <= j < i ==> (#[trigger] simple_conv(elem_view(s[j]))) is Some
}

/// The simple conversions of the elements before the index.
pub open spec fn simple_convs(s: Seq<Element>, i: int) -> Seq<ElementView> {
    s.take(i).map_values(|e: Element| simple_conv(elem_view(e)).unwrap())
}

/// The element held back, as a sequence of none or one view.
pub open spec fn held(c: Element) -> Seq<ElementView> {
    if c is NullElement {
        Seq::empty()
    } else {
        seq![elem_view(c)]
    }
}

/// Whether a list of elements is a name token followed by a parenthesised
/// list of simple arguments (see `simple_statements`) separated by commas,
/// with no empty argument.
pub open spec fn simple_call(v: Seq<ElementView>) -> bool {
    &&& v.len() >= 3
    &&& tok_type(v[0]) == Some(TokenType::Variable) && simple_conv(v[0]) is Some
    &&& tok_type(v[1]) == Some(TokenType::OpenParen)
    &&& tok_type(v.last()) == Some(TokenType::CloseParen)
    &&& simple_statements(v.subrange(2, v.len() - 1), TokenType::Comma, TokenType::OpenParen, TokenType::CloseParen)
    &&& no_empty_part(v.subrange(2, v.len() - 1), TokenType::Comma)
}

/// The call a list of elements of the form of `simple_call` makes.
pub open spec fn simple_call_of(v: Seq<ElementView>) -> ElementView {
    ElementView::Call {
        position: pos_of(v[1]),
        raw: raw_of(v[0]) + (raw_of(v[1]) + raw_concat(v.subrange(2, v.len() - 1)) + raw_of(v.last())),
        called: Box::new(simple_conv(v[0]).unwrap()),
        args: split_result(v.subrange(2, v.len() - 1), TokenType::Comma),
        kwargs: Seq::empty(),
    }
}

/// Whether a list of elements is a chain of names joined by `.`: name
/// tokens at the even indices, each one but the last marked as ending a
/// value, and `.` tokens at the odd ones.
#[verifier::opaque]
pub open spec fn dot_chain(v: Seq<ElementView>) -> bool {
    &&& v.len() >= 3 && v.len() % 2 == 1
    &&& forall|k: int| 0 <= k < v.len() && k % 2 == 0 ==> tok_type(#[trigger] v[k]) == Some(TokenType::Variable)
    &&& forall|k: int| 0 <= k < v.len() && k % 2 == 1 ==> tok_type(#[trigger] v[k]) == Some(TokenType::DotOpr) && (v[k
        - 1] matches ElementView::Token(pt) && pt.categories.contains(TokenCategory::ValueEnd))
}

/// What a chain of names (see `dot_chain`) holds at an index.
#[verifier::rlimit(30)]
proof fn lemma_dot_chain_at(v: Seq<ElementView>, k: int)
    requires
        dot_chain(v),
        0 <= k < v.len(),
    ensures
        v.len() >= 3 && v.len() % 2 == 1,
        k % 2 == 0 ==> tok_type(v[k]) == Some(TokenType::Variable),
        k % 2 == 1 ==> tok_type(v[k]) == Some(TokenType::DotOpr) && (v[k - 1] matches ElementView::Token(pt)
            && pt.categories.contains(TokenCategory::ValueEnd)) && k + 1 < v.len() && tok_type(v[k + 1]) == Some(
            TokenType::Variable,
        ),
{
    reveal(dot_chain);
    let t = tok_type(v[k]);
    if k % 2 == 1 {
        assert(k + 1 < v.len()) by (nonlinear_arith)
            requires
                k % 2 == 1,
                v.len() % 2 == 1,
                k < v.len(),
        ;
        assert((k + 1) % 2 == 0) by (nonlinear_arith)
            requires
                k % 2 == 1,
        ;
        let t2 = tok_type(v[k + 1]);
    }
}

/// The attribute access a chain of names (see `dot_chain`) makes up to its
/// `k`th element: the name there, whose parent is the access up to the name
/// before it, and whose text is the chain's text up to it.
pub open spec fn dot_access(v: Seq<ElementView>, k: int) -> ElementView
    decreases k,
{
    if k <= 1 {
        simple_conv(v[0]).unwrap()
    } else {
        match v[k] {
            ElementView::Token(nt) => ElementView::Variable {
                position: nt.position,
                raw: raw_of(dot_access(v, k - 2)) + raw_of(v[k - 1]) + raw_of(v[k]),
                name: nt.value,
                parent: Box::new(dot_access(v, k - 2)),
            },
            _ => ElementView::NullElement,
        }
    }
}

/// With no bracket between, the bracket that closes is the first closing one.
proof fn lemma_close_plain(v: Seq<ElementView>, opening: TokenType, closing: TokenType, j: int, end: int)
    requires
        0 <= j <= end < v.len(),
        tok_type(v[end]) == Some(closing),
        forall|k: int| j <= k < end ==> tok_type(#[trigger] v[k]) != Some(closing) && tok_type(v[k]) != Some(opening),
    ensures
        close_index(v, opening, closing, j, 0) == Some(end),
    decreases end - j,
{
    if j < end {
        lemma_close_plain(v, opening, closing, j + 1, end);
    }
}

/// Variables, `.` attribute access, literals and calls with parentheses
/// become their elements.
#[verifier::rlimit(100)]
fn parse_vars_literals_and_calls(elements: Vec<Element>) -> (res: Result<Vec<Element>, ZyxtError>)
    ensures
        res matches Ok(r) ==> r@.len() <= elements@.len(),
        all_simple(elements@, elements@.len() as int) ==> (res matches Ok(r) && views(r@) == simple_convs(
            elements@,
            elements@.len() as int,
        )),
        simple_call(views(elements@)) ==> (res matches Ok(r) && views(r@) == seq![simple_call_of(views(elements@))]),
        dot_chain(views(elements@)) ==> (res matches Ok(r) && views(r@) == seq![dot_access(views(elements@), elements@.len() - 1)]),
    decreases 8 * elements@.len() + 5,
{
    let ghost v = views(elements@);
    let ghost call = simple_call(v);
    let ghost dotted = dot_chain(v);
    let mut cursor: usize = 0;
    let mut new_elements: Vec<Element> = Vec::new();
    let mut catcher: Element = Element::NullElement;
    proof {
        assert(views(new_elements@) + held(catcher) =~= simple_convs(elements@, 0));
    }
    while cursor < elements.len()
        invariant
            cursor <= elements@.len(),
            new_elements@.len() + (if catcher is NullElement { 0int } else { 1int }) <= cursor,
            all_simple(elements@, cursor as int) ==> views(new_elements@) + held(catcher) == simple_convs(
                elements@,
                cursor as int,
            ),
            !all_simple(elements@, cursor as int) ==> !all_simple(elements@, elements@.len() as int),
            v == views(elements@),
            call == simple_call(v),
            call ==> cursor == 0 || cursor == 1 || cursor == elements@.len(),
            call && cursor == 0 ==> new_elements@.len() == 0 && catcher is NullElement,
            call && cursor == 1 ==> new_elements@.len() == 0 && Some(elem_view(catcher)) == simple_conv(v[0]),
            call && cursor == elements@.len() ==> new_elements@.len() == 0 && elem_view(catcher) == simple_call_of(v),
            dotted == dot_chain(v),
            dotted && cursor == 0 ==> new_elements@.len() == 0 && catcher is NullElement,
            dotted && cursor > 0 ==> cursor % 2 == 1 && new_elements@.len() == 0 && elem_view(catcher) == dot_access(v, cursor - 1)
                && !(catcher is NullElement),
        decreases elements@.len() - cursor,
    {
        let sel = &elements[cursor];
        proof {
            assert(v[cursor as int] == elem_view(*sel));
        }
        let ghost c0 = cursor as int;
        let ghost before = views(new_elements@) + held(catcher);
        proof {
            if dotted {
                lemma_dot_chain_at(v, c0);
            }
        }
        proof {
            if simple_conv(elem_view(elements@[c0])) is None {
                assert(!all_simple(elements@, elements@.len() as int));
            }
            if all_simple(elements@, c0 + 1) {
                assert(simple_conv(elem_view(elements@[c0])) is Some);
                assert(simple_convs(elements@, c0 + 1) =~= simple_convs(elements@, c0).push(
                    simple_conv(elem_view(elements@[c0])).unwrap(),
                ));
            }
        }
        match sel {
            Element::Token(t) => {
                if t.type_ == TokenType::DotOpr {
                    if cursor == 0 {
                        return Err(error_2_1_0(String::from_str(".")).with_element(sel));
                    } else if cursor == elements.len() - 1 {
                        return Err(error_2_1_2().with_element(sel));
                    }
                    let prev = &elements[cursor - 1];
                    let next = &elements[cursor + 1];
                    match next {
                        Element::Token(nt) => {
                            if nt.type_ != TokenType::Variable {
                                return Err(error_2_1_0(nt.value.clone()).with_token(nt));
                            }
                        },
                        Element::Literal { content, .. } => {
                            return Err(error_2_1_0(content.clone()).with_element(next));
                        },
                        _ => {},
                    }
                    match (prev, next) {
                        (Element::Token(pt), Element::Token(nt)) => {
                            if !has_category(pt, TokenCategory::ValueEnd) {
                                return Err(error_2_1_0(String::from_str(".")).with_token(t));
                            }
                            let raw = cat3(catcher.get_raw().as_str(), t.get_raw().as_str(), nt.get_raw().as_str());
                            let old = catcher;
                            catcher = Element::Variable {
                                position: nt.position.clone(),
                                name: nt.value.clone(),
                                raw,
                                parent: Box::new(old),
                            };
                            proof {
                                if dotted {
                                    assert(v[cursor + 1] == elem_view(elements@[cursor + 1]));
                                    assert(elem_view(catcher) == dot_access(v, cursor + 1));
                                }
                            }
                            cursor = cursor + 1;
                        },
                        (_, Element::Token(nt)) => {
                            let raw = cat3(catcher.get_raw().as_str(), t.get_raw().as_str(), nt.get_raw().as_str());
                            let old = catcher;
                            catcher = Element::Variable {
                                position: nt.position.clone(),
                                name: nt.value.clone(),
                                raw,
                                parent: Box::new(old),
                            };
                        },
                        _ => {
                            return Err(error_2_1_0(String::from_str(".")).with_token(t));
                        },
                    }
                } else if t.type_ == TokenType::Variable {
                    if !matches!(catcher, Element::NullElement) {
                        new_elements.push(catcher);
                    }
                    catcher = Element::Variable {
                        position: t.position.clone(),
                        name: t.value.clone(),
                        raw: t.get_raw(),
                        parent: Box::new(Element::NullElement),
                    };
                } else if t.type_ == TokenType::LiteralNumber || t.type_ == TokenType::LiteralMisc
                    || t.type_ == TokenType::LiteralString {
                    if !matches!(catcher, Element::NullElement) {
                        new_elements.push(catcher);
                    }
                    let lit_type = literal_type_name(t)?;
                    let content = literal_content(t)?;
                    catcher = Element::Literal {
                        position: t.position.clone(),
                        raw: t.get_raw(),
                        type_: Type::from_str(lit_type),
                        content,
                    };
                } else if t.type_ == TokenType::CloseParen {
                    return Err(error_2_0_2(')').with_token(t));
                } else if t.type_ == TokenType::OpenParen {
                    if cursor == 0 {
                        return Err(error_2_1_0(String::from_str("(")).with_token(t));
                    }
                    let open_raw = t.get_raw();
                    let position = t.position.clone();
                    proof {
                        if call {
                            let n = v.len() - 1;
                            assert forall|k: int| 2 <= k < n implies tok_type(#[trigger] v[k]) != Some(TokenType::CloseParen)
                                && tok_type(v[k]) != Some(TokenType::OpenParen) by {
                                assert(v.subrange(2, n)[k - 2] == v[k]);
                            }
                            lemma_close_plain(v, TokenType::OpenParen, TokenType::CloseParen, 2, n);
                        }
                    }
                    let contents = catch_between(TokenType::OpenParen, TokenType::CloseParen, &elements, &mut cursor)?;
                    proof {
                        lemma_elems_view(contents@);
                        assert(elems_view(contents@) =~= views(contents@));
                        assert(v[cursor as int] == elem_view(elements@[cursor as int]));
                    }
                    let inner = raws_all(&contents);
                    let close = elements[cursor].get_raw();
                    let raw = cat3(open_raw.as_str(), inner.as_str(), close.as_str());
                    let args = split_between(TokenType::Comma, TokenType::OpenParen, TokenType::CloseParen, contents, false)?;
                    proof {
                        lemma_elems_view(args@);
                        assert(elems_view(args@) =~= views(args@));
                    }
                    let call_raw = cat2(catcher.get_raw().as_str(), raw.as_str());
                    let old = catcher;
                    let kwargs: Vec<(String, Element)> = Vec::new();
                    proof {
                        assert(crate::element::attrs_view(kwargs@) =~= Seq::<(Seq<char>, ElementView)>::empty());
                    }
                    catcher = Element::Call {
                        position,
                        raw: call_raw,
                        called: Box::new(old),
                        args,
                        kwargs,
                    };
                } else {
                    if !matches!(catcher, Element::NullElement) {
                        new_elements.push(catcher);
                    }
                    catcher = Element::NullElement;
                    new_elements.push(Element::Token(t.clone()));
                }
            },
            _ => {
                if !matches!(catcher, Element::NullElement) {
                    new_elements.push(catcher);
                }
                catcher = clone_element(sel);
            },
        }
        proof {
            if all_simple(elements@, c0 + 1) {
                assert(views(new_elements@) + held(catcher) =~= before.push(simple_conv(elem_view(elements@[c0])).unwrap()));
            }
        }
        cursor = cursor + 1;
    }
    let ghost fin = views(new_elements@) + held(catcher);
    proof {
        if dotted {
            reveal(dot_chain);
        }
    }
    if !matches!(catcher, Element::NullElement) {
        new_elements.push(catcher);
    }
    proof {
        if dotted {
            assert(views(new_elements@) =~= seq![dot_access(v, elements@.len() - 1)]);
        }
        assert(elements@.take(elements@.len() as int) =~= elements@);
        if all_simple(elements@, elements@.len() as int) {
            assert(views(new_elements@) =~= fin);
        }
    }
    Ok(new_elements)
}


/// `proc`, `fn` or a bar, with parameters between bars, an optional `:`
/// and return type, and a block or the rest of the expression, become a
/// procedure.
fn parse_procs_and_fns(elements: Vec<Element>) -> (res: Result<Vec<Element>, ZyxtError>)
    ensures
        res matches Ok(r) ==> r@.len() <= elements@.len(),
        no_proc_before(elements@, elements@.len() as int) ==> (res matches Ok(r) && views(r@) == views(elements@)),
    decreases 8 * elements@.len() + 5,
{
    let mut new_elements: Vec<Element> = Vec::new();
    let mut cursor: usize = 0;
    proof {
        assert(views(new_elements@) =~= views(elements@.take(0)));
    }
    while cursor < elements.len()
        invariant
            cursor <= elements@.len(),
            new_elements@.len() <= cursor,
            no_proc_before(elements@, cursor as int) ==> views(new_elements@) == views(elements@.take(cursor as int)),
            !no_proc_before(elements@, cursor as int) ==> !no_proc_before(elements@, elements@.len() as int),
        decreases elements@.len() - cursor,
    {
        let sel = &elements[cursor];
        let ghost c0 = cursor as int;
        let kind = match sel {
            Element::Token(t) => if t.type_ == TokenType::Keyword(Keyword::Proc) || t.type_
                == TokenType::Keyword(Keyword::Fn) || t.type_ == TokenType::Bar {
                Some(t.type_)
            } else {
                None
            },
            _ => None,
        };
        match kind {
            Some(type_) => {
                proof {
                    assert(is_proc_start(elem_view(elements@[c0])));
                    assert(!no_proc_before(elements@, elements@.len() as int));
                }
                let start = cursor;
                let position = sel.get_pos().clone();
                let is_fn = type_ == TokenType::Keyword(Keyword::Fn);
                let mut raw = sel.get_raw();
                let mut selected = sel;
                if type_ != TokenType::Bar {
                    if cursor == elements.len() - 1 {
                        return Err(error_missing_after(selected));
                    }
                    cursor = cursor + 1;
                    selected = &elements[cursor];
                    raw = cat2(raw.as_str(), selected.get_raw().as_str());
                }
                let is_bar = match selected {
                    Element::Token(t) => t.type_ == TokenType::Bar,
                    _ => false,
                };
                let args = if is_bar {
                    get_arguments(&mut cursor, &elements, &mut raw)?
                } else {
                    cursor = cursor - 1;
                    Vec::new()
                };
                if cursor == elements.len() - 1 {
                    return Err(error_missing_after(selected));
                }
                cursor = cursor + 1;
                selected = &elements[cursor];
                let colon = match selected {
                    Element::Token(t) => if t.type_ == TokenType::Colon {
                        Some(t.value.clone())
                    } else {
                        None
                    },
                    _ => None,
                };
                let return_type = match colon {
                    Some(value) => {
                        let mut catcher: Vec<Element> = Vec::new();
                        raw = cat2(raw.as_str(), value.as_str());
                        loop
                            invariant
                                start < cursor < elements@.len(),
                                catcher@.len() < cursor - start,
                                !no_proc_before(elements@, elements@.len() as int),
                            decreases elements@.len() - cursor,
                        {
                            if cursor == elements.len() - 1 {
                                return Err(error_missing_after(&elements[cursor]));
                            }
                            cursor = cursor + 1;
                            let cs = &elements[cursor];
                            raw = cat2(raw.as_str(), cs.get_raw().as_str());
                            if matches!(cs, Element::Block { .. }) {
                                break;
                            }
                            catcher.push(clone_element(cs));
                        }
                        selected = &elements[cursor];
                        match parse_expr(catcher)? {
                            Element::Variable { name, .. } => Type::Instance {
                                name,
                                type_args: Vec::new(),
                                inst_attrs: Vec::new(),
                                implementation: None,
                            },
                            _ => {
                                return Err(internal_error("return type is not a name"));
                            },
                        }
                    },
                    None => Type::null(),
                };
                match selected {
                    Element::Block { content, .. } => {
                        new_elements.push(Element::Procedure {
                            position,
                            raw,
                            is_fn,
                            args,
                            return_type,
                            content: clone_elements(content),
                        });
                    },
                    _ => {
                        let rest = clone_range(&elements, cursor, elements.len());
                        let content = parse_expr(rest)?;
                        let r = cat2(raw.as_str(), content.get_raw().as_str());
                        new_elements.push(Element::Procedure {
                            position,
                            raw: r,
                            is_fn,
                            args,
                            return_type,
                            content: vec![content],
                        });
                        return Ok(new_elements);
                    },
                }
            },
            None => {
                let ghost before = new_elements@;
                let x = clone_element(sel);
                new_elements.push(x);
                proof {
                    assert(!is_proc_start(elem_view(elements@[c0])));
                    if no_proc_before(elements@, c0) {
                        lemma_views_push(before, x, elements@, c0);
                        assert(no_proc_before(elements@, c0 + 1));
                    }
                }
            },
        }
        cursor = cursor + 1;
    }
    proof {
        assert(elements@.take(elements@.len() as int) =~= elements@);
    }
    Ok(new_elements)
}

/// No element before the index is a token of the type.
pub open spec fn no_tok_before(s: Seq<Element>, i: int, ty: TokenType) -> bool {
    forall|j: int| 0 <= j < i ==> !is_tok(elem_view(#[trigger] s[j]), ty)
}

/// No element before the index is an assignment operator token.
pub open spec fn no_assign_before(s: Seq<Element>, i: int) -> bool {
    forall|j: int| 0 <= j < i ==> !(tok_type(elem_view(#[trigger] s[j])) matches Some(TokenType::AssignmentOpr(_)))
}

/// The elements before the index are kept as they were.
pub open spec fn kept_before(r: Seq<Element>, s: Seq<Element>, i: int) -> bool {
    forall|j: int| 0 <= j < i ==> elem_view(#[trigger] r[j]) == elem_view(s[j])
}

/// The first assignment operator becomes an assignment of the element
/// before it from the expression after it; a compound operator assigns the
/// operation on the variable and that expression. Error 2.1.3 for an
/// assignment operator at either end.
fn parse_assignment_oprs(elements: Vec<Element>) -> (res: Result<Vec<Element>, ZyxtError>)
    ensures
        res matches Ok(r) ==> r@.len() <= elements@.len(),
        no_assign_before(elements@, elements@.len() as int) ==> res == Ok::<Vec<Element>, ZyxtError>(elements),
        forall|i: int| 0 <= i < elements@.len() && (tok_type(elem_view(#[trigger] elements@[i])) matches Some(
            TokenType::AssignmentOpr(_),
        )) && no_assign_before(elements@, i) ==> (if i == 0 || i == elements@.len() - 1 {
            res matches Err(e) && e.code@ == "2.1.3"@
        } else {
            res matches Ok(r) ==> r@.len() == i && kept_before(r@, elements@, i - 1) && elem_view(r@[i - 1]) is Assign
        }),
    decreases 8 * elements@.len() + 5,
{
    let mut i: usize = 0;
    while i < elements.len()
        invariant
            i <= elements@.len(),
            no_assign_before(elements@, i as int),
        decreases elements@.len() - i,
    {
        let ele = &elements[i];
        match ele {
            Element::Token(t) => match t.type_ {
                TokenType::AssignmentOpr(opr_type) => {
                    if i == 0 || i == elements.len() - 1 {
                        return Err(error_2_1_3(ele.get_raw()).with_element(ele));
                    }
                    let variable = parse_expr(vec![clone_element(&elements[i - 1])])?;
                    let rest = clone_range(&elements, i + 1, elements.len());
                    let content = if opr_type == OprType::Null {
                        parse_expr(rest)?
                    } else {
                        let operand2 = parse_expr(rest)?;
                        Element::BinaryOpr {
                            position: t.position.clone(),
                            type_: opr_type,
                            raw: operand2.get_raw(),
                            operand1: Box::new(clone_element(&variable)),
                            operand2: Box::new(operand2),
                        }
                    };
                    let mut out = clone_range(&elements, 0, i - 1);
                    let raw = cat3(variable.get_raw().as_str(), ele.get_raw().as_str(), content.get_raw().as_str());
                    out.push(Element::Assign {
                        position: t.position.clone(),
                        raw,
                        variable: Box::new(variable),
                        content: Box::new(content),
                    });
                    return Ok(out);
                },
                _ => {},
            },
            _ => {},
        }
        i = i + 1;
    }
    Ok(elements)
}

/// Whether an element is a unary operator token.
pub open spec fn is_unary_tok(e: ElementView) -> bool {
    tok_type(e) matches Some(TokenType::UnaryOpr(_, _))
}

/// Whether the element at `i` is the only unary operator token.
pub open spec fn single_unary_at(s: Seq<ElementView>, i: int) -> bool {
    0 <= i < s.len() && is_unary_tok(s[i]) && forall|k: int| 0 <= k < s.len() && k != i ==> !is_unary_tok(#[trigger] s[k])
}

/// What a list with one unary operator token becomes: a prefix operator
/// applies to the element after it, which it replaces with the elements
/// after that; a postfix one applies to the first element and replaces
/// everything before it. Error 2.1.4 for an operator without its operand.
pub open spec fn one_unary_ok(s: Seq<ElementView>, i: int, res: Result<Vec<Element>, ZyxtError>) -> bool {
    match s[i] {
        ElementView::Token(t) => match t.type_ {
            TokenType::UnaryOpr(o, side) => if side == Side::Left {
                if i == s.len() - 1 {
                    res matches Err(e) && e.code@ == "2.1.4"@
                } else {
                    res matches Ok(r) && views(r@) == s.take(i).push(
                        ElementView::UnaryOpr {
                            position: t.position,
                            raw: raw_of(s[i]) + raw_of(s[i + 1]),
                            type_: o,
                            operand: Box::new(s[i + 1]),
                        },
                    )
                }
            } else {
                if i == 0 {
                    res matches Err(e) && e.code@ == "2.1.4"@
                } else {
                    res matches Ok(r) && views(r@) == seq![
                        ElementView::UnaryOpr {
                            position: t.position,
                            raw: raw_of(s[0]) + raw_of(s[i]),
                            type_: o,
                            operand: Box::new(s[0]),
                        },
                    ] + s.skip(i + 1)
                }
            },
            _ => true,
        },
        _ => true,
    }
}

/// Unary operators, from the last one back, become operations on the
/// element after (a prefix operator) or before (a postfix one) them; what
/// follows that operand is dropped. Error 2.1.4 for an operator without
/// its operand.
pub fn parse_un_oprs(elements: Vec<Element>) -> (res: Result<Vec<Element>, ZyxtError>)
    ensures
        res matches Ok(r) ==> {
            &&& r@.len() <= elements@.len()
            &&& (elements@.len() > 0 ==> r@.len() > 0)
            &&& ((exists|k: int| 0 <= k < elements@.len() && is_unary_tok(elem_view(#[trigger] elements@[k]))) ==> r@.len() < elements@.len())
            &&& forall|k: int| 0 <= k < r@.len() ==> !is_unary_tok(elem_view(#[trigger] r@[k]))
        },
        (forall|k: int| 0 <= k < elements@.len() ==> !is_unary_tok(elem_view(#[trigger] elements@[k]))) ==> res == Ok::<
            Vec<Element>,
            ZyxtError,
        >(elements),
        forall|i: int| single_unary_at(views(elements@), i) ==> one_unary_ok(views(elements@), i, res),
    decreases elements@.len(),
{
    let ghost v = views(elements@);
    if elements.len() == 0 {
        return Ok(elements);
    }
    let mut i: usize = elements.len();
    while i > 0
        invariant
            i <= elements@.len(),
            elements@.len() > 0,
            forall|k: int| i <= k < elements@.len() ==> !is_unary_tok(elem_view(#[trigger] elements@[k])),
            v == views(elements@),
        decreases i,
    {
        i = i - 1;
        let ele = &elements[i];
        proof {
            assert(v[i as int] == elem_view(*ele));
        }
        match ele {
            Element::Token(t) => match t.type_ {
                TokenType::UnaryOpr(opr_type, side) => {
                    if side == Side::Left {
                        if i == elements.len() - 1 {
                            return Err(error_2_1_4(ele.get_raw()).with_element(ele));
                        }
                        let ghost single = single_unary_at(v, i as int);
                        let rest = clone_range(&elements, i + 1, elements.len());
                        proof {
                            if single {
                                assert forall|k: int| 0 <= k < rest@.len() implies !is_unary_tok(elem_view(#[trigger] rest@[k])) by {
                                    assert(elem_view(rest@[k]) == v[i + 1 + k]);
                                }
                            }
                        }
                        let right = parse_un_oprs(rest)?;
                        proof {
                            if single {
                                assert(elem_view(right@[0]) == v[i + 1]);
                            }
                        }
                        let operand = clone_element(&right[0]);
                        let raw = cat2(ele.get_raw().as_str(), operand.get_raw().as_str());
                        let mut next = clone_range(&elements, 0, i);
                        let ghost pre = views(next@);
                        proof {
                            assert(pre =~= v.take(i as int));
                        }
                        next.push(Element::UnaryOpr {
                            position: t.position.clone(),
                            type_: opr_type,
                            raw,
                            operand: Box::new(operand),
                        });
                        proof {
                            if single {
                                assert(views(next@) =~= pre.push(elem_view(next@[i as int])));
                                assert forall|k: int| 0 <= k < next@.len() implies !is_unary_tok(elem_view(#[trigger] next@[k])) by {
                                    if k < i {
                                        assert(elem_view(next@[k]) == v[k]);
                                    }
                                }
                            }
                        }
                        let r = parse_un_oprs(next)?;
                        return Ok(r);
                    } else {
                        if i == 0 {
                            return Err(error_2_1_4(ele.get_raw()).with_element(ele));
                        }
                        let ghost single = single_unary_at(v, i as int);
                        let before = clone_range(&elements, 0, i);
                        proof {
                            if single {
                                assert forall|k: int| 0 <= k < before@.len() implies !is_unary_tok(elem_view(#[trigger] before@[k])) by {
                                    assert(elem_view(before@[k]) == v[k]);
                                }
                            }
                        }
                        let left = parse_un_oprs(before)?;
                        proof {
                            if single {
                                assert(elem_view(left@[0]) == v[0]);
                            }
                        }
                        let operand = clone_element(&left[0]);
                        let raw = cat2(operand.get_raw().as_str(), ele.get_raw().as_str());
                        let mut next: Vec<Element> = Vec::new();
                        next.push(Element::UnaryOpr {
                            position: t.position.clone(),
                            type_: opr_type,
                            raw,
                            operand: Box::new(operand),
                        });
                        let ghost head = elem_view(next@[0]);
                        let mut k: usize = i + 1;
                        proof {
                            assert(views(next@) =~= seq![head] + v.subrange(i + 1, k as int));
                        }
                        while k < elements.len()
                            invariant
                                i + 1 <= k <= elements@.len(),
                                next@.len() == k - i,
                                v == views(elements@),
                                views(next@) == seq![head] + v.subrange(i + 1, k as int),
                            decreases elements@.len() - k,
                        {
                            let ghost b = views(next@);
                            next.push(clone_element(&elements[k]));
                            proof {
                                assert(views(next@) =~= b.push(v[k as int]));
                                assert(v.subrange(i + 1, k + 1) =~= v.subrange(i + 1, k as int).push(v[k as int]));
                                assert(seq![head] + v.subrange(i + 1, k + 1) =~= (seq![head] + v.subrange(i + 1, k as int)).push(v[k as int]));
                            }
                            k = k + 1;
                        }
                        proof {
                            assert(v.subrange(i + 1, v.len() as int) =~= v.skip(i + 1));
                            if single {
                                assert forall|x: int| 0 <= x < next@.len() implies !is_unary_tok(elem_view(#[trigger] next@[x])) by {
                                    assert(elem_view(next@[x]) == views(next@)[x]);
                                    if x > 0 {
                                        assert(views(next@)[x] == v[i + x]);
                                    }
                                }
                            }
                        }
                        let r = parse_un_oprs(next)?;
                        return Ok(r);
                    }
                },
                _ => {},
            },
            _ => {},
        }
    }
    Ok(elements)
}

/// The index of the operator a binary expression splits at: among the
/// operator tokens, the last one of the highest precedence value.
pub open spec fn split_index(s: Seq<ElementView>, n: int) -> Option<int>
    decreases n,
{
    if n <= 0 {
        None
    } else {
        let i = n - 1;
        match split_index(s, i) {
            Some(j) => match tok_type(s[i]) {
                Some(TokenType::NormalOpr(o)) => match tok_type(s[j]) {
                    Some(TokenType::NormalOpr(p)) => if spec_order(o) >= spec_order(p) {
                        Some(i)
                    } else {
                        Some(j)
                    },
                    _ => Some(i),
                },
                _ => Some(j),
            },
            None => match tok_type(s[i]) {
                Some(TokenType::NormalOpr(o)) => Some(i),
                _ => None,
            },
        }
    }
}

/// The views of a sequence of syntax trees, one by one.
pub open spec fn views(s: Seq<Element>) -> Seq<ElementView> {
    s.map_values(|e: Element| elem_view(e))
}

/// The operator of an element that is a binary operator token.
pub open spec fn normal_opr(e: ElementView) -> Option<OprType> {
    match tok_type(e) {
        Some(TokenType::NormalOpr(o)) => Some(o),
        _ => None,
    }
}

proof fn lemma_split_index_stays(s: Seq<ElementView>, n: int, m: int)
    requires
        n <= m,
        split_index(s, n) is Some,
    ensures
        split_index(s, m) is Some,
    decreases m - n,
{
    if n < m {
        lemma_split_index_stays(s, n, m - 1);
    }
}

/// Binary operators: the expression splits at the last operator of the
/// highest precedence value into an operation on the expressions before
/// and after it. Error 2.1.3 for an operator at either end.
fn parse_normal_oprs(elements: Vec<Element>) -> (res: Result<Vec<Element>, ZyxtError>)
    ensures
        res matches Ok(r) ==> r@.len() <= elements@.len(),
        elements@.len() > 0 && (normal_opr(elem_view(elements@[0])) is Some || normal_opr(elem_view(elements@.last())) is Some)
            ==> (res matches Err(e) && e.code@ == "2.1.3"@),
        split_index(views(elements@), elements@.len() as int) is None ==> (res matches Ok(r) && views(r@) == views(elements@)),
        res matches Ok(r) ==> (split_index(views(elements@), elements@.len() as int) matches Some(j) ==> r@.len() == 1 && (elem_view(
            r@[0],
        ) matches ElementView::BinaryOpr { type_, .. } && Some(type_) == normal_opr(elem_view(elements@[j])))),
    decreases 8 * elements@.len() + 5,
{
    let ghost v = views(elements@);
    if elements.len() == 0 {
        let empty: Vec<Element> = Vec::new();
        proof {
            assert(views(empty@) =~= v);
        }
        return Ok(empty);
    }
    let mut highest_index: usize = 0;
    let mut highest: u8 = 0;
    let mut detected = false;
    let mut i: usize = 0;
    while i < elements.len()
        invariant
            v == views(elements@),
            i <= elements@.len(),
            elements@.len() > 0,
            highest_index < elements@.len(),
            detected ==> 0 < highest_index < elements@.len() - 1,
            detected ==> tok_type(elem_view(elements@[highest_index as int])) matches Some(TokenType::NormalOpr(_)),
            detected == (split_index(v, i as int) is Some),
            !detected ==> highest == 0,
            detected ==> split_index(v, i as int) == Some(highest_index as int),
            detected ==> (normal_opr(v[highest_index as int]) matches Some(o) && highest == spec_order(o)),
            i > 0 ==> normal_opr(v[0]) is None,
            i == elements@.len() ==> normal_opr(v[elements@.len() - 1]) is None,
        decreases elements@.len() - i,
    {
        let ele = &elements[i];
        proof {
            assert(v[i as int] == elem_view(*ele));
        }
        match ele {
            Element::Token(t) => match t.type_ {
                TokenType::NormalOpr(opr_type) => {
                    if i == 0 || i == elements.len() - 1 {
                        proof {
                            assert(split_index(v, i + 1) is Some);
                            lemma_split_index_stays(v, i + 1, elements@.len() as int);
                        }
                        return Err(error_2_1_3(t.value.clone()).with_element(ele));
                    }
                    let order = get_order(&opr_type);
                    if order >= highest {
                        highest_index = i;
                        highest = order;
                        detected = true;
                    }
                    proof {
                        assert(split_index(v, i + 1) == Some(highest_index as int));
                    }
                },
                _ => {
                    proof {
                        assert(split_index(v, i + 1) == split_index(v, i as int));
                    }
                },
            },
            _ => {
                proof {
                    assert(split_index(v, i + 1) == split_index(v, i as int));
                }
            },
        }
        i = i + 1;
    }
    if !detected {
        return Ok(elements);
    }
    match &elements[highest_index] {
        Element::Token(t) => match t.type_ {
            TokenType::NormalOpr(opr_type) => {
                let operand1 = parse_expr(clone_range(&elements, 0, highest_index))?;
                let operand2 = parse_expr(clone_range(&elements, highest_index + 1, elements.len()))?;
                let raw = cat3(operand1.get_raw().as_str(), elements[highest_index].get_raw().as_str(), operand2.get_raw().as_str());
                proof {
                    assert(v[highest_index as int] == elem_view(elements@[highest_index as int]));
                }
                Ok(vec![Element::BinaryOpr {
                    position: t.position.clone(),
                    type_: opr_type,
                    raw,
                    operand1: Box::new(operand1),
                    operand2: Box::new(operand2),
                }])
            },
            _ => Ok(elements),
        },
        _ => Ok(elements),
    }
}

/// `del` and the comma-separated variables after it become a deletion.
/// Error 2.1.12 for a dereference and 2.1.11 for anything else that is not
/// a variable.
fn parse_delete_expr(elements: Vec<Element>) -> (res: Result<Vec<Element>, ZyxtError>)
    ensures
        res matches Ok(r) ==> r@.len() <= elements@.len(),
        no_tok_before(elements@, elements@.len() as int, TokenType::Keyword(Keyword::Delete)) ==> res == Ok::<
            Vec<Element>,
            ZyxtError,
        >(elements),
        forall|i: int| 0 <= i < elements@.len() && is_tok(elem_view(#[trigger] elements@[i]), TokenType::Keyword(Keyword::Delete))
            && no_tok_before(elements@, i, TokenType::Keyword(Keyword::Delete)) ==> (res matches Ok(r) ==> r@.len() == i + 1
            && kept_before(r@, elements@, i) && elem_view(r@[i]) is Delete),
    decreases 8 * elements@.len() + 5,
{
    let mut i: usize = 0;
    while i < elements.len()
        invariant
            i <= elements@.len(),
            no_tok_before(elements@, i as int, TokenType::Keyword(Keyword::Delete)),
        decreases elements@.len() - i,
    {
        let ele = &elements[i];
        let is_del = match ele {
            Element::Token(t) => t.type_ == TokenType::Keyword(Keyword::Delete),
            _ => false,
        };
        if is_del {
            let rest = clone_range(&elements, i + 1, elements.len());
            let vars = split_between(TokenType::Comma, TokenType::Null, TokenType::Null, rest, false)?;
            let mut names: Vec<String> = Vec::new();
            let mut k: usize = 0;
            while k < vars.len()
                invariant
                    k <= vars@.len(),
                    i < elements@.len(),
                    is_tok(elem_view(elements@[i as int]), TokenType::Keyword(Keyword::Delete)),
                decreases vars@.len() - k,
            {
                let var = &vars[k];
                match var {
                    Element::Variable { name, .. } => {
                        names.push(name.clone());
                    },
                    Element::UnaryOpr { type_: OprType::Deref, raw, .. } => {
                        return Err(error_2_1_12(raw.clone()).with_element(var));
                    },
                    _ => {
                        return Err(error_2_1_11(var.get_raw()).with_element(var));
                    },
                }
                k = k + 1;
            }
            let mut out = clone_range(&elements, 0, i);
            let tail = raws_between(&elements, i + 1, elements.len());
            let raw = cat2(ele.get_raw().as_str(), tail.as_str());
            out.push(Element::Delete { position: ele.get_pos().clone(), raw, names });
            return Ok(out);
        }
        i = i + 1;
    }
    Ok(elements)
}

/// `ret` and the expression after it become a return.
fn parse_return_expr(elements: Vec<Element>) -> (res: Result<Vec<Element>, ZyxtError>)
    ensures
        res matches Ok(r) ==> r@.len() <= elements@.len(),
        no_tok_before(elements@, elements@.len() as int, TokenType::Keyword(Keyword::Return)) ==> res == Ok::<
            Vec<Element>,
            ZyxtError,
        >(elements),
        forall|i: int| 0 <= i < elements@.len() && is_tok(elem_view(#[trigger] elements@[i]), TokenType::Keyword(Keyword::Return))
            && no_tok_before(elements@, i, TokenType::Keyword(Keyword::Return)) ==> (res matches Ok(r) ==> r@.len() == i + 1
            && kept_before(r@, elements@, i) && elem_view(r@[i]) is Return),
    decreases 8 * elements@.len() + 5,
{
    let mut i: usize = 0;
    while i < elements.len()
        invariant
            i <= elements@.len(),
            no_tok_before(elements@, i as int, TokenType::Keyword(Keyword::Return)),
        decreases elements@.len() - i,
    {
        let ele = &elements[i];
        match ele {
            Element::Token(t) => {
                if t.type_ == TokenType::Keyword(Keyword::Return) {
                    let value = parse_expr(clone_range(&elements, i + 1, elements.len()))?;
                    let raw = cat3(t.whitespace.as_str(), t.value.as_str(), value.get_raw().as_str());
                    let mut out = clone_range(&elements, 0, i);
                    out.push(Element::Return { position: t.position.clone(), raw, value: Box::new(value) });
                    return Ok(out);
                }
            },
            _ => {},
        }
        i = i + 1;
    }
    Ok(elements)
}

/// The first `:=` becomes a declaration of the element before it, with the
/// flags before that, from the expression after it. Error 2.1.5 for `:=`
/// at either end and 2.1.6 for something other than a flag before the
/// variable.
fn parse_declaration_expr(elements: Vec<Element>) -> (res: Result<Vec<Element>, ZyxtError>)
    ensures
        res matches Ok(r) ==> r@.len() <= elements@.len(),
        no_tok_before(elements@, elements@.len() as int, TokenType::DeclarationOpr) ==> (res matches Ok(r) && views(r@)
            == views(elements@)),
        forall|i: int| 0 <= i < elements@.len() && is_tok(elem_view(#[trigger] elements@[i]), TokenType::DeclarationOpr)
            && no_tok_before(elements@, i, TokenType::DeclarationOpr) ==> (if i == 0 || i == elements@.len() - 1 {
            res matches Err(e) && e.code@ == "2.1.5"@
        } else {
            res matches Ok(r) ==> r@.len() > 0 && elem_view(r@.last()) is Declare
        }),
    decreases 8 * elements@.len() + 5,
{
    let mut cursor: usize = 0;
    let mut new_elements: Vec<Element> = Vec::new();
    let mut flag_pos: Option<usize> = None;
    proof {
        assert(views(new_elements@) =~= views(elements@.take(0)));
    }
    while cursor < elements.len()
        invariant
            cursor <= elements@.len(),
            new_elements@.len() <= cursor,
            flag_pos matches Some(f) ==> f < cursor,
            no_tok_before(elements@, cursor as int, TokenType::DeclarationOpr),
            views(new_elements@) == views(elements@.take(cursor as int)),
        decreases elements@.len() - cursor,
    {
        let sel = &elements[cursor];
        let ghost c0 = cursor as int;
        let ghost before = new_elements@;
        match sel {
            Element::Token(t) => {
                match t.type_ {
                    TokenType::Flag(_) => {
                        flag_pos = Some(cursor);
                    },
                    _ => {},
                }
                if t.type_ == TokenType::DeclarationOpr {
                    if cursor == elements.len() - 1 || cursor == 0 {
                        return Err(error_2_1_5().with_element(sel));
                    }
                    let declared_var = &elements[cursor - 1];
                    let mut raw = cat3(declared_var.get_raw().as_str(), t.whitespace.as_str(), t.value.as_str());
                    let mut flags: Vec<crate::token::Flag> = Vec::new();
                    match flag_pos {
                        Some(f) => {
                            let mut k: usize = f;
                            while k < cursor - 1
                                invariant
                                    f <= k <= cursor - 1,
                                    0 < cursor < elements@.len() - 1,
                                    flags@.len() == k - f,
                                    is_tok(elem_view(elements@[cursor as int]), TokenType::DeclarationOpr),
                                    no_tok_before(elements@, cursor as int, TokenType::DeclarationOpr),
                                decreases cursor - 1 - k,
                            {
                                let ele = &elements[k];
                                match ele {
                                    Element::Token(ft) => match ft.type_ {
                                        TokenType::Flag(flag) => {
                                            raw = cat3(ft.whitespace.as_str(), ft.value.as_str(), raw.as_str());
                                            flags.push(flag);
                                        },
                                        _ => {
                                            return Err(error_2_1_6(ele.get_raw()).with_element(ele));
                                        },
                                    },
                                    _ => {
                                        return Err(error_2_1_6(ele.get_raw()).with_element(ele));
                                    },
                                }
                                k = k + 1;
                            }
                        },
                        None => {},
                    }
                    new_elements.pop();
                    let mut p: usize = 0;
                    while p < flags.len()
                        invariant
                            p <= flags@.len(),
                            new_elements@.len() <= cursor - 1,
                            1 <= cursor < elements@.len(),
                        decreases flags@.len() - p,
                    {
                        new_elements.pop();
                        p = p + 1;
                    }
                    let content = parse_expr(clone_range(&elements, cursor + 1, elements.len()))?;
                    let variable = parse_expr(vec![clone_element(declared_var)])?;
                    let r = cat2(raw.as_str(), content.get_raw().as_str());
                    new_elements.push(Element::Declare {
                        position: t.position.clone(),
                        raw: r,
                        variable: Box::new(variable),
                        content: Box::new(content),
                        flags,
                        type_: Type::null(),
                    });
                    return Ok(new_elements);
                } else {
                    let x = clone_element(sel);
                    new_elements.push(x);
                    proof {
                        lemma_views_push(before, x, elements@, c0);
                        assert(!is_tok(elem_view(elements@[c0]), TokenType::DeclarationOpr));
                        assert(no_tok_before(elements@, c0 + 1, TokenType::DeclarationOpr));
                    }
                }
            },
            _ => {
                let x = clone_element(sel);
                new_elements.push(x);
                proof {
                    lemma_views_push(before, x, elements@, c0);
                    assert(!is_tok(elem_view(elements@[c0]), TokenType::DeclarationOpr));
                    assert(no_tok_before(elements@, c0 + 1, TokenType::DeclarationOpr));
                }
            },
        }
        cursor = cursor + 1;
    }
    proof {
        assert(elements@.take(elements@.len() as int) =~= elements@);
    }
    Ok(new_elements)
}


/// The kinds of branch of an `if`.
#[derive(Clone, Copy, PartialEq, Eq, Structural)]
enum Branch {
    Neither,
    If,
    Elif,
    Else,
}

/// Whether an element is an `if`, `elif` or `else` keyword token.
pub open spec fn is_branch_kw(e: ElementView) -> bool {
    is_tok(e, TokenType::Keyword(Keyword::If)) || is_tok(e, TokenType::Keyword(Keyword::Elif)) || is_tok(
        e,
        TokenType::Keyword(Keyword::Else),
    )
}

/// Whether an element is a `(` or `{` token.
pub open spec fn is_open_bracket(e: ElementView) -> bool {
    is_tok(e, TokenType::OpenParen) || is_tok(e, TokenType::OpenCurlyParen)
}

/// No element before the index is a `(` or `{` token.
pub open spec fn no_open_bracket_before(s: Seq<Element>, i: int) -> bool {
    forall|j: int| 0 <= j < i ==> !is_open_bracket(elem_view(#[trigger] s[j]))
}

/// Whether an element is a `proc` or `fn` keyword token or a bar.
pub open spec fn is_proc_start(e: ElementView) -> bool {
    is_tok(e, TokenType::Keyword(Keyword::Proc)) || is_tok(e, TokenType::Keyword(Keyword::Fn)) || is_tok(e, TokenType::Bar)
}

/// No element before the index is a `proc` or `fn` keyword token or a bar.
pub open spec fn no_proc_before(s: Seq<Element>, i: int) -> bool {
    forall|j: int| 0 <= j < i ==> !is_proc_start(elem_view(#[trigger] s[j]))
}

/// Whether an element is a `class` or `struct` keyword token.
pub open spec fn is_class_kw(e: ElementView) -> bool {
    is_tok(e, TokenType::Keyword(Keyword::Class)) || is_tok(e, TokenType::Keyword(Keyword::Struct))
}

/// No element before the index is a `class` or `struct` keyword token.
pub open spec fn no_class_before(s: Seq<Element>, i: int) -> bool {
    forall|j: int| 0 <= j < i ==> !is_class_kw(elem_view(#[trigger] s[j]))
}

/// Whether an element is a `pre` or `defer` keyword token.
pub open spec fn is_pre_defer_kw(e: ElementView) -> bool {
    is_tok(e, TokenType::Keyword(Keyword::Pre)) || is_tok(e, TokenType::Keyword(Keyword::Defer))
}

/// No element before the index is a `pre` or `defer` keyword token.
pub open spec fn no_pre_defer_before(s: Seq<Element>, i: int) -> bool {
    forall|j: int| 0 <= j < i ==> !is_pre_defer_kw(elem_view(#[trigger] s[j]))
}

/// One more element copied: the copy's views still match the first ones.
proof fn lemma_views_push(new: Seq<Element>, x: Element, s: Seq<Element>, i: int)
    requires
        0 <= i < s.len(),
        views(new) == views(s.take(i)),
        elem_view(x) == elem_view(s[i]),
    ensures
        views(new.push(x)) == views(s.take(i + 1)),
{
    assert(views(new.push(x)) =~= views(new).push(elem_view(x)));
    assert(s.take(i + 1) =~= s.take(i).push(s[i]));
    assert(views(s.take(i + 1)) =~= views(s.take(i)).push(elem_view(s[i])));
}

/// The branches of an `if` read from index `j` on, `prev_else` telling
/// whether the branch before was an `else`, the branches so far being
/// `conds` and their text `raw`: each branch is `if` (only at index `st`) or
/// `elif` with a condition that is one simple element (see
/// `single_simple`) and then a block, or `else` and then a block. At the end
/// of the list: the branches and their text (a keyword with its white
/// space, then the block's text, twice for a branch with a condition).
/// `elif` or `else` after an `else` is error 2.1.7, `else` followed by
/// something other than a block error 2.1.8, `else` at the end error
/// 2.1.0; none for any other list.
pub open spec fn chain_from(
    v: Seq<ElementView>,
    j: int,
    st: int,
    prev_else: bool,
    conds: Seq<crate::element::ConditionView>,
    raw: Seq<char>,
) -> Option<Result<(Seq<crate::element::ConditionView>, Seq<char>), Seq<char>>>
    decreases v.len() - j,
{
    if j < 0 {
        None
    } else if j >= v.len() {
        Some(Ok((conds, raw)))
    } else {
        match v[j] {
            ElementView::Token(t) => if t.type_ == TokenType::Keyword(Keyword::Elif) || t.type_ == TokenType::Keyword(Keyword::Else) {
                if prev_else {
                    Some(Err("2.1.7"@))
                } else if t.type_ == TokenType::Keyword(Keyword::Else) {
                    if j + 1 >= v.len() {
                        Some(Err("2.1.0"@))
                    } else {
                        match v[j + 1] {
                            ElementView::Block { content, raw: br, .. } => chain_from(
                                v,
                                j + 2,
                                st,
                                true,
                                conds.push(crate::element::ConditionView { condition: ElementView::NullElement, if_true: content }),
                                raw + t.whitespace + t.value + br,
                            ),
                            _ => Some(Err("2.1.8"@)),
                        }
                    }
                } else {
                    cond_branch(v, j, st, t, conds, raw)
                }
            } else if t.type_ == TokenType::Keyword(Keyword::If) && j == st {
                cond_branch(v, j, st, t, conds, raw)
            } else {
                None
            },
            _ => None,
        }
    }
}

/// An `if` or `elif` branch at `j` (see `chain_from`).
pub open spec fn cond_branch(
    v: Seq<ElementView>,
    j: int,
    st: int,
    t: TokenView,
    conds: Seq<crate::element::ConditionView>,
    raw: Seq<char>,
) -> Option<Result<(Seq<crate::element::ConditionView>, Seq<char>), Seq<char>>>
    decreases v.len() - j, 0int,
{
    if 0 <= j && j + 2 < v.len() && single_simple(v[j + 1]) && !(v[j + 1] is Block) {
        match v[j + 2] {
            ElementView::Block { content, raw: br, .. } => chain_from(
                v,
                j + 3,
                st,
                false,
                conds.push(crate::element::ConditionView { condition: simple_conv(v[j + 1]).unwrap(), if_true: content }),
                raw + t.whitespace + t.value + br + br,
            ),
            _ => None,
        }
    } else {
        None
    }
}

/// The index of the first `if`, `elif` or `else` keyword token from `i`
/// on; the length of the list where there is none.
pub open spec fn first_branch_kw(v: Seq<ElementView>, i: int) -> int
    decreases v.len() - i,
{
    if i < 0 || i >= v.len() {
        v.len() as int
    } else if is_branch_kw(v[i]) {
        i
    } else {
        first_branch_kw(v, i + 1)
    }
}

proof fn lemma_first_branch_kw(v: Seq<ElementView>, i: int)
    requires
        0 <= i <= v.len(),
    ensures
        i <= first_branch_kw(v, i) <= v.len(),
        forall|j: int| i <= j < first_branch_kw(v, i) ==> !is_branch_kw(#[trigger] v[j]),
        first_branch_kw(v, i) < v.len() ==> is_branch_kw(v[first_branch_kw(v, i)]),
    decreases v.len() - i,
{
    if i < v.len() && !is_branch_kw(v[i]) {
        lemma_first_branch_kw(v, i + 1);
    }
}

/// What parsing gives where the first `if`, `elif` or `else` keyword
/// token, at `f`, is an `if` whose chain of branches runs to the end (see
/// `chain_from`): the elements before it, then one conditional with the
/// chain's branches and text; or the chain's error.
pub open spec fn if_chain_ok(v: Seq<ElementView>, f: int, res: Result<Vec<Element>, ZyxtError>) -> bool {
    0 <= f < v.len() && is_tok(v[f], TokenType::Keyword(Keyword::If)) ==> match chain_from(v, f, f, false, Seq::empty(), Seq::empty()) {
        Some(Ok((c, r))) => res matches Ok(x) && views(x@) == v.take(f) + seq![
            ElementView::If { position: pos_of(v[f]), raw: r, conditions: c },
        ],
        Some(Err(code)) => res matches Err(e) && e.code@ == code,
        None => true,
    }
}

/// No element before the index is an `if`, `elif` or `else` keyword token.
pub open spec fn no_branch_kw_before(s: Seq<Element>, i: int) -> bool {
    forall|j: int| 0 <= j < i ==> !is_branch_kw(elem_view(#[trigger] s[j]))
}

/// `if`, `elif` and `else` branches, each with a condition (none for
/// `else`) and a block, become a conditional, wherever the first `if` stands
/// (see `if_chain_ok`). Error 2.1.7 for a branch after `else`, 2.1.8 for a
/// branch without a block, 2.1.9 for `elif` or `else` without `if`.
#[verifier::rlimit(100)]
pub fn parse_if_expr(elements: Vec<Element>) -> (res: Result<Vec<Element>, ZyxtError>)
    ensures
        res matches Ok(r) ==> r@.len() <= elements@.len(),
        no_branch_kw_before(elements@, elements@.len() as int) ==> (res matches Ok(r) && views(r@) == views(elements@)),
        forall|i: int| 0 <= i < elements@.len() && (is_tok(elem_view(#[trigger] elements@[i]), TokenType::Keyword(Keyword::Elif))
            || is_tok(elem_view(elements@[i]), TokenType::Keyword(Keyword::Else))) && no_branch_kw_before(elements@, i) ==> (res
            matches Err(e) && e.code@ == "2.1.9"@ && e.message@ == "Stray `"@ + (if is_tok(
            elem_view(elements@[i]),
            TokenType::Keyword(Keyword::Elif),
        ) {
            "elif"@
        } else {
            "else"@
        }) + "` without starting `if`"@),
        res matches Ok(x) ==> forall|k: int| 0 <= k < x@.len() ==> !is_tok(elem_view(#[trigger] x@[k]), TokenType::Keyword(Keyword::Elif))
            && !is_tok(elem_view(x@[k]), TokenType::Keyword(Keyword::Else)),
        if_chain_ok(views(elements@), first_branch_kw(views(elements@), 0), res),
    decreases 8 * elements@.len() + 5,
{
    let ghost v = views(elements@);
    let ghost f = first_branch_kw(v, 0);
    proof {
        lemma_first_branch_kw(v, 0);
        assert forall|j: int| 0 <= j < f implies !is_branch_kw(elem_view(#[trigger] elements@[j])) by {
            assert(v[j] == elem_view(elements@[j]));
        }
        assert(views(elements@.take(f)) =~= v.take(f));
    }
    let ghost chain = f < v.len() && is_tok(v[f], TokenType::Keyword(Keyword::If)) && chain_from(
        v,
        f,
        f,
        false,
        Seq::empty(),
        Seq::empty(),
    ) is Some;
    let mut cursor: usize = 0;
    let mut new_elements: Vec<Element> = Vec::new();
    proof {
        assert(views(new_elements@) =~= views(elements@.take(0)));
    }
    let ghost mut first_if: Option<int> = None;
    while cursor < elements.len()
        invariant
            cursor <= elements@.len(),
            new_elements@.len() <= cursor,
            no_branch_kw_before(elements@, cursor as int) ==> views(new_elements@) == views(elements@.take(cursor as int)),
            match first_if {
                None => no_branch_kw_before(elements@, cursor as int),
                Some(f) => 0 <= f < cursor && f < elements@.len() && is_tok(elem_view(elements@[f]), TokenType::Keyword(Keyword::If))
                    && no_branch_kw_before(elements@, f),
            },
            v == views(elements@),
            chain == (f < v.len() && is_tok(v[f], TokenType::Keyword(Keyword::If)) && chain_from(v, f, f, false, Seq::empty(), Seq::empty()) is Some),
            0 <= f <= v.len(),
            f == first_branch_kw(v, 0),
            v.len() == elements@.len(),
            no_branch_kw_before(elements@, f),
            f < v.len() ==> is_branch_kw(v[f]),
            chain ==> cursor <= f || cursor == elements@.len(),
            chain && cursor > f ==> cursor == elements@.len() && (chain_from(v, f, f, false, Seq::empty(), Seq::empty()) matches Some(
                Ok((c, r)),
            ) && views(new_elements@) == views(elements@.take(f)) + seq![ElementView::If { position: pos_of(v[f]), raw: r, conditions: c }]),
            forall|k: int| 0 <= k < new_elements@.len() ==> !is_tok(elem_view(#[trigger] new_elements@[k]), TokenType::Keyword(Keyword::Elif))
                && !is_tok(elem_view(new_elements@[k]), TokenType::Keyword(Keyword::Else)),
        decreases elements@.len() - cursor,
    {
        let selected = &elements[cursor];
        proof {
            assert(v[cursor as int] == elem_view(*selected));
            if chain && cursor < f {
                assert(!is_branch_kw(elem_view(elements@[cursor as int])));
            }
        }
        let kwd = match selected {
            Element::Token(t) => match t.type_ {
                TokenType::Keyword(k) => Some(k),
                _ => None,
            },
            _ => None,
        };
        match kwd {
            Some(Keyword::If) => {
                proof {
                    assert(is_branch_kw(v[cursor as int]));
                    if chain {
                        assert(cursor == f);
                        assert(no_branch_kw_before(elements@, cursor as int));
                    }
                }
                let start_pos = selected.get_pos().clone();
                let start = cursor;
                proof {
                    if first_if is None {
                        first_if = Some(start as int);
                    }
                }
                let ghost fi = first_if.unwrap();
                let mut conditions: Vec<Condition> = Vec::new();
                let mut prev = Branch::Neither;
                let mut raw = String::new();
                proof {
                    crate::element::lemma_conds_view(conditions@);
                    assert(crate::element::conds_view(conditions@) =~= Seq::<crate::element::ConditionView>::empty());
                    assert(raw@ =~= Seq::<char>::empty());
                }
                loop
                    invariant_except_break
                        start <= cursor < elements@.len(),
                        0 <= fi <= start,
                        is_tok(elem_view(elements@[fi]), TokenType::Keyword(Keyword::If)),
                        no_branch_kw_before(elements@, fi),
                        cursor == start ==> (elements@[start as int] matches Element::Token(tk) && tk.type_
                            == TokenType::Keyword(Keyword::If) && tk.position@ == start_pos@),
                        cursor == start || cursor >= start + 2,
                        v == views(elements@),
                        chain == (f < v.len() && is_tok(v[f], TokenType::Keyword(Keyword::If)) && chain_from(v, f, f, false, Seq::empty(), Seq::empty()) is Some),
                        chain ==> start == f && views(new_elements@) == views(elements@.take(f)),
                        0 <= f <= v.len(),
                        f == first_branch_kw(v, 0),
                        elem_view(*selected) == v[start as int],
                        *selected == elements@[start as int],
                        elements@[start as int] is Token,
                        chain ==> (cursor == start ==> prev == Branch::Neither),
                        chain ==> chain_from(v, f, f, false, Seq::empty(), Seq::empty()) == chain_from(
                            v,
                            cursor as int,
                            f,
                            prev == Branch::Else,
                            crate::element::conds_view(conditions@),
                            raw@,
                        ),
                    ensures
                        start + 2 <= cursor <= elements@.len(),
                        chain ==> cursor == elements@.len() && views(new_elements@) == views(elements@.take(f)) && chain_from(v, f, f, false, Seq::empty(), Seq::empty())
                            == Some(Ok::<(Seq<crate::element::ConditionView>, Seq<char>), Seq<char>>((crate::element::conds_view(conditions@), raw@))),
                    decreases elements@.len() - cursor,
                {
                    let cs = &elements[cursor];
                    let ghost j = cursor as int;
                    let ghost conds0 = crate::element::conds_view(conditions@);
                    let ghost raw0 = raw@;
                    let ghost prev_else = prev == Branch::Else;
                    proof {
                        assert(v[j] == elem_view(*cs));
                    }
                    let this = match cs {
                        Element::Token(t) => match t.type_ {
                            TokenType::Keyword(Keyword::If) => if t.position.same_as(&start_pos) {
                                Branch::If
                            } else {
                                Branch::Neither
                            },
                            TokenType::Keyword(Keyword::Elif) => if prev != Branch::Else {
                                Branch::Elif
                            } else {
                                return Err(error_2_1_7(String::from_str("elif")).with_element(cs));
                            },
                            TokenType::Keyword(Keyword::Else) => if prev != Branch::Else {
                                Branch::Else
                            } else {
                                return Err(error_2_1_7(String::from_str("else")).with_element(cs));
                            },
                            _ => Branch::Neither,
                        },
                        _ => Branch::Neither,
                    };
                    if this == Branch::Neither {
                        break;
                    }
                    let ghost tk: TokenView = match v[j] {
                        ElementView::Token(t) => t,
                        _ => arbitrary(),
                    };
                    match cs {
                        Element::Token(t) => {
                            raw = cat3(raw.as_str(), t.whitespace.as_str(), t.value.as_str());
                        },
                        _ => {},
                    }
                    proof {
                        assert(raw@ == raw0 + tk.whitespace + tk.value);
                        if chain {
                            if this == Branch::Else {
                                assert(tk.type_ == TokenType::Keyword(Keyword::Else));
                            } else {
                                assert(chain_from(v, j, f, prev_else, conds0, raw0) == cond_branch(v, j, f, tk, conds0, raw0));
                            }
                        }
                    }
                    prev = this;
                    if cursor == elements.len() - 1 {
                        proof {
                            if chain && this == Branch::Else {
                                assert(!prev_else);
                                assert(chain_from(v, j, f, prev_else, conds0, raw0) == Some(Err::<(Seq<crate::element::ConditionView>, Seq<char>), Seq<char>>("2.1.0"@)));
                            }
                            assert(!(*cs is NullElement));
                        }
                        let err = error_missing_after(cs);
                        assert(err.code@ == "2.1.0"@);
                        assert(chain ==> chain_from(v, f, f, false, Seq::empty(), Seq::empty()) == chain_from(v, j, f, prev_else, conds0, raw0));
                        assert(chain && this == Branch::Else ==> chain_from(v, f, f, false, Seq::empty(), Seq::empty()) == Some(Err::<(Seq<crate::element::ConditionView>, Seq<char>), Seq<char>>("2.1.0"@)));
                        assert(chain && this != Branch::Else ==> chain_from(v, f, f, false, Seq::empty(), Seq::empty()) is None);
                        return Err(err);
                    }
                    cursor = cursor + 1;
                    let mut ccs = &elements[cursor];
                    proof {
                        assert(v[cursor as int] == elem_view(*ccs));
                        if chain && this != Branch::Else {
                            assert(cond_branch(v, j, f, tk, conds0, raw0) is Some);
                            assert(j + 2 < v.len() && !(v[j + 1] is Block) && v[j + 2] is Block && single_simple(v[j + 1]));
                        }
                    }
                    let condition = if this == Branch::Else {
                        Element::NullElement
                    } else {
                        match ccs {
                            Element::Block { raw: block_raw, .. } => {
                                raw = cat2(raw.as_str(), block_raw.as_str());
                                if cursor == elements.len() - 1 {
                                    return Err(error_missing_after(ccs));
                                }
                                cursor = cursor + 1;
                                ccs = &elements[cursor];
                                clone_element(ccs)
                            },
                            _ => {
                                let mut catcher: Vec<Element> = vec![clone_element(&elements[cursor])];
                                let first = cursor;
                                let ghost raw1 = raw@;
                                proof {
                                    assert(views(catcher@) =~= seq![v[first as int]]);
                                }
                                loop
                                    invariant_except_break
                                        start < first <= cursor < elements@.len(),
                                        0 <= fi <= start,
                                        is_tok(elem_view(elements@[fi]), TokenType::Keyword(Keyword::If)),
                                        no_branch_kw_before(elements@, fi),
                                        catcher@.len() == cursor - first + 1,
                                        v == views(elements@),
                                        chain == (f < v.len() && is_tok(v[f], TokenType::Keyword(Keyword::If)) && chain_from(v, f, f, false, Seq::empty(), Seq::empty()) is Some),
                                        this != Branch::Else,
                                        chain && this != Branch::Else ==> first + 1 < elements@.len() && v[first + 1] is Block,
                                        f == first_branch_kw(v, 0),
                                        chain && this != Branch::Else ==> cursor == first && raw@ == raw1 && views(catcher@) == seq![v[first as int]],
                                    ensures
                                        start < first < cursor < elements@.len(),
                                        catcher@.len() == cursor - first,
                                        chain && this != Branch::Else ==> cursor == first + 1 && raw@ == raw1 + raw_of(v[first + 1])
                                            && views(catcher@) == seq![v[first as int]],
                                    decreases elements@.len() - cursor,
                                {
                                    if cursor == elements.len() - 1 {
                                        return Err(error_missing_after(&elements[cursor]));
                                    }
                                    cursor = cursor + 1;
                                    let c2 = &elements[cursor];
                                    raw = cat2(raw.as_str(), c2.get_raw().as_str());
                                    proof {
                                        assert(v[cursor as int] == elem_view(*c2));
                                    }
                                    if matches!(c2, Element::Block { .. }) {
                                        break;
                                    }
                                    catcher.push(clone_element(c2));
                                }
                                proof {
                                    if chain && this != Branch::Else {
                                        assert(elem_view(catcher@[0]) == views(catcher@)[0]);
                                    }
                                }
                                parse_expr(catcher)?
                            },
                        }
                    };
                    let body = &elements[cursor];
                    proof {
                        assert(v[cursor as int] == elem_view(*body));
                    }
                    raw = cat2(raw.as_str(), body.get_raw().as_str());
                    match body {
                        Element::Block { content, .. } => {
                            let ghost cb = conditions@;
                            let if_true = clone_elements(content);
                            let cond = Condition { condition, if_true };
                            conditions.push(cond);
                            proof {
                                crate::element::lemma_conds_view(conditions@);
                                crate::element::lemma_conds_view(cb);
                                assert(crate::element::conds_view(conditions@) =~= conds0.push(crate::element::cond_view(cond)));
                            }
                        },
                        _ => {
                            proof {
                                assert(!(*selected is NullElement));
                                if chain {
                                    assert(this == Branch::Else);
                                    assert(chain_from(v, j, f, prev_else, conds0, raw0) == Some(Err::<(Seq<crate::element::ConditionView>, Seq<char>), Seq<char>>("2.1.8"@)));
                                }
                            }
                            return Err(error_2_1_8(body.get_raw()).with_element(selected));
                        },
                    }
                    cursor = cursor + 1;
                    if cursor == elements.len() {
                        break;
                    }
                }
                let ghost ifv_conds = crate::element::conds_view(conditions@);
                let ghost ifv_raw = raw@;
                let ghost sp = start_pos@;
                new_elements.push(Element::If { position: start_pos, raw, conditions });
                proof {
                    if chain {
                        assert(views(new_elements@) =~= views(elements@.take(f)) + seq![ElementView::If { position: sp, raw: ifv_raw, conditions: ifv_conds }]);
                    }
                }
                cursor = cursor - 1;
            },
            Some(Keyword::Elif) => {
                proof {
                    assert(is_branch_kw(v[cursor as int]));
                    assert(!chain);
                }
                return Err(error_2_1_9(String::from_str("elif")).with_element(selected));
            },
            Some(Keyword::Else) => {
                proof {
                    assert(is_branch_kw(v[cursor as int]));
                    assert(!chain);
                }
                return Err(error_2_1_9(String::from_str("else")).with_element(selected));
            },
            _ => {
                let ghost before = new_elements@;
                new_elements.push(clone_element(selected));
                proof {
                    if no_branch_kw_before(elements@, cursor as int) {
                        assert(views(new_elements@) =~= views(before).push(elem_view(elements@[cursor as int])));
                        assert(elements@.take(cursor + 1) =~= elements@.take(cursor as int).push(elements@[cursor as int]));
                        assert(views(elements@.take(cursor + 1)) =~= views(elements@.take(cursor as int)).push(elem_view(elements@[cursor as int])));
                    }
                }
            },
        }
        cursor = cursor + 1;
    }
    proof {
        assert(elements@.take(elements@.len() as int) =~= elements@);
    }
    Ok(new_elements)
}


/// Whether an element is a unary operator token on the given side.
pub open spec fn is_side_tok(e: ElementView, side: Side) -> bool {
    tok_type(e) matches Some(TokenType::UnaryOpr(_, s)) && s == side
}

/// A call without parentheses: the first element called with the
/// comma-separated expressions after it. Unary operators before the first
/// comma are applied first.
fn parse_unparen_calls(elements: Vec<Element>) -> (res: Result<Vec<Element>, ZyxtError>)
    requires
        elements@.len() >= 1,
    ensures
        res matches Ok(r) ==> r@.len() <= elements@.len(),
        (forall|j: int| 0 <= j < elements@.len() ==> !is_unary_tok(elem_view(#[trigger] elements@[j]))) ==> {
            &&& elements@.len() == 1 ==> (res matches Ok(r) && views(r@) == views(elements@))
            &&& (elements@.len() >= 2 && elem_view(elements@[0]) is NullElement) ==> (res matches Err(e) && e.code@ == "0.0"@)
            &&& (elements@.len() >= 2 && !(elem_view(elements@[0]) is NullElement) && simple_statements(
                views(elements@).drop_first(),
                TokenType::Comma,
                TokenType::Null,
                TokenType::Null,
            ) && no_empty_part(views(elements@).drop_first(), TokenType::Comma)) ==> (res matches Ok(r) && r@.len() == 1
                && elem_view(r@[0]) == ElementView::Call {
                position: pos_of(elem_view(elements@[0])),
                raw: raw_concat(views(elements@)),
                called: Box::new(elem_view(elements@[0])),
                args: split_result(views(elements@).drop_first(), TokenType::Comma),
                kwargs: Seq::empty(),
            })
        },
    decreases 8 * elements@.len() + 5,
{
    let ghost no_unary = forall|j: int| 0 <= j < elements@.len() ==> !is_unary_tok(elem_view(#[trigger] elements@[j]));
    let n = elements.len();
    let mut comma_pos: usize = n;
    let mut i: usize = 0;
    while i < n
        invariant
            i <= n,
            n == elements@.len(),
            comma_pos <= n,
        decreases n - i,
    {
        if token_type_of(&elements[i]) == Some(TokenType::Comma) {
            comma_pos = i;
            break;
        }
        i = i + 1;
    }
    let mut right: Option<usize> = None;
    let mut left: Option<usize> = None;
    let mut j: usize = 0;
    while j < comma_pos
        invariant
            j <= comma_pos <= n,
            n == elements@.len(),
            right matches Some(r) ==> r < j && is_side_tok(elem_view(elements@[r as int]), Side::Right),
            left matches Some(l) ==> l < j && is_side_tok(elem_view(elements@[l as int]), Side::Left),
            no_unary == (forall|x: int| 0 <= x < elements@.len() ==> !is_unary_tok(elem_view(#[trigger] elements@[x]))),
            no_unary ==> right is None && left is None,
        decreases comma_pos - j,
    {
        proof {
            if no_unary {
                assert(!is_unary_tok(elem_view(elements@[j as int])));
            }
        }
        match token_type_of(&elements[j]) {
            Some(TokenType::UnaryOpr(_, Side::Right)) => {
                right = Some(j);
            },
            Some(TokenType::UnaryOpr(_, Side::Left)) => {
                left = Some(j);
            },
            _ => {},
        }
        j = j + 1;
    }
    match right {
        Some(r) => {
            if r + 1 != comma_pos {
                let min_index = r + 1;
                let prefix = clone_range(&elements, 0, min_index);
                proof {
                    assert(is_unary_tok(elem_view(prefix@[r as int])));
                }
                let mut next = parse_un_oprs(prefix)?;
                let mut k: usize = min_index;
                while k < n
                    invariant
                        min_index <= k <= n,
                        n == elements@.len(),
                        next@.len() < min_index + (k - min_index),
                        next@.len() >= 1,
                    decreases n - k,
                {
                    next.push(clone_element(&elements[k]));
                    k = k + 1;
                }
                return parse_unparen_calls(next);
            }
        },
        None => {},
    }
    match left {
        Some(l) => {
            let min_index = if n - l > 2 {
                l + 2
            } else {
                n
            };
            let prefix = clone_range(&elements, 0, min_index);
            proof {
                assert(is_unary_tok(elem_view(prefix@[l as int])));
            }
            let mut next = parse_un_oprs(prefix)?;
            let mut k: usize = min_index;
            while k < n
                invariant
                    min_index <= k <= n,
                    n == elements@.len(),
                    next@.len() < min_index + (k - min_index),
                    next@.len() >= 1,
                decreases n - k,
            {
                next.push(clone_element(&elements[k]));
                k = k + 1;
            }
            return parse_unparen_calls(next);
        },
        None => {},
    }
    if n == 1 {
        return Ok(elements);
    }
    let first = &elements[0];
    if matches!(first, Element::NullElement) {
        return Err(internal_error("null element"));
    }
    let position = first.get_pos().clone();
    let raw = raws_all(&elements);
    let rest = clone_range(&elements, 1, n);
    proof {
        lemma_elems_view(elements@);
        assert(elems_view(elements@) =~= views(elements@));
        assert(views(rest@) =~= views(elements@).drop_first());
    }
    let args = split_between(TokenType::Comma, TokenType::Null, TokenType::Null, rest, false)?;
    let kwargs: Vec<(String, Element)> = Vec::new();
    proof {
        lemma_elems_view(args@);
        assert(elems_view(args@) =~= views(args@));
        assert(crate::element::attrs_view(kwargs@) =~= Seq::<(Seq<char>, ElementView)>::empty());
    }
    let call = Element::Call { position, raw, called: Box::new(clone_element(first)), args, kwargs };
    let res = vec![call];
    Ok(res)
}

/// An expression: the stages of parsing, one after the other; what is
/// left must be at most one element (error 2.1.0 at the second one), the
/// null element if nothing is.
/// An element that parses to itself, or a name or literal token, which
/// parses to its variable or literal (see `simple_conv`).
pub open spec fn single_simple(e: ElementView) -> bool {
    &&& simple_conv(e) is Some
    &&& match e {
        ElementView::Token(t) => t.type_ == TokenType::Variable || is_literal_type(t.type_),
        _ => true,
    }
}

/// The syntax tree of an expression, parsed in stages: brackets, `if`,
/// procedures, `pre` and `defer`, classes, variables, literals and calls,
/// `del`, `ret`, declarations, assignments, binary operators, calls without
/// brackets, unary operators. What is left must be one element (error
/// 2.1.0 at the second one); nothing left is the null element.
#[verifier::rlimit(60)]
fn parse_expr(elements: Vec<Element>) -> (res: Result<Element, ZyxtError>)
    ensures
        elements@.len() == 1 && single_simple(elem_view(elements@[0])) ==> (res matches Ok(e) && Some(elem_view(e))
            == simple_conv(elem_view(elements@[0]))),
    decreases 8 * elements@.len() + 6,
{
    let ghost single = elements@.len() == 1 && single_simple(elem_view(elements@[0]));
    let ghost v0 = views(elements@);
    let n0 = elements.len();
    let mut el = elements;
    if el.len() > 1 {
        el = parse_parens(el)?;
    }
    proof {
        if single {
            assert(views(el@)[0] == elem_view(el@[0]));
            assert(no_branch_kw_before(el@, 1));
        }
    }
    el = parse_if_expr(el)?;
    proof {
        if single {
            assert(views(el@) == v0);
            assert(elem_view(el@[0]) == v0[0]);
            assert(no_proc_before(el@, 1));
        }
    }
    el = parse_procs_and_fns(el)?;
    proof {
        if single {
            assert(elem_view(el@[0]) == views(el@)[0]);
            assert(no_pre_defer_before(el@, 1));
        }
    }
    el = parse_preprocess_and_defer(el)?;
    proof {
        if single {
            assert(elem_view(el@[0]) == views(el@)[0]);
            assert(no_class_before(el@, 1));
        }
    }
    el = parse_classes_structs_and_mixins(el)?;
    proof {
        if single {
            assert(elem_view(el@[0]) == views(el@)[0]);
            assert(all_simple(el@, 1));
        }
    }
    let ghost before_vars = el@;
    el = parse_vars_literals_and_calls(el)?;
    let ghost c = simple_conv(elem_view(elements@[0]));
    proof {
        if single {
            assert(before_vars.take(1) =~= before_vars);
            assert(simple_convs(before_vars, 1).len() == 1);
            assert(simple_convs(before_vars, 1)[0] == simple_conv(elem_view(before_vars[0])).unwrap());
            assert(views(el@).len() == 1);
            assert(el@.len() == 1);
            assert(views(el@)[0] == elem_view(el@[0]));
            assert(Some(elem_view(el@[0])) == c);
            assert(no_tok_before(el@, 1, TokenType::Keyword(Keyword::Delete)));
            assert(no_tok_before(el@, 1, TokenType::Keyword(Keyword::Return)));
        }
    }
    el = parse_delete_expr(el)?;
    el = parse_return_expr(el)?;
    proof {
        if single {
            assert(no_tok_before(el@, 1, TokenType::DeclarationOpr));
        }
    }
    el = parse_declaration_expr(el)?;
    proof {
        if single {
            assert(elem_view(el@[0]) == views(el@)[0]);
            assert(Some(elem_view(el@[0])) == c);
            assert(no_assign_before(el@, 1));
        }
    }
    el = parse_assignment_oprs(el)?;
    proof {
        if single {
            assert(split_index(views(el@), 0) is None);
            assert(split_index(views(el@), 1) is None);
        }
    }
    el = parse_normal_oprs(el)?;
    proof {
        if single {
            assert(elem_view(el@[0]) == views(el@)[0]);
            assert(Some(elem_view(el@[0])) == c);
            assert(!is_unary_tok(elem_view(el@[0])));
        }
    }
    if el.len() > 1 {
        el = parse_unparen_calls(el)?;
    }
    el = parse_un_oprs(el)?;
    if el.len() > 1 {
        return Err(error_2_1_0(el[1].get_raw()).with_element(&el[1]));
    }
    if el.len() == 0 {
        Ok(Element::NullElement)
    } else {
        Ok(clone_element(&el[0]))
    }
}

/// Whether a token type is one the parser rejects: the comment markers of
/// an older lexer.
pub open spec fn comment_marker(t: TokenType) -> bool {
    t == TokenType::CommentStart || t == TokenType::CommentEnd || t == TokenType::MultilineCommentStart
        || t == TokenType::MultilineCommentEnd
}

/// The elements parsing starts from: each token that is not a comment.
pub open spec fn token_elements(input: Seq<TokenView>) -> Seq<ElementView> {
    input.filter_map(
        |t: TokenView|
            if t.type_ == TokenType::Comment {
                None
            } else {
                Some(ElementView::Token(t))
            },
    )
}

/// The syntax trees of a list of tokens: comments are dropped, and the
/// rest is a block of statements separated by `;`. Error 2.1.10 at the
/// first comment marker of an older lexer.
pub fn parse_token_list(input: Vec<Token>) -> (res: Result<Vec<Element>, ZyxtError>)
    ensures
        (exists|k: int| 0 <= k < input@.len() && comment_marker(#[trigger] input@[k].type_)) ==> (res
            matches Err(e) && e.code@ == "2.1.10"@),
        forall|k: int| 0 <= k < input@.len() && comment_marker(#[trigger] input@[k].type_) && (forall|j: int| 0 <= j < k
            ==> !comment_marker(input@[j].type_)) ==> (res matches Err(e) && e.message@ == "Stray unclosed/unopened `"@
            + input@[k].value@ + "`"@ && e.position == Some(input@[k].position)),
        (forall|k: int| 0 <= k < input@.len() ==> (#[trigger] input@[k]).type_ == TokenType::Comment) ==> (res matches Ok(v)
            && v@.len() == 0),
        input@.len() == 0 ==> (res matches Ok(v) && v@.len() == 0),
        input@.len() == 1 && (input@[0].type_ == TokenType::Variable || is_literal_type(input@[0].type_)) && simple_conv(
            ElementView::Token(input@[0]@),
        ) is Some ==> (res matches Ok(v) && v@.len() == 1 && Some(elem_view(v@[0])) == simple_conv(ElementView::Token(input@[0]@))),
        (forall|k: int| 0 <= k < input@.len() ==> !comment_marker(#[trigger] toks_view(input@)[k].type_)) && simple_statements(
            token_elements(toks_view(input@)),
            TokenType::StatementEnd,
            TokenType::OpenCurlyParen,
            TokenType::CloseCurlyParen,
        ) ==> (res matches Ok(v) && views(v@) == split_result(token_elements(toks_view(input@)), TokenType::StatementEnd)),
{
    let mut i: usize = 0;
    while i < input.len()
        invariant
            i <= input@.len(),
            forall|k: int| 0 <= k < i ==> !comment_marker(#[trigger] input@[k].type_),
        decreases input@.len() - i,
    {
        let t = &input[i];
        if t.type_ == TokenType::CommentStart || t.type_ == TokenType::CommentEnd || t.type_
            == TokenType::MultilineCommentStart || t.type_ == TokenType::MultilineCommentEnd {
            assert(toks_view(input@)[i as int].type_ == input@[i as int].type_);
            return Err(error_2_1_10(t.value.clone()).with_token(t));
        }
        i = i + 1;
    }
    let mut elements: Vec<Element> = Vec::new();
    let mut k: usize = 0;
    proof {
        assert(views(elements@) =~= token_elements(toks_view(input@).take(0)));
    }
    while k < input.len()
        invariant
            k <= input@.len(),
            elements@.len() <= k,
            k == 0 ==> elements@.len() == 0,
            input@.len() == 1 && input@[0].type_ != TokenType::Comment && k == 1 ==> elements@.len() == 1 && elem_view(elements@[0])
                == ElementView::Token(input@[0]@),
            (forall|x: int| 0 <= x < input@.len() ==> (#[trigger] input@[x]).type_ == TokenType::Comment) ==> elements@.len() == 0,
            views(elements@) == token_elements(toks_view(input@).take(k as int)),
        decreases input@.len() - k,
    {
        let ghost before = views(elements@);
        proof {
            assert(toks_view(input@).take(k + 1).drop_last() =~= toks_view(input@).take(k as int));
            assert(toks_view(input@).take(k + 1).last() == input@[k as int]@);
        }
        if input[k].type_ != TokenType::Comment {
            let t = input[k].clone();
            elements.push(Element::Token(t));
            proof {
                assert(views(elements@) =~= before + seq![ElementView::Token(input@[k as int]@)]);
            }
        } else {
            proof {
                assert(views(elements@) =~= before);
            }
        }
        k = k + 1;
    }
    proof {
        assert(toks_view(input@).take(input@.len() as int) =~= toks_view(input@));
        assert forall|k: int| 0 <= k < input@.len() implies #[trigger] toks_view(input@)[k].type_ == input@[k].type_ by {}
    }
    parse_block(elements)
}

} // verus!
