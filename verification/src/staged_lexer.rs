use vstd::prelude::*;
use vstd::string::*;
use crate::errors::{ZyxtError, error_2_1_1, internal_error};
use crate::lexer::{clean_whitespaces, clean_from, concat_all, lemma_concat_split, toks_view, advance, step_pos};
use crate::position::{Position, PositionView};
use crate::text::{chars_of, push_char, str_eq, trim_text, trimmed};
use crate::token::{Side, Token, TokenCategory, TokenType, TokenView};
use crate::token_entries::{
    CompoundTokenEntry, Pattern, compound_token_entries_1, compound_token_entries_2, ends_value,
    side_dependent_token_entries, singular_token_entries, spec_ends_value, spec_starts_value, starts_value,
};

verus! {

broadcast use vstd::std_specs::vec::group_vec_axioms;

/// What `regex::Regex::new(pattern)` and then `is_match(text)` give: `None`
/// where the pattern does not compile, else whether the regular expression
/// matches somewhere in the text.
pub uninterp spec fn regex_search(pattern: Seq<char>, text: Seq<char>) -> Option<bool>;

/// `Regex::new(pattern)`, then `Regex::is_match(text)` on the compiled
/// expression; `None` where the pattern does not compile. Both depend on
/// the pattern and the text alone, so the result is named `regex_search`.
#[verifier::external_body]
fn regex_is_match(pattern: &str, text: &str) -> (res: Option<bool>)
    ensures
        res == regex_search(pattern@, text@),
{
    match regex::Regex::new(pattern) {
        Ok(re) => Some(re.is_match(text)),
        Err(_) => None,
    }
}

/// The texts of tokens, joined.
pub open spec fn values_text(ts: Seq<TokenView>) -> Seq<char> {
    concat_all(ts.map_values(|t: TokenView| t.value))
}

/// The source text of tokens, each with its white space, joined.
pub open spec fn raws_text(ts: Seq<TokenView>) -> Seq<char> {
    concat_all(ts.map_values(|t: TokenView| t.whitespace + t.value))
}

proof fn lemma_values_split(ts: Seq<TokenView>, k: int)
    requires
        0 <= k <= ts.len(),
    ensures
        values_text(ts) == values_text(ts.subrange(0, k)) + values_text(ts.subrange(k, ts.len() as int)),
{
    let m = ts.map_values(|t: TokenView| t.value);
    lemma_concat_split(m, k);
    assert(m.subrange(0, k) =~= ts.subrange(0, k).map_values(|t: TokenView| t.value));
    assert(m.subrange(k, m.len() as int) =~= ts.subrange(k, ts.len() as int).map_values(|t: TokenView| t.value));
}

proof fn lemma_values_push(ts: Seq<TokenView>, t: TokenView)
    ensures
        values_text(ts.push(t)) == values_text(ts) + t.value,
{
    let m = ts.push(t).map_values(|x: TokenView| x.value);
    assert(m.drop_last() =~= ts.map_values(|x: TokenView| x.value));
}

proof fn lemma_values_first(ts: Seq<TokenView>)
    requires
        ts.len() > 0,
    ensures
        values_text(ts) == ts[0].value + values_text(ts.drop_first()),
{
    lemma_values_split(ts, 1);
    assert(ts.subrange(1, ts.len() as int) =~= ts.drop_first());
    let one = ts.subrange(0, 1);
    assert(one.drop_last() =~= Seq::<TokenView>::empty());
    lemma_values_push(one.drop_last(), one[0]);
    assert(one.drop_last().push(one[0]) =~= one);
    assert(values_text(Seq::<TokenView>::empty()) =~= Seq::<char>::empty()) by {
        assert(Seq::<TokenView>::empty().map_values(|t: TokenView| t.value) =~= Seq::<Seq<char>>::empty());
    }
}

/// Moving white space onto the tokens after it loses no text but the
/// white space at the end: the tokens kept, each with its white space,
/// spell the start of the pending white space and the texts of the tokens
/// from the index on.
/// Whether the text of every white-space token is matched by the regular
/// expression `\s`.
pub open spec fn ws_matched(ts: Seq<TokenView>) -> bool {
    forall|i: int| 0 <= i < ts.len() ==> (#[trigger] ts[i]).type_ == TokenType::Whitespace ==> regex_search(
        "\\s"@,
        ts[i].value,
    ) == Some(true)
}

/// Whether the regular expression `\s` matches each of the texts.
pub open spec fn all_ws(ps: Seq<Seq<char>>) -> bool {
    forall|i: int| 0 <= i < ps.len() ==> regex_search("\\s"@, #[trigger] ps[i]) == Some(true)
}

/// Moving the white space onto the tokens after it keeps the text up to
/// the white space at the end, which is made of texts that `\s` matches.
proof fn lemma_clean_rest(toks: Seq<TokenView>, i: int, sp: Seq<Seq<char>>) -> (ps: Seq<Seq<char>>)
    requires
        0 <= i <= toks.len(),
        ws_matched(toks),
        all_ws(sp),
    ensures
        all_ws(ps),
        raws_text(clean_from(toks, i, concat_all(sp))) + concat_all(ps) == concat_all(sp) + values_text(
            toks.subrange(i, toks.len() as int),
        ),
    decreases toks.len() - i,
{
    let rest = toks.subrange(i, toks.len() as int);
    if i == toks.len() {
        assert(clean_from(toks, i, concat_all(sp)) =~= Seq::<TokenView>::empty());
        assert(raws_text(Seq::<TokenView>::empty()) =~= Seq::<char>::empty()) by {
            assert(Seq::<TokenView>::empty().map_values(|t: TokenView| t.whitespace + t.value) =~= Seq::<Seq<char>>::empty());
        }
        assert(rest =~= Seq::<TokenView>::empty());
        assert(values_text(rest) =~= Seq::<char>::empty()) by {
            assert(rest.map_values(|t: TokenView| t.value) =~= Seq::<Seq<char>>::empty());
        }
        assert(Seq::<char>::empty() + concat_all(sp) =~= concat_all(sp) + Seq::<char>::empty());
        sp
    } else {
        lemma_values_first(rest);
        assert(rest.drop_first() =~= toks.subrange(i + 1, toks.len() as int));
        assert(rest[0] == toks[i]);
        let b = values_text(toks.subrange(i + 1, toks.len() as int));
        if toks[i].type_ == TokenType::Whitespace {
            let sp2 = sp.push(toks[i].value);
            assert(sp2.drop_last() =~= sp);
            assert(concat_all(sp2) == concat_all(sp) + toks[i].value);
            assert(all_ws(sp2)) by {
                assert forall|x: int| 0 <= x < sp2.len() implies regex_search("\\s"@, #[trigger] sp2[x]) == Some(true) by {
                    if x < sp.len() {
                        assert(sp2[x] == sp[x]);
                    }
                }
            }
            let ps = lemma_clean_rest(toks, i + 1, sp2);
            assert(concat_all(sp2) + b =~= concat_all(sp) + values_text(rest));
            ps
        } else {
            let e: Seq<Seq<char>> = Seq::empty();
            assert(concat_all(e) =~= Seq::<char>::empty());
            let ps = lemma_clean_rest(toks, i + 1, e);
            let later = clean_from(toks, i + 1, Seq::empty());
            let first = TokenView { whitespace: concat_all(sp), ..toks[i] };
            assert(clean_from(toks, i, concat_all(sp)) == seq![first] + later);
            lemma_raws_first(seq![first] + later);
            assert((seq![first] + later).drop_first() =~= later);
            assert(Seq::<char>::empty() + b =~= b);
            assert(raws_text(later) + concat_all(ps) == b);
            assert(first.whitespace + first.value + raws_text(later) + concat_all(ps) =~= concat_all(sp) + toks[i].value + (
            raws_text(later) + concat_all(ps)));
            assert(concat_all(sp) + toks[i].value + b =~= concat_all(sp) + values_text(rest));
            ps
        }
    }
}

pub proof fn law_clean_keeps_text(toks: Seq<TokenView>, i: int, stack: Seq<char>)
    requires
        0 <= i <= toks.len(),
    ensures
        raws_text(clean_from(toks, i, stack)).is_prefix_of(stack + values_text(toks.subrange(i, toks.len() as int))),
    decreases toks.len() - i,
{
    let rest = toks.subrange(i, toks.len() as int);
    if i == toks.len() {
        assert(clean_from(toks, i, stack) =~= Seq::<TokenView>::empty());
        assert(raws_text(Seq::<TokenView>::empty()) =~= Seq::<char>::empty()) by {
            assert(Seq::<TokenView>::empty().map_values(|t: TokenView| t.whitespace + t.value) =~= Seq::<Seq<char>>::empty());
        }
    } else {
        lemma_values_first(rest);
        assert(rest.drop_first() =~= toks.subrange(i + 1, toks.len() as int));
        assert(rest[0] == toks[i]);
        if toks[i].type_ == TokenType::Whitespace {
            law_clean_keeps_text(toks, i + 1, stack + toks[i].value);
            assert(stack + toks[i].value + values_text(toks.subrange(i + 1, toks.len() as int))
                =~= stack + values_text(rest));
        } else {
            let later = clean_from(toks, i + 1, Seq::empty());
            law_clean_keeps_text(toks, i + 1, Seq::empty());
            let first = TokenView { whitespace: stack, ..toks[i] };
            assert(clean_from(toks, i, stack) == seq![first] + later);
            lemma_raws_first(seq![first] + later);
            assert((seq![first] + later).drop_first() =~= later);
            assert(Seq::<char>::empty() + values_text(toks.subrange(i + 1, toks.len() as int))
                =~= values_text(toks.subrange(i + 1, toks.len() as int)));
            let a = raws_text(later);
            let b = values_text(toks.subrange(i + 1, toks.len() as int));
            assert(a.is_prefix_of(b));
            assert((stack + toks[i].value + a).is_prefix_of(stack + toks[i].value + b)) by {
                assert forall|j: int| 0 <= j < (stack + toks[i].value + a).len() implies
                    (stack + toks[i].value + a)[j] == (stack + toks[i].value + b)[j] by {
                    if j >= (stack + toks[i].value).len() {
                        assert(a[j - (stack + toks[i].value).len()] == b[j - (stack + toks[i].value).len()]);
                    }
                }
            }
            assert(stack + toks[i].value + b =~= stack + values_text(rest));
            assert(first.whitespace + first.value + a =~= stack + toks[i].value + a);
        }
    }
}

proof fn lemma_raws_first(ts: Seq<TokenView>)
    requires
        ts.len() > 0,
    ensures
        raws_text(ts) == ts[0].whitespace + ts[0].value + raws_text(ts.drop_first()),
{
    let m = ts.map_values(|t: TokenView| t.whitespace + t.value);
    lemma_concat_split(m, 1);
    assert(m.subrange(1, m.len() as int) =~= ts.drop_first().map_values(|t: TokenView| t.whitespace + t.value));
    let one = m.subrange(0, 1);
    assert(one.drop_last() =~= Seq::<Seq<char>>::empty());
    assert(concat_all(one) == concat_all(one.drop_last()) + one.last());
    assert(concat_all(one.drop_last()) =~= Seq::<char>::empty());
    assert(Seq::<char>::empty() + one.last() =~= one.last());
}

/// A token with a text, a type and a position, no categories and no white space.
fn plain_token(value: String, type_: TokenType, position: Position) -> (res: Token)
    ensures
        res.value == value,
        res.type_ == type_,
        res.position == position,
        res.whitespace@ == Seq::<char>::empty(),
{
    let res = Token { value, type_, position, categories: &[], whitespace: String::new() };
    res
}

/// Splits the source into one token per character, typed by the first
/// entry of `singular_token_entries` that the character matches (its
/// regular expression, or its character), and `Null` where none does.
/// A regular expression that does not compile is an internal error.
fn lex_stage1(input: String, filename: &str) -> (res: Result<Vec<Token>, ZyxtError>)
    requires
        input@.len() + 4 < u32::MAX,
    ensures
        res matches Ok(v) ==> v@.len() == input@.len() && values_text(toks_view(v@)) == input@ && forall|i: int|
            0 <= i < v@.len() ==> (#[trigger] v@[i]).value@ == seq![input@[i]] && v@[i].position@ == advance(
                PositionView { filename: filename@, line: 1, column: 1 },
                input@.take(i),
            ),
        res matches Ok(v) ==> ws_matched(toks_view(v@)),
        res matches Err(e) ==> e.code@ == "0.0"@,
{
    let entries = singular_token_entries();
    proof {
        assert forall|x: int| 0 <= x < entries@.len() && (#[trigger] entries@[x]).type_ == TokenType::Whitespace implies entries@[x].re
            == Some("\\s") by {
            if x == 0 {
            } else if x == 1 {
            } else if x == 2 {
            } else if x == 3 {
            } else if x == 4 {
            } else if x == 5 {
            } else if x == 6 {
            } else if x == 7 {
            } else if x == 8 {
            } else if x == 9 {
            } else if x == 10 {
            } else if x == 11 {
            } else if x == 12 {
            } else if x == 13 {
            } else if x == 14 {
            } else if x == 15 {
            } else if x == 16 {
            } else if x == 17 {
            } else if x == 18 {
            } else if x == 19 {
            } else if x == 20 {
            } else if x == 21 {
            } else if x == 22 {
            } else if x == 23 {
            } else if x == 24 {
            } else if x == 25 {
            } else if x == 26 {
            } else if x == 27 {
            } else if x == 28 {
            } else if x == 29 {
            } else if x == 30 {
            } else if x == 31 {
            } else if x == 32 {
            } else if x == 33 {
            }
        }
    }
    let cs = chars_of(input.as_str());
    let mut out: Vec<Token> = Vec::new();
    let mut pos = Position::start_of(filename);
    let ghost start = pos@;
    let mut i: usize = 0;
    proof {
        assert(input@.take(0) =~= Seq::<char>::empty());
        assert(toks_view(out@).map_values(|t: TokenView| t.value) =~= Seq::<Seq<char>>::empty());
    }
    while i < cs.len()
        invariant
            cs@ == input@,
            input@.len() + 4 < u32::MAX,
            0 <= i <= cs@.len(),
            out@.len() == i,
            start == (PositionView { filename: filename@, line: 1, column: 1 }),
            pos@ == advance(start, input@.take(i as int)),
            pos.column >= 1,
            pos.line + pos.column <= 2 + i,
            values_text(toks_view(out@)) == input@.take(i as int),
            forall|j: int| 0 <= j < i ==> (#[trigger] out@[j]).value@ == seq![input@[j]] && out@[j].position@
                == advance(start, input@.take(j)),
            ws_matched(toks_view(out@)),
            forall|x: int| 0 <= x < entries@.len() && (#[trigger] entries@[x]).type_ == TokenType::Whitespace ==> entries@[x].re
                == Some("\\s"),
        decreases cs@.len() - i,
    {
        let c = cs[i];
        let mut value = String::new();
        push_char(&mut value, c);
        proof {
            assert(value@ =~= seq![c]);
        }
        let mut type_ = TokenType::Null;
        let mut k: usize = 0;
        while k < entries.len()
            invariant
                0 <= k <= entries@.len(),
                type_ == TokenType::Whitespace ==> regex_search("\\s"@, value@) == Some(true),
                forall|x: int| 0 <= x < entries@.len() && (#[trigger] entries@[x]).type_ == TokenType::Whitespace ==> entries@[x].re
                    == Some("\\s"),
            decreases entries@.len() - k,
        {
            let entry = &entries[k];
            let found = match entry.re {
                Some(re) => match regex_is_match(re, value.as_str()) {
                    Some(b) => b,
                    None => {
                        return Err(internal_error("token pattern that does not compile"));
                    },
                },
                None => c == entry.value,
            };
            if found {
                type_ = entry.type_;
                proof {
                    if type_ == TokenType::Whitespace {
                        assert(entries@[k as int].type_ == TokenType::Whitespace);
                        assert(entry.re == Some("\\s"));
                    }
                }
                assert(type_ == TokenType::Whitespace ==> regex_search("\\s"@, value@) == Some(true));
                break;
            }
            k = k + 1;
        }
        let ghost before = toks_view(out@);
        let here = pos.clone();
        let t = plain_token(value, type_, here);
        out.push(t);
        proof {
            assert(toks_view(out@) =~= before.push(t@));
            lemma_values_push(before, t@);
            assert(input@.take(i + 1) =~= input@.take(i as int).push(c));
            assert(input@.take(i + 1) =~= input@.take(i as int) + seq![c]);
        }
        let ghost p0 = pos@;
        let mut one = String::new();
        push_char(&mut one, c);
        pos.next_str(one.as_str());
        proof {
            assert(one@ =~= seq![c]);
            assert(seq![c].drop_last() =~= Seq::<char>::empty());
            assert(advance(p0, seq![c]) == step_pos(advance(p0, Seq::<char>::empty()), c));
            assert(input@.take(i + 1).drop_last() =~= input@.take(i as int));
            assert(advance(start, input@.take(i + 1)) == step_pos(advance(start, input@.take(i as int)), c));
        }
        i = i + 1;
    }
    proof {
        assert(input@.take(cs@.len() as int) =~= input@);
    }
    Ok(out)
}

/// How a pattern other than `Vartokens` checks a token: its type, where
/// it wants one, then its text (a `Value`), or whether its regular
/// expression matches the text (a `Re`; none where it does not compile).
pub open spec fn pattern_check(p: Pattern, t: TokenView) -> Option<bool> {
    let tt = p.spec_token_type();
    if tt != TokenType::Null && tt != t.type_ {
        Some(false)
    } else {
        match p {
            Pattern::Value(_, value) => Some(value@ == t.value),
            Pattern::Re(_, re) => regex_search(re@, t.value),
            _ => Some(true),
        }
    }
}

/// The patterns of a combination met by tokens read backwards, from the
/// `k`th last pattern and the token at `cursor`, `count` tokens having been
/// covered: the number of tokens covered (`Some(None)` for no match), or
/// none where a regular expression does not compile. The last pattern is
/// taken as met by the last token; a `Vartokens` pattern takes tokens as
/// long as they are of its type; reaching the first token before the last
/// pattern is no match.
pub open spec fn match_from(comb: Seq<Pattern>, ts: Seq<TokenView>, k: int, cursor: int, count: int) -> Option<Option<int>>
    decreases comb.len() - k, cursor + 1,
{
    if k < 0 || k >= comb.len() {
        if count == 0 {
            Some(None)
        } else {
            Some(Some(count))
        }
    } else if cursor < 0 || cursor >= ts.len() {
        Some(None)
    } else {
        match comb[comb.len() - 1 - k] {
            Pattern::Vartokens(tt) => if tt == TokenType::Null || tt == ts[cursor].type_ {
                if cursor == 0 {
                    Some(
                        if comb.len() != k + 1 {
                            None
                        } else {
                            Some(count + 1)
                        },
                    )
                } else {
                    match_from(comb, ts, k, cursor - 1, count + 1)
                }
            } else {
                match_from(comb, ts, k + 1, cursor, count)
            },
            p => match (if k != 0 {
                pattern_check(p, ts[cursor])
            } else {
                Some(true)
            }) {
                None => None,
                Some(false) => Some(None),
                Some(true) => if cursor == 0 {
                    Some(
                        if comb.len() != k + 1 {
                            None
                        } else {
                            Some(count + 1)
                        },
                    )
                } else {
                    match_from(comb, ts, k + 1, cursor - 1, count + 1)
                },
            },
        }
    }
}

/// Whether the last tokens of `out` make the patterns, read backwards:
/// the last pattern is taken as met by the last token; `Vartokens` takes
/// as many tokens as are of its type; the others must each meet one token.
/// Gives the number of tokens the patterns cover (`None` if they do not
/// match, or if they cover no token). The run reaching the first token
/// before the patterns are used up is no match. A pattern's regular
/// expression that does not compile is an internal error.
fn is_match(combination: &Vec<Pattern>, out: &Vec<Token>) -> (res: Result<Option<usize>, ZyxtError>)
    requires
        out@.len() > 0,
    ensures
        res matches Ok(Some(n)) ==> 1 <= n <= out@.len(),
        res matches Err(e) ==> e.code@ == "0.0"@,
        match match_from(combination@, toks_view(out@), 0, out@.len() - 1, 0) {
            Some(Some(c)) => res matches Ok(Some(n)) && n == c,
            Some(None) => res matches Ok(None),
            None => res is Err,
        },
{
    let n = combination.len();
    let mut cursor: usize = out.len() - 1;
    let mut match_count: usize = 0;
    let mut k: usize = 0;
    while k < n
        invariant
            n == combination@.len(),
            out@.len() > 0,
            0 <= k <= n,
            cursor < out@.len(),
            out@.len() <= usize::MAX,
            match_count + cursor == out@.len() - 1,
            match_from(combination@, toks_view(out@), 0, out@.len() - 1, 0) == match_from(
                combination@,
                toks_view(out@),
                k as int,
                cursor as int,
                match_count as int,
            ),
        decreases n - k,
    {
        let p = combination[n - 1 - k];
        proof {
            assert(toks_view(out@)[cursor as int] == out@[cursor as int]@);
        }
        match p {
            Pattern::Vartokens(tt) => {
                while tt == TokenType::Null || tt == out[cursor].type_
                    invariant
                        n == combination@.len(),
                        0 <= k < n,
                        cursor < out@.len(),
                        out@.len() <= usize::MAX,
                        match_count + cursor == out@.len() - 1,
                        combination@[n - 1 - k] == Pattern::Vartokens(tt),
                        match_from(combination@, toks_view(out@), 0, out@.len() - 1, 0) == match_from(
                            combination@,
                            toks_view(out@),
                            k as int,
                            cursor as int,
                            match_count as int,
                        ),
                    decreases cursor,
                {
                    proof {
                        assert(toks_view(out@)[cursor as int] == out@[cursor as int]@);
                    }
                    match_count = match_count + 1;
                    if cursor == 0 {
                        if n != k + 1 {
                            return Ok(None);
                        } else {
                            return Ok(Some(match_count));
                        }
                    }
                    cursor = cursor - 1;
                }
            },
            _ => {
                if k != 0 {
                    let selected = &out[cursor];
                    let tt = p.token_type();
                    if tt != TokenType::Null && tt != selected.type_ {
                        return Ok(None);
                    }
                    match p {
                        Pattern::Value(_, value) => {
                            if !str_eq(value, selected.value.as_str()) {
                                return Ok(None);
                            }
                        },
                        Pattern::Re(_, re) => {
                            match regex_is_match(re, selected.value.as_str()) {
                                Some(true) => {},
                                Some(false) => {
                                    return Ok(None);
                                },
                                None => {
                                    return Err(internal_error("token pattern that does not compile"));
                                },
                            }
                        },
                        _ => {},
                    }
                }
                match_count = match_count + 1;
                if cursor == 0 {
                    if n != k + 1 {
                        return Ok(None);
                    } else {
                        return Ok(Some(match_count));
                    }
                }
                cursor = cursor - 1;
            },
        }
        k = k + 1;
    }
    if match_count == 0 {
        Ok(None)
    } else {
        Ok(Some(match_count))
    }
}

/// Where the run of a literal starts, reading the tokens back from index
/// `cursor` at nesting `indent`: the first token of the pair type met at
/// nesting 0, other than the last token; a token of the entry's type, other
/// than the last token, nests one level deeper, and a token of the pair
/// type then comes out of one. None if the run goes past the first token.
pub open spec fn literal_run_start(ts: Seq<TokenView>, ty: TokenType, pair: TokenType, cursor: int, indent: int) -> Option<int>
    decreases cursor + 1,
{
    if cursor < 0 || cursor >= ts.len() {
        None
    } else if ts[cursor].type_ == pair && cursor != ts.len() - 1 && indent == 0 {
        Some(cursor)
    } else {
        let i1 = if ts[cursor].type_ == ty && ts[cursor] != ts.last() {
            indent + 1
        } else {
            indent
        };
        let i2 = if ts[cursor].type_ == pair && i1 != 0 {
            i1 - 1
        } else {
            i1
        };
        literal_run_start(ts, ty, pair, cursor - 1, i2)
    }
}

/// Whether the tokens of `out`, read backwards from the last, run from a
/// token of the entry's pair type to the last one, counting nested tokens
/// of the entry's type against nested pair tokens. Gives the number of
/// tokens in the run, or `None` if the entry has no pair type or the run
/// reaches the first token.
fn is_literal_match(out: &Vec<Token>, entry: &CompoundTokenEntry) -> (res: Option<usize>)
    requires
        out@.len() > 0,
    ensures
        res matches Some(n) ==> 1 <= n <= out@.len(),
        match entry.pair {
            None => res is None,
            Some(p) => match literal_run_start(toks_view(out@), entry.type_, p, out@.len() - 1, 0) {
                Some(c) => res == Some((out@.len() - c) as usize),
                None => res is None,
            },
        },
{
    let pair = match entry.pair {
        Some(p) => p,
        None => {
            return None;
        },
    };
    let last_i = out.len() - 1;
    let mut cursor: usize = last_i;
    let mut match_count: usize = 1;
    let mut indent: usize = 0;
    loop
        invariant
            last_i == out@.len() - 1,
            out@.len() <= usize::MAX,
            cursor <= last_i,
            match_count == last_i - cursor + 1,
            indent <= last_i - cursor,
            literal_run_start(toks_view(out@), entry.type_, pair, last_i as int, 0) == literal_run_start(
                toks_view(out@),
                entry.type_,
                pair,
                cursor as int,
                indent as int,
            ),
            entry.pair == Some(pair),
        decreases cursor,
    {
        let selected = &out[cursor];
        proof {
            assert(toks_view(out@)[cursor as int] == selected@);
            assert(toks_view(out@).last() == out@[last_i as int]@);
        }
        if !(selected.type_ != pair || cursor == last_i || indent != 0) {
            return Some(match_count);
        }
        if selected.type_ == entry.type_ && !selected.same_as(&out[last_i]) {
            indent = indent + 1;
        }
        if selected.type_ == pair && indent != 0 {
            indent = indent - 1;
        }
        if cursor == 0 {
            assert(literal_run_start(toks_view(out@), entry.type_, pair, -1, indent as int) is None);
            return None;
        }
        match_count = match_count + 1;
        cursor = cursor - 1;
    }
}

/// Replaces the last `count` tokens of `out` by one token of the type,
/// at the position of the first of them, whose text is theirs joined.
fn merge_last(out: &mut Vec<Token>, count: usize, type_: TokenType)
    requires
        1 <= count <= old(out)@.len(),
    ensures
        final(out)@.len() == old(out)@.len() - count + 1,
        values_text(toks_view(final(out)@)) == values_text(toks_view(old(out)@)),
        forall|i: int| 0 <= i < old(out)@.len() - count ==> #[trigger] final(out)@[i] == old(out)@[i],
        final(out)@.last().type_ == type_,
{
    let len = out.len();
    let first = len - count;
    let position = out[first].position.clone();
    let ghost tv = toks_view(out@);
    let mut value = String::new();
    let mut j: usize = first;
    proof {
        assert(tv.subrange(first as int, first as int) =~= Seq::<TokenView>::empty());
        assert(Seq::<TokenView>::empty().map_values(|t: TokenView| t.value) =~= Seq::<Seq<char>>::empty());
    }
    while j < len
        invariant
            len == out@.len(),
            tv == toks_view(out@),
            first <= j <= len,
            value@ == values_text(tv.subrange(first as int, j as int)),
        decreases len - j,
    {
        value.append(out[j].value.as_str());
        proof {
            assert(tv.subrange(first as int, j + 1) =~= tv.subrange(first as int, j as int).push(tv[j as int]));
            lemma_values_push(tv.subrange(first as int, j as int), tv[j as int]);
        }
        j = j + 1;
    }
    out.truncate(first);
    proof {
        lemma_values_split(tv, first as int);
        assert(toks_view(out@) =~= tv.subrange(0, first as int));
    }
    let t = plain_token(value, type_, position);
    let ghost kept = toks_view(out@);
    out.push(t);
    proof {
        assert(toks_view(out@) =~= kept.push(t@));
        lemma_values_push(kept, t@);
    }
}

/// Whether a pattern admits a token: it wants any type, or the token's
/// type (and, for a `Value` pattern, the token's text).
pub open spec fn pattern_admits(p: Pattern, t: TokenView) -> bool {
    let tt = p.spec_token_type();
    tt == TokenType::Null || (tt == t.type_ && match p {
        Pattern::Value(_, value) => t.value == value@,
        _ => true,
    })
}

/// Whether an entry's last pattern admits the token: it wants any type, or
/// the token's type (and, for a `Value` pattern, the token's text).
fn last_pattern_admits(entry: &CompoundTokenEntry, t: &Token) -> (res: bool)
    requires
        entry.wf(),
    ensures
        res == pattern_admits(entry.combination@.last(), t@),
{
    let last = entry.combination[entry.combination.len() - 1];
    let tt = last.token_type();
    if tt == TokenType::Null {
        return true;
    }
    if tt != t.type_ {
        return false;
    }
    match last {
        Pattern::Value(_, value) => str_eq(t.value.as_str(), value),
        _ => true,
    }
}

/// After each token, merges the last tokens into one wherever an entry of
/// the table matches them (a literal entry by `is_literal_match`, any other
/// by `is_match`), trying the entries in order.
fn merge_by_table(input: Vec<Token>, entries: &Vec<CompoundTokenEntry>) -> (res: Result<Vec<Token>, ZyxtError>)
    requires
        forall|i: int| 0 <= i < entries@.len() ==> (#[trigger] entries@[i]).wf(),
        forall|i: int| 0 <= i < entries@.len() ==> (#[trigger] entries@[i]).type_ != TokenType::Whitespace,
    ensures
        res matches Ok(v) ==> values_text(toks_view(v@)) == values_text(toks_view(input@)) && v@.len() <= input@.len(),
        res matches Ok(v) ==> (ws_matched(toks_view(input@)) ==> ws_matched(toks_view(v@))),
        res matches Err(e) ==> e.code@ == "0.0"@,
{
    let ghost wsm = ws_matched(toks_view(input@));
    let mut out: Vec<Token> = Vec::new();
    let ghost tv = toks_view(input@);
    let mut i: usize = 0;
    proof {
        assert(tv.subrange(0, 0) =~= Seq::<TokenView>::empty());
        assert(toks_view(out@) =~= Seq::<TokenView>::empty());
    }
    while i < input.len()
        invariant
            tv == toks_view(input@),
            forall|x: int| 0 <= x < entries@.len() ==> (#[trigger] entries@[x]).wf(),
            0 <= i <= input@.len(),
            out@.len() <= i,
            values_text(toks_view(out@)) == values_text(tv.subrange(0, i as int)),
            forall|x: int| 0 <= x < entries@.len() ==> (#[trigger] entries@[x]).type_ != TokenType::Whitespace,
            wsm == ws_matched(tv),
            wsm ==> ws_matched(toks_view(out@)),
        decreases input@.len() - i,
    {
        let t = &input[i];
        let ghost before = toks_view(out@);
        proof {
            assert(tv[i as int] == t@);
        }
        out.push(t.clone());
        proof {
            if wsm {
                assert(ws_matched(toks_view(out@))) by {
                    assert forall|x: int| 0 <= x < toks_view(out@).len() implies (#[trigger] toks_view(out@)[x]).type_
                        == TokenType::Whitespace ==> regex_search("\\s"@, toks_view(out@)[x].value) == Some(true) by {
                        if x < before.len() {
                            assert(toks_view(out@)[x] == before[x]);
                        }
                    }
                }
            }
        }
        proof {
            assert(toks_view(out@) =~= before.push(tv[i as int]));
            lemma_values_push(before, tv[i as int]);
            assert(tv.subrange(0, i + 1) =~= tv.subrange(0, i as int).push(tv[i as int]));
            lemma_values_push(tv.subrange(0, i as int), tv[i as int]);
        }
        let mut k: usize = 0;
        while k < entries.len()
            invariant
                forall|x: int| 0 <= x < entries@.len() ==> (#[trigger] entries@[x]).wf(),
                0 <= k <= entries@.len(),
                1 <= out@.len() <= i + 1,
                values_text(toks_view(out@)) == values_text(tv.subrange(0, i + 1)),
                forall|x: int| 0 <= x < entries@.len() ==> (#[trigger] entries@[x]).type_ != TokenType::Whitespace,
                wsm ==> ws_matched(toks_view(out@)),
            decreases entries@.len() - k,
        {
            let entry = &entries[k];
            if last_pattern_admits(entry, t) {
                let found = if entry.literal {
                    is_literal_match(&out, entry)
                } else {
                    is_match(&entry.combination, &out)?
                };
                match found {
                    Some(count) => {
                        let ghost before = out@;
                        merge_last(&mut out, count, entry.type_);
                        proof {
                            if wsm {
                                assert(entries@[k as int].type_ != TokenType::Whitespace);
                                assert(ws_matched(toks_view(out@))) by {
                                    assert forall|x: int| 0 <= x < toks_view(out@).len() implies (#[trigger] toks_view(
                                        out@,
                                    )[x]).type_ == TokenType::Whitespace ==> regex_search("\\s"@, toks_view(out@)[x].value)
                                        == Some(true) by {
                                        if x < out@.len() - 1 {
                                            assert(out@[x] == before[x]);
                                            assert(toks_view(before)[x] == before[x]@);
                                        }
                                    }
                                }
                            }
                        }
                    },
                    None => {},
                }
            }
            k = k + 1;
        }
        i = i + 1;
    }
    proof {
        assert(tv.subrange(0, tv.len() as int) =~= tv);
    }
    Ok(out)
}

/// Merges the tokens of `compound_token_entries_1`: numbers and names of
/// several characters, comment markers, operators of several characters.
fn lex_stage2(input: Vec<Token>) -> (res: Result<Vec<Token>, ZyxtError>)
    ensures
        res matches Ok(v) ==> values_text(toks_view(v@)) == values_text(toks_view(input@)) && v@.len() <= input@.len(),
        res matches Ok(v) ==> (ws_matched(toks_view(input@)) ==> ws_matched(toks_view(v@))),
        res matches Err(e) ==> e.code@ == "0.0"@,
{
    let table = compound_token_entries_1();
    proof {
        assert forall|x: int| 0 <= x < table@.len() implies (#[trigger] table@[x]).type_ != TokenType::Whitespace by {
            if x == 0 {
            } else if x == 1 {
            } else if x == 2 {
            } else if x == 3 {
            } else if x == 4 {
            } else if x == 5 {
            } else if x == 6 {
            } else if x == 7 {
            } else if x == 8 {
            } else if x == 9 {
            } else if x == 10 {
            } else if x == 11 {
            } else if x == 12 {
            } else if x == 13 {
            } else if x == 14 {
            } else if x == 15 {
            } else if x == 16 {
            } else if x == 17 {
            } else if x == 18 {
            } else if x == 19 {
            } else if x == 20 {
            } else if x == 21 {
            } else if x == 22 {
            } else if x == 23 {
            } else if x == 24 {
            } else if x == 25 {
            } else if x == 26 {
            } else if x == 27 {
            } else if x == 28 {
            } else if x == 29 {
            } else if x == 30 {
            } else if x == 31 {
            } else if x == 32 {
            } else if x == 33 {
            } else if x == 34 {
            } else if x == 35 {
            } else if x == 36 {
            }
        }
    }
    merge_by_table(input, &table)
}

/// Merges the tokens of `compound_token_entries_2`: comments and strings,
/// keywords, flags, literal words and operators spelt with letters.
fn lex_stage3(input: Vec<Token>) -> (res: Result<Vec<Token>, ZyxtError>)
    ensures
        res matches Ok(v) ==> values_text(toks_view(v@)) == values_text(toks_view(input@)) && v@.len() <= input@.len(),
        res matches Ok(v) ==> (ws_matched(toks_view(input@)) ==> ws_matched(toks_view(v@))),
        res matches Err(e) ==> e.code@ == "0.0"@,
{
    let table = compound_token_entries_2();
    proof {
        assert forall|x: int| 0 <= x < table@.len() implies (#[trigger] table@[x]).type_ != TokenType::Whitespace by {
            if x == 0 {
            } else if x == 1 {
            } else if x == 2 {
            } else if x == 3 {
            } else if x == 4 {
            } else if x == 5 {
            } else if x == 6 {
            } else if x == 7 {
            } else if x == 8 {
            } else if x == 9 {
            } else if x == 10 {
            } else if x == 11 {
            } else if x == 12 {
            } else if x == 13 {
            } else if x == 14 {
            } else if x == 15 {
            } else if x == 16 {
            } else if x == 17 {
            } else if x == 18 {
            } else if x == 19 {
            } else if x == 20 {
            } else if x == 21 {
            } else if x == 22 {
            } else if x == 23 {
            } else if x == 24 {
            } else if x == 25 {
            }
        }
    }
    merge_by_table(input, &table)
}

/// Gives `-` and `+` the type of a sign where they stand before a value
/// and not after one (see `side_dependent_token_entries`). Which tokens are
/// considered follows the table in one pass: once a token of one entry's
/// type has been seen, only the entries after it are looked for.
fn lex_stage4(input: Vec<Token>) -> (res: Vec<Token>)
    ensures
        res@.len() == input@.len(),
        forall|i: int| 0 <= i < res@.len() ==> (#[trigger] res@[i]).value == input@[i].value
            && res@[i].position == input@[i].position && res@[i].whitespace == input@[i].whitespace,
{
    let entries = side_dependent_token_entries();
    let mut tl: usize = 0;
    let mut out: Vec<Token> = Vec::new();
    let mut i: usize = 0;
    while i < input.len()
        invariant
            entries@.len() == 2,
            0 <= i <= input@.len(),
            0 <= tl <= entries@.len(),
            out@.len() == i,
            forall|j: int| 0 <= j < i ==> (#[trigger] out@[j]).value == input@[j].value
                && out@[j].position == input@[j].position && out@[j].whitespace == input@[j].whitespace,
        decreases input@.len() - i,
    {
        let t = &input[i];
        let mut found = false;
        while tl < entries.len()
            invariant
                0 <= tl <= entries@.len(),
            decreases entries@.len() - tl,
        {
            let a = entries[tl].from;
            tl = tl + 1;
            if a == t.type_ {
                found = true;
                break;
            }
        }
        if !found {
            out.push(t.clone());
        } else {
            let mut e: usize = 0;
            while e < entries.len() && entries[e].from != t.type_
                invariant
                    0 <= e <= entries@.len(),
                decreases entries@.len() - e,
            {
                e = e + 1;
            }
            if e == entries.len() {
                out.push(t.clone());
            } else {
                let entry = &entries[e];
                let becomes = if entry.side == Side::Left {
                    i == 0 || !ends_value(out[i - 1].type_)
                } else if entry.side == Side::Right {
                    i == input.len() - 1 || !starts_value(input[i + 1].type_)
                } else {
                    false
                };
                if becomes {
                    let mut t2 = t.clone();
                    t2.type_ = entry.type_;
                    out.push(t2);
                } else {
                    out.push(t.clone());
                }
            }
        }
        i = i + 1;
    }
    out
}

/// The first token of type `Null` is error 2.1.1 with its text, at its place.
fn check_no_unknown_tokens(input: &Vec<Token>) -> (res: Result<(), ZyxtError>)
    ensures
        res is Ok <==> forall|i: int| 0 <= i < input@.len() ==> (#[trigger] input@[i]).type_ != TokenType::Null,
        res matches Err(e) ==> exists|i: int| 0 <= i < input@.len() && (#[trigger] input@[i]).type_ == TokenType::Null
            && (forall|j: int| 0 <= j < i ==> (#[trigger] input@[j]).type_ != TokenType::Null)
            && e.code@ == "2.1.1"@ && e.message@ == "Ident `"@ + input@[i].value@ + "` not recognised by lexer"@
            && e.position == Some(input@[i].position) && e.raw == input@[i].value,
{
    let mut i: usize = 0;
    while i < input.len()
        invariant
            0 <= i <= input@.len(),
            forall|j: int| 0 <= j < i ==> (#[trigger] input@[j]).type_ != TokenType::Null,
        decreases input@.len() - i,
    {
        let token = &input[i];
        if token.type_ == TokenType::Null {
            let e = error_2_1_1(token.value.clone()).with_pos_and_raw(&token.position, &token.value);
            assert(input@[i as int].type_ == TokenType::Null);
            return Err(e);
        }
        i = i + 1;
    }
    Ok(())
}

/// Lexes a source in stages: one token per character (`lex_stage1`), then
/// the tokens of `compound_token_entries_1` and of
/// `compound_token_entries_2` merged, white space moved onto the token
/// after it, and signs told from `+` and `-`. A source of white space
/// alone has no tokens; a character no entry knows is error 2.1.1. The
/// tokens, with their white space, spell the source with a line break
/// added, but for white space at its end (texts that `\s` matches), where
/// the source is not white space alone.
pub fn old_lex(preinput: String, filename: &str) -> (res: Result<Vec<Token>, ZyxtError>)
    requires
        preinput@.len() + 5 < u32::MAX,
    ensures
        trimmed(preinput@).len() == 0 ==> (res matches Ok(v) && v@.len() == 0),
        res matches Ok(v) ==> raws_text(toks_view(v@)).is_prefix_of(preinput@ + "\n"@),
        trimmed(preinput@).len() != 0 ==> (res matches Ok(v) ==> exists|ps: Seq<Seq<char>>| all_ws(ps) && raws_text(
            toks_view(v@),
        ) + concat_all(ps) == preinput@ + "\n"@),
        res matches Ok(v) ==> forall|i: int| 0 <= i < v@.len() ==> (#[trigger] v@[i]).type_ != TokenType::Null,
{
    let t = trim_text(preinput.as_str());
    if t.as_str().is_empty() {
        return Ok(Vec::new());
    }
    let mut input = preinput;
    input.append("\n");
    proof {
        reveal_strlit("\n");
    }
    let ghost text = input@;
    let out1 = lex_stage1(input, filename)?;
    let out2 = lex_stage2(out1)?;
    let out3 = lex_stage3(out2)?;
    let out4 = clean_whitespaces(out3);
    proof {
        law_clean_keeps_text(toks_view(out3@), 0, Seq::empty());
        assert(toks_view(out3@).subrange(0, toks_view(out3@).len() as int) =~= toks_view(out3@));
        assert(Seq::<char>::empty() + values_text(toks_view(out3@)) =~= values_text(toks_view(out3@)));
    }
    let ghost ps: Seq<Seq<char>>;
    proof {
        let e: Seq<Seq<char>> = Seq::empty();
        assert(concat_all(e) =~= Seq::<char>::empty());
        ps = lemma_clean_rest(toks_view(out3@), 0, e);
        assert(Seq::<char>::empty() + values_text(toks_view(out3@).subrange(0, toks_view(out3@).len() as int)) =~= text);
    }
    let out5 = lex_stage4(out4);
    proof {
        assert(toks_view(out5@).map_values(|x: TokenView| x.whitespace + x.value) =~= toks_view(out4@).map_values(
            |x: TokenView| x.whitespace + x.value,
        ));
        assert(raws_text(toks_view(out5@)) + concat_all(ps) == preinput@ + "\n"@);
    }
    check_no_unknown_tokens(&out5)?;
    Ok(out5)
}

} // verus!
