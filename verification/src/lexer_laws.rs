use vstd::prelude::*;
use vstd::string::*;
use crate::lexer::{clean_from, concat_all, buffer_content, LexerState, opr_lex, OprLex, append_last, raw_token, word_loop, word_type, number_loop, ws_loop, line_loop, alphanumeric_text, numeric_text, whitespace_text, alphabetic_text, main_step, next_text, lex_step, run_lexer, step_progresses, state_rank, lex_spec};
use crate::position::PositionView;
use crate::text::{white_space_char, trimmed, leading_white, trailing_white};
use crate::token::{TokenType, TokenView};

verus! {

/// Whether every character of a text is white space.
pub open spec fn all_white(s: Seq<char>) -> bool {
    forall|k: int| 0 <= k < s.len() ==> white_space_char(#[trigger] s[k])
}

/// The tokens written out: each one's white space, then its value.
pub open spec fn spell(t: Seq<TokenView>) -> Seq<char>
    decreases t.len(),
{
    if t.len() == 0 {
        Seq::empty()
    } else {
        t[0].whitespace + t[0].value + spell(t.drop_first())
    }
}

/// The values of the tokens from the `i`th on, joined.
pub open spec fn values_from(t: Seq<TokenView>, i: int) -> Seq<char>
    decreases t.len() - i,
{
    if i < 0 || i >= t.len() {
        Seq::empty()
    } else {
        t[i].value + values_from(t, i + 1)
    }
}

/// The texts of the graphemes from the `a`th up to the `b`th, joined.
pub open spec fn texts_between(c: Seq<(Seq<char>, PositionView)>, a: int, b: int) -> Seq<char>
    decreases b - a,
{
    if b <= a {
        Seq::empty()
    } else {
        texts_between(c, a, b - 1) + c[b - 1].0
    }
}

/// Whether the white-space tokens hold only white space.
pub open spec fn ws_white(t: Seq<TokenView>) -> bool {
    forall|i: int| 0 <= i < t.len() && (#[trigger] t[i]).type_ == TokenType::Whitespace ==> all_white(t[i].value)
}

proof fn lemma_texts_front(c: Seq<(Seq<char>, PositionView)>, a: int, b: int)
    requires
        a < b,
    ensures
        texts_between(c, a, b) == c[a].0 + texts_between(c, a + 1, b),
    decreases b - a,
{
    if b - 1 > a {
        lemma_texts_front(c, a, b - 1);
        assert(texts_between(c, a, b) == c[a].0 + texts_between(c, a + 1, b - 1) + c[b - 1].0);
    } else {
        assert(texts_between(c, a, a) =~= Seq::<char>::empty());
        assert(texts_between(c, a + 1, b) =~= Seq::<char>::empty());
        assert(texts_between(c, a, b) =~= c[a].0);
    }
}

proof fn lemma_texts_split(c: Seq<(Seq<char>, PositionView)>, a: int, m: int, b: int)
    requires
        a <= m <= b,
    ensures
        texts_between(c, a, m) + texts_between(c, m, b) == texts_between(c, a, b),
    decreases b - m,
{
    if b > m {
        lemma_texts_split(c, a, m, b - 1);
        assert(texts_between(c, a, m) + texts_between(c, m, b) =~= texts_between(c, a, m) + texts_between(c, m, b - 1)
            + c[b - 1].0);
    } else {
        assert(texts_between(c, m, b) =~= Seq::<char>::empty());
        assert(texts_between(c, a, m) + texts_between(c, m, b) =~= texts_between(c, a, m));
    }
}

proof fn lemma_values_push(t: Seq<TokenView>, x: TokenView, i: int)
    requires
        0 <= i <= t.len(),
    ensures
        values_from(t.push(x), i) == values_from(t, i) + x.value,
    decreases t.len() - i,
{
    if i < t.len() {
        lemma_values_push(t, x, i + 1);
        assert(t.push(x)[i] == t[i]);
        assert(values_from(t.push(x), i) =~= values_from(t, i) + x.value);
    } else {
        assert(values_from(t.push(x), i + 1) =~= Seq::<char>::empty());
        assert(values_from(t.push(x), i) =~= x.value);
        assert(values_from(t, i) =~= Seq::<char>::empty());
    }
}

/// Moving white space onto the tokens after it keeps the text: what is
/// left over at the end is white space.
proof fn lemma_clean_spell(t: Seq<TokenView>, i: int, stack: Seq<char>) -> (w: Seq<char>)
    requires
        ws_white(t),
        all_white(stack),
        0 <= i <= t.len(),
    ensures
        spell(clean_from(t, i, stack)) + w == stack + values_from(t, i),
        all_white(w),
    decreases t.len() - i,
{
    if i >= t.len() {
        assert(spell(clean_from(t, i, stack)) =~= Seq::<char>::empty());
        assert(values_from(t, i) =~= Seq::<char>::empty());
        assert(Seq::<char>::empty() + stack =~= stack + Seq::<char>::empty());
        stack
    } else if t[i].type_ == TokenType::Whitespace {
        let s2 = stack + t[i].value;
        assert(all_white(s2)) by {
            assert(all_white(t[i].value));
            assert forall|k: int| 0 <= k < s2.len() implies white_space_char(#[trigger] s2[k]) by {
                if k >= stack.len() {
                    assert(s2[k] == t[i].value[k - stack.len()]);
                }
            }
        }
        let w = lemma_clean_spell(t, i + 1, s2);
        assert(stack + values_from(t, i) =~= s2 + values_from(t, i + 1));
        w
    } else {
        let w = lemma_clean_spell(t, i + 1, Seq::empty());
        let x = TokenView { whitespace: stack, ..t[i] };
        let rest = clean_from(t, i + 1, Seq::empty());
        assert(clean_from(t, i, stack) == seq![x] + rest);
        assert((seq![x] + rest).drop_first() =~= rest);
        assert(spell(seq![x] + rest) == stack + t[i].value + spell(rest));
        assert(Seq::<char>::empty() + values_from(t, i + 1) =~= values_from(t, i + 1));
        assert(spell(clean_from(t, i, stack)) + w =~= stack + values_from(t, i));
        w
    }
}

/// A text with no quote, which would start a text literal.
pub open spec fn plain_text(g: Seq<char>) -> bool {
    forall|k: int| 0 <= k < g.len() ==> #[trigger] g[k] != '"'
}

/// Whether a grapheme and the one after it are `/` and `*`, which start a
/// block comment, or `~` and `=`, which the lexer reads as `~` alone.
pub open spec fn rewritten_pair(g: Seq<char>, n: Seq<char>) -> bool {
    (g == "/"@ && n == "*"@) || (g == "~"@ && n == "="@)
}

/// An operator grapheme that does not form such a pair with the one after
/// it makes a token whose value is what it read; `//` starts a line
/// comment.
proof fn lemma_opr_lex_text(g: Seq<char>, n: Option<Seq<char>>)
    requires
        n matches Some(x) ==> !rewritten_pair(g, x),
    ensures
        match opr_lex(g, n) {
            OprLex::Token(ty, v, k) => ty != TokenType::Whitespace && ((k == 1 && v == g) || (k == 2 && n is Some && v
                == g + n.unwrap())),
            OprLex::LineComment => n is Some && "//"@ == g + n.unwrap(),
            OprLex::BlockComment => false,
            OprLex::Unfinished => true,
            OprLex::Unknown => true,
        },
{
    reveal_strlit("!");
    reveal_strlit("!=");
    reveal_strlit("%");
    reveal_strlit("%=");
    reveal_strlit("&");
    reveal_strlit("&&");
    reveal_strlit("(");
    reveal_strlit(")");
    reveal_strlit("*");
    reveal_strlit("*=");
    reveal_strlit("+");
    reveal_strlit("++");
    reveal_strlit("+-");
    reveal_strlit("+=");
    reveal_strlit(",");
    reveal_strlit("-");
    reveal_strlit("-+");
    reveal_strlit("--");
    reveal_strlit("-=");
    reveal_strlit(".");
    reveal_strlit("/");
    reveal_strlit("/=");
    reveal_strlit(":");
    reveal_strlit(":=");
    reveal_strlit(";");
    reveal_strlit("<");
    reveal_strlit("<=");
    reveal_strlit("=");
    reveal_strlit("==");
    reveal_strlit(">");
    reveal_strlit("><");
    reveal_strlit(">=");
    reveal_strlit("@");
    reveal_strlit("[");
    reveal_strlit("]");
    reveal_strlit("^");
    reveal_strlit("^=");
    reveal_strlit("{");
    reveal_strlit("|");
    reveal_strlit("||");
    reveal_strlit("}");
    reveal_strlit("~");
    reveal_strlit("//");
    if n is Some {
        let x = n.unwrap();
        if g == "/"@ && x == "/"@ {
            assert(g + x =~= "//"@);
        }
    }
}

/// Whether the graphemes end with a newline one.
pub open spec fn ends_in_newline(c: Seq<(Seq<char>, PositionView)>) -> bool {
    c.len() > 0 && c.last().0 == "\n"@
}

proof fn lemma_values_append_last(t: Seq<TokenView>, s: Seq<char>, i: int)
    requires
        0 <= i < t.len(),
    ensures
        values_from(append_last(t, s), i) == values_from(t, i) + s,
    decreases t.len() - i,
{
    let a = append_last(t, s);
    if i + 1 < t.len() {
        lemma_values_append_last(t, s, i + 1);
        assert(a[i] == t[i]);
        assert(values_from(a, i) =~= values_from(t, i) + s);
    } else {
        assert(values_from(a, i + 1) =~= Seq::<char>::empty());
        assert(values_from(t, i + 1) =~= Seq::<char>::empty());
        assert(values_from(a, i) =~= values_from(t, i) + s);
    }
}

proof fn lemma_ws_white_push(t: Seq<TokenView>, x: TokenView)
    requires
        ws_white(t),
        x.type_ == TokenType::Whitespace ==> all_white(x.value),
    ensures
        ws_white(t.push(x)),
{
    assert forall|i: int| 0 <= i < t.push(x).len() && (#[trigger] t.push(x)[i]).type_ == TokenType::Whitespace implies all_white(
        t.push(x)[i].value,
    ) by {
        if i < t.len() {
            assert(t.push(x)[i] == t[i]);
        }
    }
}

proof fn lemma_newline_is_no_word()
    ensures
        !alphanumeric_text("\n"@),
        !numeric_text("\n"@),
        "\n"@ != "."@,
        whitespace_text("\n"@),
{
    reveal_strlit("\n");
    reveal_strlit(".");
    assert("\n"@[0] == '\n');
    assert(white_space_char('\n')) by {
        reveal(white_space_char);
    }
}

/// A word runs up to the grapheme after it and becomes a token of what it
/// read.
proof fn lemma_word_text(c: Seq<(Seq<char>, PositionView)>, j: int, raw: Seq<char>, pos: PositionView, toks: Seq<TokenView>)
    requires
        ends_in_newline(c),
        0 <= j <= c.len(),
        j == c.len() ==> raw.len() == 0,
        ws_white(toks),
    ensures
        match word_loop(c, j, raw, pos, toks).outcome {
            Ok(Some(s)) => {
                let st = word_loop(c, j, raw, pos, toks);
                &&& s == LexerState::Main
                &&& j <= st.index <= c.len()
                &&& values_from(st.tokens, 0) == values_from(toks, 0) + raw + texts_between(c, j, st.index)
                &&& ws_white(st.tokens)
            },
            Ok(None) => word_loop(c, j, raw, pos, toks).tokens == toks && raw + texts_between(c, j, c.len() as int)
                =~= Seq::<char>::empty(),
            Err(_) => true,
        },
    decreases c.len() - j,
{
    lemma_newline_is_no_word();
    if j >= c.len() {
        assert(texts_between(c, j, c.len() as int) =~= Seq::<char>::empty());
    } else if alphanumeric_text(c[j].0) {
        assert(j + 1 < c.len());
        lemma_word_text(c, j + 1, raw + c[j].0, pos, toks);
        let st = word_loop(c, j, raw, pos, toks);
        if st.outcome matches Ok(Some(_)) {
            lemma_texts_front(c, j, st.index);
            assert(raw + c[j].0 + texts_between(c, j + 1, st.index) =~= raw + texts_between(c, j, st.index));
        }
    } else {
        let x = raw_token(raw, word_type(raw), pos);
        lemma_values_push(toks, x, 0);
        lemma_ws_white_push(toks, x);
        assert(texts_between(c, j, j) =~= Seq::<char>::empty());
        assert(raw + texts_between(c, j, j) =~= raw);
    }
}

/// A number runs up to the grapheme after it and becomes a token of what
/// it read.
proof fn lemma_number_text(c: Seq<(Seq<char>, PositionView)>, j: int, raw: Seq<char>, dotted: bool, pos: PositionView, toks: Seq<TokenView>)
    requires
        ends_in_newline(c),
        0 <= j <= c.len(),
        j == c.len() ==> raw.len() == 0,
        ws_white(toks),
    ensures
        match number_loop(c, j, raw, dotted, pos, toks).outcome {
            Ok(Some(s)) => {
                let st = number_loop(c, j, raw, dotted, pos, toks);
                &&& s == LexerState::Main
                &&& j <= st.index <= c.len()
                &&& values_from(st.tokens, 0) == values_from(toks, 0) + raw + texts_between(c, j, st.index)
                &&& ws_white(st.tokens)
            },
            Ok(None) => number_loop(c, j, raw, dotted, pos, toks).tokens == toks && raw + texts_between(c, j, c.len() as int)
                =~= Seq::<char>::empty(),
            Err(_) => true,
        },
    decreases c.len() - j,
{
    lemma_newline_is_no_word();
    if j >= c.len() {
        assert(texts_between(c, j, c.len() as int) =~= Seq::<char>::empty());
    } else if numeric_text(c[j].0) || (c[j].0 == "."@ && !dotted) {
        assert(j + 1 < c.len());
        let d2 = if numeric_text(c[j].0) { dotted } else { true };
        lemma_number_text(c, j + 1, raw + c[j].0, d2, pos, toks);
        let st = number_loop(c, j, raw, dotted, pos, toks);
        if st.outcome matches Ok(Some(_)) {
            lemma_texts_front(c, j, st.index);
            assert(raw + c[j].0 + texts_between(c, j + 1, st.index) =~= raw + texts_between(c, j, st.index));
        }
    } else {
        let x = raw_token(raw, TokenType::LiteralNumber, pos);
        lemma_values_push(toks, x, 0);
        lemma_ws_white_push(toks, x);
        assert(texts_between(c, j, j) =~= Seq::<char>::empty());
        assert(raw + texts_between(c, j, j) =~= raw);
    }
}

/// White space runs up to the grapheme after it, or to the end, where it
/// is dropped.
proof fn lemma_ws_text(c: Seq<(Seq<char>, PositionView)>, j: int, raw: Seq<char>, pos: PositionView, toks: Seq<TokenView>)
    requires
        0 <= j <= c.len(),
        all_white(raw),
        ws_white(toks),
    ensures
        match ws_loop(c, j, raw, pos, toks).outcome {
            Ok(Some(s)) => {
                let st = ws_loop(c, j, raw, pos, toks);
                &&& s == LexerState::Main
                &&& j <= st.index <= c.len()
                &&& values_from(st.tokens, 0) == values_from(toks, 0) + raw + texts_between(c, j, st.index)
                &&& ws_white(st.tokens)
            },
            Ok(None) => ws_loop(c, j, raw, pos, toks).tokens == toks && all_white(raw + texts_between(c, j, c.len() as int)),
            Err(_) => true,
        },
    decreases c.len() - j,
{
    if j >= c.len() {
        assert(raw + texts_between(c, j, c.len() as int) =~= raw);
    } else if whitespace_text(c[j].0) {
        let r2 = raw + c[j].0;
        assert(all_white(r2)) by {
            assert forall|k: int| 0 <= k < r2.len() implies white_space_char(#[trigger] r2[k]) by {
                if k >= raw.len() {
                    assert(r2[k] == c[j].0[k - raw.len()]);
                }
            }
        }
        lemma_ws_text(c, j + 1, r2, pos, toks);
        let st = ws_loop(c, j, raw, pos, toks);
        if st.outcome matches Ok(Some(_)) {
            lemma_texts_front(c, j, st.index);
            assert(r2 + texts_between(c, j + 1, st.index) =~= raw + texts_between(c, j, st.index));
        } else if st.outcome matches Ok(None) {
            lemma_texts_front(c, j, c.len() as int);
            assert(r2 + texts_between(c, j + 1, c.len() as int) =~= raw + texts_between(c, j, c.len() as int));
        }
    } else {
        let x = raw_token(raw, TokenType::Whitespace, pos);
        lemma_values_push(toks, x, 0);
        lemma_ws_white_push(toks, x);
        assert(texts_between(c, j, j) =~= Seq::<char>::empty());
        assert(raw + texts_between(c, j, j) =~= raw);
    }
}

/// A line comment runs up to and with the next newline grapheme, all of it
/// added to the comment token.
proof fn lemma_line_text(c: Seq<(Seq<char>, PositionView)>, j: int, raw: Seq<char>, toks: Seq<TokenView>)
    requires
        ends_in_newline(c),
        0 <= j <= c.len(),
        j == c.len() ==> raw.len() == 0,
        toks.len() > 0,
        toks.last().type_ == TokenType::Comment,
        ws_white(toks),
    ensures
        match line_loop(c, j, raw, toks).outcome {
            Ok(Some(s)) => {
                let st = line_loop(c, j, raw, toks);
                &&& s == LexerState::Main
                &&& j <= st.index <= c.len()
                &&& values_from(st.tokens, 0) == values_from(toks, 0) + raw + texts_between(c, j, st.index)
                &&& ws_white(st.tokens)
            },
            Ok(None) => line_loop(c, j, raw, toks).tokens == toks && raw + texts_between(c, j, c.len() as int)
                =~= Seq::<char>::empty(),
            Err(_) => true,
        },
    decreases c.len() - j,
{
    if j >= c.len() {
        assert(texts_between(c, j, c.len() as int) =~= Seq::<char>::empty());
    } else if c[j].0 == "\n"@ {
        let s = raw + c[j].0;
        lemma_values_append_last(toks, s, 0);
        let a = append_last(toks, s);
        assert forall|i: int| 0 <= i < a.len() && (#[trigger] a[i]).type_ == TokenType::Whitespace implies all_white(
            a[i].value,
        ) by {
            if i < toks.len() - 1 {
                assert(a[i] == toks[i]);
            }
        }
        lemma_texts_front(c, j, j + 1);
        assert(texts_between(c, j + 1, j + 1) =~= Seq::<char>::empty());
        assert(raw + texts_between(c, j, j + 1) =~= s);
    } else {
        assert(j + 1 < c.len());
        lemma_line_text(c, j + 1, raw + c[j].0, toks);
        let st = line_loop(c, j, raw, toks);
        if st.outcome matches Ok(Some(_)) {
            lemma_texts_front(c, j, st.index);
            assert(raw + c[j].0 + texts_between(c, j + 1, st.index) =~= raw + texts_between(c, j, st.index));
        }
    }
}

/// Whether no grapheme holds a quote and no two graphemes in a row form a
/// pair that the lexer rewrites (see `rewritten_pair`).
pub open spec fn all_plain(c: Seq<(Seq<char>, PositionView)>) -> bool {
    &&& forall|k: int| 0 <= k < c.len() ==> plain_text(#[trigger] c[k].0)
    &&& forall|k: int| 0 <= k < c.len() - 1 ==> !rewritten_pair(#[trigger] c[k].0, c[k + 1].0)
}

/// The main mode reads operators into tokens of what they read, and hands
/// over to a mode without reading.
proof fn lemma_main_text(c: Seq<(Seq<char>, PositionView)>, i: int, toks: Seq<TokenView>)
    requires
        ends_in_newline(c),
        all_plain(c),
        0 <= i <= c.len(),
        ws_white(toks),
    ensures
        match main_step(c, i, toks).outcome {
            Ok(Some(s)) => {
                let st = main_step(c, i, toks);
                &&& s != LexerState::TextLiteral && s != LexerState::BlockComment
                &&& i <= st.index <= c.len()
                &&& values_from(st.tokens, 0) == values_from(toks, 0) + texts_between(c, i, st.index)
                &&& ws_white(st.tokens)
                &&& (s == LexerState::LineComment ==> st.tokens.len() > 0 && st.tokens.last().type_ == TokenType::Comment)
            },
            Ok(None) => values_from(main_step(c, i, toks).tokens, 0) == values_from(toks, 0) + texts_between(
                c,
                i,
                c.len() as int,
            ) && ws_white(main_step(c, i, toks).tokens),
            Err(_) => true,
        },
    decreases c.len() - i,
{
    if i >= c.len() {
        assert(texts_between(c, i, c.len() as int) =~= Seq::<char>::empty());
        assert(values_from(toks, 0) + Seq::<char>::empty() =~= values_from(toks, 0));
        return;
    }
    let g = c[i].0;
    let p = c[i].1;
    assert(texts_between(c, i, i) =~= Seq::<char>::empty());
    assert(values_from(toks, 0) + texts_between(c, i, i) =~= values_from(toks, 0));
    reveal_strlit("\"");
    if g == "\""@ {
        assert(g[0] == '"');
        assert(plain_text(c[i].0));
        assert(false);
    }
    if alphabetic_text(g) || whitespace_text(g) || numeric_text(g) {
        return;
    }
    let n = next_text(c, i);
    if i + 1 < c.len() {
        assert(!rewritten_pair(c[i].0, c[i + 1].0));
    }
    lemma_opr_lex_text(g, n);
    match opr_lex(g, n) {
        OprLex::Token(ty, v, k) => {
            if k >= 1 {
                let x = raw_token(v, ty, p);
                let t2 = toks.push(x);
                lemma_values_push(toks, x, 0);
                lemma_ws_white_push(toks, x);
                lemma_texts_front(c, i, i + k);
                if k == 2 {
                    lemma_texts_front(c, i + 1, i + 2);
                }
                assert(texts_between(c, i + k, i + k) =~= Seq::<char>::empty());
                assert(texts_between(c, i + 1, i + 1) =~= Seq::<char>::empty());
                assert(texts_between(c, i, i + k) =~= v);
                lemma_main_text(c, i + k, t2);
                let st = main_step(c, i + k, t2);
                if st.outcome matches Ok(Some(_)) {
                    lemma_texts_split(c, i, i + k, st.index);
                    assert(values_from(toks, 0) + v + texts_between(c, i + k, st.index) =~= values_from(toks, 0)
                        + texts_between(c, i, st.index));
                } else if st.outcome matches Ok(None) {
                    lemma_texts_split(c, i, i + k, c.len() as int);
                    assert(values_from(toks, 0) + v + texts_between(c, i + k, c.len() as int) =~= values_from(toks, 0)
                        + texts_between(c, i, c.len() as int));
                }
            }
        },
        OprLex::LineComment => {
            let x = raw_token("//"@, TokenType::Comment, p);
            lemma_values_push(toks, x, 0);
            lemma_ws_white_push(toks, x);
            lemma_texts_front(c, i, i + 2);
            lemma_texts_front(c, i + 1, i + 2);
            assert(texts_between(c, i + 2, i + 2) =~= Seq::<char>::empty());
            assert(texts_between(c, i, i + 2) =~= "//"@);
        },
        _ => {},
    }
}

/// Lexing from any mode but the text-literal and block-comment ones keeps
/// the text read, but for white space at the end.
proof fn lemma_run_text(state: LexerState, c: Seq<(Seq<char>, PositionView)>, i: int, toks: Seq<TokenView>) -> (w: Seq<char>)
    requires
        ends_in_newline(c),
        all_plain(c),
        0 <= i <= c.len(),
        ws_white(toks),
        state != LexerState::TextLiteral,
        state != LexerState::BlockComment,
        state == LexerState::LineComment ==> toks.len() > 0 && toks.last().type_ == TokenType::Comment,
    ensures
        run_lexer(state, c, i, toks) matches Ok(t) ==> {
            &&& ws_white(t)
            &&& all_white(w)
            &&& values_from(t, 0) + w == values_from(toks, 0) + texts_between(c, i, c.len() as int)
        },
    decreases c.len() - i, state_rank(state),
{
    let st = lex_step(state, c, i, toks);
    let rest = texts_between(c, i, c.len() as int);
    match state {
        LexerState::Main => lemma_main_text(c, i, toks),
        LexerState::Word => if i < c.len() {
            lemma_word_text(c, i, Seq::empty(), c[i].1, toks);
        },
        LexerState::Number => if i < c.len() {
            lemma_number_text(c, i, Seq::empty(), false, c[i].1, toks);
        },
        LexerState::Whitespace => if i < c.len() {
            lemma_ws_text(c, i, Seq::empty(), c[i].1, toks);
        },
        LexerState::LineComment => lemma_line_text(c, i, Seq::empty(), toks),
        _ => {},
    }
    assert(Seq::<char>::empty() + rest =~= rest);
    assert(texts_between(c, i, i) =~= Seq::<char>::empty());
    match st.outcome {
        Err(_) => Seq::empty(),
        Ok(None) => {
            if state == LexerState::Main {
                assert(values_from(st.tokens, 0) + Seq::<char>::empty() =~= values_from(st.tokens, 0));
                Seq::empty()
            } else {
                if i >= c.len() {
                    assert(rest =~= Seq::<char>::empty());
                }
                rest
            }
        },
        Ok(Some(s)) => {
            if step_progresses(state, c, i, st) && (state == LexerState::Main || s == LexerState::Main) {
                assert(Seq::<char>::empty() + texts_between(c, i, st.index) =~= texts_between(c, i, st.index));
                let w = lemma_run_text(s, c, st.index, st.tokens);
                lemma_texts_split(c, i, st.index, c.len() as int);
                assert(values_from(toks, 0) + texts_between(c, i, st.index) + texts_between(c, st.index, c.len() as int)
                    =~= values_from(toks, 0) + rest);
                w
            } else {
                Seq::empty()
            }
        },
    }
}

proof fn lemma_texts_prefix(c: Seq<(Seq<char>, PositionView)>, d: Seq<(Seq<char>, PositionView)>, a: int, b: int)
    requires
        forall|k: int| a <= k < b ==> (#[trigger] c[k]).0 == d[k].0,
    ensures
        texts_between(c, a, b) == texts_between(d, a, b),
    decreases b - a,
{
    if b > a {
        lemma_texts_prefix(c, d, a, b - 1);
    }
}

proof fn lemma_buffer_texts(gs: Seq<Seq<char>>, p0: PositionView)
    ensures
        buffer_content(gs, p0).len() == gs.len(),
        forall|k: int| 0 <= k < gs.len() ==> (#[trigger] buffer_content(gs, p0)[k]).0 == gs[k],
        texts_between(buffer_content(gs, p0), 0, gs.len() as int) == concat_all(gs),
    decreases gs.len(),
{
    if gs.len() > 0 {
        let dl = gs.drop_last();
        lemma_buffer_texts(dl, p0);
        let c = buffer_content(gs, p0);
        let d = buffer_content(dl, p0);
        assert forall|k: int| 0 <= k < gs.len() implies (#[trigger] c[k]).0 == gs[k] by {
            if k < dl.len() {
                assert(c[k] == d[k]);
            }
        }
        assert forall|k: int| 0 <= k < dl.len() implies (#[trigger] c[k]).0 == d[k].0 by {
            assert(c[k] == d[k]);
        }
        lemma_texts_prefix(c, d, 0, dl.len() as int);
    } else {
        assert(texts_between(buffer_content(gs, p0), 0, 0) =~= Seq::<char>::empty());
    }
}

/// Lexing keeps the text: for graphemes that end with a newline one, hold
/// no quote (no text literal) and have no `/` `*` (no block comment) and
/// no `~` `=` in a row, the tokens, each written with
/// the white space before it, spell the graphemes joined, but for white
/// space at the end. So graphemes that are not all white space give at
/// least one token.
pub proof fn law_lex_keeps_the_text(gs: Seq<Seq<char>>, filename: Seq<char>)
    requires
        gs.len() > 0,
        gs.last() == "\n"@,
        forall|k: int| 0 <= k < gs.len() ==> plain_text(#[trigger] gs[k]),
        forall|k: int| 0 <= k < gs.len() - 1 ==> !rewritten_pair(#[trigger] gs[k], gs[k + 1]),
    ensures
        lex_spec(gs, filename) matches Ok(t) ==> exists|w: Seq<char>| all_white(w) && spell(t) + w == concat_all(gs),
        !all_white(concat_all(gs)) ==> (lex_spec(gs, filename) matches Ok(t) ==> t.len() > 0),
{
    let p0 = PositionView { filename, line: 1, column: 1 };
    let c = buffer_content(gs, p0);
    lemma_buffer_texts(gs, p0);
    assert(all_plain(c)) by {
        assert forall|k: int| 0 <= k < c.len() implies plain_text(#[trigger] c[k].0) by {
            assert(c[k].0 == gs[k]);
        }
        assert forall|k: int| 0 <= k < c.len() - 1 implies !rewritten_pair(#[trigger] c[k].0, c[k + 1].0) by {
            assert(c[k].0 == gs[k]);
            assert(c[k + 1].0 == gs[k + 1]);
        }
    }
    assert(c.last().0 == gs.last());
    assert(ws_white(Seq::<TokenView>::empty()));
    let w1 = lemma_run_text(LexerState::Main, c, 0, Seq::empty());
    match run_lexer(LexerState::Main, c, 0, Seq::empty()) {
        Ok(t0) => {
            assert(all_white(Seq::<char>::empty()));
            let w2 = lemma_clean_spell(t0, 0, Seq::empty());
            let t = clean_from(t0, 0, Seq::empty());
            assert(values_from(Seq::<TokenView>::empty(), 0) =~= Seq::<char>::empty());
            assert(Seq::<char>::empty() + values_from(t0, 0) =~= values_from(t0, 0));
            assert(Seq::<char>::empty() + concat_all(gs) =~= concat_all(gs));
            let w = w2 + w1;
            assert(all_white(w)) by {
                assert forall|k: int| 0 <= k < w.len() implies white_space_char(#[trigger] w[k]) by {
                    if k >= w2.len() {
                        assert(w[k] == w1[k - w2.len()]);
                    }
                }
            }
            assert(spell(t) + w =~= concat_all(gs));
            if t.len() == 0 {
                assert(spell(t) =~= Seq::<char>::empty());
                assert(concat_all(gs) =~= w);
            }
        },
        Err(_) => {},
    }
}

/// A source with no quote (no text literal), and no `/` `*` (no block
/// comment) and no `~` `=` in a row, that does not end in a carriage
/// return.
pub open spec fn plain_source(s: Seq<char>) -> bool {
    &&& forall|i: int| 0 <= i < s.len() ==> #[trigger] s[i] != '"'
    &&& forall|i: int| 0 <= i < s.len() - 1 ==> !((#[trigger] s[i] == '/' && s[i + 1] == '*') || (s[i] == '~' && s[i + 1]
        == '='))
    &&& s.len() > 0 ==> s.last() != '\r'
}

/// Each character of a text joined from pieces stands in the joined text,
/// after the pieces before it.
proof fn lemma_concat_chars(gs: Seq<Seq<char>>, k: int)
    requires
        0 <= k < gs.len(),
    ensures
        concat_all(gs.take(k + 1)).len() == concat_all(gs.take(k)).len() + gs[k].len(),
        concat_all(gs.take(k + 1)).len() <= concat_all(gs).len(),
        forall|i: int| 0 <= i < gs[k].len() ==> #[trigger] gs[k][i] == concat_all(gs)[concat_all(gs.take(k)).len() + i],
    decreases gs.len(),
{
    let dl = gs.drop_last();
    if k < gs.len() - 1 {
        lemma_concat_chars(dl, k);
        assert(dl.take(k) =~= gs.take(k));
        assert(dl.take(k + 1) =~= gs.take(k + 1));
        assert(dl[k] == gs[k]);
    } else {
        assert(gs.take(k) =~= dl);
        assert(gs.take(k + 1) =~= gs);
        assert(gs.take(k + 1).drop_last() =~= dl);
    }
}

/// The graphemes of a plain source with a newline added hold no quote and
/// no pair that the lexer rewrites.
pub proof fn lemma_plain_graphemes(gs: Seq<Seq<char>>, full: Seq<char>)
    requires
        concat_all(gs) == full,
        forall|k: int| 0 <= k < gs.len() ==> (#[trigger] gs[k]).len() > 0,
        full.len() > 0,
        full.last() == '\n',
        plain_source(full.drop_last()),
    ensures
        forall|k: int| 0 <= k < gs.len() ==> plain_text(#[trigger] gs[k]),
        forall|k: int| 0 <= k < gs.len() - 1 ==> !rewritten_pair(#[trigger] gs[k], gs[k + 1]),
{
    let s = full.drop_last();
    assert forall|k: int| 0 <= k < gs.len() implies plain_text(#[trigger] gs[k]) by {
        lemma_concat_chars(gs, k);
        assert forall|i: int| 0 <= i < gs[k].len() implies #[trigger] gs[k][i] != '"' by {
            let p = concat_all(gs.take(k)).len() + i;
            assert(gs[k][i] == full[p]);
            if p < s.len() {
                assert(full[p] == s[p]);
            }
        }
    }
    assert forall|k: int| 0 <= k < gs.len() - 1 implies !rewritten_pair(#[trigger] gs[k], gs[k + 1]) by {
        reveal_strlit("/");
        reveal_strlit("*");
        reveal_strlit("~");
        reveal_strlit("=");
        if rewritten_pair(gs[k], gs[k + 1]) {
            lemma_concat_chars(gs, k);
            lemma_concat_chars(gs, k + 1);
            let p = concat_all(gs.take(k)).len() as int;
            assert(gs[k].len() == 1);
            assert(gs[k + 1].len() == 1);
            assert(gs[k][0] == full[p]);
            assert(gs[k + 1][0] == full[p + 1]);
            assert(p + 1 < full.len());
            if p + 1 < s.len() {
                assert(full[p] == s[p] && full[p + 1] == s[p + 1]);
            } else {
                assert(full[p + 1] == '\n');
            }
        }
    }
}

/// A text of white space only trims to nothing, and the other way round.
proof fn lemma_all_white_leading(s: Seq<char>)
    ensures
        all_white(s) <==> leading_white(s) == s.len(),
    decreases s.len(),
{
    if s.len() > 0 {
        lemma_all_white_leading(s.drop_first());
        if all_white(s) {
            assert(all_white(s.drop_first())) by {
                assert forall|k: int| 0 <= k < s.drop_first().len() implies white_space_char(#[trigger] s.drop_first()[k]) by {
                    assert(s.drop_first()[k] == s[k + 1]);
                }
            }
        }
        if leading_white(s) == s.len() {
            assert forall|k: int| 0 <= k < s.len() implies white_space_char(#[trigger] s[k]) by {
                if k > 0 {
                    assert(s[k] == s.drop_first()[k - 1]);
                }
            }
        }
    }
}

proof fn lemma_trailing_all(s: Seq<char>)
    ensures
        trailing_white(s) == s.len() ==> all_white(s),
    decreases s.len(),
{
    if s.len() > 0 && trailing_white(s) == s.len() {
        lemma_trailing_all(s.drop_last());
        assert forall|k: int| 0 <= k < s.len() implies white_space_char(#[trigger] s[k]) by {
            if k < s.len() - 1 {
                assert(s[k] == s.drop_last()[k]);
            }
        }
    }
}

proof fn lemma_trimmed_white(s: Seq<char>)
    ensures
        trimmed(s).len() == 0 <==> all_white(s),
{
    lemma_all_white_leading(s);
    let lw = leading_white(s);
    assert(lw <= s.len()) by {
        lemma_leading_le(s);
    }
    let t = s.skip(lw as int);
    lemma_trailing_le(t);
    if trimmed(s).len() == 0 {
        assert(trailing_white(t) == t.len());
        lemma_trailing_all(t);
        lemma_leading_prefix(s);
        assert forall|k: int| 0 <= k < s.len() implies white_space_char(#[trigger] s[k]) by {
            if k >= lw {
                assert(s[k] == t[k - lw]);
            }
        }
    }
}

proof fn lemma_leading_le(s: Seq<char>)
    ensures
        leading_white(s) <= s.len(),
    decreases s.len(),
{
    if s.len() > 0 {
        lemma_leading_le(s.drop_first());
    }
}

proof fn lemma_trailing_le(s: Seq<char>)
    ensures
        trailing_white(s) <= s.len(),
    decreases s.len(),
{
    if s.len() > 0 {
        lemma_trailing_le(s.drop_last());
    }
}

proof fn lemma_leading_prefix(s: Seq<char>)
    ensures
        forall|k: int| 0 <= k < leading_white(s) ==> white_space_char(#[trigger] s[k]),
    decreases s.len(),
{
    if s.len() > 0 && white_space_char(s[0]) {
        lemma_leading_prefix(s.drop_first());
        lemma_leading_le(s);
        assert forall|k: int| 0 <= k < leading_white(s) implies white_space_char(#[trigger] s[k]) by {
            if k > 0 {
                assert(s[k] == s.drop_first()[k - 1]);
            }
        }
    }
}

/// A source that trims to nothing is white space, newline added too.
pub proof fn lemma_blank_source(s: Seq<char>)
    ensures
        trimmed(s).len() == 0 ==> all_white(s + "\n"@),
{
    reveal_strlit("\n");
    lemma_trimmed_white(s);
    if trimmed(s).len() == 0 {
        assert(white_space_char('\n'));
        assert forall|k: int| 0 <= k < (s + "\n"@).len() implies white_space_char(#[trigger] (s + "\n"@)[k]) by {
            if k < s.len() {
                assert((s + "\n"@)[k] == s[k]);
            }
        }
    }
}

/// A source that does not trim to nothing is not white space, newline
/// added or not.
pub proof fn lemma_nonblank_source(s: Seq<char>)
    ensures
        trimmed(s).len() != 0 ==> !all_white(s + "\n"@),
{
    lemma_trimmed_white(s);
    if trimmed(s).len() != 0 && all_white(s + "\n"@) {
        assert forall|k: int| 0 <= k < s.len() implies white_space_char(#[trigger] s[k]) by {
            assert((s + "\n"@)[k] == s[k]);
        }
        assert(all_white(s));
    }
}

/// A boolean written out reads back: the text of a boolean value is a word
/// that the lexer takes whole (a run of letters) and marks as a literal,
/// which the parser types `bool` and whose value is that boolean.
pub proof fn law_boolean_text_reads_back(b: bool, position: PositionView)
    ensures
        ({
            let w = crate::value::display::value_text(crate::value::ValueView::Bool(b));
            let t = TokenView {
                value: w,
                type_: crate::lexer::word_type(w),
                position,
                categories: Seq::empty(),
                whitespace: Seq::empty(),
            };
            &&& alphabetic_text(w)
            &&& t.type_ == TokenType::LiteralMisc
            &&& crate::parser::literal_type_spec(t) == Some("bool"@)
            &&& crate::parser::literal_content_spec(t) == Some(w)
            &&& crate::value::methods::content_spec(crate::typeobj::named_type("bool"@), w) == Some(
                crate::value::ValueView::Bool(b),
            )
        }),
{
    reveal_strlit("true");
    reveal_strlit("false");
    reveal_strlit("bool");
    reveal_strlit("null");
    reveal_strlit("inf");
    reveal_strlit("undef");
    reveal_strlit("i8");
    reveal_strlit("i16");
    reveal_strlit("i32");
    reveal_strlit("i64");
    reveal_strlit("i128");
    reveal_strlit("isize");
    reveal_strlit("u8");
    reveal_strlit("u16");
    reveal_strlit("u32");
    reveal_strlit("u64");
    reveal_strlit("u128");
    reveal_strlit("usize");
    reveal_strlit("str");
    let w = crate::value::display::value_text(crate::value::ValueView::Bool(b));
    assert(w == crate::value::display::bool_text(b));
    if b {
        assert(w == "true"@);
    } else {
        assert(w == "false"@);
    }
    assert(forall|i: int| 0 <= i < w.len() ==> crate::lexer::alpha_char(#[trigger] w[i]));
    assert(alphabetic_text(w));
    assert(crate::lexer::word_type(w) == TokenType::LiteralMisc);
    let t = TokenView {
        value: w,
        type_: crate::lexer::word_type(w),
        position,
        categories: Seq::empty(),
        whitespace: Seq::empty(),
    };
    assert(crate::parser::literal_type_spec(t) == Some("bool"@));
    assert(crate::parser::literal_content_spec(t) == Some(w));
    assert("bool"@[0] == 'b');
    assert("i8"@[0] != 'b');
    assert("i16"@[0] != 'b');
    assert("i32"@[0] != 'b');
    assert("i64"@[0] != 'b');
    assert("i128"@[0] != 'b');
    assert("isize"@[0] != 'b');
    assert("u8"@[0] != 'b');
    assert("u16"@[0] != 'b');
    assert("u32"@[0] != 'b');
    assert("u64"@[0] != 'b');
    assert("u128"@[0] != 'b');
    assert("usize"@[0] != 'b');
    assert("str"@[0] != 'b');
    assert(crate::value::kind_of_name("bool"@) is None);
    assert("bool"@ != "str"@);
    assert((w == "true"@) == b);
    assert(crate::value::methods::content_spec(crate::typeobj::named_type("bool"@), w) == Some(
        crate::value::ValueView::Bool(b),
    ));
}

/// The words that the main lexer reads as keywords and boolean literals.
pub proof fn lemma_keyword_words()
    ensures
        crate::lexer::word_type("true"@) == TokenType::LiteralMisc,
        crate::lexer::word_type("false"@) == TokenType::LiteralMisc,
        crate::lexer::word_type("if"@) == TokenType::Keyword(crate::token::Keyword::If),
        crate::lexer::word_type("else"@) == TokenType::Keyword(crate::token::Keyword::Else),
        crate::lexer::word_type("elif"@) == TokenType::Keyword(crate::token::Keyword::Elif),
        crate::lexer::word_type("do"@) == TokenType::Keyword(crate::token::Keyword::Do),
        crate::lexer::word_type("while"@) == TokenType::Keyword(crate::token::Keyword::While),
        crate::lexer::word_type("for"@) == TokenType::Keyword(crate::token::Keyword::For),
        crate::lexer::word_type("del"@) == TokenType::Keyword(crate::token::Keyword::Delete),
        crate::lexer::word_type("ret"@) == TokenType::Keyword(crate::token::Keyword::Return),
        crate::lexer::word_type("proc"@) == TokenType::Keyword(crate::token::Keyword::Proc),
        crate::lexer::word_type("fn"@) == TokenType::Keyword(crate::token::Keyword::Fn),
{
    reveal_strlit("true");
    reveal_strlit("false");
    reveal_strlit("if");
    reveal_strlit("else");
    reveal_strlit("elif");
    reveal_strlit("do");
    reveal_strlit("while");
    reveal_strlit("for");
    reveal_strlit("del");
    reveal_strlit("ret");
    reveal_strlit("proc");
    reveal_strlit("fn");
    reveal_strlit("pre");
    reveal_strlit("defer");
    reveal_strlit("class");
    reveal_strlit("struct");
    assert("true"@.len() == 4 && "true"@[0] == 't' && "true"@[1] == 'r');
    assert("false"@.len() == 5 && "false"@[0] == 'f' && "false"@[1] == 'a');
    assert("if"@.len() == 2 && "if"@[0] == 'i' && "if"@[1] == 'f');
    assert("else"@.len() == 4 && "else"@[0] == 'e' && "else"@[1] == 'l' && "else"@[2] == 's');
    assert("elif"@.len() == 4 && "elif"@[0] == 'e' && "elif"@[1] == 'l' && "elif"@[2] == 'i');
    assert("do"@.len() == 2 && "do"@[0] == 'd' && "do"@[1] == 'o');
    assert("while"@.len() == 5 && "while"@[0] == 'w' && "while"@[1] == 'h');
    assert("for"@.len() == 3 && "for"@[0] == 'f' && "for"@[1] == 'o');
    assert("del"@.len() == 3 && "del"@[0] == 'd' && "del"@[1] == 'e');
    assert("ret"@.len() == 3 && "ret"@[0] == 'r' && "ret"@[1] == 'e');
    assert("proc"@.len() == 4 && "proc"@[0] == 'p' && "proc"@[1] == 'r');
    assert("fn"@.len() == 2 && "fn"@[0] == 'f' && "fn"@[1] == 'n');
    assert("pre"@.len() == 3 && "pre"@[0] == 'p' && "pre"@[1] == 'r');
    assert("defer"@.len() == 5 && "defer"@[0] == 'd' && "defer"@[1] == 'e');
    assert("class"@.len() == 5 && "class"@[0] == 'c' && "class"@[1] == 'l');
    assert("struct"@.len() == 6 && "struct"@[0] == 's' && "struct"@[1] == 't');
}

} // verus!
