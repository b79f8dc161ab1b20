use vstd::prelude::*;
use vstd::string::*;
use regex::Regex;
use unicode_segmentation::UnicodeSegmentation;
use crate::errors::{ZyxtError, error_2_1_1, internal_error};
use crate::position::{Position, PositionView};
use crate::text::{white_space_char, str_eq, trim_text, trimmed, push_char};
use crate::lexer_laws::{plain_source, all_white, spell, law_lex_keeps_the_text, lemma_plain_graphemes, lemma_blank_source, lemma_nonblank_source};
use crate::token::{Keyword, OprType, Side, Token, TokenType, TokenView, TokenCategory};
pub use crate::staged_lexer::old_lex;

verus! {

broadcast use vstd::std_specs::vec::group_vec_axioms;

// ----------------------------------------------------------------------
// Texts and their characters
// ----------------------------------------------------------------------

/// The views of a list of strings.
pub open spec fn strs_view(v: Seq<String>) -> Seq<Seq<char>> {
    v.map_values(|s: String| s@)
}

/// Texts joined one after the other.
pub open spec fn concat_all(gs: Seq<Seq<char>>) -> Seq<char>
    decreases gs.len(),
{
    if gs.len() == 0 {
        Seq::empty()
    } else {
        concat_all(gs.drop_last()) + gs.last()
    }
}

/// A letter of the Latin alphabet or `_`.
pub open spec fn alpha_char(c: char) -> bool {
    ('a' <= c && c <= 'z') || ('A' <= c && c <= 'Z') || c == '_'
}

/// A decimal digit.
pub open spec fn numeric_char(c: char) -> bool {
    '0' <= c && c <= '9'
}

/// A non-empty text of letters and `_` (the pattern `^[a-zA-Z_]+$`).
pub open spec fn alphabetic_text(g: Seq<char>) -> bool {
    g.len() > 0 && forall|i: int| 0 <= i < g.len() ==> alpha_char(#[trigger] g[i])
}

/// A non-empty text of letters, digits and `_` (the pattern `^[a-zA-Z0-9_]+$`).
pub open spec fn alphanumeric_text(g: Seq<char>) -> bool {
    g.len() > 0 && forall|i: int| 0 <= i < g.len() ==> (alpha_char(#[trigger] g[i]) || numeric_char(g[i]))
}

/// A non-empty text of digits (the pattern `^[0-9]+$`).
pub open spec fn numeric_text(g: Seq<char>) -> bool {
    g.len() > 0 && forall|i: int| 0 <= i < g.len() ==> numeric_char(#[trigger] g[i])
}

/// A non-empty text of white space (the pattern `^\s+$`).
pub open spec fn whitespace_text(g: Seq<char>) -> bool {
    g.len() > 0 && forall|i: int| 0 <= i < g.len() ==> white_space_char(#[trigger] g[i])
}

/// The extended grapheme clusters of a text, as `unicode-segmentation`
/// splits it (Unicode Standard Annex #29).
pub uninterp spec fn grapheme_clusters(s: Seq<char>) -> Seq<Seq<char>>;

/// `UnicodeSegmentation::graphemes(s, true)`, collected. The clusters are
/// named `grapheme_clusters`; the crate splits the text into them, so none
/// is empty and, joined, they give back the text. A line feed is a cluster
/// of its own unless a carriage return comes right before it (rules GB3 to
/// GB5 of the annex), so a text that ends in a line feed without one ends
/// with that cluster.
#[verifier::external_body]
fn graphemes_of(s: &str) -> (res: Vec<String>)
    ensures
        strs_view(res@) == grapheme_clusters(s@),
        forall|i: int| 0 <= i < res@.len() ==> (#[trigger] res@[i])@.len() > 0,
        concat_all(strs_view(res@)) == s@,
        s@.len() > 0 && s@.last() == '\n' && (s@.len() == 1 || s@[s@.len() - 2] != '\r') ==> res@.len() > 0
            && res@.last()@ == seq!['\n'],
{
    s.graphemes(true).map(|g| g.to_string()).collect()
}

/// `Regex::is_match` with the pattern `^[a-zA-Z0-9_]+$`: whether the text
/// is a non-empty run of ASCII letters, digits and `_`.
#[verifier::external_body]
fn is_alphanumeric(g: &str) -> (res: bool)
    ensures
        res == alphanumeric_text(g@),
{
    Regex::new(r"^[a-zA-Z0-9_]+$").unwrap().is_match(g)
}

/// `Regex::is_match` with the pattern `^[0-9]+$`: whether the text is a
/// non-empty run of ASCII digits.
#[verifier::external_body]
fn is_numeric(g: &str) -> (res: bool)
    ensures
        res == numeric_text(g@),
{
    Regex::new(r"^[0-9]+$").unwrap().is_match(g)
}

/// `Regex::is_match` with the pattern `^\s+$`: whether the text is a
/// non-empty run of characters with the Unicode White_Space property.
#[verifier::external_body]
fn is_whitespace(g: &str) -> (res: bool)
    ensures
        res == whitespace_text(g@),
{
    Regex::new(r"^\s+$").unwrap().is_match(g)
}

/// `Regex::is_match` with the pattern `^[a-zA-Z_]+$`: whether the text is
/// a non-empty run of ASCII letters and `_`.
#[verifier::external_body]
fn is_alphabetic(g: &str) -> (res: bool)
    ensures
        res == alphabetic_text(g@),
{
    Regex::new(r"^[a-zA-Z_]+$").unwrap().is_match(g)
}

// ----------------------------------------------------------------------
// Positions
// ----------------------------------------------------------------------

/// The position after one character.
pub open spec fn step_pos(p: PositionView, c: char) -> PositionView {
    if c == '\n' {
        PositionView { filename: p.filename, line: (p.line + 1) as u32, column: 1 }
    } else {
        PositionView { filename: p.filename, line: p.line, column: (p.column + 1) as u32 }
    }
}

/// The position after a text.
pub open spec fn advance(p: PositionView, s: Seq<char>) -> PositionView
    decreases s.len(),
{
    if s.len() == 0 {
        p
    } else {
        step_pos(advance(p, s.drop_last()), s.last())
    }
}

impl Position {
    /// Moves the position past a text, character by character.
    pub fn next_str(&mut self, s: &str)
        requires
            old(self).column >= 1,
            old(self).line + old(self).column + s@.len() < u32::MAX,
        ensures
            final(self)@ == advance(old(self)@, s@),
            final(self).line + final(self).column <= old(self).line + old(self).column + s@.len(),
            final(self).column >= 1,
    {
        let cs = crate::text::chars_of(s);
        let ghost p0 = self@;
        let mut k: usize = 0;
        while k < cs.len()
            invariant
                cs@ == s@,
                p0 == old(self)@,
                0 <= k <= cs@.len(),
                self@ == advance(p0, cs@.subrange(0, k as int)),
                self.line + self.column <= p0.line + p0.column + k,
                p0.line + p0.column + cs@.len() < u32::MAX,
                self.column >= 1,
            decreases cs@.len() - k,
        {
            let c = cs[k];
            proof {
                assert(cs@.subrange(0, k + 1).drop_last() =~= cs@.subrange(0, k as int));
                assert(cs@.subrange(0, k + 1).last() == c);
            }
            self.next(&c);
            k = k + 1;
        }
        proof {
            assert(cs@.subrange(0, cs@.len() as int) =~= cs@);
        }
    }
}

/// The position after a list of texts.
pub open spec fn end_pos(gs: Seq<Seq<char>>, p0: PositionView) -> PositionView
    decreases gs.len(),
{
    if gs.len() == 0 {
        p0
    } else {
        advance(end_pos(gs.drop_last(), p0), gs.last())
    }
}

/// Each text with the position where it starts, the first at `p0`.
pub open spec fn buffer_content(gs: Seq<Seq<char>>, p0: PositionView) -> Seq<(Seq<char>, PositionView)>
    decreases gs.len(),
{
    if gs.len() == 0 {
        Seq::empty()
    } else {
        buffer_content(gs.drop_last(), p0).push((gs.last(), end_pos(gs.drop_last(), p0)))
    }
}

proof fn lemma_concat_all_nonempty(gs: Seq<Seq<char>>)
    requires
        forall|i: int| 0 <= i < gs.len() ==> (#[trigger] gs[i]).len() > 0,
    ensures
        gs.len() <= concat_all(gs).len(),
    decreases gs.len(),
{
    if gs.len() > 0 {
        lemma_concat_all_nonempty(gs.drop_last());
    }
}

// ----------------------------------------------------------------------
// The buffer of graphemes
// ----------------------------------------------------------------------

/// The graphemes of a source, each with the position where it starts, and
/// how far they have been read.
pub struct Buffer {
    pub content: Vec<(String, Position)>,
    pub cursor: usize,
    pub started: bool,
}

impl Buffer {
    /// The graphemes with their positions, as plain values.
    pub open spec fn items(&self) -> Seq<(Seq<char>, PositionView)> {
        self.content@.map_values(|e: (String, Position)| (e.0@, e.1@))
    }

    /// The index of the next grapheme to read.
    pub open spec fn index(&self) -> int {
        if self.started {
            self.cursor + 1
        } else {
            0
        }
    }

    /// The buffer has fewer graphemes than a `u32` counts and has read at
    /// most one past its end.
    pub open spec fn wf(&self) -> bool {
        &&& self.content@.len() < u32::MAX
        &&& self.index() <= self.content@.len() + 1
        &&& (!self.started ==> self.cursor == 0)
    }

    /// The buffer of the given graphemes, the first at `pos`.
    pub fn from_graphemes(gs: Vec<String>, pos: Position) -> (res: Buffer)
        requires
            gs@.len() < u32::MAX,
            pos.column >= 1,
            pos.line + pos.column + concat_all(strs_view(gs@)).len() < u32::MAX,
        ensures
            res.wf(),
            res.index() == 0,
            res.items() == buffer_content(strs_view(gs@), pos@),
    {
        let ghost gv = strs_view(gs@);
        let mut content: Vec<(String, Position)> = Vec::new();
        let mut p = pos;
        let mut k: usize = 0;
        proof {
            assert(gv.subrange(0, 0) =~= Seq::<Seq<char>>::empty());
            assert(gv.subrange(0, gv.len() as int) =~= gv);
            assert(content@.map_values(|e: (String, Position)| (e.0@, e.1@)) =~= Seq::<(Seq<char>, PositionView)>::empty());
        }
        while k < gs.len()
            invariant
                gv == strs_view(gs@),
                0 <= k <= gs@.len(),
                gs@.len() < u32::MAX,
                p@ == end_pos(gv.subrange(0, k as int), pos@),
                p.line + p.column + concat_all(gv.subrange(k as int, gv.len() as int)).len() <= pos.line + pos.column + concat_all(gv).len(),
                pos.line + pos.column + concat_all(gv).len() < u32::MAX,
                p.column >= 1,
                content@.len() == k,
                content@.map_values(|e: (String, Position)| (e.0@, e.1@)) == buffer_content(gv.subrange(0, k as int), pos@),
            decreases gs@.len() - k,
        {
            let g = gs[k].clone();
            let here = p.clone();
            let ghost rest = gv.subrange(k as int, gv.len() as int);
            proof {
                lemma_concat_split(rest, 1);
                assert(rest.subrange(0, 1) =~= seq![gv[k as int]]);
                assert(rest.subrange(0, 1).drop_last() =~= Seq::<Seq<char>>::empty());
                assert(concat_all(Seq::<Seq<char>>::empty()) =~= Seq::<char>::empty());
                assert(rest.subrange(0, 1).last() == gv[k as int]);
                assert(Seq::<char>::empty() + gv[k as int] =~= gv[k as int]);
                assert(concat_all(rest.subrange(0, 1)) =~= gv[k as int]);
                assert(rest.subrange(1, rest.len() as int) =~= gv.subrange(k + 1, gv.len() as int));
            }
            p.next_str(g.as_str());
            content.push((g, here));
            proof {
                let sub = gv.subrange(0, k + 1);
                assert(sub.drop_last() =~= gv.subrange(0, k as int));
                assert(sub.last() == gv[k as int]);
                assert(content@.map_values(|e: (String, Position)| (e.0@, e.1@)) =~= buffer_content(sub, pos@));
            }
            k = k + 1;
        }
        proof {
            assert(gv.subrange(0, gv.len() as int) =~= gv);
        }
        Buffer { content, cursor: 0, started: false }
    }

    /// The buffer of a source's grapheme clusters, the first at `pos`.
    pub fn new(input: &String, pos: Position) -> (res: Buffer)
        requires
            pos.column >= 1,
            pos.line + pos.column + input@.len() < u32::MAX,
        ensures
            res.wf(),
            res.index() == 0,
            res.items() == buffer_content(grapheme_clusters(input@), pos@),
    {
        let gs = graphemes_of(input.as_str());
        proof {
            lemma_concat_all_nonempty(strs_view(gs@));
        }
        Buffer::from_graphemes(gs, pos)
    }

    /// Reads the next grapheme and its position, if there is one; once past
    /// the end, it stays there.
    pub fn next(&mut self) -> (res: Option<(String, Position)>)
        requires
            old(self).wf(),
        ensures
            final(self).wf(),
            final(self).content == old(self).content,
            final(self).index() == if old(self).index() <= old(self).content@.len() {
                old(self).index() + 1
            } else {
                old(self).index()
            },
            if old(self).index() < old(self).items().len() {
                res matches Some(r) && (r.0@, r.1@) == old(self).items()[old(self).index()]
            } else {
                res is None
            },
    {
        if self.started {
            if self.cursor < self.content.len() {
                self.cursor = self.cursor + 1;
            }
        } else {
            self.started = true;
        }
        if self.cursor < self.content.len() {
            let (g, p) = &self.content[self.cursor];
            Some((g.clone(), p.clone()))
        } else {
            None
        }
    }

    /// The next grapheme and its position, if there is one, without reading it.
    pub fn peek(&self) -> (res: Option<(String, Position)>)
        ensures
            if 0 <= self.index() < self.items().len() {
                res matches Some(r) && (r.0@, r.1@) == self.items()[self.index()]
            } else {
                res is None
            },
    {
        let i: usize = if self.started {
            if self.cursor >= self.content.len() {
                return None;
            }
            self.cursor + 1
        } else {
            0
        };
        if i < self.content.len() {
            let (g, p) = &self.content[i];
            Some((g.clone(), p.clone()))
        } else {
            None
        }
    }
}

/// The length of texts joined, split at an index.
pub(crate) proof fn lemma_concat_split(gs: Seq<Seq<char>>, k: int)
    requires
        0 <= k <= gs.len(),
    ensures
        concat_all(gs) == concat_all(gs.subrange(0, k)) + concat_all(gs.subrange(k, gs.len() as int)),
    decreases gs.len(),
{
    if k == gs.len() {
        assert(gs.subrange(0, k) =~= gs);
        assert(gs.subrange(k, gs.len() as int) =~= Seq::<Seq<char>>::empty());
        assert(concat_all(gs) + Seq::<char>::empty() =~= concat_all(gs));
    } else {
        lemma_concat_split(gs.drop_last(), k);
        assert(gs.drop_last().subrange(0, k) =~= gs.subrange(0, k));
        assert(gs.subrange(k, gs.len() as int).drop_last() =~= gs.drop_last().subrange(k, gs.len() - 1));
        assert(gs.subrange(k, gs.len() as int).last() == gs.last());
        assert(concat_all(gs) =~= concat_all(gs.subrange(0, k)) + concat_all(gs.subrange(k, gs.len() as int)));
    }
}


// ----------------------------------------------------------------------
// What the lexer produces
// ----------------------------------------------------------------------

/// The modes of the lexer: the main mode, and one for each kind of token
/// that spans several graphemes.
#[derive(Clone, Copy, Debug, PartialEq, Eq, Structural)]
pub enum LexerState {
    Main,
    TextLiteral,
    Word,
    Number,
    LineComment,
    BlockComment,
    Whitespace,
}

/// Why lexing failed: a grapheme that starts no token, at its position, or
/// a state the lexer was never finished for (an internal error).
pub enum LexError {
    Unknown(Seq<char>, PositionView),
    Internal,
}

/// One run of a mode of the lexer: the mode it hands over to (none at the
/// end of the input), the index of the next grapheme, and the tokens so far.
pub struct LexStep {
    pub outcome: Result<Option<LexerState>, LexError>,
    pub index: int,
    pub tokens: Seq<TokenView>,
}

/// A token as the lexer first makes it: no categories, no whitespace.
pub open spec fn raw_token(value: Seq<char>, type_: TokenType, position: PositionView) -> TokenView {
    TokenView { value, type_, position, categories: Seq::empty(), whitespace: Seq::empty() }
}

/// The grapheme after the one at `i`, if there is one.
pub open spec fn next_text(c: Seq<(Seq<char>, PositionView)>, i: int) -> Option<Seq<char>> {
    if 0 <= i + 1 < c.len() {
        Some(c[i + 1].0)
    } else {
        None
    }
}

/// What an operator grapheme, and the one after it, make.
pub enum OprLex {
    /// A token of the type and value, taking one or two graphemes.
    Token(TokenType, Seq<char>, int),
    /// `/*`: a block comment starts.
    BlockComment,
    /// `//`: a line comment starts.
    LineComment,
    /// `*/` outside a comment, which the lexer does not handle.
    Unfinished,
    /// A grapheme that starts no token.
    Unknown,
}

/// The token an operator grapheme `g` starts, given the grapheme `n` after
/// it: a two-grapheme operator where `g` and `n` form one, else `g` alone.
pub open spec fn opr_lex(g: Seq<char>, n: Option<Seq<char>>) -> OprLex {
    let eq = n == Some("="@);
    if g == "+"@ {
        if eq {
            OprLex::Token(TokenType::AssignmentOpr(OprType::Plus), "+="@, 2)
        } else if n == Some("+"@) {
            OprLex::Token(TokenType::UnaryOpr(OprType::Increment, Side::Right), "++"@, 2)
        } else if n == Some("-"@) {
            OprLex::Token(TokenType::NormalOpr(OprType::PlusMinus), "+-"@, 2)
        } else {
            OprLex::Token(TokenType::NormalOpr(OprType::Plus), "+"@, 1)
        }
    } else if g == "-"@ {
        if eq {
            OprLex::Token(TokenType::AssignmentOpr(OprType::Minus), "-="@, 2)
        } else if n == Some("-"@) {
            OprLex::Token(TokenType::UnaryOpr(OprType::Decrement, Side::Right), "--"@, 2)
        } else if n == Some("+"@) {
            OprLex::Token(TokenType::NormalOpr(OprType::MinusPlus), "-+"@, 2)
        } else {
            OprLex::Token(TokenType::NormalOpr(OprType::Minus), "-"@, 1)
        }
    } else if g == "*"@ {
        if eq {
            OprLex::Token(TokenType::AssignmentOpr(OprType::AstMult), "*="@, 2)
        } else if n == Some("/"@) {
            OprLex::Unfinished
        } else {
            OprLex::Token(TokenType::NormalOpr(OprType::AstMult), "*"@, 1)
        }
    } else if g == "/"@ {
        if eq {
            OprLex::Token(TokenType::AssignmentOpr(OprType::FractDiv), "/="@, 2)
        } else if n == Some("*"@) {
            OprLex::BlockComment
        } else if n == Some("/"@) {
            OprLex::LineComment
        } else {
            OprLex::Token(TokenType::NormalOpr(OprType::FractDiv), "/"@, 1)
        }
    } else if g == "^"@ {
        if eq {
            OprLex::Token(TokenType::AssignmentOpr(OprType::Power), "^="@, 2)
        } else {
            OprLex::Token(TokenType::NormalOpr(OprType::Power), "^"@, 1)
        }
    } else if g == "%"@ {
        if eq {
            OprLex::Token(TokenType::AssignmentOpr(OprType::Modulo), "%="@, 2)
        } else {
            OprLex::Token(TokenType::NormalOpr(OprType::Modulo), "%"@, 1)
        }
    } else if g == "~"@ {
        if eq {
            OprLex::Token(TokenType::AssignmentOpr(OprType::Concat), "~"@, 2)
        } else {
            OprLex::Token(TokenType::NormalOpr(OprType::Concat), "~"@, 1)
        }
    } else if g == "@"@ {
        OprLex::Token(TokenType::NormalOpr(OprType::TypeCast), "@"@, 1)
    } else if g == "="@ {
        if eq {
            OprLex::Token(TokenType::NormalOpr(OprType::Eq), "=="@, 2)
        } else {
            OprLex::Token(TokenType::AssignmentOpr(OprType::Null), "="@, 1)
        }
    } else if g == "!"@ {
        if eq {
            OprLex::Token(TokenType::NormalOpr(OprType::Noteq), "!="@, 2)
        } else {
            OprLex::Token(TokenType::UnaryOpr(OprType::Not, Side::Left), "!"@, 1)
        }
    } else if g == ">"@ {
        if eq {
            OprLex::Token(TokenType::NormalOpr(OprType::Gteq), ">="@, 2)
        } else if n == Some("<"@) {
            OprLex::Token(TokenType::NormalOpr(OprType::Swap), "><"@, 2)
        } else {
            OprLex::Token(TokenType::NormalOpr(OprType::Gt), ">"@, 1)
        }
    } else if g == "<"@ {
        if eq {
            OprLex::Token(TokenType::NormalOpr(OprType::Lteq), "<="@, 2)
        } else {
            OprLex::Token(TokenType::NormalOpr(OprType::Lt), "<"@, 1)
        }
    } else if g == "&"@ {
        if n == Some("&"@) {
            OprLex::Token(TokenType::NormalOpr(OprType::And), "&&"@, 2)
        } else {
            OprLex::Token(TokenType::UnaryOpr(OprType::Ref, Side::Left), "&"@, 1)
        }
    } else if g == "|"@ {
        if n == Some("|"@) {
            OprLex::Token(TokenType::NormalOpr(OprType::Or), "||"@, 2)
        } else {
            OprLex::Token(TokenType::Bar, "|"@, 1)
        }
    } else if g == "."@ {
        OprLex::Token(TokenType::DotOpr, "."@, 1)
    } else if g == ":"@ {
        if eq {
            OprLex::Token(TokenType::DeclarationOpr, ":="@, 2)
        } else {
            OprLex::Token(TokenType::Colon, ":"@, 1)
        }
    } else if g == ";"@ {
        OprLex::Token(TokenType::StatementEnd, ";"@, 1)
    } else if g == ","@ {
        OprLex::Token(TokenType::Comma, ","@, 1)
    } else if g == "("@ {
        OprLex::Token(TokenType::OpenParen, "("@, 1)
    } else if g == "["@ {
        OprLex::Token(TokenType::OpenSquareParen, "["@, 1)
    } else if g == "{"@ {
        OprLex::Token(TokenType::OpenCurlyParen, "{"@, 1)
    } else if g == ")"@ {
        OprLex::Token(TokenType::CloseParen, ")"@, 1)
    } else if g == "]"@ {
        OprLex::Token(TokenType::CloseSquareParen, "]"@, 1)
    } else if g == "}"@ {
        OprLex::Token(TokenType::CloseCurlyParen, "}"@, 1)
    } else {
        OprLex::Unknown
    }
}

/// The main mode from the grapheme at `i`: a grapheme that starts a longer
/// token hands over to its mode without reading it; an operator or a
/// bracket becomes a token; `/*` and `//` become a comment token and hand
/// over to the comment's mode; the end of the input ends lexing.
pub open spec fn main_step(c: Seq<(Seq<char>, PositionView)>, i: int, toks: Seq<TokenView>) -> LexStep
    decreases c.len() - i,
{
    if i < 0 || i >= c.len() {
        LexStep { outcome: Ok(None), index: i, tokens: toks }
    } else {
        let g = c[i].0;
        let p = c[i].1;
        if g == "\""@ {
            LexStep { outcome: Ok(Some(LexerState::TextLiteral)), index: i, tokens: toks }
        } else if alphabetic_text(g) {
            LexStep { outcome: Ok(Some(LexerState::Word)), index: i, tokens: toks }
        } else if whitespace_text(g) {
            LexStep { outcome: Ok(Some(LexerState::Whitespace)), index: i, tokens: toks }
        } else if numeric_text(g) {
            LexStep { outcome: Ok(Some(LexerState::Number)), index: i, tokens: toks }
        } else {
            match opr_lex(g, next_text(c, i)) {
                OprLex::Token(ty, v, n) => if n >= 1 {
                    main_step(c, i + n, toks.push(raw_token(v, ty, p)))
                } else {
                    LexStep { outcome: Err(LexError::Internal), index: i, tokens: toks }
                },
                OprLex::BlockComment => LexStep {
                    outcome: Ok(Some(LexerState::BlockComment)),
                    index: i + 2,
                    tokens: toks.push(raw_token("/*"@, TokenType::Comment, p)),
                },
                OprLex::LineComment => LexStep {
                    outcome: Ok(Some(LexerState::LineComment)),
                    index: i + 2,
                    tokens: toks.push(raw_token("//"@, TokenType::Comment, p)),
                },
                OprLex::Unfinished => LexStep { outcome: Err(LexError::Internal), index: i, tokens: toks },
                OprLex::Unknown => LexStep { outcome: Err(LexError::Unknown(g, p)), index: i, tokens: toks },
            }
        }
    }
}

/// What an escape in a text literal stands for: `\"`, `\\`, `\n`, `\r`
/// and `\t` as usual; any other keeps its backslash.
pub open spec fn escape_text(e: Seq<char>) -> Seq<char> {
    if e == "\""@ {
        "\""@
    } else if e == "\\"@ {
        "\\"@
    } else if e == "n"@ {
        "\n"@
    } else if e == "r"@ {
        "\r"@
    } else if e == "t"@ {
        "\t"@
    } else {
        "\\"@ + e
    }
}

/// A text literal from the grapheme at `j`, `raw` read so far: a quote
/// ends it, a backslash escapes the next grapheme.
pub open spec fn text_loop(c: Seq<(Seq<char>, PositionView)>, j: int, raw: Seq<char>, pos: PositionView, toks: Seq<TokenView>) -> LexStep
    decreases c.len() - j,
{
    if j < 0 || j >= c.len() {
        LexStep { outcome: Ok(None), index: j, tokens: toks }
    } else {
        let g = c[j].0;
        if g == "\""@ {
            LexStep {
                outcome: Ok(Some(LexerState::Main)),
                index: j + 1,
                tokens: toks.push(raw_token(raw + "\""@, TokenType::LiteralString, pos)),
            }
        } else if g == "\\"@ {
            if j + 1 >= c.len() {
                LexStep { outcome: Err(LexError::Internal), index: j, tokens: toks }
            } else {
                text_loop(c, j + 2, raw + escape_text(c[j + 1].0), pos, toks)
            }
        } else {
            text_loop(c, j + 1, raw + g, pos, toks)
        }
    }
}

/// The text-literal mode at the opening quote `i`: the token starts at the
/// grapheme after the quote.
pub open spec fn text_step(c: Seq<(Seq<char>, PositionView)>, i: int, toks: Seq<TokenView>) -> LexStep {
    if i < 0 || i + 1 >= c.len() {
        LexStep { outcome: Err(LexError::Internal), index: i, tokens: toks }
    } else {
        text_loop(c, i + 1, "\""@, c[i + 1].1, toks)
    }
}

/// The type of a word: `true` and `false` are literals, keywords are
/// keywords, any other word is a variable.
pub open spec fn word_type(v: Seq<char>) -> TokenType {
    if v == "true"@ || v == "false"@ {
        TokenType::LiteralMisc
    } else if v == "if"@ {
        TokenType::Keyword(Keyword::If)
    } else if v == "else"@ {
        TokenType::Keyword(Keyword::Else)
    } else if v == "elif"@ {
        TokenType::Keyword(Keyword::Elif)
    } else if v == "do"@ {
        TokenType::Keyword(Keyword::Do)
    } else if v == "while"@ {
        TokenType::Keyword(Keyword::While)
    } else if v == "for"@ {
        TokenType::Keyword(Keyword::For)
    } else if v == "del"@ {
        TokenType::Keyword(Keyword::Delete)
    } else if v == "ret"@ {
        TokenType::Keyword(Keyword::Return)
    } else if v == "proc"@ {
        TokenType::Keyword(Keyword::Proc)
    } else if v == "fn"@ {
        TokenType::Keyword(Keyword::Fn)
    } else if v == "pre"@ {
        TokenType::Keyword(Keyword::Pre)
    } else if v == "defer"@ {
        TokenType::Keyword(Keyword::Defer)
    } else if v == "class"@ {
        TokenType::Keyword(Keyword::Class)
    } else if v == "struct"@ {
        TokenType::Keyword(Keyword::Struct)
    } else {
        TokenType::Variable
    }
}

/// A word from the grapheme at `j`: letters, digits and `_` up to the
/// first grapheme that is none of them.
pub open spec fn word_loop(c: Seq<(Seq<char>, PositionView)>, j: int, raw: Seq<char>, pos: PositionView, toks: Seq<TokenView>) -> LexStep
    decreases c.len() - j,
{
    if j < 0 || j >= c.len() {
        LexStep { outcome: Ok(None), index: j, tokens: toks }
    } else if alphanumeric_text(c[j].0) {
        word_loop(c, j + 1, raw + c[j].0, pos, toks)
    } else {
        LexStep {
            outcome: Ok(Some(LexerState::Main)),
            index: j,
            tokens: toks.push(raw_token(raw, word_type(raw), pos)),
        }
    }
}

/// A number from the grapheme at `j`: digits and at most one `.`.
pub open spec fn number_loop(c: Seq<(Seq<char>, PositionView)>, j: int, raw: Seq<char>, dotted: bool, pos: PositionView, toks: Seq<TokenView>) -> LexStep
    decreases c.len() - j,
{
    if j < 0 || j >= c.len() {
        LexStep { outcome: Ok(None), index: j, tokens: toks }
    } else if numeric_text(c[j].0) {
        number_loop(c, j + 1, raw + c[j].0, dotted, pos, toks)
    } else if c[j].0 == "."@ && !dotted {
        number_loop(c, j + 1, raw + c[j].0, true, pos, toks)
    } else {
        LexStep {
            outcome: Ok(Some(LexerState::Main)),
            index: j,
            tokens: toks.push(raw_token(raw, TokenType::LiteralNumber, pos)),
        }
    }
}

/// White space from the grapheme at `j`.
pub open spec fn ws_loop(c: Seq<(Seq<char>, PositionView)>, j: int, raw: Seq<char>, pos: PositionView, toks: Seq<TokenView>) -> LexStep
    decreases c.len() - j,
{
    if j < 0 || j >= c.len() {
        LexStep { outcome: Ok(None), index: j, tokens: toks }
    } else if whitespace_text(c[j].0) {
        ws_loop(c, j + 1, raw + c[j].0, pos, toks)
    } else {
        LexStep {
            outcome: Ok(Some(LexerState::Main)),
            index: j,
            tokens: toks.push(raw_token(raw, TokenType::Whitespace, pos)),
        }
    }
}

/// The tokens with a text added to the value of the last one.
pub open spec fn append_last(toks: Seq<TokenView>, s: Seq<char>) -> Seq<TokenView> {
    if toks.len() == 0 {
        toks
    } else {
        toks.update(toks.len() - 1, TokenView { value: toks.last().value + s, ..toks.last() })
    }
}

/// A line comment from the grapheme at `j`: everything up to and with the
/// next newline grapheme goes into the comment token.
pub open spec fn line_loop(c: Seq<(Seq<char>, PositionView)>, j: int, raw: Seq<char>, toks: Seq<TokenView>) -> LexStep
    decreases c.len() - j,
{
    if j < 0 || j >= c.len() {
        LexStep { outcome: Ok(None), index: j, tokens: toks }
    } else if c[j].0 == "\n"@ {
        LexStep {
            outcome: Ok(Some(LexerState::Main)),
            index: j + 1,
            tokens: append_last(toks, raw + c[j].0),
        }
    } else {
        line_loop(c, j + 1, raw + c[j].0, toks)
    }
}

/// A block comment from the grapheme at `j`, nested `depth` deep: `*/`
/// closes one level and `/*` opens one, each time adding what was read to
/// the comment token. As the lexer reads it, a `*` or `/` is kept twice,
/// with the grapheme after it, and any other grapheme twice; the closing
/// `/` is dropped. The input ending inside a nested comment, or after a
/// `*` or `/`, is an internal error.
pub open spec fn block_loop(c: Seq<(Seq<char>, PositionView)>, j: int, depth: nat, raw: Seq<char>, toks: Seq<TokenView>) -> LexStep
    decreases c.len() - j,
{
    if j < 0 || j >= c.len() {
        if depth <= 1 {
            LexStep { outcome: Ok(None), index: j, tokens: toks }
        } else {
            LexStep { outcome: Err(LexError::Internal), index: j, tokens: toks }
        }
    } else {
        let g = c[j].0;
        let raw1 = raw + g;
        if g == "*"@ || g == "/"@ {
            let raw2 = raw1 + g;
            if j + 1 >= c.len() {
                LexStep { outcome: Err(LexError::Internal), index: j, tokens: toks }
            } else {
                let n = c[j + 1].0;
                if g == "*"@ && n == "/"@ {
                    let t2 = append_last(toks, raw2);
                    if depth <= 1 {
                        LexStep { outcome: Ok(Some(LexerState::Main)), index: j + 2, tokens: t2 }
                    } else {
                        block_loop(c, j + 2, (depth - 1) as nat, Seq::empty(), t2)
                    }
                } else if g == "/"@ && n == "*"@ {
                    block_loop(c, j + 2, depth + 1, Seq::empty(), append_last(toks, raw2))
                } else {
                    block_loop(c, j + 2, depth, raw2 + n, toks)
                }
            }
        } else {
            block_loop(c, j + 1, depth, raw1 + g, toks)
        }
    }
}

/// One run of a mode of the lexer from the grapheme at `i`.
pub open spec fn lex_step(state: LexerState, c: Seq<(Seq<char>, PositionView)>, i: int, toks: Seq<TokenView>) -> LexStep {
    match state {
        LexerState::Main => main_step(c, i, toks),
        LexerState::TextLiteral => text_step(c, i, toks),
        LexerState::Word => if 0 <= i < c.len() {
            word_loop(c, i, Seq::empty(), c[i].1, toks)
        } else {
            LexStep { outcome: Err(LexError::Internal), index: i, tokens: toks }
        },
        LexerState::Number => if 0 <= i < c.len() {
            number_loop(c, i, Seq::empty(), false, c[i].1, toks)
        } else {
            LexStep { outcome: Err(LexError::Internal), index: i, tokens: toks }
        },
        LexerState::Whitespace => if 0 <= i < c.len() {
            ws_loop(c, i, Seq::empty(), c[i].1, toks)
        } else {
            LexStep { outcome: Ok(None), index: i, tokens: toks }
        },
        LexerState::LineComment => line_loop(c, i, Seq::empty(), toks),
        LexerState::BlockComment => block_loop(c, i, 1, Seq::empty(), toks),
    }
}

/// The rank of a mode in the order in which the lexer runs them: the main
/// mode hands over without reading.
pub open spec fn state_rank(s: LexerState) -> nat {
    if s == LexerState::Main {
        1
    } else {
        0
    }
}

/// Whether a run of a mode reads forward: every mode but the main one
/// reads at least one grapheme before it hands over, the main mode hands
/// over only to another mode, and none reads past the end.
pub open spec fn step_progresses(state: LexerState, c: Seq<(Seq<char>, PositionView)>, i: int, st: LexStep) -> bool {
    st.outcome matches Ok(Some(s)) ==> {
        &&& i <= st.index <= c.len()
        &&& (st.index == i ==> state == LexerState::Main && s != LexerState::Main)
    }
}

/// The tokens lexing gives from mode `state` at the grapheme `i`, the
/// tokens so far being `toks`, or why it failed.
pub open spec fn run_lexer(state: LexerState, c: Seq<(Seq<char>, PositionView)>, i: int, toks: Seq<TokenView>) -> Result<Seq<TokenView>, LexError>
    decreases c.len() - i, state_rank(state),
{
    let st = lex_step(state, c, i, toks);
    match st.outcome {
        Err(e) => Err(e),
        Ok(None) => Ok(st.tokens),
        Ok(Some(s)) => if step_progresses(state, c, i, st) && (state == LexerState::Main
            || s == LexerState::Main) {
            run_lexer(s, c, st.index, st.tokens)
        } else {
            Err(LexError::Internal)
        },
    }
}

/// The tokens without the white-space ones, each given the white space
/// that came right before it; `stack` is the white space read so far.
pub open spec fn clean_from(toks: Seq<TokenView>, i: int, stack: Seq<char>) -> Seq<TokenView>
    decreases toks.len() - i,
{
    if i < 0 || i >= toks.len() {
        Seq::empty()
    } else if toks[i].type_ == TokenType::Whitespace {
        clean_from(toks, i + 1, stack + toks[i].value)
    } else {
        seq![TokenView { whitespace: stack, ..toks[i] }] + clean_from(toks, i + 1, Seq::empty())
    }
}

/// The tokens of a list of graphemes from the file of the given name.
pub open spec fn lex_spec(gs: Seq<Seq<char>>, filename: Seq<char>) -> Result<Seq<TokenView>, LexError> {
    let c = buffer_content(gs, PositionView { filename, line: 1, column: 1 });
    match run_lexer(LexerState::Main, c, 0, Seq::empty()) {
        Ok(t) => Ok(clean_from(t, 0, Seq::empty())),
        Err(e) => Err(e),
    }
}

/// No white-space token is left once white space is moved onto the tokens
/// after it.
pub proof fn law_clean_drops_whitespace(toks: Seq<TokenView>, i: int, stack: Seq<char>)
    ensures
        forall|j: int| 0 <= j < clean_from(toks, i, stack).len() ==> (#[trigger] clean_from(toks, i, stack)[j]).type_
            != TokenType::Whitespace,
    decreases toks.len() - i,
{
    if i < 0 || i >= toks.len() {
    } else if toks[i].type_ == TokenType::Whitespace {
        law_clean_drops_whitespace(toks, i + 1, stack + toks[i].value);
    } else {
        law_clean_drops_whitespace(toks, i + 1, Seq::empty());
        let rest = clean_from(toks, i + 1, Seq::empty());
        let all = clean_from(toks, i, stack);
        assert forall|j: int| 0 <= j < all.len() implies (#[trigger] all[j]).type_ != TokenType::Whitespace by {
            if j > 0 {
                assert(all[j] == rest[j - 1]);
            }
        }
    }
}

/// The lexer gives no white-space token.
pub proof fn law_lex_has_no_whitespace_tokens(gs: Seq<Seq<char>>, filename: Seq<char>)
    ensures
        lex_spec(gs, filename) matches Ok(t) ==> forall|j: int| 0 <= j < t.len() ==> (#[trigger] t[j]).type_
            != TokenType::Whitespace,
{
    let c = buffer_content(gs, PositionView { filename, line: 1, column: 1 });
    match run_lexer(LexerState::Main, c, 0, Seq::empty()) {
        Ok(t) => {
            law_clean_drops_whitespace(t, 0, Seq::empty());
        },
        Err(_) => {},
    }
}

/// Whether the grapheme at `i` is one the mode can start at.
pub open spec fn state_ready(state: LexerState, c: Seq<(Seq<char>, PositionView)>, i: int) -> bool {
    match state {
        LexerState::Word => 0 <= i < c.len() && alphanumeric_text(c[i].0),
        LexerState::Number => 0 <= i < c.len() && numeric_text(c[i].0),
        LexerState::Whitespace => 0 <= i < c.len() && whitespace_text(c[i].0),
        _ => 0 <= i <= c.len(),
    }
}

proof fn lemma_main_ready(c: Seq<(Seq<char>, PositionView)>, i: int, toks: Seq<TokenView>)
    requires
        0 <= i,
    ensures
        main_step(c, i, toks).outcome matches Ok(Some(s)) ==> s != LexerState::Main && i
            <= main_step(c, i, toks).index <= c.len() && state_ready(s, c, main_step(c, i, toks).index),
    decreases c.len() - i,
{
    if 0 <= i < c.len() {
        let g = c[i].0;
        if g != "\""@ && !alphabetic_text(g) && !whitespace_text(g) && !numeric_text(g) {
            match opr_lex(g, next_text(c, i)) {
                OprLex::Token(ty, v, n) => if n >= 1 {
                    lemma_main_ready(c, i + n, toks.push(raw_token(v, ty, c[i].1)));
                },
                _ => {},
            }
        }
    }
}

proof fn lemma_text_loop(c: Seq<(Seq<char>, PositionView)>, j: int, raw: Seq<char>, pos: PositionView, toks: Seq<TokenView>)
    requires
        0 <= j,
    ensures
        text_loop(c, j, raw, pos, toks).outcome matches Ok(Some(s)) ==> s == LexerState::Main && j
            < text_loop(c, j, raw, pos, toks).index <= c.len(),
    decreases c.len() - j,
{
    if 0 <= j < c.len() {
        let g = c[j].0;
        if g == "\\"@ && j + 1 < c.len() {
            lemma_text_loop(c, j + 2, raw + escape_text(c[j + 1].0), pos, toks);
        } else if g != "\""@ && g != "\\"@ {
            lemma_text_loop(c, j + 1, raw + g, pos, toks);
        }
    }
}

proof fn lemma_word_loop(c: Seq<(Seq<char>, PositionView)>, j: int, raw: Seq<char>, pos: PositionView, toks: Seq<TokenView>)
    requires
        0 <= j,
    ensures
        word_loop(c, j, raw, pos, toks).outcome matches Ok(Some(s)) ==> s == LexerState::Main && j
            <= word_loop(c, j, raw, pos, toks).index <= c.len(),
        word_loop(c, j, raw, pos, toks).outcome matches Ok(Some(s)) && j < c.len()
            && alphanumeric_text(c[j].0) ==> j < word_loop(c, j, raw, pos, toks).index,
    decreases c.len() - j,
{
    if 0 <= j < c.len() && alphanumeric_text(c[j].0) {
        lemma_word_loop(c, j + 1, raw + c[j].0, pos, toks);
    }
}

proof fn lemma_number_loop(c: Seq<(Seq<char>, PositionView)>, j: int, raw: Seq<char>, dotted: bool, pos: PositionView, toks: Seq<TokenView>)
    requires
        0 <= j,
    ensures
        number_loop(c, j, raw, dotted, pos, toks).outcome matches Ok(Some(s)) ==> s == LexerState::Main && j
            <= number_loop(c, j, raw, dotted, pos, toks).index <= c.len(),
        number_loop(c, j, raw, dotted, pos, toks).outcome matches Ok(Some(s)) && j < c.len()
            && numeric_text(c[j].0) ==> j < number_loop(c, j, raw, dotted, pos, toks).index,
    decreases c.len() - j,
{
    if 0 <= j < c.len() {
        if numeric_text(c[j].0) {
            lemma_number_loop(c, j + 1, raw + c[j].0, dotted, pos, toks);
        } else if c[j].0 == "."@ && !dotted {
            lemma_number_loop(c, j + 1, raw + c[j].0, true, pos, toks);
        }
    }
}

proof fn lemma_ws_loop(c: Seq<(Seq<char>, PositionView)>, j: int, raw: Seq<char>, pos: PositionView, toks: Seq<TokenView>)
    requires
        0 <= j,
    ensures
        ws_loop(c, j, raw, pos, toks).outcome matches Ok(Some(s)) ==> s == LexerState::Main && j
            <= ws_loop(c, j, raw, pos, toks).index <= c.len(),
        ws_loop(c, j, raw, pos, toks).outcome matches Ok(Some(s)) && j < c.len()
            && whitespace_text(c[j].0) ==> j < ws_loop(c, j, raw, pos, toks).index,
    decreases c.len() - j,
{
    if 0 <= j < c.len() && whitespace_text(c[j].0) {
        lemma_ws_loop(c, j + 1, raw + c[j].0, pos, toks);
    }
}

proof fn lemma_line_loop(c: Seq<(Seq<char>, PositionView)>, j: int, raw: Seq<char>, toks: Seq<TokenView>)
    requires
        0 <= j,
    ensures
        line_loop(c, j, raw, toks).outcome matches Ok(Some(s)) ==> s == LexerState::Main && j
            < line_loop(c, j, raw, toks).index <= c.len(),
    decreases c.len() - j,
{
    if 0 <= j < c.len() && c[j].0 != "\n"@ {
        lemma_line_loop(c, j + 1, raw + c[j].0, toks);
    }
}

proof fn lemma_block_loop(c: Seq<(Seq<char>, PositionView)>, j: int, depth: nat, raw: Seq<char>, toks: Seq<TokenView>)
    requires
        0 <= j,
    ensures
        block_loop(c, j, depth, raw, toks).outcome matches Ok(Some(s)) ==> s == LexerState::Main && j
            < block_loop(c, j, depth, raw, toks).index <= c.len(),
    decreases c.len() - j,
{
    if 0 <= j < c.len() {
        let g = c[j].0;
        let raw1 = raw + g;
        if g == "*"@ || g == "/"@ {
            let raw2 = raw1 + g;
            if j + 1 < c.len() {
                let n = c[j + 1].0;
                if g == "*"@ && n == "/"@ {
                    if depth > 1 {
                        lemma_block_loop(c, j + 2, (depth - 1) as nat, Seq::empty(), append_last(toks, raw2));
                    }
                } else if g == "/"@ && n == "*"@ {
                    lemma_block_loop(c, j + 2, depth + 1, Seq::empty(), append_last(toks, raw2));
                } else {
                    lemma_block_loop(c, j + 2, depth, raw2 + n, toks);
                }
            }
        } else {
            lemma_block_loop(c, j + 1, depth, raw1 + g, toks);
        }
    }
}

/// A run of a mode from a grapheme it can start at reads forward and, but
/// for the main mode, hands back to the main mode.
proof fn lemma_step_progress(state: LexerState, c: Seq<(Seq<char>, PositionView)>, i: int, toks: Seq<TokenView>)
    requires
        0 <= i,
        state_ready(state, c, i),
    ensures
        step_progresses(state, c, i, lex_step(state, c, i, toks)),
        lex_step(state, c, i, toks).outcome matches Ok(Some(s)) ==> (state == LexerState::Main
            || s == LexerState::Main) && state_ready(s, c, lex_step(state, c, i, toks).index),
{
    match state {
        LexerState::Main => lemma_main_ready(c, i, toks),
        LexerState::TextLiteral => if i + 1 < c.len() {
            lemma_text_loop(c, i + 1, "\""@, c[i + 1].1, toks);
        },
        LexerState::Word => lemma_word_loop(c, i, Seq::empty(), c[i].1, toks),
        LexerState::Number => lemma_number_loop(c, i, Seq::empty(), false, c[i].1, toks),
        LexerState::Whitespace => lemma_ws_loop(c, i, Seq::empty(), c[i].1, toks),
        LexerState::LineComment => lemma_line_loop(c, i, Seq::empty(), toks),
        LexerState::BlockComment => lemma_block_loop(c, i, 1, Seq::empty(), toks),
    }
}

/// What an operator grapheme and the one after it make (see `OprLex`).
pub enum OprScan {
    Token(TokenType, &'static str, usize),
    BlockComment,
    LineComment,
    Unfinished,
    Unknown,
}

/// The plain-value view of what an operator grapheme makes.
pub open spec fn opr_scan_view(s: OprScan) -> OprLex {
    match s {
        OprScan::Token(t, v, n) => OprLex::Token(t, v@, n as int),
        OprScan::BlockComment => OprLex::BlockComment,
        OprScan::LineComment => OprLex::LineComment,
        OprScan::Unfinished => OprLex::Unfinished,
        OprScan::Unknown => OprLex::Unknown,
    }
}

/// The view of an optional text.
pub open spec fn opt_text(n: Option<&str>) -> Option<Seq<char>> {
    match n {
        Some(x) => Some(x@),
        None => None,
    }
}

/// Whether the optional text is the given one.
fn is_next(n: Option<&str>, s: &str) -> (res: bool)
    ensures
        res == (opt_text(n) == Some(s@)),
{
    match n {
        Some(x) => str_eq(x, s),
        None => false,
    }
}

/// What an operator grapheme `g` and the grapheme `n` after it make (see `opr_lex`).
fn scan_operator(g: &str, n: Option<&str>) -> (res: OprScan)
    ensures
        opr_scan_view(res) == opr_lex(g@, opt_text(n)),
{
    if str_eq(g, "+") {
        if is_next(n, "=") {
            OprScan::Token(TokenType::AssignmentOpr(OprType::Plus), "+=", 2)
        } else if is_next(n, "+") {
            OprScan::Token(TokenType::UnaryOpr(OprType::Increment, Side::Right), "++", 2)
        } else if is_next(n, "-") {
            OprScan::Token(TokenType::NormalOpr(OprType::PlusMinus), "+-", 2)
        } else {
            OprScan::Token(TokenType::NormalOpr(OprType::Plus), "+", 1)
        }
    } else if str_eq(g, "-") {
        if is_next(n, "=") {
            OprScan::Token(TokenType::AssignmentOpr(OprType::Minus), "-=", 2)
        } else if is_next(n, "-") {
            OprScan::Token(TokenType::UnaryOpr(OprType::Decrement, Side::Right), "--", 2)
        } else if is_next(n, "+") {
            OprScan::Token(TokenType::NormalOpr(OprType::MinusPlus), "-+", 2)
        } else {
            OprScan::Token(TokenType::NormalOpr(OprType::Minus), "-", 1)
        }
    } else if str_eq(g, "*") {
        if is_next(n, "=") {
            OprScan::Token(TokenType::AssignmentOpr(OprType::AstMult), "*=", 2)
        } else if is_next(n, "/") {
            OprScan::Unfinished
        } else {
            OprScan::Token(TokenType::NormalOpr(OprType::AstMult), "*", 1)
        }
    } else if str_eq(g, "/") {
        if is_next(n, "=") {
            OprScan::Token(TokenType::AssignmentOpr(OprType::FractDiv), "/=", 2)
        } else if is_next(n, "*") {
            OprScan::BlockComment
        } else if is_next(n, "/") {
            OprScan::LineComment
        } else {
            OprScan::Token(TokenType::NormalOpr(OprType::FractDiv), "/", 1)
        }
    } else if str_eq(g, "^") {
        if is_next(n, "=") {
            OprScan::Token(TokenType::AssignmentOpr(OprType::Power), "^=", 2)
        } else {
            OprScan::Token(TokenType::NormalOpr(OprType::Power), "^", 1)
        }
    } else if str_eq(g, "%") {
        if is_next(n, "=") {
            OprScan::Token(TokenType::AssignmentOpr(OprType::Modulo), "%=", 2)
        } else {
            OprScan::Token(TokenType::NormalOpr(OprType::Modulo), "%", 1)
        }
    } else if str_eq(g, "~") {
        if is_next(n, "=") {
            OprScan::Token(TokenType::AssignmentOpr(OprType::Concat), "~", 2)
        } else {
            OprScan::Token(TokenType::NormalOpr(OprType::Concat), "~", 1)
        }
    } else if str_eq(g, "@") {
        OprScan::Token(TokenType::NormalOpr(OprType::TypeCast), "@", 1)
    } else if str_eq(g, "=") {
        if is_next(n, "=") {
            OprScan::Token(TokenType::NormalOpr(OprType::Eq), "==", 2)
        } else {
            OprScan::Token(TokenType::AssignmentOpr(OprType::Null), "=", 1)
        }
    } else if str_eq(g, "!") {
        if is_next(n, "=") {
            OprScan::Token(TokenType::NormalOpr(OprType::Noteq), "!=", 2)
        } else {
            OprScan::Token(TokenType::UnaryOpr(OprType::Not, Side::Left), "!", 1)
        }
    } else if str_eq(g, ">") {
        if is_next(n, "=") {
            OprScan::Token(TokenType::NormalOpr(OprType::Gteq), ">=", 2)
        } else if is_next(n, "<") {
            OprScan::Token(TokenType::NormalOpr(OprType::Swap), "><", 2)
        } else {
            OprScan::Token(TokenType::NormalOpr(OprType::Gt), ">", 1)
        }
    } else if str_eq(g, "<") {
        if is_next(n, "=") {
            OprScan::Token(TokenType::NormalOpr(OprType::Lteq), "<=", 2)
        } else {
            OprScan::Token(TokenType::NormalOpr(OprType::Lt), "<", 1)
        }
    } else if str_eq(g, "&") {
        if is_next(n, "&") {
            OprScan::Token(TokenType::NormalOpr(OprType::And), "&&", 2)
        } else {
            OprScan::Token(TokenType::UnaryOpr(OprType::Ref, Side::Left), "&", 1)
        }
    } else if str_eq(g, "|") {
        if is_next(n, "|") {
            OprScan::Token(TokenType::NormalOpr(OprType::Or), "||", 2)
        } else {
            OprScan::Token(TokenType::Bar, "|", 1)
        }
    } else if str_eq(g, ".") {
        OprScan::Token(TokenType::DotOpr, ".", 1)
    } else if str_eq(g, ":") {
        if is_next(n, "=") {
            OprScan::Token(TokenType::DeclarationOpr, ":=", 2)
        } else {
            OprScan::Token(TokenType::Colon, ":", 1)
        }
    } else if str_eq(g, ";") {
        OprScan::Token(TokenType::StatementEnd, ";", 1)
    } else if str_eq(g, ",") {
        OprScan::Token(TokenType::Comma, ",", 1)
    } else if str_eq(g, "(") {
        OprScan::Token(TokenType::OpenParen, "(", 1)
    } else if str_eq(g, "[") {
        OprScan::Token(TokenType::OpenSquareParen, "[", 1)
    } else if str_eq(g, "{") {
        OprScan::Token(TokenType::OpenCurlyParen, "{", 1)
    } else if str_eq(g, ")") {
        OprScan::Token(TokenType::CloseParen, ")", 1)
    } else if str_eq(g, "]") {
        OprScan::Token(TokenType::CloseSquareParen, "]", 1)
    } else if str_eq(g, "}") {
        OprScan::Token(TokenType::CloseCurlyParen, "}", 1)
    } else {
        OprScan::Unknown
    }
}

/// The tokens as plain values.
pub open spec fn toks_view(t: Seq<Token>) -> Seq<TokenView> {
    t.map_values(|x: Token| x@)
}

/// Whether an error is the one a lexing error stands for: error 2.1.1 at
/// the grapheme for an unknown grapheme, error 0.0 for an internal one.
pub open spec fn lex_err_is(e: LexError, z: ZyxtError) -> bool {
    match e {
        LexError::Unknown(g, p) => {
            &&& z.code@ == "2.1.1"@
            &&& z.message@ == "Ident `"@ + g + "` not recognised by lexer"@
            &&& (z.position matches Some(q) && q@ == p)
            &&& z.raw@ == g
        },
        LexError::Internal => z.code@ == "0.0"@,
    }
}

/// Whether a run of a mode went as the step says: the same hand-over, the
/// same tokens and, when it hands over, the same next grapheme.
pub open spec fn step_done(st: LexStep, res: Result<Option<LexerState>, ZyxtError>, b: Buffer, t: Seq<Token>) -> bool {
    match st.outcome {
        Ok(Some(s)) => (res matches Ok(Some(s2)) && s2 == s) && b.index() == st.index && toks_view(t)
            == st.tokens,
        Ok(None) => (res matches Ok(None)) && toks_view(t) == st.tokens,
        Err(e) => res matches Err(z) && lex_err_is(e, z),
    }
}

/// A token as the lexer first makes it (see `raw_token`).
fn make_token(value: String, type_: TokenType, position: Position) -> (res: Token)
    ensures
        res@ == raw_token(value@, type_, position@),
{
    let res = Token { value, type_, position, categories: &[], whitespace: String::new() };
    proof {
        assert(res.categories@ =~= Seq::<TokenCategory>::empty());
        assert(res.whitespace@ =~= Seq::<char>::empty());
    }
    res
}

/// Adds a token at the end.
fn push_token(tokens: &mut Vec<Token>, t: Token)
    ensures
        toks_view(final(tokens)@) == toks_view(old(tokens)@).push(t@),
{
    tokens.push(t);
    proof {
        assert(toks_view(tokens@) =~= toks_view(old(tokens)@).push(t@));
    }
}

/// Adds a text to the value of the last token, if there is one.
fn append_to_last(tokens: &mut Vec<Token>, s: &str)
    ensures
        toks_view(final(tokens)@) == append_last(toks_view(old(tokens)@), s@),
{
    if tokens.len() > 0 {
        let last = tokens.len() - 1;
        let mut t = tokens[last].clone();
        t.value.append(s);
        tokens.set(last, t);
        proof {
            assert(toks_view(tokens@) =~= append_last(toks_view(old(tokens)@), s@));
        }
    } else {
        proof {
            assert(toks_view(tokens@) =~= toks_view(old(tokens)@));
        }
    }
}

/// What an escape stands for (see `escape_text`).
fn escape_of(e: &str) -> (res: String)
    ensures
        res@ == escape_text(e@),
{
    if str_eq(e, "\"") {
        String::from_str("\"")
    } else if str_eq(e, "\\") {
        String::from_str("\\")
    } else if str_eq(e, "n") {
        String::from_str("\n")
    } else if str_eq(e, "r") {
        String::from_str("\r")
    } else if str_eq(e, "t") {
        String::from_str("\t")
    } else {
        let mut s = String::from_str("\\");
        s.append(e);
        s
    }
}

/// The type of a word (see `word_type`).
fn word_type_of(v: &str) -> (res: TokenType)
    ensures
        res == word_type(v@),
{
    if str_eq(v, "true") || str_eq(v, "false") {
        TokenType::LiteralMisc
    } else if str_eq(v, "if") {
        TokenType::Keyword(Keyword::If)
    } else if str_eq(v, "else") {
        TokenType::Keyword(Keyword::Else)
    } else if str_eq(v, "elif") {
        TokenType::Keyword(Keyword::Elif)
    } else if str_eq(v, "do") {
        TokenType::Keyword(Keyword::Do)
    } else if str_eq(v, "while") {
        TokenType::Keyword(Keyword::While)
    } else if str_eq(v, "for") {
        TokenType::Keyword(Keyword::For)
    } else if str_eq(v, "del") {
        TokenType::Keyword(Keyword::Delete)
    } else if str_eq(v, "ret") {
        TokenType::Keyword(Keyword::Return)
    } else if str_eq(v, "proc") {
        TokenType::Keyword(Keyword::Proc)
    } else if str_eq(v, "fn") {
        TokenType::Keyword(Keyword::Fn)
    } else if str_eq(v, "pre") {
        TokenType::Keyword(Keyword::Pre)
    } else if str_eq(v, "defer") {
        TokenType::Keyword(Keyword::Defer)
    } else if str_eq(v, "class") {
        TokenType::Keyword(Keyword::Class)
    } else if str_eq(v, "struct") {
        TokenType::Keyword(Keyword::Struct)
    } else {
        TokenType::Variable
    }
}

/// The main mode (see `main_step`).
fn lex_main(iter: &mut Buffer, tokens: &mut Vec<Token>) -> (res: Result<Option<LexerState>, ZyxtError>)
    requires
        old(iter).wf(),
        0 <= old(iter).index() <= old(iter).items().len(),
    ensures
        final(iter).wf(),
        final(iter).items() == old(iter).items(),
        step_done(main_step(old(iter).items(), old(iter).index(), toks_view(old(tokens)@)), res, *final(iter), final(tokens)@),
{
    let ghost c = iter.items();
    let ghost i0 = iter.index();
    let ghost t0 = toks_view(tokens@);
    loop
        invariant
            iter.wf(),
            iter.items() == c,
            c == old(iter).items(),
            i0 == old(iter).index(),
            t0 == toks_view(old(tokens)@),
            0 <= iter.index() <= c.len(),
            main_step(c, iter.index(), toks_view(tokens@)) == main_step(c, i0, t0),
        decreases c.len() - iter.index(),
    {
        let peeked = iter.peek();
        let (g, pos) = match peeked {
            None => {
                return Ok(None);
            },
            Some(x) => x,
        };
        if str_eq(g.as_str(), "\"") {
            return Ok(Some(LexerState::TextLiteral));
        } else if is_alphabetic(g.as_str()) {
            return Ok(Some(LexerState::Word));
        } else if is_whitespace(g.as_str()) {
            return Ok(Some(LexerState::Whitespace));
        } else if is_numeric(g.as_str()) {
            return Ok(Some(LexerState::Number));
        }
        let ghost i = iter.index();
        let _ = iter.next();
        let nxt = iter.peek();
        let scan = match &nxt {
            Some((ns, _)) => scan_operator(g.as_str(), Some(ns.as_str())),
            None => scan_operator(g.as_str(), None),
        };
        match scan {
            OprScan::Token(ty, v, n) => {
                if n == 2 {
                    let _ = iter.next();
                }
                push_token(tokens, make_token(String::from_str(v), ty, pos));
            },
            OprScan::BlockComment => {
                let _ = iter.next();
                push_token(tokens, make_token(String::from_str("/*"), TokenType::Comment, pos));
                return Ok(Some(LexerState::BlockComment));
            },
            OprScan::LineComment => {
                let _ = iter.next();
                push_token(tokens, make_token(String::from_str("//"), TokenType::Comment, pos));
                return Ok(Some(LexerState::LineComment));
            },
            OprScan::Unfinished => {
                return Err(internal_error("`*/` outside a comment"));
            },
            OprScan::Unknown => {
                let raw = g.clone();
                return Err(error_2_1_1(g).with_pos_and_raw(&pos, &raw));
            },
        }
    }
}


/// The text-literal mode (see `text_step`).
fn lex_text_literal(iter: &mut Buffer, tokens: &mut Vec<Token>) -> (res: Result<Option<LexerState>, ZyxtError>)
    requires
        old(iter).wf(),
        0 <= old(iter).index() <= old(iter).items().len(),
    ensures
        final(iter).wf(),
        final(iter).items() == old(iter).items(),
        step_done(text_step(old(iter).items(), old(iter).index(), toks_view(old(tokens)@)), res, *final(iter), final(tokens)@),
{
    let ghost c = iter.items();
    let ghost i0 = iter.index();
    let ghost t0 = toks_view(tokens@);
    let _ = iter.next();
    let mut raw = String::from_str("\"");
    let pos = match iter.peek() {
        Some((_, p)) => p,
        None => {
            return Err(internal_error("text literal at the end of the input"));
        },
    };
    loop
        invariant
            iter.wf(),
            iter.items() == c,
            c == old(iter).items(),
            i0 == old(iter).index(),
            t0 == toks_view(old(tokens)@),
            t0 == toks_view(tokens@),
            0 <= i0 < c.len(),
            0 <= iter.index() <= c.len(),
            text_loop(c, iter.index(), raw@, pos@, t0) == text_step(c, i0, t0),
        decreases c.len() - iter.index(),
    {
        let nx = iter.next();
        match nx {
            None => {
                return Ok(None);
            },
            Some((g, _)) => {
                if str_eq(g.as_str(), "\"") {
                    raw.append("\"");
                    push_token(tokens, make_token(raw, TokenType::LiteralString, pos));
                    return Ok(Some(LexerState::Main));
                } else if str_eq(g.as_str(), "\\") {
                    match iter.next() {
                        Some((e, _)) => {
                            let esc = escape_of(e.as_str());
                            raw.append(esc.as_str());
                        },
                        None => {
                            return Err(internal_error("escape at the end of the input"));
                        },
                    }
                } else {
                    raw.append(g.as_str());
                }
            },
        }
    }
}

/// The word mode (see `word_loop`).
fn lex_word(iter: &mut Buffer, tokens: &mut Vec<Token>) -> (res: Result<Option<LexerState>, ZyxtError>)
    requires
        old(iter).wf(),
        0 <= old(iter).index() <= old(iter).items().len(),
    ensures
        final(iter).wf(),
        final(iter).items() == old(iter).items(),
        step_done(lex_step(LexerState::Word, old(iter).items(), old(iter).index(), toks_view(old(tokens)@)), res, *final(iter), final(tokens)@),
{
    let ghost c = iter.items();
    let ghost i0 = iter.index();
    let ghost t0 = toks_view(tokens@);
    let mut raw = String::new();
    let pos = match iter.peek() {
        Some((_, p)) => p,
        None => {
            return Err(internal_error("word at the end of the input"));
        },
    };
    loop
        invariant
            iter.wf(),
            iter.items() == c,
            c == old(iter).items(),
            i0 == old(iter).index(),
            t0 == toks_view(old(tokens)@),
            t0 == toks_view(tokens@),
            0 <= i0 < c.len(),
            i0 <= iter.index() <= c.len(),
            word_loop(c, iter.index(), raw@, pos@, t0) == lex_step(LexerState::Word, c, i0, t0),
        decreases c.len() - iter.index(),
    {
        match iter.peek() {
            None => {
                return Ok(None);
            },
            Some((g, _)) => {
                if is_alphanumeric(g.as_str()) {
                    raw.append(g.as_str());
                    let _ = iter.next();
                } else {
                    let ty = word_type_of(raw.as_str());
                    push_token(tokens, make_token(raw, ty, pos));
                    return Ok(Some(LexerState::Main));
                }
            },
        }
    }
}

/// The number mode (see `number_loop`).
fn lex_number(iter: &mut Buffer, tokens: &mut Vec<Token>) -> (res: Result<Option<LexerState>, ZyxtError>)
    requires
        old(iter).wf(),
        0 <= old(iter).index() <= old(iter).items().len(),
    ensures
        final(iter).wf(),
        final(iter).items() == old(iter).items(),
        step_done(lex_step(LexerState::Number, old(iter).items(), old(iter).index(), toks_view(old(tokens)@)), res, *final(iter), final(tokens)@),
{
    let ghost c = iter.items();
    let ghost i0 = iter.index();
    let ghost t0 = toks_view(tokens@);
    let mut raw = String::new();
    let mut dotted = false;
    let pos = match iter.peek() {
        Some((_, p)) => p,
        None => {
            return Err(internal_error("number at the end of the input"));
        },
    };
    loop
        invariant
            iter.wf(),
            iter.items() == c,
            c == old(iter).items(),
            i0 == old(iter).index(),
            t0 == toks_view(old(tokens)@),
            t0 == toks_view(tokens@),
            0 <= i0 < c.len(),
            i0 <= iter.index() <= c.len(),
            number_loop(c, iter.index(), raw@, dotted, pos@, t0) == lex_step(LexerState::Number, c, i0, t0),
        decreases c.len() - iter.index(),
    {
        match iter.peek() {
            None => {
                return Ok(None);
            },
            Some((g, _)) => {
                if is_numeric(g.as_str()) {
                    raw.append(g.as_str());
                    let _ = iter.next();
                } else if str_eq(g.as_str(), ".") && !dotted {
                    dotted = true;
                    raw.append(g.as_str());
                    let _ = iter.next();
                } else {
                    push_token(tokens, make_token(raw, TokenType::LiteralNumber, pos));
                    return Ok(Some(LexerState::Main));
                }
            },
        }
    }
}

/// The white-space mode (see `ws_loop`).
fn lex_whitespace(iter: &mut Buffer, tokens: &mut Vec<Token>) -> (res: Result<Option<LexerState>, ZyxtError>)
    requires
        old(iter).wf(),
        0 <= old(iter).index() <= old(iter).items().len(),
    ensures
        final(iter).wf(),
        final(iter).items() == old(iter).items(),
        step_done(lex_step(LexerState::Whitespace, old(iter).items(), old(iter).index(), toks_view(old(tokens)@)), res, *final(iter), final(tokens)@),
{
    let ghost c = iter.items();
    let ghost i0 = iter.index();
    let ghost t0 = toks_view(tokens@);
    let mut raw = String::new();
    let pos = match iter.peek() {
        Some((_, p)) => p,
        None => {
            return Ok(None);
        },
    };
    loop
        invariant
            iter.wf(),
            iter.items() == c,
            c == old(iter).items(),
            i0 == old(iter).index(),
            t0 == toks_view(old(tokens)@),
            t0 == toks_view(tokens@),
            0 <= i0 < c.len(),
            i0 <= iter.index() <= c.len(),
            ws_loop(c, iter.index(), raw@, pos@, t0) == lex_step(LexerState::Whitespace, c, i0, t0),
        decreases c.len() - iter.index(),
    {
        match iter.peek() {
            None => {
                return Ok(None);
            },
            Some((g, _)) => {
                if is_whitespace(g.as_str()) {
                    raw.append(g.as_str());
                    let _ = iter.next();
                } else {
                    push_token(tokens, make_token(raw, TokenType::Whitespace, pos));
                    return Ok(Some(LexerState::Main));
                }
            },
        }
    }
}

/// The line-comment mode (see `line_loop`).
fn lex_line_comment(iter: &mut Buffer, tokens: &mut Vec<Token>) -> (res: Result<Option<LexerState>, ZyxtError>)
    requires
        old(iter).wf(),
        0 <= old(iter).index() <= old(iter).items().len(),
    ensures
        final(iter).wf(),
        final(iter).items() == old(iter).items(),
        step_done(lex_step(LexerState::LineComment, old(iter).items(), old(iter).index(), toks_view(old(tokens)@)), res, *final(iter), final(tokens)@),
{
    let ghost c = iter.items();
    let ghost i0 = iter.index();
    let ghost t0 = toks_view(tokens@);
    let mut raw = String::new();
    loop
        invariant
            iter.wf(),
            iter.items() == c,
            c == old(iter).items(),
            i0 == old(iter).index(),
            t0 == toks_view(old(tokens)@),
            t0 == toks_view(tokens@),
            0 <= i0 <= iter.index() <= c.len(),
            line_loop(c, iter.index(), raw@, t0) == lex_step(LexerState::LineComment, c, i0, t0),
        decreases c.len() - iter.index(),
    {
        match iter.next() {
            None => {
                return Ok(None);
            },
            Some((g, _)) => {
                raw.append(g.as_str());
                if str_eq(g.as_str(), "\n") {
                    append_to_last(tokens, raw.as_str());
                    return Ok(Some(LexerState::Main));
                }
            },
        }
    }
}

/// The block-comment mode (see `block_loop`).
fn lex_block_comment(iter: &mut Buffer, tokens: &mut Vec<Token>) -> (res: Result<Option<LexerState>, ZyxtError>)
    requires
        old(iter).wf(),
        0 <= old(iter).index() <= old(iter).items().len(),
    ensures
        final(iter).wf(),
        final(iter).items() == old(iter).items(),
        step_done(lex_step(LexerState::BlockComment, old(iter).items(), old(iter).index(), toks_view(old(tokens)@)), res, *final(iter), final(tokens)@),
{
    let ghost c = iter.items();
    let ghost i0 = iter.index();
    let ghost t0 = toks_view(tokens@);
    let mut raw = String::new();
    let mut depth: usize = 1;
    loop
        invariant
            iter.wf(),
            iter.items() == c,
            c == old(iter).items(),
            i0 == old(iter).index(),
            t0 == toks_view(old(tokens)@),
            0 <= i0 <= iter.index() <= c.len(),
            1 <= depth <= iter.index() + 1,
            block_loop(c, iter.index(), depth as nat, raw@, toks_view(tokens@)) == lex_step(LexerState::BlockComment, c, i0, t0),
        decreases c.len() - iter.index(),
    {
        match iter.next() {
            None => {
                if depth == 1 {
                    return Ok(None);
                } else {
                    return Err(internal_error("block comment not closed"));
                }
            },
            Some((g, _)) => {
                raw.append(g.as_str());
                let star = str_eq(g.as_str(), "*");
                let slash = str_eq(g.as_str(), "/");
                if star || slash {
                    raw.append(g.as_str());
                    match iter.next() {
                        None => {
                            return Err(internal_error("comment marker at the end of the input"));
                        },
                        Some((n, _)) => {
                            if star && str_eq(n.as_str(), "/") {
                                append_to_last(tokens, raw.as_str());
                                if depth == 1 {
                                    return Ok(Some(LexerState::Main));
                                }
                                depth = depth - 1;
                                raw = String::new();
                            } else if slash && str_eq(n.as_str(), "*") {
                                append_to_last(tokens, raw.as_str());
                                depth = depth + 1;
                                raw = String::new();
                            } else {
                                raw.append(n.as_str());
                            }
                        },
                    }
                } else {
                    raw.append(g.as_str());
                }
            },
        }
    }
}

/// Drops the white-space tokens, giving each other token the white space
/// that came right before it (see `clean_from`).
pub fn clean_whitespaces(input: Vec<Token>) -> (res: Vec<Token>)
    ensures
        toks_view(res@) == clean_from(toks_view(input@), 0, Seq::empty()),
{
    let ghost v = toks_view(input@);
    let mut out: Vec<Token> = Vec::new();
    let mut stack = String::new();
    let mut i: usize = 0;
    proof {
        assert(toks_view(out@) =~= Seq::<TokenView>::empty());
        assert(Seq::<TokenView>::empty() + clean_from(v, 0, Seq::empty()) =~= clean_from(v, 0, Seq::empty()));
    }
    while i < input.len()
        invariant
            v == toks_view(input@),
            v.len() == input@.len(),
            0 <= i <= input@.len(),
            clean_from(v, 0, Seq::empty()) == toks_view(out@) + clean_from(v, i as int, stack@),
        decreases input@.len() - i,
    {
        let t = &input[i];
        if t.type_ != TokenType::Whitespace {
            let mut t2 = t.clone();
            t2.whitespace = stack;
            stack = String::new();
            let ghost before = toks_view(out@);
            out.push(t2);
            proof {
                assert(toks_view(out@) =~= before.push(t2@));
                assert(t2@ == TokenView { whitespace: t2.whitespace@, ..v[i as int] });
                assert(toks_view(out@) + clean_from(v, i + 1, Seq::empty()) =~= before + (seq![t2@] + clean_from(v, i + 1, Seq::empty())));
            }
        } else {
            stack.append(t.value.as_str());
        }
        i = i + 1;
    }
    out
}

/// The tokens of a list of graphemes from the file of the given name (see
/// `lex_spec`), or error 2.1.1 at a grapheme that starts no token.
pub fn lex_graphemes(graphemes: Vec<String>, filename: &str) -> (res: Result<Vec<Token>, ZyxtError>)
    requires
        graphemes@.len() < u32::MAX,
        2 + concat_all(strs_view(graphemes@)).len() < u32::MAX,
    ensures
        match lex_spec(strs_view(graphemes@), filename@) {
            Ok(t) => res matches Ok(v) && toks_view(v@) == t,
            Err(e) => res matches Err(z) && lex_err_is(e, z),
        },
{
    let pos = Position::start_of(filename);
    let ghost p0 = pos@;
    let ghost gv = strs_view(graphemes@);
    let mut iter = Buffer::from_graphemes(graphemes, pos);
    let ghost c = iter.items();
    let mut tokens: Vec<Token> = Vec::new();
    let mut state = LexerState::Main;
    proof {
        assert(toks_view(tokens@) =~= Seq::<TokenView>::empty());
        assert(p0 == PositionView { filename: filename@, line: 1, column: 1 });
    }
    loop
        invariant
            iter.wf(),
            iter.items() == c,
            0 <= iter.index() <= c.len(),
            state_ready(state, c, iter.index()),
            run_lexer(state, c, iter.index(), toks_view(tokens@)) == run_lexer(LexerState::Main, c, 0, Seq::empty()),
            gv == strs_view(graphemes@),
            lex_spec(gv, filename@) == match run_lexer(LexerState::Main, c, 0, Seq::empty()) {
                Ok(t) => Ok(clean_from(t, 0, Seq::empty())),
                Err(e) => Err(e),
            },
        decreases c.len() - iter.index(), state_rank(state),
    {
        let ghost i = iter.index();
        let ghost t = toks_view(tokens@);
        proof {
            lemma_step_progress(state, c, i, t);
        }
        let r = match state {
            LexerState::Main => lex_main(&mut iter, &mut tokens),
            LexerState::TextLiteral => lex_text_literal(&mut iter, &mut tokens),
            LexerState::Word => lex_word(&mut iter, &mut tokens),
            LexerState::Number => lex_number(&mut iter, &mut tokens),
            LexerState::LineComment => lex_line_comment(&mut iter, &mut tokens),
            LexerState::BlockComment => lex_block_comment(&mut iter, &mut tokens),
            LexerState::Whitespace => lex_whitespace(&mut iter, &mut tokens),
        };
        match r {
            Err(e) => {
                return Err(e);
            },
            Ok(None) => {
                return Ok(clean_whitespaces(tokens));
            },
            Ok(Some(s)) => {
                state = s;
            },
        }
    }
}

/// The tokens of a source from the file of the given name: none for a
/// source of white space only; otherwise those of the source's grapheme
/// clusters, a newline added at its end (see `lex_graphemes`).
pub fn lex(preinput: String, filename: &str) -> (res: Result<Vec<Token>, ZyxtError>)
    requires
        preinput@.len() + 4 < u32::MAX,
    ensures
        trimmed(preinput@).len() == 0 ==> (res matches Ok(v) && v@.len() == 0),
        trimmed(preinput@).len() != 0 ==> (match lex_spec(grapheme_clusters(preinput@ + "\n"@), filename@) {
            Ok(t) => res matches Ok(v) && toks_view(v@) == t,
            Err(e) => res matches Err(z) && lex_err_is(e, z),
        }),
        plain_source(preinput@) ==> (res matches Ok(v) ==> {
            &&& exists|w: Seq<char>| all_white(w) && spell(toks_view(v@)) + w == preinput@ + "\n"@
            &&& (v@.len() == 0 <==> trimmed(preinput@).len() == 0)
        }),
{
    let ghost src = preinput@;
    let t = trim_text(preinput.as_str());
    if t.as_str().is_empty() {
        proof {
            reveal_strlit("\n");
            lemma_blank_source(src);
            assert(spell(toks_view(Seq::<Token>::empty())) =~= Seq::<char>::empty());
            assert(toks_view(Seq::<Token>::empty()) =~= Seq::<TokenView>::empty());
            assert(Seq::<char>::empty() + (src + "\n"@) =~= src + "\n"@);
        }
        return Ok(Vec::new());
    }
    let mut input = preinput;
    input.append("\n");
    let gs = graphemes_of(input.as_str());
    proof {
        reveal_strlit("\n");
        lemma_concat_all_nonempty(strs_view(gs@));
    }
    let res = lex_graphemes(gs, filename);
    proof {
        if plain_source(src) {
            let gv = strs_view(gs@);
            let full = src + "\n"@;
            assert(full.last() == '\n');
            assert(full.len() == 1 || full[full.len() - 2] != '\r');
            assert(gv.last() == "\n"@);
            lemma_plain_graphemes(gv, full);
            law_lex_keeps_the_text(gv, filename@);
            lemma_nonblank_source(src);
        }
    }
    res
}

} // verus!
