use vstd::prelude::*;
use crate::token::{Flag, Keyword, OprType, Side, TokenCategory, TokenType};

verus! {

/// One token of a compound token, matched from the end of the compound
/// backwards (see `is_match`).
#[derive(Clone, Copy, Debug)]
pub enum Pattern {
    /// Any number of tokens of the type (of any type for `Null`).
    Vartokens(TokenType),
    /// A token of the type (of any type for `Null`) with exactly this text.
    Value(TokenType, &'static str),
    /// A token of the type (of any type for `Null`).
    Token(TokenType),
    /// A token of the type (of any type for `Null`) whose text the regular
    /// expression matches.
    Re(TokenType, &'static str),
}

impl Pattern {
    /// The type of token the pattern wants.
    pub open spec fn spec_token_type(self) -> TokenType {
        match self {
            Pattern::Vartokens(t) => t,
            Pattern::Value(t, _) => t,
            Pattern::Token(t) => t,
            Pattern::Re(t, _) => t,
        }
    }

    /// The type of token the pattern wants.
    pub fn token_type(&self) -> (res: TokenType)
        ensures
            res == self.spec_token_type(),
    {
        match self {
            Pattern::Vartokens(t) => *t,
            Pattern::Value(t, _) => *t,
            Pattern::Token(t) => *t,
            Pattern::Re(t, _) => *t,
        }
    }
}

/// A token of one character: the character, or a regular expression a
/// character must match; the token's type and categories; the type that
/// closes it, if it opens a pair.
#[derive(Debug)]
pub struct SingularTokenEntry {
    pub value: char,
    pub re: Option<&'static str>,
    pub type_: TokenType,
    pub categories: &'static [TokenCategory],
    pub pair: Option<TokenType>,
}

/// A token made of several tokens: its text, its type, the patterns of
/// the tokens it is made of, its categories, the type it pairs with, and
/// whether it is a literal run from an opening token to its pair.
#[derive(Debug)]
pub struct CompoundTokenEntry {
    pub value: &'static str,
    pub type_: TokenType,
    pub combination: Vec<Pattern>,
    pub categories: &'static [TokenCategory],
    pub pair: Option<TokenType>,
    pub literal: bool,
}

impl CompoundTokenEntry {
    /// The entry is made of at least one token.
    pub open spec fn wf(&self) -> bool {
        self.combination@.len() > 0
    }
}

/// A token whose type depends on what stands beside it: a token of type
/// `from` becomes `type_` when it stands on the given side of a value.
#[derive(Debug)]
pub struct SideDependentTokenEntry {
    pub value: &'static str,
    pub type_: TokenType,
    pub side: Side,
    pub from: TokenType,
}

/// An entry for a token of exactly one character.
fn singular(value: char, type_: TokenType, categories: &'static [TokenCategory]) -> (res: SingularTokenEntry)
    ensures
        res.value == value,
        res.re is None,
        res.type_ == type_,
        res.categories == categories,
        res.pair is None,
{
    SingularTokenEntry { value, re: None, type_, categories, pair: None }
}

/// An entry for a token of one character that a regular expression matches.
fn singular_re(re: &'static str, type_: TokenType, categories: &'static [TokenCategory]) -> (res: SingularTokenEntry)
    ensures
        res.value == ' ',
        res.re == Some(re),
        res.type_ == type_,
        res.categories == categories,
        res.pair is None,
{
    SingularTokenEntry { value: ' ', re: Some(re), type_, categories, pair: None }
}

/// An entry for a compound token.
fn compound(
    value: &'static str,
    type_: TokenType,
    combination: Vec<Pattern>,
    categories: &'static [TokenCategory],
    pair: Option<TokenType>,
    literal: bool,
) -> (res: CompoundTokenEntry)
    requires
        combination@.len() > 0,
    ensures
        res.wf(),
        res.value == value,
        res.type_ == type_,
        res.combination == combination,
        res.categories == categories,
        res.pair == pair,
        res.literal == literal,
{
    CompoundTokenEntry { value, type_, combination, categories, pair, literal }
}

/// Adds an entry to a table of well-formed compound entries.
fn add_compound(v: &mut Vec<CompoundTokenEntry>, e: CompoundTokenEntry)
    requires
        e.wf(),
        forall|i: int| 0 <= i < old(v)@.len() ==> (#[trigger] old(v)@[i]).wf(),
    ensures
        final(v)@ == old(v)@.push(e),
        forall|i: int| 0 <= i < final(v)@.len() ==> (#[trigger] final(v)@[i]).wf(),
{
    v.push(e);
}

/// The tokens of one character: digits, word characters and white space
/// by regular expression, then brackets, punctuation and operators.
pub fn singular_token_entries() -> (res: Vec<SingularTokenEntry>)
    ensures
        res@.len() == 34,
        res@[0].re == Some("\\d") && res@[0].type_ == TokenType::LiteralNumber && res@[0].categories@ == seq![TokenCategory::Literal, TokenCategory::ValueStart, TokenCategory::ValueEnd],
        res@[1].re == Some("\\w") && res@[1].type_ == TokenType::Variable && res@[1].categories@ == seq![TokenCategory::ValueStart, TokenCategory::ValueEnd],
        res@[2].re == Some("\\s") && res@[2].type_ == TokenType::Whitespace && res@[2].categories@ == Seq::<TokenCategory>::empty(),
        res@[3].re is None && res@[3].value == '(' && res@[3].type_ == TokenType::OpenParen && res@[3].categories@ == seq![TokenCategory::Parenthesis, TokenCategory::OpenParen, TokenCategory::ValueStart],
        res@[4].re is None && res@[4].value == '[' && res@[4].type_ == TokenType::OpenSquareParen && res@[4].categories@ == seq![TokenCategory::Parenthesis, TokenCategory::OpenParen, TokenCategory::ValueStart],
        res@[5].re is None && res@[5].value == '{' && res@[5].type_ == TokenType::OpenCurlyParen && res@[5].categories@ == seq![TokenCategory::Parenthesis, TokenCategory::OpenParen, TokenCategory::ValueStart],
        res@[6].re is None && res@[6].value == ')' && res@[6].type_ == TokenType::CloseParen && res@[6].categories@ == seq![TokenCategory::Parenthesis, TokenCategory::CloseParen, TokenCategory::ValueEnd],
        res@[7].re is None && res@[7].value == ']' && res@[7].type_ == TokenType::CloseSquareParen && res@[7].categories@ == seq![TokenCategory::Parenthesis, TokenCategory::CloseParen, TokenCategory::ValueEnd],
        res@[8].re is None && res@[8].value == '}' && res@[8].type_ == TokenType::CloseCurlyParen && res@[8].categories@ == seq![TokenCategory::Parenthesis, TokenCategory::CloseParen, TokenCategory::ValueEnd],
        res@[9].re is None && res@[9].value == '.' && res@[9].type_ == TokenType::DotOpr && res@[9].categories@ == seq![TokenCategory::Operator],
        res@[10].re is None && res@[10].value == ';' && res@[10].type_ == TokenType::StatementEnd && res@[10].categories@ == Seq::<TokenCategory>::empty(),
        res@[11].re is None && res@[11].value == ',' && res@[11].type_ == TokenType::Comma && res@[11].categories@ == Seq::<TokenCategory>::empty(),
        res@[12].re is None && res@[12].value == ':' && res@[12].type_ == TokenType::Colon && res@[12].categories@ == Seq::<TokenCategory>::empty(),
        res@[13].re is None && res@[13].value == '\"' && res@[13].type_ == TokenType::Quote && res@[13].categories@ == seq![TokenCategory::LiteralStringStart, TokenCategory::LiteralStringEnd],
        res@[14].re is None && res@[14].value == '!' && res@[14].type_ == TokenType::UnaryOpr(OprType::Not, Side::Left) && res@[14].categories@ == seq![TokenCategory::Operator, TokenCategory::ValueStart],
        res@[15].re is None && res@[15].value == '~' && res@[15].type_ == TokenType::NormalOpr(OprType::Concat) && res@[15].categories@ == seq![TokenCategory::Operator],
        res@[16].re is None && res@[16].value == '@' && res@[16].type_ == TokenType::NormalOpr(OprType::TypeCast) && res@[16].categories@ == seq![TokenCategory::Operator],
        res@[17].re is None && res@[17].value == '+' && res@[17].type_ == TokenType::NormalOpr(OprType::Plus) && res@[17].categories@ == seq![TokenCategory::Operator],
        res@[18].re is None && res@[18].value == '-' && res@[18].type_ == TokenType::NormalOpr(OprType::Minus) && res@[18].categories@ == seq![TokenCategory::Operator],
        res@[19].re is None && res@[19].value == '\u{b1}' && res@[19].type_ == TokenType::NormalOpr(OprType::PlusMinus) && res@[19].categories@ == seq![TokenCategory::Operator],
        res@[20].re is None && res@[20].value == '\u{2213}' && res@[20].type_ == TokenType::NormalOpr(OprType::MinusPlus) && res@[20].categories@ == seq![TokenCategory::Operator],
        res@[21].re is None && res@[21].value == '\u{b7}' && res@[21].type_ == TokenType::NormalOpr(OprType::DotMult) && res@[21].categories@ == seq![TokenCategory::Operator],
        res@[22].re is None && res@[22].value == '*' && res@[22].type_ == TokenType::NormalOpr(OprType::AstMult) && res@[22].categories@ == seq![TokenCategory::Operator],
        res@[23].re is None && res@[23].value == '\u{d7}' && res@[23].type_ == TokenType::NormalOpr(OprType::CrossMult) && res@[23].categories@ == seq![TokenCategory::Operator],
        res@[24].re is None && res@[24].value == '/' && res@[24].type_ == TokenType::NormalOpr(OprType::FractDiv) && res@[24].categories@ == seq![TokenCategory::Operator],
        res@[25].re is None && res@[25].value == '\u{f7}' && res@[25].type_ == TokenType::NormalOpr(OprType::Div) && res@[25].categories@ == seq![TokenCategory::Operator],
        res@[26].re is None && res@[26].value == '^' && res@[26].type_ == TokenType::NormalOpr(OprType::Power) && res@[26].categories@ == seq![TokenCategory::Operator],
        res@[27].re is None && res@[27].value == '%' && res@[27].type_ == TokenType::NormalOpr(OprType::Modulo) && res@[27].categories@ == seq![TokenCategory::Operator],
        res@[28].re is None && res@[28].value == '=' && res@[28].type_ == TokenType::AssignmentOpr(OprType::Null) && res@[28].categories@ == seq![TokenCategory::Operator],
        res@[29].re is None && res@[29].value == '>' && res@[29].type_ == TokenType::NormalOpr(OprType::Gt) && res@[29].categories@ == seq![TokenCategory::Operator],
        res@[30].re is None && res@[30].value == '<' && res@[30].type_ == TokenType::NormalOpr(OprType::Lt) && res@[30].categories@ == seq![TokenCategory::Operator],
        res@[31].re is None && res@[31].value == '&' && res@[31].type_ == TokenType::UnaryOpr(OprType::Ref, Side::Left) && res@[31].categories@ == seq![TokenCategory::Operator, TokenCategory::ValueStart],
        res@[32].re is None && res@[32].value == '\\' && res@[32].type_ == TokenType::UnaryOpr(OprType::Deref, Side::Left) && res@[32].categories@ == seq![TokenCategory::Operator, TokenCategory::ValueStart],
        res@[33].re is None && res@[33].value == '|' && res@[33].type_ == TokenType::Bar && res@[33].categories@ == Seq::<TokenCategory>::empty(),
{
    let mut v: Vec<SingularTokenEntry> = Vec::new();
    v.push(singular_re("\\d", TokenType::LiteralNumber, &[TokenCategory::Literal, TokenCategory::ValueStart, TokenCategory::ValueEnd]));
    v.push(singular_re("\\w", TokenType::Variable, &[TokenCategory::ValueStart, TokenCategory::ValueEnd]));
    v.push(singular_re("\\s", TokenType::Whitespace, &[]));
    v.push(singular('(', TokenType::OpenParen, &[TokenCategory::Parenthesis, TokenCategory::OpenParen, TokenCategory::ValueStart]));
    v.push(singular('[', TokenType::OpenSquareParen, &[TokenCategory::Parenthesis, TokenCategory::OpenParen, TokenCategory::ValueStart]));
    v.push(singular('{', TokenType::OpenCurlyParen, &[TokenCategory::Parenthesis, TokenCategory::OpenParen, TokenCategory::ValueStart]));
    v.push(singular(')', TokenType::CloseParen, &[TokenCategory::Parenthesis, TokenCategory::CloseParen, TokenCategory::ValueEnd]));
    v.push(singular(']', TokenType::CloseSquareParen, &[TokenCategory::Parenthesis, TokenCategory::CloseParen, TokenCategory::ValueEnd]));
    v.push(singular('}', TokenType::CloseCurlyParen, &[TokenCategory::Parenthesis, TokenCategory::CloseParen, TokenCategory::ValueEnd]));
    v.push(singular('.', TokenType::DotOpr, &[TokenCategory::Operator]));
    v.push(singular(';', TokenType::StatementEnd, &[]));
    v.push(singular(',', TokenType::Comma, &[]));
    v.push(singular(':', TokenType::Colon, &[]));
    v.push(singular('\"', TokenType::Quote, &[TokenCategory::LiteralStringStart, TokenCategory::LiteralStringEnd]));
    v.push(singular('!', TokenType::UnaryOpr(OprType::Not, Side::Left), &[TokenCategory::Operator, TokenCategory::ValueStart]));
    v.push(singular('~', TokenType::NormalOpr(OprType::Concat), &[TokenCategory::Operator]));
    v.push(singular('@', TokenType::NormalOpr(OprType::TypeCast), &[TokenCategory::Operator]));
    v.push(singular('+', TokenType::NormalOpr(OprType::Plus), &[TokenCategory::Operator]));
    v.push(singular('-', TokenType::NormalOpr(OprType::Minus), &[TokenCategory::Operator]));
    v.push(singular('\u{b1}', TokenType::NormalOpr(OprType::PlusMinus), &[TokenCategory::Operator]));
    v.push(singular('\u{2213}', TokenType::NormalOpr(OprType::MinusPlus), &[TokenCategory::Operator]));
    v.push(singular('\u{b7}', TokenType::NormalOpr(OprType::DotMult), &[TokenCategory::Operator]));
    v.push(singular('*', TokenType::NormalOpr(OprType::AstMult), &[TokenCategory::Operator]));
    v.push(singular('\u{d7}', TokenType::NormalOpr(OprType::CrossMult), &[TokenCategory::Operator]));
    v.push(singular('/', TokenType::NormalOpr(OprType::FractDiv), &[TokenCategory::Operator]));
    v.push(singular('\u{f7}', TokenType::NormalOpr(OprType::Div), &[TokenCategory::Operator]));
    v.push(singular('^', TokenType::NormalOpr(OprType::Power), &[TokenCategory::Operator]));
    v.push(singular('%', TokenType::NormalOpr(OprType::Modulo), &[TokenCategory::Operator]));
    v.push(singular('=', TokenType::AssignmentOpr(OprType::Null), &[TokenCategory::Operator]));
    v.push(singular('>', TokenType::NormalOpr(OprType::Gt), &[TokenCategory::Operator]));
    v.push(singular('<', TokenType::NormalOpr(OprType::Lt), &[TokenCategory::Operator]));
    v.push(singular('&', TokenType::UnaryOpr(OprType::Ref, Side::Left), &[TokenCategory::Operator, TokenCategory::ValueStart]));
    v.push(singular('\\', TokenType::UnaryOpr(OprType::Deref, Side::Left), &[TokenCategory::Operator, TokenCategory::ValueStart]));
    v.push(singular('|', TokenType::Bar, &[]));
    v
}

/// The compound tokens made first: numbers and names of several
/// characters, comment markers, and the operators of two or three
/// characters.
pub fn compound_token_entries_1() -> (res: Vec<CompoundTokenEntry>)
    ensures
        res@.len() == 37,
        forall|i: int| 0 <= i < res@.len() ==> (#[trigger] res@[i]).wf(),
        res@[0].value == "" && res@[0].type_ == TokenType::LiteralNumber && res@[0].combination@ == seq![Pattern::Token(TokenType::LiteralNumber), Pattern::Token(TokenType::LiteralNumber)] && res@[0].categories@ == seq![TokenCategory::Literal, TokenCategory::ValueStart, TokenCategory::ValueEnd] && res@[0].pair is None && res@[0].literal == false,
        res@[1].value == "" && res@[1].type_ == TokenType::LiteralNumber && res@[1].combination@ == seq![Pattern::Re(TokenType::LiteralNumber, "^[^\\.]*$"), Pattern::Token(TokenType::DotOpr), Pattern::Token(TokenType::LiteralNumber)] && res@[1].categories@ == seq![TokenCategory::Literal, TokenCategory::ValueStart, TokenCategory::ValueEnd] && res@[1].pair is None && res@[1].literal == false,
        res@[2].value == "" && res@[2].type_ == TokenType::Variable && res@[2].combination@ == seq![Pattern::Token(TokenType::Variable), Pattern::Token(TokenType::LiteralNumber)] && res@[2].categories@ == seq![TokenCategory::ValueStart, TokenCategory::ValueEnd] && res@[2].pair is None && res@[2].literal == false,
        res@[3].value == "" && res@[3].type_ == TokenType::Variable && res@[3].combination@ == seq![Pattern::Token(TokenType::Variable), Pattern::Token(TokenType::Variable)] && res@[3].categories@ == seq![TokenCategory::ValueStart, TokenCategory::ValueEnd] && res@[3].pair is None && res@[3].literal == false,
        res@[4].value == "//" && res@[4].type_ == TokenType::CommentStart && res@[4].combination@ == seq![Pattern::Token(TokenType::NormalOpr(OprType::FractDiv)), Pattern::Token(TokenType::NormalOpr(OprType::FractDiv))] && res@[4].categories@ == seq![TokenCategory::LiteralStringStart] && res@[4].pair == Some(TokenType::CommentEnd) && res@[4].literal == false,
        res@[5].value == "/*" && res@[5].type_ == TokenType::MultilineCommentStart && res@[5].combination@ == seq![Pattern::Token(TokenType::NormalOpr(OprType::FractDiv)), Pattern::Token(TokenType::NormalOpr(OprType::AstMult))] && res@[5].categories@ == seq![TokenCategory::LiteralStringStart] && res@[5].pair == Some(TokenType::MultilineCommentEnd) && res@[5].literal == false,
        res@[6].value == "*/" && res@[6].type_ == TokenType::MultilineCommentEnd && res@[6].combination@ == seq![Pattern::Token(TokenType::NormalOpr(OprType::AstMult)), Pattern::Token(TokenType::NormalOpr(OprType::FractDiv))] && res@[6].categories@ == seq![TokenCategory::LiteralStringEnd] && res@[6].pair == Some(TokenType::MultilineCommentStart) && res@[6].literal == false,
        res@[7].value == ":=" && res@[7].type_ == TokenType::DeclarationOpr && res@[7].combination@ == seq![Pattern::Token(TokenType::Colon), Pattern::Token(TokenType::AssignmentOpr(OprType::Null))] && res@[7].categories@ == Seq::<TokenCategory>::empty() && res@[7].pair is None && res@[7].literal == false,
        res@[8].value == "+-" && res@[8].type_ == TokenType::NormalOpr(OprType::PlusMinus) && res@[8].combination@ == seq![Pattern::Token(TokenType::NormalOpr(OprType::Plus)), Pattern::Token(TokenType::NormalOpr(OprType::Minus))] && res@[8].categories@ == seq![TokenCategory::Operator] && res@[8].pair is None && res@[8].literal == false,
        res@[9].value == "-+" && res@[9].type_ == TokenType::NormalOpr(OprType::MinusPlus) && res@[9].combination@ == seq![Pattern::Token(TokenType::NormalOpr(OprType::Minus)), Pattern::Token(TokenType::NormalOpr(OprType::Plus))] && res@[9].categories@ == seq![TokenCategory::Operator] && res@[9].pair is None && res@[9].literal == false,
        res@[10].value == "/f" && res@[10].type_ == TokenType::NormalOpr(OprType::FloorfractDiv) && res@[10].combination@ == seq![Pattern::Token(TokenType::NormalOpr(OprType::FractDiv)), Pattern::Value(TokenType::Variable, "f")] && res@[10].categories@ == seq![TokenCategory::Operator] && res@[10].pair is None && res@[10].literal == false,
        res@[11].value == "/c" && res@[11].type_ == TokenType::NormalOpr(OprType::CeilfractDiv) && res@[11].combination@ == seq![Pattern::Token(TokenType::NormalOpr(OprType::FractDiv)), Pattern::Value(TokenType::Variable, "c")] && res@[11].categories@ == seq![TokenCategory::Operator] && res@[11].pair is None && res@[11].literal == false,
        res@[12].value == "/~" && res@[12].type_ == TokenType::NormalOpr(OprType::RoundfractDiv) && res@[12].combination@ == seq![Pattern::Token(TokenType::NormalOpr(OprType::FractDiv)), Pattern::Token(TokenType::NormalOpr(OprType::Concat))] && res@[12].categories@ == seq![TokenCategory::Operator] && res@[12].pair is None && res@[12].literal == false,
        res@[13].value == "\u{f7}f" && res@[13].type_ == TokenType::NormalOpr(OprType::FloorDiv) && res@[13].combination@ == seq![Pattern::Token(TokenType::NormalOpr(OprType::Div)), Pattern::Value(TokenType::Variable, "f")] && res@[13].categories@ == seq![TokenCategory::Operator] && res@[13].pair is None && res@[13].literal == false,
        res@[14].value == "\u{f7}c" && res@[14].type_ == TokenType::NormalOpr(OprType::CeilDiv) && res@[14].combination@ == seq![Pattern::Token(TokenType::NormalOpr(OprType::Div)), Pattern::Value(TokenType::Variable, "c")] && res@[14].categories@ == seq![TokenCategory::Operator] && res@[14].pair is None && res@[14].literal == false,
        res@[15].value == "\u{f7}~" && res@[15].type_ == TokenType::NormalOpr(OprType::RoundDiv) && res@[15].combination@ == seq![Pattern::Token(TokenType::NormalOpr(OprType::Div)), Pattern::Token(TokenType::NormalOpr(OprType::Concat))] && res@[15].categories@ == seq![TokenCategory::Operator] && res@[15].pair is None && res@[15].literal == false,
        res@[16].value == "+=" && res@[16].type_ == TokenType::AssignmentOpr(OprType::Plus) && res@[16].combination@ == seq![Pattern::Token(TokenType::NormalOpr(OprType::Plus)), Pattern::Token(TokenType::AssignmentOpr(OprType::Null))] && res@[16].categories@ == seq![TokenCategory::Operator] && res@[16].pair is None && res@[16].literal == false,
        res@[17].value == "-=" && res@[17].type_ == TokenType::AssignmentOpr(OprType::Minus) && res@[17].combination@ == seq![Pattern::Token(TokenType::NormalOpr(OprType::Minus)), Pattern::Token(TokenType::AssignmentOpr(OprType::Null))] && res@[17].categories@ == seq![TokenCategory::Operator] && res@[17].pair is None && res@[17].literal == false,
        res@[18].value == "*=" && res@[18].type_ == TokenType::AssignmentOpr(OprType::AstMult) && res@[18].combination@ == seq![Pattern::Token(TokenType::NormalOpr(OprType::AstMult)), Pattern::Token(TokenType::AssignmentOpr(OprType::Null))] && res@[18].categories@ == seq![TokenCategory::Operator] && res@[18].pair is None && res@[18].literal == false,
        res@[19].value == "/=" && res@[19].type_ == TokenType::AssignmentOpr(OprType::FractDiv) && res@[19].combination@ == seq![Pattern::Token(TokenType::NormalOpr(OprType::FractDiv)), Pattern::Token(TokenType::AssignmentOpr(OprType::Null))] && res@[19].categories@ == seq![TokenCategory::Operator] && res@[19].pair is None && res@[19].literal == false,
        res@[20].value == "/f=" && res@[20].type_ == TokenType::AssignmentOpr(OprType::FloorfractDiv) && res@[20].combination@ == seq![Pattern::Token(TokenType::NormalOpr(OprType::FloorfractDiv)), Pattern::Token(TokenType::AssignmentOpr(OprType::Null))] && res@[20].categories@ == seq![TokenCategory::Operator] && res@[20].pair is None && res@[20].literal == false,
        res@[21].value == "/c=" && res@[21].type_ == TokenType::AssignmentOpr(OprType::CeilfractDiv) && res@[21].combination@ == seq![Pattern::Token(TokenType::NormalOpr(OprType::CeilfractDiv)), Pattern::Token(TokenType::AssignmentOpr(OprType::Null))] && res@[21].categories@ == seq![TokenCategory::Operator] && res@[21].pair is None && res@[21].literal == false,
        res@[22].value == "/~=" && res@[22].type_ == TokenType::AssignmentOpr(OprType::RoundfractDiv) && res@[22].combination@ == seq![Pattern::Token(TokenType::NormalOpr(OprType::RoundfractDiv)), Pattern::Token(TokenType::AssignmentOpr(OprType::Null))] && res@[22].categories@ == seq![TokenCategory::Operator] && res@[22].pair is None && res@[22].literal == false,
        res@[23].value == "%=" && res@[23].type_ == TokenType::AssignmentOpr(OprType::Modulo) && res@[23].combination@ == seq![Pattern::Token(TokenType::NormalOpr(OprType::Modulo)), Pattern::Token(TokenType::AssignmentOpr(OprType::Null))] && res@[23].categories@ == seq![TokenCategory::Operator] && res@[23].pair is None && res@[23].literal == false,
        res@[24].value == "~=" && res@[24].type_ == TokenType::AssignmentOpr(OprType::Concat) && res@[24].combination@ == seq![Pattern::Token(TokenType::NormalOpr(OprType::Concat)), Pattern::Token(TokenType::AssignmentOpr(OprType::Null))] && res@[24].categories@ == seq![TokenCategory::Operator] && res@[24].pair is None && res@[24].literal == false,
        res@[25].value == "==" && res@[25].type_ == TokenType::NormalOpr(OprType::Eq) && res@[25].combination@ == seq![Pattern::Token(TokenType::AssignmentOpr(OprType::Null)), Pattern::Token(TokenType::AssignmentOpr(OprType::Null))] && res@[25].categories@ == seq![TokenCategory::Operator] && res@[25].pair is None && res@[25].literal == false,
        res@[26].value == "<=" && res@[26].type_ == TokenType::NormalOpr(OprType::Lteq) && res@[26].combination@ == seq![Pattern::Token(TokenType::NormalOpr(OprType::Lt)), Pattern::Token(TokenType::AssignmentOpr(OprType::Null))] && res@[26].categories@ == seq![TokenCategory::Operator] && res@[26].pair is None && res@[26].literal == false,
        res@[27].value == ">=" && res@[27].type_ == TokenType::NormalOpr(OprType::Gteq) && res@[27].combination@ == seq![Pattern::Token(TokenType::NormalOpr(OprType::Gt)), Pattern::Token(TokenType::AssignmentOpr(OprType::Null))] && res@[27].categories@ == seq![TokenCategory::Operator] && res@[27].pair is None && res@[27].literal == false,
        res@[28].value == "!=" && res@[28].type_ == TokenType::NormalOpr(OprType::Noteq) && res@[28].combination@ == seq![Pattern::Token(TokenType::UnaryOpr(OprType::Not, Side::Left)), Pattern::Token(TokenType::AssignmentOpr(OprType::Null))] && res@[28].categories@ == seq![TokenCategory::Operator] && res@[28].pair is None && res@[28].literal == false,
        res@[29].value == "===" && res@[29].type_ == TokenType::NormalOpr(OprType::Iseq) && res@[29].combination@ == seq![Pattern::Token(TokenType::NormalOpr(OprType::Eq)), Pattern::Token(TokenType::AssignmentOpr(OprType::Null))] && res@[29].categories@ == seq![TokenCategory::Operator] && res@[29].pair is None && res@[29].literal == false,
        res@[30].value == "!==" && res@[30].type_ == TokenType::NormalOpr(OprType::Isnteq) && res@[30].combination@ == seq![Pattern::Token(TokenType::NormalOpr(OprType::Noteq)), Pattern::Token(TokenType::AssignmentOpr(OprType::Null))] && res@[30].categories@ == seq![TokenCategory::Operator] && res@[30].pair is None && res@[30].literal == false,
        res@[31].value == "&&" && res@[31].type_ == TokenType::NormalOpr(OprType::And) && res@[31].combination@ == seq![Pattern::Token(TokenType::UnaryOpr(OprType::Ref, Side::Left)), Pattern::Token(TokenType::UnaryOpr(OprType::Ref, Side::Left))] && res@[31].categories@ == seq![TokenCategory::Operator] && res@[31].pair is None && res@[31].literal == false,
        res@[32].value == "||" && res@[32].type_ == TokenType::NormalOpr(OprType::Or) && res@[32].combination@ == seq![Pattern::Token(TokenType::Bar), Pattern::Token(TokenType::Bar)] && res@[32].categories@ == seq![TokenCategory::Operator] && res@[32].pair is None && res@[32].literal == false,
        res@[33].value == "^^" && res@[33].type_ == TokenType::NormalOpr(OprType::Xor) && res@[33].combination@ == seq![Pattern::Token(TokenType::NormalOpr(OprType::Power)), Pattern::Token(TokenType::NormalOpr(OprType::Power))] && res@[33].categories@ == seq![TokenCategory::Operator] && res@[33].pair is None && res@[33].literal == false,
        res@[34].value == "><" && res@[34].type_ == TokenType::NormalOpr(OprType::Swap) && res@[34].combination@ == seq![Pattern::Token(TokenType::NormalOpr(OprType::Gt)), Pattern::Token(TokenType::NormalOpr(OprType::Lt))] && res@[34].categories@ == seq![TokenCategory::Operator] && res@[34].pair is None && res@[34].literal == false,
        res@[35].value == "++" && res@[35].type_ == TokenType::UnaryOpr(OprType::Increment, Side::Right) && res@[35].combination@ == seq![Pattern::Token(TokenType::NormalOpr(OprType::Plus)), Pattern::Token(TokenType::NormalOpr(OprType::Plus))] && res@[35].categories@ == seq![TokenCategory::Operator, TokenCategory::ValueEnd] && res@[35].pair is None && res@[35].literal == false,
        res@[36].value == "--" && res@[36].type_ == TokenType::UnaryOpr(OprType::Decrement, Side::Right) && res@[36].combination@ == seq![Pattern::Token(TokenType::NormalOpr(OprType::Minus)), Pattern::Token(TokenType::NormalOpr(OprType::Minus))] && res@[36].categories@ == seq![TokenCategory::Operator, TokenCategory::ValueEnd] && res@[36].pair is None && res@[36].literal == false,
{
    let mut v: Vec<CompoundTokenEntry> = Vec::new();
    add_compound(
        &mut v,
        compound(
            "",
            TokenType::LiteralNumber,
            vec![Pattern::Token(TokenType::LiteralNumber), Pattern::Token(TokenType::LiteralNumber)],
            &[TokenCategory::Literal, TokenCategory::ValueStart, TokenCategory::ValueEnd],
            None,
            false,
        ),
    );
    add_compound(
        &mut v,
        compound(
            "",
            TokenType::LiteralNumber,
            vec![Pattern::Re(TokenType::LiteralNumber, "^[^\\.]*$"), Pattern::Token(TokenType::DotOpr), Pattern::Token(TokenType::LiteralNumber)],
            &[TokenCategory::Literal, TokenCategory::ValueStart, TokenCategory::ValueEnd],
            None,
            false,
        ),
    );
    add_compound(
        &mut v,
        compound(
            "",
            TokenType::Variable,
            vec![Pattern::Token(TokenType::Variable), Pattern::Token(TokenType::LiteralNumber)],
            &[TokenCategory::ValueStart, TokenCategory::ValueEnd],
            None,
            false,
        ),
    );
    add_compound(
        &mut v,
        compound(
            "",
            TokenType::Variable,
            vec![Pattern::Token(TokenType::Variable), Pattern::Token(TokenType::Variable)],
            &[TokenCategory::ValueStart, TokenCategory::ValueEnd],
            None,
            false,
        ),
    );
    add_compound(
        &mut v,
        compound(
            "//",
            TokenType::CommentStart,
            vec![Pattern::Token(TokenType::NormalOpr(OprType::FractDiv)), Pattern::Token(TokenType::NormalOpr(OprType::FractDiv))],
            &[TokenCategory::LiteralStringStart],
            Some(TokenType::CommentEnd),
            false,
        ),
    );
    add_compound(
        &mut v,
        compound(
            "/*",
            TokenType::MultilineCommentStart,
            vec![Pattern::Token(TokenType::NormalOpr(OprType::FractDiv)), Pattern::Token(TokenType::NormalOpr(OprType::AstMult))],
            &[TokenCategory::LiteralStringStart],
            Some(TokenType::MultilineCommentEnd),
            false,
        ),
    );
    add_compound(
        &mut v,
        compound(
            "*/",
            TokenType::MultilineCommentEnd,
            vec![Pattern::Token(TokenType::NormalOpr(OprType::AstMult)), Pattern::Token(TokenType::NormalOpr(OprType::FractDiv))],
            &[TokenCategory::LiteralStringEnd],
            Some(TokenType::MultilineCommentStart),
            false,
        ),
    );
    add_compound(
        &mut v,
        compound(
            ":=",
            TokenType::DeclarationOpr,
            vec![Pattern::Token(TokenType::Colon), Pattern::Token(TokenType::AssignmentOpr(OprType::Null))],
            &[],
            None,
            false,
        ),
    );
    add_compound(
        &mut v,
        compound(
            "+-",
            TokenType::NormalOpr(OprType::PlusMinus),
            vec![Pattern::Token(TokenType::NormalOpr(OprType::Plus)), Pattern::Token(TokenType::NormalOpr(OprType::Minus))],
            &[TokenCategory::Operator],
            None,
            false,
        ),
    );
    add_compound(
        &mut v,
        compound(
            "-+",
            TokenType::NormalOpr(OprType::MinusPlus),
            vec![Pattern::Token(TokenType::NormalOpr(OprType::Minus)), Pattern::Token(TokenType::NormalOpr(OprType::Plus))],
            &[TokenCategory::Operator],
            None,
            false,
        ),
    );
    add_compound(
        &mut v,
        compound(
            "/f",
            TokenType::NormalOpr(OprType::FloorfractDiv),
            vec![Pattern::Token(TokenType::NormalOpr(OprType::FractDiv)), Pattern::Value(TokenType::Variable, "f")],
            &[TokenCategory::Operator],
            None,
            false,
        ),
    );
    add_compound(
        &mut v,
        compound(
            "/c",
            TokenType::NormalOpr(OprType::CeilfractDiv),
            vec![Pattern::Token(TokenType::NormalOpr(OprType::FractDiv)), Pattern::Value(TokenType::Variable, "c")],
            &[TokenCategory::Operator],
            None,
            false,
        ),
    );
    add_compound(
        &mut v,
        compound(
            "/~",
            TokenType::NormalOpr(OprType::RoundfractDiv),
            vec![Pattern::Token(TokenType::NormalOpr(OprType::FractDiv)), Pattern::Token(TokenType::NormalOpr(OprType::Concat))],
            &[TokenCategory::Operator],
            None,
            false,
        ),
    );
    add_compound(
        &mut v,
        compound(
            "\u{f7}f",
            TokenType::NormalOpr(OprType::FloorDiv),
            vec![Pattern::Token(TokenType::NormalOpr(OprType::Div)), Pattern::Value(TokenType::Variable, "f")],
            &[TokenCategory::Operator],
            None,
            false,
        ),
    );
    add_compound(
        &mut v,
        compound(
            "\u{f7}c",
            TokenType::NormalOpr(OprType::CeilDiv),
            vec![Pattern::Token(TokenType::NormalOpr(OprType::Div)), Pattern::Value(TokenType::Variable, "c")],
            &[TokenCategory::Operator],
            None,
            false,
        ),
    );
    add_compound(
        &mut v,
        compound(
            "\u{f7}~",
            TokenType::NormalOpr(OprType::RoundDiv),
            vec![Pattern::Token(TokenType::NormalOpr(OprType::Div)), Pattern::Token(TokenType::NormalOpr(OprType::Concat))],
            &[TokenCategory::Operator],
            None,
            false,
        ),
    );
    add_compound(
        &mut v,
        compound(
            "+=",
            TokenType::AssignmentOpr(OprType::Plus),
            vec![Pattern::Token(TokenType::NormalOpr(OprType::Plus)), Pattern::Token(TokenType::AssignmentOpr(OprType::Null))],
            &[TokenCategory::Operator],
            None,
            false,
        ),
    );
    add_compound(
        &mut v,
        compound(
            "-=",
            TokenType::AssignmentOpr(OprType::Minus),
            vec![Pattern::Token(TokenType::NormalOpr(OprType::Minus)), Pattern::Token(TokenType::AssignmentOpr(OprType::Null))],
            &[TokenCategory::Operator],
            None,
            false,
        ),
    );
    add_compound(
        &mut v,
        compound(
            "*=",
            TokenType::AssignmentOpr(OprType::AstMult),
            vec![Pattern::Token(TokenType::NormalOpr(OprType::AstMult)), Pattern::Token(TokenType::AssignmentOpr(OprType::Null))],
            &[TokenCategory::Operator],
            None,
            false,
        ),
    );
    add_compound(
        &mut v,
        compound(
            "/=",
            TokenType::AssignmentOpr(OprType::FractDiv),
            vec![Pattern::Token(TokenType::NormalOpr(OprType::FractDiv)), Pattern::Token(TokenType::AssignmentOpr(OprType::Null))],
            &[TokenCategory::Operator],
            None,
            false,
        ),
    );
    add_compound(
        &mut v,
        compound(
            "/f=",
            TokenType::AssignmentOpr(OprType::FloorfractDiv),
            vec![Pattern::Token(TokenType::NormalOpr(OprType::FloorfractDiv)), Pattern::Token(TokenType::AssignmentOpr(OprType::Null))],
            &[TokenCategory::Operator],
            None,
            false,
        ),
    );
    add_compound(
        &mut v,
        compound(
            "/c=",
            TokenType::AssignmentOpr(OprType::CeilfractDiv),
            vec![Pattern::Token(TokenType::NormalOpr(OprType::CeilfractDiv)), Pattern::Token(TokenType::AssignmentOpr(OprType::Null))],
            &[TokenCategory::Operator],
            None,
            false,
        ),
    );
    add_compound(
        &mut v,
        compound(
            "/~=",
            TokenType::AssignmentOpr(OprType::RoundfractDiv),
            vec![Pattern::Token(TokenType::NormalOpr(OprType::RoundfractDiv)), Pattern::Token(TokenType::AssignmentOpr(OprType::Null))],
            &[TokenCategory::Operator],
            None,
            false,
        ),
    );
    add_compound(
        &mut v,
        compound(
            "%=",
            TokenType::AssignmentOpr(OprType::Modulo),
            vec![Pattern::Token(TokenType::NormalOpr(OprType::Modulo)), Pattern::Token(TokenType::AssignmentOpr(OprType::Null))],
            &[TokenCategory::Operator],
            None,
            false,
        ),
    );
    add_compound(
        &mut v,
        compound(
            "~=",
            TokenType::AssignmentOpr(OprType::Concat),
            vec![Pattern::Token(TokenType::NormalOpr(OprType::Concat)), Pattern::Token(TokenType::AssignmentOpr(OprType::Null))],
            &[TokenCategory::Operator],
            None,
            false,
        ),
    );
    add_compound(
        &mut v,
        compound(
            "==",
            TokenType::NormalOpr(OprType::Eq),
            vec![Pattern::Token(TokenType::AssignmentOpr(OprType::Null)), Pattern::Token(TokenType::AssignmentOpr(OprType::Null))],
            &[TokenCategory::Operator],
            None,
            false,
        ),
    );
    add_compound(
        &mut v,
        compound(
            "<=",
            TokenType::NormalOpr(OprType::Lteq),
            vec![Pattern::Token(TokenType::NormalOpr(OprType::Lt)), Pattern::Token(TokenType::AssignmentOpr(OprType::Null))],
            &[TokenCategory::Operator],
            None,
            false,
        ),
    );
    add_compound(
        &mut v,
        compound(
            ">=",
            TokenType::NormalOpr(OprType::Gteq),
            vec![Pattern::Token(TokenType::NormalOpr(OprType::Gt)), Pattern::Token(TokenType::AssignmentOpr(OprType::Null))],
            &[TokenCategory::Operator],
            None,
            false,
        ),
    );
    add_compound(
        &mut v,
        compound(
            "!=",
            TokenType::NormalOpr(OprType::Noteq),
            vec![Pattern::Token(TokenType::UnaryOpr(OprType::Not, Side::Left)), Pattern::Token(TokenType::AssignmentOpr(OprType::Null))],
            &[TokenCategory::Operator],
            None,
            false,
        ),
    );
    add_compound(
        &mut v,
        compound(
            "===",
            TokenType::NormalOpr(OprType::Iseq),
            vec![Pattern::Token(TokenType::NormalOpr(OprType::Eq)), Pattern::Token(TokenType::AssignmentOpr(OprType::Null))],
            &[TokenCategory::Operator],
            None,
            false,
        ),
    );
    add_compound(
        &mut v,
        compound(
            "!==",
            TokenType::NormalOpr(OprType::Isnteq),
            vec![Pattern::Token(TokenType::NormalOpr(OprType::Noteq)), Pattern::Token(TokenType::AssignmentOpr(OprType::Null))],
            &[TokenCategory::Operator],
            None,
            false,
        ),
    );
    add_compound(
        &mut v,
        compound(
            "&&",
            TokenType::NormalOpr(OprType::And),
            vec![Pattern::Token(TokenType::UnaryOpr(OprType::Ref, Side::Left)), Pattern::Token(TokenType::UnaryOpr(OprType::Ref, Side::Left))],
            &[TokenCategory::Operator],
            None,
            false,
        ),
    );
    add_compound(
        &mut v,
        compound(
            "||",
            TokenType::NormalOpr(OprType::Or),
            vec![Pattern::Token(TokenType::Bar), Pattern::Token(TokenType::Bar)],
            &[TokenCategory::Operator],
            None,
            false,
        ),
    );
    add_compound(
        &mut v,
        compound(
            "^^",
            TokenType::NormalOpr(OprType::Xor),
            vec![Pattern::Token(TokenType::NormalOpr(OprType::Power)), Pattern::Token(TokenType::NormalOpr(OprType::Power))],
            &[TokenCategory::Operator],
            None,
            false,
        ),
    );
    add_compound(
        &mut v,
        compound(
            "><",
            TokenType::NormalOpr(OprType::Swap),
            vec![Pattern::Token(TokenType::NormalOpr(OprType::Gt)), Pattern::Token(TokenType::NormalOpr(OprType::Lt))],
            &[TokenCategory::Operator],
            None,
            false,
        ),
    );
    add_compound(
        &mut v,
        compound(
            "++",
            TokenType::UnaryOpr(OprType::Increment, Side::Right),
            vec![Pattern::Token(TokenType::NormalOpr(OprType::Plus)), Pattern::Token(TokenType::NormalOpr(OprType::Plus))],
            &[TokenCategory::Operator, TokenCategory::ValueEnd],
            None,
            false,
        ),
    );
    add_compound(
        &mut v,
        compound(
            "--",
            TokenType::UnaryOpr(OprType::Decrement, Side::Right),
            vec![Pattern::Token(TokenType::NormalOpr(OprType::Minus)), Pattern::Token(TokenType::NormalOpr(OprType::Minus))],
            &[TokenCategory::Operator, TokenCategory::ValueEnd],
            None,
            false,
        ),
    );
    v
}

/// The compound tokens made second: comments and string literals, run to
/// their closing token, then keywords, flags, literal words and the
/// operators spelt with letters. Its keywords and its words `true` and
/// `false` are typed as the main lexer types them (see `word_type`).
pub fn compound_token_entries_2() -> (res: Vec<CompoundTokenEntry>)
    ensures
        res@.len() == 26,
        forall|i: int| 3 <= i < 13 || i == 19 || i == 20 ==> crate::lexer::word_type((#[trigger] res@[i]).value@)
            == res@[i].type_,
        forall|i: int| 0 <= i < res@.len() ==> (#[trigger] res@[i]).wf(),
        res@[0].value == "" && res@[0].type_ == TokenType::Comment && res@[0].combination@ == seq![Pattern::Token(TokenType::CommentStart), Pattern::Vartokens(TokenType::Null), Pattern::Value(TokenType::Whitespace, "\n")] && res@[0].categories@ == Seq::<TokenCategory>::empty() && res@[0].pair == Some(TokenType::CommentStart) && res@[0].literal == true,
        res@[1].value == "" && res@[1].type_ == TokenType::Comment && res@[1].combination@ == seq![Pattern::Token(TokenType::MultilineCommentStart), Pattern::Vartokens(TokenType::Null), Pattern::Token(TokenType::MultilineCommentEnd)] && res@[1].categories@ == Seq::<TokenCategory>::empty() && res@[1].pair == Some(TokenType::MultilineCommentStart) && res@[1].literal == true,
        res@[2].value == "" && res@[2].type_ == TokenType::LiteralString && res@[2].combination@ == seq![Pattern::Token(TokenType::Quote), Pattern::Vartokens(TokenType::Null), Pattern::Token(TokenType::Quote)] && res@[2].categories@ == seq![TokenCategory::Literal, TokenCategory::ValueStart, TokenCategory::ValueEnd] && res@[2].pair == Some(TokenType::Quote) && res@[2].literal == true,
        res@[3].value == "if" && res@[3].type_ == TokenType::Keyword(Keyword::If) && res@[3].combination@ == seq![Pattern::Value(TokenType::Variable, "if")] && res@[3].categories@ == seq![TokenCategory::ValueStart] && res@[3].pair is None && res@[3].literal == false,
        res@[4].value == "else" && res@[4].type_ == TokenType::Keyword(Keyword::Else) && res@[4].combination@ == seq![Pattern::Value(TokenType::Variable, "else")] && res@[4].categories@ == Seq::<TokenCategory>::empty() && res@[4].pair is None && res@[4].literal == false,
        res@[5].value == "elif" && res@[5].type_ == TokenType::Keyword(Keyword::Elif) && res@[5].combination@ == seq![Pattern::Value(TokenType::Variable, "elif")] && res@[5].categories@ == Seq::<TokenCategory>::empty() && res@[5].pair is None && res@[5].literal == false,
        res@[6].value == "do" && res@[6].type_ == TokenType::Keyword(Keyword::Do) && res@[6].combination@ == seq![Pattern::Value(TokenType::Variable, "do")] && res@[6].categories@ == Seq::<TokenCategory>::empty() && res@[6].pair is None && res@[6].literal == false,
        res@[7].value == "while" && res@[7].type_ == TokenType::Keyword(Keyword::While) && res@[7].combination@ == seq![Pattern::Value(TokenType::Variable, "while")] && res@[7].categories@ == Seq::<TokenCategory>::empty() && res@[7].pair is None && res@[7].literal == false,
        res@[8].value == "for" && res@[8].type_ == TokenType::Keyword(Keyword::For) && res@[8].combination@ == seq![Pattern::Value(TokenType::Variable, "for")] && res@[8].categories@ == Seq::<TokenCategory>::empty() && res@[8].pair is None && res@[8].literal == false,
        res@[9].value == "del" && res@[9].type_ == TokenType::Keyword(Keyword::Delete) && res@[9].combination@ == seq![Pattern::Value(TokenType::Variable, "del")] && res@[9].categories@ == seq![TokenCategory::Literal, TokenCategory::ValueStart] && res@[9].pair is None && res@[9].literal == false,
        res@[10].value == "ret" && res@[10].type_ == TokenType::Keyword(Keyword::Return) && res@[10].combination@ == seq![Pattern::Value(TokenType::Variable, "ret")] && res@[10].categories@ == seq![TokenCategory::Literal, TokenCategory::ValueStart] && res@[10].pair is None && res@[10].literal == false,
        res@[11].value == "proc" && res@[11].type_ == TokenType::Keyword(Keyword::Proc) && res@[11].combination@ == seq![Pattern::Value(TokenType::Variable, "proc")] && res@[11].categories@ == seq![TokenCategory::Literal, TokenCategory::ValueStart] && res@[11].pair is None && res@[11].literal == false,
        res@[12].value == "fn" && res@[12].type_ == TokenType::Keyword(Keyword::Fn) && res@[12].combination@ == seq![Pattern::Value(TokenType::Variable, "fn")] && res@[12].categories@ == seq![TokenCategory::Literal, TokenCategory::ValueStart] && res@[12].pair is None && res@[12].literal == false,
        res@[13].value == "!is" && res@[13].type_ == TokenType::NormalOpr(OprType::Isnt) && res@[13].combination@ == seq![Pattern::Token(TokenType::UnaryOpr(OprType::Not, Side::Left)), Pattern::Value(TokenType::Variable, "is")] && res@[13].categories@ == seq![TokenCategory::Operator] && res@[13].pair is None && res@[13].literal == false,
        res@[14].value == "is" && res@[14].type_ == TokenType::NormalOpr(OprType::Is) && res@[14].combination@ == seq![Pattern::Value(TokenType::Variable, "is")] && res@[14].categories@ == seq![TokenCategory::Operator] && res@[14].pair is None && res@[14].literal == false,
        res@[15].value == "hoi" && res@[15].type_ == TokenType::Flag(Flag::Hoi) && res@[15].combination@ == seq![Pattern::Value(TokenType::Variable, "hoi")] && res@[15].categories@ == seq![TokenCategory::ValueStart] && res@[15].pair is None && res@[15].literal == false,
        res@[16].value == "pub" && res@[16].type_ == TokenType::Flag(Flag::Pub) && res@[16].combination@ == seq![Pattern::Value(TokenType::Variable, "pub")] && res@[16].categories@ == seq![TokenCategory::ValueStart] && res@[16].pair is None && res@[16].literal == false,
        res@[17].value == "priv" && res@[17].type_ == TokenType::Flag(Flag::Priv) && res@[17].combination@ == seq![Pattern::Value(TokenType::Variable, "priv")] && res@[17].categories@ == seq![TokenCategory::ValueStart] && res@[17].pair is None && res@[17].literal == false,
        res@[18].value == "const" && res@[18].type_ == TokenType::Flag(Flag::Const) && res@[18].combination@ == seq![Pattern::Value(TokenType::Variable, "const")] && res@[18].categories@ == seq![TokenCategory::ValueStart] && res@[18].pair is None && res@[18].literal == false,
        res@[19].value == "true" && res@[19].type_ == TokenType::LiteralMisc && res@[19].combination@ == seq![Pattern::Value(TokenType::Variable, "true")] && res@[19].categories@ == seq![TokenCategory::Literal, TokenCategory::ValueStart, TokenCategory::ValueEnd] && res@[19].pair is None && res@[19].literal == false,
        res@[20].value == "false" && res@[20].type_ == TokenType::LiteralMisc && res@[20].combination@ == seq![Pattern::Value(TokenType::Variable, "false")] && res@[20].categories@ == seq![TokenCategory::Literal, TokenCategory::ValueStart, TokenCategory::ValueEnd] && res@[20].pair is None && res@[20].literal == false,
        res@[21].value == "null" && res@[21].type_ == TokenType::LiteralMisc && res@[21].combination@ == seq![Pattern::Value(TokenType::Variable, "null")] && res@[21].categories@ == seq![TokenCategory::Literal, TokenCategory::ValueStart, TokenCategory::ValueEnd] && res@[21].pair is None && res@[21].literal == false,
        res@[22].value == "inf" && res@[22].type_ == TokenType::LiteralMisc && res@[22].combination@ == seq![Pattern::Value(TokenType::Variable, "inf")] && res@[22].categories@ == seq![TokenCategory::Literal, TokenCategory::ValueStart, TokenCategory::ValueEnd] && res@[22].pair is None && res@[22].literal == false,
        res@[23].value == "undef" && res@[23].type_ == TokenType::LiteralMisc && res@[23].combination@ == seq![Pattern::Value(TokenType::Variable, "undef")] && res@[23].categories@ == seq![TokenCategory::Literal, TokenCategory::ValueStart, TokenCategory::ValueEnd] && res@[23].pair is None && res@[23].literal == false,
        res@[24].value == "!istype" && res@[24].type_ == TokenType::NormalOpr(OprType::Isnttype) && res@[24].combination@ == seq![Pattern::Token(TokenType::AssignmentOpr(OprType::Is)), Pattern::Value(TokenType::Variable, "type")] && res@[24].categories@ == seq![TokenCategory::Operator] && res@[24].pair is None && res@[24].literal == false,
        res@[25].value == "istype" && res@[25].type_ == TokenType::NormalOpr(OprType::Istype) && res@[25].combination@ == seq![Pattern::Token(TokenType::AssignmentOpr(OprType::Iseq)), Pattern::Value(TokenType::Variable, "type")] && res@[25].categories@ == seq![TokenCategory::Operator] && res@[25].pair is None && res@[25].literal == false,
{
    let mut v: Vec<CompoundTokenEntry> = Vec::new();
    add_compound(
        &mut v,
        compound(
            "",
            TokenType::Comment,
            vec![Pattern::Token(TokenType::CommentStart), Pattern::Vartokens(TokenType::Null), Pattern::Value(TokenType::Whitespace, "\n")],
            &[],
            Some(TokenType::CommentStart),
            true,
        ),
    );
    add_compound(
        &mut v,
        compound(
            "",
            TokenType::Comment,
            vec![Pattern::Token(TokenType::MultilineCommentStart), Pattern::Vartokens(TokenType::Null), Pattern::Token(TokenType::MultilineCommentEnd)],
            &[],
            Some(TokenType::MultilineCommentStart),
            true,
        ),
    );
    add_compound(
        &mut v,
        compound(
            "",
            TokenType::LiteralString,
            vec![Pattern::Token(TokenType::Quote), Pattern::Vartokens(TokenType::Null), Pattern::Token(TokenType::Quote)],
            &[TokenCategory::Literal, TokenCategory::ValueStart, TokenCategory::ValueEnd],
            Some(TokenType::Quote),
            true,
        ),
    );
    add_compound(
        &mut v,
        compound(
            "if",
            TokenType::Keyword(Keyword::If),
            vec![Pattern::Value(TokenType::Variable, "if")],
            &[TokenCategory::ValueStart],
            None,
            false,
        ),
    );
    add_compound(
        &mut v,
        compound(
            "else",
            TokenType::Keyword(Keyword::Else),
            vec![Pattern::Value(TokenType::Variable, "else")],
            &[],
            None,
            false,
        ),
    );
    add_compound(
        &mut v,
        compound(
            "elif",
            TokenType::Keyword(Keyword::Elif),
            vec![Pattern::Value(TokenType::Variable, "elif")],
            &[],
            None,
            false,
        ),
    );
    add_compound(
        &mut v,
        compound(
            "do",
            TokenType::Keyword(Keyword::Do),
            vec![Pattern::Value(TokenType::Variable, "do")],
            &[],
            None,
            false,
        ),
    );
    add_compound(
        &mut v,
        compound(
            "while",
            TokenType::Keyword(Keyword::While),
            vec![Pattern::Value(TokenType::Variable, "while")],
            &[],
            None,
            false,
        ),
    );
    add_compound(
        &mut v,
        compound(
            "for",
            TokenType::Keyword(Keyword::For),
            vec![Pattern::Value(TokenType::Variable, "for")],
            &[],
            None,
            false,
        ),
    );
    add_compound(
        &mut v,
        compound(
            "del",
            TokenType::Keyword(Keyword::Delete),
            vec![Pattern::Value(TokenType::Variable, "del")],
            &[TokenCategory::Literal, TokenCategory::ValueStart],
            None,
            false,
        ),
    );
    add_compound(
        &mut v,
        compound(
            "ret",
            TokenType::Keyword(Keyword::Return),
            vec![Pattern::Value(TokenType::Variable, "ret")],
            &[TokenCategory::Literal, TokenCategory::ValueStart],
            None,
            false,
        ),
    );
    add_compound(
        &mut v,
        compound(
            "proc",
            TokenType::Keyword(Keyword::Proc),
            vec![Pattern::Value(TokenType::Variable, "proc")],
            &[TokenCategory::Literal, TokenCategory::ValueStart],
            None,
            false,
        ),
    );
    add_compound(
        &mut v,
        compound(
            "fn",
            TokenType::Keyword(Keyword::Fn),
            vec![Pattern::Value(TokenType::Variable, "fn")],
            &[TokenCategory::Literal, TokenCategory::ValueStart],
            None,
            false,
        ),
    );
    add_compound(
        &mut v,
        compound(
            "!is",
            TokenType::NormalOpr(OprType::Isnt),
            vec![Pattern::Token(TokenType::UnaryOpr(OprType::Not, Side::Left)), Pattern::Value(TokenType::Variable, "is")],
            &[TokenCategory::Operator],
            None,
            false,
        ),
    );
    add_compound(
        &mut v,
        compound(
            "is",
            TokenType::NormalOpr(OprType::Is),
            vec![Pattern::Value(TokenType::Variable, "is")],
            &[TokenCategory::Operator],
            None,
            false,
        ),
    );
    add_compound(
        &mut v,
        compound(
            "hoi",
            TokenType::Flag(Flag::Hoi),
            vec![Pattern::Value(TokenType::Variable, "hoi")],
            &[TokenCategory::ValueStart],
            None,
            false,
        ),
    );
    add_compound(
        &mut v,
        compound(
            "pub",
            TokenType::Flag(Flag::Pub),
            vec![Pattern::Value(TokenType::Variable, "pub")],
            &[TokenCategory::ValueStart],
            None,
            false,
        ),
    );
    add_compound(
        &mut v,
        compound(
            "priv",
            TokenType::Flag(Flag::Priv),
            vec![Pattern::Value(TokenType::Variable, "priv")],
            &[TokenCategory::ValueStart],
            None,
            false,
        ),
    );
    add_compound(
        &mut v,
        compound(
            "const",
            TokenType::Flag(Flag::Const),
            vec![Pattern::Value(TokenType::Variable, "const")],
            &[TokenCategory::ValueStart],
            None,
            false,
        ),
    );
    add_compound(
        &mut v,
        compound(
            "true",
            TokenType::LiteralMisc,
            vec![Pattern::Value(TokenType::Variable, "true")],
            &[TokenCategory::Literal, TokenCategory::ValueStart, TokenCategory::ValueEnd],
            None,
            false,
        ),
    );
    add_compound(
        &mut v,
        compound(
            "false",
            TokenType::LiteralMisc,
            vec![Pattern::Value(TokenType::Variable, "false")],
            &[TokenCategory::Literal, TokenCategory::ValueStart, TokenCategory::ValueEnd],
            None,
            false,
        ),
    );
    add_compound(
        &mut v,
        compound(
            "null",
            TokenType::LiteralMisc,
            vec![Pattern::Value(TokenType::Variable, "null")],
            &[TokenCategory::Literal, TokenCategory::ValueStart, TokenCategory::ValueEnd],
            None,
            false,
        ),
    );
    add_compound(
        &mut v,
        compound(
            "inf",
            TokenType::LiteralMisc,
            vec![Pattern::Value(TokenType::Variable, "inf")],
            &[TokenCategory::Literal, TokenCategory::ValueStart, TokenCategory::ValueEnd],
            None,
            false,
        ),
    );
    add_compound(
        &mut v,
        compound(
            "undef",
            TokenType::LiteralMisc,
            vec![Pattern::Value(TokenType::Variable, "undef")],
            &[TokenCategory::Literal, TokenCategory::ValueStart, TokenCategory::ValueEnd],
            None,
            false,
        ),
    );
    add_compound(
        &mut v,
        compound(
            "!istype",
            TokenType::NormalOpr(OprType::Isnttype),
            vec![Pattern::Token(TokenType::AssignmentOpr(OprType::Is)), Pattern::Value(TokenType::Variable, "type")],
            &[TokenCategory::Operator],
            None,
            false,
        ),
    );
    add_compound(
        &mut v,
        compound(
            "istype",
            TokenType::NormalOpr(OprType::Istype),
            vec![Pattern::Token(TokenType::AssignmentOpr(OprType::Iseq)), Pattern::Value(TokenType::Variable, "type")],
            &[TokenCategory::Operator],
            None,
            false,
        ),
    );
    proof {
        crate::lexer_laws::lemma_keyword_words();
    }
    v
}

/// The tokens whose type depends on their side: `-` and `+` before a
/// value are signs.
pub fn side_dependent_token_entries() -> (res: Vec<SideDependentTokenEntry>)
    ensures
        res@.len() == 2,
        res@[0].from == TokenType::NormalOpr(OprType::Minus) && res@[0].side == Side::Left
            && res@[0].type_ == TokenType::UnaryOpr(OprType::MinusSign, Side::Left),
        res@[1].from == TokenType::NormalOpr(OprType::Plus) && res@[1].side == Side::Left
            && res@[1].type_ == TokenType::UnaryOpr(OprType::PlusSign, Side::Left),
{
    let mut v: Vec<SideDependentTokenEntry> = Vec::new();
    v.push(SideDependentTokenEntry {
        value: "-",
        type_: TokenType::UnaryOpr(OprType::MinusSign, Side::Left),
        side: Side::Left,
        from: TokenType::NormalOpr(OprType::Minus),
    });
    v.push(SideDependentTokenEntry {
        value: "+",
        type_: TokenType::UnaryOpr(OprType::PlusSign, Side::Left),
        side: Side::Left,
        from: TokenType::NormalOpr(OprType::Plus),
    });
    v
}

/// Whether a token of the type can start a value: the token tables give
/// it the category `ValueStart` (literals, names, opening brackets, prefix
/// operators, flags, and the keywords `if`, `del`, `ret`, `proc`, `fn`).
pub open spec fn spec_starts_value(t: TokenType) -> bool {
    match t {
        TokenType::LiteralNumber | TokenType::LiteralMisc | TokenType::LiteralString | TokenType::Variable
        | TokenType::OpenParen | TokenType::OpenSquareParen | TokenType::OpenCurlyParen | TokenType::Flag(_) => true,
        TokenType::UnaryOpr(_, side) => side == Side::Left,
        TokenType::Keyword(k) => k == Keyword::If || k == Keyword::Delete || k == Keyword::Return || k
            == Keyword::Proc || k == Keyword::Fn,
        _ => false,
    }
}

/// Whether a token of the type can end a value: the token tables give it
/// the category `ValueEnd` (literals, names, closing brackets, postfix
/// operators).
pub open spec fn spec_ends_value(t: TokenType) -> bool {
    match t {
        TokenType::LiteralNumber | TokenType::LiteralMisc | TokenType::LiteralString | TokenType::Variable
        | TokenType::CloseParen | TokenType::CloseSquareParen | TokenType::CloseCurlyParen => true,
        TokenType::UnaryOpr(_, side) => side == Side::Right,
        _ => false,
    }
}

/// Whether a token of the type can start a value (see `spec_starts_value`).
pub fn starts_value(t: TokenType) -> (res: bool)
    ensures
        res == spec_starts_value(t),
{
    match t {
        TokenType::LiteralNumber | TokenType::LiteralMisc | TokenType::LiteralString | TokenType::Variable
        | TokenType::OpenParen | TokenType::OpenSquareParen | TokenType::OpenCurlyParen | TokenType::Flag(_) => true,
        TokenType::UnaryOpr(_, side) => side == Side::Left,
        TokenType::Keyword(k) => k == Keyword::If || k == Keyword::Delete || k == Keyword::Return || k
            == Keyword::Proc || k == Keyword::Fn,
        _ => false,
    }
}

/// Whether a token of the type can end a value (see `spec_ends_value`).
pub fn ends_value(t: TokenType) -> (res: bool)
    ensures
        res == spec_ends_value(t),
{
    match t {
        TokenType::LiteralNumber | TokenType::LiteralMisc | TokenType::LiteralString | TokenType::Variable
        | TokenType::CloseParen | TokenType::CloseSquareParen | TokenType::CloseCurlyParen => true,
        TokenType::UnaryOpr(_, side) => side == Side::Right,
        _ => false,
    }
}

} // verus!
