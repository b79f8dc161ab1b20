use vstd::prelude::*;
use vstd::string::*;
use crate::position::{Position, PositionView};

verus! {

/// The operators of the language.
#[derive(Clone, Copy, Debug, PartialEq, Eq, Structural)]
pub enum OprType {
    Increment,
    Decrement,
    PlusSign,
    MinusSign,
    Not,
    Power,
    DotMult,
    AstMult,
    CrossMult,
    Div,
    FloorDiv,
    CeilDiv,
    RoundDiv,
    FractDiv,
    FloorfractDiv,
    CeilfractDiv,
    RoundfractDiv,
    Modulo,
    Plus,
    Minus,
    PlusMinus,
    MinusPlus,
    And,
    Or,
    Xor,
    Gt,
    Lt,
    Gteq,
    Lteq,
    Eq,
    Noteq,
    Istype,
    Isnttype,
    Is,
    Isnt,
    Iseq,
    Isnteq,
    Concat,
    Swap,
    Ref,
    Deref,
    TypeCast,
    Null,
}

/// Declaration flags.
#[derive(Clone, Copy, Debug, PartialEq, Eq, Structural)]
pub enum Flag {
    Hoi,
    Pub,
    Priv,
    Prot,
    Const,
    Inst,
}

/// Keywords.
#[derive(Clone, Copy, Debug, PartialEq, Eq, Structural)]
pub enum Keyword {
    If,
    Else,
    Elif,
    Do,
    While,
    For,
    Delete,
    Return,
    Proc,
    Fn,
    Pre,
    Defer,
    Class,
    Struct,
}

/// The side of its operand on which a unary operator stands.
#[derive(Clone, Copy, Debug, PartialEq, Eq, Structural)]
pub enum Side {
    Left,
    Right,
}

/// The kinds of token.
#[derive(Clone, Copy, Debug, PartialEq, Eq, Structural)]
pub enum TokenType {
    CommentStart,
    CommentEnd,
    MultilineCommentStart,
    MultilineCommentEnd,
    Flag(Flag),
    UnaryOpr(OprType, Side),
    AssignmentOpr(OprType),
    NormalOpr(OprType),
    DotOpr,
    DeclarationOpr,
    LiteralMisc,
    LiteralNumber,
    LiteralString,
    StatementEnd,
    OpenParen,
    CloseParen,
    OpenSquareParen,
    CloseSquareParen,
    OpenCurlyParen,
    CloseCurlyParen,
    OpenAngleBracket,
    CloseAngleBracket,
    Comma,
    Colon,
    Apostrophe,
    Quote,
    Bar,
    Keyword(Keyword),
    Comment,
    Variable,
    Whitespace,
    Null,
}

/// Categories a token may belong to.
#[derive(Clone, Copy, Debug, PartialEq, Eq, Structural)]
pub enum TokenCategory {
    Operator,
    Literal,
    Parenthesis,
    OpenParen,
    CloseParen,
    LiteralStringStart,
    LiteralStringEnd,
    ValueStart,
    ValueEnd,
}

/// A token: its text, its kind, where it starts, its categories and the
/// whitespace that came before it.
#[derive(Debug)]
pub struct Token {
    pub value: String,
    pub type_: TokenType,
    pub position: Position,
    pub categories: &'static [TokenCategory],
    pub whitespace: String,
}

/// A token as plain values.
pub struct TokenView {
    pub value: Seq<char>,
    pub type_: TokenType,
    pub position: PositionView,
    pub categories: Seq<TokenCategory>,
    pub whitespace: Seq<char>,
}

impl View for Token {
    type V = TokenView;

    open spec fn view(&self) -> TokenView {
        TokenView {
            value: self.value@,
            type_: self.type_,
            position: self.position@,
            categories: self.categories@,
            whitespace: self.whitespace@,
        }
    }
}

impl Clone for Token {
    fn clone(&self) -> (res: Self)
        ensures
            res == *self,
    {
        Token {
            value: self.value.clone(),
            type_: self.type_,
            position: self.position.clone(),
            categories: self.categories,
            whitespace: self.whitespace.clone(),
        }
    }
}

impl Token {
    /// Whether two tokens are the same in every field.
    pub fn same_as(&self, other: &Token) -> (res: bool)
        ensures
            res == (self@ == other@),
    {
        if !(self.value == other.value && self.type_ == other.type_
            && self.position.same_as(&other.position) && self.whitespace == other.whitespace) {
            return false;
        }
        if self.categories.len() != other.categories.len() {
            return false;
        }
        let mut i: usize = 0;
        while i < self.categories.len()
            invariant
                self.categories@.len() == other.categories@.len(),
                0 <= i <= self.categories@.len(),
                forall|j: int| 0 <= j < i ==> self.categories@[j] == other.categories@[j],
            decreases self.categories@.len() - i,
        {
            if self.categories[i] != other.categories[i] {
                return false;
            }
            i = i + 1;
        }
        proof {
            assert(self.categories@ =~= other.categories@);
        }
        true
    }

    /// An empty token of type `Null` at the default position.
    pub fn default_token() -> (res: Token)
        ensures
            res.value@ == Seq::<char>::empty(),
            res.type_ == TokenType::Null,
            res.position.filename@ == "[unknown]"@,
            res.position.line == 1,
            res.position.column == 1,
            res.categories@ == Seq::<TokenCategory>::empty(),
            res.whitespace@ == Seq::<char>::empty(),
    {
        Token {
            value: String::new(),
            type_: TokenType::Null,
            position: Position::default_pos(),
            categories: &[],
            whitespace: String::new(),
        }
    }

    /// The token's text as it stood in the source: its whitespace, then its value.
    pub open spec fn spec_raw(&self) -> Seq<char> {
        self.whitespace@ + self.value@
    }

    /// The token's text as it stood in the source: its whitespace, then its value.
    pub fn get_raw(&self) -> (res: String)
        ensures
            res@ == self.spec_raw(),
    {
        let mut s = self.whitespace.clone();
        s.append(self.value.as_str());
        s
    }
}

/// The precedence of an operator: the higher, the later it binds.
pub open spec fn spec_order(opr: OprType) -> u8 {
    match opr {
        OprType::Null => 0,
        OprType::Increment | OprType::Decrement | OprType::PlusSign | OprType::MinusSign
        | OprType::Not | OprType::Ref | OprType::Deref => 1,
        OprType::TypeCast => 2,
        OprType::Power => 3,
        OprType::DotMult => 5,
        OprType::AstMult | OprType::FractDiv | OprType::FloorfractDiv | OprType::CeilfractDiv
        | OprType::RoundfractDiv | OprType::Modulo => 6,
        OprType::CrossMult | OprType::Div | OprType::FloorDiv | OprType::CeilDiv
        | OprType::RoundDiv => 7,
        OprType::Plus | OprType::Minus | OprType::PlusMinus | OprType::MinusPlus => 8,
        OprType::Gt | OprType::Lt | OprType::Gteq | OprType::Lteq | OprType::Eq | OprType::Noteq
        | OprType::Istype | OprType::Isnttype | OprType::Is | OprType::Isnt | OprType::Iseq
        | OprType::Isnteq => 10,
        OprType::And => 14,
        OprType::Xor => 15,
        OprType::Or => 16,
        OprType::Concat => 18,
        OprType::Swap => 19,
    }
}

/// The precedence of an operator (see `spec_order`).
pub fn get_order(opr: &OprType) -> (res: u8)
    ensures
        res == spec_order(*opr),
{
    match *opr {
        OprType::Null => 0,
        OprType::Increment | OprType::Decrement | OprType::PlusSign | OprType::MinusSign
        | OprType::Not | OprType::Ref | OprType::Deref => 1,
        OprType::TypeCast => 2,
        OprType::Power => 3,
        OprType::DotMult => 5,
        OprType::AstMult | OprType::FractDiv | OprType::FloorfractDiv | OprType::CeilfractDiv
        | OprType::RoundfractDiv | OprType::Modulo => 6,
        OprType::CrossMult | OprType::Div | OprType::FloorDiv | OprType::CeilDiv
        | OprType::RoundDiv => 7,
        OprType::Plus | OprType::Minus | OprType::PlusMinus | OprType::MinusPlus => 8,
        OprType::Gt | OprType::Lt | OprType::Gteq | OprType::Lteq | OprType::Eq | OprType::Noteq
        | OprType::Istype | OprType::Isnttype | OprType::Is | OprType::Isnt | OprType::Iseq
        | OprType::Isnteq => 10,
        OprType::And => 14,
        OprType::Xor => 15,
        OprType::Or => 16,
        OprType::Concat => 18,
        OprType::Swap => 19,
    }
}

/// The name of an operator, as its debug form writes it.
pub open spec fn opr_text(o: OprType) -> Seq<char> {
    match o {
        OprType::Increment => "Increment"@,
        OprType::Decrement => "Decrement"@,
        OprType::PlusSign => "PlusSign"@,
        OprType::MinusSign => "MinusSign"@,
        OprType::Not => "Not"@,
        OprType::Power => "Power"@,
        OprType::DotMult => "DotMult"@,
        OprType::AstMult => "AstMult"@,
        OprType::CrossMult => "CrossMult"@,
        OprType::Div => "Div"@,
        OprType::FloorDiv => "FloorDiv"@,
        OprType::CeilDiv => "CeilDiv"@,
        OprType::RoundDiv => "RoundDiv"@,
        OprType::FractDiv => "FractDiv"@,
        OprType::FloorfractDiv => "FloorfractDiv"@,
        OprType::CeilfractDiv => "CeilfractDiv"@,
        OprType::RoundfractDiv => "RoundfractDiv"@,
        OprType::Modulo => "Modulo"@,
        OprType::Plus => "Plus"@,
        OprType::Minus => "Minus"@,
        OprType::PlusMinus => "PlusMinus"@,
        OprType::MinusPlus => "MinusPlus"@,
        OprType::And => "And"@,
        OprType::Or => "Or"@,
        OprType::Xor => "Xor"@,
        OprType::Gt => "Gt"@,
        OprType::Lt => "Lt"@,
        OprType::Gteq => "Gteq"@,
        OprType::Lteq => "Lteq"@,
        OprType::Eq => "Eq"@,
        OprType::Noteq => "Noteq"@,
        OprType::Istype => "Istype"@,
        OprType::Isnttype => "Isnttype"@,
        OprType::Is => "Is"@,
        OprType::Isnt => "Isnt"@,
        OprType::Iseq => "Iseq"@,
        OprType::Isnteq => "Isnteq"@,
        OprType::Concat => "Concat"@,
        OprType::Swap => "Swap"@,
        OprType::Ref => "Ref"@,
        OprType::Deref => "Deref"@,
        OprType::TypeCast => "TypeCast"@,
        OprType::Null => "Null"@,
    }
}

/// The name of an operator (see `opr_text`).
pub fn opr_name(o: &OprType) -> (res: &'static str)
    ensures
        res@ == opr_text(*o),
{
    match *o {
        OprType::Increment => "Increment",
        OprType::Decrement => "Decrement",
        OprType::PlusSign => "PlusSign",
        OprType::MinusSign => "MinusSign",
        OprType::Not => "Not",
        OprType::Power => "Power",
        OprType::DotMult => "DotMult",
        OprType::AstMult => "AstMult",
        OprType::CrossMult => "CrossMult",
        OprType::Div => "Div",
        OprType::FloorDiv => "FloorDiv",
        OprType::CeilDiv => "CeilDiv",
        OprType::RoundDiv => "RoundDiv",
        OprType::FractDiv => "FractDiv",
        OprType::FloorfractDiv => "FloorfractDiv",
        OprType::CeilfractDiv => "CeilfractDiv",
        OprType::RoundfractDiv => "RoundfractDiv",
        OprType::Modulo => "Modulo",
        OprType::Plus => "Plus",
        OprType::Minus => "Minus",
        OprType::PlusMinus => "PlusMinus",
        OprType::MinusPlus => "MinusPlus",
        OprType::And => "And",
        OprType::Or => "Or",
        OprType::Xor => "Xor",
        OprType::Gt => "Gt",
        OprType::Lt => "Lt",
        OprType::Gteq => "Gteq",
        OprType::Lteq => "Lteq",
        OprType::Eq => "Eq",
        OprType::Noteq => "Noteq",
        OprType::Istype => "Istype",
        OprType::Isnttype => "Isnttype",
        OprType::Is => "Is",
        OprType::Isnt => "Isnt",
        OprType::Iseq => "Iseq",
        OprType::Isnteq => "Isnteq",
        OprType::Concat => "Concat",
        OprType::Swap => "Swap",
        OprType::Ref => "Ref",
        OprType::Deref => "Deref",
        OprType::TypeCast => "TypeCast",
        OprType::Null => "Null",
    }
}

} // verus!
