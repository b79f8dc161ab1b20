use vstd::prelude::*;
use vstd::string::*;

verus! {

/// A place in a source file: the file's name and a 1-based line and column.
#[derive(Debug)]
pub struct Position {
    pub filename: String,
    pub line: u32,
    pub column: u32,
}

/// A position as plain values.
pub struct PositionView {
    pub filename: Seq<char>,
    pub line: u32,
    pub column: u32,
}

impl View for Position {
    type V = PositionView;

    open spec fn view(&self) -> PositionView {
        PositionView { filename: self.filename@, line: self.line, column: self.column }
    }
}

impl Clone for Position {
    fn clone(&self) -> (res: Self)
        ensures
            res == *self,
    {
        Position { filename: self.filename.clone(), line: self.line, column: self.column }
    }
}

/// The position of what has no place in a source: `[unknown]:1:1`.
pub open spec fn default_pos_view() -> PositionView {
    PositionView { filename: "[unknown]"@, line: 1, column: 1 }
}

impl Position {
    /// `[unknown]:1:1`
    pub fn default_pos() -> (res: Position)
        ensures
            res@ == default_pos_view(),
            res.filename@ == "[unknown]"@,
            res.line == 1,
            res.column == 1,
    {
        Position { filename: String::from_str("[unknown]"), line: 1, column: 1 }
    }

    /// A position at the start of the named file.
    pub fn start_of(filename: &str) -> (res: Position)
        ensures
            res.filename@ == filename@,
            res.line == 1,
            res.column == 1,
    {
        Position { filename: String::from_str(filename), line: 1, column: 1 }
    }

    /// Whether two positions are the same.
    pub fn same_as(&self, other: &Position) -> (res: bool)
        ensures
            res == (self@ == other@),
    {
        self.filename == other.filename && self.line == other.line && self.column == other.column
    }

    /// The position after the character `c`: a newline starts a new line at
    /// column 1, any other character moves one column to the right.
    pub fn next(&mut self, c: &char)
        requires
            old(self).line < u32::MAX,
            old(self).column < u32::MAX,
        ensures
            final(self).filename == old(self).filename,
            *c == '\n' ==> final(self).line == old(self).line + 1 && final(self).column == 1,
            *c != '\n' ==> final(self).line == old(self).line && final(self).column == old(self).column + 1,
    {
        if *c == '\n' {
            self.line = self.line + 1;
            self.column = 1;
        } else {
            self.column = self.column + 1
        }
    }
}

/// How a position is written: `file:line:column`.
pub open spec fn position_text(p: PositionView) -> Seq<char> {
    p.filename + ":"@ + crate::text::decimal(p.line as nat) + ":"@ + crate::text::decimal(p.column as nat)
}

impl Position {
    /// How the position is written (see `position_text`).
    pub fn to_text(&self) -> (res: String)
        ensures
            res@ == position_text(self@),
    {
        let mut s = self.filename.clone();
        s.append(":");
        let l = crate::text::u128_to_decimal(self.line as u128);
        s.append(l.as_str());
        s.append(":");
        let c = crate::text::u128_to_decimal(self.column as u128);
        s.append(c.as_str());
        s
    }
}

} // verus!
