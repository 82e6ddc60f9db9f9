use vstd::prelude::*;

verus! {

/// The kinds of lexical unit.
#[derive(Debug, Clone, Copy, PartialEq, Eq, Structural)]
pub enum TokenKind {
    String,
    Number,
    Symbol,
    OpenParen,
    CloseParen,
    Tick,
    Eof,
}

/// Mathematical model of a token: its text as a sequence of characters and
/// its position as unbounded integers.
pub ghost struct TokenView {
    pub kind: TokenKind,
    pub lexeme: Option<Seq<char>>,
    pub line: int,
    pub col: int,
}

/// One lexical unit with the 1-based line and column it is reported at.
#[derive(Debug)]
pub struct Token {
    pub kind: TokenKind,
    pub lexeme: Option<String>,
    pub line: i32,
    pub col: i32,
}

/// The model of an optional lexeme.
pub open spec fn lexeme_view(l: Option<String>) -> Option<Seq<char>> {
    match l {
        Some(s) => Some(s@),
        None => None,
    }
}

impl View for Token {
    type V = TokenView;

    open spec fn view(&self) -> TokenView {
        TokenView {
            kind: self.kind,
            lexeme: lexeme_view(self.lexeme),
            line: self.line as int,
            col: self.col as int,
        }
    }
}

impl Token {
    pub fn new(kind: TokenKind, lexeme: Option<String>, line: i32, col: i32) -> (r: Self)
        ensures
            r.kind == kind,
            r.lexeme == lexeme,
            r.line == line,
            r.col == col,
    {
        Token { kind, lexeme, line, col }
    }
}

} // verus!
