use vstd::prelude::*;
use vstd::string::StringExecFns;

use crate::text::{
    alphanumeric, ascii, chars_of, decimal_digit, decimal_of, is_alphanumeric, is_ascii_char,
    is_decimal_digit, is_white_space, push_char, push_decimal, white_space,
};
use crate::token::{lexeme_view, Token, TokenKind, TokenView};

verus! {

/// Why tokenizing could not go on.
#[derive(Debug, Clone, Copy, PartialEq, Eq, Structural)]
pub enum LexerErrKind {
    /// A character that starts no token.
    UnknownToken,
    /// The input ended where the given character was needed.
    UnexpectedToken(char),
}

/// Mathematical model of a lexical error.
pub ghost struct LexerErrorView {
    pub kind: LexerErrKind,
    pub c: char,
    pub line: int,
    pub col: int,
}

/// A lexical error: its kind, the character found, and where.
#[derive(Debug)]
pub struct LexerError {
    pub kind: LexerErrKind,
    pub c: char,
    pub line: i32,
    pub col: i32,
}

impl View for LexerError {
    type V = LexerErrorView;

    open spec fn view(&self) -> LexerErrorView {
        LexerErrorView { kind: self.kind, c: self.c, line: self.line as int, col: self.col as int }
    }
}

/// The human-readable text of an error.
pub open spec fn error_message(e: LexerErrorView) -> Seq<char> {
    match e.kind {
        LexerErrKind::UnknownToken => "Unknown token ["@ + seq![e.c] + "] @ "@ + decimal_of(e.line)
            + ":"@ + decimal_of(e.col),
        LexerErrKind::UnexpectedToken(x) => "Unexpected token ["@ + seq![e.c] + "] expected ["@
            + seq![x] + "] @ "@ + decimal_of(e.line) + ":"@ + decimal_of(e.col),
    }
}

impl LexerError {
    pub fn new(kind: LexerErrKind, c: char, line: i32, col: i32) -> (r: LexerError)
        ensures
            r.kind == kind,
            r.c == c,
            r.line == line,
            r.col == col,
    {
        LexerError { kind, c, line, col }
    }

    pub fn generate_msg(&self) -> (r: String)
        ensures
            r@ == error_message(self@),
    {
        let mut s: String;
        match self.kind {
            LexerErrKind::UnknownToken => {
                s = String::from_str("Unknown token [");
                push_char(&mut s, self.c);
            },
            LexerErrKind::UnexpectedToken(x) => {
                s = String::from_str("Unexpected token [");
                push_char(&mut s, self.c);
                s.append("] expected [");
                push_char(&mut s, x);
            },
        }
        s.append("] @ ");
        push_decimal(&mut s, self.line);
        s.append(":");
        push_decimal(&mut s, self.col);
        proof {
            let ghost e = self@;
            assert(s@ =~= error_message(e));
        }
        s
    }
}

// ---------------------------------------------------------------------------
// The model: where a cursor stands, and what one step of tokenizing yields.
// ---------------------------------------------------------------------------

/// The character at index `i`, or `'\0'` outside the text.
pub open spec fn char_at(src: Seq<char>, i: int) -> char {
    if 0 <= i < src.len() {
        src[i]
    } else {
        '\0'
    }
}

/// The 1-based line of the character at index `p`: one more than the
/// newlines before it.
pub open spec fn line_at(src: Seq<char>, p: int) -> int
    decreases p,
{
    if p <= 0 {
        1
    } else if char_at(src, p - 1) == '\n' {
        line_at(src, p - 1) + 1
    } else {
        line_at(src, p - 1)
    }
}

/// The 1-based column of the character at index `p`: it starts at 1, grows by
/// one with each character and returns to 1 after a newline.
pub open spec fn col_at(src: Seq<char>, p: int) -> int
    decreases p,
{
    if p <= 0 {
        1
    } else if char_at(src, p - 1) == '\n' {
        1
    } else {
        col_at(src, p - 1) + 1
    }
}

/// First index from `p` on that holds no whitespace and starts no comment.
pub open spec fn skip_trivia(src: Seq<char>, p: int) -> int
    decreases src.len() - p, 0int,
{
    if p < 0 || p >= src.len() {
        p
    } else if white_space(src[p]) {
        skip_trivia(src, p + 1)
    } else if src[p] == ';' {
        skip_comment(src, p + 1)
    } else {
        p
    }
}

/// Inside a comment at `p`: where tokenizing goes on after it. The comment
/// runs to the end of the line; the newline is then whitespace.
pub open spec fn skip_comment(src: Seq<char>, p: int) -> int
    decreases src.len() - p, 1int,
{
    if p < 0 || p >= src.len() {
        p
    } else if src[p] == '\n' {
        skip_trivia(src, p)
    } else {
        skip_comment(src, p + 1)
    }
}

/// End of the run of decimal digits that starts at `p`.
pub open spec fn digits_end(src: Seq<char>, p: int) -> int
    decreases src.len() - p,
{
    if 0 <= p < src.len() && decimal_digit(src[p]) {
        digits_end(src, p + 1)
    } else {
        p
    }
}

/// A character that continues a symbol.
pub open spec fn symbol_char(c: char) -> bool {
    alphanumeric(c) || c == '_'
}

/// End of the run of symbol characters that starts at `p`.
pub open spec fn symbol_end(src: Seq<char>, p: int) -> int
    decreases src.len() - p,
{
    if 0 <= p < src.len() && symbol_char(src[p]) {
        symbol_end(src, p + 1)
    } else {
        p
    }
}

/// Index of the first double quote from `p` on, or the length of `src`.
pub open spec fn quote_end(src: Seq<char>, p: int) -> int
    decreases src.len() - p,
{
    if 0 <= p < src.len() && src[p] != '"' {
        quote_end(src, p + 1)
    } else {
        p
    }
}

/// A token reported at the position of the character at index `p`.
pub open spec fn token_at(kind: TokenKind, lexeme: Option<Seq<char>>, src: Seq<char>, p: int) -> TokenView {
    TokenView { kind, lexeme, line: line_at(src, p), col: col_at(src, p) }
}

/// An error reported at the position of the character at index `p`.
pub open spec fn error_at(kind: LexerErrKind, c: char, src: Seq<char>, p: int) -> LexerErrorView {
    LexerErrorView { kind, c, line: line_at(src, p), col: col_at(src, p) }
}

/// One step of tokenizing `src` from the cursor `pos`: the token or error
/// produced, and where the cursor stands afterwards.
///
/// Whitespace and comments are skipped first. Symbols, numbers and
/// parentheses are reported at their first character. A string is reported on
/// the line of its closing quote, at the column of that quote less the length
/// of its content plus one: the column just after its first character when it
/// holds no newline. An unterminated string is reported at its opening quote.
pub open spec fn lex_next(src: Seq<char>, pos: int) -> (Result<TokenView, LexerErrorView>, int) {
    let s = skip_trivia(src, pos);
    if s >= src.len() {
        (Ok(token_at(TokenKind::Eof, None, src, s)), s)
    } else if decimal_digit(src[s]) {
        let e = digits_end(src, s + 1);
        (Ok(token_at(TokenKind::Number, Some(src.subrange(s, e)), src, s)), e)
    } else if src[s] == '"' {
        let e = quote_end(src, s + 1);
        if e >= src.len() {
            (Err(error_at(LexerErrKind::UnexpectedToken('"'), '\0', src, s)), e)
        } else {
            (
                Ok(
                    TokenView {
                        kind: TokenKind::String,
                        lexeme: Some(src.subrange(s + 1, e)),
                        line: line_at(src, e),
                        col: col_at(src, e) - (e - s - 2),
                    },
                ),
                e + 1,
            )
        }
    } else if src[s] == '(' {
        (Ok(token_at(TokenKind::OpenParen, None, src, s)), s + 1)
    } else if src[s] == ')' {
        (Ok(token_at(TokenKind::CloseParen, None, src, s)), s + 1)
    } else if ascii(src[s]) {
        let e = symbol_end(src, s + 1);
        (Ok(token_at(TokenKind::Symbol, Some(src.subrange(s, e)), src, s)), e)
    } else {
        (Err(error_at(LexerErrKind::UnknownToken, src[s], src, s)), s + 1)
    }
}

/// The model of what `next_token` returns.
pub open spec fn outcome_view(r: &Result<Token, LexerError>) -> Result<TokenView, LexerErrorView> {
    match r {
        Ok(t) => Ok(t@),
        Err(e) => Err(e@),
    }
}

proof fn lemma_position_bounds(src: Seq<char>, p: int)
    requires
        0 <= p,
    ensures
        1 <= line_at(src, p) <= p + 1,
        1 <= col_at(src, p) <= p + 1,
    decreases p,
{
    if p > 0 {
        lemma_position_bounds(src, p - 1);
    }
}

proof fn lemma_skip_bounds(src: Seq<char>, p: int)
    requires
        0 <= p <= src.len(),
    ensures
        p <= skip_trivia(src, p) <= src.len(),
        p <= skip_comment(src, p) <= src.len(),
    decreases src.len() - p,
{
    if p < src.len() {
        lemma_skip_bounds(src, p + 1);
    }
}

/// Past the end of the text tokenizing stays put: a step that yields `Eof`
/// leaves the cursor at the end of the text, a step from there yields the
/// same `Eof` token again and never an error.
pub proof fn lemma_eof_idempotent(src: Seq<char>, pos: int)
    requires
        0 <= pos <= src.len(),
    ensures
        lex_next(src, src.len() as int) == (
            Ok::<TokenView, LexerErrorView>(token_at(TokenKind::Eof, None, src, src.len() as int)),
            src.len() as int,
        ),
        ({
            let (r, next) = lex_next(src, pos);
            (r is Ok && r->Ok_0.kind == TokenKind::Eof) ==> next == src.len() && lex_next(src, next)
                == lex_next(src, pos)
        }),
{
    lemma_skip_bounds(src, pos);
}

proof fn lemma_runs_advance(src: Seq<char>, p: int)
    requires
        0 <= p <= src.len(),
    ensures
        p <= digits_end(src, p) <= src.len(),
        p <= symbol_end(src, p) <= src.len(),
        p <= quote_end(src, p) <= src.len(),
    decreases src.len() - p,
{
    if p < src.len() {
        lemma_runs_advance(src, p + 1);
    }
}

/// Tokenizing always makes progress: a step that yields anything but `Eof`
/// moves the cursor forward, and no step moves it past the end of the text.
pub proof fn lemma_step_advances(src: Seq<char>, pos: int)
    requires
        0 <= pos <= src.len(),
    ensures
        ({
            let (r, next) = lex_next(src, pos);
            &&& next <= src.len()
            &&& !(r is Ok && r->Ok_0.kind == TokenKind::Eof) ==> pos < next
        }),
{
    lemma_skip_bounds(src, pos);
    let s = skip_trivia(src, pos);
    if s < src.len() {
        lemma_runs_advance(src, s + 1);
    }
}

/// A symbol, number or parenthesis token is taken from the text: it is the
/// run of characters that ends where the cursor stops (a parenthesis is the
/// one character before it), and it is reported at the line and column of its
/// first character.
pub proof fn lemma_token_from_text(src: Seq<char>, pos: int)
    requires
        0 <= pos <= src.len(),
    ensures
        ({
            let (r, next) = lex_next(src, pos);
            r is Ok ==> {
                let t = r->Ok_0;
                let text = match t.kind {
                    TokenKind::OpenParen => seq!['('],
                    TokenKind::CloseParen => seq![')'],
                    _ => t.lexeme.unwrap_or(Seq::empty()),
                };
                let first = next - text.len();
                (t.kind == TokenKind::Symbol || t.kind == TokenKind::Number || t.kind
                    == TokenKind::OpenParen || t.kind == TokenKind::CloseParen) ==> {
                    &&& pos <= first < next <= src.len()
                    &&& src.subrange(first, next) == text
                    &&& t.line == line_at(src, first)
                    &&& t.col == col_at(src, first)
                }
            }
        }),
{
    lemma_skip_bounds(src, pos);
    let s = skip_trivia(src, pos);
    if s < src.len() {
        lemma_runs_advance(src, s + 1);
        if src[s] == '(' {
            assert(src.subrange(s, s + 1) =~= seq!['(']);
        } else if src[s] == ')' {
            assert(src.subrange(s, s + 1) =~= seq![')']);
        }
    }
}

// ---------------------------------------------------------------------------
// The lexer.
// ---------------------------------------------------------------------------

/// A cursor over source text that hands out one token per call.
#[derive(Debug)]
pub struct Lexer {
    src: Vec<char>,
    pos: usize,
    line: i32,
    col: i32,
}

impl Lexer {
    /// The source text.
    pub closed spec fn text(&self) -> Seq<char> {
        self.src@
    }

    /// Index of the next character to read.
    pub closed spec fn cursor(&self) -> int {
        self.pos as int
    }

    /// Line and column are those of the character under the cursor, and both
    /// the cursor and the length of the text fit in an `i32`.
    pub closed spec fn wf(&self) -> bool {
        &&& self.pos < i32::MAX
        &&& self.src.len() < i32::MAX
        &&& self.line == line_at(self.src@, self.pos as int)
        &&& self.col == col_at(self.src@, self.pos as int)
    }

    pub fn new(src: &str) -> (r: Lexer)
        requires
            src@.len() < i32::MAX,
        ensures
            r.wf(),
            r.text() == src@,
            r.cursor() == 0,
    {
        Lexer { src: chars_of(src), pos: 0, line: 1, col: 1 }
    }

    /// The whole text has been read.
    fn bound(&self) -> (r: bool)
        ensures
            r == (self.pos >= self.src.len()),
    {
        self.pos >= self.src.len()
    }

    /// The character under the cursor, or `'\0'` at the end of the text.
    fn peek(&self) -> (r: char)
        requires
            self.wf(),
        ensures
            r == char_at(self.src@, self.pos as int),
    {
        if self.bound() {
            '\0'
        } else {
            self.src[self.pos]
        }
    }

    /// Moves the cursor past one character, keeping line and column. At the
    /// end of the text the cursor still moves on, over a `'\0'`. The column,
    /// which can reach the cursor plus one, must still fit in an `i32`.
    fn advance(&mut self)
        requires
            old(self).wf(),
            old(self).pos + 1 < i32::MAX,
        ensures
            final(self).wf(),
            final(self).src == old(self).src,
            final(self).pos == old(self).pos + 1,
    {
        proof {
            lemma_position_bounds(self.src@, self.pos as int);
        }
        let c = self.peek();
        self.pos += 1;
        self.col += 1;
        if c == '\n' {
            self.line += 1;
            self.col = 1;
        }
    }

    /// Reads the character under the cursor (`'\0'` at the end of the text)
    /// and moves past it.
    fn consume(&mut self) -> (c: char)
        requires
            old(self).wf(),
            old(self).pos + 1 < i32::MAX,
        ensures
            final(self).wf(),
            final(self).src == old(self).src,
            final(self).pos == old(self).pos + 1,
            c == char_at(old(self).src@, old(self).pos as int),
    {
        let c = self.peek();
        self.advance();
        c
    }

    /// A token at the cursor's own position.
    fn make_token(&self, kind: TokenKind, lexeme: Option<String>) -> (r: Token)
        requires
            self.wf(),
        ensures
            r@ == token_at(kind, lexeme_view(lexeme), self.src@, self.pos as int),
    {
        Token::new(kind, lexeme, self.line, self.col)
    }

    /// Reads the rest of a number whose first digit was just read.
    fn make_number(&mut self, line: i32, col: i32) -> (r: Token)
        requires
            old(self).wf(),
            1 <= old(self).pos <= old(self).src.len(),
            line == line_at(old(self).src@, old(self).pos - 1),
            col == col_at(old(self).src@, old(self).pos - 1),
        ensures
            final(self).wf(),
            final(self).src == old(self).src,
            final(self).pos <= final(self).src.len(),
            final(self).pos == digits_end(old(self).src@, old(self).pos as int),
            r@ == token_at(
                TokenKind::Number,
                Some(old(self).src@.subrange(old(self).pos - 1, final(self).pos as int)),
                old(self).src@,
                old(self).pos - 1,
            ),
    {
        let ghost start = self.pos - 1;
        let mut text = String::new();
        push_char(&mut text, self.src[self.pos - 1]);
        while !self.bound() && is_decimal_digit(self.peek())
            invariant
                self.wf(),
                self.src == old(self).src,
                0 <= start < self.pos <= self.src.len(),
                text@ == self.src@.subrange(start, self.pos as int),
                digits_end(self.src@, self.pos as int) == digits_end(self.src@, start + 1),
            decreases self.src.len() - self.pos,
        {
            let c = self.consume();
            push_char(&mut text, c);
            assert(text@ =~= self.src@.subrange(start, self.pos as int));
        }
        Token::new(TokenKind::Number, Some(text), line, col)
    }

    /// Reads the rest of a symbol whose first character was just read.
    fn make_symbol(&mut self, line: i32, col: i32) -> (r: Token)
        requires
            old(self).wf(),
            1 <= old(self).pos <= old(self).src.len(),
            line == line_at(old(self).src@, old(self).pos - 1),
            col == col_at(old(self).src@, old(self).pos - 1),
        ensures
            final(self).wf(),
            final(self).src == old(self).src,
            final(self).pos <= final(self).src.len(),
            final(self).pos == symbol_end(old(self).src@, old(self).pos as int),
            r@ == token_at(
                TokenKind::Symbol,
                Some(old(self).src@.subrange(old(self).pos - 1, final(self).pos as int)),
                old(self).src@,
                old(self).pos - 1,
            ),
    {
        let ghost start = self.pos - 1;
        let mut text = String::new();
        push_char(&mut text, self.src[self.pos - 1]);
        while !self.bound() && (is_alphanumeric(self.peek()) || self.peek() == '_')
            invariant
                self.wf(),
                self.src == old(self).src,
                0 <= start < self.pos <= self.src.len(),
                text@ == self.src@.subrange(start, self.pos as int),
                symbol_end(self.src@, self.pos as int) == symbol_end(self.src@, start + 1),
            decreases self.src.len() - self.pos,
        {
            let c = self.consume();
            push_char(&mut text, c);
            assert(text@ =~= self.src@.subrange(start, self.pos as int));
        }
        Token::new(TokenKind::Symbol, Some(text), line, col)
    }

    /// Reads the rest of a string whose opening quote was just read, and its
    /// closing quote.
    fn make_string(&mut self, line: i32, col: i32) -> (r: Result<Token, LexerError>)
        requires
            old(self).wf(),
            1 <= old(self).pos <= old(self).src.len(),
            line == line_at(old(self).src@, old(self).pos - 1),
            col == col_at(old(self).src@, old(self).pos - 1),
        ensures
            final(self).wf(),
            final(self).src == old(self).src,
            final(self).pos <= final(self).src.len(),
            ({
                let src = old(self).src@;
                let s = old(self).pos - 1;
                let e = quote_end(src, s + 1);
                if e >= src.len() {
                    &&& final(self).pos == e
                    &&& outcome_view(&r) == Err::<TokenView, LexerErrorView>(
                        error_at(LexerErrKind::UnexpectedToken('"'), '\0', src, s),
                    )
                } else {
                    &&& final(self).pos == e + 1
                    &&& outcome_view(&r) == Ok::<TokenView, LexerErrorView>(
                        TokenView {
                            kind: TokenKind::String,
                            lexeme: Some(src.subrange(s + 1, e)),
                            line: line_at(src, e),
                            col: col_at(src, e) - (e - s - 2),
                        },
                    )
                }
            }),
    {
        let ghost start = self.pos as int;
        let mut text = String::new();
        let mut len: usize = 0;
        while !self.bound() && self.peek() != '"'
            invariant
                self.wf(),
                self.src == old(self).src,
                0 <= start <= self.pos <= self.src.len(),
                len == self.pos - start,
                text@ == self.src@.subrange(start, self.pos as int),
                quote_end(self.src@, self.pos as int) == quote_end(self.src@, start),
            decreases self.src.len() - self.pos,
        {
            let c = self.consume();
            push_char(&mut text, c);
            len += 1;
            assert(text@ =~= self.src@.subrange(start, self.pos as int));
        }
        if self.peek() != '"' {
            return Err(LexerError::new(LexerErrKind::UnexpectedToken('"'), self.peek(), line, col));
        }
        proof {
            lemma_position_bounds(self.src@, self.pos as int);
        }
        let tok = Token::new(TokenKind::String, Some(text), self.line, self.col - len as i32 + 1);
        self.consume();
        Ok(tok)
    }

    /// Hands out the next token, skipping whitespace and comments before it.
    /// Once the text is exhausted every call yields an `Eof` token.
    pub fn next_token(&mut self) -> (r: Result<Token, LexerError>)
        requires
            old(self).wf(),
        ensures
            final(self).wf(),
            final(self).text() == old(self).text(),
            0 <= final(self).cursor(),
            old(self).cursor() <= old(self).text().len()
                ==> final(self).cursor() <= final(self).text().len(),
            outcome_view(&r) == lex_next(old(self).text(), old(self).cursor()).0,
            final(self).cursor() == lex_next(old(self).text(), old(self).cursor()).1,
    {
        let ghost start = skip_trivia(self.src@, self.pos as int);
        loop
            invariant
                self.wf(),
                self.src == old(self).src,
                skip_trivia(self.src@, self.pos as int) == start,
                old(self).pos <= old(self).src.len() ==> self.pos <= self.src.len(),
                start == skip_trivia(old(self).src@, old(self).pos as int),
            decreases self.src.len() - self.pos,
        {
            if self.bound() {
                return Ok(self.make_token(TokenKind::Eof, None));
            }
            let ghost p = self.pos as int;
            let line = self.line;
            let col = self.col;
            let c = self.consume();
            if is_white_space(c) {
                continue;
            } else if is_decimal_digit(c) {
                return Ok(self.make_number(line, col));
            } else if c == '"' {
                return self.make_string(line, col);
            } else if c == ';' {
                while !self.bound() && self.peek() != '\n'
                    invariant
                        self.wf(),
                        self.src == old(self).src,
                        skip_comment(self.src@, self.pos as int) == start,
                        p < self.pos <= self.src.len(),
                    decreases self.src.len() - self.pos,
                {
                    self.advance();
                }
                proof {
                    assert(white_space('\n'));
                }
                continue;
            } else if c == '(' {
                return Ok(Token::new(TokenKind::OpenParen, None, line, col));
            } else if c == ')' {
                return Ok(Token::new(TokenKind::CloseParen, None, line, col));
            } else if is_ascii_char(c) {
                return Ok(self.make_symbol(line, col));
            }
            return Err(LexerError::new(LexerErrKind::UnknownToken, c, line, col));
        }
    }
}

} // verus!
