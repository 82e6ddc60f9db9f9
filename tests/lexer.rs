use exprlang::lexer::{Lexer, LexerErrKind, LexerError};
use exprlang::token::{Token, TokenKind};

fn tok(lexer: &mut Lexer) -> Token {
    match lexer.next_token() {
        Ok(t) => t,
        Err(e) => panic!("unexpected error: {}", e.generate_msg()),
    }
}

fn check(t: &Token, kind: TokenKind, lexeme: Option<&str>, line: i32, col: i32) {
    assert_eq!(t.kind, kind);
    assert_eq!(t.lexeme.as_deref(), lexeme);
    assert_eq!((t.line, t.col), (line, col));
}

#[test]
fn symbols_report_their_first_column() {
    let mut lexer = Lexer::new("abc def");
    check(&tok(&mut lexer), TokenKind::Symbol, Some("abc"), 1, 1);
    check(&tok(&mut lexer), TokenKind::Symbol, Some("def"), 1, 5);
    assert_eq!(tok(&mut lexer).kind, TokenKind::Eof);
}

#[test]
fn lines_are_tracked() {
    let mut lexer = Lexer::new("foo\nbar");
    check(&tok(&mut lexer), TokenKind::Symbol, Some("foo"), 1, 1);
    check(&tok(&mut lexer), TokenKind::Symbol, Some("bar"), 2, 1);
}

#[test]
fn unterminated_string_is_an_error() {
    let mut lexer = Lexer::new("\"abc");
    let e = lexer.next_token().unwrap_err();
    assert_eq!(e.kind, LexerErrKind::UnexpectedToken('"'));
    assert_eq!(e.c, '\0');
    assert_eq!((e.line, e.col), (1, 1));
    assert_eq!(tok(&mut lexer).kind, TokenKind::Eof);
}

#[test]
fn unterminated_string_reports_its_opening_quote() {
    let mut lexer = Lexer::new("a\n  \"xy\nz");
    tok(&mut lexer);
    let e = lexer.next_token().unwrap_err();
    assert_eq!((e.line, e.col), (2, 3));
}

#[test]
fn comments_are_skipped() {
    let mut lexer = Lexer::new("; comment\n42");
    check(&tok(&mut lexer), TokenKind::Number, Some("42"), 2, 1);
    assert_eq!(tok(&mut lexer).kind, TokenKind::Eof);
}

#[test]
fn comment_at_end_of_input() {
    let mut lexer = Lexer::new("1 ; rest");
    check(&tok(&mut lexer), TokenKind::Number, Some("1"), 1, 1);
    check(&tok(&mut lexer), TokenKind::Eof, None, 1, 9);
}

#[test]
fn eof_repeats() {
    let mut lexer = Lexer::new("x ");
    check(&tok(&mut lexer), TokenKind::Symbol, Some("x"), 1, 1);
    for _ in 0..5 {
        check(&tok(&mut lexer), TokenKind::Eof, None, 1, 3);
    }
}

#[test]
fn empty_source_gives_eof() {
    let mut lexer = Lexer::new("");
    for _ in 0..3 {
        check(&tok(&mut lexer), TokenKind::Eof, None, 1, 1);
    }
}

#[test]
fn parens_strings_and_numbers() {
    let mut lexer = Lexer::new("(print \"hi\" 12)");
    check(&tok(&mut lexer), TokenKind::OpenParen, None, 1, 1);
    check(&tok(&mut lexer), TokenKind::Symbol, Some("print"), 1, 2);
    check(&tok(&mut lexer), TokenKind::String, Some("hi"), 1, 10);
    check(&tok(&mut lexer), TokenKind::Number, Some("12"), 1, 13);
    check(&tok(&mut lexer), TokenKind::CloseParen, None, 1, 15);
    check(&tok(&mut lexer), TokenKind::Eof, None, 1, 16);
}

#[test]
fn string_spanning_lines_keeps_back_patched_column() {
    let mut lexer = Lexer::new("\"a\nbc\"");
    check(&tok(&mut lexer), TokenKind::String, Some("a\nbc"), 2, 0);
}

#[test]
fn empty_string() {
    let mut lexer = Lexer::new("\"\"");
    check(&tok(&mut lexer), TokenKind::String, Some(""), 1, 3);
}

#[test]
fn number_then_symbol() {
    let mut lexer = Lexer::new("123abc");
    check(&tok(&mut lexer), TokenKind::Number, Some("123"), 1, 1);
    check(&tok(&mut lexer), TokenKind::Symbol, Some("abc"), 1, 4);
}

#[test]
fn symbol_characters() {
    let mut lexer = Lexer::new("foo_bar9+x 'q");
    check(&tok(&mut lexer), TokenKind::Symbol, Some("foo_bar9"), 1, 1);
    check(&tok(&mut lexer), TokenKind::Symbol, Some("+x"), 1, 9);
    check(&tok(&mut lexer), TokenKind::Symbol, Some("'q"), 1, 12);
}

#[test]
fn symbol_continues_with_unicode_letters() {
    let mut lexer = Lexer::new("caf\u{e9} x");
    check(&tok(&mut lexer), TokenKind::Symbol, Some("caf\u{e9}"), 1, 1);
    check(&tok(&mut lexer), TokenKind::Symbol, Some("x"), 1, 6);
}

#[test]
fn unicode_whitespace_is_skipped() {
    let mut lexer = Lexer::new("\u{a0}\tx");
    check(&tok(&mut lexer), TokenKind::Symbol, Some("x"), 1, 3);
}

#[test]
fn non_ascii_start_is_unknown() {
    let mut lexer = Lexer::new("a \u{e9}b");
    tok(&mut lexer);
    let e = lexer.next_token().unwrap_err();
    assert_eq!(e.kind, LexerErrKind::UnknownToken);
    assert_eq!(e.c, '\u{e9}');
    assert_eq!((e.line, e.col), (1, 3));
    check(&tok(&mut lexer), TokenKind::Symbol, Some("b"), 1, 4);
}

#[test]
fn unknown_token_message() {
    let e = LexerError::new(LexerErrKind::UnknownToken, '\u{e9}', 3, 14);
    assert_eq!(e.generate_msg(), "Unknown token [\u{e9}] @ 3:14");
}

#[test]
fn unexpected_token_message() {
    let e = LexerError::new(LexerErrKind::UnexpectedToken('"'), '\0', 1, 1);
    assert_eq!(e.generate_msg(), "Unexpected token [\0] expected [\"] @ 1:1");
}

#[test]
fn message_with_negative_and_large_numbers() {
    let e = LexerError::new(LexerErrKind::UnknownToken, 'x', -5, 2147483647);
    assert_eq!(e.generate_msg(), "Unknown token [x] @ -5:2147483647");
    let e = LexerError::new(LexerErrKind::UnknownToken, 'x', -2147483648, 0);
    assert_eq!(e.generate_msg(), "Unknown token [x] @ -2147483648:0");
}

#[test]
fn token_new_keeps_fields() {
    let t = Token::new(TokenKind::Tick, Some(String::from("'")), 7, 9);
    check(&t, TokenKind::Tick, Some("'"), 7, 9);
}
