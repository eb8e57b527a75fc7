use soyc::diagnostic::{Diagnostic, Kind};
use soyc::lexer::Lexer;
use soyc::span::Span;
use soyc::token::Kind as TokenKind;

#[test]
fn rendering_is_the_canonical_line() {
    let d = Diagnostic::new(
        Kind::FileNotReadable,
        Span::new("cli".to_string(), 1, 1, 0, 0),
        "file not readable: x".to_string(),
    );
    assert_eq!(d.render(), "cli[1:1]: file not readable: x\n");
}

#[test]
fn rendering_writes_multi_digit_positions() {
    let d = Diagnostic::new(
        Kind::SyntaxError,
        Span::new("s".to_string(), 120, 304, 7, 2),
        "m".to_string(),
    );
    assert_eq!(d.render(), "s[120:304]: m\n");
}

#[test]
fn rendering_a_scan_error_names_the_stream() {
    let mut lx = Lexer::new("main.soy".to_string(), "/*".to_string());
    match lx.next() {
        Ok(_) => panic!("expected a diagnostic"),
        Err(d) => assert_eq!(d.render(), "main.soy[1:1]: unterminated sequence\n"),
    }
}

#[test]
fn token_construction_keeps_its_parts() {
    let span = Span::new("s".to_string(), 2, 3, 4, 5);
    let t = soyc::token::Token::new(TokenKind::Identifier, span, "abcde".to_string());
    assert_eq!(t.kind, TokenKind::Identifier);
    assert_eq!(t.raw, "abcde");
    assert_eq!(t.span.row, 2);
    assert_eq!(t.span.column, 3);
    assert_eq!(t.span.index, 4);
    assert_eq!(t.span.length, 5);
}
