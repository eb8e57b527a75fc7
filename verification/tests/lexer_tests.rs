use soyc::diagnostic::Diagnostic;
use soyc::diagnostic::Kind as DiagKind;
use soyc::lexer::Lexer;
use soyc::token::{Kind, Token};

fn lexer(content: &str) -> Lexer {
    Lexer::new("test".to_string(), content.to_string())
}

fn tokens_of(content: &str) -> Vec<Token> {
    let mut lx = lexer(content);
    let mut out = Vec::new();
    loop {
        match lx.next() {
            Ok(t) => {
                let done = t.kind == Kind::EndOfFile;
                out.push(t);
                if done {
                    return out;
                }
            },
            Err(d) => panic!("unexpected diagnostic: {}", d.render()),
        }
    }
}

fn first_error(content: &str) -> Diagnostic {
    let mut lx = lexer(content);
    loop {
        match lx.next() {
            Ok(t) => {
                if t.kind == Kind::EndOfFile {
                    panic!("reached end of file without a diagnostic");
                }
            },
            Err(d) => return d,
        }
    }
}

#[test]
fn identifier_plus_float_with_comment() {
    let ts = tokens_of("foo_1 + 2.5 // c\n");
    assert_eq!(ts.len(), 4);
    assert_eq!(ts[0].kind, Kind::Identifier);
    assert_eq!(ts[0].raw, "foo_1");
    assert_eq!(ts[1].kind, Kind::Plus);
    assert_eq!(ts[1].raw, "+");
    assert_eq!(ts[2].kind, Kind::Float);
    assert_eq!(ts[2].raw, "2.5");
    assert_eq!(ts[3].kind, Kind::EndOfFile);
    assert_eq!(ts[3].raw, "end of file");
}

#[test]
fn unterminated_block_comment_is_syntax_error() {
    let d = first_error("/* unterminated");
    assert_eq!(d.kind, DiagKind::SyntaxError);
    assert_eq!(d.message, "unterminated sequence");
    assert_eq!(d.span.row, 1);
    assert_eq!(d.span.column, 1);
    assert_eq!(d.span.index, 0);
}

#[test]
fn second_dot_is_syntax_error() {
    let d = first_error("1..2");
    assert_eq!(d.kind, DiagKind::SyntaxError);
    assert_eq!(d.message, "unexpected '.'");
    assert_eq!(d.span.index, 0);
    assert_eq!(d.span.length, 2);
}

#[test]
fn empty_input_yields_end_of_file_at_origin() {
    let ts = tokens_of("");
    assert_eq!(ts.len(), 1);
    assert_eq!(ts[0].kind, Kind::EndOfFile);
    assert_eq!(ts[0].span.row, 1);
    assert_eq!(ts[0].span.column, 1);
    assert_eq!(ts[0].span.index, 0);
    assert_eq!(ts[0].span.length, 0);
}

#[test]
fn unrecognized_byte_is_a_token_not_an_error() {
    let ts = tokens_of("`");
    assert_eq!(ts.len(), 2);
    assert_eq!(ts[0].kind, Kind::Unhandled);
    assert_eq!(ts[0].raw, "`");
    assert_eq!(ts[0].span.length, 1);
    assert_eq!(ts[1].kind, Kind::EndOfFile);
}

#[test]
fn shift_assign_lexes_as_one_token() {
    let ts = tokens_of("<<=");
    assert_eq!(ts.len(), 2);
    assert_eq!(ts[0].kind, Kind::BitwiseLeftShiftAssign);
    assert_eq!(ts[0].raw, "<<=");
    assert_eq!(ts[0].span.length, 3);
}

#[test]
fn double_ampersand_lexes_as_one_token() {
    let ts = tokens_of("&&");
    assert_eq!(ts.len(), 2);
    assert_eq!(ts[0].kind, Kind::AmpersandAmpersand);
    assert_eq!(ts[0].raw, "&&");
    assert_eq!(ts[0].span.length, 2);
}

#[test]
fn end_of_file_is_idempotent() {
    let mut lx = lexer("x");
    let first = lx.next().unwrap();
    assert_eq!(first.kind, Kind::Identifier);
    let eof1 = lx.next().unwrap();
    let eof2 = lx.next().unwrap();
    let eof3 = lx.next().unwrap();
    for t in [&eof1, &eof2, &eof3] {
        assert_eq!(t.kind, Kind::EndOfFile);
        assert_eq!(t.span.row, eof1.span.row);
        assert_eq!(t.span.column, eof1.span.column);
        assert_eq!(t.span.index, eof1.span.index);
        assert_eq!(t.span.length, eof1.span.length);
        assert_eq!(t.raw, "end of file");
    }
}

#[test]
fn spans_tile_the_buffer_without_overlap() {
    let ts = tokens_of("a + b\n cd /* x */ ; 12");
    let mut last_end = 0;
    for t in &ts {
        assert!(t.span.index >= last_end, "overlapping spans");
        last_end = t.span.index + t.span.length;
    }
    assert_eq!(ts[ts.len() - 1].span.index, 22);
}

#[test]
fn single_byte_operators() {
    let ts = tokens_of("+ - * / % & | ^ ~ ! > < = ( ) [ ] { } , ;");
    let kinds: Vec<Kind> = ts.iter().map(|t| t.kind).collect();
    assert_eq!(
        kinds,
        vec![
            Kind::Plus,
            Kind::Minus,
            Kind::Asterisk,
            Kind::Slash,
            Kind::Modulo,
            Kind::Ampersand,
            Kind::Pipe,
            Kind::Caret,
            Kind::Tilde,
            Kind::Exclamation,
            Kind::GreaterThan,
            Kind::LessThan,
            Kind::Assign,
            Kind::LeftParenthesis,
            Kind::RightParenthesis,
            Kind::LeftSquareBrace,
            Kind::RightSquareBrace,
            Kind::LeftCurlyBrace,
            Kind::RightCurlyBrace,
            Kind::Comma,
            Kind::SemiColon,
            Kind::EndOfFile,
        ]
    );
    assert_eq!(ts[1].raw, "-");
    assert_eq!(ts[10].raw, ">");
}

#[test]
fn compound_operators() {
    let ts = tokens_of("-> == != >= <= << >> <<= >>= += -= *= /= %= &= |= ^= && ||");
    let kinds: Vec<Kind> = ts.iter().map(|t| t.kind).collect();
    assert_eq!(
        kinds,
        vec![
            Kind::Arrow,
            Kind::AssignAssign,
            Kind::ExclamationAssign,
            Kind::GreaterThanOrEqual,
            Kind::LessThanOrEqual,
            Kind::BitwiseLeftShift,
            Kind::BitwiseRightShift,
            Kind::BitwiseLeftShiftAssign,
            Kind::BitwiseRightShiftAssign,
            Kind::PlusAssign,
            Kind::MinusAssign,
            Kind::AsteriskAssign,
            Kind::SlashAssign,
            Kind::ModuloAssign,
            Kind::AmpersandAssign,
            Kind::PipeAssign,
            Kind::CaretAssign,
            Kind::AmpersandAmpersand,
            Kind::PipePipe,
            Kind::EndOfFile,
        ]
    );
    assert_eq!(ts[0].raw, "->");
    assert_eq!(ts[7].raw, "<<=");
    assert_eq!(ts[8].raw, ">>=");
}

#[test]
fn numeric_literals() {
    let ts = tokens_of("42 3.14 .5 7.");
    assert_eq!(ts[0].kind, Kind::Integer);
    assert_eq!(ts[0].raw, "42");
    assert_eq!(ts[1].kind, Kind::Float);
    assert_eq!(ts[1].raw, "3.14");
    assert_eq!(ts[2].kind, Kind::Float);
    assert_eq!(ts[2].raw, ".5");
    assert_eq!(ts[3].kind, Kind::Float);
    assert_eq!(ts[3].raw, "7.");
    assert_eq!(ts[4].kind, Kind::EndOfFile);
}

#[test]
fn lone_dot_is_syntax_error() {
    let d = first_error(".");
    assert_eq!(d.kind, DiagKind::SyntaxError);
    assert_eq!(d.message, "unexpected '.'");
    assert_eq!(d.span.length, 1);
}

#[test]
fn float_raw_holds_exactly_one_dot() {
    let ts = tokens_of("3.14 25 .5");
    for t in &ts {
        let dots = t.raw.matches('.').count();
        match t.kind {
            Kind::Float => assert_eq!(dots, 1),
            Kind::Integer => assert_eq!(dots, 0),
            _ => {},
        }
    }
}

#[test]
fn string_literal_keeps_delimiters() {
    let ts = tokens_of("\"hi there\"");
    assert_eq!(ts[0].kind, Kind::String);
    assert_eq!(ts[0].raw, "\"hi there\"");
    assert_eq!(ts[0].span.length, 10);
    assert_eq!(ts[1].kind, Kind::EndOfFile);
}

#[test]
fn char_literal_keeps_delimiters() {
    let ts = tokens_of("'c'");
    assert_eq!(ts[0].kind, Kind::Char);
    assert_eq!(ts[0].raw, "'c'");
    assert_eq!(ts[0].span.length, 3);
}

#[test]
fn unterminated_string_is_syntax_error() {
    let d = first_error("\"abc");
    assert_eq!(d.kind, DiagKind::SyntaxError);
    assert_eq!(d.message, "unterminated sequence");
    assert_eq!(d.span.index, 0);
}

#[test]
fn unterminated_char_is_syntax_error() {
    let d = first_error("  'x");
    assert_eq!(d.kind, DiagKind::SyntaxError);
    assert_eq!(d.message, "unterminated sequence");
    assert_eq!(d.span.index, 2);
    assert_eq!(d.span.column, 3);
}

#[test]
fn line_comment_never_reaches_the_stream() {
    let ts = tokens_of("a // hidden\nb");
    assert_eq!(ts.len(), 3);
    assert_eq!(ts[0].raw, "a");
    assert_eq!(ts[1].raw, "b");
    assert_eq!(ts[1].span.row, 2);
    assert_eq!(ts[1].span.column, 1);
}

#[test]
fn block_comment_never_reaches_the_stream() {
    let ts = tokens_of("a /* hidden */ b");
    assert_eq!(ts.len(), 3);
    assert_eq!(ts[0].raw, "a");
    assert_eq!(ts[1].raw, "b");
}

#[test]
fn block_comment_with_lone_stars_closes_once() {
    let ts = tokens_of("/*a*b* */c");
    assert_eq!(ts.len(), 2);
    assert_eq!(ts[0].kind, Kind::Identifier);
    assert_eq!(ts[0].raw, "c");
    assert_eq!(ts[0].span.index, 9);
}

#[test]
fn no_token_text_holds_whitespace_or_comment_openers() {
    let ts = tokens_of("a /*x*/ b12 // t\n <<= 3.5 ,");
    for t in &ts {
        if t.kind == Kind::EndOfFile {
            continue;
        }
        assert!(!t.raw.contains(' '));
        assert!(!t.raw.contains('\n'));
        assert!(!t.raw.contains("//"));
        assert!(!t.raw.contains("/*"));
    }
}

#[test]
fn rows_and_columns_track_newlines() {
    let ts = tokens_of("\n\n  x");
    assert_eq!(ts[0].kind, Kind::Identifier);
    assert_eq!(ts[0].span.row, 3);
    assert_eq!(ts[0].span.column, 3);
    assert_eq!(ts[0].span.index, 4);
}

#[test]
fn spans_carry_the_stream_name() {
    let mut lx = Lexer::new("main.soy".to_string(), "x".to_string());
    let t = lx.next().unwrap();
    assert_eq!(t.span.stream, "main.soy");
}

#[test]
fn all_whitespace_input_yields_end_of_file() {
    let ts = tokens_of(" \t\r\n  ");
    assert_eq!(ts.len(), 1);
    assert_eq!(ts[0].kind, Kind::EndOfFile);
    assert_eq!(ts[0].span.row, 2);
    assert_eq!(ts[0].span.index, 6);
}

#[test]
fn line_comment_at_end_of_input_yields_end_of_file() {
    let ts = tokens_of("a // trailing");
    assert_eq!(ts.len(), 2);
    assert_eq!(ts[0].raw, "a");
    assert_eq!(ts[1].kind, Kind::EndOfFile);
    assert_eq!(ts[1].span.index, 13);
}

#[test]
fn maximal_munch_prefers_two_bytes_over_one() {
    let ts = tokens_of("a+=b");
    assert_eq!(ts[0].kind, Kind::Identifier);
    assert_eq!(ts[1].kind, Kind::PlusAssign);
    assert_eq!(ts[2].kind, Kind::Identifier);
}
