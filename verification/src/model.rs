use vstd::prelude::*;
use crate::token::Kind;

verus! {

// The byte values the classification dispatches on, by their ASCII names.
pub const TAB: u8 = 9;

pub const NL: u8 = 10;

pub const FF: u8 = 12;

pub const CR: u8 = 13;

pub const SP: u8 = 32;

pub const BANG: u8 = 33;

pub const DQUOTE: u8 = 34;

pub const PERCENT: u8 = 37;

pub const AMP: u8 = 38;

pub const SQUOTE: u8 = 39;

pub const LPAREN: u8 = 40;

pub const RPAREN: u8 = 41;

pub const STAR: u8 = 42;

pub const PLUS: u8 = 43;

pub const COMMA: u8 = 44;

pub const MINUS: u8 = 45;

pub const DOT: u8 = 46;

pub const SLASH: u8 = 47;

pub const SEMI: u8 = 59;

pub const LT: u8 = 60;

pub const EQ: u8 = 61;

pub const GT: u8 = 62;

pub const LSQUARE: u8 = 91;

pub const RSQUARE: u8 = 93;

pub const CARET: u8 = 94;

pub const UNDERSCORE: u8 = 95;

pub const LCURLY: u8 = 123;

pub const PIPE: u8 = 124;

pub const RCURLY: u8 = 125;

pub const TILDE: u8 = 126;

/// A cursor position in the source buffer: 0-based byte offset, 1-based row,
/// and column (the column of the byte at `idx`).
pub ghost struct Pos {
    pub idx: int,
    pub row: int,
    pub col: int,
}

/// How the scanner advances over one whitespace byte: a newline starts the
/// next row at column 1; any other whitespace moves one column right.
pub open spec fn ws_step(p: Pos, b: u8) -> Pos {
    if b == NL {
        Pos { idx: p.idx + 1, row: p.row + 1, col: 1 }
    } else {
        Pos { idx: p.idx + 1, row: p.row, col: p.col + 1 }
    }
}

/// Plain advance over `n` bytes of one lexeme or comment: the row is
/// unchanged and the column moves right by `n`.
pub open spec fn stepped(p: Pos, n: int) -> Pos {
    Pos { idx: p.idx + n, row: p.row, col: p.col + n }
}

/// ASCII whitespace: space, tab, line feed, form feed, carriage return.
pub open spec fn is_ws(b: u8) -> bool {
    b == SP || b == TAB || b == NL || b == FF || b == CR
}

/// An ASCII letter.
pub open spec fn is_letter(b: u8) -> bool {
    (97 <= b && b <= 122) || (65 <= b && b <= 90)
}

/// An ASCII decimal digit.
pub open spec fn is_digit(b: u8) -> bool {
    48 <= b && b <= 57
}

/// A byte that may begin an identifier.
pub open spec fn is_ident_start(b: u8) -> bool {
    is_letter(b) || b == UNDERSCORE
}

/// A byte that may continue an identifier.
pub open spec fn is_ident_cont(b: u8) -> bool {
    is_letter(b) || is_digit(b) || b == UNDERSCORE
}

/// A byte that begins an operator, bracket or separator of the language.
pub open spec fn is_operator_byte(b: u8) -> bool {
    b == PLUS || b == MINUS || b == STAR || b == SLASH || b == PERCENT || b == AMP || b == PIPE
        || b == CARET || b == TILDE || b == BANG || b == GT || b == LT || b == EQ || b == LPAREN
        || b == RPAREN || b == LSQUARE || b == RSQUARE || b == LCURLY || b == RCURLY || b == COMMA
        || b == SEMI
}

/// The byte at offset `i`, or `None` past the end of the buffer.
pub open spec fn byte_at(bytes: Seq<u8>, i: int) -> Option<u8> {
    if 0 <= i < bytes.len() {
        Some(bytes[i])
    } else {
        None
    }
}

/// The text of a run of bytes, each byte read as the character with the same
/// code.
pub open spec fn chars_of(s: Seq<u8>) -> Seq<char> {
    s.map_values(|b: u8| b as char)
}

/// How many `.` bytes a run of bytes holds.
pub open spec fn dot_count(s: Seq<u8>) -> nat
    decreases s.len(),
{
    if s.len() == 0 {
        0
    } else {
        (if s[0] == DOT {
            1nat
        } else {
            0nat
        }) + dot_count(s.drop_first())
    }
}

/// The message of the diagnostic for a misplaced decimal point.
pub open spec fn msg_unexpected_dot() -> Seq<char> {
    "unexpected '.'"@
}

/// The message of the diagnostic for a sequence that reaches end of input
/// before its closer.
pub open spec fn msg_unterminated() -> Seq<char> {
    "unterminated sequence"@
}

/// The fixed text carried by the end-of-input token.
pub open spec fn eof_text() -> Seq<char> {
    "end of file"@
}

/// Where the skipper of insignificant input stands: in plain code, inside a
/// line comment, or inside a block comment opened at the recorded position.
pub ghost enum SkipPhase {
    Code,
    Line,
    Block(Pos),
}

/// The outcome of skipping insignificant input: the position of the next
/// significant byte (or of the end of input), or an unterminated block
/// comment, reported at its opening position.
pub ghost enum SkipOut {
    At(Pos),
    Unterminated(Pos),
}

/// Consumes whitespace and comments byte for byte, starting in phase `ph`.
/// A line comment runs to the newline, which is then consumed as
/// whitespace; a block comment runs to the first `*/`.
pub open spec fn skip_from(bytes: Seq<u8>, p: Pos, ph: SkipPhase) -> SkipOut
    decreases bytes.len() - p.idx,
{
    match ph {
        SkipPhase::Code => {
            if p.idx < bytes.len() {
                let b = bytes[p.idx];
                if is_ws(b) {
                    skip_from(bytes, ws_step(p, b), SkipPhase::Code)
                } else if b == SLASH && p.idx + 1 < bytes.len() && bytes[p.idx + 1] == SLASH {
                    skip_from(bytes, stepped(p, 2), SkipPhase::Line)
                } else if b == SLASH && p.idx + 1 < bytes.len() && bytes[p.idx + 1] == STAR {
                    skip_from(bytes, stepped(p, 2), SkipPhase::Block(p))
                } else {
                    SkipOut::At(p)
                }
            } else {
                SkipOut::At(p)
            }
        },
        SkipPhase::Line => {
            if p.idx < bytes.len() {
                if bytes[p.idx] == NL {
                    skip_from(bytes, ws_step(p, NL), SkipPhase::Code)
                } else {
                    skip_from(bytes, stepped(p, 1), SkipPhase::Line)
                }
            } else {
                SkipOut::At(p)
            }
        },
        SkipPhase::Block(start) => {
            if p.idx + 1 < bytes.len() && bytes[p.idx] == STAR && bytes[p.idx + 1] == SLASH {
                skip_from(bytes, stepped(p, 2), SkipPhase::Code)
            } else if p.idx < bytes.len() {
                skip_from(bytes, stepped(p, 1), SkipPhase::Block(start))
            } else {
                SkipOut::Unterminated(start)
            }
        },
    }
}

/// The first offset at or after `i` whose byte does not continue an
/// identifier (or the end of the buffer).
pub open spec fn ident_end(bytes: Seq<u8>, i: int) -> int
    decreases bytes.len() - i,
{
    if i < bytes.len() && is_ident_cont(bytes[i]) {
        ident_end(bytes, i + 1)
    } else {
        i
    }
}

/// The outcome of scanning a numeric literal: its end and whether a decimal
/// point was seen, or the offset of a second decimal point.
pub ghost enum NumScan {
    End { end: int, float: bool },
    SecondDot { at: int },
}

/// Scans a numeric literal from `i` over digits and decimal points;
/// `seen_dot` records whether a point was already consumed.
pub open spec fn scan_number(bytes: Seq<u8>, i: int, seen_dot: bool) -> NumScan
    decreases bytes.len() - i,
{
    if i < bytes.len() && (is_digit(bytes[i]) || bytes[i] == DOT) {
        if bytes[i] == DOT {
            if seen_dot {
                NumScan::SecondDot { at: i }
            } else {
                scan_number(bytes, i + 1, true)
            }
        } else {
            scan_number(bytes, i + 1, seen_dot)
        }
    } else {
        NumScan::End { end: i, float: seen_dot }
    }
}

/// The offset of the first byte equal to `d` at or after `i`, if any.
pub open spec fn close_delim(bytes: Seq<u8>, i: int, d: u8) -> Option<int>
    decreases bytes.len() - i,
{
    if i < bytes.len() {
        if bytes[i] == d {
            Some(i)
        } else {
            close_delim(bytes, i + 1, d)
        }
    } else {
        None
    }
}

/// What one call of the scanner produces once it stands at significant
/// input: a token of `kind` covering `len` bytes from `at`, the end of the
/// input at `at`, or a syntax error with its message and best-effort span.
pub ghost enum LexOut {
    Tok { kind: Kind, at: Pos, len: int },
    Eof { at: Pos },
    Fail { msg: Seq<char>, at: Pos, len: int },
}

/// A single-byte token.
pub open spec fn tok1(kind: Kind, p: Pos) -> LexOut {
    LexOut::Tok { kind, at: p, len: 1 }
}

/// A two-byte token.
pub open spec fn tok2(kind: Kind, p: Pos) -> LexOut {
    LexOut::Tok { kind, at: p, len: 2 }
}

/// A three-byte token.
pub open spec fn tok3(kind: Kind, p: Pos) -> LexOut {
    LexOut::Tok { kind, at: p, len: 3 }
}

/// A numeric literal starting at `p`: `Integer` without a decimal point,
/// `Float` with exactly one; a second point, or a literal that is one lone
/// point, is rejected with `msg_unexpected_dot` at the span of the literal
/// scanned so far.
pub open spec fn number_at(bytes: Seq<u8>, p: Pos) -> LexOut {
    match scan_number(bytes, p.idx, false) {
        NumScan::SecondDot { at } => LexOut::Fail {
            msg: msg_unexpected_dot(),
            at: p,
            len: at - p.idx,
        },
        NumScan::End { end, float } => {
            if end == p.idx + 1 && bytes[p.idx] == DOT {
                LexOut::Fail { msg: msg_unexpected_dot(), at: p, len: 1 }
            } else {
                LexOut::Tok {
                    kind: if float {
                        Kind::Float
                    } else {
                        Kind::Integer
                    },
                    at: p,
                    len: end - p.idx,
                }
            }
        },
    }
}

/// A delimited literal starting at `p`: it runs to the next byte equal to
/// `d`, delimiters included; reaching end of input first is rejected with
/// `msg_unterminated` at the opening delimiter.
pub open spec fn delim_at(bytes: Seq<u8>, p: Pos, kind: Kind, d: u8) -> LexOut {
    match close_delim(bytes, p.idx + 1, d) {
        Some(close) => LexOut::Tok { kind, at: p, len: close + 1 - p.idx },
        None => LexOut::Fail { msg: msg_unterminated(), at: p, len: 0 },
    }
}

/// An operator, bracket, separator or unrecognized byte at `p`, under
/// maximal munch: the longest listed operator that the following bytes
/// complete is the one consumed.
pub open spec fn punct_at(bytes: Seq<u8>, p: Pos) -> LexOut {
    let b = bytes[p.idx];
    let la = byte_at(bytes, p.idx + 1);
    let la2 = byte_at(bytes, p.idx + 2);
    if b == PLUS {
        if la == Some(EQ) {
            tok2(Kind::PlusAssign, p)
        } else {
            tok1(Kind::Plus, p)
        }
    } else if b == MINUS {
        if la == Some(EQ) {
            tok2(Kind::MinusAssign, p)
        } else if la == Some(GT) {
            tok2(Kind::Arrow, p)
        } else {
            tok1(Kind::Minus, p)
        }
    } else if b == STAR {
        if la == Some(EQ) {
            tok2(Kind::AsteriskAssign, p)
        } else {
            tok1(Kind::Asterisk, p)
        }
    } else if b == SLASH {
        if la == Some(EQ) {
            tok2(Kind::SlashAssign, p)
        } else {
            tok1(Kind::Slash, p)
        }
    } else if b == PERCENT {
        if la == Some(EQ) {
            tok2(Kind::ModuloAssign, p)
        } else {
            tok1(Kind::Modulo, p)
        }
    } else if b == AMP {
        if la == Some(EQ) {
            tok2(Kind::AmpersandAssign, p)
        } else if la == Some(AMP) {
            tok2(Kind::AmpersandAmpersand, p)
        } else {
            tok1(Kind::Ampersand, p)
        }
    } else if b == PIPE {
        if la == Some(EQ) {
            tok2(Kind::PipeAssign, p)
        } else if la == Some(PIPE) {
            tok2(Kind::PipePipe, p)
        } else {
            tok1(Kind::Pipe, p)
        }
    } else if b == CARET {
        if la == Some(EQ) {
            tok2(Kind::CaretAssign, p)
        } else {
            tok1(Kind::Caret, p)
        }
    } else if b == TILDE {
        tok1(Kind::Tilde, p)
    } else if b == BANG {
        if la == Some(EQ) {
            tok2(Kind::ExclamationAssign, p)
        } else {
            tok1(Kind::Exclamation, p)
        }
    } else if b == GT {
        if la == Some(EQ) {
            tok2(Kind::GreaterThanOrEqual, p)
        } else if la == Some(GT) {
            if la2 == Some(EQ) {
                tok3(Kind::BitwiseRightShiftAssign, p)
            } else {
                tok2(Kind::BitwiseRightShift, p)
            }
        } else {
            tok1(Kind::GreaterThan, p)
        }
    } else if b == LT {
        if la == Some(EQ) {
            tok2(Kind::LessThanOrEqual, p)
        } else if la == Some(LT) {
            if la2 == Some(EQ) {
                tok3(Kind::BitwiseLeftShiftAssign, p)
            } else {
                tok2(Kind::BitwiseLeftShift, p)
            }
        } else {
            tok1(Kind::LessThan, p)
        }
    } else if b == EQ {
        if la == Some(EQ) {
            tok2(Kind::AssignAssign, p)
        } else {
            tok1(Kind::Assign, p)
        }
    } else if b == LPAREN {
        tok1(Kind::LeftParenthesis, p)
    } else if b == RPAREN {
        tok1(Kind::RightParenthesis, p)
    } else if b == LSQUARE {
        tok1(Kind::LeftSquareBrace, p)
    } else if b == RSQUARE {
        tok1(Kind::RightSquareBrace, p)
    } else if b == LCURLY {
        tok1(Kind::LeftCurlyBrace, p)
    } else if b == RCURLY {
        tok1(Kind::RightCurlyBrace, p)
    } else if b == COMMA {
        tok1(Kind::Comma, p)
    } else if b == SEMI {
        tok1(Kind::SemiColon, p)
    } else {
        tok1(Kind::Unhandled, p)
    }
}

/// The token begun by the significant byte at `p`.
pub open spec fn token_at(bytes: Seq<u8>, p: Pos) -> LexOut
    recommends
        0 <= p.idx < bytes.len(),
{
    let b = bytes[p.idx];
    if is_ident_start(b) {
        LexOut::Tok { kind: Kind::Identifier, at: p, len: ident_end(bytes, p.idx) - p.idx }
    } else if is_digit(b) || b == DOT {
        number_at(bytes, p)
    } else if b == DQUOTE {
        delim_at(bytes, p, Kind::String, DQUOTE)
    } else if b == SQUOTE {
        delim_at(bytes, p, Kind::Char, SQUOTE)
    } else {
        punct_at(bytes, p)
    }
}

/// What one call of the scanner produces from position `p`: it first skips
/// whitespace and comments, then classifies exactly one lexeme, or reports
/// the end of the input.
pub open spec fn next_spec(bytes: Seq<u8>, p: Pos) -> LexOut {
    match skip_from(bytes, p, SkipPhase::Code) {
        SkipOut::Unterminated(start) => LexOut::Fail { msg: msg_unterminated(), at: start, len: 0 },
        SkipOut::At(q) => if q.idx < bytes.len() {
            token_at(bytes, q)
        } else {
            LexOut::Eof { at: q }
        },
    }
}

} // verus!
