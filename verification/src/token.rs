use vstd::prelude::*;
use crate::span::Span;

verus! {

/// The closed set of token classes the scanner can produce.
#[derive(Debug, Clone, Copy, PartialEq, Eq)]
pub enum Kind {
    Identifier,
    Integer,
    Float,
    Boolean,
    String,
    Char,
    Plus,
    Minus,
    Asterisk,
    Slash,
    Modulo,
    Ampersand,
    Pipe,
    Caret,
    Tilde,
    Exclamation,
    GreaterThan,
    LessThan,
    BitwiseLeftShift,
    BitwiseRightShift,
    Assign,
    AmpersandAmpersand,
    PipePipe,
    AssignAssign,
    PlusAssign,
    MinusAssign,
    AsteriskAssign,
    SlashAssign,
    ModuloAssign,
    AmpersandAssign,
    PipeAssign,
    CaretAssign,
    ExclamationAssign,
    GreaterThanOrEqual,
    LessThanOrEqual,
    BitwiseLeftShiftAssign,
    BitwiseRightShiftAssign,
    LeftParenthesis,
    RightParenthesis,
    LeftSquareBrace,
    RightSquareBrace,
    LeftCurlyBrace,
    RightCurlyBrace,
    Comma,
    SemiColon,
    Arrow,
    Unhandled,
    EndOfFile,
}

/// One classified lexical unit: its class, the exact source text consumed,
/// and the span of that text.
#[derive(Debug, Clone)]
pub struct Token {
    pub kind: Kind,
    pub span: Span,
    pub raw: String,
}

impl Token {
    /// Builds a token from its parts.
    pub fn new(kind: Kind, span: Span, raw: String) -> (t: Token)
        ensures
            t == (Token { kind, span, raw }),
    {
        Token { kind, span, raw }
    }
}

} // verus!
