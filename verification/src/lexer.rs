use vstd::prelude::*;
use vstd::string::{StrSliceExecFns, StringExecFns};
use vstd::utf8::encode_utf8;
use crate::diagnostic::Diagnostic;
use crate::model::{
    byte_at, chars_of, close_delim, delim_at, eof_text, ident_end, is_digit, is_ident_cont,
    is_ident_start, is_operator_byte, msg_unterminated, next_spec, scan_number, skip_from,
    stepped, token_at, ws_step, LexOut, Pos, SkipOut, SkipPhase, AMP, BANG, CARET, COMMA, CR, DOT,
    DQUOTE, EQ, FF, GT, LCURLY, LPAREN, LSQUARE, LT, MINUS, NL, PERCENT, PIPE, PLUS, RCURLY,
    RPAREN, RSQUARE, SEMI, SLASH, SP, SQUOTE, STAR, TAB, TILDE, UNDERSCORE,
};
use crate::span::Span;
use crate::strutil::push_char;
use crate::token::{Kind, Token};

verus! {

/// Where the skipping loop stands while it consumes insignificant input.
enum Phase {
    Code,
    Line,
    Block,
}

/// Whether `b` may begin an identifier.
fn is_ident_start_byte(b: u8) -> (r: bool)
    ensures
        r == is_ident_start(b),
{
    (97 <= b && b <= 122) || (65 <= b && b <= 90) || b == UNDERSCORE
}

/// Whether `b` is an ASCII decimal digit.
fn is_digit_byte(b: u8) -> (r: bool)
    ensures
        r == is_digit(b),
{
    48 <= b && b <= 57
}

/// Whether `b` may continue an identifier.
fn is_ident_cont_byte(b: u8) -> (r: bool)
    ensures
        r == is_ident_cont(b),
{
    is_ident_start_byte(b) || is_digit_byte(b)
}

/// The lexer proper: it owns the source buffer as bytes for its whole
/// lifetime and carries the cursor (byte offset, row, column) that the
/// produced spans are read from.
pub struct Lexer {
    pub content: Vec<u8>,
    pub stream: String,
    pub row: usize,
    pub column: usize,
    pub index: usize,
}

/// The fields a produced token must carry: the requested kind, a span made
/// of the scanner's stream name and the position `at` with byte length
/// `len`, and as text exactly the bytes the span covers.
pub open spec fn tok_fields(
    src: Seq<u8>,
    stream: Seq<char>,
    t: Token,
    kind: Kind,
    at: Pos,
    len: int,
) -> bool {
    &&& t.kind == kind
    &&& t.span.stream@ == stream
    &&& t.span.row as int == at.row
    &&& t.span.column as int == at.col
    &&& t.span.index as int == at.idx
    &&& t.span.length as int == len
    &&& t.raw@ == chars_of(src.subrange(at.idx, at.idx + len))
}

/// The fields of the end-of-input token: a zero-length span at `at` and the
/// fixed text `end of file`.
pub open spec fn eof_fields(stream: Seq<char>, t: Token, at: Pos) -> bool {
    &&& t.kind == Kind::EndOfFile
    &&& t.span.stream@ == stream
    &&& t.span.row as int == at.row
    &&& t.span.column as int == at.col
    &&& t.span.index as int == at.idx
    &&& t.span.length as int == 0
    &&& t.raw@ == eof_text()
}

/// The fields a produced syntax diagnostic must carry.
pub open spec fn diag_fields(
    stream: Seq<char>,
    d: Diagnostic,
    msg: Seq<char>,
    at: Pos,
    len: int,
) -> bool {
    &&& d.kind == crate::diagnostic::Kind::SyntaxError
    &&& d.span.stream@ == stream
    &&& d.span.row as int == at.row
    &&& d.span.column as int == at.col
    &&& d.span.index as int == at.idx
    &&& d.span.length as int == len
    &&& d.message@ == msg
}

/// One scanner call agrees with the model's outcome `step`: a token carries
/// the stated fields and the cursor ends right after it; end of input leaves
/// the cursor in place; a syntax error carries the stated diagnostic.
pub open spec fn step_matches(
    pre: Lexer,
    post: Lexer,
    r: Result<Token, Diagnostic>,
    step: LexOut,
) -> bool {
    match step {
        LexOut::Tok { kind, at, len } => match r {
            Ok(t) => tok_fields(pre.content@, pre.stream@, t, kind, at, len) && post.pos()
                == stepped(at, len),
            Err(_) => false,
        },
        LexOut::Eof { at } => match r {
            Ok(t) => eof_fields(pre.stream@, t, at) && post.pos() == at,
            Err(_) => false,
        },
        LexOut::Fail { msg, at, len } => match r {
            Ok(_) => false,
            Err(d) => diag_fields(pre.stream@, d, msg, at, len),
        },
    }
}

impl Lexer {
    /// The scanner's cursor as a model position.
    pub open spec fn pos(self) -> Pos {
        Pos { idx: self.index as int, row: self.row as int, col: self.column as int }
    }

    /// The scanner's invariant: the cursor stays within the buffer, and row
    /// and column never outgrow the number of bytes consumed, which keeps
    /// every advance free of overflow.
    pub open spec fn wf(self) -> bool {
        &&& self.content@.len() < usize::MAX
        &&& self.index as int <= self.content@.len()
        &&& 1 <= self.row
        &&& self.row as int <= self.index as int + 1
        &&& self.column as int <= self.index as int + 1
    }

    /// The two fields a call of the scanner never changes.
    pub open spec fn same_source(self, other: Lexer) -> bool {
        &&& other.content == self.content
        &&& other.stream == self.stream
    }

    /// Builds a scanner over the UTF-8 bytes of `content`, with the cursor
    /// at offset 0, row 1, column 1. `stream` only names the source unit in
    /// spans and diagnostics.
    pub fn new(stream: String, content: String) -> (l: Lexer)
        requires
            encode_utf8(content@).len() < usize::MAX,
        ensures
            l.wf(),
            l.content@ == encode_utf8(content@),
            l.stream@ == stream@,
            l.pos() == (Pos { idx: 0, row: 1, col: 1 }),
    {
        let bytes = content.as_str().as_bytes_vec();
        Lexer { content: bytes, stream, row: 1, column: 1, index: 0 }
    }

    /// The text of the byte range `start..end` of the buffer.
    fn take_raw(&self, start: usize, end: usize) -> (s: String)
        requires
            start <= end,
            end as int <= self.content@.len(),
        ensures
            s@ == chars_of(self.content@.subrange(start as int, end as int)),
    {
        let mut s = String::new();
        let mut i = start;
        proof {
            assert(s@ =~= chars_of(self.content@.subrange(start as int, start as int)));
        }
        while i < end
            invariant
                start <= i <= end,
                end as int <= self.content@.len(),
                s@ == chars_of(self.content@.subrange(start as int, i as int)),
            decreases end - i,
        {
            let b = self.content[i];
            push_char(&mut s, b as char);
            i = i + 1;
            proof {
                assert(self.content@.subrange(start as int, i as int) =~= self.content@.subrange(
                    start as int,
                    i - 1,
                ).push(b));
                assert(s@ =~= chars_of(self.content@.subrange(start as int, i as int)));
            }
        }
        s
    }

    /// Emits one token of `kind` covering the next `len` bytes, and moves
    /// the cursor past them.
    fn make_token(&mut self, kind: Kind, len: usize) -> (t: Token)
        requires
            old(self).wf(),
            old(self).index + len <= old(self).content@.len(),
        ensures
            final(self).wf(),
            old(self).same_source(*final(self)),
            tok_fields(old(self).content@, old(self).stream@, t, kind, old(self).pos(), len as int),
            final(self).pos() == stepped(old(self).pos(), len as int),
    {
        let raw = self.take_raw(self.index, self.index + len);
        let span = Span::new(self.stream.clone(), self.row, self.column, self.index, len);
        self.index = self.index + len;
        self.column = self.column + len;
        Token::new(kind, span, raw)
    }

    /// Moves the cursor one byte right, within the current row.
    fn advance(&mut self)
        requires
            old(self).wf(),
            old(self).index < old(self).content@.len(),
        ensures
            final(self).wf(),
            old(self).same_source(*final(self)),
            final(self).pos() == stepped(old(self).pos(), 1),
    {
        self.index = self.index + 1;
        self.column = self.column + 1;
    }

    /// Consumes whitespace and comments until the cursor stands on a
    /// significant byte or at the end of the input; each newline starts the
    /// next row. A `//` comment runs to its line's end; a `/* ... */`
    /// comment runs to the first `*/`, and reaching the end of the input
    /// first yields the `unterminated sequence` diagnostic at the comment's
    /// opening position. A loop with an explicit phase stands in for
    /// retrying through recursion, so no input can exhaust the stack.
    #[verifier::loop_isolation(false)]
    fn skip_whitespace(&mut self) -> (r: Option<Diagnostic>)
        requires
            old(self).wf(),
        ensures
            final(self).wf(),
            old(self).same_source(*final(self)),
            old(self).pos().idx <= final(self).pos().idx,
            match skip_from(old(self).content@, old(self).pos(), SkipPhase::Code) {
                SkipOut::At(q) => r is None && final(self).pos() == q,
                SkipOut::Unterminated(st) => match r {
                    Some(d) => diag_fields(old(self).stream@, d, msg_unterminated(), st, 0),
                    None => false,
                },
            },
    {
        let ghost pre = *self;
        let mut phase = Phase::Code;
        let mut bs_row: usize = self.row;
        let mut bs_col: usize = self.column;
        let mut bs_idx: usize = self.index;
        loop
            invariant
                self.wf(),
                pre.same_source(*self),
                pre.pos().idx <= self.pos().idx,
                match phase {
                    Phase::Code => skip_from(self.content@, self.pos(), SkipPhase::Code)
                        == skip_from(pre.content@, pre.pos(), SkipPhase::Code),
                    Phase::Line => skip_from(self.content@, self.pos(), SkipPhase::Line)
                        == skip_from(pre.content@, pre.pos(), SkipPhase::Code),
                    Phase::Block => skip_from(
                        self.content@,
                        self.pos(),
                        SkipPhase::Block(
                            Pos { idx: bs_idx as int, row: bs_row as int, col: bs_col as int },
                        ),
                    ) == skip_from(pre.content@, pre.pos(), SkipPhase::Code),
                },
            decreases self.content@.len() - self.index,
        {
            if self.index == self.content.len() {
                match phase {
                    Phase::Code => {
                        return None;
                    },
                    Phase::Line => {
                        return None;
                    },
                    Phase::Block => {
                        return Some(
                            Diagnostic::new(
                                crate::diagnostic::Kind::SyntaxError,
                                Span::new(self.stream.clone(), bs_row, bs_col, bs_idx, 0),
                                String::from_str("unterminated sequence"),
                            ),
                        );
                    },
                }
            }
            let b = self.content[self.index];
            match phase {
                Phase::Code => {
                    if b == SP || b == TAB || b == NL || b == FF || b == CR {
                        let ghost q = self.pos();
                        if b == NL {
                            self.row = self.row + 1;
                            self.column = 1;
                            self.index = self.index + 1;
                        } else {
                            self.advance();
                        }
                        proof {
                            assert(self.pos() == ws_step(q, b));
                        }
                    } else if b == SLASH && self.index + 1 < self.content.len() && self.content[
                        self.index + 1
                    ] == SLASH {
                        let ghost q = self.pos();
                        self.advance();
                        self.advance();
                        phase = Phase::Line;
                        proof {
                            assert(self.pos() == stepped(q, 2));
                        }
                    } else if b == SLASH && self.index + 1 < self.content.len() && self.content[
                        self.index + 1
                    ] == STAR {
                        bs_row = self.row;
                        bs_col = self.column;
                        bs_idx = self.index;
                        let ghost q = self.pos();
                        self.advance();
                        self.advance();
                        phase = Phase::Block;
                        proof {
                            assert(self.pos() == stepped(q, 2));
                        }
                    } else {
                        return None;
                    }
                },
                Phase::Line => {
                    if b == NL {
                        let ghost q = self.pos();
                        self.row = self.row + 1;
                        self.column = 1;
                        self.index = self.index + 1;
                        phase = Phase::Code;
                        proof {
                            assert(self.pos() == ws_step(q, NL));
                        }
                    } else {
                        self.advance();
                    }
                },
                Phase::Block => {
                    if b == STAR && self.index + 1 < self.content.len() && self.content[self.index
                        + 1] == SLASH {
                        let ghost q = self.pos();
                        self.advance();
                        self.advance();
                        phase = Phase::Code;
                        proof {
                            assert(self.pos() == stepped(q, 2));
                        }
                    } else {
                        self.advance();
                    }
                },
            }
        }
    }

    /// An identifier: the maximal run of letters, digits and underscores
    /// from the cursor.
    #[verifier::loop_isolation(false)]
    fn lex_identifier(&mut self) -> (r: Result<Token, Diagnostic>)
        requires
            old(self).wf(),
            old(self).index < old(self).content@.len(),
            is_ident_start(old(self).content@[old(self).index as int]),
        ensures
            final(self).wf(),
            old(self).same_source(*final(self)),
            old(self).pos().idx <= final(self).pos().idx,
            step_matches(
                *old(self),
                *final(self),
                r,
                token_at(old(self).content@, old(self).pos()),
            ),
    {
        let mut j = self.index;
        while j < self.content.len() && is_ident_cont_byte(self.content[j])
            invariant
                self.index <= j <= self.content@.len(),
                ident_end(self.content@, self.index as int) == ident_end(self.content@, j as int),
            decreases self.content@.len() - j,
        {
            j = j + 1;
        }
        Ok(self.make_token(Kind::Identifier, j - self.index))
    }

    /// A numeric literal: the maximal run of digits and decimal points from
    /// the cursor; one point makes it `Float`, a second one — or a literal
    /// that is one lone point — is rejected as `unexpected '.'` at the span
    /// scanned so far.
    #[verifier::loop_isolation(false)]
    fn lex_number(&mut self) -> (r: Result<Token, Diagnostic>)
        requires
            old(self).wf(),
            old(self).index < old(self).content@.len(),
            is_digit(old(self).content@[old(self).index as int]) || old(self).content@[old(
                self,
            ).index as int] == DOT,
        ensures
            final(self).wf(),
            old(self).same_source(*final(self)),
            old(self).pos().idx <= final(self).pos().idx,
            step_matches(
                *old(self),
                *final(self),
                r,
                token_at(old(self).content@, old(self).pos()),
            ),
    {
        let mut j = self.index;
        let mut seen = false;
        loop
            invariant
                *self == *old(self),
                self.index <= j <= self.content@.len(),
                scan_number(self.content@, self.index as int, false) == scan_number(
                    self.content@,
                    j as int,
                    seen,
                ),
            decreases self.content@.len() - j,
        {
            if j == self.content.len() {
                break ;
            }
            let b = self.content[j];
            if is_digit_byte(b) {
                j = j + 1;
            } else if b == DOT {
                if seen {
                    let d = Diagnostic::new(
                        crate::diagnostic::Kind::SyntaxError,
                        Span::new(
                            self.stream.clone(),
                            self.row,
                            self.column,
                            self.index,
                            j - self.index,
                        ),
                        String::from_str("unexpected '.'"),
                    );
                    self.column = self.column + (j - self.index);
                    self.index = j;
                    return Err(d);
                }
                seen = true;
                j = j + 1;
            } else {
                break ;
            }
        }
        if j == self.index + 1 && self.content[self.index] == DOT {
            let d = Diagnostic::new(
                crate::diagnostic::Kind::SyntaxError,
                Span::new(self.stream.clone(), self.row, self.column, self.index, 1),
                String::from_str("unexpected '.'"),
            );
            self.column = self.column + 1;
            self.index = j;
            return Err(d);
        }
        Ok(
            self.make_token(
                if seen {
                    Kind::Float
                } else {
                    Kind::Integer
                },
                j - self.index,
            ),
        )
    }

    /// A string literal: it runs from the opening `"` to the next `"`,
    /// delimiters included, with no escape scheme; reaching the end of the
    /// input first is rejected as `unterminated sequence` at the opening
    /// delimiter.
    #[verifier::loop_isolation(false)]
    fn lex_string(&mut self) -> (r: Result<Token, Diagnostic>)
        requires
            old(self).wf(),
            old(self).index < old(self).content@.len(),
            old(self).content@[old(self).index as int] == DQUOTE,
        ensures
            final(self).wf(),
            old(self).same_source(*final(self)),
            old(self).pos().idx <= final(self).pos().idx,
            step_matches(
                *old(self),
                *final(self),
                r,
                token_at(old(self).content@, old(self).pos()),
            ),
    {
        self.lex_delimited(Kind::String, DQUOTE)
    }

    /// A character literal: it runs from the opening `'` to the next `'`,
    /// delimiters included, with no escape scheme; reaching the end of the
    /// input first is rejected as `unterminated sequence` at the opening
    /// delimiter.
    #[verifier::loop_isolation(false)]
    fn lex_char(&mut self) -> (r: Result<Token, Diagnostic>)
        requires
            old(self).wf(),
            old(self).index < old(self).content@.len(),
            old(self).content@[old(self).index as int] == SQUOTE,
        ensures
            final(self).wf(),
            old(self).same_source(*final(self)),
            old(self).pos().idx <= final(self).pos().idx,
            step_matches(
                *old(self),
                *final(self),
                r,
                token_at(old(self).content@, old(self).pos()),
            ),
    {
        self.lex_delimited(Kind::Char, SQUOTE)
    }

    /// The shared scan of both delimited literals: from the opening
    /// delimiter at the cursor to the next byte equal to `d`.
    #[verifier::loop_isolation(false)]
    fn lex_delimited(&mut self, kind: Kind, d: u8) -> (r: Result<Token, Diagnostic>)
        requires
            old(self).wf(),
            old(self).index < old(self).content@.len(),
            old(self).content@[old(self).index as int] == d,
        ensures
            final(self).wf(),
            old(self).same_source(*final(self)),
            old(self).pos().idx <= final(self).pos().idx,
            step_matches(
                *old(self),
                *final(self),
                r,
                delim_at(old(self).content@, old(self).pos(), kind, d),
            ),
    {
        let mut j = self.index + 1;
        while j < self.content.len() && self.content[j] != d
            invariant
                self.index + 1 <= j <= self.content@.len(),
                close_delim(self.content@, self.index + 1, d) == close_delim(
                    self.content@,
                    j as int,
                    d,
                ),
            decreases self.content@.len() - j,
        {
            j = j + 1;
        }
        if j < self.content.len() {
            Ok(self.make_token(kind, j + 1 - self.index))
        } else {
            Err(
                Diagnostic::new(
                    crate::diagnostic::Kind::SyntaxError,
                    Span::new(self.stream.clone(), self.row, self.column, self.index, 0),
                    String::from_str("unterminated sequence"),
                ),
            )
        }
    }

    /// Whether the byte after the cursor equals `b`.
    fn peek_is(&self, b: u8) -> (r: bool)
        requires
            self.wf(),
            self.index < self.content@.len(),
        ensures
            r == (byte_at(self.content@, self.index + 1) == Some(b)),
    {
        self.index + 1 < self.content.len() && self.content[self.index + 1] == b
    }

    /// Whether the second byte after the cursor equals `b`.
    fn peek2_is(&self, b: u8) -> (r: bool)
        requires
            self.wf(),
            self.index < self.content@.len(),
        ensures
            r == (byte_at(self.content@, self.index + 2) == Some(b)),
    {
        self.index + 1 < self.content.len() && self.index + 2 < self.content.len()
            && self.content[self.index + 2] == b
    }

    /// `+`, or `+=` when the next byte completes it.
    fn lex_plus(&mut self) -> (r: Result<Token, Diagnostic>)
        requires
            old(self).wf(),
            old(self).index < old(self).content@.len(),
            old(self).content@[old(self).index as int] == PLUS,
        ensures
            final(self).wf(),
            old(self).same_source(*final(self)),
            old(self).pos().idx <= final(self).pos().idx,
            step_matches(
                *old(self),
                *final(self),
                r,
                token_at(old(self).content@, old(self).pos()),
            ),
    {
        if self.peek_is(EQ) {
            Ok(self.make_token(Kind::PlusAssign, 2))
        } else {
            Ok(self.make_token(Kind::Plus, 1))
        }
    }

    /// `-`, or `-=` or `->` when the next byte completes one of them.
    fn lex_minus(&mut self) -> (r: Result<Token, Diagnostic>)
        requires
            old(self).wf(),
            old(self).index < old(self).content@.len(),
            old(self).content@[old(self).index as int] == MINUS,
        ensures
            final(self).wf(),
            old(self).same_source(*final(self)),
            old(self).pos().idx <= final(self).pos().idx,
            step_matches(
                *old(self),
                *final(self),
                r,
                token_at(old(self).content@, old(self).pos()),
            ),
    {
        if self.peek_is(EQ) {
            Ok(self.make_token(Kind::MinusAssign, 2))
        } else if self.peek_is(GT) {
            Ok(self.make_token(Kind::Arrow, 2))
        } else {
            Ok(self.make_token(Kind::Minus, 1))
        }
    }

    /// `*`, or `*=` when the next byte completes it.
    fn lex_asterisk(&mut self) -> (r: Result<Token, Diagnostic>)
        requires
            old(self).wf(),
            old(self).index < old(self).content@.len(),
            old(self).content@[old(self).index as int] == STAR,
        ensures
            final(self).wf(),
            old(self).same_source(*final(self)),
            old(self).pos().idx <= final(self).pos().idx,
            step_matches(
                *old(self),
                *final(self),
                r,
                token_at(old(self).content@, old(self).pos()),
            ),
    {
        if self.peek_is(EQ) {
            Ok(self.make_token(Kind::AsteriskAssign, 2))
        } else {
            Ok(self.make_token(Kind::Asterisk, 1))
        }
    }

    /// `/`, or `/=` when the next byte completes it. Comments are consumed
    /// before dispatch, so a `/` that opens one never reaches this rule.
    fn lex_slash(&mut self) -> (r: Result<Token, Diagnostic>)
        requires
            old(self).wf(),
            old(self).index < old(self).content@.len(),
            old(self).content@[old(self).index as int] == SLASH,
        ensures
            final(self).wf(),
            old(self).same_source(*final(self)),
            old(self).pos().idx <= final(self).pos().idx,
            step_matches(
                *old(self),
                *final(self),
                r,
                token_at(old(self).content@, old(self).pos()),
            ),
    {
        if self.peek_is(EQ) {
            Ok(self.make_token(Kind::SlashAssign, 2))
        } else {
            Ok(self.make_token(Kind::Slash, 1))
        }
    }

    /// `%`, or `%=` when the next byte completes it.
    fn lex_modulo(&mut self) -> (r: Result<Token, Diagnostic>)
        requires
            old(self).wf(),
            old(self).index < old(self).content@.len(),
            old(self).content@[old(self).index as int] == PERCENT,
        ensures
            final(self).wf(),
            old(self).same_source(*final(self)),
            old(self).pos().idx <= final(self).pos().idx,
            step_matches(
                *old(self),
                *final(self),
                r,
                token_at(old(self).content@, old(self).pos()),
            ),
    {
        if self.peek_is(EQ) {
            Ok(self.make_token(Kind::ModuloAssign, 2))
        } else {
            Ok(self.make_token(Kind::Modulo, 1))
        }
    }

    /// `&`, or `&=` or `&&` when the next byte completes one of them.
    fn lex_ampersand(&mut self) -> (r: Result<Token, Diagnostic>)
        requires
            old(self).wf(),
            old(self).index < old(self).content@.len(),
            old(self).content@[old(self).index as int] == AMP,
        ensures
            final(self).wf(),
            old(self).same_source(*final(self)),
            old(self).pos().idx <= final(self).pos().idx,
            step_matches(
                *old(self),
                *final(self),
                r,
                token_at(old(self).content@, old(self).pos()),
            ),
    {
        if self.peek_is(EQ) {
            Ok(self.make_token(Kind::AmpersandAssign, 2))
        } else if self.peek_is(AMP) {
            Ok(self.make_token(Kind::AmpersandAmpersand, 2))
        } else {
            Ok(self.make_token(Kind::Ampersand, 1))
        }
    }

    /// `|`, or `|=` or `||` when the next byte completes one of them.
    fn lex_pipe(&mut self) -> (r: Result<Token, Diagnostic>)
        requires
            old(self).wf(),
            old(self).index < old(self).content@.len(),
            old(self).content@[old(self).index as int] == PIPE,
        ensures
            final(self).wf(),
            old(self).same_source(*final(self)),
            old(self).pos().idx <= final(self).pos().idx,
            step_matches(
                *old(self),
                *final(self),
                r,
                token_at(old(self).content@, old(self).pos()),
            ),
    {
        if self.peek_is(EQ) {
            Ok(self.make_token(Kind::PipeAssign, 2))
        } else if self.peek_is(PIPE) {
            Ok(self.make_token(Kind::PipePipe, 2))
        } else {
            Ok(self.make_token(Kind::Pipe, 1))
        }
    }

    /// `^`, or `^=` when the next byte completes it.
    fn lex_caret(&mut self) -> (r: Result<Token, Diagnostic>)
        requires
            old(self).wf(),
            old(self).index < old(self).content@.len(),
            old(self).content@[old(self).index as int] == CARET,
        ensures
            final(self).wf(),
            old(self).same_source(*final(self)),
            old(self).pos().idx <= final(self).pos().idx,
            step_matches(
                *old(self),
                *final(self),
                r,
                token_at(old(self).content@, old(self).pos()),
            ),
    {
        if self.peek_is(EQ) {
            Ok(self.make_token(Kind::CaretAssign, 2))
        } else {
            Ok(self.make_token(Kind::Caret, 1))
        }
    }

    /// `~`, always one byte.
    fn lex_tilde(&mut self) -> (r: Result<Token, Diagnostic>)
        requires
            old(self).wf(),
            old(self).index < old(self).content@.len(),
            old(self).content@[old(self).index as int] == TILDE,
        ensures
            final(self).wf(),
            old(self).same_source(*final(self)),
            old(self).pos().idx <= final(self).pos().idx,
            step_matches(
                *old(self),
                *final(self),
                r,
                token_at(old(self).content@, old(self).pos()),
            ),
    {
        Ok(self.make_token(Kind::Tilde, 1))
    }

    /// `!`, or `!=` when the next byte completes it.
    fn lex_exclamation(&mut self) -> (r: Result<Token, Diagnostic>)
        requires
            old(self).wf(),
            old(self).index < old(self).content@.len(),
            old(self).content@[old(self).index as int] == BANG,
        ensures
            final(self).wf(),
            old(self).same_source(*final(self)),
            old(self).pos().idx <= final(self).pos().idx,
            step_matches(
                *old(self),
                *final(self),
                r,
                token_at(old(self).content@, old(self).pos()),
            ),
    {
        if self.peek_is(EQ) {
            Ok(self.make_token(Kind::ExclamationAssign, 2))
        } else {
            Ok(self.make_token(Kind::Exclamation, 1))
        }
    }

    /// `>`, `>=`, `>>` or `>>=`, whichever the following bytes complete,
    /// longest first.
    fn lex_greater_than(&mut self) -> (r: Result<Token, Diagnostic>)
        requires
            old(self).wf(),
            old(self).index < old(self).content@.len(),
            old(self).content@[old(self).index as int] == GT,
        ensures
            final(self).wf(),
            old(self).same_source(*final(self)),
            old(self).pos().idx <= final(self).pos().idx,
            step_matches(
                *old(self),
                *final(self),
                r,
                token_at(old(self).content@, old(self).pos()),
            ),
    {
        if self.peek_is(EQ) {
            Ok(self.make_token(Kind::GreaterThanOrEqual, 2))
        } else if self.peek_is(GT) {
            if self.peek2_is(EQ) {
                Ok(self.make_token(Kind::BitwiseRightShiftAssign, 3))
            } else {
                Ok(self.make_token(Kind::BitwiseRightShift, 2))
            }
        } else {
            Ok(self.make_token(Kind::GreaterThan, 1))
        }
    }

    /// `<`, `<=`, `<<` or `<<=`, whichever the following bytes complete,
    /// longest first.
    fn lex_less_than(&mut self) -> (r: Result<Token, Diagnostic>)
        requires
            old(self).wf(),
            old(self).index < old(self).content@.len(),
            old(self).content@[old(self).index as int] == LT,
        ensures
            final(self).wf(),
            old(self).same_source(*final(self)),
            old(self).pos().idx <= final(self).pos().idx,
            step_matches(
                *old(self),
                *final(self),
                r,
                token_at(old(self).content@, old(self).pos()),
            ),
    {
        if self.peek_is(EQ) {
            Ok(self.make_token(Kind::LessThanOrEqual, 2))
        } else if self.peek_is(LT) {
            if self.peek2_is(EQ) {
                Ok(self.make_token(Kind::BitwiseLeftShiftAssign, 3))
            } else {
                Ok(self.make_token(Kind::BitwiseLeftShift, 2))
            }
        } else {
            Ok(self.make_token(Kind::LessThan, 1))
        }
    }

    /// `=`, or `==` when the next byte completes it.
    fn lex_assign(&mut self) -> (r: Result<Token, Diagnostic>)
        requires
            old(self).wf(),
            old(self).index < old(self).content@.len(),
            old(self).content@[old(self).index as int] == EQ,
        ensures
            final(self).wf(),
            old(self).same_source(*final(self)),
            old(self).pos().idx <= final(self).pos().idx,
            step_matches(
                *old(self),
                *final(self),
                r,
                token_at(old(self).content@, old(self).pos()),
            ),
    {
        if self.peek_is(EQ) {
            Ok(self.make_token(Kind::AssignAssign, 2))
        } else {
            Ok(self.make_token(Kind::Assign, 1))
        }
    }

    /// One of the six bracket bytes, always one byte.
    fn lex_bracket(&mut self) -> (r: Result<Token, Diagnostic>)
        requires
            old(self).wf(),
            old(self).index < old(self).content@.len(),
            old(self).content@[old(self).index as int] == LPAREN || old(self).content@[old(
                self,
            ).index as int] == RPAREN || old(self).content@[old(self).index as int] == LSQUARE
                || old(self).content@[old(self).index as int] == RSQUARE || old(self).content@[old(
                self,
            ).index as int] == LCURLY || old(self).content@[old(self).index as int] == RCURLY,
        ensures
            final(self).wf(),
            old(self).same_source(*final(self)),
            old(self).pos().idx <= final(self).pos().idx,
            step_matches(
                *old(self),
                *final(self),
                r,
                token_at(old(self).content@, old(self).pos()),
            ),
    {
        let b = self.content[self.index];
        let kind = if b == LPAREN {
            Kind::LeftParenthesis
        } else if b == RPAREN {
            Kind::RightParenthesis
        } else if b == LSQUARE {
            Kind::LeftSquareBrace
        } else if b == RSQUARE {
            Kind::RightSquareBrace
        } else if b == LCURLY {
            Kind::LeftCurlyBrace
        } else {
            Kind::RightCurlyBrace
        };
        Ok(self.make_token(kind, 1))
    }

    /// `,`, always one byte.
    fn lex_comma(&mut self) -> (r: Result<Token, Diagnostic>)
        requires
            old(self).wf(),
            old(self).index < old(self).content@.len(),
            old(self).content@[old(self).index as int] == COMMA,
        ensures
            final(self).wf(),
            old(self).same_source(*final(self)),
            old(self).pos().idx <= final(self).pos().idx,
            step_matches(
                *old(self),
                *final(self),
                r,
                token_at(old(self).content@, old(self).pos()),
            ),
    {
        Ok(self.make_token(Kind::Comma, 1))
    }

    /// `;`, always one byte.
    fn lex_semicolon(&mut self) -> (r: Result<Token, Diagnostic>)
        requires
            old(self).wf(),
            old(self).index < old(self).content@.len(),
            old(self).content@[old(self).index as int] == SEMI,
        ensures
            final(self).wf(),
            old(self).same_source(*final(self)),
            old(self).pos().idx <= final(self).pos().idx,
            step_matches(
                *old(self),
                *final(self),
                r,
                token_at(old(self).content@, old(self).pos()),
            ),
    {
        Ok(self.make_token(Kind::SemiColon, 1))
    }

    /// Any byte no other rule recognizes: a one-byte `Unhandled` token, not
    /// a diagnostic — rejection is deferred to a later stage.
    fn lex_unhandled(&mut self) -> (r: Result<Token, Diagnostic>)
        requires
            old(self).wf(),
            old(self).index < old(self).content@.len(),
            !is_ident_start(old(self).content@[old(self).index as int]),
            !is_digit(old(self).content@[old(self).index as int]),
            !is_operator_byte(old(self).content@[old(self).index as int]),
            old(self).content@[old(self).index as int] != DOT,
            old(self).content@[old(self).index as int] != DQUOTE,
            old(self).content@[old(self).index as int] != SQUOTE,
        ensures
            final(self).wf(),
            old(self).same_source(*final(self)),
            old(self).pos().idx <= final(self).pos().idx,
            step_matches(
                *old(self),
                *final(self),
                r,
                token_at(old(self).content@, old(self).pos()),
            ),
    {
        Ok(self.make_token(Kind::Unhandled, 1))
    }

    /// Produces the next token, or the diagnostic for the first malformed
    /// lexeme: the call first consumes whitespace and comments, then
    /// classifies and consumes exactly one lexeme under maximal munch. At
    /// the end of the input it yields the zero-length `EndOfFile` token and
    /// leaves the cursor in place, so further calls keep yielding it.
    pub fn next(&mut self) -> (r: Result<Token, Diagnostic>)
        requires
            old(self).wf(),
        ensures
            final(self).wf(),
            old(self).same_source(*final(self)),
            old(self).pos().idx <= final(self).pos().idx,
            step_matches(
                *old(self),
                *final(self),
                r,
                next_spec(old(self).content@, old(self).pos()),
            ),
    {
        match self.skip_whitespace() {
            Some(d) => {
                return Err(d);
            },
            None => {},
        }
        if self.index == self.content.len() {
            let span = Span::new(self.stream.clone(), self.row, self.column, self.index, 0);
            return Ok(Token::new(Kind::EndOfFile, span, String::from_str("end of file")));
        }
        let b = self.content[self.index];
        if is_ident_start_byte(b) {
            self.lex_identifier()
        } else if is_digit_byte(b) || b == DOT {
            self.lex_number()
        } else if b == DQUOTE {
            self.lex_string()
        } else if b == SQUOTE {
            self.lex_char()
        } else if b == PLUS {
            self.lex_plus()
        } else if b == MINUS {
            self.lex_minus()
        } else if b == STAR {
            self.lex_asterisk()
        } else if b == SLASH {
            self.lex_slash()
        } else if b == PERCENT {
            self.lex_modulo()
        } else if b == AMP {
            self.lex_ampersand()
        } else if b == PIPE {
            self.lex_pipe()
        } else if b == CARET {
            self.lex_caret()
        } else if b == TILDE {
            self.lex_tilde()
        } else if b == BANG {
            self.lex_exclamation()
        } else if b == GT {
            self.lex_greater_than()
        } else if b == LT {
            self.lex_less_than()
        } else if b == EQ {
            self.lex_assign()
        } else if b == LPAREN || b == RPAREN || b == LSQUARE || b == RSQUARE || b == LCURLY || b
            == RCURLY {
            self.lex_bracket()
        } else if b == COMMA {
            self.lex_comma()
        } else if b == SEMI {
            self.lex_semicolon()
        } else {
            self.lex_unhandled()
        }
    }
}

} // verus!
