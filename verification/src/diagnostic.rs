use vstd::prelude::*;
use crate::span::Span;
use crate::strutil::push_char;

verus! {

/// The closed set of error classes: the first three arise while acquiring a
/// source unit, before any scanning; `SyntaxError` arises per malformed
/// lexeme during scanning.
#[derive(Debug, Clone, Copy, PartialEq, Eq)]
pub enum Kind {
    FileNotFound,
    FileNotRegular,
    FileNotReadable,
    SyntaxError,
}

/// A structured error value: a closed error kind, a best-effort span, and a
/// human-readable message.
#[derive(Debug, Clone)]
pub struct Diagnostic {
    pub kind: Kind,
    pub span: Span,
    pub message: String,
}

/// The decimal digit characters of `n`, most significant first.
pub open spec fn dec_rep(n: nat) -> Seq<char>
    decreases n,
{
    if n < 10 {
        seq![dec_digit(n)]
    } else {
        dec_rep(n / 10).push(dec_digit(n % 10))
    }
}

/// The character for one decimal digit.
pub open spec fn dec_digit(d: nat) -> char {
    ((d + 48) as u8) as char
}

/// The canonical one-line rendering of a diagnostic:
/// `<stream>[<row>:<column>]: <message>` followed by a newline.
pub open spec fn rendering(d: Diagnostic) -> Seq<char> {
    d.span.stream@ + seq!['['] + dec_rep(d.span.row as nat) + seq![':'] + dec_rep(
        d.span.column as nat,
    ) + seq![']', ':', ' '] + d.message@ + seq!['\n']
}

/// Appends the decimal digits of `n` to `s`, most significant first.
fn push_dec(s: &mut String, n: usize)
    ensures
        final(s)@ == old(s)@ + dec_rep(n as nat),
    decreases n,
{
    if n >= 10 {
        assert(n / 10 < n && n / 10 >= 1) by (nonlinear_arith)
            requires
                n >= 10,
        ;
        push_dec(s, n / 10);
    }
    let d: u8 = (n % 10) as u8 + 48;
    push_char(s, d as char);
    proof {
        if n < 10 {
            assert(old(s)@ + dec_rep(n as nat) =~= old(s)@.push(dec_digit(n as nat)));
            assert(d as char == dec_digit(n as nat));
        } else {
            assert(old(s)@ + dec_rep(n as nat) =~= (old(s)@ + dec_rep((n / 10) as nat)).push(
                dec_digit((n % 10) as nat),
            ));
            assert(d as char == dec_digit((n % 10) as nat));
        }
    }
}

impl Diagnostic {
    /// Builds a diagnostic from its parts.
    pub fn new(kind: Kind, span: Span, message: String) -> (d: Diagnostic)
        ensures
            d == (Diagnostic { kind, span, message }),
    {
        Diagnostic { kind, span, message }
    }

    /// Renders the diagnostic as its canonical single line.
    pub fn render(&self) -> (s: String)
        ensures
            s@ == rendering(*self),
    {
        let mut s = self.span.stream.clone();
        push_char(&mut s, '[');
        push_dec(&mut s, self.span.row);
        push_char(&mut s, ':');
        push_dec(&mut s, self.span.column);
        push_char(&mut s, ']');
        push_char(&mut s, ':');
        push_char(&mut s, ' ');
        s.append(self.message.as_str());
        push_char(&mut s, '\n');
        proof {
            assert(s@ =~= rendering(*self));
        }
        s
    }
}

} // verus!
