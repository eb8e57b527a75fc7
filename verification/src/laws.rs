use vstd::prelude::*;
use crate::model::{
    close_delim, dot_count, ident_end, is_digit, is_ident_cont, is_ident_start, is_ws,
    msg_unexpected_dot, next_spec, scan_number, skip_from, stepped, token_at, ws_step, LexOut,
    NumScan, Pos, SkipOut, SkipPhase, DOT, SLASH, STAR,
};
use crate::token::Kind;

verus! {

/// Skipping insignificant input never moves the cursor left nor past the
/// end of the buffer; an unterminated block comment is reported at its
/// opening position, which also lies within the buffer.
proof fn lemma_skip_bounds(bytes: Seq<u8>, p: Pos, ph: SkipPhase)
    requires
        0 <= p.idx <= bytes.len(),
    ensures
        match skip_from(bytes, p, ph) {
            SkipOut::At(q) => p.idx <= q.idx <= bytes.len(),
            SkipOut::Unterminated(st) => match ph {
                SkipPhase::Block(start) => st == start || p.idx <= st.idx < bytes.len(),
                _ => p.idx <= st.idx < bytes.len(),
            },
        },
    decreases bytes.len() - p.idx,
{
    match ph {
        SkipPhase::Code => {
            if p.idx < bytes.len() {
                let b = bytes[p.idx];
                if is_ws(b) {
                    lemma_skip_bounds(bytes, ws_step(p, b), SkipPhase::Code);
                } else if b == SLASH && p.idx + 1 < bytes.len() && bytes[p.idx + 1] == SLASH {
                    lemma_skip_bounds(bytes, stepped(p, 2), SkipPhase::Line);
                } else if b == SLASH && p.idx + 1 < bytes.len() && bytes[p.idx + 1] == STAR {
                    lemma_skip_bounds(bytes, stepped(p, 2), SkipPhase::Block(p));
                }
            }
        },
        SkipPhase::Line => {
            if p.idx < bytes.len() {
                if bytes[p.idx] == crate::model::NL {
                    lemma_skip_bounds(bytes, ws_step(p, crate::model::NL), SkipPhase::Code);
                } else {
                    lemma_skip_bounds(bytes, stepped(p, 1), SkipPhase::Line);
                }
            }
        },
        SkipPhase::Block(start) => {
            if p.idx + 1 < bytes.len() && bytes[p.idx] == STAR && bytes[p.idx + 1] == SLASH {
                lemma_skip_bounds(bytes, stepped(p, 2), SkipPhase::Code);
            } else if p.idx < bytes.len() {
                lemma_skip_bounds(bytes, stepped(p, 1), SkipPhase::Block(start));
            }
        },
    }
}

/// Skipping stops only on a byte that is neither whitespace nor the start
/// of a comment.
proof fn lemma_skip_significant(bytes: Seq<u8>, p: Pos, ph: SkipPhase)
    requires
        0 <= p.idx <= bytes.len(),
    ensures
        match skip_from(bytes, p, ph) {
            SkipOut::At(q) => q.idx < bytes.len() ==> !is_ws(bytes[q.idx]) && !(bytes[q.idx]
                == SLASH && q.idx + 1 < bytes.len() && (bytes[q.idx + 1] == SLASH || bytes[q.idx
                + 1] == STAR)),
            SkipOut::Unterminated(_) => true,
        },
    decreases bytes.len() - p.idx,
{
    match ph {
        SkipPhase::Code => {
            if p.idx < bytes.len() {
                let b = bytes[p.idx];
                if is_ws(b) {
                    lemma_skip_significant(bytes, ws_step(p, b), SkipPhase::Code);
                } else if b == SLASH && p.idx + 1 < bytes.len() && bytes[p.idx + 1] == SLASH {
                    lemma_skip_significant(bytes, stepped(p, 2), SkipPhase::Line);
                } else if b == SLASH && p.idx + 1 < bytes.len() && bytes[p.idx + 1] == STAR {
                    lemma_skip_significant(bytes, stepped(p, 2), SkipPhase::Block(p));
                }
            }
        },
        SkipPhase::Line => {
            if p.idx < bytes.len() {
                if bytes[p.idx] == crate::model::NL {
                    lemma_skip_significant(bytes, ws_step(p, crate::model::NL), SkipPhase::Code);
                } else {
                    lemma_skip_significant(bytes, stepped(p, 1), SkipPhase::Line);
                }
            }
        },
        SkipPhase::Block(start) => {
            if p.idx + 1 < bytes.len() && bytes[p.idx] == STAR && bytes[p.idx + 1] == SLASH {
                lemma_skip_significant(bytes, stepped(p, 2), SkipPhase::Code);
            } else if p.idx < bytes.len() {
                lemma_skip_significant(bytes, stepped(p, 1), SkipPhase::Block(start));
            }
        },
    }
}

/// The identifier scan stays within the buffer and covers only identifier
/// bytes; it consumes at least the byte it was started on when that byte
/// qualifies.
proof fn lemma_ident_end_bounds(bytes: Seq<u8>, i: int)
    requires
        0 <= i <= bytes.len(),
    ensures
        i <= ident_end(bytes, i) <= bytes.len(),
        forall|k: int| i <= k < ident_end(bytes, i) ==> is_ident_cont(bytes[k]),
        i < bytes.len() && is_ident_cont(bytes[i]) ==> ident_end(bytes, i) > i,
    decreases bytes.len() - i,
{
    if i < bytes.len() && is_ident_cont(bytes[i]) {
        lemma_ident_end_bounds(bytes, i + 1);
    }
}

/// The numeric scan stays within the buffer, covers only digits and
/// decimal points, and balances its decimal points: a successful scan that
/// began without a point holds exactly one when it reports `Float` and
/// none when it reports an integer.
proof fn lemma_scan_number_props(bytes: Seq<u8>, i: int, seen: bool)
    requires
        0 <= i <= bytes.len(),
    ensures
        match scan_number(bytes, i, seen) {
            NumScan::End { end, float } => {
                &&& i <= end <= bytes.len()
                &&& (forall|k: int| i <= k < end ==> (is_digit(bytes[k]) || bytes[k] == DOT))
                &&& dot_count(bytes.subrange(i, end)) + (if seen {
                    1int
                } else {
                    0int
                }) == (if float {
                    1int
                } else {
                    0int
                })
                &&& (seen ==> float)
                &&& (i < bytes.len() && (is_digit(bytes[i]) || bytes[i] == DOT) && !(bytes[i]
                    == DOT && seen) ==> end > i)
            },
            NumScan::SecondDot { at } => i <= at < bytes.len() && bytes[at] == DOT,
        },
    decreases bytes.len() - i,
{
    if i < bytes.len() && (is_digit(bytes[i]) || bytes[i] == DOT) {
        if bytes[i] == DOT {
            if !seen {
                lemma_scan_number_props(bytes, i + 1, true);
                if let NumScan::End { end, .. } = scan_number(bytes, i + 1, true) {
                    assert(bytes.subrange(i, end).drop_first() =~= bytes.subrange(i + 1, end));
                }
            }
        } else {
            lemma_scan_number_props(bytes, i + 1, seen);
            if let NumScan::End { end, .. } = scan_number(bytes, i + 1, seen) {
                assert(bytes.subrange(i, end).drop_first() =~= bytes.subrange(i + 1, end));
            }
        }
    } else {
        assert(bytes.subrange(i, i) =~= Seq::<u8>::empty());
    }
}

/// The search for a closing delimiter stays within the buffer and lands on
/// the delimiter byte.
proof fn lemma_close_delim_bounds(bytes: Seq<u8>, i: int, d: u8)
    requires
        0 <= i <= bytes.len(),
    ensures
        match close_delim(bytes, i, d) {
            Some(j) => i <= j < bytes.len() && bytes[j] == d,
            None => true,
        },
    decreases bytes.len() - i,
{
    if i < bytes.len() && bytes[i] != d {
        lemma_close_delim_bounds(bytes, i + 1, d);
    }
}

/// Classifying one lexeme never reports the end of the input.
proof fn lemma_token_at_not_eof(bytes: Seq<u8>, p: Pos)
    ensures
        !(token_at(bytes, p) is Eof),
{
}

/// Law: one call of the scanner accounts for the whole advance of the
/// cursor, byte for byte and exactly once — the bytes between the old
/// cursor and the produced token are consumed as whitespace or comments,
/// and the token's span covers exactly the bytes from its start to the new
/// cursor, inside the buffer. When the end of the input is reported, every
/// byte of the buffer has been consumed.
pub proof fn lemma_next_consumes_exactly(bytes: Seq<u8>, p: Pos)
    requires
        0 <= p.idx <= bytes.len(),
    ensures
        match next_spec(bytes, p) {
            LexOut::Tok { kind, at, len } => {
                &&& skip_from(bytes, p, SkipPhase::Code) == SkipOut::At(at)
                &&& p.idx <= at.idx
                &&& 1 <= len
                &&& at.idx + len <= bytes.len()
            },
            LexOut::Eof { at } => {
                &&& skip_from(bytes, p, SkipPhase::Code) == SkipOut::At(at)
                &&& p.idx <= at.idx
                &&& at.idx == bytes.len()
            },
            LexOut::Fail { msg: _, at, len } => {
                &&& p.idx <= at.idx
                &&& 0 <= len
                &&& at.idx + len <= bytes.len()
            },
        },
{
    lemma_skip_bounds(bytes, p, SkipPhase::Code);
    match skip_from(bytes, p, SkipPhase::Code) {
        SkipOut::At(q) => {
            if q.idx < bytes.len() {
                let b = bytes[q.idx];
                if is_ident_start(b) {
                    lemma_ident_end_bounds(bytes, q.idx);
                } else if is_digit(b) || b == DOT {
                    lemma_scan_number_props(bytes, q.idx, false);
                } else if b == crate::model::DQUOTE {
                    lemma_close_delim_bounds(bytes, q.idx + 1, crate::model::DQUOTE);
                } else if b == crate::model::SQUOTE {
                    lemma_close_delim_bounds(bytes, q.idx + 1, crate::model::SQUOTE);
                }
            }
        },
        SkipOut::Unterminated(_) => {},
    }
}

/// Law: idempotence at the end of the input — once a call has produced the
/// end-of-input outcome, the scanner stands at that very position, and a
/// further call from it produces the same outcome again, with the same
/// span.
pub proof fn lemma_end_of_file_stable(bytes: Seq<u8>, p: Pos, at: Pos)
    requires
        next_spec(bytes, p) == (LexOut::Eof { at }),
    ensures
        next_spec(bytes, at) == (LexOut::Eof { at }),
{
    match skip_from(bytes, p, SkipPhase::Code) {
        SkipOut::At(q) => {
            if q.idx < bytes.len() {
                lemma_token_at_not_eof(bytes, q);
            }
        },
        SkipOut::Unterminated(_) => {},
    }
}

/// Law: whitespace and comments never reach a produced token's text —
/// outside the two delimited literal forms no byte the token covers is
/// whitespace, and no token's text begins a line or block comment.
pub proof fn lemma_no_trivia_in_tokens(bytes: Seq<u8>, p: Pos)
    requires
        0 <= p.idx <= bytes.len(),
    ensures
        match next_spec(bytes, p) {
            LexOut::Tok { kind, at, len } => {
                &&& !is_ws(bytes[at.idx])
                &&& (kind != Kind::String && kind != Kind::Char ==> forall|k: int|
                    at.idx <= k < at.idx + len ==> !is_ws(bytes[k]))
                &&& !(bytes[at.idx] == SLASH && 1 < len && (bytes[at.idx + 1] == SLASH || bytes[
                    at.idx + 1] == STAR))
            },
            LexOut::Eof { .. } => true,
            LexOut::Fail { .. } => true,
        },
{
    lemma_skip_bounds(bytes, p, SkipPhase::Code);
    lemma_skip_significant(bytes, p, SkipPhase::Code);
    match skip_from(bytes, p, SkipPhase::Code) {
        SkipOut::At(q) => {
            if q.idx < bytes.len() {
                let b = bytes[q.idx];
                if is_ident_start(b) {
                    lemma_ident_end_bounds(bytes, q.idx);
                    assert forall|k: int|
                        q.idx <= k < q.idx + (ident_end(bytes, q.idx)
                            - q.idx) implies !is_ws(bytes[k]) by {
                        assert(is_ident_cont(bytes[k]));
                    }
                } else if is_digit(b) || b == DOT {
                    lemma_scan_number_props(bytes, q.idx, false);
                    if let NumScan::End { end, .. } = scan_number(bytes, q.idx, false) {
                        assert forall|k: int| q.idx <= k < end implies !is_ws(bytes[k]) by {
                            assert(is_digit(bytes[k]) || bytes[k] == DOT);
                        }
                    }
                }
            }
        },
        SkipOut::Unterminated(_) => {},
    }
}

/// Law: a numeric literal's text holds at most one decimal point — none
/// when it is classified `Integer`, exactly one when it is classified
/// `Float`.
pub proof fn lemma_number_dots(bytes: Seq<u8>, p: Pos)
    requires
        0 <= p.idx <= bytes.len(),
    ensures
        match next_spec(bytes, p) {
            LexOut::Tok { kind, at, len } => {
                &&& (kind == Kind::Integer ==> dot_count(bytes.subrange(at.idx, at.idx + len))
                    == 0)
                &&& (kind == Kind::Float ==> dot_count(bytes.subrange(at.idx, at.idx + len)) == 1)
            },
            LexOut::Eof { .. } => true,
            LexOut::Fail { .. } => true,
        },
{
    lemma_skip_bounds(bytes, p, SkipPhase::Code);
    match skip_from(bytes, p, SkipPhase::Code) {
        SkipOut::At(q) => {
            if q.idx < bytes.len() {
                let b = bytes[q.idx];
                if !is_ident_start(b) && (is_digit(b) || b == DOT) {
                    lemma_scan_number_props(bytes, q.idx, false);
                }
            }
        },
        SkipOut::Unterminated(_) => {},
    }
}

/// Law: meeting a second decimal point while scanning one numeric literal
/// is rejected as the `unexpected '.'` syntax error, at the span of the
/// literal scanned so far.
pub proof fn lemma_second_dot_rejected(bytes: Seq<u8>, p: Pos, q: Pos, j: int)
    requires
        0 <= p.idx <= bytes.len(),
        skip_from(bytes, p, SkipPhase::Code) == SkipOut::At(q),
        q.idx < bytes.len(),
        is_digit(bytes[q.idx]) || bytes[q.idx] == DOT,
        scan_number(bytes, q.idx, false) == (NumScan::SecondDot { at: j }),
    ensures
        next_spec(bytes, p) == (LexOut::Fail {
            msg: msg_unexpected_dot(),
            at: q,
            len: j - q.idx,
        }),
{
}

} // verus!
