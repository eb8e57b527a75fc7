use vstd::prelude::*;

verus! {

/// A half-open byte range in one named source unit, together with its
/// row/column projection. `row` and `column` are 1-based; `index` is the
/// 0-based byte offset of the range's first byte; `length` is its byte
/// length.
#[derive(Debug, Clone)]
pub struct Span {
    pub stream: String,
    pub row: usize,
    pub column: usize,
    pub index: usize,
    pub length: usize,
}

impl Span {
    /// Builds a span from its parts.
    pub fn new(stream: String, row: usize, column: usize, index: usize, length: usize) -> (s:
        Span)
        ensures
            s == (Span { stream, row, column, index, length }),
    {
        Span { stream, row, column, index, length }
    }
}

} // verus!
