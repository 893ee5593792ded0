use vstd::prelude::*;

verus! {

/// A half-open range of positions into the token or character sequence a
/// construct came from. Lexer spans index characters of the source; parser
/// and evaluator spans index tokens of the lexed stream.
#[derive(Clone, Copy, PartialEq, Eq, Structural, Debug)]
pub struct Span {
    pub start: usize,
    pub end: usize,
}

impl Span {
    pub fn new(start: usize, end: usize) -> (r: Span)
        ensures
            r.start == start,
            r.end == end,
    {
        Span { start, end }
    }
}

} // verus!
