use vstd::prelude::*;

verus! {

/// A source region, in byte offsets. Synthetic tree nodes carry the
/// sentinel produced by [`Span::dummy`]; that sentinel is what marks
/// compiler-generated code in diagnostics and in the source map.
#[derive(Clone, Copy, Debug, PartialEq, Eq, Structural)]
pub struct Span {
    pub start: usize,
    pub end: usize,
    pub is_dummy: bool,
}

impl Span {
    /// The sentinel "no location" span carried by synthesized code.
    pub fn dummy() -> (r: Span)
        ensures
            r.is_dummy,
            r == (Span { start: 0, end: 0, is_dummy: true }),
    {
        Span { start: 0, end: 0, is_dummy: true }
    }

    /// A real source region.
    pub fn new(start: usize, end: usize) -> (r: Span)
        ensures
            r == (Span { start, end, is_dummy: false }),
    {
        Span { start, end, is_dummy: false }
    }
}

} // verus!
