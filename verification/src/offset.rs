//! Calculate the offset between slices.
use crate::slicelexer::SliceLexer;
use vstd::prelude::*;

verus! {

/// Calculate the offset between slices.
pub trait Offset<Start = Self> {
    /// Whether `self` was reached from `start` by reading forward: what
    /// `self` has left to read is what `start` ends with.
    spec fn follows(&self, start: &Start) -> bool;

    /// The number of bytes between the first byte of `start` and the first byte of `self`.
    spec fn distance(&self, start: &Start) -> nat;

    /// Offset between the first byte of `start` and the first byte of `self`.
    ///
    /// This is an offset, not an index: it is the length of `start` when
    /// `self` is exhausted.
    fn offset_from(&self, start: &Start) -> (offset: usize)
        requires
            self.follows(start),
        ensures
            offset == self.distance(start),
    ;
}

impl<'a> Offset<&'a [u8]> for SliceLexer<'a> {
    open spec fn follows(&self, start: &&'a [u8]) -> bool {
        self@.len() <= start@.len() && self@ == start@.skip(start@.len() - self@.len())
    }

    open spec fn distance(&self, start: &&'a [u8]) -> nat {
        (start@.len() - self@.len()) as nat
    }

    fn offset_from(&self, start: &&'a [u8]) -> (offset: usize) {
        start.len() - self.remaining()
    }
}

/// A lexer that has read `k` bytes of `start` follows `start` at offset `k`;
/// once it has read all of `start`, at the length of `start`.
pub proof fn lemma_offset_counts_bytes_read(lexer: SliceLexer, start: &[u8], k: int)
    requires
        0 <= k <= start@.len(),
        lexer@ =~= start@.skip(k),
    ensures
        lexer.follows(&start),
        lexer.distance(&start) == k,
        lexer@.len() == 0 ==> lexer.distance(&start) == start@.len(),
{
}

/// Reading `n` more bytes moves a lexer that follows `start` on by `n`.
pub proof fn lemma_offset_grows_with_reading(
    before: SliceLexer,
    after: SliceLexer,
    start: &[u8],
    n: int,
)
    requires
        before.follows(&start),
        0 <= n <= before@.len(),
        after@ =~= before@.skip(n),
    ensures
        after.follows(&start),
        after.distance(&start) == before.distance(&start) + n,
{
    let k = start@.len() - before@.len();
    assert(start@.skip(k).skip(n) =~= start@.skip(k + n));
}

} // verus!
