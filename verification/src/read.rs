//! Reading bytes from the front of an input, one at a time or up to a stop byte.
use vstd::prelude::*;

verus! {

/// Whether a scan of `s` that asks `stop` about each byte in turn may halt
/// after `n` bytes: `stop` let each of the first `n` bytes pass, and held at
/// the byte after them unless `s` ends there.
pub open spec fn stops_after<F: FnMut(u8) -> bool>(stop: F, s: Seq<u8>, n: int) -> bool {
    &&& 0 <= n <= s.len()
    &&& forall|i: int| 0 <= i < n ==> call_ensures(stop, (#[trigger] s[i],), false)
    &&& n < s.len() ==> call_ensures(stop, (s[n],), true)
}

/// Where `stop` gives one answer for each byte, a scan can halt in one place only.
pub proof fn lemma_stop_is_unique<F: FnMut(u8) -> bool>(stop: F, s: Seq<u8>, n: int, m: int)
    requires
        stops_after(stop, s, n),
        stops_after(stop, s, m),
        forall|b: u8| !(call_ensures(stop, (b,), true) && call_ensures(stop, (b,), false)),
    ensures
        n == m,
{
    if n < m {
        assert(call_ensures(stop, (s[n],), false));
    } else if m < n {
        assert(call_ensures(stop, (s[m],), false));
    }
}

/// A source of bytes that is read from the front.
///
/// The view of a source is the sequence of bytes not yet read. Reading only
/// ever removes bytes from the front of it.
pub trait Read: View<V = Seq<u8>> {
    /// A run of bytes taken from the source.
    type Bytes: View<V = Seq<u8>>;

    /// Reads the bytes of `s` if the unread input starts with them; otherwise reads nothing.
    fn strip_prefix<const N: usize>(&mut self, s: [u8; N]) -> (found: bool)
        ensures
            found == s@.is_prefix_of(old(self)@),
            found ==> final(self)@ == old(self)@.skip(N as int),
            !found ==> final(self)@ == old(self)@,
    ;

    /// The next byte, which stays unread; `None` at the end of the input.
    ///
    /// The result is fixed by the unread input alone, which a shared
    /// reference cannot change: to peek again is to see the same byte.
    fn peek_byte(&self) -> (next: Option<&u8>)
        ensures
            match next {
                Some(b) => self@.len() > 0 && *b == self@[0],
                None => self@.len() == 0,
            },
    ;

    /// Reads the next byte; `None` at the end of the input.
    fn read_byte(&mut self) -> (next: Option<u8>)
        ensures
            match next {
                Some(b) => old(self)@.len() > 0 && b == old(self)@[0] && final(self)@ == old(
                    self,
                )@.skip(1),
                None => old(self)@.len() == 0 && final(self)@ == old(self)@,
            },
    ;

    /// Reads and discards bytes up to the first byte at which `stop` holds,
    /// which stays unread, or up to the end of the input.
    fn skip_until(&mut self, stop: impl FnMut(u8) -> bool)
        requires
            forall|b: u8| call_requires(stop, (b,)),
        ensures
            stops_after(stop, old(self)@, old(self)@.len() - final(self)@.len()),
            final(self)@ == old(self)@.skip(old(self)@.len() - final(self)@.len()),
    ;

    /// Reads bytes up to the first byte at which `stop` holds, which stays
    /// unread, or up to the end of the input, and stores them in `bytes`.
    fn read_until(&mut self, bytes: &mut Self::Bytes, stop: impl FnMut(u8) -> bool)
        requires
            forall|b: u8| call_requires(stop, (b,)),
        ensures
            stops_after(stop, old(self)@, final(bytes)@.len() as int),
            final(bytes)@ == old(self)@.take(final(bytes)@.len() as int),
            final(self)@ == old(self)@.skip(final(bytes)@.len() as int),
    ;
}

} // verus!
