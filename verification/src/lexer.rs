//! Lexing numbers and escape sequences from a source of bytes.
use crate::error;
use crate::escape::{decode_escape, escape_len, Escape};
use crate::num::{is_number, is_number_byte, marks_in_order, scan_number, NumParts};
use crate::read::Read;
use crate::text::ascii_text;
use vstd::prelude::*;

verus! {

/// A source of bytes from which numbers and escape sequences can be lexed.
pub trait Lexer: Read {
    /// The text of a number.
    type Num: View<V = Seq<char>>;

    /// Reads the number at the front of the input, stores its bytes in
    /// `bytes`, and returns where its fraction and exponent begin.
    ///
    /// The input must not be at its end. Where no number stands at the front
    /// of the input, nothing is read and `bytes` keeps its value.
    fn num_bytes(&mut self, bytes: &mut Self::Bytes) -> (parts: Result<NumParts, error::Num>)
        requires
            old(self)@.len() > 0,
        ensures
            match scan_number(old(self)@) {
                Some(number) => {
                    &&& parts matches Ok(p)
                    &&& p@ == number.marks
                    &&& final(bytes)@ == old(self)@.take(number.len)
                    &&& final(self)@ == old(self)@.skip(number.len)
                    &&& is_number(final(bytes)@, p@)
                    &&& marks_in_order(p@, number.len)
                    &&& forall|i: int|
                        0 <= i < final(bytes)@.len() ==> is_number_byte(
                            #[trigger] final(bytes)@[i],
                        )
                },
                None => {
                    &&& parts matches Err(error::Num::ExpectedDigit)
                    &&& final(self)@ == old(self)@
                    &&& *final(bytes) == *old(bytes)
                },
            },
    ;

    /// Reads the number at the front of the input and returns its text, with
    /// where its fraction and exponent begin.
    ///
    /// The input must not be at its end. Where no number stands at the front
    /// of the input, nothing is read.
    fn num_string(&mut self) -> (number: Result<(Self::Num, NumParts), error::Num>)
        requires
            old(self)@.len() > 0,
        ensures
            match scan_number(old(self)@) {
                Some(found) => {
                    &&& number matches Ok((text, p))
                    &&& p@ == found.marks
                    &&& text@ == ascii_text(old(self)@.take(found.len))
                    &&& final(self)@ == old(self)@.skip(found.len)
                    &&& is_number(old(self)@.take(found.len), p@)
                    &&& marks_in_order(p@, found.len)
                },
                None => {
                    &&& number matches Err(error::Num::ExpectedDigit)
                    &&& final(self)@ == old(self)@
                },
            },
    ;

    /// Reads the escape sequence at the front of the input, which stands
    /// just after a backslash, and decodes it.
    ///
    /// The bytes of the sequence are read whether or not it is valid.
    fn escape(&mut self) -> (escape: Result<Escape, error::Escape>)
        ensures
            escape == decode_escape(old(self)@),
            final(self)@ == old(self)@.skip(escape_len(old(self)@)),
    ;
}

} // verus!
