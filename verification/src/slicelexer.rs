//! A lexer over a byte slice. It copies nothing: what it hands out borrows from the slice.
use crate::ascii::{is_digit, DIGIT_0, DIGIT_9, DOT, LOWER_E, MINUS, PLUS, UPPER_E};
use crate::error;
use crate::escape::{decode_hex4, Escape};
use crate::lexer::Lexer;
use crate::num::{
    all_digits, digit_run, lemma_digit_run_skip, lemma_digit_run_unique, lemma_number_text,
    lemma_scan_is_number, scan_number, scan_rest, unset_marks, NumParts,
};
use crate::read::{stops_after, Read};
use crate::text::lemma_ascii_is_utf8;
use vstd::prelude::*;
use vstd::slice::slice_subrange;
use vstd::utf8::encode_utf8_decode_utf8;

verus! {

/// JSON lexer from a shared byte slice.
pub struct SliceLexer<'a> {
    slice: &'a [u8],
}

impl<'a> View for SliceLexer<'a> {
    type V = Seq<u8>;

    /// The bytes not yet read.
    closed spec fn view(&self) -> Seq<u8> {
        self.slice@
    }
}

impl<'a> SliceLexer<'a> {
    /// A lexer that has all of `slice` left to read.
    pub fn new(slice: &'a [u8]) -> (lexer: Self)
        ensures
            lexer@ == slice@,
    {
        Self { slice }
    }

    /// The number of bytes not yet read.
    pub(crate) fn remaining(&self) -> (n: usize)
        ensures
            n == self@.len(),
    {
        self.slice.len()
    }
}

/// The number of digits that `s` starts with.
pub fn digits(s: &[u8]) -> (n: usize)
    ensures
        n == digit_run(s@, 0),
        n <= s@.len(),
        all_digits(s@, 0, n as int),
        n < s@.len() ==> !is_digit(s@[n as int]),
{
    let mut n: usize = 0;
    while n < s.len() && DIGIT_0 <= s[n] && s[n] <= DIGIT_9
        invariant
            n <= s@.len(),
            all_digits(s@, 0, n as int),
        decreases s@.len() - n,
    {
        n += 1;
    }
    proof {
        lemma_digit_run_unique(s@, 0, n as int);
    }
    n
}

/// The number of digits in `s` from `from` on, if there is one at least.
fn digits1(s: &[u8], from: usize) -> (n: Result<usize, error::Num>)
    requires
        from <= s@.len(),
    ensures
        match n {
            Ok(n) => 0 < n == digit_run(s@, from as int) && from + n <= s@.len(),
            Err(e) => e == error::Num::ExpectedDigit && digit_run(s@, from as int) == 0,
        },
{
    let n = digits(slice_subrange(s, from, s.len()));
    proof {
        lemma_digit_run_skip(s@, from as int, 0);
    }
    if n == 0 {
        Err(error::Num::ExpectedDigit)
    } else {
        Ok(n)
    }
}

impl<'a> Read for SliceLexer<'a> {
    type Bytes = &'a [u8];

    fn strip_prefix<const N: usize>(&mut self, s: [u8; N]) -> (found: bool) {
        if self.slice.len() < N {
            return false;
        }
        let mut i: usize = 0;
        while i < N
            invariant
                i <= N <= self.slice@.len(),
                s@.len() == N,
                forall|j: int| 0 <= j < i ==> s@[j] == self.slice@[j],
            decreases N - i,
        {
            if s[i] != self.slice[i] {
                return false;
            }
            i += 1;
        }
        assert(s@ =~= self.slice@.subrange(0, N as int));
        self.slice = slice_subrange(self.slice, N, self.slice.len());
        true
    }

    fn peek_byte(&self) -> (next: Option<&u8>) {
        if self.slice.len() > 0 {
            Some(&self.slice[0])
        } else {
            None
        }
    }

    fn read_byte(&mut self) -> (next: Option<u8>) {
        if self.slice.len() > 0 {
            let head = self.slice[0];
            self.slice = slice_subrange(self.slice, 1, self.slice.len());
            Some(head)
        } else {
            None
        }
    }

    fn skip_until(&mut self, stop: impl FnMut(u8) -> bool) {
        let mut skipped: &'a [u8] = &[];
        self.read_until(&mut skipped, stop)
    }

    fn read_until(&mut self, bytes: &mut &'a [u8], mut stop: impl FnMut(u8) -> bool) {
        let ghost asked = stop;
        let mut pos: usize = 0;
        while pos < self.slice.len()
            invariant
                pos <= self.slice@.len(),
                stop == asked,
                forall|b: u8| call_requires(stop, (b,)),
                forall|i: int| 0 <= i < pos ==> call_ensures(stop, (#[trigger] self.slice@[i],), false),
            ensures
                stops_after(stop, self.slice@, pos as int),
            decreases self.slice@.len() - pos,
        {
            if stop(self.slice[pos]) {
                break;
            }
            pos += 1;
        }
        *bytes = slice_subrange(self.slice, 0, pos);
        self.slice = slice_subrange(self.slice, pos, self.slice.len());
    }
}

impl<'a> Lexer for SliceLexer<'a> {
    type Num = &'a str;

    fn num_bytes(&mut self, bytes: &mut &'a [u8]) -> (parts: Result<NumParts, error::Num>) {
        let s = self.slice;
        let mut pos: usize = if s[0] == MINUS {
            1
        } else {
            0
        };
        let mut parts = NumParts::default();

        pos += if pos < s.len() && s[pos] == DIGIT_0 {
            1
        } else {
            digits1(s, pos)?
        };

        loop
            invariant
                s == self.slice,
                s@ == old(self)@,
                pos <= s@.len(),
                scan_number(s@) == scan_rest(s@, pos as int, parts@),
                *bytes == *old(bytes),
            decreases unset_marks(parts@),
        {
            let next = if pos < s.len() {
                Some(s[pos])
            } else {
                None
            };
            match next {
                Some(DOT) if parts.dot.is_none() && parts.exp.is_none() => {
                    parts.dot = Some(pos);
                    pos += 1;
                    pos += digits1(s, pos)?;
                },
                Some(b) if (b == LOWER_E || b == UPPER_E) && parts.exp.is_none() => {
                    parts.exp = Some(pos);
                    pos += 1;
                    if pos < s.len() && (s[pos] == PLUS || s[pos] == MINUS) {
                        pos += 1;
                    }
                    pos += digits1(s, pos)?;
                },
                None | Some(_) => {
                    *bytes = slice_subrange(s, 0, pos);
                    self.slice = slice_subrange(s, pos, s.len());
                    proof {
                        lemma_scan_is_number(s@);
                        lemma_number_text(bytes@, parts@);
                    }
                    return Ok(parts);
                },
            }
        }
    }

    fn num_string(&mut self) -> (number: Result<(&'a str, NumParts), error::Num>) {
        let mut num: &'a [u8] = &[];
        match self.num_bytes(&mut num) {
            Ok(parts) => {
                proof {
                    lemma_ascii_is_utf8(num@);
                }
                let text = core::str::from_utf8(num).unwrap();
                proof {
                    encode_utf8_decode_utf8(text@);
                }
                Ok((text, parts))
            },
            Err(e) => Err(e),
        }
    }

    fn escape(&mut self) -> (escape: Result<Escape, error::Escape>) {
        if self.slice.len() == 0 {
            return Err(error::Escape::Eof);
        }
        let typ = self.slice[0];
        self.slice = slice_subrange(self.slice, 1, self.slice.len());
        let escape = match Escape::try_from(typ) {
            Some(escape) => escape,
            None => {
                return Err(error::Escape::UnknownKind);
            },
        };
        match escape {
            Escape::Unicode(_) => {
                if self.slice.len() < 4 {
                    return Err(error::Escape::Eof);
                }
                let hex: [u8; 4] = [self.slice[0], self.slice[1], self.slice[2], self.slice[3]];
                self.slice = slice_subrange(self.slice, 4, self.slice.len());
                assert(hex@ =~= old(self)@.subrange(1, 5));
                match decode_hex4(hex) {
                    Some(unit) => Ok(Escape::Unicode(unit)),
                    None => Err(error::Escape::InvalidHex),
                }
            },
            _ => Ok(escape),
        }
    }
}

} // verus!
