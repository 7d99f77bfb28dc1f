//! The shape of a JSON number: where it ends, and where its fraction and exponent begin.
use crate::ascii::{is_digit, DIGIT_0, DOT, LOWER_E, MINUS, PLUS, UPPER_E};
use vstd::prelude::*;

verus! {

/// Where the fraction and the exponent of a scanned number begin.
///
/// Each position is a byte offset into the number's own text, counted from
/// its first byte, and is never zero: a number starts with `-` or a digit.
#[derive(Clone, Copy, Debug, PartialEq, Eq)]
pub struct NumParts {
    /// Position of the decimal point, if the number has a fraction.
    pub dot: Option<usize>,
    /// Position of `e` or `E`, if the number has an exponent.
    pub exp: Option<usize>,
}

/// The positions of [`NumParts`] as mathematical integers.
pub struct Marks {
    /// Position of the decimal point.
    pub dot: Option<int>,
    /// Position of the exponent marker.
    pub exp: Option<int>,
}

/// What a scan finds at the front of its input: the length of the number and its marks.
pub struct NumberSpan {
    /// How many bytes the number takes.
    pub len: int,
    /// Where its fraction and exponent begin.
    pub marks: Marks,
}

impl View for NumParts {
    type V = Marks;

    open spec fn view(&self) -> Marks {
        Marks {
            dot: match self.dot {
                Some(d) => Some(d as int),
                None => None,
            },
            exp: match self.exp {
                Some(e) => Some(e as int),
                None => None,
            },
        }
    }
}

impl Default for NumParts {
    /// The parts of an integer: neither fraction nor exponent.
    fn default() -> (parts: Self)
        ensures
            parts.dot is None,
            parts.exp is None,
    {
        NumParts { dot: None, exp: None }
    }
}

/// Whether `b` can occur in the text of a number: a digit or one of `-`, `+`, `.`, `e`, `E`.
pub open spec fn is_number_byte(b: u8) -> bool {
    is_digit(b) || b == MINUS || b == PLUS || b == DOT || b == LOWER_E || b == UPPER_E
}

/// Whether the byte `b` stands at position `at` of `s`.
pub open spec fn has_byte(s: Seq<u8>, at: int, b: u8) -> bool {
    0 <= at < s.len() && s[at] == b
}

/// Whether every byte of `s` from `lo` up to, but not including, `hi` is a digit.
pub open spec fn all_digits(s: Seq<u8>, lo: int, hi: int) -> bool {
    forall|i: int| lo <= i < hi ==> is_digit(#[trigger] s[i])
}

/// The length of the longest run of digits in `s` that starts at `from`.
pub open spec fn digit_run(s: Seq<u8>, from: int) -> nat
    decreases s.len() - from,
{
    if 0 <= from < s.len() && is_digit(s[from]) {
        1 + digit_run(s, from + 1)
    } else {
        0
    }
}

/// The length of the optional sign of a number: one where `s` starts with `-`.
pub open spec fn sign_len(s: Seq<u8>) -> int {
    if has_byte(s, 0, MINUS) {
        1
    } else {
        0
    }
}

/// The length of the integer part that starts at `from`: a lone `0`, or else
/// every digit that follows. Zero where no digit stands at `from`.
pub open spec fn integer_len(s: Seq<u8>, from: int) -> nat {
    if has_byte(s, from, DIGIT_0) {
        1
    } else {
        digit_run(s, from)
    }
}

/// The length of the optional sign of an exponent at `from`.
pub open spec fn exponent_sign_len(s: Seq<u8>, from: int) -> int {
    if has_byte(s, from, PLUS) || has_byte(s, from, MINUS) {
        1
    } else {
        0
    }
}

/// Scans the optional exponent at `at`, after a mantissa whose decimal point is at `dot`.
pub open spec fn scan_exponent(s: Seq<u8>, at: int, dot: Option<int>) -> Option<NumberSpan> {
    if has_byte(s, at, LOWER_E) || has_byte(s, at, UPPER_E) {
        let digits_at = at + 1 + exponent_sign_len(s, at + 1);
        if digit_run(s, digits_at) == 0 {
            None
        } else {
            Some(
                NumberSpan {
                    len: digits_at + digit_run(s, digits_at),
                    marks: Marks { dot, exp: Some(at) },
                },
            )
        }
    } else {
        Some(NumberSpan { len: at, marks: Marks { dot, exp: None } })
    }
}

/// Scans the optional fraction at `at`, and the optional exponent after it.
pub open spec fn scan_fraction(s: Seq<u8>, at: int) -> Option<NumberSpan> {
    if has_byte(s, at, DOT) {
        if digit_run(s, at + 1) == 0 {
            None
        } else {
            scan_exponent(s, at + 1 + digit_run(s, at + 1), Some(at))
        }
    } else {
        scan_exponent(s, at, None)
    }
}

/// Scans the number at the front of `s`.
///
/// The number is an optional `-`, an integer part, an optional fraction (`.`
/// and digits) and an optional exponent (`e` or `E`, an optional sign, and
/// digits), each run of digits taken as far as it goes. The result is `None`
/// where one of the three runs of digits is empty.
pub open spec fn scan_number(s: Seq<u8>) -> Option<NumberSpan> {
    if integer_len(s, sign_len(s)) == 0 {
        None
    } else {
        scan_fraction(s, sign_len(s) + integer_len(s, sign_len(s)))
    }
}

/// How many more parts a scan may still find once it has set `marks`: a
/// fraction and an exponent, an exponent alone, or none.
pub open spec fn unset_marks(marks: Marks) -> nat {
    if marks.exp is Some {
        0
    } else if marks.dot is Some {
        1
    } else {
        2
    }
}

/// What is left of the scan of a number at `at`, once its integer part and
/// the parts that `marks` holds have been read: a fraction may follow only
/// where neither mark is set, an exponent only where none is set yet.
pub open spec fn scan_rest(s: Seq<u8>, at: int, marks: Marks) -> Option<NumberSpan> {
    if marks.exp is Some {
        Some(NumberSpan { len: at, marks })
    } else if marks.dot is Some {
        scan_exponent(s, at, marks.dot)
    } else {
        scan_fraction(s, at)
    }
}

/// Whether `s` is, from its first byte to its last, a JSON number with its
/// decimal point and exponent marker at the positions that `marks` gives.
pub open spec fn is_number(s: Seq<u8>, marks: Marks) -> bool {
    let first = sign_len(s);
    let mantissa_end = match marks.exp {
        Some(e) => e,
        None => s.len() as int,
    };
    let integer_end = match marks.dot {
        Some(d) => d,
        None => mantissa_end,
    };
    &&& first < integer_end <= mantissa_end <= s.len()
    &&& all_digits(s, first, integer_end)
    &&& s[first] == DIGIT_0 ==> integer_end == first + 1
    &&& marks.dot matches Some(d) ==> s[d] == DOT && d + 1 < mantissa_end && all_digits(
        s,
        d + 1,
        mantissa_end,
    )
    &&& marks.exp matches Some(e) ==> {
        let digits_at = e + 1 + exponent_sign_len(s, e + 1);
        &&& e < s.len()
        &&& s[e] == LOWER_E || s[e] == UPPER_E
        &&& digits_at < s.len()
        &&& all_digits(s, digits_at, s.len() as int)
    }
}

/// Whether the marks obey the order of the parts of a number of `len` bytes:
/// each lies after the first byte and before the last, and the decimal point
/// before the exponent marker.
pub open spec fn marks_in_order(marks: Marks, len: int) -> bool {
    &&& marks.dot matches Some(d) ==> 0 < d < len - 1
    &&& marks.exp matches Some(e) ==> 0 < e < len - 1
    &&& marks.dot matches Some(d) ==> (marks.exp matches Some(e) ==> d + 1 < e)
}

/// A run of digits ends inside `s`, holds digits only, and is not followed by a digit.
pub proof fn lemma_digit_run_bounds(s: Seq<u8>, from: int)
    requires
        0 <= from <= s.len(),
    ensures
        from + digit_run(s, from) <= s.len(),
        all_digits(s, from, from + digit_run(s, from)),
        !is_digit(s[from + digit_run(s, from)]) || from + digit_run(s, from) == s.len(),
    decreases s.len() - from,
{
    if from < s.len() && is_digit(s[from]) {
        lemma_digit_run_bounds(s, from + 1);
    }
}

/// A stretch of digits that no digit follows is the run of digits at its start.
pub proof fn lemma_digit_run_unique(s: Seq<u8>, from: int, to: int)
    requires
        0 <= from <= to <= s.len(),
        all_digits(s, from, to),
        to == s.len() || !is_digit(s[to]),
    ensures
        from + digit_run(s, from) == to,
    decreases to - from,
{
    if from < to {
        assert(is_digit(s[from]));
        lemma_digit_run_unique(s, from + 1, to);
    }
}

/// The run of digits at `from` in what is left of `s` after its first `k`
/// bytes is the run at `k + from` in `s`.
pub proof fn lemma_digit_run_skip(s: Seq<u8>, k: int, from: int)
    requires
        0 <= k <= s.len(),
        0 <= from <= s.len() - k,
    ensures
        digit_run(s.skip(k), from) == digit_run(s, k + from),
    decreases s.len() - k - from,
{
    if from < s.len() - k && is_digit(s[k + from]) {
        lemma_digit_run_skip(s, k, from + 1);
    }
}

/// A number is written with digits and `-`, `+`, `.`, `e`, `E` alone, and its
/// marks are in order.
pub proof fn lemma_number_text(s: Seq<u8>, marks: Marks)
    requires
        is_number(s, marks),
    ensures
        s.len() > 0,
        forall|i: int| 0 <= i < s.len() ==> is_number_byte(#[trigger] s[i]),
        marks_in_order(marks, s.len() as int),
{
}

/// What a scan takes from the front of `s` is a number with the marks that the scan reports.
pub proof fn lemma_scan_is_number(s: Seq<u8>)
    requires
        scan_number(s) is Some,
    ensures
        0 < scan_number(s)->0.len <= s.len(),
        is_number(s.take(scan_number(s)->0.len), scan_number(s)->0.marks),
{
    let number = scan_number(s)->0;
    let first = sign_len(s);
    lemma_digit_run_bounds(s, first);
    let integer_end = first + integer_len(s, first);
    if has_byte(s, integer_end, DOT) {
        lemma_digit_run_bounds(s, integer_end + 1);
        let mantissa_end = integer_end + 1 + digit_run(s, integer_end + 1);
        lemma_exponent_is_read(s, mantissa_end, Some(integer_end));
    } else {
        lemma_exponent_is_read(s, integer_end, None);
    }
    let text = s.take(number.len);
    assert(forall|i: int| 0 <= i < number.len ==> text[i] == s[i]);
}

/// A scan of a number that is followed by nothing, or by a byte that no
/// number holds, takes the number whole and reports its marks.
pub proof fn lemma_scan_takes_whole_number(s: Seq<u8>, marks: Marks, rest: Seq<u8>)
    requires
        is_number(s, marks),
        rest.len() == 0 || !is_number_byte(rest[0]),
    ensures
        scan_number(s + rest) == Some(NumberSpan { len: s.len() as int, marks }),
{
    let input = s + rest;
    let len = s.len() as int;
    assert(forall|i: int| 0 <= i < len ==> input[i] == s[i]);
    assert(rest.len() > 0 ==> input[len] == rest[0]);
    let first = sign_len(s);
    let mantissa_end = match marks.exp {
        Some(e) => e,
        None => len,
    };
    let integer_end = match marks.dot {
        Some(d) => d,
        None => mantissa_end,
    };
    lemma_digit_run_unique(input, first, integer_end);
    if let Some(d) = marks.dot {
        lemma_digit_run_unique(input, d + 1, mantissa_end);
    }
    if let Some(e) = marks.exp {
        lemma_digit_run_unique(input, e + 1 + exponent_sign_len(s, e + 1), len);
    }
}

/// A leading zero is an integer part by itself: unless a fraction or an
/// exponent follows it, the scan ends after the `0`, whatever comes next.
pub proof fn lemma_leading_zero_stands_alone(s: Seq<u8>)
    requires
        has_byte(s, sign_len(s), DIGIT_0),
        !has_byte(s, sign_len(s) + 1, DOT),
        !has_byte(s, sign_len(s) + 1, LOWER_E),
        !has_byte(s, sign_len(s) + 1, UPPER_E),
    ensures
        scan_number(s) == Some(
            NumberSpan { len: sign_len(s) + 1, marks: Marks { dot: None, exp: None } },
        ),
{
}

/// Where a scan goes on to the exponent at `at`, it ends inside `s`, after
/// `at` if it reads an exponent, and the exponent it reads is well formed.
proof fn lemma_exponent_is_read(s: Seq<u8>, at: int, dot: Option<int>)
    requires
        0 <= at <= s.len(),
        scan_exponent(s, at, dot) is Some,
    ensures
        at <= scan_exponent(s, at, dot)->0.len <= s.len(),
        scan_exponent(s, at, dot)->0.marks.dot == dot,
        match scan_exponent(s, at, dot)->0.marks.exp {
            Some(e) => {
                let digits_at = e + 1 + exponent_sign_len(s, e + 1);
                &&& e == at
                &&& has_byte(s, e, LOWER_E) || has_byte(s, e, UPPER_E)
                &&& digits_at < scan_exponent(s, at, dot)->0.len
                &&& all_digits(s, digits_at, scan_exponent(s, at, dot)->0.len)
            },
            None => scan_exponent(s, at, dot)->0.len == at,
        },
{
    if has_byte(s, at, LOWER_E) || has_byte(s, at, UPPER_E) {
        lemma_digit_run_bounds(s, at + 1 + exponent_sign_len(s, at + 1));
    }
}

} // verus!
