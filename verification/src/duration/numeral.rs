//! The numeral of a seconds token, read as the exact decimal it writes.
//!
//! A numeral is an optional sign, then either one of the words `inf`,
//! `infinity`, `nan` (in any mix of upper and lower case) or a number: digits
//! with at most one point among them, at least one digit in all, and an
//! optional exponent, `e` or `E` with an optional sign and at least one
//! digit. The number comes out in nanoseconds, rounded to the nearest one
//! (half a nanosecond rounds up).
//!
//! This is not the reading of a binary floating-point number, and it
//! differs from that one: a half nanosecond rounds up here and to the even
//! neighbour there, digits beyond the seventeenth count here and are lost
//! there, and a numeral below zero that is too small for such a number is
//! refused here and zero there. Where that reading is wanted, the caller
//! makes it and hands it to `from_str_given`.

use vstd::prelude::*;
use crate::duration::digits::{all_digits, digit_of, digit_value, is_digit, number, pow10};
use crate::duration::{FormatError, MAX_NANOS};
use crate::text::chars_of;

verus! {

/// What a numeral's characters say, before any arithmetic.
pub enum Numeral {
    /// A number: its sign, the digits before and after the point, and the
    /// power of ten that the exponent gives.
    Number { negative: bool, whole: Seq<char>, fraction: Seq<char>, exponent: int },
    /// One of the words for infinity or not-a-number.
    NotFinite,
    /// Anything else.
    Invalid,
}

/// Where the run of digits that starts at `from` ends.
pub open spec fn digits_end(t: Seq<char>, from: int) -> int
    decreases t.len() - from,
{
    if 0 <= from < t.len() && is_digit(t[from]) {
        digits_end(t, from + 1)
    } else {
        from
    }
}

/// Whether `c` is the lower-case letter `lower` or its upper-case form.
pub open spec fn is_letter(c: char, lower: char) -> bool {
    c == lower || (lower == 'a' && c == 'A') || (lower == 'f' && c == 'F') || (lower == 'i' && c
        == 'I') || (lower == 'n' && c == 'N') || (lower == 't' && c == 'T') || (lower == 'y' && c
        == 'Y')
}

/// Whether `s` spells `word`, a word of lower-case letters, in any mix of
/// cases.
pub open spec fn spells_word(s: Seq<char>, word: Seq<char>) -> bool {
    s.len() == word.len() && forall|i: int| 0 <= i < s.len() ==> is_letter(#[trigger] s[i], word[i])
}

/// Whether `s` is one of the words for a value that is no finite number.
pub open spec fn is_not_finite_word(s: Seq<char>) -> bool {
    spells_word(s, seq!['i', 'n', 'f']) || spells_word(
        s,
        seq!['i', 'n', 'f', 'i', 'n', 'i', 't', 'y'],
    ) || spells_word(s, seq!['n', 'a', 'n'])
}

/// Whether `c` is a sign.
pub open spec fn is_sign(c: char) -> bool {
    c == '+' || c == '-'
}

/// Reads the characters of a numeral.
pub open spec fn numeral_of(t: Seq<char>) -> Numeral {
    let start: int = if t.len() > 0 && is_sign(t[0]) {
        1
    } else {
        0
    };
    let negative = t.len() > 0 && t[0] == '-';
    let whole_end = digits_end(t, start);
    let dotted = whole_end < t.len() && t[whole_end] == '.';
    let fraction_start = if dotted {
        whole_end + 1
    } else {
        whole_end
    };
    let fraction_end = digits_end(t, fraction_start);
    let whole = t.subrange(start, whole_end);
    let fraction = t.subrange(fraction_start, fraction_end);
    let marked = fraction_end < t.len() && (t[fraction_end] == 'e' || t[fraction_end] == 'E');
    let sign_at = fraction_end + 1;
    let exponent_start = if sign_at < t.len() && is_sign(t[sign_at]) {
        sign_at + 1
    } else {
        sign_at
    };
    let exponent_end = digits_end(t, exponent_start);
    let size = number(t.subrange(exponent_start, exponent_end)) as int;
    if whole.len() + fraction.len() == 0 {
        if is_not_finite_word(t.skip(start)) {
            Numeral::NotFinite
        } else {
            Numeral::Invalid
        }
    } else if !marked {
        if fraction_end == t.len() {
            Numeral::Number { negative, whole, fraction, exponent: 0 }
        } else {
            Numeral::Invalid
        }
    } else if exponent_end > exponent_start && exponent_end == t.len() {
        Numeral::Number {
            negative,
            whole,
            fraction,
            exponent: if t[sign_at] == '-' {
                -size
            } else {
                size
            },
        }
    } else {
        Numeral::Invalid
    }
}

/// The number that `digits` write with a decimal point after the first
/// `point` of them, rounded to the nearest whole number, a half upwards.
/// The point may lie before the first digit or beyond the last one.
pub open spec fn shifted(digits: Seq<char>, point: int) -> nat {
    if point < 0 {
        0
    } else if point >= digits.len() {
        number(digits) * pow10((point - digits.len()) as nat)
    } else if digit_value(digits[point]) >= 5 {
        number(digits.take(point)) + 1
    } else {
        number(digits.take(point))
    }
}

/// The nanoseconds that the numeral `t` of a seconds token stands for, or
/// why it stands for none.
pub open spec fn seconds_nanos(t: Seq<char>) -> Result<nat, FormatError> {
    match numeral_of(t) {
        Numeral::Invalid => Err(FormatError::InvalidSeconds),
        Numeral::NotFinite => Err(FormatError::SecondsNotFinite),
        Numeral::Number { negative, whole, fraction, exponent } => {
            let nanos = shifted(whole + fraction, whole.len() + exponent + 9);
            if negative && number(whole + fraction) > 0 {
                Err(FormatError::NegativeSeconds)
            } else if nanos > MAX_NANOS {
                Err(FormatError::Overflow)
            } else {
                Ok(nanos)
            }
        },
    }
}

/// The end of the run of digits that starts at `from`.
fn scan_digits(t: &Vec<char>, from: usize) -> (end: usize)
    requires
        from <= t.len(),
    ensures
        from <= end <= t.len(),
        end == digits_end(t@, from as int),
        all_digits(t@.subrange(from as int, end as int)),
{
    let mut end: usize = from;
    while end < t.len() && digit_of(t[end]).is_some()
        invariant
            from <= end <= t.len(),
            digits_end(t@, from as int) == digits_end(t@, end as int),
            all_digits(t@.subrange(from as int, end as int)),
        decreases t.len() - end,
    {
        assert forall|i: int| 0 <= i < end + 1 - from implies is_digit(
            #[trigger] t@.subrange(from as int, end + 1)[i],
        ) by {
            if i < end - from {
                assert(t@.subrange(from as int, end as int)[i] == t@[from + i]);
            }
        }
        end += 1;
    }
    end
}

/// Reading one more digit multiplies by ten and adds the digit.
pub proof fn lemma_number_step(s: Seq<char>, i: int)
    requires
        0 <= i < s.len(),
    ensures
        number(s.take(i + 1)) == number(s.take(i)) * 10 + digit_value(s[i]),
{
    assert(s.take(i + 1).drop_last() =~= s.take(i));
}

/// A longer prefix writes a number that is no smaller.
pub proof fn lemma_number_grows(s: Seq<char>, i: int, j: int)
    requires
        0 <= i <= j <= s.len(),
    ensures
        number(s.take(i)) <= number(s.take(j)),
    decreases j - i,
{
    if i < j {
        lemma_number_grows(s, i, j - 1);
        lemma_number_step(s, j - 1);
    }
}

/// The largest exponent that is told apart from larger ones: beyond it a
/// number is either zero or out of every range.
pub const EXPONENT_CAP: u128 = 1_000_000_000_000_000_000_000_000_000_000;

/// The number written by `t` from `from` up to `end`, or the cap where the
/// number is larger.
fn read_capped(t: &Vec<char>, from: usize, end: usize) -> (out: u128)
    requires
        from <= end <= t.len(),
    ensures
        out <= EXPONENT_CAP,
        number(t@.subrange(from as int, end as int)) <= EXPONENT_CAP ==> out == number(
            t@.subrange(from as int, end as int),
        ),
        number(t@.subrange(from as int, end as int)) > EXPONENT_CAP ==> out == EXPONENT_CAP,
{
    let mut out: u128 = 0;
    let mut i: usize = from;
    assert(t@.subrange(from as int, from as int) =~= Seq::<char>::empty());
    while i < end
        invariant
            from <= i <= end <= t.len(),
            out <= EXPONENT_CAP,
            number(t@.subrange(from as int, i as int)) <= EXPONENT_CAP ==> out == number(
                t@.subrange(from as int, i as int),
            ),
            number(t@.subrange(from as int, i as int)) > EXPONENT_CAP ==> out == EXPONENT_CAP,
        decreases end - i,
    {
        let d: u8 = match digit_of(t[i]) {
            Some(d) => d,
            None => 0,
        };
        proof {
            let next = t@.subrange(from as int, i + 1);
            assert(next.drop_last() =~= t@.subrange(from as int, i as int));
            assert(next.last() == t@[i as int]);
        }
        let grown: u128 = out * 10 + d as u128;
        out = if grown > EXPONENT_CAP {
            EXPONENT_CAP
        } else {
            grown
        };
        i += 1;
    }
    out
}

/// The number written by the first `upto` of `digits`, or `None` where it
/// is beyond the longest duration.
pub(crate) fn read_number(digits: &Vec<char>, upto: usize) -> (out: Option<u128>)
    requires
        upto <= digits.len(),
    ensures
        match out {
            Some(n) => n == number(digits@.take(upto as int)) && n <= MAX_NANOS,
            None => number(digits@.take(upto as int)) > MAX_NANOS,
        },
{
    let mut n: u128 = 0;
    let mut i: usize = 0;
    assert(digits@.take(0) =~= Seq::<char>::empty());
    while i < upto
        invariant
            i <= upto <= digits.len(),
            n == number(digits@.take(i as int)),
            n <= MAX_NANOS,
        decreases upto - i,
    {
        let d: u8 = match digit_of(digits[i]) {
            Some(d) => d,
            None => 0,
        };
        proof {
            lemma_number_step(digits@, i as int);
        }
        let grown: u128 = n * 10 + d as u128;
        if grown > MAX_NANOS {
            proof {
                lemma_number_grows(digits@, i + 1, upto as int);
            }
            return None;
        }
        n = grown;
        i += 1;
    }
    Some(n)
}

/// Powers of ten grow with the exponent, and the twenty-ninth is beyond the
/// longest duration.
pub proof fn lemma_pow10_grows(a: nat, b: nat)
    requires
        a <= b,
    ensures
        1 <= pow10(a) <= pow10(b),
        a >= 29 ==> pow10(a) > MAX_NANOS,
    decreases b,
{
    if a < b {
        lemma_pow10_grows(a, (b - 1) as nat);
    } else if a > 0 {
        lemma_pow10_grows((a - 1) as nat, (a - 1) as nat);
        if a == 29 {
            reveal_with_fuel(pow10, 30);
            assert(pow10(29) == 100_000_000_000_000_000_000_000_000_000);
        } else if a > 29 {
            lemma_pow10_grows(29, (a - 1) as nat);
        }
    }
}

/// `n` times ten to the power `zeros`, or `None` where that is beyond the
/// longest duration.
fn append_zeros(n: u128, zeros: u128) -> (out: Option<u128>)
    requires
        n <= MAX_NANOS,
    ensures
        match out {
            Some(m) => m == n * pow10(zeros as nat) && m <= MAX_NANOS,
            None => n * pow10(zeros as nat) > MAX_NANOS,
        },
{
    if n == 0 {
        assert(0 * pow10(zeros as nat) == 0) by (nonlinear_arith);
        return Some(0);
    }
    if zeros >= 29 {
        proof {
            lemma_pow10_grows(zeros as nat, zeros as nat);
            assert(n * pow10(zeros as nat) >= pow10(zeros as nat)) by (nonlinear_arith)
                requires
                    n >= 1,
            ;
        }
        return None;
    }
    let mut m: u128 = n;
    let mut i: u128 = 0;
    assert(n * pow10(0) == n) by (nonlinear_arith)
        requires
            pow10(0) == 1,
    ;
    while i < zeros
        invariant
            i <= zeros < 29,
            m == n * pow10(i as nat),
            1 <= m <= MAX_NANOS,
        decreases zeros - i,
    {
        let grown: u128 = m * 10;
        proof {
            assert(n * pow10((i + 1) as nat) == (n * pow10(i as nat)) * 10) by (nonlinear_arith)
                requires
                    pow10((i + 1) as nat) == 10 * pow10(i as nat),
            ;
        }
        if grown > MAX_NANOS {
            proof {
                lemma_pow10_grows((i + 1) as nat, zeros as nat);
                assert(n * pow10(zeros as nat) >= n * pow10((i + 1) as nat)) by (nonlinear_arith)
                    requires
                        pow10((i + 1) as nat) <= pow10(zeros as nat),
                ;
            }
            return None;
        }
        m = grown;
        i += 1;
    }
    Some(m)
}

/// `shifted(digits, point)`, or `None` where that is beyond the longest
/// duration.
fn shift_point(digits: &Vec<char>, point: i128) -> (out: Option<u128>)
    ensures
        match out {
            Some(n) => n == shifted(digits@, point as int) && n <= MAX_NANOS,
            None => shifted(digits@, point as int) > MAX_NANOS,
        },
{
    if point < 0 {
        return Some(0);
    }
    let len: usize = digits.len();
    if point >= len as i128 {
        assert(digits@.take(len as int) =~= digits@);
        match read_number(digits, len) {
            None => {
                proof {
                    lemma_pow10_grows((point - len) as nat, (point - len) as nat);
                    assert(number(digits@) * pow10((point - len) as nat) >= number(digits@))
                        by (nonlinear_arith)
                        requires
                            pow10((point - len) as nat) >= 1,
                    ;
                }
                None
            },
            Some(n) => append_zeros(n, (point - len as i128) as u128),
        }
    } else {
        let at: usize = point as usize;
        let up: bool = match digit_of(digits[at]) {
            Some(d) => d >= 5,
            None => false,
        };
        match read_number(digits, at) {
            None => None,
            Some(n) => if up {
                if n == MAX_NANOS {
                    None
                } else {
                    Some(n + 1)
                }
            } else {
                Some(n)
            },
        }
    }
}

/// With the point 29 places or more beyond the last digit, the result is
/// zero where the digits write zero, and beyond the longest duration
/// otherwise.
pub proof fn lemma_far_point(digits: Seq<char>, point: int)
    requires
        point >= digits.len() + 29,
    ensures
        number(digits) == 0 ==> shifted(digits, point) == 0,
        number(digits) > 0 ==> shifted(digits, point) > MAX_NANOS,
{
    let zeros = (point - digits.len()) as nat;
    lemma_pow10_grows(zeros, zeros);
    assert(number(digits) == 0 ==> number(digits) * pow10(zeros) == 0) by (nonlinear_arith);
    assert(number(digits) > 0 ==> number(digits) * pow10(zeros) >= pow10(zeros))
        by (nonlinear_arith);
}

/// Whether `c` is the lower-case letter `lower` or its upper-case form.
fn same_letter(c: char, lower: char) -> (same: bool)
    ensures
        same == is_letter(c, lower),
{
    c == lower || (lower == 'a' && c == 'A') || (lower == 'f' && c == 'F') || (lower == 'i' && c
        == 'I') || (lower == 'n' && c == 'N') || (lower == 't' && c == 'T') || (lower == 'y' && c
        == 'Y')
}

/// Whether `t`, from `start` on, spells `word` in any mix of cases.
fn spells_word_from(t: &Vec<char>, start: usize, word: &str) -> (same: bool)
    requires
        start <= t.len(),
    ensures
        same == spells_word(t@.skip(start as int), word@),
{
    let letters = chars_of(word);
    if t.len() - start != letters.len() {
        return false;
    }
    let mut i: usize = 0;
    while i < letters.len()
        invariant
            start <= t.len(),
            i <= letters.len(),
            letters@ == word@,
            t.len() - start == letters.len(),
            forall|j: int| 0 <= j < i ==> is_letter(#[trigger] t@.skip(start as int)[j], word@[j]),
        decreases letters.len() - i,
    {
        if !same_letter(t[start + i], letters[i]) {
            assert(!is_letter(t@.skip(start as int)[i as int], word@[i as int]));
            return false;
        }
        i += 1;
    }
    true
}

/// Whether `t`, from `start` on, is a word for a value that is no finite
/// number.
fn is_not_finite_from(t: &Vec<char>, start: usize) -> (out: bool)
    requires
        start <= t.len(),
    ensures
        out == is_not_finite_word(t@.skip(start as int)),
{
    proof {
        reveal_strlit("inf");
        reveal_strlit("infinity");
        reveal_strlit("nan");
        assert("inf"@ =~= seq!['i', 'n', 'f']);
        assert("infinity"@ =~= seq!['i', 'n', 'f', 'i', 'n', 'i', 't', 'y']);
        assert("nan"@ =~= seq!['n', 'a', 'n']);
    }
    spells_word_from(t, start, "inf") || spells_word_from(t, start, "infinity")
        || spells_word_from(t, start, "nan")
}

/// Appends the characters of `t` from `from` up to `end`.
fn push_range(out: &mut Vec<char>, t: &Vec<char>, from: usize, end: usize)
    requires
        from <= end <= t.len(),
    ensures
        final(out)@ == old(out)@ + t@.subrange(from as int, end as int),
{
    let mut i: usize = from;
    assert(out@ =~= old(out)@ + t@.subrange(from as int, from as int));
    while i < end
        invariant
            from <= i <= end <= t.len(),
            out@ == old(out)@ + t@.subrange(from as int, i as int),
        decreases end - i,
    {
        out.push(t[i]);
        i += 1;
        assert(out@ =~= old(out)@ + t@.subrange(from as int, i as int));
    }
}

/// Whether `c` is a sign.
fn sign(c: char) -> (out: bool)
    ensures
        out == is_sign(c),
{
    c == '+' || c == '-'
}

/// What scanning a numeral finds: for a number, where its digits lie and
/// its exponent, held within the cap.
enum Outline {
    Invalid,
    NotFinite,
    Number {
        negative: bool,
        start: usize,
        whole_end: usize,
        fraction_start: usize,
        fraction_end: usize,
        exponent: i128,
    },
}

/// `e`, held within the exponent's cap.
pub open spec fn capped(e: int) -> int {
    if e > EXPONENT_CAP {
        EXPONENT_CAP as int
    } else if e < -EXPONENT_CAP {
        -(EXPONENT_CAP as int)
    } else {
        e
    }
}

impl Outline {
    /// Whether this outline is what `numeral_of` reads in `t`.
    spec fn outlines(self, t: Seq<char>) -> bool {
        match self {
            Outline::Invalid => numeral_of(t) is Invalid,
            Outline::NotFinite => numeral_of(t) is NotFinite,
            Outline::Number {
                negative,
                start,
                whole_end,
                fraction_start,
                fraction_end,
                exponent,
            } => {
                &&& start <= whole_end <= fraction_start <= fraction_end <= t.len()
                &&& numeral_of(t) matches Numeral::Number {
                    negative: n,
                    whole: w,
                    fraction: f,
                    exponent: e,
                }
                &&& n == negative
                &&& w == t.subrange(start as int, whole_end as int)
                &&& f == t.subrange(fraction_start as int, fraction_end as int)
                &&& exponent == capped(e)
            },
        }
    }
}

/// Scans the numeral `t`.
fn outline(t: &Vec<char>) -> (out: Outline)
    ensures
        out.outlines(t@),
{
    let len: usize = t.len();
    let negative = len > 0 && t[0] == '-';
    let start: usize = if len > 0 && sign(t[0]) {
        1
    } else {
        0
    };
    let whole_end: usize = scan_digits(t, start);
    let dotted = whole_end < len && t[whole_end] == '.';
    let fraction_start: usize = if dotted {
        whole_end + 1
    } else {
        whole_end
    };
    let fraction_end: usize = scan_digits(t, fraction_start);
    if whole_end - start + (fraction_end - fraction_start) == 0 {
        return if is_not_finite_from(t, start) {
            Outline::NotFinite
        } else {
            Outline::Invalid
        };
    }
    if fraction_end == len {
        return Outline::Number {
            negative,
            start,
            whole_end,
            fraction_start,
            fraction_end,
            exponent: 0,
        };
    }
    if !(t[fraction_end] == 'e' || t[fraction_end] == 'E') {
        return Outline::Invalid;
    }
    let sign_at: usize = fraction_end + 1;
    let down = sign_at < len && t[sign_at] == '-';
    let exponent_start: usize = if sign_at < len && sign(t[sign_at]) {
        sign_at + 1
    } else {
        sign_at
    };
    let exponent_end: usize = scan_digits(t, exponent_start);
    if exponent_end == exponent_start || exponent_end != len {
        return Outline::Invalid;
    }
    let size: u128 = read_capped(t, exponent_start, exponent_end);
    Outline::Number {
        negative,
        start,
        whole_end,
        fraction_start,
        fraction_end,
        exponent: if down {
            -(size as i128)
        } else {
            size as i128
        },
    }
}

/// Moving the point by the capped exponent gives what moving it by the
/// exponent itself gives, as far as durations can tell.
proof fn lemma_capped_point(digits: Seq<char>, whole: int, exponent: int)
    requires
        0 <= whole <= digits.len() <= usize::MAX,
    ensures
        shifted(digits, whole + capped(exponent) + 9) > MAX_NANOS <==> shifted(
            digits,
            whole + exponent + 9,
        ) > MAX_NANOS,
        shifted(digits, whole + capped(exponent) + 9) <= MAX_NANOS ==> shifted(
            digits,
            whole + capped(exponent) + 9,
        ) == shifted(digits, whole + exponent + 9),
{
    if exponent > EXPONENT_CAP {
        lemma_far_point(digits, whole + exponent + 9);
        lemma_far_point(digits, whole + capped(exponent) + 9);
    }
}

/// The nanoseconds that the numeral `t` stands for, or why it stands for
/// none.
pub fn seconds_of(t: &Vec<char>) -> (out: Result<u128, FormatError>)
    ensures
        match out {
            Ok(n) => seconds_nanos(t@) == Ok::<nat, FormatError>(n as nat),
            Err(e) => seconds_nanos(t@) == Err::<nat, FormatError>(e),
        },
{
    match outline(t) {
        Outline::Invalid => Err(FormatError::InvalidSeconds),
        Outline::NotFinite => Err(FormatError::SecondsNotFinite),
        Outline::Number {
            negative,
            start,
            whole_end,
            fraction_start,
            fraction_end,
            exponent,
        } => {
            let mut digits: Vec<char> = Vec::new();
            push_range(&mut digits, t, start, whole_end);
            push_range(&mut digits, t, fraction_start, fraction_end);
            assert(digits@ =~= t@.subrange(start as int, whole_end as int) + t@.subrange(
                fraction_start as int,
                fraction_end as int,
            ));
            assert(digits@.take(digits.len() as int) =~= digits@);
            if negative {
                match read_number(&digits, digits.len()) {
                    Some(0) => {},
                    _ => {
                        return Err(FormatError::NegativeSeconds);
                    },
                }
            }
            let point: i128 = (whole_end - start) as i128 + exponent + 9;
            proof {
                lemma_capped_point(
                    digits@,
                    whole_end - start,
                    numeral_of(t@)->Number_exponent,
                );
            }
            match shift_point(&digits, point) {
                None => Err(FormatError::Overflow),
                Some(n) => Ok(n),
            }
        },
    }
}

} // verus!
