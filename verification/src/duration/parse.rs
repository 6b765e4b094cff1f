//! Reading a duration from text.
//!
//! The text is cut into tokens at ASCII white space. A token that ends in
//! `y`, `d`, `h` or `m` adds years, days, hours or minutes; how many is a
//! matter of policy. Under `UnitPolicy::One` it is one, whatever stands
//! before the letter: `5y` reads as `1y` does, and a duration with two or
//! more of a unit does not survive being written and read back. Under
//! `UnitPolicy::Counted` the numeral before the letter is read as a whole
//! number, and every duration survives. Any other token but one of seconds
//! adds nothing.
//!
//! A token that ends in `s` adds the seconds that the numeral before the
//! `s` writes. What a numeral writes is for the caller to say: a caller
//! that reads numerals as binary floating-point numbers asks for them with
//! `seconds_numerals`, reads each, and hands the readings to
//! `from_str_given`. `from_str_exact` reads them itself, as exact decimals.

use vstd::prelude::*;
use crate::duration::digits::{all_digits, digit_of, is_digit, number};
use vstd::string::{StrSliceExecFns, StringExecFns};
use crate::duration::numeral::{read_number, seconds_nanos, seconds_of};
use crate::duration::{
    FormatError, HumanReadableDuration, UnitPolicy, MAX_NANOS, NANOS_PER_DAY, NANOS_PER_HOUR,
    NANOS_PER_MIN, NANOS_PER_YEAR,
};
use crate::text::chars_of;

verus! {

/// Whether `c` is ASCII white space: space, tab, line feed, form feed or
/// carriage return.
pub open spec fn is_space(c: char) -> bool {
    c == ' ' || c == '\t' || c == '\n' || c == '\x0C' || c == '\r'
}

/// The word in progress as a finished word, where it holds anything.
pub open spec fn finished(word: Seq<char>) -> Seq<Seq<char>> {
    if word.len() > 0 {
        seq![word]
    } else {
        Seq::<Seq<char>>::empty()
    }
}

/// The words still to come when `word` has been read of the word in
/// progress and `s` is the text ahead.
pub open spec fn words_after(s: Seq<char>, word: Seq<char>) -> Seq<Seq<char>>
    decreases s.len(),
{
    if s.len() == 0 {
        finished(word)
    } else if is_space(s[0]) {
        finished(word) + words_after(s.drop_first(), Seq::<char>::empty())
    } else {
        words_after(s.drop_first(), word.push(s[0]))
    }
}

/// The words of `s`: its longest runs of characters that are not white
/// space, in order.
pub open spec fn words(s: Seq<char>) -> Seq<Seq<char>> {
    words_after(s, Seq::<char>::empty())
}

/// The nanoseconds in the unit that the letter `unit` names, if it names
/// one of years, days, hours and minutes.
pub open spec fn unit_worth(unit: char) -> Option<nat> {
    if unit == 'y' {
        Some(NANOS_PER_YEAR as nat)
    } else if unit == 'd' {
        Some(NANOS_PER_DAY as nat)
    } else if unit == 'h' {
        Some(NANOS_PER_HOUR as nat)
    } else if unit == 'm' {
        Some(NANOS_PER_MIN as nat)
    } else {
        None
    }
}

/// The nanoseconds in as many units of `worth` nanoseconds as `numeral`
/// writes, or why there are none: the numeral is no whole number, or the
/// product is beyond the longest duration.
pub open spec fn counted_nanos(numeral: Seq<char>, worth: nat) -> Result<nat, FormatError> {
    if numeral.len() == 0 || !all_digits(numeral) {
        Err(FormatError::InvalidCount)
    } else if number(numeral) * worth > MAX_NANOS {
        Err(FormatError::Overflow)
    } else {
        Ok(number(numeral) * worth)
    }
}

/// What a seconds numeral was read as: nanoseconds, or why it stands for
/// none.
pub type Reading = Result<u128, FormatError>;

/// The reading that belongs to the `k`-th token of seconds. A token for
/// which no reading is given counts as one whose numeral is no numeral.
pub open spec fn given_at(seconds: Seq<Reading>, k: int) -> Reading {
    if 0 <= k < seconds.len() {
        seconds[k]
    } else {
        Err(FormatError::InvalidSeconds)
    }
}

/// Whether `token` is a token of seconds.
pub open spec fn is_seconds_token(token: Seq<char>) -> bool {
    token.len() > 0 && token.last() == 's'
}

/// The numerals of the tokens of seconds among `tokens`, in order: each
/// such token without its `s`.
pub open spec fn seconds_numerals_of(tokens: Seq<Seq<char>>) -> Seq<Seq<char>>
    decreases tokens.len(),
{
    if tokens.len() == 0 {
        Seq::<Seq<char>>::empty()
    } else if is_seconds_token(tokens.last()) {
        seconds_numerals_of(tokens.drop_last()).push(tokens.last().drop_last())
    } else {
        seconds_numerals_of(tokens.drop_last())
    }
}

/// The nanoseconds that one token adds, or why it adds none, where
/// `reading` is what its numeral was read as if it is a token of seconds.
pub open spec fn token_nanos(policy: UnitPolicy, token: Seq<char>, reading: Reading) -> Result<
    nat,
    FormatError,
>
    recommends
        token.len() > 0,
{
    match unit_worth(token.last()) {
        Some(worth) => match policy {
            UnitPolicy::One => Ok(worth),
            UnitPolicy::Counted => counted_nanos(token.drop_last(), worth),
        },
        None => if token.last() == 's' {
            match reading {
                Ok(nanos) => Ok(nanos as nat),
                Err(e) => Err(e),
            }
        } else {
            Ok(0)
        },
    }
}

/// The sum `sum` with one more token added, or the first thing that is
/// wrong: the token itself, or a sum beyond the longest duration.
pub open spec fn with_token(policy: UnitPolicy, sum: nat, token: Seq<char>, reading: Reading) -> Result<
    nat,
    FormatError,
> {
    match token_nanos(policy, token, reading) {
        Err(e) => Err(e),
        Ok(n) => if sum + n > MAX_NANOS {
            Err(FormatError::Overflow)
        } else {
            Ok(sum + n)
        },
    }
}

/// The sum `sum` with all of `tokens` added in order, or what is wrong with
/// the first token that cannot be added. The tokens of seconds take their
/// readings from `seconds` in order, the first of them the `k`-th.
pub open spec fn total_nanos(
    policy: UnitPolicy,
    tokens: Seq<Seq<char>>,
    seconds: Seq<Reading>,
    k: int,
    sum: nat,
) -> Result<nat, FormatError>
    decreases tokens.len(),
{
    if tokens.len() == 0 {
        Ok(sum)
    } else {
        match with_token(policy, sum, tokens[0], given_at(seconds, k)) {
            Err(e) => Err(e),
            Ok(n) => total_nanos(
                policy,
                tokens.drop_first(),
                seconds,
                if is_seconds_token(tokens[0]) {
                    k + 1
                } else {
                    k
                },
                n,
            ),
        }
    }
}

/// The nanoseconds that the text `s` stands for under `policy`, its
/// seconds numerals read as `seconds` says, or why it stands for none.
pub open spec fn parsed_given(policy: UnitPolicy, s: Seq<char>, seconds: Seq<Reading>) -> Result<
    nat,
    FormatError,
> {
    total_nanos(policy, words(s), seconds, 0, 0)
}

/// What a seconds numeral is read as when it is read as the exact decimal
/// that it writes.
pub open spec fn exact_reading(numeral: Seq<char>) -> Reading {
    match seconds_nanos(numeral) {
        Ok(nanos) => Ok(nanos as u128),
        Err(e) => Err(e),
    }
}

/// The exact readings of `numerals`.
pub open spec fn exact_readings(numerals: Seq<Seq<char>>) -> Seq<Reading> {
    Seq::new(numerals.len(), |k: int| exact_reading(numerals[k]))
}

/// The nanoseconds that the text `s` stands for under `policy`, its
/// seconds numerals read as exact decimals, or why it stands for none.
pub open spec fn parsed_exact(policy: UnitPolicy, s: Seq<char>) -> Result<nat, FormatError> {
    parsed_given(policy, s, exact_readings(seconds_numerals_of(words(s))))
}

/// The words that lie in `s` at `ranges`.
pub open spec fn range_words(s: Seq<char>, ranges: Seq<(usize, usize)>) -> Seq<Seq<char>> {
    Seq::new(ranges.len(), |k: int| s.subrange(ranges[k].0 as int, ranges[k].1 as int))
}

/// What the strings `v` hold.
pub open spec fn texts(v: Seq<String>) -> Seq<Seq<char>> {
    Seq::new(v.len(), |k: int| v[k]@)
}

/// Whether `c` is ASCII white space.
fn space(c: char) -> (out: bool)
    ensures
        out == is_space(c),
{
    c == ' ' || c == '\t' || c == '\n' || c == '\x0C' || c == '\r'
}

/// Where the words of `chars` lie: for each, where it starts and where it
/// ends.
fn word_ranges(chars: &Vec<char>) -> (out: Vec<(usize, usize)>)
    ensures
        range_words(chars@, out@) == words(chars@),
        forall|k: int| 0 <= k < out.len() ==> (#[trigger] out[k]).0 < out[k].1 <= chars.len(),
{
    let mut out: Vec<(usize, usize)> = Vec::new();
    let mut start: usize = 0;
    let mut i: usize = 0;
    let ghost empty = Seq::<char>::empty();
    assert(chars@.skip(0) =~= chars@);
    assert(chars@.subrange(0, 0) =~= empty);
    assert(range_words(chars@, out@) + words(chars@) =~= words(chars@));
    while i < chars.len()
        invariant
            start <= i <= chars.len(),
            empty == Seq::<char>::empty(),
            words(chars@) == range_words(chars@, out@) + words_after(
                chars@.skip(i as int),
                chars@.subrange(start as int, i as int),
            ),
            forall|k: int| 0 <= k < out.len() ==> (#[trigger] out[k]).0 < out[k].1 <= chars.len(),
        decreases chars.len() - i,
    {
        let ghost ahead = chars@.skip(i as int);
        let ghost word = chars@.subrange(start as int, i as int);
        let ghost rest = words_after(ahead.drop_first(), empty);
        let ghost found = range_words(chars@, out@);
        assert(ahead.drop_first() =~= chars@.skip(i + 1));
        assert(ahead[0] == chars@[i as int]);
        if space(chars[i]) {
            if start < i {
                out.push((start, i));
                assert(range_words(chars@, out@) =~= found + seq![word]);
                assert(found + (seq![word] + rest) =~= found + seq![word] + rest);
            } else {
                assert(finished(word) + rest =~= rest);
            }
            start = i + 1;
            assert(chars@.subrange(start as int, i + 1) =~= empty);
        } else {
            assert(word.push(chars@[i as int]) =~= chars@.subrange(start as int, i + 1));
        }
        i += 1;
    }
    let ghost word = chars@.subrange(start as int, i as int);
    let ghost found = range_words(chars@, out@);
    assert(chars@.skip(i as int) =~= empty);
    if start < i {
        out.push((start, i));
        assert(range_words(chars@, out@) =~= found + seq![word]);
    } else {
        assert(found + finished(word) =~= found);
    }
    out
}

/// The characters of `chars` from `from` up to `end`.
fn copy_of(chars: &Vec<char>, from: usize, end: usize) -> (out: Vec<char>)
    requires
        from <= end <= chars.len(),
    ensures
        out@ == chars@.subrange(from as int, end as int),
{
    let mut out: Vec<char> = Vec::new();
    let mut i: usize = from;
    assert(out@ =~= chars@.subrange(from as int, from as int));
    while i < end
        invariant
            from <= i <= end <= chars.len(),
            out@ == chars@.subrange(from as int, i as int),
        decreases end - i,
    {
        out.push(chars[i]);
        i += 1;
        assert(out@ =~= chars@.subrange(from as int, i as int));
    }
    out
}

/// The nanoseconds in the unit that the letter `unit` names.
fn worth_of(unit: char) -> (out: Option<u128>)
    ensures
        match out {
            Some(worth) => unit_worth(unit) == Some(worth as nat),
            None => unit_worth(unit) is None,
        },
{
    if unit == 'y' {
        Some(NANOS_PER_YEAR)
    } else if unit == 'd' {
        Some(NANOS_PER_DAY)
    } else if unit == 'h' {
        Some(NANOS_PER_HOUR)
    } else if unit == 'm' {
        Some(NANOS_PER_MIN)
    } else {
        None
    }
}

/// Whether `numeral` is made of digits only.
fn only_digits(numeral: &Vec<char>) -> (out: bool)
    ensures
        out == all_digits(numeral@),
{
    let mut i: usize = 0;
    while i < numeral.len()
        invariant
            i <= numeral.len(),
            forall|j: int| 0 <= j < i ==> is_digit(#[trigger] numeral@[j]),
        decreases numeral.len() - i,
    {
        if digit_of(numeral[i]).is_none() {
            return false;
        }
        i += 1;
    }
    true
}

/// `count` units of `worth` nanoseconds, or `None` where that is beyond
/// the longest duration.
fn times_unit(count: u128, worth: u128) -> (out: Option<u128>)
    requires
        count <= MAX_NANOS,
        worth == NANOS_PER_YEAR || worth == NANOS_PER_DAY || worth == NANOS_PER_HOUR || worth
            == NANOS_PER_MIN,
    ensures
        match out {
            Some(n) => n == count * worth && n <= MAX_NANOS,
            None => count * worth > MAX_NANOS,
        },
{
    if worth == NANOS_PER_YEAR {
        if count > MAX_NANOS / NANOS_PER_YEAR {
            None
        } else {
            Some(count * NANOS_PER_YEAR)
        }
    } else if worth == NANOS_PER_DAY {
        if count > MAX_NANOS / NANOS_PER_DAY {
            None
        } else {
            Some(count * NANOS_PER_DAY)
        }
    } else if worth == NANOS_PER_HOUR {
        if count > MAX_NANOS / NANOS_PER_HOUR {
            None
        } else {
            Some(count * NANOS_PER_HOUR)
        }
    } else {
        if count > MAX_NANOS / NANOS_PER_MIN {
            None
        } else {
            Some(count * NANOS_PER_MIN)
        }
    }
}

/// The nanoseconds in as many units as `numeral` writes.
fn count_of(numeral: &Vec<char>, worth: u128) -> (out: Result<u128, FormatError>)
    requires
        worth == NANOS_PER_YEAR || worth == NANOS_PER_DAY || worth == NANOS_PER_HOUR || worth
            == NANOS_PER_MIN,
    ensures
        match out {
            Ok(n) => counted_nanos(numeral@, worth as nat) == Ok::<nat, FormatError>(n as nat) && n
                <= MAX_NANOS,
            Err(e) => counted_nanos(numeral@, worth as nat) == Err::<nat, FormatError>(e),
        },
{
    if numeral.len() == 0 || !only_digits(numeral) {
        return Err(FormatError::InvalidCount);
    }
    assert(numeral@.take(numeral.len() as int) =~= numeral@);
    match read_number(numeral, numeral.len()) {
        Some(count) => match times_unit(count, worth) {
            Some(n) => Ok(n),
            None => Err(FormatError::Overflow),
        },
        None => {
            assert(number(numeral@) * worth >= number(numeral@)) by (nonlinear_arith)
                requires
                    worth >= 1,
            ;
            Err(FormatError::Overflow)
        },
    }
}

/// Adds to the sum the token that lies in `chars` from `from` up to `end`.
fn add_token(
    policy: UnitPolicy,
    sum: u128,
    chars: &Vec<char>,
    from: usize,
    end: usize,
    reading: Reading,
) -> (out: Result<u128, FormatError>)
    requires
        sum <= MAX_NANOS,
        from < end <= chars.len(),
    ensures
        match out {
            Ok(n) => with_token(
                policy,
                sum as nat,
                chars@.subrange(from as int, end as int),
                reading,
            ) == Ok::<nat, FormatError>(n as nat) && n <= MAX_NANOS,
            Err(e) => with_token(
                policy,
                sum as nat,
                chars@.subrange(from as int, end as int),
                reading,
            ) == Err::<nat, FormatError>(e),
        },
{
    let ghost token = chars@.subrange(from as int, end as int);
    let unit: char = chars[end - 1];
    assert(token.last() == unit);
    assert(token.drop_last() =~= chars@.subrange(from as int, end - 1));
    let added: u128 = match worth_of(unit) {
        Some(worth) => match policy {
            UnitPolicy::One => worth,
            UnitPolicy::Counted => {
                let numeral = copy_of(chars, from, end - 1);
                match count_of(&numeral, worth) {
                    Ok(n) => n,
                    Err(e) => {
                        return Err(e);
                    },
                }
            },
        },
        None => if unit == 's' {
            match reading {
                Ok(n) => n,
                Err(e) => {
                    return Err(e);
                },
            }
        } else {
            0
        },
    };
    if added > MAX_NANOS - sum {
        Err(FormatError::Overflow)
    } else {
        Ok(sum + added)
    }
}

/// The numerals of the tokens of seconds in `s`, in order: what stands
/// before the `s` of each.
pub fn seconds_numerals(s: &str) -> (out: Vec<String>)
    ensures
        texts(out@) == seconds_numerals_of(words(s@)),
{
    let chars = chars_of(s);
    let ranges = word_ranges(&chars);
    let ghost tokens = words(s@);
    let mut out: Vec<String> = Vec::new();
    let mut j: usize = 0;
    assert(tokens.take(0) =~= Seq::<Seq<char>>::empty());
    assert(texts(out@) =~= seconds_numerals_of(tokens.take(0)));
    while j < ranges.len()
        invariant
            j <= ranges.len(),
            chars@ == s@,
            tokens == range_words(chars@, ranges@),
            forall|k: int|
                0 <= k < ranges.len() ==> (#[trigger] ranges[k]).0 < ranges[k].1 <= chars.len(),
            texts(out@) == seconds_numerals_of(tokens.take(j as int)),
        decreases ranges.len() - j,
    {
        let (from, end) = ranges[j];
        let ghost token = tokens[j as int];
        let ghost before = texts(out@);
        assert(token == chars@.subrange(from as int, end as int));
        assert(token.last() == chars@[end - 1]);
        assert(tokens.take(j + 1).drop_last() =~= tokens.take(j as int));
        assert(tokens.take(j + 1).last() == token);
        if chars[end - 1] == 's' {
            let numeral = s.substring_char(from, end - 1);
            assert(numeral@ =~= token.drop_last());
            out.push(String::from_str(numeral));
            assert(texts(out@) =~= before.push(token.drop_last()));
        }
        j += 1;
    }
    assert(tokens.take(j as int) =~= tokens);
    out
}

impl HumanReadableDuration {
    /// Reads a duration from text under the policy given, where `seconds`
    /// holds what the numerals of its tokens of seconds were read as, in
    /// the order of `seconds_numerals`. A token of seconds for which
    /// nothing is given counts as one whose numeral is no numeral; what is
    /// given beyond the last such token is not looked at.
    pub fn from_str_given(s: &str, policy: UnitPolicy, seconds: &Vec<Reading>) -> (out: Result<
        HumanReadableDuration,
        FormatError,
    >)
        ensures
            match out {
                Ok(d) => parsed_given(policy, s@, seconds@) == Ok::<nat, FormatError>(d@) && d@
                    <= MAX_NANOS,
                Err(e) => parsed_given(policy, s@, seconds@) == Err::<nat, FormatError>(e),
            },
    {
        let chars = chars_of(s);
        let ranges = word_ranges(&chars);
        let ghost tokens = words(s@);
        let mut sum: u128 = 0;
        let mut k: usize = 0;
        let mut j: usize = 0;
        assert(tokens.skip(0) =~= tokens);
        while j < ranges.len()
            invariant
                k <= j <= ranges.len(),
                chars@ == s@,
                tokens == words(s@),
                tokens == range_words(chars@, ranges@),
                forall|i: int|
                    0 <= i < ranges.len() ==> (#[trigger] ranges[i]).0 < ranges[i].1
                        <= chars.len(),
                sum <= MAX_NANOS,
                parsed_given(policy, s@, seconds@) == total_nanos(
                    policy,
                    tokens.skip(j as int),
                    seconds@,
                    k as int,
                    sum as nat,
                ),
            decreases ranges.len() - j,
        {
            let (from, end) = ranges[j];
            let ghost token = tokens[j as int];
            assert(token == chars@.subrange(from as int, end as int));
            assert(tokens.skip(j as int)[0] == token);
            assert(tokens.skip(j as int).drop_first() =~= tokens.skip(j + 1));
            assert(token.last() == chars@[end - 1]);
            let reading: Reading = if k < seconds.len() {
                seconds[k]
            } else {
                Err(FormatError::InvalidSeconds)
            };
            match add_token(policy, sum, &chars, from, end, reading) {
                Ok(n) => {
                    sum = n;
                },
                Err(e) => {
                    return Err(e);
                },
            }
            if chars[end - 1] == 's' {
                k += 1;
            }
            j += 1;
        }
        assert(tokens.skip(j as int) =~= Seq::<Seq<char>>::empty());
        Ok(HumanReadableDuration(sum))
    }

    /// Reads a duration from text under the policy given, the numerals of
    /// its tokens of seconds as the exact decimals that they write.
    pub fn from_str_exact(s: &str, policy: UnitPolicy) -> (out: Result<
        HumanReadableDuration,
        FormatError,
    >)
        ensures
            match out {
                Ok(d) => parsed_exact(policy, s@) == Ok::<nat, FormatError>(d@) && d@ <= MAX_NANOS,
                Err(e) => parsed_exact(policy, s@) == Err::<nat, FormatError>(e),
            },
    {
        let numerals = seconds_numerals(s);
        let mut seconds: Vec<Reading> = Vec::new();
        let mut j: usize = 0;
        while j < numerals.len()
            invariant
                j <= numerals.len(),
                seconds.len() == j,
                forall|k: int| 0 <= k < j ==> seconds@[k] == exact_reading(#[trigger] numerals@[k]@),
            decreases numerals.len() - j,
        {
            let numeral = chars_of(numerals[j].as_str());
            seconds.push(seconds_of(&numeral));
            j += 1;
        }
        assert(seconds@ =~= exact_readings(texts(numerals@)));
        HumanReadableDuration::from_str_given(s, policy, &seconds)
    }
}

} // verus!
