//! What holds between writing a duration and reading it back.

use vstd::prelude::*;
use crate::duration::digits::{
    all_digits, decimal, digit_char, digit_value, is_digit, lemma_decimal_number,
    lemma_digit_char_value, number, pow10,
};
use crate::duration::format::{
    days_in, formatted, fraction_digits, hours_in, minutes_in, rendered, seconds_nanos_in,
    seconds_text, seconds_token, tokens_of, unit_token, years_in,
};
use crate::duration::numeral::{digits_end, numeral_of, seconds_nanos, Numeral};
use crate::duration::parse::{
    exact_reading, exact_readings, finished, given_at, is_seconds_token, is_space, parsed_exact,
    parsed_given, seconds_numerals_of, token_nanos, total_nanos, unit_worth, with_token, words,
    words_after, Reading,
};
use crate::duration::{
    FormatError, UnitPolicy, MAX_NANOS, NANOS_PER_DAY, NANOS_PER_HOUR, NANOS_PER_MIN,
    NANOS_PER_YEAR,
};

verus! {

/// Whether `s` holds no white space.
pub open spec fn no_space(s: Seq<char>) -> bool {
    forall|i: int| 0 <= i < s.len() ==> !is_space(#[trigger] s[i])
}

/// Whether every one of `tokens` holds something and no white space.
pub open spec fn proper_tokens(tokens: Seq<Seq<char>>) -> bool {
    forall|i: int| 0 <= i < tokens.len() ==> (#[trigger] tokens[i]).len() > 0 && no_space(tokens[i])
}

/// Characters without white space ahead only lengthen the word in progress.
pub proof fn lemma_words_after_word(w: Seq<char>, rest: Seq<char>, word: Seq<char>)
    requires
        no_space(w),
    ensures
        words_after(w + rest, word) == words_after(rest, word + w),
    decreases w.len(),
{
    if w.len() == 0 {
        assert(w + rest =~= rest);
        assert(word + w =~= word);
    } else {
        let s = w + rest;
        assert(s[0] == w[0]);
        assert(s.drop_first() =~= w.drop_first() + rest);
        assert forall|i: int| 0 <= i < w.drop_first().len() implies !is_space(
            #[trigger] w.drop_first()[i],
        ) by {
            assert(w.drop_first()[i] == w[i + 1]);
        }
        lemma_words_after_word(w.drop_first(), rest, word.push(w[0]));
        assert(word.push(w[0]) + w.drop_first() =~= word + w);
    }
}

/// After a text that ends in white space, the words of what follows come
/// after the words of the text.
pub proof fn lemma_words_after_break(a: Seq<char>, b: Seq<char>, word: Seq<char>)
    requires
        a.len() > 0,
        is_space(a.last()),
    ensures
        words_after(a + b, word) == words_after(a, word) + words(b),
    decreases a.len(),
{
    let s = a + b;
    assert(s[0] == a[0]);
    assert(s.drop_first() =~= a.drop_first() + b);
    if a.len() == 1 {
        assert(a.drop_first() =~= Seq::<char>::empty());
        assert(a.drop_first() + b =~= b);
        assert(words_after(a.drop_first(), Seq::<char>::empty()) =~= Seq::<Seq<char>>::empty());
        assert(finished(word) + Seq::<Seq<char>>::empty() + words(b) =~= finished(word) + words(b));
    } else {
        assert(a.drop_first().last() == a.last());
        if is_space(a[0]) {
            lemma_words_after_break(a.drop_first(), b, Seq::<char>::empty());
            assert(finished(word) + (words_after(a.drop_first(), Seq::<char>::empty()) + words(b))
                =~= (finished(word) + words_after(a.drop_first(), Seq::<char>::empty())) + words(
                b,
            ));
        } else {
            lemma_words_after_break(a.drop_first(), b, word.push(a[0]));
        }
    }
}

/// A token between a space and a line break is the one word of that text.
pub proof fn lemma_words_of_line(token: Seq<char>, spaced: bool)
    requires
        token.len() > 0,
        no_space(token),
    ensures
        spaced ==> words(seq![' '] + token.push('\n')) == seq![token],
        !spaced ==> words(token.push('\n')) == seq![token],
{
    let empty = Seq::<char>::empty();
    let line = token.push('\n');
    assert(line =~= token + seq!['\n']);
    lemma_words_after_word(token, seq!['\n'], empty);
    assert(empty + token =~= token);
    assert(seq!['\n'].drop_first() =~= empty);
    assert(words_after(seq!['\n'], token) == finished(token) + words_after(empty, empty));
    assert(finished(token) + Seq::<Seq<char>>::empty() =~= seq![token]);
    assert(words(line) == seq![token]);
    let padded = seq![' '] + line;
    assert(padded[0] == ' ');
    assert(padded.drop_first() =~= line);
    assert(finished(empty) + words_after(line, empty) =~= words_after(line, empty));
}

/// The rendered text is empty or ends in a line break.
pub proof fn lemma_rendered_ends(tokens: Seq<Seq<char>>)
    ensures
        tokens.len() == 0 ==> rendered(tokens).len() == 0,
        tokens.len() > 0 ==> rendered(tokens).len() > 0 && rendered(tokens).last() == '\n',
{
}

/// Cutting the rendered text into words gives the tokens back.
pub proof fn lemma_words_of_rendered(tokens: Seq<Seq<char>>)
    requires
        proper_tokens(tokens),
    ensures
        words(rendered(tokens)) == tokens,
    decreases tokens.len(),
{
    let empty = Seq::<char>::empty();
    if tokens.len() == 0 {
        assert(words(rendered(tokens)) =~= tokens);
    } else if tokens.len() == 1 {
        lemma_words_of_line(tokens[0], false);
        assert(seq![tokens[0]] =~= tokens);
    } else {
        let front = tokens.drop_last();
        let last = tokens.last();
        assert forall|i: int| 0 <= i < front.len() implies (#[trigger] front[i]).len() > 0
            && no_space(front[i]) by {
            assert(front[i] == tokens[i]);
        }
        lemma_words_of_rendered(front);
        lemma_rendered_ends(front);
        lemma_words_of_line(last, true);
        let tail = seq![' '] + last.push('\n');
        assert(rendered(tokens) =~= rendered(front) + tail);
        lemma_words_after_break(rendered(front), tail, empty);
        assert(front + seq![last] =~= tokens);
    }
}

/// Where the digits from `from` up to `end` are followed by no digit, the
/// run of digits that starts at `from` ends at `end`.
pub proof fn lemma_digits_end(t: Seq<char>, from: int, end: int)
    requires
        0 <= from <= end <= t.len(),
        forall|i: int| from <= i < end ==> is_digit(#[trigger] t[i]),
        end == t.len() || !is_digit(t[end]),
    ensures
        digits_end(t, from) == end,
    decreases end - from,
{
    if from < end {
        lemma_digits_end(t, from + 1, end);
    }
}

/// Digits written after others: the number is the first number moved up by
/// as many places, plus the second.
pub proof fn lemma_number_push(a: Seq<char>, c: char)
    ensures
        number(a.push(c)) == number(a) * 10 + digit_value(c),
{
    assert(a.push(c).drop_last() =~= a);
}

/// A number times one of the first ten powers of ten, written out.
pub open spec fn times_pow10(x: nat, k: nat) -> nat {
    if k == 0 {
        x
    } else if k == 1 {
        10 * x
    } else if k == 2 {
        100 * x
    } else if k == 3 {
        1_000 * x
    } else if k == 4 {
        10_000 * x
    } else if k == 5 {
        100_000 * x
    } else if k == 6 {
        1_000_000 * x
    } else if k == 7 {
        10_000_000 * x
    } else if k == 8 {
        100_000_000 * x
    } else {
        1_000_000_000 * x
    }
}

/// `times_pow10` is the product with `pow10`.
pub proof fn lemma_times_pow10(x: nat, k: nat)
    requires
        k <= 9,
    ensures
        x * pow10(k) == times_pow10(x, k),
{
    reveal_with_fuel(pow10, 11);
    let p = pow10(k);
    assert(x * p == times_pow10(x, k)) by (nonlinear_arith)
        requires
            k <= 9,
            k == 0 ==> p == 1,
            k == 1 ==> p == 10,
            k == 2 ==> p == 100,
            k == 3 ==> p == 1_000,
            k == 4 ==> p == 10_000,
            k == 5 ==> p == 100_000,
            k == 6 ==> p == 1_000_000,
            k == 7 ==> p == 10_000_000,
            k == 8 ==> p == 100_000_000,
            k == 9 ==> p == 1_000_000_000,
    ;
}

/// The digits of a fraction, written after a number `a` that holds the
/// whole part, give `total` once the missing places are filled with zeros.
/// `total` is the value in billionths; `width` places are still to write.
pub proof fn lemma_fraction_value(a: Seq<char>, rem: nat, width: nat, total: nat)
    requires
        width <= 9,
        rem < 1_000_000_000,
        number(a) * 1_000_000_000 + rem == total * pow10((9 - width) as nat),
    ensures
        fraction_digits(rem, width).len() <= width,
        rem > 0 ==> fraction_digits(rem, width).len() > 0,
        all_digits(fraction_digits(rem, width)),
        number(a + fraction_digits(rem, width)) * pow10(
            (width - fraction_digits(rem, width).len()) as nat,
        ) == total,
    decreases width,
{
    let f = fraction_digits(rem, width);
    lemma_times_pow10(total, (9 - width) as nat);
    if rem == 0 || width == 0 {
        assert(a + f =~= a);
        lemma_times_pow10(number(a), width);
    } else {
        let d = rem * 10 / 1_000_000_000;
        let next = rem * 10 % 1_000_000_000;
        let grown = a.push(digit_char(d));
        lemma_digit_char_value(d);
        lemma_number_push(a, digit_char(d));
        lemma_times_pow10(total, (9 - (width - 1)) as nat);
        lemma_fraction_value(grown, next, (width - 1) as nat, total);
        let rest = fraction_digits(next, (width - 1) as nat);
        assert(f == seq![digit_char(d)] + rest);
        assert(a + f =~= grown + rest);
        assert forall|i: int| 0 <= i < f.len() implies is_digit(#[trigger] f[i]) by {
            if i > 0 {
                assert(f[i] == rest[i - 1]);
            }
        }
    }
}

/// The seconds written for `nanos` nanoseconds are read back as `nanos`,
/// and hold no white space.
pub proof fn lemma_seconds_text_value(nanos: nat)
    requires
        nanos <= MAX_NANOS,
    ensures
        seconds_text(nanos).len() > 0,
        no_space(seconds_text(nanos)),
        seconds_nanos(seconds_text(nanos)) == Ok::<nat, FormatError>(nanos),
{
    let whole_part = nanos / 1_000_000_000;
    let rem = nanos % 1_000_000_000;
    let w = decimal(whole_part);
    let t = seconds_text(nanos);
    let empty = Seq::<char>::empty();
    lemma_decimal_number(whole_part);
    assert(is_digit(w[0]));
    if rem == 0 {
        assert(t == w);
        lemma_digits_end(t, 0, t.len() as int);
        lemma_digits_end(t, t.len() as int, t.len() as int);
        assert(t.subrange(0, t.len() as int) =~= w);
        assert(t.subrange(t.len() as int, t.len() as int) =~= empty);
        assert(w + empty =~= w);
        lemma_times_pow10(number(w), 9);
        assert(numeral_of(t) == Numeral::Number {
            negative: false,
            whole: w,
            fraction: empty,
            exponent: 0,
        });
    } else {
        let f = fraction_digits(rem, 9);
        lemma_times_pow10(nanos, 0);
        lemma_fraction_value(w, rem, 9, nanos);
        assert(t == w.push('.') + f);
        assert(t.len() == w.len() + 1 + f.len());
        assert forall|i: int| 0 <= i < w.len() implies is_digit(#[trigger] t[i]) by {
            assert(t[i] == w[i]);
        }
        assert(t[w.len() as int] == '.');
        assert forall|i: int| w.len() + 1 <= i < t.len() implies is_digit(#[trigger] t[i]) by {
            assert(t[i] == f[i - w.len() - 1]);
        }
        lemma_digits_end(t, 0, w.len() as int);
        lemma_digits_end(t, w.len() as int + 1, t.len() as int);
        assert(t.subrange(0, w.len() as int) =~= w);
        assert(t.subrange(w.len() as int + 1, t.len() as int) =~= f);
        assert(numeral_of(t) == Numeral::Number {
            negative: false,
            whole: w,
            fraction: f,
            exponent: 0,
        });
    }
}

/// The token of a component that is not zero is proper and no token of
/// seconds. It adds one unit where the numeral is not read, and as many as
/// there were where it is.
pub proof fn lemma_unit_token(count: nat, unit: char, worth: nat, reading: Reading)
    requires
        count > 0,
        unit_worth(unit) == Some(worth),
    ensures
        proper_tokens(unit_token(count, unit)),
        unit_token(count, unit).len() == 1,
        !is_seconds_token(unit_token(count, unit)[0]),
        token_nanos(UnitPolicy::One, unit_token(count, unit)[0], reading) == Ok::<
            nat,
            FormatError,
        >(worth),
        token_nanos(UnitPolicy::Counted, unit_token(count, unit)[0], reading) == if count * worth
            > MAX_NANOS {
            Err::<nat, FormatError>(FormatError::Overflow)
        } else {
            Ok::<nat, FormatError>(count * worth)
        },
{
    lemma_decimal_number(count);
    let token = decimal(count).push(unit);
    assert(token.last() == unit);
    assert(token.drop_last() =~= decimal(count));
    assert forall|i: int| 0 <= i < token.len() implies !is_space(#[trigger] token[i]) by {
        if i < decimal(count).len() {
            assert(token[i] == decimal(count)[i]);
            assert(is_digit(decimal(count)[i]));
        }
    }
}

/// The seconds token, where there is one, is proper. Its numeral is the
/// seconds as they were written, which the exact reading gives back; and
/// read as the nanoseconds it was written for, it adds them.
pub proof fn lemma_seconds_token(policy: UnitPolicy, nanos: nat)
    requires
        0 < nanos <= MAX_NANOS,
    ensures
        proper_tokens(seconds_token(nanos)),
        seconds_token(nanos).len() == 1,
        is_seconds_token(seconds_token(nanos)[0]),
        seconds_token(nanos)[0].drop_last() == seconds_text(nanos),
        exact_reading(seconds_text(nanos)) == Ok::<u128, FormatError>(nanos as u128),
        token_nanos(policy, seconds_token(nanos)[0], Ok(nanos as u128)) == Ok::<nat, FormatError>(
            nanos,
        ),
{
    lemma_seconds_text_value(nanos);
    let token = seconds_text(nanos).push('s');
    assert(token.last() == 's');
    assert(token.drop_last() =~= seconds_text(nanos));
    assert forall|i: int| 0 <= i < token.len() implies !is_space(#[trigger] token[i]) by {
        if i < seconds_text(nanos).len() {
            assert(token[i] == seconds_text(nanos)[i]);
        }
    }
}

/// Whether none of `tokens` is a token of seconds.
pub open spec fn no_seconds(tokens: Seq<Seq<char>>) -> bool {
    forall|i: int| 0 <= i < tokens.len() ==> !is_seconds_token(#[trigger] tokens[i])
}

/// Adding the tokens of `a`, none of them of seconds, and then those of
/// `b` is adding those of `a + b`.
pub proof fn lemma_total_of_joined(
    policy: UnitPolicy,
    a: Seq<Seq<char>>,
    b: Seq<Seq<char>>,
    seconds: Seq<Reading>,
    k: int,
    sum: nat,
)
    requires
        no_seconds(a),
    ensures
        total_nanos(policy, a + b, seconds, k, sum) == match total_nanos(
            policy,
            a,
            seconds,
            k,
            sum,
        ) {
            Ok(n) => total_nanos(policy, b, seconds, k, n),
            Err(e) => Err(e),
        },
    decreases a.len(),
{
    if a.len() == 0 {
        assert(a + b =~= b);
    } else {
        assert((a + b)[0] == a[0]);
        assert((a + b).drop_first() =~= a.drop_first() + b);
        assert(!is_seconds_token(a[0]));
        assert forall|i: int| 0 <= i < a.drop_first().len() implies !is_seconds_token(
            #[trigger] a.drop_first()[i],
        ) by {
            assert(a.drop_first()[i] == a[i + 1]);
        }
        match with_token(policy, sum, a[0], given_at(seconds, k)) {
            Ok(n) => {
                lemma_total_of_joined(policy, a.drop_first(), b, seconds, k, n);
            },
            Err(e) => {},
        }
    }
}

/// The seconds numerals of tokens put one after another are those of the
/// first and then those of the second.
pub proof fn lemma_numerals_of_joined(a: Seq<Seq<char>>, b: Seq<Seq<char>>)
    ensures
        seconds_numerals_of(a + b) == seconds_numerals_of(a) + seconds_numerals_of(b),
    decreases b.len(),
{
    if b.len() == 0 {
        assert(a + b =~= a);
        assert(seconds_numerals_of(a) + seconds_numerals_of(b) =~= seconds_numerals_of(a));
    } else {
        assert((a + b).drop_last() =~= a + b.drop_last());
        assert((a + b).last() == b.last());
        lemma_numerals_of_joined(a, b.drop_last());
        if is_seconds_token(b.last()) {
            assert((seconds_numerals_of(a) + seconds_numerals_of(b.drop_last())).push(
                b.last().drop_last(),
            ) =~= seconds_numerals_of(a) + seconds_numerals_of(b));
        }
    }
}

/// Tokens that are proper stay so when put one after another, and tokens
/// that are none of seconds too.
pub proof fn lemma_proper_joined(a: Seq<Seq<char>>, b: Seq<Seq<char>>)
    requires
        proper_tokens(a),
        proper_tokens(b),
    ensures
        proper_tokens(a + b),
        no_seconds(a) && no_seconds(b) ==> no_seconds(a + b),
{
    assert forall|i: int| 0 <= i < (a + b).len() implies (#[trigger] (a + b)[i]).len() > 0
        && no_space((a + b)[i]) by {
        if i < a.len() {
            assert((a + b)[i] == a[i]);
        } else {
            assert((a + b)[i] == b[i - a.len()]);
        }
    }
    if no_seconds(a) && no_seconds(b) {
        assert forall|i: int| 0 <= i < (a + b).len() implies !is_seconds_token(
            #[trigger] (a + b)[i],
        ) by {
            if i < a.len() {
                assert((a + b)[i] == a[i]);
            } else {
                assert((a + b)[i] == b[i - a.len()]);
            }
        }
    }
}

/// What a component of `count` units of `worth` nanoseconds adds when its
/// token is read back: under `One`, one unit where the component is not
/// zero; under `Counted`, all of them.
pub open spec fn unit_read(policy: UnitPolicy, count: nat, worth: nat) -> nat {
    match policy {
        UnitPolicy::One => if count > 0 {
            worth
        } else {
            0
        },
        UnitPolicy::Counted => count * worth,
    }
}

/// The token of one component is proper and none of seconds, and adds to
/// the sum what `unit_read` says, where the sum stays in range.
pub proof fn lemma_total_of_unit(
    policy: UnitPolicy,
    count: nat,
    unit: char,
    worth: nat,
    seconds: Seq<Reading>,
    k: int,
    sum: nat,
)
    requires
        unit_worth(unit) == Some(worth),
        sum + unit_read(policy, count, worth) <= MAX_NANOS,
    ensures
        proper_tokens(unit_token(count, unit)),
        no_seconds(unit_token(count, unit)),
        seconds_numerals_of(unit_token(count, unit)) == Seq::<Seq<char>>::empty(),
        total_nanos(policy, unit_token(count, unit), seconds, k, sum) == Ok::<nat, FormatError>(
            sum + unit_read(policy, count, worth),
        ),
{
    let tokens = unit_token(count, unit);
    let empty = Seq::<Seq<char>>::empty();
    assert(seconds_numerals_of(empty) =~= empty);
    if count > 0 {
        lemma_unit_token(count, unit, worth, given_at(seconds, k));
        let added = unit_read(policy, count, worth);
        assert(tokens.drop_first() =~= empty);
        assert(tokens.drop_last() =~= empty);
        assert(tokens.last() == tokens[0]);
        assert(seconds_numerals_of(tokens) == seconds_numerals_of(tokens.drop_last()));
        assert(total_nanos(policy, tokens.drop_first(), seconds, k, sum + added) == Ok::<
            nat,
            FormatError,
        >(sum + added));
    } else {
        assert(0 * worth == 0) by (nonlinear_arith);
    }
}

/// What reading back the text of `nanos` nanoseconds gives: for each of
/// the years, days, hours and minutes what `unit_read` says, and the
/// nanoseconds below a minute as they are.
pub open spec fn read_back(policy: UnitPolicy, nanos: nat) -> nat {
    unit_read(policy, years_in(nanos), NANOS_PER_YEAR as nat) + unit_read(
        policy,
        days_in(nanos),
        NANOS_PER_DAY as nat,
    ) + unit_read(policy, hours_in(nanos), NANOS_PER_HOUR as nat) + unit_read(
        policy,
        minutes_in(nanos),
        NANOS_PER_MIN as nat,
    ) + seconds_nanos_in(nanos)
}

/// Whether `seconds` reads the seconds token of the text of `nanos`
/// nanoseconds, where that text has one, as the nanoseconds it was
/// written for.
pub open spec fn reads_back(seconds: Seq<Reading>, nanos: nat) -> bool {
    seconds_nanos_in(nanos) > 0 ==> given_at(seconds, 0) == Ok::<u128, FormatError>(
        seconds_nanos_in(nanos) as u128,
    )
}

/// The tokens written for a duration are proper; the last of them is the
/// only one of seconds, where any nanoseconds are left below a minute.
pub proof fn lemma_tokens_proper(nanos: nat)
    ensures
        proper_tokens(tokens_of(nanos)),
        seconds_numerals_of(tokens_of(nanos)) == if seconds_nanos_in(nanos) > 0 {
            seq![seconds_text(seconds_nanos_in(nanos))]
        } else {
            Seq::<Seq<char>>::empty()
        },
{
    let y = unit_token(years_in(nanos), 'y');
    let d = unit_token(days_in(nanos), 'd');
    let h = unit_token(hours_in(nanos), 'h');
    let m = unit_token(minutes_in(nanos), 'm');
    let rest = seconds_nanos_in(nanos);
    let s = seconds_token(rest);
    let none = Seq::<Reading>::empty();
    let empty = Seq::<Seq<char>>::empty();
    lemma_total_of_unit(UnitPolicy::One, years_in(nanos), 'y', NANOS_PER_YEAR as nat, none, 0, 0);
    lemma_total_of_unit(UnitPolicy::One, days_in(nanos), 'd', NANOS_PER_DAY as nat, none, 0, 0);
    lemma_total_of_unit(UnitPolicy::One, hours_in(nanos), 'h', NANOS_PER_HOUR as nat, none, 0, 0);
    lemma_total_of_unit(UnitPolicy::One, minutes_in(nanos), 'm', NANOS_PER_MIN as nat, none, 0, 0);
    assert(seconds_numerals_of(empty) =~= empty);
    if rest > 0 {
        lemma_seconds_token(UnitPolicy::One, rest);
        assert(s.drop_last() =~= empty);
        assert(s.last() == s[0]);
        assert(seconds_numerals_of(s) == seconds_numerals_of(s.drop_last()).push(
            s.last().drop_last(),
        ));
        assert(empty.push(seconds_text(rest)) =~= seq![seconds_text(rest)]);
    }
    lemma_proper_joined(y, d);
    lemma_proper_joined(y + d, h);
    lemma_proper_joined(y + d + h, m);
    lemma_proper_joined(y + d + h + m, s);
    lemma_numerals_of_joined(y, d);
    lemma_numerals_of_joined(y + d, h);
    lemma_numerals_of_joined(y + d + h, m);
    lemma_numerals_of_joined(y + d + h + m, s);
    assert(empty + empty =~= empty);
    assert(empty + seconds_numerals_of(s) =~= seconds_numerals_of(s));
}

/// A duration is the sum of its components, each times its unit.
pub proof fn lemma_components(nanos: nat)
    ensures
        nanos == years_in(nanos) * NANOS_PER_YEAR + days_in(nanos) * NANOS_PER_DAY + hours_in(
            nanos,
        ) * NANOS_PER_HOUR + minutes_in(nanos) * NANOS_PER_MIN + seconds_nanos_in(nanos),
{
    let below_year = nanos % (NANOS_PER_YEAR as nat);
    let below_day = nanos % (NANOS_PER_DAY as nat);
    let below_hour = nanos % (NANOS_PER_HOUR as nat);
    let below_min = nanos % (NANOS_PER_MIN as nat);
    assert(nanos == years_in(nanos) * NANOS_PER_YEAR + below_year);
    assert(below_day == below_year % (NANOS_PER_DAY as nat));
    assert(below_year == days_in(nanos) * NANOS_PER_DAY + below_day);
    assert(below_hour == below_day % (NANOS_PER_HOUR as nat));
    assert(below_day == hours_in(nanos) * NANOS_PER_HOUR + below_hour);
    assert(below_min == below_hour % (NANOS_PER_MIN as nat));
    assert(below_hour == minutes_in(nanos) * NANOS_PER_MIN + below_min);
}

/// What is read back is never more than what was written; under
/// `Counted` it is the same.
pub proof fn lemma_read_back_bound(policy: UnitPolicy, nanos: nat)
    ensures
        read_back(policy, nanos) <= nanos,
        policy == UnitPolicy::Counted ==> read_back(policy, nanos) == nanos,
        read_back(UnitPolicy::One, nanos) == nanos <==> (years_in(nanos) <= 1 && days_in(nanos)
            <= 1 && hours_in(nanos) <= 1 && minutes_in(nanos) <= 1),
        read_back(UnitPolicy::One, nanos) <= NANOS_PER_YEAR + NANOS_PER_DAY + NANOS_PER_HOUR
            + NANOS_PER_MIN + NANOS_PER_MIN,
{
    lemma_components(nanos);
}

/// Adding up the tokens written for a duration gives `read_back`, as long
/// as that is a duration that can be held and the seconds are read as
/// what was written.
pub proof fn lemma_total_of_tokens(policy: UnitPolicy, nanos: nat, seconds: Seq<Reading>)
    requires
        read_back(policy, nanos) <= MAX_NANOS,
        reads_back(seconds, nanos),
    ensures
        total_nanos(policy, tokens_of(nanos), seconds, 0, 0) == Ok::<nat, FormatError>(
            read_back(policy, nanos),
        ),
{
    let y = unit_token(years_in(nanos), 'y');
    let d = unit_token(days_in(nanos), 'd');
    let h = unit_token(hours_in(nanos), 'h');
    let m = unit_token(minutes_in(nanos), 'm');
    let rest = seconds_nanos_in(nanos);
    let s = seconds_token(rest);
    let after_y = unit_read(policy, years_in(nanos), NANOS_PER_YEAR as nat);
    let after_d = after_y + unit_read(policy, days_in(nanos), NANOS_PER_DAY as nat);
    let after_h = after_d + unit_read(policy, hours_in(nanos), NANOS_PER_HOUR as nat);
    let after_m = after_h + unit_read(policy, minutes_in(nanos), NANOS_PER_MIN as nat);
    lemma_total_of_unit(policy, years_in(nanos), 'y', NANOS_PER_YEAR as nat, seconds, 0, 0);
    lemma_total_of_unit(policy, days_in(nanos), 'd', NANOS_PER_DAY as nat, seconds, 0, after_y);
    lemma_total_of_unit(policy, hours_in(nanos), 'h', NANOS_PER_HOUR as nat, seconds, 0, after_d);
    lemma_total_of_unit(policy, minutes_in(nanos), 'm', NANOS_PER_MIN as nat, seconds, 0, after_h);
    assert(total_nanos(policy, s, seconds, 0, after_m) == Ok::<nat, FormatError>(after_m + rest))
        by {
        if rest > 0 {
            lemma_seconds_token(policy, rest);
            assert(s.drop_first() =~= Seq::<Seq<char>>::empty());
            assert(total_nanos(policy, s.drop_first(), seconds, 1, after_m + rest) == Ok::<
                nat,
                FormatError,
            >(after_m + rest));
        }
    }
    lemma_proper_joined(y, d);
    lemma_proper_joined(y + d, h);
    lemma_proper_joined(y + d + h, m);
    lemma_total_of_joined(policy, y, d, seconds, 0, 0);
    lemma_total_of_joined(policy, y + d, h, seconds, 0, 0);
    lemma_total_of_joined(policy, y + d + h, m, seconds, 0, 0);
    lemma_total_of_joined(policy, y + d + h + m, s, seconds, 0, 0);
}

/// Writing a duration and reading the text back, the seconds read as what
/// was written, gives `read_back`, as long as that is a duration that can
/// be held: under `One`, every component of years, days, hours and minutes
/// that was two or more comes back as one.
pub proof fn lemma_parse_of_format(policy: UnitPolicy, nanos: nat, seconds: Seq<Reading>)
    requires
        read_back(policy, nanos) <= MAX_NANOS,
        reads_back(seconds, nanos),
    ensures
        parsed_given(policy, formatted(nanos), seconds) == Ok::<nat, FormatError>(
            read_back(policy, nanos),
        ),
{
    lemma_tokens_proper(nanos);
    lemma_words_of_rendered(tokens_of(nanos));
    lemma_total_of_tokens(policy, nanos, seconds);
}

/// With one unit to a token, and the seconds read as what was written, a
/// duration survives being written and read back exactly when each of its
/// whole years, days, hours and minutes is zero or one.
pub proof fn lemma_round_trip(nanos: nat, seconds: Seq<Reading>)
    requires
        reads_back(seconds, nanos),
    ensures
        parsed_given(UnitPolicy::One, formatted(nanos), seconds) == Ok::<nat, FormatError>(nanos)
            <==> (years_in(nanos) <= 1 && days_in(nanos) <= 1 && hours_in(nanos) <= 1
            && minutes_in(nanos) <= 1),
{
    lemma_read_back_bound(UnitPolicy::One, nanos);
    lemma_parse_of_format(UnitPolicy::One, nanos, seconds);
}

/// With the numerals of the units read, and the seconds read as what was
/// written, every duration that can be held survives being written and
/// read back.
pub proof fn lemma_counted_round_trip(nanos: nat, seconds: Seq<Reading>)
    requires
        nanos <= MAX_NANOS,
        reads_back(seconds, nanos),
    ensures
        parsed_given(UnitPolicy::Counted, formatted(nanos), seconds) == Ok::<nat, FormatError>(
            nanos,
        ),
{
    lemma_read_back_bound(UnitPolicy::Counted, nanos);
    lemma_parse_of_format(UnitPolicy::Counted, nanos, seconds);
}

/// A duration below one minute is read back from its text as what its
/// seconds are read as, under either policy.
pub proof fn lemma_seconds_round_trip(policy: UnitPolicy, nanos: nat, reading: Reading)
    requires
        0 < nanos < NANOS_PER_MIN,
    ensures
        parsed_given(policy, formatted(nanos), seq![reading]) == match reading {
            Ok(read) => if read > MAX_NANOS {
                Err::<nat, FormatError>(FormatError::Overflow)
            } else {
                Ok::<nat, FormatError>(read as nat)
            },
            Err(e) => Err::<nat, FormatError>(e),
        },
{
    lemma_tokens_proper(nanos);
    lemma_words_of_rendered(tokens_of(nanos));
    lemma_seconds_token(policy, nanos);
    let tokens = tokens_of(nanos);
    assert(tokens =~= seconds_token(nanos));
    assert(tokens.drop_first() =~= Seq::<Seq<char>>::empty());
    assert(given_at(seq![reading], 0) == reading);
    if let Ok(read) = reading {
        if read <= MAX_NANOS {
            assert(total_nanos(policy, tokens.drop_first(), seq![reading], 1, read as nat) == Ok::<
                nat,
                FormatError,
            >(read as nat));
        }
    }
}

/// The exact reading reads the seconds of a written duration as what was
/// written.
pub proof fn lemma_exact_reads_back(nanos: nat)
    ensures
        reads_back(exact_readings(seconds_numerals_of(words(formatted(nanos)))), nanos),
{
    lemma_tokens_proper(nanos);
    lemma_words_of_rendered(tokens_of(nanos));
    let rest = seconds_nanos_in(nanos);
    if rest > 0 {
        lemma_seconds_token(UnitPolicy::One, rest);
    }
}

/// With one unit to a token and the seconds read as exact decimals, a
/// duration survives being written and read back exactly when each of its
/// whole years, days, hours and minutes is zero or one.
pub proof fn lemma_exact_round_trip(nanos: nat)
    ensures
        parsed_exact(UnitPolicy::One, formatted(nanos)) == Ok::<nat, FormatError>(nanos) <==> (
        years_in(nanos) <= 1 && days_in(nanos) <= 1 && hours_in(nanos) <= 1 && minutes_in(nanos)
            <= 1),
{
    lemma_exact_reads_back(nanos);
    lemma_round_trip(nanos, exact_readings(seconds_numerals_of(words(formatted(nanos)))));
}

/// With the numerals of the units read and the seconds read as exact
/// decimals, every duration that can be held survives being written and
/// read back. So does, under either policy, every duration below one
/// minute, to the nanosecond.
pub proof fn lemma_exact_counted_round_trip(policy: UnitPolicy, nanos: nat)
    requires
        nanos <= MAX_NANOS,
        policy == UnitPolicy::Counted || nanos < NANOS_PER_MIN,
    ensures
        parsed_exact(policy, formatted(nanos)) == Ok::<nat, FormatError>(nanos),
{
    let seconds = exact_readings(seconds_numerals_of(words(formatted(nanos))));
    lemma_exact_reads_back(nanos);
    lemma_read_back_bound(policy, nanos);
    lemma_parse_of_format(policy, nanos, seconds);
}

} // verus!
