//! Writing a duration as text.

use vstd::prelude::*;
use vstd::string::StringExecFns;
use crate::duration::digits::{decimal, digit_char, digit_str};
use crate::duration::{
    HumanReadableDuration, NANOS_PER_DAY, NANOS_PER_HOUR, NANOS_PER_MIN, NANOS_PER_YEAR,
};

verus! {

/// The digits after the decimal point that write `rem` billionths, `width`
/// digits at most, without trailing zeros: nothing where `rem` is 0.
pub open spec fn fraction_digits(rem: nat, width: nat) -> Seq<char>
    decreases width,
{
    if rem == 0 || width == 0 {
        Seq::<char>::empty()
    } else {
        seq![digit_char(rem * 10 / 1_000_000_000)] + fraction_digits(
            rem * 10 % 1_000_000_000,
            (width - 1) as nat,
        )
    }
}

/// `nanos` nanoseconds written as decimal seconds: the whole seconds, then,
/// where a fraction is left, a point and its digits without trailing zeros.
pub open spec fn seconds_text(nanos: nat) -> Seq<char> {
    if nanos % 1_000_000_000 == 0 {
        decimal(nanos / 1_000_000_000)
    } else {
        decimal(nanos / 1_000_000_000).push('.') + fraction_digits(nanos % 1_000_000_000, 9)
    }
}

/// The whole years in `nanos` nanoseconds.
pub open spec fn years_in(nanos: nat) -> nat {
    nanos / (NANOS_PER_YEAR as nat)
}

/// The whole days left after the years.
pub open spec fn days_in(nanos: nat) -> nat {
    nanos % (NANOS_PER_YEAR as nat) / (NANOS_PER_DAY as nat)
}

/// The whole hours left after the days.
pub open spec fn hours_in(nanos: nat) -> nat {
    nanos % (NANOS_PER_DAY as nat) / (NANOS_PER_HOUR as nat)
}

/// The whole minutes left after the hours.
pub open spec fn minutes_in(nanos: nat) -> nat {
    nanos % (NANOS_PER_HOUR as nat) / (NANOS_PER_MIN as nat)
}

/// The nanoseconds left after the minutes: fewer than a minute's worth.
pub open spec fn seconds_nanos_in(nanos: nat) -> nat {
    nanos % (NANOS_PER_MIN as nat)
}

/// A one-token sequence for a component that is not zero, none otherwise.
pub open spec fn unit_token(count: nat, unit: char) -> Seq<Seq<char>> {
    if count > 0 {
        seq![decimal(count).push(unit)]
    } else {
        Seq::<Seq<char>>::empty()
    }
}

/// The seconds token, where any nanoseconds are left.
pub open spec fn seconds_token(nanos: nat) -> Seq<Seq<char>> {
    if nanos > 0 {
        seq![seconds_text(nanos).push('s')]
    } else {
        Seq::<Seq<char>>::empty()
    }
}

/// The tokens that write `nanos` nanoseconds: one for each component that
/// is not zero, largest unit first.
pub open spec fn tokens_of(nanos: nat) -> Seq<Seq<char>> {
    unit_token(years_in(nanos), 'y') + unit_token(days_in(nanos), 'd') + unit_token(
        hours_in(nanos),
        'h',
    ) + unit_token(minutes_in(nanos), 'm') + seconds_token(seconds_nanos_in(nanos))
}

/// The tokens as one text: each token is followed by a line break, and each
/// but the first has a space before it.
pub open spec fn rendered(tokens: Seq<Seq<char>>) -> Seq<char>
    decreases tokens.len(),
{
    if tokens.len() == 0 {
        Seq::<char>::empty()
    } else if tokens.len() == 1 {
        tokens[0].push('\n')
    } else {
        rendered(tokens.drop_last()) + seq![' '] + tokens.last().push('\n')
    }
}

/// The text that writes a duration of `nanos` nanoseconds.
pub open spec fn formatted(nanos: nat) -> Seq<char> {
    rendered(tokens_of(nanos))
}

/// Appends `n` in decimal.
fn push_decimal(out: &mut String, n: u128)
    ensures
        final(out)@ == old(out)@ + decimal(n as nat),
    decreases n,
{
    if n >= 10 {
        push_decimal(out, n / 10);
    }
    let d: u8 = (n % 10) as u8;
    out.append(digit_str(d));
    assert(out@ =~= old(out)@ + decimal(n as nat));
}

/// Appends the digits that write `rem` billionths, without trailing zeros.
fn push_fraction(out: &mut String, rem: u128, width: u8)
    requires
        rem < 1_000_000_000,
    ensures
        final(out)@ == old(out)@ + fraction_digits(rem as nat, width as nat),
    decreases width,
{
    if rem == 0 || width == 0 {
        assert(out@ =~= old(out)@ + fraction_digits(rem as nat, width as nat));
    } else {
        let d: u8 = (rem * 10 / 1_000_000_000) as u8;
        out.append(digit_str(d));
        push_fraction(out, rem * 10 % 1_000_000_000, width - 1);
        assert(out@ =~= old(out)@ + fraction_digits(rem as nat, width as nat));
    }
}

/// Appends `nanos` nanoseconds as decimal seconds.
fn push_seconds(out: &mut String, nanos: u128)
    ensures
        final(out)@ == old(out)@ + seconds_text(nanos as nat),
{
    push_decimal(out, nanos / 1_000_000_000);
    let rem: u128 = nanos % 1_000_000_000;
    if rem != 0 {
        proof {
            reveal_strlit(".");
        }
        out.append(".");
        push_fraction(out, rem, 9);
    }
    assert(out@ =~= old(out)@ + seconds_text(nanos as nat));
}

/// Appends the space that goes before every token but the first.
fn push_spacer(out: &mut String, spaced: bool)
    ensures
        final(out)@ == old(out)@ + (if spaced {
            seq![' ']
        } else {
            Seq::<char>::empty()
        }),
{
    if spaced {
        proof {
            reveal_strlit(" ");
        }
        out.append(" ");
        assert(out@ =~= old(out)@ + seq![' ']);
    } else {
        assert(out@ =~= old(out)@ + Seq::<char>::empty());
    }
}

/// Appends the token for a whole number of `unit`s, where there is any.
fn push_unit(out: &mut String, count: u128, unit: &str, Ghost(written): Ghost<Seq<Seq<char>>>)
    requires
        unit@.len() == 1,
        old(out)@ == rendered(written),
    ensures
        final(out)@ == rendered(written + unit_token(count as nat, unit@[0])),
{
    if count > 0 {
        let spaced = !out.as_str().is_empty();
        push_spacer(out, spaced);
        push_decimal(out, count);
        out.append(unit);
        proof {
            reveal_strlit("\n");
        }
        out.append("\n");
        proof {
            let token = decimal(count as nat).push(unit@[0]);
            let all = written + unit_token(count as nat, unit@[0]);
            assert(unit@ =~= seq![unit@[0]]);
            assert(all.drop_last() =~= written);
            assert(all.last() == token);
            lemma_rendered_empty(written);
            assert(out@ =~= rendered(all));
        }
    } else {
        assert(written + unit_token(count as nat, unit@[0]) =~= written);
    }
}

/// Only the empty token sequence renders to the empty text.
pub proof fn lemma_rendered_empty(tokens: Seq<Seq<char>>)
    ensures
        rendered(tokens).len() == 0 <==> tokens.len() == 0,
    decreases tokens.len(),
{
    if tokens.len() > 1 {
        lemma_rendered_empty(tokens.drop_last());
    }
}

impl HumanReadableDuration {
    /// This duration as text.
    pub fn to_string(&self) -> (out: String)
        ensures
            out@ == formatted(self@),
    {
        let nanos: u128 = self.0;
        let mut out = String::new();
        let ghost mut written: Seq<Seq<char>> = Seq::empty();
        proof {
            reveal_strlit("y");
            reveal_strlit("d");
            reveal_strlit("h");
            reveal_strlit("m");
        }
        push_unit(&mut out, nanos / NANOS_PER_YEAR, "y", Ghost(written));
        proof {
            written = written + unit_token(years_in(nanos as nat), 'y');
        }
        push_unit(&mut out, nanos % NANOS_PER_YEAR / NANOS_PER_DAY, "d", Ghost(written));
        proof {
            written = written + unit_token(days_in(nanos as nat), 'd');
        }
        push_unit(&mut out, nanos % NANOS_PER_DAY / NANOS_PER_HOUR, "h", Ghost(written));
        proof {
            written = written + unit_token(hours_in(nanos as nat), 'h');
        }
        push_unit(&mut out, nanos % NANOS_PER_HOUR / NANOS_PER_MIN, "m", Ghost(written));
        proof {
            written = written + unit_token(minutes_in(nanos as nat), 'm');
        }
        let rest: u128 = nanos % NANOS_PER_MIN;
        if rest > 0 {
            let spaced = !out.as_str().is_empty();
            push_spacer(&mut out, spaced);
            push_seconds(&mut out, rest);
            proof {
                reveal_strlit("s");
                reveal_strlit("\n");
            }
            out.append("s");
            out.append("\n");
            proof {
                let token = seconds_text(rest as nat).push('s');
                let all = written + seconds_token(rest as nat);
                assert(all.drop_last() =~= written);
                assert(all.last() == token);
                lemma_rendered_empty(written);
                assert(out@ =~= rendered(all));
            }
        } else {
            assert(written + seconds_token(rest as nat) =~= written);
        }
        out
    }
}

} // verus!
