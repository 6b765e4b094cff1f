//! Elapsed time and its compact textual form.
//!
//! A duration is written as up to five tokens, largest unit first: whole
//! years, days, hours and minutes as `<integer>y`, `<integer>d`,
//! `<integer>h`, `<integer>m`, and what is left as decimal seconds, `<decimal>s`.
//! A year is 365 days; leap years and leap seconds are ignored.
//!
//! Reading is not the reverse of writing unless it is asked to be: see
//! `UnitPolicy`. What the numeral of a seconds token writes is read by the
//! caller and handed in, or read here as an exact decimal: see `parse`.

pub mod digits;
pub mod format;
pub mod laws;
pub mod numeral;
pub mod parse;

use vstd::prelude::*;

verus! {

/// The nanoseconds in a second.
pub const NANOS_PER_SEC: u128 = 1_000_000_000;

/// The nanoseconds in a minute of 60 seconds.
pub const NANOS_PER_MIN: u128 = 60_000_000_000;

/// The nanoseconds in an hour of 60 minutes.
pub const NANOS_PER_HOUR: u128 = 3_600_000_000_000;

/// The nanoseconds in a day of 24 hours.
pub const NANOS_PER_DAY: u128 = 86_400_000_000_000;

/// The nanoseconds in a year of 365 days.
pub const NANOS_PER_YEAR: u128 = 31_536_000_000_000_000;

/// The longest time that `std::time::Duration` can hold, in nanoseconds:
/// `u64::MAX` seconds and 999,999,999 nanoseconds.
pub const MAX_NANOS: u128 = 18_446_744_073_709_551_615_999_999_999;

/// An elapsed time, held as a count of nanoseconds.
#[derive(Debug, Clone, Copy, PartialEq, Eq, Structural, Hash)]
pub struct HumanReadableDuration(pub u128);

/// Why a text is not the text of a duration.
#[derive(Debug, Clone, Copy, PartialEq, Eq, Structural, Hash)]
pub enum FormatError {
    /// A seconds token whose numeral is no numeral at all.
    InvalidSeconds,
    /// A token of years, days, hours or minutes whose numeral is no whole
    /// number, where the numeral is read.
    InvalidCount,
    /// A seconds token whose numeral is infinite or not a number.
    SecondsNotFinite,
    /// A seconds token whose numeral is below zero.
    NegativeSeconds,
    /// A seconds token, or the sum of the tokens so far, beyond the longest
    /// duration that can be held.
    Overflow,
}

/// How the numeral before the letter of a year, day, hour or minute token
/// is read.
#[derive(Debug, Clone, Copy, PartialEq, Eq, Structural, Hash)]
pub enum UnitPolicy {
    /// It is not read: the token counts one unit.
    One,
    /// It is read as a whole number of units.
    Counted,
}

impl View for HumanReadableDuration {
    type V = nat;

    /// The elapsed time in nanoseconds.
    open spec fn view(&self) -> nat {
        self.0 as nat
    }
}

impl HumanReadableDuration {
    /// The duration of `secs` seconds and `nanos` nanoseconds.
    pub fn from_secs_nanos(secs: u64, nanos: u32) -> (out: HumanReadableDuration)
        ensures
            out@ == secs * NANOS_PER_SEC + nanos,
    {
        HumanReadableDuration(secs as u128 * NANOS_PER_SEC + nanos as u128)
    }

    /// This duration as whole seconds and the nanoseconds beyond them, or
    /// `None` where the seconds are more than 64 bits hold.
    pub fn to_secs_nanos(&self) -> (out: Option<(u64, u32)>)
        ensures
            match out {
                Some((secs, nanos)) => self@ == secs * NANOS_PER_SEC + nanos && nanos
                    < NANOS_PER_SEC,
                None => self@ > MAX_NANOS,
            },
    {
        if self.0 > MAX_NANOS {
            None
        } else {
            Some(((self.0 / NANOS_PER_SEC) as u64, (self.0 % NANOS_PER_SEC) as u32))
        }
    }
}

} // verus!
