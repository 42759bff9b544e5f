use vstd::prelude::*;

use crate::format::{digit_char, digit_str};
use vstd::string::StringExecFns;

verus! {

/// A calendar date held as plain year, month and day numbers.
///
/// The engine never interprets the calendar beyond ordering dates
/// chronologically, which for year/month/day triples is lexicographic
/// order. Date validity is the supplying collaborator's concern; the
/// engine only needs the bounds in [`Date::well_formed`] to render a
/// date as text.
#[derive(Clone, Copy, Debug, PartialEq, Eq, Structural)]
pub struct Date {
    pub year: u32,
    pub month: u32,
    pub day: u32,
}

/// Chronological order on dates: `a` is on or before `b`.
pub open spec fn date_le(a: Date, b: Date) -> bool {
    ||| a.year < b.year
    ||| (a.year == b.year && a.month < b.month)
    ||| (a.year == b.year && a.month == b.month && a.day <= b.day)
}

/// The exact "MM/DD/YYYY" text of a well-formed date: month and day
/// zero-padded to two digits, year to four.
pub open spec fn date_text(d: Date) -> Seq<char> {
    seq![
        digit_char(d.month as int / 10),
        digit_char(d.month as int % 10),
        '/',
        digit_char(d.day as int / 10),
        digit_char(d.day as int % 10),
        '/',
        digit_char(d.year as int / 1000),
        digit_char((d.year as int / 100) % 10),
        digit_char((d.year as int / 10) % 10),
        digit_char(d.year as int % 10),
    ]
}

impl Date {
    /// Bounds under which the date renders as "MM/DD/YYYY": two digits
    /// for month and day, four for the year.
    pub open spec fn well_formed(self) -> bool {
        &&& 1 <= self.month <= 12
        &&& 1 <= self.day <= 31
        &&& self.year <= 9999
    }

    /// True iff `self` is on or before `other` chronologically.
    pub fn le(&self, other: &Date) -> (r: bool)
        ensures
            r == date_le(*self, *other),
    {
        if self.year != other.year {
            self.year < other.year
        } else if self.month != other.month {
            self.month < other.month
        } else {
            self.day <= other.day
        }
    }

    /// Renders the date as "MM/DD/YYYY".
    pub fn format_mm_dd_yyyy(&self) -> (s: String)
        requires
            self.well_formed(),
        ensures
            s@ == date_text(*self),
    {
        let mut s = digit_str((self.month / 10) as u64).to_owned();
        s.append(digit_str((self.month % 10) as u64));
        s.append("/");
        s.append(digit_str((self.day / 10) as u64));
        s.append(digit_str((self.day % 10) as u64));
        s.append("/");
        s.append(digit_str((self.year / 1000) as u64));
        s.append(digit_str(((self.year / 100) % 10) as u64));
        s.append(digit_str(((self.year / 10) % 10) as u64));
        s.append(digit_str((self.year % 10) as u64));
        proof {
            reveal_strlit("/");
            assert(s@ =~= date_text(*self));
        }
        s
    }
}

} // verus!
