pub mod article;
pub mod auth;
pub mod escape;
pub mod index;
pub mod repo;
pub mod markdown;
pub mod text;

use vstd::prelude::*;

verus! {

/// A calendar date: year, month and day, with no time of day.
#[derive(Clone, Copy, Debug, PartialEq, Eq, Structural)]
pub struct Date {
    pub year: u16,
    pub month: u8,
    pub day: u8,
}

/// True when `y` is a leap year in the Gregorian calendar.
pub open spec fn spec_is_leap_year(y: int) -> bool {
    y % 4 == 0 && (y % 100 != 0 || y % 400 == 0)
}

/// Number of days in month `m` of year `y` (0 when `m` is no month).
pub open spec fn spec_days_in_month(y: int, m: int) -> int {
    if m == 1 || m == 3 || m == 5 || m == 7 || m == 8 || m == 10 || m == 12 {
        31
    } else if m == 4 || m == 6 || m == 9 || m == 11 {
        30
    } else if m == 2 {
        if spec_is_leap_year(y) {
            29
        } else {
            28
        }
    } else {
        0
    }
}

/// Well-formed year, month and day components: the month exists and the
/// day lies within it. The year is bounded so the remote path always uses
/// exactly four digits.
pub open spec fn spec_valid_ymd(y: int, m: int, d: int) -> bool {
    &&& 0 <= y <= 9999
    &&& 1 <= m <= 12
    &&& 1 <= d <= spec_days_in_month(y, m)
}

/// A well-formed calendar date.
pub open spec fn spec_valid_date(d: Date) -> bool {
    spec_valid_ymd(d.year as int, d.month as int, d.day as int)
}

impl Date {
    /// Builds the date when the components form a valid calendar date.
    pub fn new(year: u16, month: u8, day: u8) -> (r: Option<Date>)
        ensures
            match r {
                Some(d) => d == (Date { year, month, day }) && spec_valid_date(d),
                None => !spec_valid_date(Date { year, month, day }),
            },
    {
        let d = Date { year, month, day };
        if d.valid() {
            Some(d)
        } else {
            None
        }
    }

    /// True exactly when this is a valid calendar date.
    pub fn valid(&self) -> (r: bool)
        ensures
            r == spec_valid_date(*self),
    {
        let leap: bool = self.year % 4 == 0 && (self.year % 100 != 0 || self.year % 400 == 0);
        let dim: u8 = match self.month {
            1 | 3 | 5 | 7 | 8 | 10 | 12 => 31,
            4 | 6 | 9 | 11 => 30,
            2 => if leap {
                29
            } else {
                28
            },
            _ => 0,
        };
        1 <= self.month && self.month <= 12 && 1 <= self.day && self.day <= dim
            && self.year <= 9999
    }
}

} // verus!
