//! Times of day, calendar days and weekdays.
use vstd::prelude::*;

verus! {

/// Number of seconds in one day.
pub const SECONDS_PER_DAY: u32 = 86400;

/// A time of day, counted in seconds since midnight.
///
/// A well-formed value is below one day; arithmetic wraps around midnight.
#[derive(Clone, Copy, Debug, PartialEq, Eq, Structural)]
pub struct TimeOfDay {
    pub secs: u32,
}

impl TimeOfDay {
    pub open spec fn wf(self) -> bool {
        self.secs < SECONDS_PER_DAY
    }

    /// The time `secs` seconds after `self`, wrapping around midnight.
    pub open spec fn plus_spec(self, secs: int) -> TimeOfDay {
        TimeOfDay { secs: ((self.secs + secs) % (SECONDS_PER_DAY as int)) as u32 }
    }

    /// Builds a time from hours, minutes and seconds; `None` unless each is in range.
    pub fn from_hms(hour: u32, min: u32, sec: u32) -> (r: Option<TimeOfDay>)
        ensures
            r is Some <==> (hour < 24 && min < 60 && sec < 60),
            r matches Some(t) ==> t.secs == hour * 3600 + min * 60 + sec && t.wf(),
    {
        if hour < 24 && min < 60 && sec < 60 {
            Some(TimeOfDay { secs: hour * 3600 + min * 60 + sec })
        } else {
            None
        }
    }

    /// The time `secs` seconds later, wrapping around midnight.
    pub fn plus_seconds(self, secs: u32) -> (r: TimeOfDay)
        ensures
            r == self.plus_spec(secs as int),
            r.wf(),
    {
        let total: u64 = self.secs as u64 + secs as u64;
        TimeOfDay { secs: (total % (SECONDS_PER_DAY as u64)) as u32 }
    }

    pub fn hour(self) -> (r: u32)
        ensures
            r == self.secs / 3600,
    {
        self.secs / 3600
    }

    pub fn minute(self) -> (r: u32)
        ensures
            r == (self.secs % 3600) / 60,
    {
        (self.secs % 3600) / 60
    }

    pub fn second(self) -> (r: u32)
        ensures
            r == self.secs % 60,
    {
        self.secs % 60
    }
}

/// The decimal digit `d`, for `d` from 0 to 9.
pub open spec fn digit_char(d: int) -> char {
    ((d + 48) as u8) as char
}

/// A number below 100 as two decimal digits.
pub open spec fn two_digits(n: int) -> Seq<char> {
    seq![digit_char(n / 10), digit_char(n % 10)]
}

/// A time of day written "HH:MM:SS".
pub open spec fn hms_text(secs: int) -> Seq<char> {
    two_digits(secs / 3600) + seq![':'] + two_digits((secs % 3600) / 60) + seq![':'] + two_digits(secs % 60)
}

/// Relies on chrono's `NaiveTime::from_num_seconds_from_midnight_opt` (some
/// time for seconds below one day and no fraction) and on its `Display`,
/// which writes hours, minutes and seconds with two digits each.
#[verifier::external_body]
fn time_text(secs: u32) -> (r: String)
    requires
        secs < SECONDS_PER_DAY,
    ensures
        r@ == hms_text(secs as int),
{
    chrono::NaiveTime::from_num_seconds_from_midnight_opt(secs, 0).unwrap().to_string()
}

impl TimeOfDay {
    /// This time written "HH:MM:SS".
    pub fn to_text(self) -> (r: String)
        requires
            self.wf(),
        ensures
            r@ == hms_text(self.secs as int),
    {
        time_text(self.secs)
    }
}

/// A calendar day of the proleptic Gregorian calendar, counted so that
/// January 1 of year 1 is day 1.
#[derive(Clone, Copy, Debug, PartialEq, Eq, Structural)]
pub struct Date {
    pub days_from_ce: i32,
}

/// A day of the week.
#[derive(Clone, Copy, Debug, PartialEq, Eq, Structural)]
pub enum Weekday {
    Mon,
    Tue,
    Wed,
    Thu,
    Fri,
    Sat,
    Sun,
}

impl Weekday {
    /// Days since Monday: Monday is 0, Sunday is 6.
    pub open spec fn index(self) -> int {
        match self {
            Weekday::Mon => 0,
            Weekday::Tue => 1,
            Weekday::Wed => 2,
            Weekday::Thu => 3,
            Weekday::Fri => 4,
            Weekday::Sat => 5,
            Weekday::Sun => 6,
        }
    }

    pub fn num_days_from_monday(self) -> (r: u8)
        ensures
            r == self.index(),
    {
        match self {
            Weekday::Mon => 0,
            Weekday::Tue => 1,
            Weekday::Wed => 2,
            Weekday::Thu => 3,
            Weekday::Fri => 4,
            Weekday::Sat => 5,
            Weekday::Sun => 6,
        }
    }

    /// The weekday `n` days after Monday, for `n` below 7.
    pub fn from_monday_offset(n: u8) -> (r: Option<Weekday>)
        ensures
            r is Some <==> n < 7,
            r matches Some(w) ==> w.index() == n,
    {
        if n == 0 {
            Some(Weekday::Mon)
        } else if n == 1 {
            Some(Weekday::Tue)
        } else if n == 2 {
            Some(Weekday::Wed)
        } else if n == 3 {
            Some(Weekday::Thu)
        } else if n == 4 {
            Some(Weekday::Fri)
        } else if n == 5 {
            Some(Weekday::Sat)
        } else if n == 6 {
            Some(Weekday::Sun)
        } else {
            None
        }
    }
}

/// The first day that the calendar reaches: January 1 of year -262143.
pub const MIN_CE_DAY: i32 = -95746129;

/// The last day that the calendar reaches: December 31 of year 262142.
pub const MAX_CE_DAY: i32 = 95745399;

/// The weekday of the day `days` (January 1 of year 1, a Monday, being day 1),
/// as days since Monday; `None` where the calendar does not reach that day.
pub open spec fn ce_day_weekday(days: int) -> Option<int> {
    if MIN_CE_DAY <= days <= MAX_CE_DAY {
        Some((days - 1) % 7)
    } else {
        None
    }
}

/// Relies on chrono's `NaiveDate::from_num_days_from_ce_opt` (`None` outside
/// its range of dates, from `NaiveDate::MIN` to `NaiveDate::MAX`) and
/// `Weekday::num_days_from_monday` (Monday is 0).
#[verifier::external_body]
fn weekday_number(days: i32) -> (r: Option<u8>)
    ensures
        match r {
            Some(n) => n < 7 && ce_day_weekday(days as int) == Some(n as int),
            None => ce_day_weekday(days as int) is None,
        },
{
    match chrono::NaiveDate::from_num_days_from_ce_opt(days) {
        Some(d) => Some(chrono::Datelike::weekday(&d).num_days_from_monday() as u8),
        None => None,
    }
}

impl Date {
    /// The weekday of this day as days since Monday, where the calendar reaches it.
    pub open spec fn weekday_index(self) -> Option<int> {
        ce_day_weekday(self.days_from_ce as int)
    }

    /// The weekday of this day; `None` where the calendar does not reach it.
    pub fn weekday(self) -> (r: Option<Weekday>)
        ensures
            match r {
                Some(w) => self.weekday_index() == Some(w.index()),
                None => self.weekday_index() is None,
            },
    {
        match weekday_number(self.days_from_ce) {
            Some(n) => Weekday::from_monday_offset(n),
            None => None,
        }
    }
}

} // verus!
