//! The validated date-time value: its mathematical model, the validating
//! constructor, epoch-second conversion, weekday derivation and ordering.

use vstd::prelude::*;
use vstd::string::StringExecFns;

use crate::calendar::days_of_the_month;
use crate::calendar::days_of_the_year;
use crate::calendar::lemma_days_before_month_bounds;
use crate::calendar::lemma_days_before_year_bounds;
use crate::calendar::spec_days_before_month;
use crate::calendar::spec_days_before_year;
use crate::calendar::spec_days_in_month;
use crate::calendar::spec_days_in_year;
use crate::display::push_decimal;
use crate::display::push_two_digits;
use crate::display::spec_display;
use crate::parse::scan_token_values;
use crate::parse::spec_from_string;

verus! {

/// The mathematical model of a [`UtcDatetime`]: its six calendar fields as
/// unbounded integers.
pub struct DateTimeView {
    pub year: int,
    pub month: int,
    pub day: int,
    pub hour: int,
    pub minute: int,
    pub second: int,
}

/// A UTC civil date-time, valid by construction: a value can only be obtained
/// through [`UtcDatetime::new`] or [`UtcDatetime::from_string`], which admit
/// only field values within their calendar ranges.
#[derive(Debug, PartialEq, Eq, Structural)]
pub struct UtcDatetime {
    year: u16,
    month: u8,
    day: u8,
    hour: u8,
    minute: u8,
    second: u8,
}

/// One error kind per violated field constraint, and one for a string whose
/// digit tokens do not form a date-time.
#[derive(Debug, PartialEq, Eq)]
pub enum IllegalTimeError {
    YearNumberError,
    MonthNumberError,
    DayNumberError,
    HourNumberError,
    MinuteNumberError,
    SecondNumberError,
    TimeStringError,
}

impl View for UtcDatetime {
    type V = DateTimeView;

    closed spec fn view(&self) -> DateTimeView {
        DateTimeView {
            year: self.year as int,
            month: self.month as int,
            day: self.day as int,
            hour: self.hour as int,
            minute: self.minute as int,
            second: self.second as int,
        }
    }
}

/// All six fields of the model lie in their valid ranges.
pub open spec fn wf_view(v: DateTimeView) -> bool {
    &&& 1970 <= v.year <= 65535
    &&& 1 <= v.month <= 12
    &&& 1 <= v.day <= spec_days_in_month(v.year, v.month)
    &&& 0 <= v.hour <= 23
    &&& 0 <= v.minute <= 59
    &&& 0 <= v.second <= 59
}

/// The result of validating six proposed field values. The checks run in a
/// fixed order - year, month, day, hour, minute, second - and the first
/// failing field decides the error, so callers get deterministic reports.
pub open spec fn spec_create(
    year: int,
    month: int,
    day: int,
    hour: int,
    minute: int,
    second: int,
) -> Result<DateTimeView, IllegalTimeError> {
    if year < 1970 {
        Err(IllegalTimeError::YearNumberError)
    } else if month == 0 || month > 12 {
        Err(IllegalTimeError::MonthNumberError)
    } else if day == 0 || day > spec_days_in_month(year, month) {
        Err(IllegalTimeError::DayNumberError)
    } else if hour > 23 {
        Err(IllegalTimeError::HourNumberError)
    } else if minute > 59 {
        Err(IllegalTimeError::MinuteNumberError)
    } else if second > 59 {
        Err(IllegalTimeError::SecondNumberError)
    } else {
        Ok(DateTimeView { year, month, day, hour, minute, second })
    }
}

/// A constructor result, seen at the level of the model.
pub open spec fn view_result(
    r: Result<UtcDatetime, IllegalTimeError>,
) -> Result<DateTimeView, IllegalTimeError> {
    match r {
        Ok(dt) => Ok(dt@),
        Err(e) => Err(e),
    }
}

/// Seconds from 1970-01-01T00:00:00Z to the given civil time, as an
/// unbounded integer: full years, then full months of the final year, then
/// the elapsed part of the final month.
pub open spec fn spec_total_seconds(v: DateTimeView) -> int {
    (spec_days_before_year(v.year) + spec_days_before_month(v.year, v.month) + (v.day - 1)) * 86400
        + v.hour * 3600 + v.minute * 60 + v.second
}

/// The epoch-second count as the 32-bit result the interface returns: the
/// unbounded count reduced modulo 2^32. The two agree for every date up to
/// early 2106; past that ceiling the 32-bit result wraps around.
pub open spec fn spec_timestamp(v: DateTimeView) -> u32 {
    (spec_total_seconds(v) % 0x1_0000_0000) as u32
}

/// The weekday index derived from the 32-bit epoch-second count: 0 for
/// Sunday, 1 through 6 for Monday through Saturday. 1970-01-01 was a
/// Thursday, hence the offset of 4.
pub open spec fn spec_weekday(v: DateTimeView) -> int {
    (4 + (spec_timestamp(v) as int % 604800) / 86400) % 7
}

impl UtcDatetime {
    /// Every reachable value satisfies the field invariants: construction is
    /// the only gate, and there are no setters.
    #[verifier::type_invariant]
    pub open spec fn well_formed(self) -> bool {
        wf_view(self@)
    }

    /// Validates the six fields in order and returns either the date-time
    /// holding them unchanged or the error of the first failing field.
    pub fn new(year: u16, month: u8, day: u8, hour: u8, minute: u8, second: u8) -> (r: Result<
        UtcDatetime,
        IllegalTimeError,
    >)
        ensures
            view_result(r) == spec_create(
                year as int,
                month as int,
                day as int,
                hour as int,
                minute as int,
                second as int,
            ),
    {
        if year < 1970 {
            return Err(IllegalTimeError::YearNumberError);
        }
        if month == 0 || month > 12 {
            return Err(IllegalTimeError::MonthNumberError);
        }
        if day == 0 || day > days_of_the_month(year, month).unwrap() {
            return Err(IllegalTimeError::DayNumberError);
        }
        if hour > 23 {
            return Err(IllegalTimeError::HourNumberError);
        }
        if minute > 59 {
            return Err(IllegalTimeError::MinuteNumberError);
        }
        if second > 59 {
            return Err(IllegalTimeError::SecondNumberError);
        }
        Ok(UtcDatetime { year, month, day, hour, minute, second })
    }

    /// The number of seconds from 1970-01-01T00:00:00Z to this date-time,
    /// with no leap seconds, truncated to 32 bits. The result is exact for
    /// dates up to early 2106 and wraps modulo 2^32 past that ceiling; the
    /// year guard is kept as a defensive check of the interface, though a
    /// constructed value can never trip it.
    pub fn timestamp(&self) -> (r: Result<u32, IllegalTimeError>)
        ensures
            r == Ok::<u32, IllegalTimeError>(spec_timestamp(self@)),
    {
        proof {
            use_type_invariant(self);
        }
        if self.year < 1970 {
            return Err(IllegalTimeError::YearNumberError);
        }
        let mut total_seconds: u64 = 0;
        let mut y: u16 = 1970;
        while y < self.year
            invariant
                1970 <= y <= self.year,
                wf_view(self@),
                total_seconds == spec_days_before_year(y as int) * 86400,
            decreases self.year as int - y as int,
        {
            proof {
                assert(spec_days_before_year(y as int + 1) == spec_days_before_year(y as int)
                    + spec_days_in_year(y as int));
                lemma_days_before_year_bounds(y as int + 1);
            }
            total_seconds = total_seconds + days_of_the_year(y) as u64 * 86400;
            y = y + 1;
        }
        let mut m: u8 = 1;
        while m < self.month
            invariant
                1 <= m <= self.month,
                wf_view(self@),
                y == self.year,
                total_seconds == (spec_days_before_year(self.year as int) + spec_days_before_month(
                    self.year as int,
                    m as int,
                )) * 86400,
            decreases self.month as int - m as int,
        {
            proof {
                assert(spec_days_before_month(self.year as int, m as int + 1)
                    == spec_days_before_month(self.year as int, m as int) + spec_days_in_month(
                    self.year as int,
                    m as int,
                ));
                lemma_days_before_year_bounds(self.year as int);
                lemma_days_before_month_bounds(self.year as int, m as int + 1);
            }
            let days_num: u64 = days_of_the_month(self.year, m).unwrap() as u64;
            total_seconds = total_seconds + days_num * 86400;
            m = m + 1;
        }
        proof {
            lemma_days_before_year_bounds(self.year as int);
            lemma_days_before_month_bounds(self.year as int, self.month as int);
        }
        let day: u64 = self.day as u64;
        let hour: u64 = self.hour as u64;
        let minute: u64 = self.minute as u64;
        let second: u64 = self.second as u64;
        total_seconds = total_seconds + (day - 1) * 86400 + hour * 3600 + minute * 60 + second;
        proof {
            assert(total_seconds == spec_total_seconds(self@));
        }
        Ok((total_seconds % 0x1_0000_0000) as u32)
    }

    /// The day of the week: Monday through Saturday give 1 through 6 and
    /// Sunday gives 0 (a non-ISO convention, kept for compatibility).
    pub fn weekday(&self) -> (w: u8)
        ensures
            w as int == spec_weekday(self@),
            w <= 6,
    {
        let ts: u32 = self.timestamp().unwrap();
        let this_week_seconds: u32 = ts % (7 * 24 * 3600);
        let this_week_days: u32 = this_week_seconds / (24 * 3600);
        let week_number: u32 = (4 + this_week_days) % 7;
        week_number as u8
    }

    /// Parses a date-time string: every maximal run of ASCII digits is a
    /// token, everything else is a discarded separator, and the six tokens -
    /// in the order year, month, day, hour, minute, second - are handed to
    /// the validating constructor. A token count other than six, or a token
    /// past its field's native width, is a [`IllegalTimeError::TimeStringError`].
    pub fn from_string(time_str: &str) -> (r: Result<UtcDatetime, IllegalTimeError>)
        ensures
            view_result(r) == spec_from_string(time_str@),
    {
        let vals: Vec<u64> = scan_token_values(time_str);
        if vals.len() != 6 {
            return Err(IllegalTimeError::TimeStringError);
        }
        let year: u64 = vals[0];
        let month: u64 = vals[1];
        let day: u64 = vals[2];
        let hour: u64 = vals[3];
        let minute: u64 = vals[4];
        let second: u64 = vals[5];
        if year > 65535 || month > 255 || day > 255 || hour > 255 || minute > 255 || second > 255 {
            return Err(IllegalTimeError::TimeStringError);
        }
        Self::new(
            year as u16,
            month as u8,
            day as u8,
            hour as u8,
            minute as u8,
            second as u8,
        )
    }

    /// Renders the date-time as `YYYY-MM-DD HH:MM:SS`, the year unpadded and
    /// every other field zero-padded to two digits.
    pub fn to_display_string(&self) -> (s: String)
        ensures
            s@ == spec_display(self@),
    {
        proof {
            use_type_invariant(self);
        }
        let mut s: String = String::new();
        push_decimal(&mut s, self.year);
        s.append("-");
        push_two_digits(&mut s, self.month);
        s.append("-");
        push_two_digits(&mut s, self.day);
        s.append(" ");
        push_two_digits(&mut s, self.hour);
        s.append(":");
        push_two_digits(&mut s, self.minute);
        s.append(":");
        push_two_digits(&mut s, self.second);
        proof {
            reveal_strlit("-");
            reveal_strlit(" ");
            reveal_strlit(":");
            assert(s@ =~= spec_display(self@));
        }
        s
    }
}

/// The ordering of two integers, as `partial_cmp` reports it.
pub open spec fn ord_of(x: int, y: int) -> core::cmp::Ordering {
    if x < y {
        core::cmp::Ordering::Less
    } else if x == y {
        core::cmp::Ordering::Equal
    } else {
        core::cmp::Ordering::Greater
    }
}

/// Fieldwise lexicographic order - year, then month, day, hour, minute,
/// second - which is chronological order for valid dates.
pub open spec fn spec_cmp(a: DateTimeView, b: DateTimeView) -> core::cmp::Ordering {
    if a.year != b.year {
        ord_of(a.year, b.year)
    } else if a.month != b.month {
        ord_of(a.month, b.month)
    } else if a.day != b.day {
        ord_of(a.day, b.day)
    } else if a.hour != b.hour {
        ord_of(a.hour, b.hour)
    } else if a.minute != b.minute {
        ord_of(a.minute, b.minute)
    } else {
        ord_of(a.second, b.second)
    }
}

impl PartialOrd for UtcDatetime {
    fn partial_cmp(&self, other: &Self) -> (r: Option<core::cmp::Ordering>) {
        if self.year < other.year {
            Some(core::cmp::Ordering::Less)
        } else if self.year > other.year {
            Some(core::cmp::Ordering::Greater)
        } else if self.month < other.month {
            Some(core::cmp::Ordering::Less)
        } else if self.month > other.month {
            Some(core::cmp::Ordering::Greater)
        } else if self.day < other.day {
            Some(core::cmp::Ordering::Less)
        } else if self.day > other.day {
            Some(core::cmp::Ordering::Greater)
        } else if self.hour < other.hour {
            Some(core::cmp::Ordering::Less)
        } else if self.hour > other.hour {
            Some(core::cmp::Ordering::Greater)
        } else if self.minute < other.minute {
            Some(core::cmp::Ordering::Less)
        } else if self.minute > other.minute {
            Some(core::cmp::Ordering::Greater)
        } else if self.second < other.second {
            Some(core::cmp::Ordering::Less)
        } else if self.second > other.second {
            Some(core::cmp::Ordering::Greater)
        } else {
            Some(core::cmp::Ordering::Equal)
        }
    }
}

impl vstd::std_specs::cmp::PartialOrdSpecImpl for UtcDatetime {
    open spec fn obeys_partial_cmp_spec() -> bool {
        true
    }

    open spec fn partial_cmp_spec(&self, other: &Self) -> Option<core::cmp::Ordering> {
        Some(spec_cmp(self@, other@))
    }
}

impl IllegalTimeError {
    /// The diagnostic text of each error kind.
    pub open spec fn spec_message(self) -> Seq<char> {
        match self {
            IllegalTimeError::YearNumberError => "Year Number Error"@,
            IllegalTimeError::MonthNumberError => "Month Number Error"@,
            IllegalTimeError::DayNumberError => "Day Number Error"@,
            IllegalTimeError::HourNumberError => "Hour Number Error"@,
            IllegalTimeError::MinuteNumberError => "Minute Number Error"@,
            IllegalTimeError::SecondNumberError => "Second Number Error"@,
            IllegalTimeError::TimeStringError
                => "The format of the input time string is not standardized"@,
        }
    }

    /// A human-readable description of the error.
    pub fn message(&self) -> (m: &'static str)
        ensures
            m@ == self.spec_message(),
    {
        match self {
            IllegalTimeError::YearNumberError => "Year Number Error",
            IllegalTimeError::MonthNumberError => "Month Number Error",
            IllegalTimeError::DayNumberError => "Day Number Error",
            IllegalTimeError::HourNumberError => "Hour Number Error",
            IllegalTimeError::MinuteNumberError => "Minute Number Error",
            IllegalTimeError::SecondNumberError => "Second Number Error",
            IllegalTimeError::TimeStringError
                => "The format of the input time string is not standardized",
        }
    }
}

} // verus!
