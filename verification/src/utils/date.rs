//! Dates of a day, of a month or of a year.

use vstd::prelude::*;
use crate::query::literal::{find, position, split, split_on};
use crate::utils::utils::clock_secs;
use crate::text::{
    all_digits, append_chars, check_all_digits, chars_of, digits_value, nat_text, read_digits,
    slice_of, string_of, u128_text,
};

verus! {

/// How exact a date is.
#[derive(Clone, Copy, Debug, PartialEq, Eq, Structural)]
pub enum DateScope {
    /// A day, a month and a year.
    Day,
    /// A month and a year.
    Month,
    /// A year.
    Year,
}

/// Where a date was written, which decides the order of its parts.
#[derive(Clone, Copy, Debug, PartialEq, Eq, Structural)]
pub enum DateSource {
    /// The catalogue: the year first, then the month, then the day.
    Spotify,
    /// The user: the day first, then the month, then the year.
    User,
}

/// Why a text is no date.
#[derive(Clone, Copy, Debug, PartialEq, Eq, Structural)]
pub enum DateError {
    /// The text holds both `-` and `/`.
    AmbiguousDelimiter,
    /// The text has no delimiter and is no year.
    NotAYear,
    /// The part where the day stands is no number up to 255.
    DayPart,
    /// The part where the month stands is no number up to 255.
    MonthPart,
    /// The part where the year stands is no number that fits in 32 bits.
    YearPart,
    /// The text has more than three parts.
    Parts,
    /// The month is not one of the twelve.
    InvalidMonth(u8),
    /// The month has no such day.
    InvalidDay { day: u8, month: u8 },
    /// The year has fewer than three digits and the clock gives no year to
    /// complete it by.
    NoClock,
}

/// How two dates lie to each other.
#[derive(Clone, Copy, Debug, PartialEq, Eq, Structural)]
pub enum DateOrder {
    Less,
    Equal,
    Greater,
}

/// A date: a year, with a month and a day as far as its scope goes.
#[derive(Clone, Copy, Debug)]
pub struct Date {
    pub scope: DateScope,
    pub year: u32,
    pub month: Option<u8>,
    pub day: Option<u8>,
}

impl PartialEq for Date {
    /// Whether two dates are the same: see `same`.
    fn eq(&self, other: &Self) -> (r: bool) {
        self.same(other)
    }
}

impl vstd::std_specs::cmp::PartialEqSpecImpl for Date {
    open spec fn obeys_eq_spec() -> bool {
        true
    }

    open spec fn eq_spec(&self, other: &Self) -> bool {
        self.same_spec(*other)
    }
}

/// An unsigned number as written: an optional `+` and one or more decimal
/// digits, which write a number of at most `max`. `None` for any other
/// text.
pub open spec fn unsigned_spec(s: Seq<char>, max: nat) -> Option<nat> {
    let digits = if s.len() > 0 && s[0] == '+' {
        s.skip(1)
    } else {
        s
    };
    if digits.len() > 0 && all_digits(digits) && digits_value(digits) <= max {
        Some(digits_value(digits))
    } else {
        None
    }
}

fn read_unsigned(s: &[char], max: u32) -> (r: Option<u32>)
    ensures
        match r {
            Some(v) => unsigned_spec(s@, max as nat) == Some(v as nat),
            None => unsigned_spec(s@, max as nat) is None,
        },
{
    let digits = if s.len() > 0 && s[0] == '+' {
        let rest = slice_of(s, 1, s.len());
        assert(s@.subrange(1, s.len() as int) =~= s@.skip(1));
        rest
    } else {
        let rest = slice_of(s, 0, s.len());
        assert(s@.subrange(0, s.len() as int) =~= s@);
        rest
    };
    if digits.len() == 0 || !check_all_digits(digits.as_slice()) {
        return None;
    }
    match read_digits(digits.as_slice(), max as u128) {
        Some(v) => Some(v as u32),
        None => None,
    }
}

/// Whether a month has no day `day`. Months 1, 3, 5, 7, 10 and 12 have 31
/// days, months 4, 6, 9 and 11 have 30, and month 2 has 29; the days of
/// month 8 are not counted.
pub open spec fn day_too_late(month: u8, day: u8) -> bool {
    ||| ((month == 1 || month == 3 || month == 5 || month == 6 || month == 7 || month == 10
        || month == 12) && day > 31)
    ||| ((month == 4 || month == 6 || month == 9 || month == 11) && day > 30)
    ||| (month == 2 && day > 29)
}

/// The year that a year of fewer than three digits stands for, in the year
/// `current_year`: a year of the twentieth century where the same year of
/// the twenty-first lies before the current year, and else a year of the
/// twenty-first. A longer year stands for itself.
pub open spec fn full_year(year: u32, current_year: u32) -> u32 {
    if year < 100 {
        if current_year > 2000 + year {
            (year + 1900) as u32
        } else {
            (year + 2000) as u32
        }
    } else {
        year
    }
}

/// The pieces of a date between its delimiters: `None` where the text
/// holds both `-` and `/`, the whole text where it holds neither.
pub open spec fn date_parts(text: Seq<char>) -> Option<Seq<Seq<char>>> {
    let dash = position(text, '-') < text.len();
    let slash = position(text, '/') < text.len();
    if dash && slash {
        None
    } else if dash {
        Some(split_on(text, '-'))
    } else if slash {
        Some(split_on(text, '/'))
    } else {
        Some(seq![text])
    }
}

/// The date that the parts `parts` write, before its year is completed and
/// its month and day are checked.
pub open spec fn parts_date(parts: Seq<Seq<char>>, source: DateSource) -> Result<Date, DateError> {
    if parts.len() == 1 {
        match unsigned_spec(parts[0], u32::MAX as nat) {
            Some(year) => Ok(
                Date { scope: DateScope::Year, year: year as u32, month: None, day: None },
            ),
            None => Err(DateError::NotAYear),
        }
    } else if parts.len() == 2 {
        let (month_part, year_part) = match source {
            DateSource::Spotify => (parts[1], parts[0]),
            DateSource::User => (parts[0], parts[1]),
        };
        match unsigned_spec(month_part, u8::MAX as nat) {
            None => Err(DateError::MonthPart),
            Some(month) => match unsigned_spec(year_part, u32::MAX as nat) {
                None => Err(DateError::YearPart),
                Some(year) => Ok(
                    Date {
                        scope: DateScope::Month,
                        year: year as u32,
                        month: Some(month as u8),
                        day: None,
                    },
                ),
            },
        }
    } else if parts.len() == 3 {
        let (day_part, year_part) = match source {
            DateSource::Spotify => (parts[2], parts[0]),
            DateSource::User => (parts[0], parts[2]),
        };
        match unsigned_spec(day_part, u8::MAX as nat) {
            None => Err(DateError::DayPart),
            Some(day) => match unsigned_spec(parts[1], u8::MAX as nat) {
                None => Err(DateError::MonthPart),
                Some(month) => match unsigned_spec(year_part, u32::MAX as nat) {
                    None => Err(DateError::YearPart),
                    Some(year) => Ok(
                        Date {
                            scope: DateScope::Day,
                            year: year as u32,
                            month: Some(month as u8),
                            day: Some(day as u8),
                        },
                    ),
                },
            },
        }
    } else {
        Err(DateError::Parts)
    }
}

/// The seconds from the start of 1970 to the start of a day of the
/// proleptic Gregorian calendar, as chrono counts them; `None` for a day
/// that the calendar does not have, or a year that chrono does not hold.
pub uninterp spec fn unix_seconds(year: int, month: int, day: int) -> Option<int>;

/// `NaiveDate::from_ymd_opt` of chrono, and for a day that it knows the
/// timestamp of the start of that day in UTC, by `and_hms_opt`,
/// `from_utc_datetime` and `timestamp`. The result depends on the three
/// numbers alone.
#[verifier::external_body]
fn unix_time_of(year: i32, month: u32, day: u32) -> (r: Option<i64>)
    ensures
        match r {
            Some(t) => unix_seconds(year as int, month as int, day as int) == Some(t as int),
            None => unix_seconds(year as int, month as int, day as int) is None,
        },
{
    match chrono::NaiveDate::from_ymd_opt(year, month, day) {
        Some(date) => match date.and_hms_opt(0, 0, 0) {
            Some(start) => Some(chrono::TimeZone::from_utc_datetime(&chrono::Utc, &start).timestamp()),
            None => None,
        },
        None => None,
    }
}

/// The year of the calendar in which the moment lies that is `secs` seconds
/// after the start of 1970 in UTC, as chrono counts it; `None` for a moment
/// that chrono does not hold.
pub uninterp spec fn timestamp_year(secs: int) -> Option<int>;

/// `DateTime::from_timestamp` of chrono with no nanoseconds, and the year
/// of the moment that it gives, by `Datelike::year`. The result depends on
/// the number of seconds alone.
#[verifier::external_body]
fn year_of_timestamp(secs: i64) -> (r: Option<i32>)
    ensures
        match r {
            Some(y) => timestamp_year(secs as int) == Some(y as int),
            None => timestamp_year(secs as int) is None,
        },
{
    match chrono::DateTime::from_timestamp(secs, 0) {
        Some(moment) => Some(chrono::Datelike::year(&moment)),
        None => None,
    }
}

/// The year that a reading of the clock lies in, where the reading is one
/// and chrono holds its moment in a year from 0 on.
pub open spec fn reading_year(reading: Option<u64>) -> Option<u32> {
    match reading {
        Some(secs) => if secs <= i64::MAX {
            match timestamp_year(secs as int) {
                Some(y) => if 0 <= y <= u32::MAX {
                    Some(y as u32)
                } else {
                    None
                },
                None => None,
            }
        } else {
            None
        },
        None => None,
    }
}

/// The year that a reading of the clock lies in.
pub fn year_of_reading(reading: Option<u64>) -> (r: Option<u32>)
    ensures
        r == reading_year(reading),
{
    match reading {
        Some(secs) => {
            if secs > 0x7fff_ffff_ffff_ffff {
                return None;
            }
            match year_of_timestamp(secs as i64) {
                Some(y) => if y >= 0 {
                    Some(y as u32)
                } else {
                    None
                },
                None => None,
            }
        },
        None => None,
    }
}

impl Date {
    /// A date has a day only where it has a month.
    pub open spec fn wf(&self) -> bool {
        self.day is Some ==> self.month is Some
    }

    /// The date checked: its month, if it has one, is one of the twelve,
    /// and its day, if it has one, is not too late for the month.
    pub open spec fn validate_spec(self) -> Result<Date, DateError> {
        if self.month is Some && (self.month->0 < 1 || self.month->0 > 12) {
            Err(DateError::InvalidMonth(self.month->0))
        } else if self.day is Some && day_too_late(self.month->0, self.day->0) {
            Err(DateError::InvalidDay { day: self.day->0, month: self.month->0 })
        } else {
            Ok(self)
        }
    }

    /// What `date_str` writes, before its year is completed and its month
    /// and day are checked.
    pub open spec fn raw_spec(date_str: Seq<char>, source: DateSource) -> Result<Date, DateError> {
        match date_parts(date_str) {
            None => Err(DateError::AmbiguousDelimiter),
            Some(parts) => parts_date(parts, source),
        }
    }

    /// The date `self` with its year completed in the year `current_year`,
    /// and checked.
    pub open spec fn completed(self, current_year: u32) -> Result<Date, DateError> {
        (Date { year: full_year(self.year, current_year), ..self }).validate_spec()
    }

    /// What `date_str` denotes in the year `current_year`.
    pub open spec fn new_spec(date_str: Seq<char>, source: DateSource, current_year: u32) -> Result<
        Date,
        DateError,
    > {
        match Date::raw_spec(date_str, source) {
            Err(e) => Err(e),
            Ok(date) => date.completed(current_year),
        }
    }

    /// What `date_str` denotes where the clock reads `reading`. The clock
    /// is asked only for a year of fewer than three digits, and such a date
    /// is an error where the clock gives no year.
    pub open spec fn new_with_reading(
        date_str: Seq<char>,
        source: DateSource,
        reading: Option<u64>,
    ) -> Result<Date, DateError> {
        match Date::raw_spec(date_str, source) {
            Err(e) => Err(e),
            Ok(date) => if date.year >= 100 {
                date.completed(0)
            } else {
                match reading_year(reading) {
                    Some(year) => date.completed(year),
                    None => Err(DateError::NoClock),
                }
            },
        }
    }

    /// Reads the parts of a date.
    ///
    /// The parts of a date stand between `-` or between `/`. One part is a
    /// year, two are a month and a year, three are a day, a month and a
    /// year; the source decides the order.
    pub fn read(date_str: &str, source: DateSource) -> (r: Result<Date, DateError>)
        ensures
            r == Date::raw_spec(date_str@, source),
            r is Ok ==> r->Ok_0.wf(),
    {
        let text = chars_of(date_str);
        let dash = find(text.as_slice(), 0, '-') < text.len();
        let slash = find(text.as_slice(), 0, '/') < text.len();
        proof {
            assert(text@.skip(0) =~= text@);
        }
        let parts: Vec<Vec<char>> = if dash && slash {
            return Err(DateError::AmbiguousDelimiter);
        } else if dash {
            split(text.as_slice(), '-')
        } else if slash {
            split(text.as_slice(), '/')
        } else {
            let mut whole: Vec<Vec<char>> = Vec::new();
            whole.push(text);
            whole
        };
        let ghost pieces = date_parts(date_str@)->0;
        assert(parts@.len() == pieces.len());
        assert(forall|i: int| 0 <= i < parts@.len() ==> (#[trigger] parts@[i])@ == pieces[i]);
        let date = if parts.len() == 1 {
            match read_unsigned(parts[0].as_slice(), u32::MAX) {
                Some(year) => Date { scope: DateScope::Year, year, month: None, day: None },
                None => {
                    return Err(DateError::NotAYear);
                },
            }
        } else if parts.len() == 2 {
            let (month_i, year_i): (usize, usize) = match source {
                DateSource::Spotify => (1, 0),
                DateSource::User => (0, 1),
            };
            let month = match read_unsigned(parts[month_i].as_slice(), 255) {
                Some(m) => m as u8,
                None => {
                    return Err(DateError::MonthPart);
                },
            };
            let year = match read_unsigned(parts[year_i].as_slice(), u32::MAX) {
                Some(y) => y,
                None => {
                    return Err(DateError::YearPart);
                },
            };
            Date { scope: DateScope::Month, year, month: Some(month), day: None }
        } else if parts.len() == 3 {
            let (day_i, year_i): (usize, usize) = match source {
                DateSource::Spotify => (2, 0),
                DateSource::User => (0, 2),
            };
            let day = match read_unsigned(parts[day_i].as_slice(), 255) {
                Some(d) => d as u8,
                None => {
                    return Err(DateError::DayPart);
                },
            };
            let month = match read_unsigned(parts[1].as_slice(), 255) {
                Some(m) => m as u8,
                None => {
                    return Err(DateError::MonthPart);
                },
            };
            let year = match read_unsigned(parts[year_i].as_slice(), u32::MAX) {
                Some(y) => y,
                None => {
                    return Err(DateError::YearPart);
                },
            };
            Date { scope: DateScope::Day, year, month: Some(month), day: Some(day) }
        } else {
            return Err(DateError::Parts);
        };
        Ok(date)
    }

    /// Completes the year of a date in the year `current_year`, and checks
    /// the date.
    pub fn complete(self, current_year: u32) -> (r: Result<Date, DateError>)
        requires
            self.wf(),
        ensures
            r == self.completed(current_year),
            r is Ok ==> r->Ok_0.wf(),
    {
        let year = if self.year < 100 {
            if current_year > 2000 + self.year {
                self.year + 1900
            } else {
                self.year + 2000
            }
        } else {
            self.year
        };
        (Date { year, ..self }).validate()
    }

    /// Reads a date in the year `current_year`.
    pub fn new_at(date_str: String, source: DateSource, current_year: u32) -> (r: Result<
        Date,
        DateError,
    >)
        ensures
            r == Date::new_spec(date_str@, source, current_year),
            r is Ok ==> r->Ok_0.wf(),
    {
        match Date::read(date_str.as_str(), source) {
            Ok(date) => date.complete(current_year),
            Err(e) => Err(e),
        }
    }

    /// Reads a date where the clock reads `reading`.
    pub fn new_with(date_str: String, source: DateSource, reading: Option<u64>) -> (r: Result<
        Date,
        DateError,
    >)
        ensures
            r == Date::new_with_reading(date_str@, source, reading),
            r is Ok ==> r->Ok_0.wf(),
    {
        match Date::read(date_str.as_str(), source) {
            Ok(date) => {
                if date.year >= 100 {
                    date.complete(0)
                } else {
                    match year_of_reading(reading) {
                        Some(year) => date.complete(year),
                        None => Err(DateError::NoClock),
                    }
                }
            },
            Err(e) => Err(e),
        }
    }

    /// Reads a date by the system clock, which is read only for a year of
    /// fewer than three digits.
    pub fn new(date_str: String, source: DateSource) -> (r: Result<Date, DateError>)
        ensures
            exists|reading: Option<u64>|
                r == #[trigger] Date::new_with_reading(date_str@, source, reading),
            !(Date::raw_spec(date_str@, source) is Ok && Date::raw_spec(date_str@, source)->Ok_0.year
                < 100) ==> r == Date::new_with_reading(date_str@, source, None),
            r is Ok ==> r->Ok_0.wf(),
    {
        match Date::read(date_str.as_str(), source) {
            Ok(date) => {
                if date.year >= 100 {
                    let r = date.complete(0);
                    assert(r == Date::new_with_reading(date_str@, source, None));
                    r
                } else {
                    let reading = clock_secs();
                    let r = match year_of_reading(reading) {
                        Some(year) => date.complete(year),
                        None => Err(DateError::NoClock),
                    };
                    assert(r == Date::new_with_reading(date_str@, source, reading));
                    r
                }
            },
            Err(e) => {
                assert(Err::<Date, DateError>(e) == Date::new_with_reading(date_str@, source, None));
                Err(e)
            },
        }
    }

    /// The date of a year.
    pub fn year(year: u32) -> (r: Result<Date, DateError>)
        ensures
            r == Ok::<Date, DateError>(
                Date { scope: DateScope::Year, year: year, month: None, day: None },
            ),
    {
        (Date { scope: DateScope::Year, year, month: None, day: None }).validate()
    }

    /// Checks the month and the day of a date.
    pub fn validate(self) -> (r: Result<Self, DateError>)
        requires
            self.wf(),
        ensures
            r == self.validate_spec(),
    {
        if let Some(month) = self.month {
            if month < 1 || month > 12 {
                return Err(DateError::InvalidMonth(month));
            }
        }
        if let Some(day) = self.day {
            let month = match self.month {
                Some(m) => m,
                None => 0,
            };
            if ((month == 1 || month == 3 || month == 5 || month == 6 || month == 7 || month == 10
                || month == 12) && day > 31) || ((month == 4 || month == 6 || month == 9 || month
                == 11) && day > 30) || (month == 2 && day > 29) {
                return Err(DateError::InvalidDay { day, month });
            }
        }
        Ok(self)
    }

    /// The date as text: day, month and year as far as the date has them,
    /// with `/` between.
    pub open spec fn format_spec(self) -> Seq<char> {
        let day = match self.day {
            Some(d) => nat_text(d as nat) + seq!['/'],
            None => seq![],
        };
        let month = match self.month {
            Some(m) => nat_text(m as nat) + seq!['/'],
            None => seq![],
        };
        day + month + nat_text(self.year as nat)
    }

    /// The date as text.
    pub fn format(&self) -> (r: String)
        ensures
            r@ == self.format_spec(),
    {
        let mut buf: Vec<char> = Vec::new();
        if let Some(day) = self.day {
            let digits = u128_text(day as u128);
            append_chars(&mut buf, digits.as_slice());
            buf.push('/');
        }
        if let Some(month) = self.month {
            let digits = u128_text(month as u128);
            append_chars(&mut buf, digits.as_slice());
            buf.push('/');
        }
        let digits = u128_text(self.year as u128);
        append_chars(&mut buf, digits.as_slice());
        assert(buf@ =~= self.format_spec());
        string_of(buf.as_slice())
    }

    /// Whether two dates are the same: they have the same scope and agree
    /// in the year and in the month and the day as far as the scope goes.
    pub open spec fn same_spec(self, other: Date) -> bool {
        &&& self.scope == other.scope
        &&& self.year == other.year
        &&& (self.month is Some && other.month is Some ==> self.month->0 == other.month->0)
        &&& (self.day is Some && other.day is Some ==> self.day->0 == other.day->0)
    }

    /// Whether two dates are the same.
    pub fn same(&self, other: &Date) -> (r: bool)
        ensures
            r == self.same_spec(*other),
    {
        if self.scope == other.scope {
            let mut eq = true;
            if self.year != other.year {
                eq = false;
            }
            if let (Some(a), Some(b)) = (self.month, other.month) {
                if a != b {
                    eq = false;
                }
            }
            if let (Some(a), Some(b)) = (self.day, other.day) {
                if a != b {
                    eq = false;
                }
            }
            eq
        } else {
            false
        }
    }

    /// The timestamp of the start of the date: of its first day where the
    /// date is a month or a year. `None` where the calendar has no such
    /// day.
    pub open spec fn timestamp_spec(self) -> Option<int> {
        if self.year > i32::MAX {
            None
        } else {
            unix_seconds(
                self.year as int,
                match self.month {
                    Some(m) => m as int,
                    None => 1,
                },
                match self.day {
                    Some(d) => d as int,
                    None => 1,
                },
            )
        }
    }

    /// The timestamp of the start of the date.
    pub fn unix_time(&self) -> (r: Option<i64>)
        ensures
            match r {
                Some(t) => self.timestamp_spec() == Some(t as int),
                None => self.timestamp_spec() is None,
            },
    {
        if self.year > 0x7fff_ffff {
            return None;
        }
        let month: u32 = match self.month {
            Some(m) => m as u32,
            None => 1,
        };
        let day: u32 = match self.day {
            Some(d) => d as u32,
            None => 1,
        };
        unix_time_of(self.year as i32, month, day)
    }

    /// How the date lies to `other`: equal where the two are the same,
    /// else greater or less by their timestamps, and `None` where they are
    /// not the same and begin at the same time, or one has no timestamp.
    pub open spec fn order_spec(self, other: Date) -> Option<DateOrder> {
        if self.same_spec(other) {
            Some(DateOrder::Equal)
        } else {
            match (self.timestamp_spec(), other.timestamp_spec()) {
                (Some(a), Some(b)) => if a > b {
                    Some(DateOrder::Greater)
                } else if a < b {
                    Some(DateOrder::Less)
                } else {
                    None
                },
                _ => None,
            }
        }
    }

    /// How the date lies to `other`.
    pub fn order(&self, other: &Date) -> (r: Option<DateOrder>)
        ensures
            r == self.order_spec(*other),
    {
        if self.same(other) {
            return Some(DateOrder::Equal);
        }
        match (self.unix_time(), other.unix_time()) {
            (Some(a), Some(b)) => if a > b {
                Some(DateOrder::Greater)
            } else if a < b {
                Some(DateOrder::Less)
            } else {
                None
            },
            _ => None,
        }
    }

    /// Whether the date begins before `other`; `None` where one of the two
    /// has no timestamp.
    pub fn lt(&self, other: &Date) -> (r: Option<bool>)
        ensures
            r == match (self.timestamp_spec(), other.timestamp_spec()) {
                (Some(a), Some(b)) => Some(a < b),
                _ => None,
            },
    {
        match (self.unix_time(), other.unix_time()) {
            (Some(a), Some(b)) => Some(a < b),
            _ => None,
        }
    }

    /// Whether the date begins no later than `other`.
    pub fn le(&self, other: &Date) -> (r: Option<bool>)
        ensures
            r == match (self.timestamp_spec(), other.timestamp_spec()) {
                (Some(a), Some(b)) => Some(a <= b),
                _ => None,
            },
    {
        match (self.unix_time(), other.unix_time()) {
            (Some(a), Some(b)) => Some(a <= b),
            _ => None,
        }
    }

    /// Whether the date begins after `other`.
    pub fn gt(&self, other: &Date) -> (r: Option<bool>)
        ensures
            r == match (self.timestamp_spec(), other.timestamp_spec()) {
                (Some(a), Some(b)) => Some(a > b),
                _ => None,
            },
    {
        match (self.unix_time(), other.unix_time()) {
            (Some(a), Some(b)) => Some(a > b),
            _ => None,
        }
    }

    /// Whether the date begins no earlier than `other`.
    pub fn ge(&self, other: &Date) -> (r: Option<bool>)
        ensures
            r == match (self.timestamp_spec(), other.timestamp_spec()) {
                (Some(a), Some(b)) => Some(a >= b),
                _ => None,
            },
    {
        match (self.unix_time(), other.unix_time()) {
            (Some(a), Some(b)) => Some(a >= b),
            _ => None,
        }
    }
}

} // verus!
