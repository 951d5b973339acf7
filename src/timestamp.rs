//! Calendar timestamps, read from the fixed pattern `YYYY-MM-DD HH:MM:SS` and
//! taken as UTC.
use vstd::prelude::*;
use chrono::{NaiveDate, NaiveTime};
use crate::error::Error;
use crate::text::{chars_of, char_is_digit, is_digit};

verus! {

#[verifier::external_type_specification]
#[verifier::external_body]
pub struct ExNaiveDate(NaiveDate);

#[verifier::external_type_specification]
#[verifier::external_body]
pub struct ExNaiveTime(NaiveTime);

pub open spec fn is_leap_year(y: int) -> bool {
    (y % 4 == 0 && y % 100 != 0) || y % 400 == 0
}

/// Number of days of month `m` (1 to 12) of year `y` in the proleptic
/// Gregorian calendar.
pub open spec fn days_in_month(y: int, m: int) -> int {
    if m == 2 {
        if is_leap_year(y) {
            29
        } else {
            28
        }
    } else if m == 4 || m == 6 || m == 9 || m == 11 {
        30
    } else {
        31
    }
}

pub open spec fn is_calendar_date(y: int, m: int, d: int) -> bool {
    1 <= m <= 12 && 1 <= d <= days_in_month(y, m)
}

/// Relies on chrono's `NaiveDate::from_ymd_opt`: for a year in chrono's
/// range, it gives a date exactly when month and day name an existing
/// calendar day.
pub assume_specification[ NaiveDate::from_ymd_opt ](year: i32, month: u32, day: u32) -> (r: Option<NaiveDate>)
    ensures
        0 <= year <= 9999 ==> (r is Some <==> is_calendar_date(year as int, month as int, day as int)),
;

/// Relies on chrono's `NaiveTime::from_hms_opt`: it gives a time exactly when
/// hour, minute and second are in range.
pub assume_specification[ NaiveTime::from_hms_opt ](hour: u32, min: u32, sec: u32) -> (r: Option<NaiveTime>)
    ensures
        r is Some <==> (hour < 24 && min < 60 && sec < 60),
;

/// A point in time, to the second, in UTC.
#[derive(Debug, Clone, Copy, PartialEq, Eq)]
pub struct Timestamp {
    pub year: u32,
    pub month: u32,
    pub day: u32,
    pub hour: u32,
    pub minute: u32,
    pub second: u32,
}

impl Timestamp {
    /// A four-digit year, an existing calendar day and a time of day.
    pub open spec fn wf(&self) -> bool {
        &&& self.year <= 9999
        &&& is_calendar_date(self.year as int, self.month as int, self.day as int)
        &&& self.hour < 24
        &&& self.minute < 60
        &&& self.second < 60
    }
}

pub open spec fn digit_value(c: char) -> int {
    c as int - '0' as int
}

pub open spec fn two_digits(s: Seq<char>, i: int) -> int {
    digit_value(s[i]) * 10 + digit_value(s[i + 1])
}

pub open spec fn four_digits(s: Seq<char>, i: int) -> int {
    two_digits(s, i) * 100 + two_digits(s, i + 2)
}

/// `s` from position `i` has the shape `DDDD-DD-DD` (D a decimal digit).
pub open spec fn date_shape_at(s: Seq<char>, i: int) -> bool {
    &&& 0 <= i && i + 10 <= s.len()
    &&& forall|k: int| 0 <= k < 10 && k != 4 && k != 7 ==> is_digit(#[trigger] s[i + k])
    &&& s[i + 4] == '-'
    &&& s[i + 7] == '-'
}

/// `s` from position `i` has the shape `DD:DD:DD`.
pub open spec fn time_shape_at(s: Seq<char>, i: int) -> bool {
    &&& 0 <= i && i + 8 <= s.len()
    &&& forall|k: int| 0 <= k < 8 && k != 2 && k != 5 ==> is_digit(#[trigger] s[i + k])
    &&& s[i + 2] == ':'
    &&& s[i + 5] == ':'
}

/// The timestamp written by the date at `d` and the time at `t` of `s`.
pub open spec fn timestamp_at(s: Seq<char>, d: int, t: int) -> Timestamp {
    Timestamp {
        year: four_digits(s, d) as u32,
        month: two_digits(s, d + 5) as u32,
        day: two_digits(s, d + 8) as u32,
        hour: two_digits(s, t) as u32,
        minute: two_digits(s, t + 3) as u32,
        second: two_digits(s, t + 6) as u32,
    }
}

/// The date at `d` and the time at `t` of `s` have the fixed pattern and
/// name an existing day and a valid time of day.
pub open spec fn valid_timestamp_at(s: Seq<char>, d: int, t: int) -> bool {
    date_shape_at(s, d) && time_shape_at(s, t) && timestamp_at(s, d, t).wf()
}

/// `date` reads `YYYY-MM-DD` and `time` reads `HH:MM:SS`, naming an existing
/// day and a valid time of day.
pub open spec fn valid_timestamp(date: Seq<char>, time: Seq<char>) -> bool {
    date.len() == 10 && time.len() == 8 && valid_timestamp_at(date + time, 0, 10)
}

/// The timestamp that `date` and `time` write.
pub open spec fn timestamp_of(date: Seq<char>, time: Seq<char>) -> Timestamp {
    timestamp_at(date + time, 0, 10)
}

fn digit_at(cs: &Vec<char>, i: usize) -> (r: u32)
    requires
        i < cs@.len(),
        is_digit(cs@[i as int]),
    ensures
        r as int == digit_value(cs@[i as int]),
        r < 10,
{
    (cs[i] as u32) - ('0' as u32)
}

fn two_digits_at(cs: &Vec<char>, i: usize) -> (r: u32)
    requires
        i + 1 < cs@.len() <= usize::MAX,
        is_digit(cs@[i as int]),
        is_digit(cs@[i + 1]),
    ensures
        r as int == two_digits(cs@, i as int),
        r < 100,
{
    digit_at(cs, i) * 10 + digit_at(cs, i + 1)
}

/// Reads the timestamp whose date starts at `d` and whose time starts at `t`
/// in `cs`; `None` where the text breaks the pattern or names no valid point
/// in time.
pub fn timestamp_from_chars(cs: &Vec<char>, d: usize, t: usize) -> (r: Option<Timestamp>)
    ensures
        r is Some <==> valid_timestamp_at(cs@, d as int, t as int),
        r is Some ==> r->Some_0 == timestamp_at(cs@, d as int, t as int) && r->Some_0.wf(),
{
    let n = cs.len();
    if d > n || n - d < 10 || t > n || n - t < 8 {
        return None;
    }
    let mut k: usize = 0;
    while k < 10
        invariant
            d + 10 <= cs@.len() == n,
            k <= 10,
            forall|m: int| 0 <= m < k && m != 4 && m != 7 ==> is_digit(#[trigger] cs@[d + m]),
        decreases 10 - k,
    {
        if k != 4 && k != 7 && !char_is_digit(cs[d + k]) {
            assert(!is_digit(cs@[d + k]));
            return None;
        }
        k = k + 1;
    }
    if cs[d + 4] != '-' || cs[d + 7] != '-' {
        return None;
    }
    let mut k: usize = 0;
    while k < 8
        invariant
            t + 8 <= cs@.len() == n,
            k <= 8,
            forall|m: int| 0 <= m < k && m != 2 && m != 5 ==> is_digit(#[trigger] cs@[t + m]),
        decreases 8 - k,
    {
        if k != 2 && k != 5 && !char_is_digit(cs[t + k]) {
            assert(!is_digit(cs@[t + k]));
            return None;
        }
        k = k + 1;
    }
    if cs[t + 2] != ':' || cs[t + 5] != ':' {
        return None;
    }
    assert(is_digit(cs@[d + 0]) && is_digit(cs@[d + 1]) && is_digit(cs@[d + 2]) && is_digit(cs@[d + 3]));
    assert(is_digit(cs@[d + 5]) && is_digit(cs@[d + 6]) && is_digit(cs@[d + 8]) && is_digit(cs@[d + 9]));
    assert(is_digit(cs@[t + 0]) && is_digit(cs@[t + 1]) && is_digit(cs@[t + 3]) && is_digit(cs@[t + 4]));
    assert(is_digit(cs@[t + 6]) && is_digit(cs@[t + 7]));
    let year = two_digits_at(cs, d) * 100 + two_digits_at(cs, d + 2);
    let month = two_digits_at(cs, d + 5);
    let day = two_digits_at(cs, d + 8);
    let hour = two_digits_at(cs, t);
    let minute = two_digits_at(cs, t + 3);
    let second = two_digits_at(cs, t + 6);
    let ts = Timestamp { year, month, day, hour, minute, second };
    assert(ts == timestamp_at(cs@, d as int, t as int));
    if NaiveDate::from_ymd_opt(year as i32, month, day).is_none() {
        return None;
    }
    if NaiveTime::from_hms_opt(hour, minute, second).is_none() {
        return None;
    }
    Some(ts)
}

/// Reads a timestamp from a date token `YYYY-MM-DD` and a time token
/// `HH:MM:SS`, taken as UTC. Anything else, or a day or time that does not
/// exist, is a parse failure.
pub fn parse_timestamp(date: &str, time: &str) -> (r: Result<Timestamp, Error>)
    ensures
        r is Ok <==> valid_timestamp(date@, time@),
        r is Ok ==> r->Ok_0 == timestamp_of(date@, time@) && r->Ok_0.wf(),
        r is Err ==> r->Err_0 is NixOutputParseFailed,
{
    let mut cs = chars_of(date);
    let n = cs.len();
    let mut tc = chars_of(time);
    cs.append(&mut tc);
    if n != 10 || cs.len() != 18 {
        return Err(Error::NixOutputParseFailed("invalid timestamp".to_string()));
    }
    match timestamp_from_chars(&cs, 0, 10) {
        Some(ts) => Ok(ts),
        None => Err(Error::NixOutputParseFailed("invalid timestamp".to_string())),
    }
}

} // verus!
