//! File time stamps and their calendar arithmetic.
use vstd::prelude::*;

verus! {

/// Errors converting a point in time to a calendar date.
#[derive(Clone, Copy, Debug, PartialEq, Eq, Structural)]
pub enum DateTimeError {
    /// The time is before 1970.
    Before1970,
    /// The year does not fit in 16 bits.
    YearTooLarge,
    /// A month or day came out of range.
    InternalOutOfRange,
}

/// A calendar date and time of day, as a file system stores it.
#[derive(Clone, Copy, Debug, PartialEq, Eq, Structural)]
pub struct FsDateTime {
    pub year: u16,
    pub month: u8,
    pub day: u8,
    pub hour: u8,
    pub minute: u8,
    pub second: u8,
    pub millisecond: u16,
}

impl Default for FsDateTime {
    /// Midnight of the first of January 1980.
    fn default() -> (r: Self)
        ensures
            r == (FsDateTime { year: 1980, month: 1, day: 1, hour: 0, minute: 0, second: 0, millisecond: 0 }),
    {
        FsDateTime { year: 1980, month: 1, day: 1, hour: 0, minute: 0, second: 0, millisecond: 0 }
    }
}

/// The proleptic Gregorian leap year rule.
pub open spec fn leap_spec(year: int) -> bool {
    year % 400 == 0 || (year % 100 != 0 && year % 4 == 0)
}

/// The number of days of a year.
pub open spec fn year_days_spec(year: int) -> int {
    if leap_spec(year) { 366 } else { 365 }
}

/// The number of days from the first of January 1970 to the first of January of `year`.
pub open spec fn days_before_year(year: int) -> int
    decreases year - 1970,
{
    if year <= 1970 {
        0
    } else {
        days_before_year(year - 1) + year_days_spec(year - 1)
    }
}

/// The number of days of month `m` (1 to 12) of a year, leap or not.
pub open spec fn month_len_spec(leap: bool, m: int) -> int {
    if m == 2 {
        if leap { 29 } else { 28 }
    } else if m == 4 || m == 6 || m == 9 || m == 11 {
        30
    } else {
        31
    }
}

/// The number of days of a year before month `m` (1 to 13).
pub open spec fn days_before_month(leap: bool, m: int) -> int
    decreases m,
{
    if m <= 1 {
        0
    } else {
        days_before_month(leap, m - 1) + month_len_spec(leap, m - 1)
    }
}

/// The year in which day `days` (counted from 0 at the first of January of `year`) falls, and
/// the day within that year; `None` past the end of year 65535.
pub open spec fn find_year(days: int, year: int) -> Option<(int, int)>
    decreases 65536 - year,
{
    if year > 65535 || days < 0 {
        None
    } else if days < year_days_spec(year) {
        Some((year, days))
    } else {
        find_year(days - year_days_spec(year), year + 1)
    }
}

/// The month in which day `doy` of a year falls (counting from month `m` on, `doy` counted
/// from its first day), and the day within that month, counted from 1.
pub open spec fn find_month(leap: bool, doy: int, m: int) -> Option<(int, int)>
    decreases 13 - m,
{
    if m > 12 || m < 1 || doy < 0 {
        None
    } else if doy < month_len_spec(leap, m) {
        Some((m, doy + 1))
    } else {
        find_month(leap, doy - month_len_spec(leap, m), m + 1)
    }
}

/// The calendar date and time `secs` seconds and `nanos` nanoseconds after the start of 1970.
pub open spec fn from_unix_spec(secs: nat, nanos: nat) -> Result<FsDateTime, DateTimeError> {
    let days = secs / 86400;
    let left = secs % 86400;
    match find_year(days as int, 1970) {
        None => Err(DateTimeError::YearTooLarge),
        Some((y, doy)) => match find_month(leap_spec(y), doy, 1) {
            None => Err(DateTimeError::InternalOutOfRange),
            Some((m, d)) => Ok(FsDateTime {
                year: y as u16,
                month: m as u8,
                day: d as u8,
                hour: (left / 3600) as u8,
                minute: (left % 3600 / 60) as u8,
                second: (left % 3600 % 60) as u8,
                millisecond: (nanos / 1000000) as u16,
            }),
        },
    }
}

/// Whether a date and time names a real moment from 1970 on.
pub open spec fn valid_date_time(dt: FsDateTime) -> bool {
    &&& dt.year >= 1970
    &&& 1 <= dt.month <= 12
    &&& 1 <= dt.day <= month_len_spec(leap_spec(dt.year as int), dt.month as int)
    &&& dt.hour < 24 && dt.minute < 60 && dt.second < 60 && dt.millisecond < 1000
}

/// The number of whole seconds from the start of 1970 to a date and time.
pub open spec fn unix_seconds(dt: FsDateTime) -> int {
    let days = days_before_year(dt.year as int) + days_before_month(leap_spec(dt.year as int), dt.month as int)
        + dt.day - 1;
    days * 86400 + dt.hour * 3600 + dt.minute * 60 + dt.second
}

/// A year found for a day count lies in range and the day lies within the year.
proof fn lemma_find_year_bounds(days: int, year: int)
    ensures
        find_year(days, year) matches Some((y, d)) ==> year <= y <= 65535 && 0 <= d < year_days_spec(y),
    decreases 65536 - year,
{
    if !(year > 65535 || days < 0) && days >= year_days_spec(year) {
        lemma_find_year_bounds(days - year_days_spec(year), year + 1);
    }
}

/// A month found for a day of the year lies in range and the day lies within the month.
proof fn lemma_find_month_bounds(leap: bool, doy: int, m: int)
    ensures
        find_month(leap, doy, m) matches Some((mm, d)) ==> m <= mm <= 12 && 1 <= d <= month_len_spec(leap, mm),
    decreases 13 - m,
{
    if !(m > 12 || m < 1 || doy < 0) && doy >= month_len_spec(leap, m) {
        lemma_find_month_bounds(leap, doy - month_len_spec(leap, m), m + 1);
    }
}

/// Standard proleptic Gregorian leap year rule.
fn is_leap_year(year: u16) -> (r: bool)
    ensures
        r == leap_spec(year as int),
{
    if year % 400 == 0 {
        true
    } else if year % 100 == 0 {
        false
    } else if year % 4 == 0 {
        true
    } else {
        false
    }
}

/// Number of days in a given year (365 or 366).
fn days_in_year(y: u16) -> (r: u16)
    ensures
        r == year_days_spec(y as int),
{
    if is_leap_year(y) {
        366
    } else {
        365
    }
}

/// Convert a number of days since 1970-01-01 into the year and the day within the year,
/// counted from 0. The year must fit in 16 bits.
fn days_to_ymd(days_since_1970: u64) -> (r: Result<(u16, u16), DateTimeError>)
    ensures
        match find_year(days_since_1970 as int, 1970) {
            None => r == Err::<(u16, u16), DateTimeError>(DateTimeError::YearTooLarge),
            Some((y, d)) => r == Ok::<(u16, u16), DateTimeError>((y as u16, d as u16)),
        },
{
    let mut days = days_since_1970;
    let mut year: u16 = 1970;
    loop
        invariant
            year >= 1970,
            find_year(days_since_1970 as int, 1970) == find_year(days as int, year as int),
        decreases 65536 - year,
    {
        let year_days = days_in_year(year) as u64;
        if days < year_days {
            return Ok((year, days as u16));
        }
        days -= year_days;
        if year == 65535 {
            proof { assert(find_year(days as int, 65536) is None); }
            return Err(DateTimeError::YearTooLarge);
        }
        year += 1;
    }
}

/// Convert a year and a day within it, counted from 0, into the month and the day of the
/// month, counted from 1. The day must lie within the year.
fn day_of_year_to_month_day(year: u16, day_of_year: u16) -> (r: Result<(u8, u8), DateTimeError>)
    ensures
        match find_month(leap_spec(year as int), day_of_year as int, 1) {
            None => r == Err::<(u8, u8), DateTimeError>(DateTimeError::InternalOutOfRange),
            Some((m, d)) => r == Ok::<(u8, u8), DateTimeError>((m as u8, d as u8)),
        },
{
    let leap = is_leap_year(year);
    let month_lengths: [u16; 12] = if leap {
        [31, 29, 31, 30, 31, 30, 31, 31, 30, 31, 30, 31]
    } else {
        [31, 28, 31, 30, 31, 30, 31, 31, 30, 31, 30, 31]
    };
    let mut leftover = day_of_year;
    let mut i: usize = 0;
    while i < 12
        invariant
            i <= 12,
            leftover <= day_of_year,
            forall|k: int| 0 <= k < 12 ==> month_lengths@[k] == month_len_spec(leap, k + 1),
            find_month(leap_spec(year as int), day_of_year as int, 1) == find_month(leap, leftover as int, i as int + 1),
            leap == leap_spec(year as int),
        decreases 12 - i,
    {
        let mlen = month_lengths[i];
        if leftover < mlen {
            return Ok(((i + 1) as u8, (leftover + 1) as u8));
        } else {
            leftover -= mlen;
        }
        i += 1;
    }
    Err(DateTimeError::InternalOutOfRange)
}

impl FsDateTime {
    /// The calendar date and time `total_secs` seconds and `nanos` nanoseconds after the start
    /// of 1970. Fails if the year does not fit in 16 bits.
    pub fn from_unix_time(total_secs: u64, nanos: u32) -> (r: Result<FsDateTime, DateTimeError>)
        requires
            nanos < 1_000_000_000,
        ensures
            r == from_unix_spec(total_secs as nat, nanos as nat),
    {
        let millis = nanos / 1_000_000;
        let days = total_secs / 86400;
        let mut leftover = total_secs % 86400;
        let hour = (leftover / 3600) as u8;
        leftover %= 3600;
        let minute = (leftover / 60) as u8;
        leftover %= 60;
        let second = leftover as u8;
        proof { lemma_find_year_bounds(days as int, 1970); }
        let (year, day_of_year) = days_to_ymd(days)?;
        proof {
            lemma_find_month_bounds(leap_spec(year as int), day_of_year as int, 1);
        }
        let (month, day) = day_of_year_to_month_day(year, day_of_year)?;
        Ok(FsDateTime { year, month, day, hour, minute, second, millisecond: millis as u16 })
    }
}

/// Day counts grow from year to year.
proof fn lemma_days_before_year_grows(a: int, b: int)
    requires
        1970 <= a <= b,
    ensures
        days_before_year(b) >= days_before_year(a),
    decreases b - a,
{
    if a < b {
        lemma_days_before_year_grows(a, b - 1);
    }
}

/// Counting from year `y0`, a day `doy` of year `y` is found in year `y`.
proof fn lemma_find_year_of(y0: int, y: int, doy: int)
    requires
        1970 <= y0 <= y <= 65535,
        0 <= doy < year_days_spec(y),
    ensures
        find_year(days_before_year(y) - days_before_year(y0) + doy, y0) == Some((y, doy)),
    decreases y - y0,
{
    if y0 < y {
        lemma_days_before_year_grows(y0 + 1, y);
        lemma_find_year_of(y0 + 1, y, doy);
    }
}

/// Counting from month `m0`, a day `d` of month `m` is found in month `m`.
proof fn lemma_find_month_of(leap: bool, m0: int, m: int, d: int)
    requires
        1 <= m0 <= m <= 12,
        1 <= d <= month_len_spec(leap, m),
    ensures
        find_month(leap, days_before_month(leap, m) - days_before_month(leap, m0) + d - 1, m0) == Some((m, d)),
    decreases m - m0,
{
    if m0 < m {
        lemma_find_month_of(leap, m0 + 1, m, d);
        lemma_days_before_month_grows(leap, m0 + 1, m);
    }
}

/// Day counts grow from month to month.
proof fn lemma_days_before_month_grows(leap: bool, a: int, b: int)
    requires
        1 <= a <= b,
    ensures
        days_before_month(leap, b) >= days_before_month(leap, a),
    decreases b - a,
{
    if a < b {
        lemma_days_before_month_grows(leap, a, b - 1);
    }
}

/// Converting a date and time to seconds since 1970 and back gives it back: for every valid
/// date and time `dt`, `from_unix_time(unix_seconds(dt), dt.millisecond * 1_000_000)` is `dt`.
pub proof fn lemma_unix_round_trip(dt: FsDateTime)
    requires
        valid_date_time(dt),
    ensures
        from_unix_spec(unix_seconds(dt) as nat, dt.millisecond as nat * 1_000_000) == Ok::<FsDateTime, DateTimeError>(dt),
{
    let y = dt.year as int;
    let leap = leap_spec(y);
    let doy = days_before_month(leap, dt.month as int) + dt.day - 1;
    lemma_days_before_month_grows(leap, 1, dt.month as int);
    lemma_days_before_month_grows(leap, dt.month as int + 1, 13);
    assert(days_before_month(leap, 13) == year_days_spec(y)) by {
        reveal_with_fuel(days_before_month, 13);
    }
    assert(doy < year_days_spec(y));
    let days = days_before_year(y) + doy;
    lemma_find_year_of(1970, y, doy);
    lemma_find_month_of(leap, 1, dt.month as int, dt.day as int);
    let rest = dt.hour * 3600 + dt.minute * 60 + dt.second;
    let secs = unix_seconds(dt);
    assert(secs == days * 86400 + rest);
    assert(0 <= rest < 86400);
    lemma_days_before_year_grows(1970, y);
    vstd::arithmetic::div_mod::lemma_fundamental_div_mod_converse(secs, 86400, days, rest);
    vstd::arithmetic::div_mod::lemma_fundamental_div_mod_converse(rest, 3600, dt.hour as int, dt.minute * 60 + dt.second);
    vstd::arithmetic::div_mod::lemma_fundamental_div_mod_converse(dt.minute * 60 + dt.second, 60, dt.minute as int, dt.second as int);
    vstd::arithmetic::div_mod::lemma_fundamental_div_mod_converse(dt.millisecond * 1_000_000, 1_000_000, dt.millisecond as int, 0);
}

} // verus!
