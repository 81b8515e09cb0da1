//! Feature engineering on trip records: the pickup timestamp
//! `YYYY-MM-DD HH:MM:SS UTC` becomes the pickup hour, weekday and half of the
//! day, in New York local time.
use vstd::prelude::*;
use vstd::arithmetic::div_mod::{lemma_hoist_over_denominator, lemma_mod_multiples_vanish};
use vstd::string::StringSliceAdditionalSpecFns;
use vstd::utf8::encode_utf8;

use crate::error::DataError;
use chrono::{Offset, TimeZone};

verus! {

/// Length in bytes of a pickup timestamp.
pub const TIMESTAMP_LEN: usize = 23;

/// Days from 0000-01-01 to 1970-01-01 in the proleptic Gregorian calendar.
pub const DAYS_TO_UNIX_EPOCH: u64 = 719528;

pub const SECONDS_PER_DAY: u64 = 86400;

/// 1970-01-01 was a Thursday; weekdays count from Monday = 0.
pub const EPOCH_WEEKDAY: u64 = 3;

pub open spec fn is_digit(c: u8) -> bool {
    48 <= c <= 57
}

pub open spec fn digit_value(c: u8) -> nat {
    (c - 48) as nat
}

/// Whether `b[start .. start + len]` are all ASCII digits.
pub open spec fn digits_at(b: Seq<u8>, start: int, len: nat) -> bool {
    forall|k: int| start <= k < start + len ==> is_digit(#[trigger] b[k])
}

/// The decimal number written by `b[start .. start + len]`.
pub open spec fn number_at(b: Seq<u8>, start: int, len: nat) -> nat
    decreases len,
{
    if len == 0 {
        0
    } else {
        number_at(b, start, (len - 1) as nat) * 10 + digit_value(b[start + len - 1])
    }
}

pub open spec fn pow10(n: nat) -> nat
    decreases n,
{
    if n == 0 {
        1
    } else {
        10 * pow10((n - 1) as nat)
    }
}

pub open spec fn is_leap_year(year: nat) -> bool {
    (year % 4 == 0 && year % 100 != 0) || year % 400 == 0
}

pub open spec fn days_in_month(year: nat, month: nat) -> nat {
    if month == 2 {
        if is_leap_year(year) {
            29
        } else {
            28
        }
    } else if month == 4 || month == 6 || month == 9 || month == 11 {
        30
    } else {
        31
    }
}

/// A calendar date and time of day in UTC.
#[derive(Debug, Clone, Copy, PartialEq, Eq, Structural)]
pub struct UtcDateTime {
    pub year: u16,
    pub month: u8,
    pub day: u8,
    pub hour: u8,
    pub minute: u8,
    pub second: u8,
}

pub open spec fn is_valid_date_time(t: UtcDateTime) -> bool {
    &&& 1 <= t.month <= 12
    &&& 1 <= t.day <= days_in_month(t.year as nat, t.month as nat)
    &&& t.hour < 24
    &&& t.minute < 60
    &&& t.second < 60
}

/// The bytes have the shape `DDDD-DD-DD DD:DD:DD UTC`, each `D` a digit.
pub open spec fn has_timestamp_layout(b: Seq<u8>) -> bool {
    &&& b.len() == TIMESTAMP_LEN
    &&& digits_at(b, 0, 4) && b[4] == 45 && digits_at(b, 5, 2) && b[7] == 45 && digits_at(b, 8, 2)
    &&& b[10] == 32 && digits_at(b, 11, 2) && b[13] == 58 && digits_at(b, 14, 2) && b[16] == 58
        && digits_at(b, 17, 2)
    &&& b[19] == 32 && b[20] == 85 && b[21] == 84 && b[22] == 67
}

/// The fields written in a timestamp of that shape.
pub open spec fn timestamp_fields(b: Seq<u8>) -> UtcDateTime {
    UtcDateTime {
        year: number_at(b, 0, 4) as u16,
        month: number_at(b, 5, 2) as u8,
        day: number_at(b, 8, 2) as u8,
        hour: number_at(b, 11, 2) as u8,
        minute: number_at(b, 14, 2) as u8,
        second: number_at(b, 17, 2) as u8,
    }
}

/// Whether `b` is a well-formed pickup timestamp naming a real date and time.
pub open spec fn is_timestamp(b: Seq<u8>) -> bool {
    has_timestamp_layout(b) && is_valid_date_time(timestamp_fields(b))
}

/// Days from 0000-01-01 to the first day of `year`: 365 for each year, and
/// one more for each leap year before it.
pub open spec fn days_before_year(year: int) -> int {
    365 * year + (year + 3) / 4 - (year + 99) / 100 + (year + 399) / 400
}

/// Days of `year` before the first day of `month`.
pub open spec fn days_before_month(year: nat, month: nat) -> int {
    let common: int = if month <= 1 {
        0
    } else if month == 2 {
        31
    } else if month == 3 {
        59
    } else if month == 4 {
        90
    } else if month == 5 {
        120
    } else if month == 6 {
        151
    } else if month == 7 {
        181
    } else if month == 8 {
        212
    } else if month == 9 {
        243
    } else if month == 10 {
        273
    } else if month == 11 {
        304
    } else {
        334
    };
    if month > 2 && is_leap_year(year) {
        common + 1
    } else {
        common
    }
}

/// Seconds from 1970-01-01 00:00:00 UTC to `t`.
pub open spec fn unix_seconds_of(t: UtcDateTime) -> int {
    let days = days_before_year(t.year as int) + days_before_month(t.year as nat, t.month as nat)
        + t.day - 1 - DAYS_TO_UNIX_EPOCH;
    days * SECONDS_PER_DAY + t.hour * 3600 + t.minute * 60 + t.second
}

/// Hour, weekday (Monday = 0) and half of the day (1 from noon) of the pickup.
#[derive(Debug, Clone, Copy, PartialEq, Eq, Structural)]
pub struct TimeFeatures {
    pub pickup_hour: u8,
    pub pickup_weekday: u8,
    pub am_or_pm: u8,
}

/// The features of the instant `utc_seconds` seen on a clock running
/// `offset_seconds` ahead of UTC.
pub open spec fn time_features_at(utc_seconds: int, offset_seconds: int) -> TimeFeatures {
    let local = utc_seconds + offset_seconds;
    let hour = (local % SECONDS_PER_DAY as int) / 3600;
    TimeFeatures {
        pickup_hour: hour as u8,
        pickup_weekday: ((local / SECONDS_PER_DAY as int + EPOCH_WEEKDAY) % 7) as u8,
        am_or_pm: if hour >= 12 {
            1
        } else {
            0
        },
    }
}

/// UTC offset in seconds of New York local time at the given instant.
pub uninterp spec fn new_york_offset_of(utc_seconds: int) -> int;

/// Relies on chrono-tz's `America::New_York` through chrono's
/// `TimeZone::offset_from_utc_datetime`: the offset of New York local time at
/// an instant, which depends on the instant alone. `TimeDelta::seconds` and
/// the addition to the epoch panic only beyond about 262,000 years, which
/// `requires` leaves out.
#[verifier::external_body]
fn new_york_offset(utc_seconds: i64) -> (r: i32)
    requires
        -8_000_000_000_000 <= utc_seconds <= 8_000_000_000_000,
    ensures
        r == new_york_offset_of(utc_seconds as int),
{
    let instant = chrono::DateTime::UNIX_EPOCH + chrono::TimeDelta::seconds(utc_seconds);
    chrono_tz::America::New_York.offset_from_utc_datetime(&instant.naive_utc()).fix().local_minus_utc()
}

/// The pickup features of a well-formed timestamp, in New York local time.
pub open spec fn pickup_features_of(b: Seq<u8>) -> TimeFeatures {
    let utc = unix_seconds_of(timestamp_fields(b));
    time_features_at(utc, new_york_offset_of(utc))
}

/// Reads the decimal number in `b[start .. start + len]`; `None` when one of
/// those bytes is not a digit.
fn read_number(b: &[u8], start: usize, len: usize) -> (r: Option<u32>)
    requires
        start + len <= b@.len(),
        start + len <= TIMESTAMP_LEN,
        len <= 4,
    ensures
        r is Some <==> digits_at(b@, start as int, len as nat),
        r matches Some(v) ==> v == number_at(b@, start as int, len as nat) && v < pow10(
            len as nat,
        ),
{
    let mut v: u32 = 0;
    let mut i: usize = 0;
    while i < len
        invariant
            i <= len,
            start + len <= b@.len(),
            start + len <= TIMESTAMP_LEN,
            len <= 4,
            digits_at(b@, start as int, i as nat),
            v == number_at(b@, start as int, i as nat),
            v < pow10(i as nat),
        decreases len - i,
    {
        let c = b[start + i];
        if c < 48 || c > 57 {
            assert(!is_digit(b@[start + i]));
            return None;
        }
        assert(pow10(0) == 1);
        assert(pow10(1) == 10);
        assert(pow10(2) == 100);
        assert(pow10(3) == 1000);
        proof {
            let p = pow10(i as nat);
            assert(v * 10 + 9 < p * 10) by (nonlinear_arith)
                requires
                    v < p,
            ;
        }
        v = v * 10 + (c - 48) as u32;
        i = i + 1;
    }
    Some(v)
}

/// Days in `month` of `year`.
fn month_length(year: u16, month: u8) -> (r: u8)
    ensures
        r == days_in_month(year as nat, month as nat),
{
    if month == 2 {
        if (year % 4 == 0 && year % 100 != 0) || year % 400 == 0 {
            29
        } else {
            28
        }
    } else if month == 4 || month == 6 || month == 9 || month == 11 {
        30
    } else {
        31
    }
}

/// Reads a timestamp of the form `YYYY-MM-DD HH:MM:SS UTC`. `None` when the
/// text has another shape or names no real date and time.
pub fn parse_timestamp(s: &str) -> (r: Option<UtcDateTime>)
    ensures
        r is Some <==> is_timestamp(s.spec_bytes()),
        r matches Some(t) ==> t == timestamp_fields(s.spec_bytes()),
{
    let b = s.as_bytes();
    if b.len() != TIMESTAMP_LEN {
        return None;
    }
    if b[4] != 45 || b[7] != 45 || b[10] != 32 || b[13] != 58 || b[16] != 58 || b[19] != 32
        || b[20] != 85 || b[21] != 84 || b[22] != 67 {
        return None;
    }
    let year = match read_number(b, 0, 4) {
        Some(v) => v,
        None => return None,
    };
    let month = match read_number(b, 5, 2) {
        Some(v) => v,
        None => return None,
    };
    let day = match read_number(b, 8, 2) {
        Some(v) => v,
        None => return None,
    };
    let hour = match read_number(b, 11, 2) {
        Some(v) => v,
        None => return None,
    };
    let minute = match read_number(b, 14, 2) {
        Some(v) => v,
        None => return None,
    };
    let second = match read_number(b, 17, 2) {
        Some(v) => v,
        None => return None,
    };
    assert(pow10(4) == 10000 && pow10(2) == 100) by {
        assert(pow10(0) == 1);
        assert(pow10(1) == 10);
        assert(pow10(2) == 100);
        assert(pow10(3) == 1000);
    }
    let t = UtcDateTime {
        year: year as u16,
        month: month as u8,
        day: day as u8,
        hour: hour as u8,
        minute: minute as u8,
        second: second as u8,
    };
    assert(t == timestamp_fields(b@));
    if t.month < 1 || t.month > 12 || t.day < 1 || t.day > month_length(t.year, t.month)
        || t.hour >= 24 || t.minute >= 60 || t.second >= 60 {
        return None;
    }
    Some(t)
}

/// Seconds from 1970-01-01 00:00:00 UTC to `t`.
pub fn unix_seconds(t: &UtcDateTime) -> (r: i64)
    ensures
        r == unix_seconds_of(*t),
{
    let y = t.year as u64;
    let m = t.month as u64;
    let before_year: u64 = 365 * y + (y + 3) / 4 - (y + 99) / 100 + (y + 399) / 400;
    let common: u64 = if m <= 1 {
        0
    } else if m == 2 {
        31
    } else if m == 3 {
        59
    } else if m == 4 {
        90
    } else if m == 5 {
        120
    } else if m == 6 {
        151
    } else if m == 7 {
        181
    } else if m == 8 {
        212
    } else if m == 9 {
        243
    } else if m == 10 {
        273
    } else if m == 11 {
        304
    } else {
        334
    };
    let leap = (y % 4 == 0 && y % 100 != 0) || y % 400 == 0;
    let before_month: u64 = if m > 2 && leap {
        common + 1
    } else {
        common
    };
    let days: i64 = (before_year + before_month + t.day as u64) as i64 - 1
        - DAYS_TO_UNIX_EPOCH as i64;
    days * SECONDS_PER_DAY as i64 + t.hour as i64 * 3600 + t.minute as i64 * 60 + t.second as i64
}

/// A multiple of a week in seconds, large enough that adding it to any
/// `i64` instant plus any `i32` offset gives a non-negative number.
pub const WEEK_ALIGNED_SHIFT: u128 = 9223372039002710400;

/// Pickup features of the instant `utc_seconds` on a clock `offset_seconds`
/// ahead of UTC.
pub fn local_time_features(utc_seconds: i64, offset_seconds: i32) -> (r: TimeFeatures)
    ensures
        r == time_features_at(utc_seconds as int, offset_seconds as int),
{
    let ghost local = utc_seconds as int + offset_seconds as int;
    let shifted: i128 = utc_seconds as i128 + offset_seconds as i128 + WEEK_ALIGNED_SHIFT as i128;
    let t = shifted as u128;
    let of_day = t % SECONDS_PER_DAY as u128;
    let hour = of_day / 3600;
    let day = t / SECONDS_PER_DAY as u128;
    let weekday = (day + EPOCH_WEEKDAY as u128) % 7;
    proof {
        let k: int = 15250284456023;
        assert(WEEK_ALIGNED_SHIFT == 86400 * (7 * k));
        lemma_mod_multiples_vanish(7 * k, local, 86400);
        assert(86400 * (7 * k) + local == t);
        lemma_hoist_over_denominator(local, 7 * k, 86400);
        assert(local + (7 * k) * 86400 == t);
        lemma_mod_multiples_vanish(k, local / 86400 + 3, 7);
        assert(7 * k + (local / 86400 + 3) == day + 3);
    }
    TimeFeatures {
        pickup_hour: hour as u8,
        pickup_weekday: weekday as u8,
        am_or_pm: if hour >= 12 {
            1
        } else {
            0
        },
    }
}

/// Pickup features of a timestamp `YYYY-MM-DD HH:MM:SS UTC`, in New York
/// local time; `None` when the text is no such timestamp.
pub fn time_features(s: &str) -> (r: Option<TimeFeatures>)
    ensures
        r is Some <==> is_timestamp(s.spec_bytes()),
        r matches Some(f) ==> f == pickup_features_of(s.spec_bytes()),
{
    let t = match parse_timestamp(s) {
        Some(t) => t,
        None => return None,
    };
    let utc = unix_seconds(&t);
    let offset = new_york_offset(utc);
    Some(local_time_features(utc, offset))
}

/// Whether the text of `s` is a well-formed pickup timestamp.
pub open spec fn is_timestamp_text(s: Seq<char>) -> bool {
    is_timestamp(encode_utf8(s))
}

/// Pickup features of every row, in row order. The first row whose timestamp
/// is malformed fails the whole load.
pub fn pickup_time_features(timestamps: &Vec<String>) -> (r: Result<Vec<TimeFeatures>, DataError>)
    ensures
        r is Ok <==> forall|i: int|
            0 <= i < timestamps@.len() ==> is_timestamp_text(#[trigger] timestamps@[i]@),
        r matches Ok(v) ==> v@.len() == timestamps@.len() && forall|i: int|
            0 <= i < timestamps@.len() ==> #[trigger] v@[i] == pickup_features_of(
                encode_utf8(timestamps@[i]@),
            ),
        r matches Err(e) ==> e matches DataError::MalformedTimestamp { row } && row
            < timestamps@.len() && !is_timestamp_text(timestamps@[row as int]@) && forall|i: int|
            0 <= i < row ==> is_timestamp_text(#[trigger] timestamps@[i]@),
{
    let mut out: Vec<TimeFeatures> = Vec::new();
    let mut i: usize = 0;
    while i < timestamps.len()
        invariant
            i <= timestamps@.len(),
            out@.len() == i,
            forall|j: int| 0 <= j < i ==> is_timestamp_text(#[trigger] timestamps@[j]@),
            forall|j: int|
                0 <= j < i ==> #[trigger] out@[j] == pickup_features_of(
                    encode_utf8(timestamps@[j]@),
                ),
        decreases timestamps@.len() - i,
    {
        match time_features(timestamps[i].as_str()) {
            Some(f) => out.push(f),
            None => return Err(DataError::MalformedTimestamp { row: i }),
        }
        i = i + 1;
    }
    Ok(out)
}

} // verus!
