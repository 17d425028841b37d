//! Calendar times stored in FAT16 directory entries.

use vstd::prelude::*;
use vstd::arithmetic::div_mod::lemma_fundamental_div_mod_converse;

use chrono::{Datelike, TimeZone, Timelike};

verus! {

/// A UTC date and time of day, to the second.
#[derive(Debug, Clone, Copy, PartialEq, Eq, Structural)]
pub struct FsTime {
    pub year: i32,
    pub month: u32,
    pub day: u32,
    pub hour: u32,
    pub minute: u32,
    pub second: u32,
}

/// A UTC date and time to the millisecond: the date and time to the second,
/// and the milliseconds into that second.
#[derive(Debug, Clone, Copy, PartialEq, Eq, Structural)]
pub struct UtcMillis {
    pub time: FsTime,
    pub millis: u32,
}

/// Whether `year` is a leap year of the proleptic Gregorian calendar.
pub open spec fn is_leap_year(year: int) -> bool {
    year % 4 == 0 && (year % 100 != 0 || year % 400 == 0)
}

/// The number of days in `month` (1 to 12) of `year`.
pub open spec fn days_in_month(year: int, month: int) -> int {
    if month == 2 {
        if is_leap_year(year) {
            29
        } else {
            28
        }
    } else if month == 4 || month == 6 || month == 9 || month == 11 {
        30
    } else {
        31
    }
}

/// Whether the fields name a real calendar day and a time of day whose
/// second is below 60.
pub open spec fn is_valid_datetime(
    year: int,
    month: int,
    day: int,
    hour: int,
    minute: int,
    second: int,
) -> bool {
    &&& 1 <= month <= 12
    &&& 1 <= day <= days_in_month(year, month)
    &&& 0 <= hour < 24
    &&& 0 <= minute < 60
    &&& 0 <= second < 60
}

/// The time of the UNIX epoch, 1970-01-01 00:00:00 UTC.
pub open spec fn epoch() -> FsTime {
    FsTime { year: 1970, month: 1, day: 1, hour: 0, minute: 0, second: 0 }
}

/// Calls chrono's `Utc.with_ymd_and_hms`. chrono builds the date with
/// `NaiveDate::from_ymd_opt` and the time with `NaiveTime::from_hms_opt`
/// (hour below 24, minute and second below 60) and, in UTC, maps every such
/// local time to exactly one instant; so the call yields one time, holding
/// exactly the given fields, when they name a real date and time, and none
/// otherwise. The years admitted here lie well inside chrono's range.
#[verifier::external_body]
fn utc_with_ymd_and_hms(year: i32, month: u32, day: u32, hour: u32, minute: u32, second: u32) -> (r:
    Option<FsTime>)
    requires
        0 <= year <= 9999,
    ensures
        r is Some <==> is_valid_datetime(
            year as int,
            month as int,
            day as int,
            hour as int,
            minute as int,
            second as int,
        ),
        r is Some ==> r == Some(FsTime { year, month, day, hour, minute, second }),
{
    match chrono::Utc.with_ymd_and_hms(year, month, day, hour, minute, second) {
        chrono::LocalResult::Single(t) => Some(
            FsTime {
                year: t.year(),
                month: t.month(),
                day: t.day(),
                hour: t.hour(),
                minute: t.minute(),
                second: t.second(),
            },
        ),
        _ => None,
    }
}

/// The UTC date and time, to the second, that chrono reads from a timestamp
/// of `millis` milliseconds after the UNIX epoch.
pub uninterp spec fn utc_of_millis(millis: int) -> FsTime;

/// The days from 1970-01-01 to a date of the proleptic Gregorian calendar,
/// counted by whole eras of 400 years (146097 days), each begun on 1 March so
/// that a leap day ends its year.
pub open spec fn days_from_civil(year: int, month: int, day: int) -> int {
    let y = if month <= 2 { year - 1 } else { year };
    let era = y / 400;
    let yoe = y - era * 400;
    let mp = if month > 2 { month - 3 } else { month + 9 };
    let doy = (153 * mp + 2) / 5 + day - 1;
    let doe = yoe * 365 + yoe / 4 - yoe / 100 + doy;
    era * 146097 + doe - 719468
}

/// The timestamp in milliseconds of a UTC date and time with `nano`
/// nanoseconds into its second: whole days and seconds since the epoch, and
/// the milliseconds of `nano` (past 999 in a leap second).
pub open spec fn millis_of_utc(
    year: int,
    month: int,
    day: int,
    hour: int,
    minute: int,
    second: int,
    nano: int,
) -> int {
    (days_from_civil(year, month, day) * 86_400 + hour * 3600 + minute * 60 + second) * 1000 + nano
        / 1_000_000
}

/// The most milliseconds from the epoch, either way, that a timestamp is read
/// from here: about 253,000 years, inside chrono's range of dates.
pub const MAX_TIMESTAMP_MILLIS: i64 = 8_000_000_000_000_000;

/// Whether `t` names a real date and time.
pub open spec fn is_valid_time(t: FsTime) -> bool {
    is_valid_datetime(
        t.year as int,
        t.month as int,
        t.day as int,
        t.hour as int,
        t.minute as int,
        t.second as int,
    )
}

/// The timestamp in milliseconds of the start of the second `t`.
pub open spec fn time_millis(t: FsTime) -> int {
    millis_of_utc(
        t.year as int,
        t.month as int,
        t.day as int,
        t.hour as int,
        t.minute as int,
        t.second as int,
        0,
    )
}

/// Calls chrono's `DateTime::from_timestamp_millis`, which reads a UTC date
/// and time from milliseconds after the epoch, and its
/// `timestamp_subsec_millis`. chrono yields a date and time for every
/// timestamp within its range of dates, for the timestamp 0 the epoch,
/// 1970-01-01 00:00:00; it splits the timestamp with `div_euclid(1000)` and
/// keeps `rem_euclid(1000)` milliseconds into the second, which
/// `timestamp_subsec_millis` gives back. The whole seconds it splits again
/// into days (with `div_euclid(86_400)`), which `NaiveDate` turns into a real
/// date by the days counted from the common era, and the seconds of that day,
/// which `NaiveTime` turns into hours, minutes and seconds: so the date and
/// time it yields is a real one, at the start of which the timestamp, counted
/// back, lies. That date and time also bears the name `utc_of_millis`.
#[verifier::external_body]
fn utc_from_timestamp_millis(millis: i64) -> (r: Option<UtcMillis>)
    requires
        -MAX_TIMESTAMP_MILLIS <= millis <= MAX_TIMESTAMP_MILLIS,
    ensures
        r is Some,
        r->0.time == utc_of_millis(millis as int),
        r->0.millis == millis as int % 1000,
        millis == 0 ==> r->0.time == epoch(),
        is_valid_time(r->0.time),
        time_millis(r->0.time) == millis as int / 1000 * 1000,
{
    let t = chrono::DateTime::from_timestamp_millis(millis)?;
    let (year, month, day) = (t.year(), t.month(), t.day());
    let time = FsTime { year, month, day, hour: t.hour(), minute: t.minute(), second: t.second() };
    Some(UtcMillis { time, millis: t.timestamp_subsec_millis() })
}

/// Calls chrono's `NaiveDate::from_ymd_opt`, `NaiveDate::and_hms_nano_opt`
/// and `DateTime::timestamp_millis`: the timestamp of a UTC date and time.
/// chrono accepts a real date and time whose nanoseconds are below 10^9, or
/// below 2 * 10^9 in a second 59 (a leap second); and, as its documentation
/// promises, reading the timestamp back gives the same date and time where
/// the nanoseconds are below 10^9. The timestamp counts the days since the
/// epoch (`num_days_from_ce` less the epoch's), then the seconds from
/// midnight, in milliseconds, and adds the milliseconds of the nanoseconds.
#[verifier::external_body]
fn utc_timestamp_millis(
    year: i32,
    month: u32,
    day: u32,
    hour: u32,
    minute: u32,
    second: u32,
    nano: u32,
) -> (r: Option<i64>)
    requires
        0 <= year <= 9999,
    ensures
        r is Some <==> (is_valid_datetime(
            year as int,
            month as int,
            day as int,
            hour as int,
            minute as int,
            second as int,
        ) && (nano < 1_000_000_000 || (second == 59 && nano < 2_000_000_000))),
        r is Some ==> r->0 == millis_of_utc(
            year as int,
            month as int,
            day as int,
            hour as int,
            minute as int,
            second as int,
            nano as int,
        ),
        r is Some && nano < 1_000_000_000 ==> utc_of_millis(r->0 as int) == (FsTime {
            year,
            month,
            day,
            hour,
            minute,
            second,
        }),
{
    let date = chrono::NaiveDate::from_ymd_opt(year, month, day)?;
    let time = date.and_hms_nano_opt(hour, minute, second, nano)?;
    Some(time.and_utc().timestamp_millis())
}

/// The UTC date and time `millis` milliseconds after the epoch: the date and
/// time to the second, and the milliseconds into that second.
pub fn sys_time(millis: i64) -> (r: UtcMillis)
    requires
        -MAX_TIMESTAMP_MILLIS <= millis <= MAX_TIMESTAMP_MILLIS,
    ensures
        r.time == utc_of_millis(millis as int),
        r.millis == millis as int % 1000,
        is_valid_time(r.time),
        time_millis(r.time) + r.millis == millis,
{
    utc_from_timestamp_millis(millis).unwrap()
}

/// Whether a sleep of `duration` ms that began at `start` is over at `now`
/// (all in ms).
pub fn sleep_elapsed(start: i64, now: i64, duration: i64) -> (r: bool)
    requires
        -MAX_TIMESTAMP_MILLIS <= start <= MAX_TIMESTAMP_MILLIS,
        -MAX_TIMESTAMP_MILLIS <= now <= MAX_TIMESTAMP_MILLIS,
    ensures
        r == (now - start >= duration),
{
    now - start >= duration
}

/// The kernel's answer to a `time` call: the timestamp in milliseconds of the
/// firmware clock's reading (in UTC), which must be a real date and time
/// (a second 59 may run into a leap second). Read back, it gives that
/// reading to the second.
pub fn sys_time_reply(
    year: u16,
    month: u8,
    day: u8,
    hour: u8,
    minute: u8,
    second: u8,
    nano: u32,
) -> (r: usize)
    requires
        year <= 9999,
        is_valid_datetime(
            year as int,
            month as int,
            day as int,
            hour as int,
            minute as int,
            second as int,
        ),
        nano < 1_000_000_000 || (second == 59 && nano < 2_000_000_000),
    ensures
        r == millis_of_utc(
            year as int,
            month as int,
            day as int,
            hour as int,
            minute as int,
            second as int,
            nano as int,
        ) as usize,
        nano < 1_000_000_000 && 0 <= millis_of_utc(
            year as int,
            month as int,
            day as int,
            hour as int,
            minute as int,
            second as int,
            nano as int,
        ) <= usize::MAX ==> utc_of_millis(r as int) == (FsTime {
            year: year as i32,
            month: month as u32,
            day: day as u32,
            hour: hour as u32,
            minute: minute as u32,
            second: second as u32,
        }),
{
    let ms = utc_timestamp_millis(
        year as i32,
        month as u32,
        day as u32,
        hour as u32,
        minute as u32,
        second as u32,
        nano,
    );
    let m = ms.unwrap();
    m as usize
}

/// The time that a packed FAT time (low 16 bits) and date (high 16 bits)
/// describe: seconds / 2 in bits 0-4, minutes in bits 5-10, hours in bits
/// 11-15, day in bits 16-20, month in bits 21-24 and years since 1980 in bits
/// 25-31; the UNIX epoch where these fields name no real date and time.
pub open spec fn spec_parse_datetime(time: u32) -> FsTime {
    let raw_time = time as int % 0x10000;
    let raw_date = time as int / 0x10000;
    let second = (raw_time % 32) * 2;
    let minute = (raw_time / 32) % 64;
    let hour = (raw_time / 2048) % 32;
    let day = raw_date % 32;
    let month = (raw_date / 32) % 16;
    let year = 1980 + (raw_date / 512) % 128;
    if is_valid_datetime(year, month, day, hour, minute, second) {
        FsTime {
            year: year as i32,
            month: month as u32,
            day: day as u32,
            hour: hour as u32,
            minute: minute as u32,
            second: second as u32,
        }
    } else {
        epoch()
    }
}

/// Decodes a packed FAT date and time.
pub fn parse_datetime(time: u32) -> (r: FsTime)
    ensures
        r == spec_parse_datetime(time),
{
    let raw_time = time % 0x10000;
    let raw_date = time / 0x10000;
    let second = (raw_time % 32) * 2;
    let minute = (raw_time / 32) % 64;
    let hour = (raw_time / 2048) % 32;
    let day = raw_date % 32;
    let month = (raw_date / 32) % 16;
    let year: i32 = 1980 + ((raw_date / 512) % 128) as i32;
    match utc_with_ymd_and_hms(year, month, day, hour, minute, second) {
        Some(t) => t,
        None => utc_from_timestamp_millis(0).unwrap().time,
    }
}

/// A FAT date and time packed into 32 bits: seconds / 2 in bits 0-4, the
/// minute in bits 5-10, the hour in bits 11-15, the day in bits 16-20, the
/// month in bits 21-24 and the years since 1980 in bits 25-31.
pub open spec fn pack_fat_datetime(year: int, month: int, day: int, hour: int, minute: int, second: int) -> int {
    (year - 1980) * 0x200_0000 + month * 0x20_0000 + day * 0x1_0000 + hour * 0x800 + minute * 0x20
        + second / 2
}

/// Decoding gives back what was packed: every real date and time from 1980 to
/// 2107 with an even second decodes, from its packed form, to exactly its
/// year, month, day, hour, minute and second.
pub proof fn lemma_parse_packed_datetime(year: int, month: int, day: int, hour: int, minute: int, second: int)
    requires
        1980 <= year <= 2107,
        is_valid_datetime(year, month, day, hour, minute, second),
        second % 2 == 0,
    ensures
        0 <= pack_fat_datetime(year, month, day, hour, minute, second) <= u32::MAX,
        spec_parse_datetime(pack_fat_datetime(year, month, day, hour, minute, second) as u32) == (FsTime {
            year: year as i32,
            month: month as u32,
            day: day as u32,
            hour: hour as u32,
            minute: minute as u32,
            second: second as u32,
        }),
{
    let date = (year - 1980) * 512 + month * 32 + day;
    let tw = hour * 2048 + minute * 32 + second / 2;
    let p = pack_fat_datetime(year, month, day, hour, minute, second);
    assert(p == date * 0x10000 + tw);
    assert(0 <= tw < 0x10000);
    assert(0 <= date < 0x10000);
    assert(p / 0x10000 == date && p % 0x10000 == tw) by {
        lemma_fundamental_div_mod_converse(p, 0x10000, date, tw);
    }
    assert(date % 32 == day && date / 32 == (year - 1980) * 16 + month) by {
        lemma_fundamental_div_mod_converse(date, 32, (year - 1980) * 16 + month, day);
    }
    let dm = (year - 1980) * 16 + month;
    assert(dm % 16 == month && dm / 16 == year - 1980) by {
        lemma_fundamental_div_mod_converse(dm, 16, year - 1980, month);
    }
    assert(date / 512 == year - 1980) by {
        lemma_fundamental_div_mod_converse(date, 512, year - 1980, month * 32 + day);
    }
    assert(tw % 32 == second / 2 && tw / 32 == hour * 64 + minute) by {
        lemma_fundamental_div_mod_converse(tw, 32, hour * 64 + minute, second / 2);
    }
    let hm = hour * 64 + minute;
    assert(hm % 64 == minute) by {
        lemma_fundamental_div_mod_converse(hm, 64, hour, minute);
    }
    assert(tw / 2048 == hour) by {
        lemma_fundamental_div_mod_converse(tw, 2048, hour, minute * 32 + second / 2);
    }
}

/// A packed FAT date and time always decodes to a real date and time: its
/// own fields where they name one, else the epoch.
pub proof fn lemma_parse_datetime_valid(time: u32)
    ensures
        ({
            let t = spec_parse_datetime(time);
            is_valid_datetime(
                t.year as int,
                t.month as int,
                t.day as int,
                t.hour as int,
                t.minute as int,
                t.second as int,
            )
        }),
{
}

} // verus!
