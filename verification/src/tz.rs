use vstd::prelude::*;
use chrono::{Datelike, Offset, TimeZone, Timelike};
use crate::datetime::{days_in_month, Timestamp, Zone};

verus! {

/// What chrono-tz computes for Europe/Dublin: the UTC offset, in seconds,
/// of the given local calendar time, or nothing when the fields are no
/// calendar time or that local time is skipped by a zone transition. A
/// function of the fields alone, fixed by the zone's compiled-in rules.
pub uninterp spec fn dublin_offset_of(y: int, mo: int, d: int, h: int, mi: int, s: int) -> Option<
    int,
>;

/// Relies on chrono's NaiveDate::from_ymd_opt and NaiveDate::and_hms_opt,
/// chrono-tz's TimeZone::from_local_datetime on Europe::Dublin, and
/// LocalResult::earliest, then Offset::fix and
/// FixedOffset::local_minus_utc, which chrono documents as strictly within
/// one day of seconds.
#[verifier::external_body]
pub fn dublin_offset(y: u16, mo: u8, d: u8, h: u8, mi: u8, s: u8) -> (r: Option<i32>)
    ensures
        ({
            let o = dublin_offset_of(y as int, mo as int, d as int, h as int, mi as int, s as int);
            match r {
                Some(off) => o == Some(off as int) && -86400 < off < 86400,
                None => o is None,
            }
        }),
{
    let date = match chrono::NaiveDate::from_ymd_opt(y as i32, mo as u32, d as u32) {
        Some(x) => x,
        None => return None,
    };
    let at = match date.and_hms_opt(h as u32, mi as u32, s as u32) {
        Some(x) => x,
        None => return None,
    };
    match chrono_tz::Europe::Dublin.from_local_datetime(&at).earliest() {
        Some(t) => Some(t.offset().fix().local_minus_utc()),
        None => None,
    }
}

/// Relies on chrono's From<SystemTime> conversion — which tolerates a
/// clock before the Unix epoch — and chrono-tz's Europe::Dublin: the
/// current wall-clock time in Dublin as raw calendar fields, with the
/// zone offset in seconds last. The clock decides the values, so nothing
/// is stated of them.
#[verifier::external_body]
fn dublin_now_raw() -> (i32, u32, u32, u32, u32, u32, i32) {
    let t = chrono::DateTime::<chrono::Utc>::from(std::time::SystemTime::now()).with_timezone(
        &chrono_tz::Europe::Dublin,
    );
    (
        t.year(),
        t.month(),
        t.day(),
        t.hour(),
        t.minute(),
        t.second(),
        t.offset().fix().local_minus_utc(),
    )
}

/// Whether raw fields denote a representable Dublin timestamp: a real
/// calendar date and time of day, with a zone offset strictly within one
/// day.
pub open spec fn spec_dublin_fields_ok(
    y: int,
    mo: int,
    d: int,
    h: int,
    mi: int,
    s: int,
    off: int,
) -> bool {
    &&& 0 <= y <= 9999
    &&& 1 <= mo <= 12
    &&& 1 <= d <= crate::datetime::spec_days_in_month(y, mo)
    &&& 0 <= h < 24
    &&& 0 <= mi < 60
    &&& 0 <= s < 60
    &&& -86400 < off < 86400
}

/// Builds a Dublin timestamp from raw calendar fields: exactly those
/// fields when they denote a representable calendar time, nothing
/// otherwise.
pub fn timestamp_from_fields(y: i32, mo: u32, d: u32, h: u32, mi: u32, s: u32, off: i32) -> (r:
    Option<Timestamp>)
    ensures
        match r {
            Some(t) => spec_dublin_fields_ok(
                y as int,
                mo as int,
                d as int,
                h as int,
                mi as int,
                s as int,
                off as int,
            ) && t == (Timestamp {
                year: y as u16,
                month: mo as u8,
                day: d as u8,
                hour: h as u8,
                minute: mi as u8,
                second: s as u8,
                offset_seconds: off,
                zone: Zone::Dublin,
            }),
            None => !spec_dublin_fields_ok(
                y as int,
                mo as int,
                d as int,
                h as int,
                mi as int,
                s as int,
                off as int,
            ),
        },
{
    if y < 0 || y > 9999 {
        return None;
    }
    if mo < 1 || mo > 12 {
        return None;
    }
    let y16: u16 = y as u16;
    let mo8: u8 = mo as u8;
    if d < 1 || d > days_in_month(y16, mo8) as u32 {
        return None;
    }
    if h >= 24 || mi >= 60 || s >= 60 {
        return None;
    }
    if off <= -86400 || off >= 86400 {
        return None;
    }
    Some(
        Timestamp {
            year: y16,
            month: mo8,
            day: d as u8,
            hour: h as u8,
            minute: mi as u8,
            second: s as u8,
            offset_seconds: off,
            zone: Zone::Dublin,
        },
    )
}

/// The current time in Dublin, when the clock reports a representable
/// calendar time. The clock decides the raw fields, so success cannot be
/// promised; `timestamp_from_fields` fixes what is made of them.
pub fn dublin_now() -> (r: Option<Timestamp>)
    ensures
        r matches Some(t) ==> t.wf() && t.zone == Zone::Dublin,
{
    let (y, mo, d, h, mi, s, off) = dublin_now_raw();
    timestamp_from_fields(y, mo, d, h, mi, s, off)
}

} // verus!
