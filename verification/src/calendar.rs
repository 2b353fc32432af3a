use vstd::prelude::*;

verus! {

/// Proleptic Gregorian leap-year rule. It is stated over `y + 10000`, which
/// lies a multiple of 400 away from `y`, so the executable check can mirror
/// it in non-negative arithmetic over the supported year range.
pub open spec fn is_leap_year(y: int) -> bool {
    let n = y + 10000;
    (n % 4 == 0 && n % 100 != 0) || n % 400 == 0
}

pub open spec fn days_in_month(y: int, m: int) -> int {
    if m == 1 || m == 3 || m == 5 || m == 7 || m == 8 || m == 10 || m == 12 {
        31
    } else if m == 4 || m == 6 || m == 9 || m == 11 {
        30
    } else if m == 2 {
        if is_leap_year(y) {
            29
        } else {
            28
        }
    } else {
        0
    }
}

/// The calendar dates the library accepts: a real proleptic Gregorian date
/// in a year of at most four digits on either side of the era.
pub open spec fn valid_civil(y: int, m: int, d: int) -> bool {
    -9999 <= y <= 9999 && 1 <= m <= 12 && 1 <= d <= days_in_month(y, m)
}

/// The clock readings the library accepts; on second 59, milliseconds up to
/// 1999 stand for a reading inside a leap second.
pub open spec fn valid_hms(h: int, mi: int, s: int, ms: int) -> bool {
    0 <= h < 24 && 0 <= mi < 60 && 0 <= s < 60 && 0 <= ms && (ms <= 999 || (s == 59 && ms
        <= 1999))
}

/// Days from 1970-01-01 to the given civil date, negative for earlier days:
/// the standard civil-calendar formula over a year that starts in March, so
/// the leap day is the last day of its shifted year.
pub open spec fn days_from_civil(y: int, m: int, d: int) -> int {
    let yy = if m <= 2 {
        y - 1
    } else {
        y
    };
    let mm = if m <= 2 {
        m + 9
    } else {
        m - 3
    };
    365 * yy + yy / 4 - yy / 100 + yy / 400 + (153 * mm + 2) / 5 + d - 1 - 719468
}

/// Milliseconds from the epoch to the given naive calendar date and clock
/// reading.
pub open spec fn epoch_millis(y: int, m: int, d: int, h: int, mi: int, s: int, ms: int) -> int {
    days_from_civil(y, m, d) * 86400000 + h * 3600000 + mi * 60000 + s * 1000 + ms
}

/// Over the accepted dates the epoch value stays well inside `i64`.
pub proof fn lemma_epoch_millis_bounds(y: int, m: int, d: int, h: int, mi: int, s: int, ms: int)
    requires
        valid_civil(y, m, d),
        valid_hms(h, mi, s, ms),
    ensures
        -400000000000000 <= epoch_millis(y, m, d, h, mi, s, ms) <= 400000000000000,
{
    let yy = if m <= 2 {
        y - 1
    } else {
        y
    };
    let mm = if m <= 2 {
        m + 9
    } else {
        m - 3
    };
    assert(-10000 <= yy <= 9999);
    assert(0 <= mm <= 11);
    assert(-2500 <= yy / 4 <= 2500);
    assert(-100 <= yy / 100 <= 100);
    assert(-25 <= yy / 400 <= 25);
    assert(0 <= (153 * mm + 2) / 5 <= 337);
    let days = days_from_civil(y, m, d);
    assert(-4400000 <= days <= 4400000);
    assert(-4400000 * 86400000 <= days * 86400000 <= 4400000 * 86400000) by (nonlinear_arith)
        requires
            -4400000 <= days <= 4400000,
    ;
}

/// Relies on `chrono::NaiveDate::from_ymd_opt`,
/// `chrono::NaiveDate::and_hms_milli_opt`, `chrono::NaiveDateTime::and_utc`
/// and `chrono::DateTime::timestamp_millis`: for a valid proleptic
/// Gregorian date and clock reading they yield the milliseconds from the
/// epoch to that naive reading, the civil-days formula above.
#[verifier::external_body]
pub(crate) fn chrono_epoch_millis(y: i32, mo: u32, d: u32, h: u32, mi: u32, s: u32, ms: u32) -> (r:
    i64)
    requires
        valid_civil(y as int, mo as int, d as int),
        valid_hms(h as int, mi as int, s as int, ms as int),
    ensures
        r as int == epoch_millis(
            y as int,
            mo as int,
            d as int,
            h as int,
            mi as int,
            s as int,
            ms as int,
        ),
{
    let date = chrono::NaiveDate::from_ymd_opt(y, mo, d).unwrap();
    let moment = date.and_hms_milli_opt(h, mi, s, ms).unwrap();
    moment.and_utc().timestamp_millis()
}

/// Whether the given numbers name an accepted calendar date.
pub fn check_civil(y: i32, mo: u32, d: u32) -> (b: bool)
    ensures
        b == valid_civil(y as int, mo as int, d as int),
{
    if y < -9999 || y > 9999 {
        return false;
    }
    if mo < 1 || mo > 12 {
        return false;
    }
    let leap_base: u32 = (y + 10000) as u32;
    let leap: bool = (leap_base % 4 == 0 && leap_base % 100 != 0) || leap_base % 400 == 0;
    let dim: u32 = if mo == 4 || mo == 6 || mo == 9 || mo == 11 {
        30
    } else if mo == 2 {
        if leap {
            29
        } else {
            28
        }
    } else {
        31
    };
    1 <= d && d <= dim
}

} // verus!
