//! The proleptic Gregorian calendar counted in days and seconds from the
//! Unix epoch, and the span of instants that chrono's dates can hold.

use vstd::prelude::*;

verus! {

/// Days from 1970-01-01 to the proleptic Gregorian date `year`-`month`-`day`
/// (`month` from 1), by the civil-day count of 400-year eras.
pub open spec fn days_from_civil(year: int, month: int, day: int) -> int {
    let y: int = if month <= 2 { year - 1 } else { year };
    let era: int = y / 400;
    let yoe: int = y - era * 400;
    let mp: int = if month > 2 { month - 3 } else { month + 9 };
    let doy: int = (153 * mp + 2) / 5 + day - 1;
    let doe: int = yoe * 365 + yoe / 4 - yoe / 100 + doy;
    era * 146097 + doe - 719468
}

/// The UTC timestamp of midnight UTC on the first day of the zero-based
/// month `month0` of `year`.
pub open spec fn month_start_secs(year: int, month0: int) -> int {
    days_from_civil(year, month0 + 1, 1) * 86400
}

/// Whether chrono can hold the UTC instant `ts`: its dates run from
/// January 1 of year -262143 to December 31 of year 262142, that is from
/// `-8334601228800` to `8210266876799`.
pub open spec fn utc_timestamp_representable(ts: int) -> bool {
    month_start_secs(-262143, 0) <= ts < month_start_secs(262143, 0)
}

/// Whether chrono's dates reach the year `year` (`NaiveDate::MIN` is in
/// year -262143, `NaiveDate::MAX` in year 262142).
pub open spec fn chrono_year_in_range(year: int) -> bool {
    -262143 <= year <= 262142
}

/// Days in the 400-year-era count up to the start of civil year `y2` of the
/// March-based year.
proof fn lemma_civil_year_length(y2: int)
    ensures
        ({
            let e0 = y2 / 400;
            let yoe0 = y2 - e0 * 400;
            let e1 = (y2 + 1) / 400;
            let yoe1 = (y2 + 1) - e1 * 400;
            let d0 = e0 * 146097 + yoe0 * 365 + yoe0 / 4 - yoe0 / 100;
            let d1 = e1 * 146097 + yoe1 * 365 + yoe1 / 4 - yoe1 / 100;
            365 <= d1 - d0 <= 366
        }),
{
    let e0 = y2 / 400;
    let yoe0 = y2 - e0 * 400;
    assert(0 <= yoe0 < 400);
    if yoe0 < 399 {
        assert((y2 + 1) / 400 == e0);
    } else {
        assert((y2 + 1) / 400 == e0 + 1);
    }
}

/// A month lasts 28 to 31 days: the next month starts that long after the
/// first day of `month0` of `year`.
pub proof fn lemma_month_length(year: int, month0: int)
    requires
        0 <= month0 < 12,
    ensures
        ({
            let next_year = if month0 == 11 { year + 1 } else { year };
            let next_month0 = if month0 == 11 { 0 } else { month0 + 1 };
            28 * 86400 <= month_start_secs(next_year, next_month0) - month_start_secs(year, month0) <= 31 * 86400
        }),
{
    if month0 == 1 {
        lemma_civil_year_length(year - 1);
    }
}

} // verus!
