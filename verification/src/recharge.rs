//! Linux.do Credit recharge pricing.

use vstd::prelude::*;
use crate::calendar::{chrono_year_in_range, lemma_month_length, month_start_secs, utc_timestamp_representable};
use crate::text::{decimal_seq, push_decimal, push_zero_padded_decimal, string_push, zero_padded};
use chrono::{Datelike, TimeZone};

verus! {

/// Order status of a recharge that still waits for payment.
pub const LINUXDO_CREDIT_RECHARGE_STATUS_PENDING: &'static str = "pending";
/// Order status of a recharge whose payment was accepted.
pub const LINUXDO_CREDIT_RECHARGE_STATUS_PAID: &'static str = "paid";
/// Order status of a recharge whose payment failed.
pub const LINUXDO_CREDIT_RECHARGE_STATUS_FAILED: &'static str = "failed";
/// Credits sold per unit.
pub const LINUXDO_CREDIT_RECHARGE_UNIT_CREDITS: i64 = 1000;
/// Price of one unit for one month, in cents.
pub const LINUXDO_CREDIT_RECHARGE_UNIT_PRICE_CENTS: i64 = 10_000;
/// Shortest recharge period, in months.
pub const LINUXDO_CREDIT_RECHARGE_MIN_MONTHS: i64 = 1;

/// Whether `credits` and `months` describe an order that may be priced at all.
pub open spec fn recharge_request_is_valid(credits: int, months: int) -> bool {
    &&& credits > 0
    &&& months >= LINUXDO_CREDIT_RECHARGE_MIN_MONTHS
    &&& credits % (LINUXDO_CREDIT_RECHARGE_UNIT_CREDITS as int) == 0
}

/// The exact price in cents, without any bound.
pub open spec fn recharge_price_cents(credits: int, months: int) -> int {
    (credits / (LINUXDO_CREDIT_RECHARGE_UNIT_CREDITS as int)) * months
        * (LINUXDO_CREDIT_RECHARGE_UNIT_PRICE_CENTS as int)
}

/// The price of a recharge, or `None` when the request is invalid or the
/// price does not fit in an `i64`.
pub open spec fn recharge_money_cents(credits: int, months: int) -> Option<int> {
    if !recharge_request_is_valid(credits, months) {
        None
    } else if recharge_price_cents(credits, months) > i64::MAX {
        None
    } else {
        Some(recharge_price_cents(credits, months))
    }
}

proof fn lemma_partial_product_fits(units: int, months: int)
    requires
        units >= 1,
        months >= 1,
    ensures
        units * months >= 1,
        units * months <= units * months * 10_000,
{
    assert(units * months >= 1) by (nonlinear_arith)
        requires units >= 1, months >= 1;
    assert(units * months <= units * months * 10_000) by (nonlinear_arith)
        requires units * months >= 1;
}

/// Price in cents of `credits` credits held for `months` months: one unit of
/// 1000 credits costs 10 000 cents per month. `None` for a non-positive or
/// non-multiple credit amount, a period shorter than one month, or a price
/// beyond `i64`.
pub fn linuxdo_credit_recharge_money_cents(credits: i64, months: i64) -> (r: Option<i64>)
    ensures
        r == (match recharge_money_cents(credits as int, months as int) {
            Some(v) => Some(v as i64),
            None => None::<i64>,
        }),
{
    if credits <= 0 || months < LINUXDO_CREDIT_RECHARGE_MIN_MONTHS
        || credits % LINUXDO_CREDIT_RECHARGE_UNIT_CREDITS != 0 {
        return None;
    }
    let units = credits / LINUXDO_CREDIT_RECHARGE_UNIT_CREDITS;
    proof {
        lemma_partial_product_fits(units as int, months as int);
    }
    match units.checked_mul(months) {
        None => None,
        Some(partial) => partial.checked_mul(LINUXDO_CREDIT_RECHARGE_UNIT_PRICE_CENTS),
    }
}

/// A recharge order as stored for one user.
#[derive(Debug, Clone)]
pub struct LinuxDoCreditRechargeOrder {
    pub out_trade_no: String,
    pub user_id: String,
    pub status: String,
    pub credits: i64,
    pub months: i64,
    pub money_cents: i64,
    pub trade_no: Option<String>,
    pub payment_url: Option<String>,
    pub order_name: String,
    pub notify_payload: Option<String>,
    pub created_at: i64,
    pub updated_at: i64,
    pub paid_at: Option<i64>,
    pub last_notify_at: Option<i64>,
    pub last_error: Option<String>,
}

/// Credits granted to a user for one month by a paid order.
#[derive(Debug, Clone)]
pub struct LinuxDoCreditRechargeEntitlement {
    pub id: i64,
    pub out_trade_no: String,
    pub user_id: String,
    pub month_start: i64,
    pub credits: i64,
    pub created_at: i64,
}

/// A user's current recharge entitlement.
#[derive(Debug, Clone, Default)]
pub struct LinuxDoCreditRechargeSummary {
    pub current_month_start: i64,
    pub current_month_entitlement_credits: i64,
    pub effective_until_month_start: Option<i64>,
}

/// What an administrator sees of a user's recharges.
#[derive(Debug, Clone)]
pub struct LinuxDoCreditRechargeAdminAudit {
    pub current_month_entitlement_credits: i64,
    pub effective_until_month_start: Option<i64>,
    pub orders: Vec<LinuxDoCreditRechargeOrder>,
    pub entitlements: Vec<LinuxDoCreditRechargeEntitlement>,
}

/// `money_cents` shown as units and two-digit cents, negative amounts shown
/// as zero: `"{whole}.{cents:02}"`.
pub open spec fn credit_money_text(money_cents: int) -> Seq<char> {
    let cents: int = if money_cents < 0 { 0 } else { money_cents };
    decimal_seq((cents / 100) as nat) + seq!['.'] + zero_padded(decimal_seq((cents % 100) as nat), 2)
}

/// Formats an amount of cents as `"<units>.<cents>"`, with the cents always
/// two digits; a negative amount is shown as `"0.00"`.
pub fn format_linuxdo_credit_money(money_cents: i64) -> (s: String)
    ensures
        s@ == credit_money_text(money_cents as int),
{
    let cents: u64 = if money_cents < 0 { 0 } else { money_cents as u64 };
    let mut out = String::new();
    push_decimal(&mut out, cents / 100);
    string_push(&mut out, '.');
    push_zero_padded_decimal(&mut out, cents % 100, 2);
    proof {
        assert(out@ =~= credit_money_text(money_cents as int));
    }
    out
}

/// The calendar month `delta` months away from `(year, month0)`, where
/// `month0` counts months from zero (January is 0).
pub open spec fn shifted_calendar_month(year: int, month0: int, delta: int) -> (int, int) {
    (year + (month0 + delta) / 12, (month0 + delta) % 12)
}

/// The zero-based calendar month `delta_months` away from `(year, month0)`.
pub fn shift_calendar_month(year: i32, month0: u32, delta_months: i32) -> (r: (i32, u32))
    requires
        month0 < 12,
        -262144 <= year <= 262143,
        delta_months <= i32::MAX - 11,
    ensures
        r.0 as int == shifted_calendar_month(year as int, month0 as int, delta_months as int).0,
        r.1 as int == shifted_calendar_month(year as int, month0 as int, delta_months as int).1,
        r.1 < 12,
{
    let zero_indexed: i32 = month0 as i32 + delta_months;
    let mut q: i32 = zero_indexed / 12;
    let mut m: i32 = zero_indexed % 12;
    if m < 0 {
        m = m + 12;
        q = q - 1;
    }
    proof {
        let z = zero_indexed as int;
        assert(z == q * 12 + m);
        assert(0 <= m < 12);
        assert(q == z / 12 && m == z % 12) by (nonlinear_arith)
            requires z == q * 12 + m, 0 <= m < 12;
    }
    (year + q, m as u32)
}

/// A UTC timestamp that some time zone, of offset less than a day either
/// way, shows within the zero-based month `month0` of `year`.
pub open spec fn within_local_month(ts: int, year: int, month0: int) -> bool {
    let next = shifted_calendar_month(year, month0, 1);
    &&& 0 <= month0 < 12
    &&& month_start_secs(year, month0) - 86400 < ts
    &&& ts < month_start_secs(next.0, next.1) + 86400
}

/// A UTC timestamp at which some time zone, of offset less than a day either
/// way, shows midnight on the first day of the zero-based month `month0` of
/// `year`.
pub open spec fn near_month_start(ts: int, year: int, month0: int) -> bool {
    month_start_secs(year, month0) - 86400 < ts < month_start_secs(year, month0) + 86400
}

/// The local calendar year, zero-based month and offset from UTC in seconds
/// of the UTC timestamp `ts` in the machine's time zone (`Utc.timestamp_opt`,
/// `with_timezone(&Local)`, `year`, `month0`, `offset().local_minus_utc()`).
/// Chrono's `DateTime::from_timestamp` accepts exactly the `ts` whose UTC
/// date lies in `NaiveDate::MIN..=NaiveDate::MAX`, and the conversion to the
/// local zone does not fail. The local clock is the UTC time plus the
/// offset, which `FixedOffset::east_opt` keeps strictly within a day either
/// way, so the local month is the one holding `ts` plus the offset. The
/// offset itself is the time zone's and is not stated.
#[verifier::external_body]
fn local_calendar_month(ts: i64) -> (r: Option<(i32, u32, i32)>)
    ensures
        r matches Some((y, m, off)) ==> {
            &&& -262144 <= y <= 262143
            &&& -86400 < off < 86400
            &&& m < 12
            &&& month_start_secs(y as int, m as int) <= ts + off
            &&& ts + off < month_start_secs(
                shifted_calendar_month(y as int, m as int, 1).0,
                shifted_calendar_month(y as int, m as int, 1).1,
            )
            &&& within_local_month(ts as int, y as int, m as int)
        },
        r is Some <==> utc_timestamp_representable(ts as int),
{
    let utc = chrono::Utc.timestamp_opt(ts, 0).single()?;
    let local = utc.with_timezone(&chrono::Local);
    Some((local.year(), local.month0(), local.offset().local_minus_utc()))
}

/// Midnight on the first day of `month` of `year`, as the UTC timestamp of
/// midnight UTC (`NaiveDate::from_ymd_opt`, `and_hms_opt(0, 0, 0)`,
/// `and_utc().timestamp()`) and, where that local time exists in the
/// machine's time zone, the UTC timestamp of local midnight
/// (`Local.from_local_datetime(..).earliest()`). `None` exactly where chrono
/// has no such date: `from_ymd_opt` accepts the first of every month of the
/// years from -262143 to 262142. Chrono subtracts the zone's offset, strictly
/// within a day either way, from the local midnight, so that timestamp lies
/// less than a day from midnight UTC; the exact offset, and whether the
/// local midnight exists, depend on the time zone and are not stated.
#[verifier::external_body]
fn local_month_start_utc_ts(year: i32, month: u32) -> (r: Option<(i64, Option<i64>)>)
    requires
        1 <= month <= 12,
    ensures
        r is Some <==> chrono_year_in_range(year as int),
        r matches Some((utc_midnight, _)) ==> utc_midnight == month_start_secs(year as int, month - 1),
        r matches Some((_, Some(t))) ==> near_month_start(t as int, year as int, month - 1),
{
    let midnight = chrono::NaiveDate::from_ymd_opt(year, month, 1)?.and_hms_opt(0, 0, 0)?;
    let local = chrono::Local.from_local_datetime(&midnight).earliest().map(|dt| dt.timestamp());
    Some((midnight.and_utc().timestamp(), local))
}

/// The UTC timestamp of the start of the local month `delta_months` away
/// from the local month that holds `current_month_start_utc_ts`: local
/// midnight on its first day, which lies within a day of midnight UTC on
/// that day. Where the zone skips that local midnight, it is placed with the
/// input's own offset. The input comes back unchanged exactly where chrono
/// cannot hold the input instant or has no date in the target month's year.
pub fn shift_local_month_start_utc_ts(current_month_start_utc_ts: i64, delta_months: i32) -> (r: i64)
    requires
        delta_months <= i32::MAX - 11,
    ensures
        !utc_timestamp_representable(current_month_start_utc_ts as int) ==> r == current_month_start_utc_ts,
        r == current_month_start_utc_ts || exists|year: int, month0: int|
            #[trigger] within_local_month(current_month_start_utc_ts as int, year, month0)
            && near_month_start(
                r as int,
                shifted_calendar_month(year, month0, delta_months as int).0,
                shifted_calendar_month(year, month0, delta_months as int).1,
            ),
        utc_timestamp_representable(current_month_start_utc_ts as int) ==> exists|year: int, month0: int|
            #[trigger] within_local_month(current_month_start_utc_ts as int, year, month0)
            && (if chrono_year_in_range(shifted_calendar_month(year, month0, delta_months as int).0) {
                near_month_start(
                    r as int,
                    shifted_calendar_month(year, month0, delta_months as int).0,
                    shifted_calendar_month(year, month0, delta_months as int).1,
                )
            } else {
                r == current_month_start_utc_ts
            }),
{
    match local_calendar_month(current_month_start_utc_ts) {
        None => current_month_start_utc_ts,
        Some((year, month0, offset)) => {
            proof {
                assert(within_local_month(current_month_start_utc_ts as int, year as int, month0 as int));
            }
            let (target_year, target_month0) = shift_calendar_month(year, month0, delta_months);
            match local_month_start_utc_ts(target_year, target_month0 + 1) {
                Some((_, Some(ts))) => ts,
                Some((utc_midnight, None)) => utc_midnight - offset as i64,
                None => current_month_start_utc_ts,
            }
        }
    }
}

/// Shifting by `a` months and then by `b` months is shifting by `a + b`
/// months.
pub proof fn lemma_month_shifts_compose(year: int, month0: int, a: int, b: int)
    requires
        0 <= month0 < 12,
    ensures
        shifted_calendar_month(shifted_calendar_month(year, month0, a).0, shifted_calendar_month(year, month0, a).1, b)
            == shifted_calendar_month(year, month0, a + b),
{
    let z = month0 + a;
    let q = z / 12;
    let r = z % 12;
    let q2 = (r + b) / 12;
    let r2 = (r + b) % 12;
    assert(z == q * 12 + r);
    assert(r + b == q2 * 12 + r2);
    vstd::arithmetic::div_mod::lemma_fundamental_div_mod_converse(z + b, 12, q + q2, r2);
}

/// Each month later starts at least 28 days later: the first of the month
/// `k` months after `(year, month0)` is at least `28 * k` days after its
/// first, and at most `31 * k` days.
pub proof fn lemma_month_starts_grow(year: int, month0: int, k: nat)
    requires
        0 <= month0 < 12,
    ensures
        28 * 86400 * k <= month_start_secs(shifted_calendar_month(year, month0, k as int).0,
            shifted_calendar_month(year, month0, k as int).1) - month_start_secs(year, month0) <= 31 * 86400 * k,
    decreases k,
{
    if k == 0 {
        assert(shifted_calendar_month(year, month0, 0) == (year, month0));
    } else {
        let km = (k - 1) as nat;
        lemma_month_starts_grow(year, month0, km);
        let p = shifted_calendar_month(year, month0, km as int);
        lemma_month_shifts_compose(year, month0, km as int, 1);
        lemma_month_length(p.0, p.1);
    }
}

/// Shifting the local month start by two or more months forward gives a
/// later instant than any instant of the input's local month, and shifting
/// backward gives an earlier one: the result of
/// `shift_local_month_start_utc_ts` moves in the direction of `delta_months`
/// whenever it is not the input itself.
pub proof fn lemma_month_shift_moves_with_delta(ts: int, year: int, month0: int, delta: int, r: int)
    requires
        within_local_month(ts, year, month0),
        near_month_start(r, shifted_calendar_month(year, month0, delta).0, shifted_calendar_month(year, month0, delta).1),
    ensures
        delta >= 2 ==> r > ts + 26 * 86400 * (delta - 1),
        delta <= -1 ==> r < ts - 26 * 86400 * (-delta - 1) - 25 * 86400,
{
    let next = shifted_calendar_month(year, month0, 1);
    let target = shifted_calendar_month(year, month0, delta);
    if delta >= 2 {
        let k = (delta - 1) as nat;
        assert(0 <= next.1 < 12);
        lemma_month_starts_grow(next.0, next.1, k);
        lemma_month_shifts_compose(year, month0, 1, delta - 1);
        assert(shifted_calendar_month(next.0, next.1, k as int) == target);
        let gap = month_start_secs(target.0, target.1) - month_start_secs(next.0, next.1);
        assert(gap >= 28 * 86400 * k);
        assert(28 * 86400 * k >= 26 * 86400 * (delta - 1) + 2 * 86400) by (nonlinear_arith)
            requires k == delta - 1, k >= 1;
    }
    if delta <= -1 {
        let k = (-delta) as nat;
        assert(0 <= target.1 < 12);
        lemma_month_starts_grow(target.0, target.1, k);
        lemma_month_shifts_compose(year, month0, delta, -delta);
        assert(shifted_calendar_month(year, month0, 0) == (year, month0));
        assert(shifted_calendar_month(target.0, target.1, k as int) == (year, month0));
        let gap = month_start_secs(year, month0) - month_start_secs(target.0, target.1);
        assert(gap >= 28 * 86400 * k);
        assert(28 * 86400 * k >= 26 * 86400 * (-delta - 1) + 27 * 86400) by (nonlinear_arith)
            requires k == -delta, k >= 1;
    }
}

} // verus!
