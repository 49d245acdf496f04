use tavily_hikari::recharge::{
    LinuxDoCreditRechargeSummary, format_linuxdo_credit_money, linuxdo_credit_recharge_money_cents,
    shift_calendar_month, shift_local_month_start_utc_ts,
};

#[test]
fn recharge_price_is_ten_thousand_cents_per_unit_month() {
    assert_eq!(linuxdo_credit_recharge_money_cents(1000, 1), Some(10_000));
    assert_eq!(linuxdo_credit_recharge_money_cents(3000, 2), Some(60_000));
}

#[test]
fn invalid_recharges_have_no_price() {
    assert_eq!(linuxdo_credit_recharge_money_cents(0, 1), None);
    assert_eq!(linuxdo_credit_recharge_money_cents(-1000, 1), None);
    assert_eq!(linuxdo_credit_recharge_money_cents(1500, 1), None);
    assert_eq!(linuxdo_credit_recharge_money_cents(1000, 0), None);
}

#[test]
fn recharge_prices_beyond_i64_have_no_price() {
    assert_eq!(linuxdo_credit_recharge_money_cents(9_223_372_036_854_775_000, 1), None);
    assert_eq!(linuxdo_credit_recharge_money_cents(1000, i64::MAX), None);
    assert_eq!(
        linuxdo_credit_recharge_money_cents(922_337_203_685_477_000, 1),
        Some(9_223_372_036_854_770_000)
    );
}

#[test]
fn money_is_formatted_with_two_cent_digits() {
    assert_eq!(format_linuxdo_credit_money(12_345), "123.45");
    assert_eq!(format_linuxdo_credit_money(5), "0.05");
    assert_eq!(format_linuxdo_credit_money(100), "1.00");
    assert_eq!(format_linuxdo_credit_money(0), "0.00");
    assert_eq!(format_linuxdo_credit_money(-7), "0.00");
    assert_eq!(format_linuxdo_credit_money(i64::MAX), "92233720368547758.07");
}

#[test]
fn calendar_months_shift_across_years() {
    assert_eq!(shift_calendar_month(2026, 11, 1), (2027, 0));
    assert_eq!(shift_calendar_month(2026, 0, -1), (2025, 11));
    assert_eq!(shift_calendar_month(2026, 5, -18), (2024, 11));
    assert_eq!(shift_calendar_month(2026, 5, 0), (2026, 5));
    assert_eq!(shift_calendar_month(2026, 5, 30), (2028, 11));
    assert_eq!(shift_calendar_month(2026, 5, 31), (2029, 0));
}

#[test]
fn local_month_shift_moves_forward_and_back() {
    let start = 1_752_537_600;
    let next = shift_local_month_start_utc_ts(start, 1);
    assert!(next > start);
    let previous = shift_local_month_start_utc_ts(start, -1);
    assert!(previous < start);
    assert!(next - start <= 32 * 86_400);
    assert_eq!(shift_local_month_start_utc_ts(i64::MAX, 1), i64::MAX);
}

#[test]
fn recharge_summary_defaults_to_nothing() {
    let summary = LinuxDoCreditRechargeSummary::default();
    assert_eq!(summary.current_month_entitlement_credits, 0);
    assert_eq!(summary.effective_until_month_start, None);
}

#[test]
fn local_month_shift_lands_within_a_day_of_the_first() {
    let mid_july_2025 = 1_752_537_600;
    let august_first_utc = 1_754_006_400;
    let next = shift_local_month_start_utc_ts(mid_july_2025, 1);
    assert!((next - august_first_utc).abs() < 86_400);
    let june_first_utc = 1_748_736_000;
    let previous = shift_local_month_start_utc_ts(mid_july_2025, -1);
    assert!((previous - june_first_utc).abs() < 86_400);
}
