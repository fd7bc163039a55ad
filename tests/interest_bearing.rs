use token_extensions::interest_bearing::{
    InterestBearingConfig, ONE_IN_BASIS_POINTS, SECONDS_PER_YEAR,
};
use token_extensions::ui_amount::trim_ui_amount_string;
use token_extensions::ProgramError;

const INT_SECONDS_PER_YEAR: i64 = 6 * 6 * 24 * 36524;

fn config(init: i64, pre: i16, last: i64, current: i16) -> InterestBearingConfig {
    InterestBearingConfig {
        rate_authority: None,
        initialization_timestamp: init,
        pre_update_average_rate: pre,
        last_update_timestamp: last,
        current_rate: current,
    }
}

#[test]
fn seconds_per_year() {
    assert_eq!(SECONDS_PER_YEAR as f64, 31_556_736.);
    assert_eq!(INT_SECONDS_PER_YEAR, 31_556_736);
    assert_eq!(SECONDS_PER_YEAR, INT_SECONDS_PER_YEAR);
    assert_eq!(ONE_IN_BASIS_POINTS, 10_000);
}

#[test]
fn average_rate_of_equal_rates_is_that_rate() {
    let c = config(0, 500, INT_SECONDS_PER_YEAR, 500);
    assert_eq!(c.time_weighted_average_rate(2 * INT_SECONDS_PER_YEAR), Some(500));
}

#[test]
fn average_rate_of_opposite_rates_over_equal_spans_is_zero() {
    let c = config(0, -500, INT_SECONDS_PER_YEAR, 500);
    assert_eq!(c.time_weighted_average_rate(2 * INT_SECONDS_PER_YEAR), Some(0));
}

#[test]
fn average_rate_weights_by_time_and_rounds_toward_zero() {
    // (100 * 1 + 200 * 2) / 3 = 166.67
    assert_eq!(config(0, 100, 1, 200).time_weighted_average_rate(3), Some(166));
    // (-100 * 1 + -200 * 2) / 3 = -166.67
    assert_eq!(config(0, -100, 1, -200).time_weighted_average_rate(3), Some(-166));
    // (7 * 3 + -5 * 1) / 4 = 4
    assert_eq!(config(10, 7, 13, -5).time_weighted_average_rate(14), Some(4));
}

#[test]
fn average_rate_lies_between_extremes() {
    let lo = i16::MIN;
    let hi = i16::MAX;
    let r = config(0, lo, 1, hi).time_weighted_average_rate(i64::MAX).unwrap();
    assert!(lo <= r && r <= hi);
    let r = config(i64::MIN, hi, 0, lo).time_weighted_average_rate(i64::MAX).unwrap();
    assert!(lo <= r && r <= hi);
    // (32767 * 2^63 - 32768 * (2^63 - 1)) / (2^64 - 1) rounds toward zero
    assert_eq!(r, 0);
}

#[test]
fn average_rate_with_no_elapsed_time_is_current_rate() {
    assert_eq!(config(5, 100, 5, -300).time_weighted_average_rate(5), Some(-300));
}

#[test]
fn average_rate_fails_when_time_runs_backwards() {
    assert_eq!(config(0, 100, 10, 200).time_weighted_average_rate(9), None);
    assert_eq!(config(10, 100, 5, 200).time_weighted_average_rate(20), None);
}

#[test]
fn new_config_starts_with_one_rate() {
    let c = InterestBearingConfig::new(None, 250, 1_000);
    assert_eq!(c, config(1_000, 250, 1_000, 250));
}

#[test]
fn update_rate_folds_history_into_average() {
    let mut c = InterestBearingConfig::new(None, 100, 0);
    assert_eq!(c.update_rate(300, 10), Ok(()));
    assert_eq!(c, config(0, 100, 10, 300));
    assert_eq!(c.update_rate(-50, 20), Ok(()));
    assert_eq!(c, config(0, 200, 20, -50));
    let before = c;
    assert_eq!(c.update_rate(0, 19), Err(ProgramError::ArithmeticOverflow));
    assert_eq!(c, before);
}

#[test]
fn timespans_and_numerators() {
    let c = config(0, 500, INT_SECONDS_PER_YEAR, -500);
    assert_eq!(c.pre_update_timespan(), Some(INT_SECONDS_PER_YEAR));
    assert_eq!(c.post_update_timespan(2 * INT_SECONDS_PER_YEAR), Some(INT_SECONDS_PER_YEAR));
    assert_eq!(c.pre_update_exponent_numerator(), Some(500 * INT_SECONDS_PER_YEAR as i128));
    assert_eq!(
        c.post_update_exponent_numerator(2 * INT_SECONDS_PER_YEAR),
        Some(-500 * INT_SECONDS_PER_YEAR as i128)
    );
    let wide = config(i64::MIN, 1, i64::MAX, 1);
    assert_eq!(wide.pre_update_timespan(), None);
    assert_eq!(wide.pre_update_exponent_numerator(), None);
    assert_eq!(wide.post_update_timespan(i64::MIN), None);
    assert_eq!(wide.post_update_exponent_numerator(i64::MIN), None);
}

#[test]
fn trim_drops_trailing_zeros_and_point() {
    assert_eq!(trim_ui_amount_string("0.23".to_string(), 2), "0.23");
    assert_eq!(trim_ui_amount_string("1.10".to_string(), 2), "1.1");
    assert_eq!(trim_ui_amount_string("42.00".to_string(), 2), "42");
    assert_eq!(trim_ui_amount_string("0.00".to_string(), 2), "0");
    assert_eq!(trim_ui_amount_string("100.000".to_string(), 3), "100");
    assert_eq!(trim_ui_amount_string("1.051271096376024117".to_string(), 18), "1.051271096376024117");
}

#[test]
fn trim_keeps_integers_without_decimals() {
    assert_eq!(trim_ui_amount_string("100".to_string(), 0), "100");
    assert_eq!(trim_ui_amount_string("0".to_string(), 0), "0");
}
