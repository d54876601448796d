use ksef_tool::decimal::Dec;
use ksef_tool::exchange::{
    api_base, backoff_delay, needs_exchange_rate, next_action, rate_from_reading, rate_url,
    FetchAction, FetchEvent, RateFailure, RateReading, MAX_RETRIES,
};
use rust_decimal::Decimal;

/// What the response's `mid` number becomes before the lookup decides on it.
fn reading_of_mid(mid: f64) -> RateReading {
    match Decimal::from_f64_retain(mid) {
        None => RateReading::NotFinite,
        Some(d) => RateReading::Value(Dec::from_parts(d.mantissa(), d.scale()).unwrap()),
    }
}

fn to_decimal(d: Dec) -> Decimal {
    Decimal::from_i128_with_scale(d.mantissa, d.scale)
}

#[test]
fn test_get_currency_exchange_rate_success() {
    let action = next_action(0, FetchEvent::Body(reading_of_mid(4.1234)), "USD");
    let rate = match action {
        FetchAction::Done(d) => to_decimal(d),
        _ => panic!("expected a rate"),
    };
    assert_eq!(rate.to_string(), "4.1234");
}

#[test]
fn test_get_currency_exchange_rate_missing() {
    let action = next_action(0, FetchEvent::Body(RateReading::NoRate), "USD");
    match action {
        FetchAction::Fail(RateFailure::RateMissing(code)) => assert_eq!(code, "USD"),
        _ => panic!("expected RateMissing"),
    }
}

#[test]
fn test_get_currency_exchange_rate_zero_is_invalid() {
    let action = next_action(0, FetchEvent::Body(reading_of_mid(0.0)), "USD");
    match action {
        FetchAction::Fail(RateFailure::InvalidRate(code)) => assert_eq!(code, "USD"),
        _ => panic!("expected InvalidRate"),
    }
}

#[test]
fn rate_rounds_half_away_from_zero() {
    let r = rate_from_reading(RateReading::Value(Dec::from_parts(412345, 5).unwrap()), "EUR").unwrap();
    assert_eq!((r.mantissa, r.scale), (41235, 4));
    let r = rate_from_reading(RateReading::Value(Dec::from_parts(412344, 5).unwrap()), "EUR").unwrap();
    assert_eq!((r.mantissa, r.scale), (41234, 4));
    let r = rate_from_reading(RateReading::Value(Dec::from_parts(41, 1).unwrap()), "EUR").unwrap();
    assert_eq!((r.mantissa, r.scale), (41, 1));
}

#[test]
fn rate_that_rounds_to_zero_is_invalid() {
    let r = rate_from_reading(RateReading::Value(Dec::from_parts(4, 5).unwrap()), "JPY");
    assert_eq!(r.unwrap_err(), RateFailure::InvalidRate("JPY".to_string()));
    let r = rate_from_reading(RateReading::Value(Dec::from_parts(5, 5).unwrap()), "JPY").unwrap();
    assert_eq!((r.mantissa, r.scale), (1, 4));
}

#[test]
fn non_finite_rate_is_invalid() {
    assert_eq!(
        rate_from_reading(reading_of_mid(f64::NAN), "USD").unwrap_err(),
        RateFailure::InvalidRate("USD".to_string())
    );
}

#[test]
fn rounding_negative_and_exact_values() {
    let r = rate_from_reading(RateReading::Value(Dec::from_parts(-15, 5).unwrap()), "X").unwrap();
    assert_eq!((r.mantissa, r.scale), (-2, 4));
    let r = rate_from_reading(RateReading::Value(Dec::from_parts(-14, 5).unwrap()), "X").unwrap();
    assert_eq!((r.mantissa, r.scale), (-1, 4));
    let r = rate_from_reading(RateReading::Value(Dec::from_parts(43_000_000, 7).unwrap()), "X").unwrap();
    assert_eq!((r.mantissa, r.scale), (43_000, 4));
}

#[test]
fn send_failures_retry_with_doubling_wait_then_fail() {
    assert!(matches!(next_action(0, FetchEvent::SendFailed, "USD"), FetchAction::RetryAfter(200)));
    assert!(matches!(next_action(1, FetchEvent::SendFailed, "USD"), FetchAction::RetryAfter(400)));
    assert!(matches!(
        next_action(MAX_RETRIES - 1, FetchEvent::SendFailed, "USD"),
        FetchAction::Fail(RateFailure::Request)
    ));
}

#[test]
fn transient_statuses_retry_others_fail() {
    for status in [429u16, 500, 502, 503, 504] {
        assert!(matches!(next_action(0, FetchEvent::ErrorStatus(status), "USD"), FetchAction::RetryAfter(200)));
        assert!(matches!(
            next_action(2, FetchEvent::ErrorStatus(status), "USD"),
            FetchAction::Fail(RateFailure::Request)
        ));
    }
    for status in [400u16, 401, 403, 501] {
        assert!(matches!(
            next_action(0, FetchEvent::ErrorStatus(status), "USD"),
            FetchAction::Fail(RateFailure::Request)
        ));
    }
}

#[test]
fn not_found_means_missing_rate() {
    match next_action(0, FetchEvent::ErrorStatus(404), "CHF") {
        FetchAction::Fail(RateFailure::RateMissing(code)) => assert_eq!(code, "CHF"),
        _ => panic!("expected RateMissing"),
    }
}

#[test]
fn unreadable_body_fails_at_once() {
    assert!(matches!(next_action(0, FetchEvent::BodyUnreadable, "USD"), FetchAction::Fail(RateFailure::Request)));
}

#[test]
fn backoff_values() {
    assert_eq!(backoff_delay(0), 200);
    assert_eq!(backoff_delay(1), 400);
    assert_eq!(backoff_delay(2), 800);
}

#[test]
fn url_and_base() {
    assert_eq!(
        rate_url("https://api.nbp.pl", "USD"),
        "https://api.nbp.pl/api/exchangerates/rates/A/USD/last/1/?format=json"
    );
    assert_eq!(api_base(None), "https://api.nbp.pl");
    assert_eq!(api_base(Some("http://localhost:1234".to_string())), "http://localhost:1234");
}

#[test]
fn only_pln_needs_no_rate() {
    assert!(!needs_exchange_rate("PLN"));
    assert!(needs_exchange_rate("EUR"));
    assert!(needs_exchange_rate("pln"));
}
