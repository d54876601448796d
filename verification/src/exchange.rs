//! Decisions of the exchange-rate lookup against the NBP API: the request URL, what each
//! response means, when to retry and how long to wait, and how the rate is rounded.

use vstd::prelude::*;

use crate::decimal::{round_dp_away_from_zero, Dec};

verus! {

broadcast use vstd::string::group_string_axioms;

/// Number of requests made before giving up.
pub const MAX_RETRIES: u32 = 3;

/// Wait before the second request, in milliseconds; it doubles after each further failure.
pub const BACKOFF_BASE_MS: u64 = 200;

/// Fractional digits the rate is rounded to.
pub const RATE_DECIMAL_PLACES: u32 = 4;

/// Server used when no other is configured.
pub const DEFAULT_API_BASE: &'static str = "https://api.nbp.pl";

/// What the first rate of a readable response gave.
pub enum RateReading {
    /// The response lists no rate.
    NoRate,
    /// The rate is not a finite number.
    NotFinite,
    /// The rate, exactly as the response gave it.
    Value(Dec),
}

/// The outcome of one request.
pub enum FetchEvent {
    /// The request could not be sent or no response came.
    SendFailed,
    /// The server answered with an error status (4xx or 5xx).
    ErrorStatus(u16),
    /// A success status, but the body is not the expected JSON.
    BodyUnreadable,
    /// A success status and a readable body.
    Body(RateReading),
}

/// Why the lookup failed.
#[derive(Debug, PartialEq, Eq)]
pub enum RateFailure {
    /// The request or the body failed; the transport error tells more.
    Request,
    /// No rate is published for this currency code.
    RateMissing(String),
    /// The published rate is not usable (not finite, or zero once rounded).
    InvalidRate(String),
}

/// What to do after one request.
pub enum FetchAction {
    /// Wait this many milliseconds, then send the request again.
    RetryAfter(u64),
    /// The rate, rounded.
    Done(Dec),
    Fail(RateFailure),
}

pub open spec fn backoff_ms(attempt: nat) -> int
    decreases attempt,
{
    if attempt == 0 {
        BACKOFF_BASE_MS as int
    } else {
        2 * backoff_ms((attempt - 1) as nat)
    }
}

/// Statuses worth another request: 429, 500, 502, 503, 504.
pub open spec fn is_transient_status(status: u16) -> bool {
    status == 429 || status == 500 || status == 502 || status == 503 || status == 504
}

/// The URL of the latest table-A mid rate of `code`.
pub open spec fn rate_url_text(base: Seq<char>, code: Seq<char>) -> Seq<char> {
    base + "/api/exchangerates/rates/A/"@ + code + "/last/1/?format=json"@
}

/// What a readable response means for the lookup.
pub enum RateVerdict {
    /// This rate, rounded.
    Rate(Dec),
    /// No rate is published.
    Missing,
    /// The published rate is unusable.
    Invalid,
}

/// The meaning of a readable response: the first rate rounded to four places, unless there is
/// none (missing), it is not finite or it rounds to zero (invalid).
pub open spec fn verdict(reading: RateReading) -> RateVerdict {
    match reading {
        RateReading::NoRate => RateVerdict::Missing,
        RateReading::NotFinite => RateVerdict::Invalid,
        RateReading::Value(d) => {
            let r = d.rounded(RATE_DECIMAL_PLACES as nat);
            if r.mantissa == 0 {
                RateVerdict::Invalid
            } else {
                RateVerdict::Rate(r)
            }
        },
    }
}

/// `r` is the lookup result that `v` calls for, the failures naming currency `code`.
pub open spec fn carries_verdict(r: Result<Dec, RateFailure>, v: RateVerdict, code: Seq<char>) -> bool {
    match v {
        RateVerdict::Rate(d) => r == Ok::<Dec, RateFailure>(d),
        RateVerdict::Missing => r matches Err(RateFailure::RateMissing(c)) && c@ == code,
        RateVerdict::Invalid => r matches Err(RateFailure::InvalidRate(c)) && c@ == code,
    }
}

/// The URL of the latest table-A mid rate of `code` on the server `base`.
pub fn rate_url(base: &str, code: &str) -> (url: String)
    ensures
        url@ == rate_url_text(base@, code@),
{
    let mut url = String::from_str(base);
    url.append("/api/exchangerates/rates/A/");
    url.append(code);
    url.append("/last/1/?format=json");
    url
}

/// The server to ask: the configured one if any, the public NBP server otherwise.
pub fn api_base(configured: Option<String>) -> (base: String)
    ensures
        configured matches Some(c) ==> base@ == c@,
        configured is None ==> base@ == DEFAULT_API_BASE@,
{
    match configured {
        Some(c) => c,
        None => String::from_str(DEFAULT_API_BASE),
    }
}

/// Whether an invoice in `currency` needs an exchange rate (every currency but PLN).
pub fn needs_exchange_rate(currency: &str) -> (b: bool)
    ensures
        b == (currency@ != "PLN"@),
{
    !crate::text::same_text(currency, "PLN")
}

/// The wait before request number `attempt + 2`, after request `attempt + 1` failed.
pub fn backoff_delay(attempt: u32) -> (ms: u64)
    requires
        attempt < MAX_RETRIES,
    ensures
        ms == backoff_ms(attempt as nat),
{
    let factor: u64 = 1u64 << attempt;
    proof {
        reveal_with_fuel(backoff_ms, 3);
        assert(attempt == 0u32 ==> (1u64 << attempt) == 1u64) by (bit_vector);
        assert(attempt == 1u32 ==> (1u64 << attempt) == 2u64) by (bit_vector);
        assert(attempt == 2u32 ==> (1u64 << attempt) == 4u64) by (bit_vector);
    }
    BACKOFF_BASE_MS * factor
}

/// Turns the first rate of a readable response into the result of the lookup.
pub fn rate_from_reading(reading: RateReading, currency_code: &str) -> (r: Result<Dec, RateFailure>)
    requires
        reading matches RateReading::Value(d) ==> d.wf(),
    ensures
        carries_verdict(r, verdict(reading), currency_code@),
{
    match reading {
        RateReading::NoRate => Err(RateFailure::RateMissing(String::from_str(currency_code))),
        RateReading::NotFinite => Err(RateFailure::InvalidRate(String::from_str(currency_code))),
        RateReading::Value(d) => {
            let r = round_dp_away_from_zero(d, RATE_DECIMAL_PLACES);
            if r.is_zero() {
                Err(RateFailure::InvalidRate(String::from_str(currency_code)))
            } else {
                Ok(r)
            }
        },
    }
}

/// Decides what follows request number `attempt + 1` (counting from zero): an error status of
/// 404 means the rate is missing; transient statuses and send failures are retried with a
/// doubling wait until the last request; everything else ends the lookup.
pub fn next_action(attempt: u32, event: FetchEvent, currency_code: &str) -> (a: FetchAction)
    requires
        attempt < MAX_RETRIES,
        event matches FetchEvent::Body(RateReading::Value(d)) ==> d.wf(),
    ensures
        a matches FetchAction::RetryAfter(_) ==> attempt + 1 < MAX_RETRIES,
        a matches FetchAction::Done(d) ==> d.scale <= RATE_DECIMAL_PLACES && d.mantissa != 0,
        match event {
            FetchEvent::SendFailed => if attempt + 1 < MAX_RETRIES {
                a == FetchAction::RetryAfter(backoff_ms(attempt as nat) as u64)
            } else {
                a == FetchAction::Fail(RateFailure::Request)
            },
            FetchEvent::ErrorStatus(status) => if status == 404 {
                a matches FetchAction::Fail(RateFailure::RateMissing(c)) && c@ == currency_code@
            } else if is_transient_status(status) && attempt + 1 < MAX_RETRIES {
                a == FetchAction::RetryAfter(backoff_ms(attempt as nat) as u64)
            } else {
                a == FetchAction::Fail(RateFailure::Request)
            },
            FetchEvent::BodyUnreadable => a == FetchAction::Fail(RateFailure::Request),
            FetchEvent::Body(reading) => match a {
                FetchAction::Done(d) => carries_verdict(Ok(d), verdict(reading), currency_code@),
                FetchAction::Fail(f) => carries_verdict(Err(f), verdict(reading), currency_code@),
                FetchAction::RetryAfter(_) => false,
            },
        },
{
    match event {
        FetchEvent::SendFailed => {
            if attempt + 1 < MAX_RETRIES {
                FetchAction::RetryAfter(backoff_delay(attempt))
            } else {
                FetchAction::Fail(RateFailure::Request)
            }
        },
        FetchEvent::ErrorStatus(status) => {
            if status == 404 {
                FetchAction::Fail(RateFailure::RateMissing(String::from_str(currency_code)))
            } else if (status == 429 || status == 500 || status == 502 || status == 503 || status
                == 504) && attempt + 1 < MAX_RETRIES {
                FetchAction::RetryAfter(backoff_delay(attempt))
            } else {
                FetchAction::Fail(RateFailure::Request)
            }
        },
        FetchEvent::BodyUnreadable => FetchAction::Fail(RateFailure::Request),
        FetchEvent::Body(reading) => match rate_from_reading(reading, currency_code) {
            Ok(d) => FetchAction::Done(d),
            Err(f) => FetchAction::Fail(f),
        },
    }
}

} // verus!
