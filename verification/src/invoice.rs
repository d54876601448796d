//! What the generated invoice says beyond the descriptor's own fields: the trimmed number,
//! reverse charge and EU identification for a buyer abroad, the exchange rate on each line and
//! the payment method and due day.

use vstd::prelude::*;

use crate::decimal::Dec;
use crate::model::InvoiceData;
use crate::text::{same_text, trim, trimmed};

verus! {

broadcast use vstd::string::group_string_axioms;

/// Payment method code of a bank transfer.
pub const PAYMENT_METHOD_BANK_TRANSFER: u8 = 6;

/// Reverse-charge annotation: applies.
pub const REVERSE_CHARGE_SET: u8 = 1;

/// Reverse-charge annotation: does not apply.
pub const REVERSE_CHARGE_UNSET: u8 = 2;

#[verifier::external_type_specification]
#[verifier::external_body]
pub struct ExIoError(std::io::Error);

/// The text an `std::io::Error` shows through its `Display` impl.
pub uninterp spec fn io_error_text(e: std::io::Error) -> Seq<char>;

/// Whether `std::io::Error::kind` gives `ErrorKind::InvalidInput` for `e`.
pub uninterp spec fn io_error_is_invalid_input(e: std::io::Error) -> bool;

/// Calls `std::io::Error::new` with kind `InvalidInput` and `message`. Claimed, as std documents
/// it: the error's kind is the one given, and its `Display` shows the message it was made with.
#[verifier::external_body]
fn invalid_input_error(message: &str) -> (r: std::io::Error)
    ensures
        io_error_is_invalid_input(r),
        io_error_text(r) == message@,
{
    std::io::Error::new(std::io::ErrorKind::InvalidInput, message)
}

/// The invoice number is missing, or blank once trimmed.
#[derive(Debug)]
pub struct MissingInvoiceNumber;

impl MissingInvoiceNumber {
    /// The I/O error this failure is reported as: kind `InvalidInput`, message
    /// "Missing required field: number".
    pub fn to_io_error(&self) -> (r: std::io::Error)
        ensures
            io_error_is_invalid_input(r),
            io_error_text(r) == "Missing required field: number"@,
    {
        invalid_input_error("Missing required field: number")
    }
}

/// The invoice number to print: the given number trimmed, if anything is left of it.
pub fn extract_invoice_number(number: Option<String>) -> (r: Result<String, MissingInvoiceNumber>)
    ensures
        r is Ok <==> (number matches Some(n) && trimmed(n@).len() > 0),
        r matches Ok(s) ==> number matches Some(n) && s@ == trimmed(n@),
{
    match number {
        Some(n) => {
            let t = trim(n.as_str());
            if t.as_str().is_empty() {
                Err(MissingInvoiceNumber)
            } else {
                Ok(t)
            }
        },
        None => Err(MissingInvoiceNumber),
    }
}

/// The decisions the generated invoice is built on.
pub struct InvoicePlan {
    pub invoice_number: String,
    /// Seller's country code, given as taxpayer prefix when the buyer is abroad.
    pub seller_taxpayer_prefix: Option<String>,
    /// Buyer's NIP as a Polish tax number (domestic buyer only).
    pub buyer_nip: Option<String>,
    /// Buyer's country code as EU code (buyer abroad only).
    pub buyer_eu_code: Option<String>,
    /// Buyer's NIP as EU VAT number (buyer abroad only).
    pub buyer_eu_vat_number: Option<String>,
    /// `REVERSE_CHARGE_SET` or `REVERSE_CHARGE_UNSET`.
    pub reverse_charge: u8,
    /// Exchange rate written on every line.
    pub line_currency_rate: Option<Dec>,
    /// Present exactly when the descriptor has payment details.
    pub payment_method: Option<u8>,
    /// Day of the payment term, counted like `issue_day`.
    pub payment_due_day: Option<i64>,
}

/// The buyer is outside Poland.
pub open spec fn buyer_abroad(data: InvoiceData) -> bool {
    data.buyer.address.country_code@ != "PL"@
}

/// `issue_day` plus the payment period, when the descriptor has both payment details and a
/// period.
pub open spec fn due_day(data: InvoiceData, issue_day: i32) -> Option<i64> {
    match data.payment_details {
        Some(pd) => match pd.period {
            Some(k) => Some((issue_day + k) as i64),
            None => None,
        },
        None => None,
    }
}

/// The payment term falls exactly `k` days after the issue day whenever the payment details
/// carry a period `k`, 0 included (due on the issue day itself); without a period there is none.
pub proof fn lemma_due_day_is_period_after_issue(data: InvoiceData, issue_day: i32)
    ensures
        data.payment_details matches Some(pd) ==> (pd.period matches Some(k) ==> (due_day(
            data,
            issue_day,
        ) matches Some(x) && x == issue_day + k)),
        data.payment_details is None || data.payment_details->Some_0.period is None ==> due_day(
            data,
            issue_day,
        ) is None,
{
    if let Some(pd) = data.payment_details {
        if let Some(k) = pd.period {
            let v: int = issue_day + k;
            assert(i64::MIN <= v <= i64::MAX);
            assert(v as i64 == v);
        }
    }
}

pub(crate) fn copy_string(s: &String) -> (r: String)
    ensures
        r@ == s@,
{
    s.clone()
}

/// The decisions of the invoice for `data`, issued on `issue_day` (days since 1 January of
/// year 1), with `currency_rate` on each line. Fails as `extract_invoice_number` does when the
/// number is missing or blank.
pub fn plan_invoice(data: &InvoiceData, currency_rate: Option<Dec>, issue_day: i32) -> (r: Result<
    InvoicePlan,
    MissingInvoiceNumber,
>)
    ensures
        r is Ok <==> (data.number matches Some(n) && trimmed(n@).len() > 0),
        r matches Ok(p) ==> {
            &&& data.number matches Some(n) && p.invoice_number@ == trimmed(n@)
            &&& buyer_abroad(*data) ==> {
                &&& p.reverse_charge == REVERSE_CHARGE_SET
                &&& p.seller_taxpayer_prefix matches Some(t) && t@
                    == data.seller.address.country_code@
                &&& p.buyer_nip is None
                &&& p.buyer_eu_code matches Some(c) && c@ == data.buyer.address.country_code@
                &&& p.buyer_eu_vat_number matches Some(v) && v@ == data.buyer.nip@
            }
            &&& !buyer_abroad(*data) ==> {
                &&& p.reverse_charge == REVERSE_CHARGE_UNSET
                &&& p.seller_taxpayer_prefix is None
                &&& p.buyer_nip matches Some(n) && n@ == data.buyer.nip@
                &&& p.buyer_eu_code is None
                &&& p.buyer_eu_vat_number is None
            }
            &&& p.line_currency_rate == currency_rate
            &&& p.payment_method == (if data.payment_details is Some {
                Some(PAYMENT_METHOD_BANK_TRANSFER)
            } else {
                None::<u8>
            })
            &&& p.payment_due_day == due_day(*data, issue_day)
            &&& (data.payment_details matches Some(pd) ==> (pd.period matches Some(k) ==> (
            p.payment_due_day matches Some(x) && x == issue_day + k)))
            &&& (data.payment_details is None || data.payment_details->Some_0.period is None
                ==> p.payment_due_day is None)
        },
{
    proof {
        lemma_due_day_is_period_after_issue(*data, issue_day);
    }
    let number = match &data.number {
        Some(n) => Some(copy_string(n)),
        None => None,
    };
    let invoice_number = match extract_invoice_number(number) {
        Ok(n) => n,
        Err(e) => {
            return Err(e);
        },
    };
    let abroad = !same_text(data.buyer.address.country_code.as_str(), "PL");
    let (seller_taxpayer_prefix, buyer_nip, buyer_eu_code, buyer_eu_vat_number, reverse_charge) =
        if abroad {
        (
            Some(copy_string(&data.seller.address.country_code)),
            None,
            Some(copy_string(&data.buyer.address.country_code)),
            Some(copy_string(&data.buyer.nip)),
            REVERSE_CHARGE_SET,
        )
    } else {
        (None, Some(copy_string(&data.buyer.nip)), None, None, REVERSE_CHARGE_UNSET)
    };
    let (payment_method, payment_due_day) = match &data.payment_details {
        Some(pd) => {
            let due = match pd.period {
                Some(k) => Some(issue_day as i64 + k as i64),
                None => None,
            };
            (Some(PAYMENT_METHOD_BANK_TRANSFER), due)
        },
        None => (None, None),
    };
    Ok(
        InvoicePlan {
            invoice_number,
            seller_taxpayer_prefix,
            buyer_nip,
            buyer_eu_code,
            buyer_eu_vat_number,
            reverse_charge,
            line_currency_rate: currency_rate,
            payment_method,
            payment_due_day,
        },
    )
}

} // verus!
