//! The invoice descriptor read from JSON: parties, positions and payment details.

use vstd::prelude::*;

use crate::decimal::Dec;

verus! {

/// The VAT rate of a position: the rates and codes of the FA(3) schema, or a custom rate in
/// basis points.
#[derive(Clone, Copy, Debug, PartialEq, Eq, Structural)]
pub enum VatRate {
    Rate23,
    Rate22,
    Rate8,
    Rate7,
    Rate5,
    Rate4,
    Rate3,
    ZeroKR,
    ZeroWDT,
    ZeroEX,
    Zw,
    Oo,
    NpI,
    NpII,
    Custom(i32),
}

pub struct Address {
    /// As given in the input; not normalised.
    pub country_code: String,
    pub street: String,
    pub building_number: String,
    pub flat_number: Option<String>,
    pub city: String,
    pub postal_code: String,
}

pub struct Subject {
    pub nip: String,
    pub name: String,
    pub address: Address,
}

pub struct Position {
    pub name: String,
    pub count: Dec,
    pub price: Dec,
    pub tax_rate: VatRate,
}

pub struct PaymentDetails {
    pub bank_name: String,
    pub account_number: String,
    pub swift: Option<String>,
    /// Payment term in days from the issue date.
    pub period: Option<u16>,
}

pub struct InvoiceData {
    pub number: Option<String>,
    /// Currency code as given in the input.
    pub currency: String,
    pub seller: Subject,
    pub buyer: Subject,
    pub positions: Vec<Position>,
    pub payment_details: Option<PaymentDetails>,
}

} // verus!
