//! The FA(3) invoice: a model of plain values built from the descriptor and the plan, the
//! `invoice_gen` pieces it converts into, and its XML; the dates it carries, as `chrono` writes
//! them.

use vstd::prelude::*;

use crate::decimal::{abs, pow10, Dec, MAX_MANTISSA};
use crate::invoice::{
    buyer_abroad, copy_string, due_day, plan_invoice, MissingInvoiceNumber, PAYMENT_METHOD_BANK_TRANSFER,
    REVERSE_CHARGE_SET, REVERSE_CHARGE_UNSET,
};
use crate::model::{InvoiceData, Position, Subject, VatRate};
use crate::text::trimmed;
use invoice_gen::fa_3::builder::{BuyerBuilder, LineBuilder, SellerBuilder};
use invoice_gen::fa_3::models::{
    Annotations, BankAccount, Header, IdentificationData2, Invoice, InvoiceBody, InvoiceLine,
    Payment, PaymentTerm, Subject1, Subject2,
};
use invoice_gen::shared::{CurrencyCode, TaxRate as Fa3TaxRate};
use rust_decimal::Decimal;

verus! {

broadcast use vstd::string::group_string_axioms;

#[verifier::external_type_specification]
#[verifier::external_body]
pub struct ExFa3TaxRate(invoice_gen::shared::TaxRate);

#[verifier::external_type_specification]
#[verifier::external_body]
pub struct ExSubject1(invoice_gen::fa_3::models::Subject1);

#[verifier::external_type_specification]
#[verifier::external_body]
pub struct ExSubject2(invoice_gen::fa_3::models::Subject2);

#[verifier::external_type_specification]
#[verifier::external_body]
pub struct ExInvoiceLine(invoice_gen::fa_3::models::InvoiceLine);

#[verifier::external_type_specification]
#[verifier::external_body]
pub struct ExPayment(invoice_gen::fa_3::models::Payment);

/// First day that `chrono::NaiveDate` holds (1 January of year -262143, i.e. 262144 BCE),
/// counted from 1 January of year 1 as day 1.
pub const MIN_CE_DAY: i32 = -95746129;

/// Last day that `chrono::NaiveDate` holds (31 December 262142).
pub const MAX_CE_DAY: i32 = 95745399;

/// The text `chrono` gives a date (its `Display`, `%Y-%m-%d`), for the day `day` counted from
/// 1 January of year 1 as day 1.
pub uninterp spec fn ce_date_text(day: int) -> Seq<char>;

/// Calls `chrono::NaiveDate::from_num_days_from_ce_opt` and writes the date with its
/// `Display` impl (`%Y-%m-%d`). Claimed: a date exists exactly within `MIN_CE_DAY..=MAX_CE_DAY`
/// (the range of `NaiveDate` in chrono's source), and its text is `ce_date_text(day)`.
#[verifier::external_body]
fn date_text_of_ce_day(day: i32) -> (r: Option<String>)
    ensures
        r is Some <==> MIN_CE_DAY <= day <= MAX_CE_DAY,
        r matches Some(t) ==> t@ == ce_date_text(day as int),
{
    chrono::NaiveDate::from_num_days_from_ce_opt(day).map(|d| d.to_string())
}

// ---------------------------------------------------------------------------------------------
// The model: what goes where in the FA(3) invoice.

/// A party's identification and address, as the builders of `invoice_gen` take them.
pub struct Fa3Party {
    pub nip: String,
    pub name: String,
    pub country_code: String,
    pub street: String,
    pub building_number: String,
    pub flat_number: Option<String>,
    pub city: String,
    pub postal_code: String,
}

/// The seller (`Podmiot1`).
pub struct Fa3Seller {
    pub party: Fa3Party,
    pub taxpayer_prefix: Option<String>,
}

/// The buyer (`Podmiot2`) with its identification data.
pub struct Fa3Buyer {
    pub party: Fa3Party,
    pub id_name: String,
    pub id_nip: Option<String>,
    pub eu_code: Option<String>,
    pub eu_vat_number: Option<String>,
}

/// One invoice line.
pub struct Fa3Line {
    pub name: String,
    pub count: Dec,
    pub price: Dec,
    pub tax_rate: VatRate,
    pub currency_rate: Option<Dec>,
}

/// The payment: one bank account, the payment terms (their dates) and the method.
pub struct Fa3Payment {
    pub account_number: String,
    pub bank_name: String,
    pub swift: Option<String>,
    pub term_dates: Vec<String>,
    pub method: u8,
}

/// The invoice, every value in its place.
pub struct Fa3Model {
    pub seller: Fa3Seller,
    pub buyer: Fa3Buyer,
    pub invoice_number: String,
    pub issue_date: String,
    pub currency: String,
    pub lines: Vec<Fa3Line>,
    pub payment: Option<Fa3Payment>,
    pub reverse_charge: u8,
    /// The header's system information.
    pub system_info: Option<String>,
}

pub struct PartyView {
    pub nip: Seq<char>,
    pub name: Seq<char>,
    pub country_code: Seq<char>,
    pub street: Seq<char>,
    pub building_number: Seq<char>,
    pub flat_number: Option<Seq<char>>,
    pub city: Seq<char>,
    pub postal_code: Seq<char>,
}

pub struct SellerView {
    pub party: PartyView,
    pub taxpayer_prefix: Option<Seq<char>>,
}

pub struct BuyerView {
    pub party: PartyView,
    pub id_name: Seq<char>,
    pub id_nip: Option<Seq<char>>,
    pub eu_code: Option<Seq<char>>,
    pub eu_vat_number: Option<Seq<char>>,
}

pub struct LineView {
    pub name: Seq<char>,
    pub count: Dec,
    pub price: Dec,
    pub tax_rate: VatRate,
    pub currency_rate: Option<Dec>,
}

pub struct PaymentView {
    pub account_number: Seq<char>,
    pub bank_name: Seq<char>,
    pub swift: Option<Seq<char>>,
    pub term_dates: Seq<Seq<char>>,
    pub method: u8,
}

pub struct ModelView {
    pub seller: SellerView,
    pub buyer: BuyerView,
    pub invoice_number: Seq<char>,
    pub issue_date: Seq<char>,
    pub currency: Seq<char>,
    pub lines: Seq<LineView>,
    pub payment: Option<PaymentView>,
    pub reverse_charge: u8,
    pub system_info: Option<Seq<char>>,
}

pub open spec fn text_option(o: Option<String>) -> Option<Seq<char>> {
    match o {
        Some(s) => Some(s@),
        None => None,
    }
}

impl View for Fa3Party {
    type V = PartyView;

    open spec fn view(&self) -> PartyView {
        PartyView {
            nip: self.nip@,
            name: self.name@,
            country_code: self.country_code@,
            street: self.street@,
            building_number: self.building_number@,
            flat_number: text_option(self.flat_number),
            city: self.city@,
            postal_code: self.postal_code@,
        }
    }
}

impl View for Fa3Seller {
    type V = SellerView;

    open spec fn view(&self) -> SellerView {
        SellerView { party: self.party@, taxpayer_prefix: text_option(self.taxpayer_prefix) }
    }
}

impl View for Fa3Buyer {
    type V = BuyerView;

    open spec fn view(&self) -> BuyerView {
        BuyerView {
            party: self.party@,
            id_name: self.id_name@,
            id_nip: text_option(self.id_nip),
            eu_code: text_option(self.eu_code),
            eu_vat_number: text_option(self.eu_vat_number),
        }
    }
}

impl View for Fa3Line {
    type V = LineView;

    open spec fn view(&self) -> LineView {
        LineView {
            name: self.name@,
            count: self.count,
            price: self.price,
            tax_rate: self.tax_rate,
            currency_rate: self.currency_rate,
        }
    }
}

impl View for Fa3Payment {
    type V = PaymentView;

    open spec fn view(&self) -> PaymentView {
        PaymentView {
            account_number: self.account_number@,
            bank_name: self.bank_name@,
            swift: text_option(self.swift),
            term_dates: self.term_dates@.map_values(|t: String| t@),
            method: self.method,
        }
    }
}

impl View for Fa3Model {
    type V = ModelView;

    open spec fn view(&self) -> ModelView {
        ModelView {
            seller: self.seller@,
            buyer: self.buyer@,
            invoice_number: self.invoice_number@,
            issue_date: self.issue_date@,
            currency: self.currency@,
            lines: self.lines@.map_values(|l: Fa3Line| l@),
            payment: match self.payment {
                Some(p) => Some(p@),
                None => None,
            },
            reverse_charge: self.reverse_charge,
            system_info: text_option(self.system_info),
        }
    }
}

pub open spec fn party_of(s: Subject) -> PartyView {
    PartyView {
        nip: s.nip@,
        name: s.name@,
        country_code: s.address.country_code@,
        street: s.address.street@,
        building_number: s.address.building_number@,
        flat_number: text_option(s.address.flat_number),
        city: s.address.city@,
        postal_code: s.address.postal_code@,
    }
}

pub open spec fn line_of_position(p: Position, currency_rate: Option<Dec>) -> LineView {
    LineView {
        name: p.name@,
        count: p.count,
        price: p.price,
        tax_rate: p.tax_rate,
        currency_rate,
    }
}

/// The FA(3) invoice for `data` issued on `issue_day` with `currency_rate` on every line:
/// - the seller with its NIP, name and address, and its country code as taxpayer prefix exactly
///   when the buyer is abroad;
/// - the buyer with its NIP, name and address; identified by name and NIP when domestic, by
///   name, EU code (its country) and EU VAT number (its NIP) when abroad;
/// - the trimmed number, the issue date, the currency as given;
/// - line i: position i's name, count, price and rate, with the exchange rate;
/// - the payment, when there are payment details: their account, bank and SWIFT, one term
///   dated `issue_day` plus the period when a period is given, method bank transfer;
/// - reverse charge set exactly when the buyer is abroad; no system information.
pub open spec fn model_of(data: InvoiceData, currency_rate: Option<Dec>, issue_day: i32) -> ModelView {
    let abroad = buyer_abroad(data);
    ModelView {
        seller: SellerView {
            party: party_of(data.seller),
            taxpayer_prefix: if abroad {
                Some(data.seller.address.country_code@)
            } else {
                None
            },
        },
        buyer: BuyerView {
            party: party_of(data.buyer),
            id_name: data.buyer.name@,
            id_nip: if abroad {
                None
            } else {
                Some(data.buyer.nip@)
            },
            eu_code: if abroad {
                Some(data.buyer.address.country_code@)
            } else {
                None
            },
            eu_vat_number: if abroad {
                Some(data.buyer.nip@)
            } else {
                None
            },
        },
        invoice_number: trimmed(data.number->Some_0@),
        issue_date: ce_date_text(issue_day as int),
        currency: data.currency@,
        lines: Seq::new(
            data.positions@.len(),
            |i: int| line_of_position(data.positions@[i], currency_rate),
        ),
        payment: match data.payment_details {
            None => None,
            Some(pd) => Some(
                PaymentView {
                    account_number: pd.account_number@,
                    bank_name: pd.bank_name@,
                    swift: text_option(pd.swift),
                    term_dates: match pd.period {
                        Some(k) => seq![ce_date_text(issue_day + k)],
                        None => Seq::empty(),
                    },
                    method: PAYMENT_METHOD_BANK_TRANSFER,
                },
            ),
        },
        reverse_charge: if abroad {
            REVERSE_CHARGE_SET
        } else {
            REVERSE_CHARGE_UNSET
        },
        system_info: None,
    }
}

/// Where each value of the descriptor lands in the FA(3) invoice, field by field: each party
/// carries its own NIP, name and address; the buyer is identified by its own NIP at home and by
/// its country and NIP abroad; line i is position i with the exchange rate; the payment carries
/// the descriptor's account, bank and SWIFT, and one term `k` days after the issue day exactly
/// when a period `k` is given (0 included).
pub proof fn lemma_model_carries_descriptor(d: InvoiceData, currency_rate: Option<Dec>, issue_day: i32)
    ensures
        ({
            let m = model_of(d, currency_rate, issue_day);
            &&& m.seller.party.nip == d.seller.nip@
            &&& m.seller.party.name == d.seller.name@
            &&& m.seller.party.country_code == d.seller.address.country_code@
            &&& m.seller.party.street == d.seller.address.street@
            &&& m.seller.party.building_number == d.seller.address.building_number@
            &&& (d.seller.address.flat_number matches Some(f) ==> m.seller.party.flat_number
                == Some(f@))
            &&& (d.seller.address.flat_number is None ==> m.seller.party.flat_number is None)
            &&& m.seller.party.city == d.seller.address.city@
            &&& m.seller.party.postal_code == d.seller.address.postal_code@
            &&& m.buyer.party.nip == d.buyer.nip@
            &&& m.buyer.party.name == d.buyer.name@
            &&& m.buyer.party.country_code == d.buyer.address.country_code@
            &&& m.buyer.party.street == d.buyer.address.street@
            &&& m.buyer.party.building_number == d.buyer.address.building_number@
            &&& (d.buyer.address.flat_number matches Some(f) ==> m.buyer.party.flat_number
                == Some(f@))
            &&& (d.buyer.address.flat_number is None ==> m.buyer.party.flat_number is None)
            &&& m.buyer.party.city == d.buyer.address.city@
            &&& m.buyer.party.postal_code == d.buyer.address.postal_code@
            &&& m.buyer.id_name == d.buyer.name@
            &&& (d.buyer.address.country_code@ == "PL"@ ==> m.buyer.id_nip == Some(d.buyer.nip@)
                && m.buyer.eu_code is None && m.buyer.eu_vat_number is None
                && m.seller.taxpayer_prefix is None)
            &&& (d.buyer.address.country_code@ != "PL"@ ==> m.buyer.id_nip is None
                && m.buyer.eu_code == Some(d.buyer.address.country_code@) && m.buyer.eu_vat_number
                == Some(d.buyer.nip@) && m.seller.taxpayer_prefix == Some(
                d.seller.address.country_code@,
            ))
            &&& (d.number matches Some(n) ==> m.invoice_number == trimmed(n@))
            &&& m.issue_date == ce_date_text(issue_day as int)
            &&& m.currency == d.currency@
            &&& m.lines.len() == d.positions@.len()
            &&& forall|i: int|
                0 <= i < d.positions@.len() ==> {
                    &&& (#[trigger] m.lines[i]).name == d.positions@[i].name@
                    &&& m.lines[i].count == d.positions@[i].count
                    &&& m.lines[i].price == d.positions@[i].price
                    &&& m.lines[i].tax_rate == d.positions@[i].tax_rate
                    &&& m.lines[i].currency_rate == currency_rate
                }
            &&& (d.payment_details is None ==> m.payment is None)
            &&& (d.payment_details matches Some(pd) ==> {
                &&& m.payment matches Some(p)
                &&& m.payment->Some_0.account_number == pd.account_number@
                &&& m.payment->Some_0.bank_name == pd.bank_name@
                &&& (pd.swift matches Some(w) ==> m.payment->Some_0.swift == Some(w@))
                &&& (pd.swift is None ==> m.payment->Some_0.swift is None)
                &&& m.payment->Some_0.method == 6
                &&& (pd.period matches Some(k) ==> m.payment->Some_0.term_dates == seq![
                    ce_date_text(issue_day + k),
                ])
                &&& (pd.period is None ==> m.payment->Some_0.term_dates.len() == 0)
            })
        }),
{
}

// ---------------------------------------------------------------------------------------------
// Conversion into `invoice_gen`'s model, and its XML.

/// What `SellerBuilder::new(nip, name).set_address(..).build()` gives, with the taxpayer prefix
/// set.
pub uninterp spec fn fa3_seller(s: SellerView) -> Subject1;

/// What `BuyerBuilder::new(nip, name).set_address(..).build()` gives, with the identification
/// data set.
pub uninterp spec fn fa3_buyer(b: BuyerView) -> Subject2;

/// `invoice_gen`'s rate for `t`.
pub uninterp spec fn fa3_rate(t: VatRate) -> Fa3TaxRate;

/// What `LineBuilder::new(..).build()` gives, with the exchange rate set.
pub uninterp spec fn fa3_line(l: LineView) -> InvoiceLine;

/// `invoice_gen`'s `Payment` for `p`.
pub uninterp spec fn fa3_payment(p: PaymentView) -> Payment;

/// What `Invoice::to_xml` gives for the invoice of model `m` created at `created`: its XML, or
/// the text of its error.
pub uninterp spec fn fa3_xml(m: ModelView, created: Seq<char>) -> Result<Seq<char>, Seq<char>>;

/// Converts a rate into `invoice_gen`'s enum, variant for variant.
#[verifier::external_body]
fn to_fa3_rate(t: VatRate) -> (r: Fa3TaxRate)
    ensures
        r == fa3_rate(t),
{
    match t {
        VatRate::Rate23 => Fa3TaxRate::Rate23, VatRate::Rate22 => Fa3TaxRate::Rate22,
        VatRate::Rate8 => Fa3TaxRate::Rate8, VatRate::Rate7 => Fa3TaxRate::Rate7,
        VatRate::Rate5 => Fa3TaxRate::Rate5, VatRate::Rate4 => Fa3TaxRate::Rate4,
        VatRate::Rate3 => Fa3TaxRate::Rate3, VatRate::ZeroKR => Fa3TaxRate::ZeroKR,
        VatRate::ZeroWDT => Fa3TaxRate::ZeroWDT, VatRate::ZeroEX => Fa3TaxRate::ZeroEX,
        VatRate::Zw => Fa3TaxRate::Zw, VatRate::Oo => Fa3TaxRate::Oo,
        VatRate::NpI => Fa3TaxRate::NpI, VatRate::NpII => Fa3TaxRate::NpII,
        VatRate::Custom(bp) => Fa3TaxRate::Custom(bp),
    }
}

/// Calls `SellerBuilder::new`, `set_address`, `build` on the seller's values and sets the
/// taxpayer prefix; the result depends on those values alone.
#[verifier::external_body]
fn to_fa3_seller(s: &Fa3Seller) -> (r: Subject1)
    ensures
        r == fa3_seller(s@),
{
    let a = &s.party;
    Subject1 {
        taxpayer_prefix: s.taxpayer_prefix.clone(),
        ..SellerBuilder::new(&a.nip, &a.name).set_address(&a.country_code, &a.street,
            &a.building_number, a.flat_number.as_deref(), &a.city, &a.postal_code).build()
    }
}

/// Calls `BuyerBuilder::new`, `set_address`, `build` on the buyer's values and sets its
/// identification data (the other identification fields at their defaults).
#[verifier::external_body]
fn to_fa3_buyer(b: &Fa3Buyer) -> (r: Subject2)
    ensures
        r == fa3_buyer(b@),
{
    let a = &b.party;
    let id = IdentificationData2 { name: Some(b.id_name.clone()), nip: b.id_nip.clone(),
        eu_code: b.eu_code.clone(), eu_vat_number: b.eu_vat_number.clone(), ..Default::default() };
    Subject2 {
        identification_data: Some(id),
        ..BuyerBuilder::new(&a.nip, &a.name).set_address(&a.country_code, &a.street,
            &a.building_number, a.flat_number.as_deref(), &a.city, &a.postal_code).build()
    }
}

/// Calls `LineBuilder::new(name, count, price, rate).build()` and sets the exchange rate. The
/// builder computes price × 100 rounded, then times count, which panics outside `Decimal`'s
/// range; the bound keeps out those inputs.
#[verifier::external_body]
fn to_fa3_line(l: &Fa3Line, t: Fa3TaxRate) -> (r: InvoiceLine)
    requires
        t == fa3_rate(l.tax_rate),
        l.count.wf(),
        l.price.wf(),
        l.currency_rate matches Some(c) ==> c.wf(),
        magnitude_bound(l.price) * 100 * magnitude_bound(l.count) <= MAX_MANTISSA,
    ensures
        r == fa3_line(l@),
{
    let d = |x: Dec| Decimal::from_i128_with_scale(x.mantissa, x.scale);
    InvoiceLine {
        currency_rate: l.currency_rate.map(d),
        ..LineBuilder::new(&l.name, d(l.count), d(l.price), t).build()
    }
}

/// Fills `invoice_gen`'s `Payment`: one bank account, a term per date, the method, the other
/// fields empty.
#[verifier::external_body]
fn to_fa3_payment(p: &Fa3Payment) -> (r: Payment)
    ensures
        r == fa3_payment(p@),
{
    Payment {
        bank_accounts: vec![BankAccount { account_number: p.account_number.clone(),
            bank_name: Some(p.bank_name.clone()), description: None, own_account: None, swift: p.swift.clone() }],
        payment_terms: p.term_dates.iter().map(|d| PaymentTerm { date: Some(d.clone()), description: None }).collect(),
        payment_method: Some(p.method), paid: None, payment_date: None, partial_payment_flag: None,
        partial_payments: Vec::new(), other_payment: None, payment_description: None,
        factor_bank_accounts: Vec::new(), discount: None, payment_link: None, ip_ksef: None,
    }
}

/// Fills `invoice_gen`'s `Invoice` from the model and its converted parts (everything else at
/// its default, the creation time given) and calls `Invoice::to_xml`, giving the text of its
/// error when it fails. `to_xml` sums the lines' values and taxes, which panics outside
/// `Decimal`'s range; the bound keeps out those inputs.
#[verifier::external_body]
fn to_fa3_xml(
    m: &Fa3Model,
    seller: Subject1,
    buyer: Subject2,
    lines: Vec<InvoiceLine>,
    payment: Option<Payment>,
    created: &str,
) -> (r: Result<String, String>)
    requires
        seller == fa3_seller(m.seller@),
        buyer == fa3_buyer(m.buyer@),
        lines@.len() == m.lines@.len(),
        forall|i: int| 0 <= i < lines@.len() ==> lines@[i] == fa3_line(#[trigger] m.lines@[i]@),
        payment == (match m.payment { Some(p) => Some(fa3_payment(p@)), None => None::<Payment> }),
        lines_fit(m@.lines),
    ensures
        r matches Ok(x) ==> fa3_xml(m@, created@) matches Ok(y) && y == x@,
        r matches Err(e) ==> fa3_xml(m@, created@) matches Err(f) && f == e@,
{
    let header = Header { system_info: m.system_info.clone(), creation_date: created.to_string(), ..Default::default() };
    let annotations = Annotations { reverse_charge: m.reverse_charge, ..Default::default() };
    let invoice_body = InvoiceBody { invoice_number: m.invoice_number.clone(), issue_date: m.issue_date.clone(),
        currency_code: CurrencyCode(m.currency.clone()), lines, payment, annotations, ..Default::default() };
    let invoice = Invoice { header, subject1: seller, subject2: buyer, invoice_body, ..Default::default() };
    invoice.to_xml().map_err(|e| e.to_string())
}

// ---------------------------------------------------------------------------------------------
// The bound on amounts.

/// A whole number above the magnitude of `d`.
pub open spec fn magnitude_bound(d: Dec) -> int {
    abs(d.mantissa as int) / (pow10(d.scale as nat) as int) + 1
}

/// An upper bound of a rate in basis points (the named rates are at most 23 %).
pub open spec fn rate_bound(t: VatRate) -> int {
    match t {
        VatRate::Custom(bp) => abs(bp as int),
        _ => 2300,
    }
}

/// An upper bound, in cents times (10000 + rate in basis points), of what a line adds to the
/// invoice's sums of values and taxes.
pub open spec fn part_weight(count: Dec, price: Dec, t: VatRate) -> int {
    magnitude_bound(price) * 100 * magnitude_bound(count) * (10000 + rate_bound(t))
}

pub open spec fn line_weight(p: Position) -> int {
    part_weight(p.count, p.price, p.tax_rate)
}

pub open spec fn weights_sum(ps: Seq<Position>) -> int
    decreases ps.len(),
{
    if ps.len() == 0 {
        0
    } else {
        weights_sum(ps.drop_last()) + line_weight(ps.last())
    }
}

pub open spec fn line_weights_sum(ls: Seq<LineView>) -> int
    decreases ls.len(),
{
    if ls.len() == 0 {
        0
    } else {
        line_weights_sum(ls.drop_last()) + part_weight(ls.last().count, ls.last().price, ls.last().tax_rate)
    }
}

/// Largest sum of weights: every line's cents and taxes, and every sum of them, stay within
/// `Decimal`'s range (the cents of a line may reach its mantissa limit).
pub open spec fn max_weight() -> int {
    MAX_MANTISSA as int * 10000
}

/// The amounts of all positions, with their taxes, stay within `Decimal`'s range through every
/// product and sum that building the invoice and its XML makes.
pub open spec fn amounts_fit(ps: Seq<Position>) -> bool {
    weights_sum(ps) <= max_weight()
}

/// The same bound over the lines of a model.
pub open spec fn lines_fit(ls: Seq<LineView>) -> bool {
    line_weights_sum(ls) <= max_weight()
}

proof fn lemma_pow10_monotone(i: nat, j: nat)
    requires
        i <= j,
    ensures
        pow10(i) <= pow10(j),
    decreases j,
{
    if i < j {
        lemma_pow10_monotone(i, (j - 1) as nat);
    }
}

/// `10^n`, for the scales a `Dec` can have.
fn pow10_u128(n: u32) -> (p: u128)
    requires
        n <= 28,
    ensures
        p == pow10(n as nat),
        p > 0,
{
    proof {
        reveal_with_fuel(pow10, 29);
        assert(pow10(28) == 10000000000000000000000000000nat);
    }
    let mut p: u128 = 1;
    let mut i: u32 = 0;
    while i < n
        invariant
            i <= n <= 28,
            p == pow10(i as nat),
            pow10(28) == 10000000000000000000000000000nat,
        decreases n - i,
    {
        proof {
            lemma_pow10_monotone((i + 1) as nat, 28);
        }
        p = p * 10;
        i = i + 1;
    }
    proof {
        crate::decimal::lemma_pow10_positive(n as nat);
    }
    p
}

/// `magnitude_bound(d)`.
fn magnitude_of(d: Dec) -> (r: u128)
    requires
        d.wf(),
    ensures
        r == magnitude_bound(d),
{
    let a: u128 = if d.mantissa < 0 {
        (-d.mantissa) as u128
    } else {
        d.mantissa as u128
    };
    let p = pow10_u128(d.scale);
    a / p + 1
}

fn rate_bound_of(t: VatRate) -> (r: u128)
    ensures
        r == rate_bound(t),
{
    match t {
        VatRate::Custom(bp) => if bp < 0 {
            (-(bp as i64)) as u128
        } else {
            bp as u128
        },
        _ => 2300,
    }
}

proof fn lemma_line_weight_parts(p: Position)
    requires
        p.price.wf(),
        p.count.wf(),
    ensures
        line_weight(p) >= magnitude_bound(p.price) * 100 * magnitude_bound(p.count),
        magnitude_bound(p.price) * 100 * magnitude_bound(p.count) >= 100,
        magnitude_bound(p.price) >= 1,
        magnitude_bound(p.count) >= 1,
{
    crate::decimal::lemma_pow10_positive(p.price.scale as nat);
    crate::decimal::lemma_pow10_positive(p.count.scale as nat);
    let a = magnitude_bound(p.price);
    let b = magnitude_bound(p.count);
    let c = 10000 + rate_bound(p.tax_rate);
    assert(a >= 1 && b >= 1 && c >= 10000);
    assert(a * 100 * b * c >= a * 100 * b && a * 100 * b >= 100) by (nonlinear_arith)
        requires
            a >= 1,
            b >= 1,
            c >= 10000,
    ;
}

proof fn lemma_weights_sum_grows(ps: Seq<Position>, k: int)
    requires
        0 <= k <= ps.len(),
        forall|i: int| 0 <= i < ps.len() ==> (#[trigger] ps[i]).price.wf() && ps[i].count.wf(),
    ensures
        weights_sum(ps) >= weights_sum(ps.take(k)),
    decreases ps.len(),
{
    if k < ps.len() {
        let init = ps.drop_last();
        lemma_line_weight_parts(ps.last());
        assert forall|i: int| 0 <= i < init.len() implies (#[trigger] init[i]).price.wf()
            && init[i].count.wf() by {
            assert(init[i] == ps[i]);
        }
        lemma_weights_sum_grows(init, k);
        assert(init.take(k) =~= ps.take(k));
    } else {
        assert(ps.take(k) =~= ps);
    }
}

proof fn lemma_weights_sum_nonneg(ps: Seq<Position>)
    requires
        forall|i: int| 0 <= i < ps.len() ==> (#[trigger] ps[i]).price.wf() && ps[i].count.wf(),
    ensures
        weights_sum(ps) >= 0,
    decreases ps.len(),
{
    if ps.len() > 0 {
        let init = ps.drop_last();
        lemma_line_weight_parts(ps.last());
        assert forall|i: int| 0 <= i < init.len() implies (#[trigger] init[i]).price.wf()
            && init[i].count.wf() by {
            assert(init[i] == ps[i]);
        }
        lemma_weights_sum_nonneg(init);
    }
}

/// Whether `amounts_fit` holds for these positions.
pub fn amounts_fit_in_decimal(positions: &Vec<Position>) -> (b: bool)
    requires
        forall|i: int| 0 <= i < positions@.len() ==> (#[trigger] positions@[i]).price.wf()
            && positions@[i].count.wf(),
    ensures
        b == amounts_fit(positions@),
{
    let n = positions.len();
    let mut sum: u128 = 0;
    let mut i: usize = 0;
    while i < n
        invariant
            i <= n,
            n == positions@.len(),
            forall|j: int| 0 <= j < positions@.len() ==> (#[trigger] positions@[j]).price.wf()
                && positions@[j].count.wf(),
            sum == weights_sum(positions@.take(i as int)),
            sum <= max_weight(),
        decreases n - i,
    {
        let p = &positions[i];
        proof {
            lemma_line_weight_parts(*p);
            lemma_weights_sum_grows(positions@, i + 1);
            let t = positions@.take(i + 1);
            assert(t.drop_last() =~= positions@.take(i as int));
            assert(t.last() == positions@[i as int]);
        }
        let limit: u128 = MAX_MANTISSA as u128 * 10000;
        let mp = magnitude_of(p.price);
        let mc = magnitude_of(p.count);
        let rb = rate_bound_of(p.tax_rate);
        let w = match mp.checked_mul(100) {
            None => None,
            Some(x) => match x.checked_mul(mc) {
                None => None,
                Some(y) => y.checked_mul(10000 + rb),
            },
        };
        match w {
            None => {
                proof {
                    let a = magnitude_bound(p.price);
                    let b = magnitude_bound(p.count);
                    let c = 10000 + rate_bound(p.tax_rate);
                    assert(a * 100 * b * c >= a * 100 && a * 100 * b * c >= a * 100 * b)
                        by (nonlinear_arith)
                        requires
                            a >= 1,
                            b >= 1,
                            c >= 10000,
                    ;
                    assert(line_weight(*p) > u128::MAX);
                }
                return false;
            },
            Some(w) => {
                if w > limit - sum {
                    return false;
                }
                sum = sum + w;
            },
        }
        i = i + 1;
    }
    assert(positions@.take(n as int) =~= positions@);
    true
}


// ---------------------------------------------------------------------------------------------
// Building the model, and the XML.

fn copy_text_option(o: &Option<String>) -> (r: Option<String>)
    ensures
        text_option(r) == text_option(*o),
{
    match o {
        Some(s) => Some(copy_string(s)),
        None => None,
    }
}

fn party(s: &Subject) -> (r: Fa3Party)
    ensures
        r@ == party_of(*s),
{
    Fa3Party {
        nip: copy_string(&s.nip),
        name: copy_string(&s.name),
        country_code: copy_string(&s.address.country_code),
        street: copy_string(&s.address.street),
        building_number: copy_string(&s.address.building_number),
        flat_number: copy_text_option(&s.address.flat_number),
        city: copy_string(&s.address.city),
        postal_code: copy_string(&s.address.postal_code),
    }
}

/// The FA(3) model of the invoice for `data`, issued on `issue_day` (counted from 1 January of
/// year 1 as day 1), with `currency_rate` on every line. Fails exactly when the number is
/// missing or blank.
pub fn fa3_model(data: &InvoiceData, currency_rate: Option<Dec>, issue_day: i32) -> (r: Result<
    Fa3Model,
    MissingInvoiceNumber,
>)
    requires
        MIN_CE_DAY <= issue_day <= MAX_CE_DAY,
        due_day(*data, issue_day) matches Some(d) ==> d <= MAX_CE_DAY,
    ensures
        r is Ok <==> (data.number matches Some(n) && trimmed(n@).len() > 0),
        r matches Ok(m) ==> m@ == model_of(*data, currency_rate, issue_day),
        r matches Ok(m) ==> {
            &&& m.seller.party.street@ == data.seller.address.street@
            &&& m.seller.party.city@ == data.seller.address.city@
            &&& m.buyer.party.nip@ == data.buyer.nip@
            &&& m.buyer.party.name@ == data.buyer.name@
            &&& m.buyer.party.street@ == data.buyer.address.street@
            &&& m.buyer.party.building_number@ == data.buyer.address.building_number@
            &&& text_option(m.buyer.party.flat_number) == text_option(data.buyer.address.flat_number)
            &&& m.buyer.party.city@ == data.buyer.address.city@
            &&& m.buyer.party.postal_code@ == data.buyer.address.postal_code@
            &&& (data.payment_details matches Some(pd) ==> {
                &&& m.payment matches Some(p)
                &&& m.payment->Some_0.account_number@ == pd.account_number@
                &&& m.payment->Some_0.bank_name@ == pd.bank_name@
                &&& (pd.period matches Some(k) ==> m.payment->Some_0.term_dates@.len() == 1
                    && m.payment->Some_0.term_dates@[0]@ == ce_date_text(issue_day + k))
                &&& (pd.period is None ==> m.payment->Some_0.term_dates@.len() == 0)
            })
            &&& (data.payment_details is None ==> m.payment is None)
        },
{
    proof {
        lemma_model_carries_descriptor(*data, currency_rate, issue_day);
    }
    let plan = match plan_invoice(data, currency_rate, issue_day) {
        Ok(p) => p,
        Err(e) => {
            return Err(e);
        },
    };
    let issue_date = date_text_of_ce_day(issue_day).unwrap();
    let seller = Fa3Seller { party: party(&data.seller), taxpayer_prefix: plan.seller_taxpayer_prefix };
    let buyer = Fa3Buyer {
        party: party(&data.buyer),
        id_name: copy_string(&data.buyer.name),
        id_nip: plan.buyer_nip,
        eu_code: plan.buyer_eu_code,
        eu_vat_number: plan.buyer_eu_vat_number,
    };
    let n = data.positions.len();
    let mut lines: Vec<Fa3Line> = Vec::new();
    let mut i: usize = 0;
    while i < n
        invariant
            i <= n,
            n == data.positions@.len(),
            plan.line_currency_rate == currency_rate,
            lines@.len() == i,
            forall|j: int| 0 <= j < i ==> (#[trigger] lines@[j])@ == line_of_position(
                data.positions@[j],
                currency_rate,
            ),
        decreases n - i,
    {
        let p = &data.positions[i];
        lines.push(
            Fa3Line {
                name: copy_string(&p.name),
                count: p.count,
                price: p.price,
                tax_rate: p.tax_rate,
                currency_rate: plan.line_currency_rate,
            },
        );
        i = i + 1;
    }
    let payment = match &data.payment_details {
        None => None,
        Some(pd) => {
            let mut term_dates: Vec<String> = Vec::new();
            match plan.payment_due_day {
                Some(d) => {
                    let day: i32 = d as i32;
                    term_dates.push(date_text_of_ce_day(day).unwrap());
                },
                None => {},
            }
            proof {
                assert(term_dates@.map_values(|t: String| t@) =~= match pd.period {
                    Some(k) => seq![ce_date_text(issue_day + k)],
                    None => Seq::<Seq<char>>::empty(),
                });
            }
            Some(
                Fa3Payment {
                    account_number: copy_string(&pd.account_number),
                    bank_name: copy_string(&pd.bank_name),
                    swift: copy_text_option(&pd.swift),
                    term_dates,
                    method: PAYMENT_METHOD_BANK_TRANSFER,
                },
            )
        },
    };
    let m = Fa3Model {
        seller,
        buyer,
        invoice_number: plan.invoice_number,
        issue_date,
        currency: copy_string(&data.currency),
        lines,
        payment,
        reverse_charge: plan.reverse_charge,
        system_info: None,
    };
    proof {
        assert(m@.lines =~= model_of(*data, currency_rate, issue_day).lines);
    }
    Ok(m)
}

proof fn lemma_line_weights_sum(ps: Seq<Position>, currency_rate: Option<Dec>)
    ensures
        line_weights_sum(Seq::new(ps.len(), |i: int| line_of_position(ps[i], currency_rate)))
            == weights_sum(ps),
    decreases ps.len(),
{
    if ps.len() > 0 {
        let ls = Seq::new(ps.len(), |i: int| line_of_position(ps[i], currency_rate));
        let init = ps.drop_last();
        lemma_line_weights_sum(init, currency_rate);
        assert(ls.drop_last() =~= Seq::new(init.len(), |i: int| line_of_position(init[i], currency_rate)));
    }
}

proof fn lemma_one_weight(ps: Seq<Position>, k: int)
    requires
        0 <= k < ps.len(),
        forall|i: int| 0 <= i < ps.len() ==> (#[trigger] ps[i]).price.wf() && ps[i].count.wf(),
    ensures
        weights_sum(ps) >= line_weight(ps[k]),
    decreases ps.len(),
{
    let init = ps.drop_last();
    assert forall|i: int| 0 <= i < init.len() implies (#[trigger] init[i]).price.wf()
        && init[i].count.wf() by {
        assert(init[i] == ps[i]);
    }
    lemma_line_weight_parts(ps.last());
    if k == ps.len() - 1 {
        lemma_weights_sum_nonneg(init);
    } else {
        lemma_one_weight(init, k);
        assert(init[k] == ps[k]);
    }
}

/// Why no XML was produced.
#[derive(Debug)]
pub enum InvoiceError {
    /// The invoice number is missing or blank.
    MissingNumber(MissingInvoiceNumber),
    /// `invoice_gen` refused the invoice; the text of its error.
    Generation(String),
}

/// The FA(3) XML of the invoice for `data`, issued on `issue_day` with `currency_rate` on every
/// line, its header created at `created`: the XML that `invoice_gen` writes for
/// `model_of(data, currency_rate, issue_day)`, or the text of its error. Fails with
/// `MissingNumber` exactly when the number is missing or blank.
pub fn invoice_xml(data: &InvoiceData, currency_rate: Option<Dec>, issue_day: i32, created: &str) -> (r:
    Result<String, InvoiceError>)
    requires
        MIN_CE_DAY <= issue_day <= MAX_CE_DAY,
        due_day(*data, issue_day) matches Some(d) ==> d <= MAX_CE_DAY,
        forall|i: int| 0 <= i < data.positions@.len() ==> (#[trigger] data.positions@[i]).price.wf()
            && data.positions@[i].count.wf(),
        currency_rate matches Some(c) ==> c.wf(),
        amounts_fit(data.positions@),
    ensures
        r matches Err(InvoiceError::MissingNumber(_)) <==> !(data.number matches Some(n)
            && trimmed(n@).len() > 0),
        r matches Ok(x) ==> fa3_xml(model_of(*data, currency_rate, issue_day), created@) matches Ok(
            y,
        ) && y == x@,
        r matches Err(InvoiceError::Generation(e)) ==> fa3_xml(
            model_of(*data, currency_rate, issue_day),
            created@,
        ) matches Err(f) && f == e@,
{
    let m = match fa3_model(data, currency_rate, issue_day) {
        Ok(m) => m,
        Err(e) => {
            return Err(InvoiceError::MissingNumber(e));
        },
    };
    let seller = to_fa3_seller(&m.seller);
    let buyer = to_fa3_buyer(&m.buyer);
    let ghost ps = data.positions@;
    let n = m.lines.len();
    assert(m@.lines.len() == n);
    let mut lines: Vec<InvoiceLine> = Vec::new();
    let mut i: usize = 0;
    while i < n
        invariant
            i <= n,
            n == m.lines@.len(),
            n == ps.len(),
            ps == data.positions@,
            m@ == model_of(*data, currency_rate, issue_day),
            forall|j: int| 0 <= j < ps.len() ==> (#[trigger] ps[j]).price.wf() && ps[j].count.wf(),
            currency_rate matches Some(c) ==> c.wf(),
            amounts_fit(ps),
            lines@.len() == i,
            forall|j: int| 0 <= j < i ==> lines@[j] == fa3_line(#[trigger] m.lines@[j]@),
        decreases n - i,
    {
        let l = &m.lines[i];
        proof {
            assert(m@.lines[i as int] == l@);
            assert(l@ == line_of_position(ps[i as int], currency_rate));
            lemma_one_weight(ps, i as int);
            lemma_line_weight_parts(ps[i as int]);
            let a = magnitude_bound(l.price) * 100 * magnitude_bound(l.count);
            let c = 10000 + rate_bound(l.tax_rate);
            assert(a * c >= a * 10000) by (nonlinear_arith)
                requires
                    a >= 0,
                    c >= 10000,
            ;
        }
        let t = to_fa3_rate(l.tax_rate);
        lines.push(to_fa3_line(l, t));
        i = i + 1;
    }
    let payment = match &m.payment {
        Some(p) => Some(to_fa3_payment(p)),
        None => None,
    };
    proof {
        lemma_line_weights_sum(ps, currency_rate);
    }
    match to_fa3_xml(&m, seller, buyer, lines, payment, created) {
        Ok(x) => Ok(x),
        Err(e) => Err(InvoiceError::Generation(e)),
    }
}

} // verus!
