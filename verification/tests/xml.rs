use chrono::{Datelike, NaiveDate};
use ksef_tool::decimal::Dec;
use ksef_tool::fa3::{amounts_fit_in_decimal, fa3_model, invoice_xml, InvoiceError, MAX_CE_DAY, MIN_CE_DAY};
use ksef_tool::invoice::{PAYMENT_METHOD_BANK_TRANSFER, REVERSE_CHARGE_SET, REVERSE_CHARGE_UNSET};
use ksef_tool::model::{Address, InvoiceData, PaymentDetails, Position, Subject, VatRate};

fn dec(m: i128, s: u32) -> Dec {
    Dec::from_parts(m, s).unwrap()
}

fn address(country: &str, street: &str, city: &str) -> Address {
    Address {
        country_code: country.to_string(),
        street: street.to_string(),
        building_number: "1".to_string(),
        flat_number: Some("2".to_string()),
        city: city.to_string(),
        postal_code: "00-000".to_string(),
    }
}

fn data(buyer_country: &str) -> InvoiceData {
    InvoiceData {
        number: Some(" FV-01-01-26 ".to_string()),
        currency: "PLN".to_string(),
        seller: Subject { nip: "8567346215".to_string(), name: "Seller Corp".to_string(), address: address("PL", "Main St", "Warsaw") },
        buyer: Subject { nip: "1765432897".to_string(), name: "Buyer Ltd".to_string(), address: address(buyer_country, "Second Ave", "Krakow") },
        positions: vec![Position { name: "Widget".to_string(), count: dec(2, 0), price: dec(1900, 2), tax_rate: VatRate::Rate23 }],
        payment_details: Some(PaymentDetails {
            bank_name: "Bank PKO".to_string(),
            account_number: "10 1010 1010 1010".to_string(),
            swift: Some("PKOPPLPW".to_string()),
            period: Some(14),
        }),
    }
}

const CREATED: &str = "2026-01-01T09:30:00Z";

fn day(y: i32, m: u32, d: u32) -> i32 {
    NaiveDate::from_ymd_opt(y, m, d).unwrap().num_days_from_ce()
}

#[test]
fn date_range_matches_chrono() {
    assert_eq!(NaiveDate::MIN.num_days_from_ce(), MIN_CE_DAY);
    assert_eq!(NaiveDate::MAX.num_days_from_ce(), MAX_CE_DAY);
}

#[test]
fn xml_holds_parties_number_dates_and_amounts() {
    let xml = invoice_xml(&data("PL"), None, day(2026, 1, 1), CREATED).ok().unwrap();
    assert!(xml.starts_with("<?xml"));
    assert!(xml.contains("<DataWytworzeniaFa>2026-01-01T09:30:00Z</DataWytworzeniaFa>"));
    assert!(!xml.contains("SystemInfo"));
    assert!(xml.contains("FV-01-01-26"));
    assert!(!xml.contains(" FV-01-01-26 "));
    assert!(xml.contains("2026-01-01"));
    assert!(xml.contains("2026-01-15"));
    assert!(xml.contains("Seller Corp"));
    assert!(xml.contains("Buyer Ltd"));
    assert!(xml.contains("Main St 1 / 2, 00-000 Warsaw"));
    assert!(xml.contains("PKOPPLPW"));
    assert!(xml.contains("38.00"));
    let seller = xml.find("8567346215").unwrap();
    let buyer = xml.find("1765432897").unwrap();
    assert!(seller < buyer);
    assert!(!xml.contains("<KodUE>"));
}

#[test]
fn xml_for_buyer_abroad_carries_eu_ids() {
    let xml = invoice_xml(&data("DE"), Some(dec(43210, 4)), day(2026, 3, 31), CREATED).ok().unwrap();
    assert!(xml.contains("DE"));
    assert!(xml.contains("4.321"));
    assert!(xml.contains("2026-04-14"));
}

#[test]
fn xml_needs_an_invoice_number() {
    let mut d = data("PL");
    d.number = Some(" ".to_string());
    match invoice_xml(&d, None, day(2026, 1, 1), CREATED) {
        Err(InvoiceError::MissingNumber(e)) => {
            assert_eq!(e.to_io_error().kind(), std::io::ErrorKind::InvalidInput)
        }
        _ => panic!("expected MissingNumber"),
    }
}

#[test]
fn amounts_bound() {
    let d = data("PL");
    assert!(amounts_fit_in_decimal(&d.positions));
    let huge = vec![Position {
        name: "X".to_string(),
        count: dec(1_000_000_000_000_000, 0),
        price: dec(1_000_000_000_000, 0),
        tax_rate: VatRate::Rate23,
    }];
    assert!(!amounts_fit_in_decimal(&huge));
    let custom = vec![Position {
        name: "X".to_string(),
        count: dec(1, 0),
        price: dec(1, 0),
        tax_rate: VatRate::Custom(i32::MIN),
    }];
    assert!(amounts_fit_in_decimal(&custom));
}

#[test]
fn model_places_domestic_parties_lines_and_terms() {
    let m = fa3_model(&data("PL"), None, day(2026, 1, 1)).ok().unwrap();
    assert_eq!(m.seller.party.nip, "8567346215");
    assert_eq!(m.seller.party.name, "Seller Corp");
    assert_eq!(m.seller.party.city, "Warsaw");
    assert_eq!(m.seller.taxpayer_prefix, None);
    assert_eq!(m.buyer.party.nip, "1765432897");
    assert_eq!(m.buyer.id_name, "Buyer Ltd");
    assert_eq!(m.buyer.id_nip, Some("1765432897".to_string()));
    assert_eq!(m.buyer.eu_code, None);
    assert_eq!(m.buyer.eu_vat_number, None);
    assert_eq!(m.invoice_number, "FV-01-01-26");
    assert_eq!(m.issue_date, "2026-01-01");
    assert_eq!(m.currency, "PLN");
    assert_eq!(m.lines.len(), 1);
    assert_eq!(m.lines[0].name, "Widget");
    assert_eq!((m.lines[0].price.mantissa, m.lines[0].price.scale), (1900, 2));
    assert_eq!(m.lines[0].tax_rate, VatRate::Rate23);
    assert!(m.lines[0].currency_rate.is_none());
    let p = m.payment.unwrap();
    assert_eq!(p.account_number, "10 1010 1010 1010");
    assert_eq!(p.term_dates, vec!["2026-01-15".to_string()]);
    assert_eq!(p.method, PAYMENT_METHOD_BANK_TRANSFER);
    assert_eq!(m.reverse_charge, REVERSE_CHARGE_UNSET);
    assert_eq!(m.system_info, None);
}

#[test]
fn model_for_buyer_abroad() {
    let mut d = data("DE");
    d.payment_details.as_mut().unwrap().period = None;
    let m = fa3_model(&d, Some(dec(43210, 4)), day(2024, 2, 28)).ok().unwrap();
    assert_eq!(m.seller.taxpayer_prefix, Some("PL".to_string()));
    assert_eq!(m.buyer.id_nip, None);
    assert_eq!(m.buyer.eu_code, Some("DE".to_string()));
    assert_eq!(m.buyer.eu_vat_number, Some("1765432897".to_string()));
    assert_eq!(m.reverse_charge, REVERSE_CHARGE_SET);
    assert_eq!(m.issue_date, "2024-02-28");
    let rate = m.lines[0].currency_rate.unwrap();
    assert_eq!((rate.mantissa, rate.scale), (43210, 4));
    assert!(m.payment.unwrap().term_dates.is_empty());
}

#[test]
fn model_without_payment_details_or_number() {
    let mut d = data("PL");
    d.payment_details = None;
    assert!(fa3_model(&d, None, day(2026, 1, 1)).ok().unwrap().payment.is_none());
    d.number = None;
    assert!(fa3_model(&d, None, day(2026, 1, 1)).is_err());
}
