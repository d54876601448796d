use ksef_tool::model::VatRate;
use ksef_tool::decimal::Dec;
use ksef_tool::invoice::{plan_invoice, REVERSE_CHARGE_SET, REVERSE_CHARGE_UNSET};
use ksef_tool::model::{Address, InvoiceData, PaymentDetails, Position, Subject};

fn address(country: &str) -> Address {
    Address {
        country_code: country.to_string(),
        street: "S".to_string(),
        building_number: "1".to_string(),
        flat_number: None,
        city: "C".to_string(),
        postal_code: "00-000".to_string(),
    }
}

fn data(buyer_country: &str, period: Option<u16>, with_payment: bool) -> InvoiceData {
    InvoiceData {
        number: Some(" FV-9 ".to_string()),
        currency: "EUR".to_string(),
        seller: Subject { nip: "8567346215".to_string(), name: "Seller".to_string(), address: address("PL") },
        buyer: Subject { nip: "DE123456789".to_string(), name: "Buyer".to_string(), address: address(buyer_country) },
        positions: vec![Position {
            name: "Item".to_string(),
            count: Dec::from_parts(1, 0).unwrap(),
            price: Dec::from_parts(1000, 2).unwrap(),
            tax_rate: VatRate::Rate23,
        }],
        payment_details: if with_payment {
            Some(PaymentDetails {
                bank_name: "Bank".to_string(),
                account_number: "1".to_string(),
                swift: None,
                period,
            })
        } else {
            None
        },
    }
}

#[test]
fn buyer_abroad_gets_reverse_charge_and_eu_ids() {
    let rate = Dec::from_parts(43210, 4).unwrap();
    let plan = plan_invoice(&data("DE", Some(14), true), Some(rate), 739_000).unwrap();
    assert_eq!(plan.invoice_number, "FV-9");
    assert_eq!(plan.reverse_charge, REVERSE_CHARGE_SET);
    assert_eq!(plan.seller_taxpayer_prefix, Some("PL".to_string()));
    assert_eq!(plan.buyer_nip, None);
    assert_eq!(plan.buyer_eu_code, Some("DE".to_string()));
    assert_eq!(plan.buyer_eu_vat_number, Some("DE123456789".to_string()));
    assert_eq!(plan.line_currency_rate.map(|d| (d.mantissa, d.scale)), Some((43210, 4)));
    assert_eq!(plan.payment_method, Some(6));
    assert_eq!(plan.payment_due_day, Some(739_014));
}

#[test]
fn domestic_buyer_keeps_polish_nip() {
    let plan = plan_invoice(&data("PL", None, true), None, 1).unwrap();
    assert_eq!(plan.reverse_charge, REVERSE_CHARGE_UNSET);
    assert_eq!(plan.seller_taxpayer_prefix, None);
    assert_eq!(plan.buyer_nip, Some("DE123456789".to_string()));
    assert_eq!(plan.buyer_eu_code, None);
    assert_eq!(plan.buyer_eu_vat_number, None);
    assert!(plan.line_currency_rate.is_none());
    assert_eq!(plan.payment_method, Some(6));
    assert_eq!(plan.payment_due_day, None);
}

#[test]
fn no_payment_details_no_payment() {
    let plan = plan_invoice(&data("PL", Some(3), false), None, 10).unwrap();
    assert_eq!(plan.payment_method, None);
    assert_eq!(plan.payment_due_day, None);
}

#[test]
fn lowercase_pl_counts_as_abroad() {
    let plan = plan_invoice(&data("pl", None, false), None, 10).unwrap();
    assert_eq!(plan.reverse_charge, REVERSE_CHARGE_SET);
}

#[test]
fn blank_number_fails_planning() {
    let mut d = data("PL", None, false);
    d.number = Some("\t".to_string());
    let err = plan_invoice(&d, None, 10).err().unwrap();
    assert_eq!(err.to_io_error().kind(), std::io::ErrorKind::InvalidInput);
}
