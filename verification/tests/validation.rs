use ksef_tool::model::VatRate;
use ksef_tool::decimal::Dec;
use ksef_tool::model::{Address, InvoiceData, PaymentDetails, Position, Subject};
use ksef_tool::validation::{
    add_err, check_country_code, check_non_empty, validate_invoice_data, validate_subject,
    ValidationError, ValidationErrors,
};

fn dec(mantissa: i128, scale: u32) -> Dec {
    Dec::from_parts(mantissa, scale).unwrap()
}

fn address(country: &str, street: &str, building: &str, flat: Option<&str>, city: &str, postal: &str) -> Address {
    Address {
        country_code: country.to_string(),
        street: street.to_string(),
        building_number: building.to_string(),
        flat_number: flat.map(|s| s.to_string()),
        city: city.to_string(),
        postal_code: postal.to_string(),
    }
}

fn subject(nip: &str, name: &str, address: Address) -> Subject {
    Subject { nip: nip.to_string(), name: name.to_string(), address }
}

fn position(name: &str, count: Dec, price: Dec, tax_rate: VatRate) -> Position {
    Position { name: name.to_string(), count, price, tax_rate }
}

fn default_seller() -> Subject {
    subject("8567346215", "Seller", address("PL", "S", "1", None, "C", "00-000"))
}

fn default_buyer() -> Subject {
    subject("1765432897", "Buyer", address("PL", "B", "2", None, "D", "11-111"))
}

fn one_item() -> Vec<Position> {
    vec![position("Item", dec(1, 0), dec(1000, 2), VatRate::Rate23)]
}

fn full_invoice() -> InvoiceData {
    InvoiceData {
        number: Some("FV-01-01-26".to_string()),
        currency: "PLN".to_string(),
        seller: subject(
            "8567346215",
            "Seller Corp",
            address("PL", "Main St", "1", Some("2"), "Warsaw", "00-000"),
        ),
        buyer: subject(
            "1765432897",
            "Buyer Ltd",
            address("PL", "Second Ave", "10", None, "Krakow", "30-300"),
        ),
        positions: vec![position("Widget", dec(2, 0), dec(1900, 2), VatRate::Rate23)],
        payment_details: Some(PaymentDetails {
            bank_name: "Bank PKO".to_string(),
            account_number: "10 1010 1010 1010".to_string(),
            swift: Some("PKOPPLPW".to_string()),
            period: Some(14),
        }),
    }
}

fn pl_nip_check_digit(digits9: &str) -> u32 {
    let weights = [6u32, 5, 7, 2, 3, 4, 5, 6, 7];
    let sum: u32 = digits9
        .chars()
        .zip(weights.iter())
        .map(|(c, w)| c.to_digit(10).unwrap() * (*w))
        .sum();
    let checksum = sum % 11;
    if checksum == 10 { 0 } else { checksum }
}

fn pairs(errors: &ValidationErrors) -> Vec<(String, String)> {
    errors.0.iter().map(|e| (e.path.clone(), e.message.clone())).collect()
}

fn pair(path: &str, message: &str) -> (String, String) {
    (path.to_string(), message.to_string())
}

#[test]
fn test_validation_accepts_full_invoice() {
    let data = full_invoice();
    assert!(validate_invoice_data(&data).is_ok());
}

#[test]
fn test_validation_rejects_empty_positions() {
    let data = InvoiceData {
        number: Some("FV-EMPTY".to_string()),
        currency: "PLN".to_string(),
        seller: default_seller(),
        buyer: default_buyer(),
        positions: vec![],
        payment_details: None,
    };
    assert!(validate_invoice_data(&data).is_err());
}

#[test]
fn test_validation_allows_buyer_empty_nip() {
    let data = InvoiceData {
        number: Some("FV-01".to_string()),
        currency: "PLN".to_string(),
        seller: default_seller(),
        buyer: subject("", "Buyer", address("PL", "B", "2", None, "D", "11-111")),
        positions: one_item(),
        payment_details: None,
    };
    assert!(validate_invoice_data(&data).is_ok());
}

#[test]
fn test_validation_allows_non_pl_seller_nip_of_different_length() {
    let data = InvoiceData {
        number: Some("FV-INT".to_string()),
        currency: "PLN".to_string(),
        seller: subject("ABC123", "Intl Seller", address("DE", "Some Str", "9", None, "Berlin", "10115")),
        buyer: default_buyer(),
        positions: one_item(),
        payment_details: None,
    };
    assert!(validate_invoice_data(&data).is_ok());
}

#[test]
fn test_validation_rejects_invalid_swift_and_empty_account_number() {
    let data = InvoiceData {
        number: Some("FV-ERR".to_string()),
        currency: "PLN".to_string(),
        seller: default_seller(),
        buyer: default_buyer(),
        positions: one_item(),
        payment_details: Some(PaymentDetails {
            bank_name: "Bank".to_string(),
            account_number: "".to_string(),
            swift: Some("BAD-SW!FT".to_string()),
            period: Some(10),
        }),
    };
    assert!(validate_invoice_data(&data).is_err());
}

#[test]
fn test_validation_rejects_invalid_pl_nip_checksum() {
    let data = InvoiceData {
        number: Some("FV-NIP-ERR".to_string()),
        currency: "PLN".to_string(),
        seller: subject("1234567890", "Seller", address("PL", "S", "1", None, "C", "00-000")),
        buyer: default_buyer(),
        positions: one_item(),
        payment_details: None,
    };
    assert!(validate_invoice_data(&data).is_err());
}

#[test]
fn test_validation_accepts_valid_pl_nip_checksum() {
    let digits9 = "856734621";
    let check = pl_nip_check_digit(digits9);
    let full = format!("{}{}", digits9, check);
    let data = InvoiceData {
        number: Some("FV-NIP-OK".to_string()),
        currency: "PLN".to_string(),
        seller: subject(&full, "Seller", address("PL", "S", "1", None, "C", "00-000")),
        buyer: default_buyer(),
        positions: one_item(),
        payment_details: None,
    };
    assert!(validate_invoice_data(&data).is_ok());
}

#[test]
fn validation_reports_every_error_in_field_order() {
    let data = InvoiceData {
        number: None,
        currency: "EURO".to_string(),
        seller: subject(" ", "", address("pl", " ", "", None, "\t", "")),
        buyer: subject("1234567890", "B", address("PL", "B", "2", None, "D", "11-111")),
        positions: vec![
            position("ok", dec(1, 0), dec(0, 0), VatRate::Rate8),
            position(" ", dec(0, 0), dec(-1, 2), VatRate::Zw),
        ],
        payment_details: Some(PaymentDetails {
            bank_name: "Bank".to_string(),
            account_number: "  ".to_string(),
            swift: Some(" PKO-PLPW ".to_string()),
            period: None,
        }),
    };
    let errors = validate_invoice_data(&data).unwrap_err();
    assert_eq!(
        pairs(&errors),
        vec![
            pair("number", "invoice number is missing"),
            pair("currency", "invalid currency code length"),
            pair("seller.nip", "nip is empty"),
            pair("seller.name", "name is empty"),
            pair("seller.address.country_code", "country_code must be two uppercase ASCII letters"),
            pair("seller.address.street", "street is empty"),
            pair("seller.address.building_number", "building_number is empty"),
            pair("seller.address.city", "city is empty"),
            pair("seller.address.postal_code", "postal_code is empty"),
            pair("buyer.nip", "PL NIP is invalid (checksum or length)"),
            pair("positions[1].name", "position name is empty"),
            pair("positions[1].count", "count must be > 0"),
            pair("positions[1].price", "price must be >= 0"),
            pair("payment_details.account_number", "account_number is empty"),
            pair("payment_details.swift", "SWIFT contains invalid characters"),
        ]
    );
}

#[test]
fn validation_empty_number_and_positions() {
    let data = InvoiceData {
        number: Some(" \t".to_string()),
        currency: "PLN".to_string(),
        seller: default_seller(),
        buyer: default_buyer(),
        positions: vec![],
        payment_details: None,
    };
    let errors = validate_invoice_data(&data).unwrap_err();
    assert_eq!(
        pairs(&errors),
        vec![
            pair("number", "invoice number is empty"),
            pair("positions", "positions array must contain at least one position"),
        ]
    );
}

#[test]
fn validation_swift_length_counts_bytes_after_trim() {
    let mut data = full_invoice();
    data.payment_details.as_mut().unwrap().swift = Some("  PKOPPLPWXXX ".to_string());
    assert!(validate_invoice_data(&data).is_ok());
    data.payment_details.as_mut().unwrap().swift = Some("PKOPPLP".to_string());
    let errors = validate_invoice_data(&data).unwrap_err();
    assert_eq!(
        pairs(&errors),
        vec![pair("payment_details.swift", "SWIFT must be 8 or 11 characters if present")]
    );
    // Eight characters but nine bytes: both rules fail.
    data.payment_details.as_mut().unwrap().swift = Some("PKOPPLPŁ".to_string());
    let errors = validate_invoice_data(&data).unwrap_err();
    assert_eq!(
        pairs(&errors),
        vec![
            pair("payment_details.swift", "SWIFT must be 8 or 11 characters if present"),
            pair("payment_details.swift", "SWIFT contains invalid characters"),
        ]
    );
}

#[test]
fn validation_currency_must_be_three_ascii_letters() {
    let mut data = full_invoice();
    data.currency = "eur".to_string();
    assert!(validate_invoice_data(&data).is_ok());
    data.currency = "PL".to_string();
    assert_eq!(pairs(&validate_invoice_data(&data).unwrap_err()), vec![pair("currency", "invalid currency code length")]);
    data.currency = "123".to_string();
    assert_eq!(
        pairs(&validate_invoice_data(&data).unwrap_err()),
        vec![pair("currency", "currency code must consist of three ASCII letters")]
    );
    data.currency = "ZŁY".to_string();
    assert_eq!(
        pairs(&validate_invoice_data(&data).unwrap_err()),
        vec![pair("currency", "currency code must consist of three ASCII letters")]
    );
}

#[test]
fn validation_pl_nip_not_ten_digits() {
    let mut data = full_invoice();
    data.seller.nip = "856 734 6215".to_string();
    assert_eq!(
        pairs(&validate_invoice_data(&data).unwrap_err()),
        vec![pair("seller.nip", "PL NIP must contain 10 digits")]
    );
    data.seller.nip = "856734621".to_string();
    assert_eq!(
        pairs(&validate_invoice_data(&data).unwrap_err()),
        vec![pair("seller.nip", "PL NIP must contain 10 digits")]
    );
    data.seller.nip = "8567346216".to_string();
    assert_eq!(
        pairs(&validate_invoice_data(&data).unwrap_err()),
        vec![pair("seller.nip", "PL NIP is invalid (checksum or length)")]
    );
}

#[test]
fn validation_buyer_invalid_pl_nip_only_when_polish() {
    let mut data = full_invoice();
    data.buyer.nip = "123".to_string();
    assert_eq!(
        pairs(&validate_invoice_data(&data).unwrap_err()),
        vec![pair("buyer.nip", "PL NIP must contain 10 digits")]
    );
    data.buyer.address.country_code = "DE".to_string();
    assert!(validate_invoice_data(&data).is_ok());
}

#[test]
fn validation_many_positions_paths() {
    let mut data = full_invoice();
    let mut positions = Vec::new();
    for i in 0..12 {
        let count = if i == 11 { dec(-5, 1) } else { dec(1, 0) };
        positions.push(position("P", count, dec(1, 0), VatRate::Rate5));
    }
    data.positions = positions;
    assert_eq!(pairs(&validate_invoice_data(&data).unwrap_err()), vec![pair("positions[11].count", "count must be > 0")]);
}

#[test]
fn validate_subject_seller_requires_nip_buyer_does_not() {
    let s = subject("", "N", address("PL", "S", "1", None, "C", "00-000"));
    let mut errors = ValidationErrors::default();
    validate_subject(&s, "seller", true, &mut errors);
    assert_eq!(pairs(&errors), vec![pair("seller.nip", "nip is empty")]);
    let mut errors = ValidationErrors::default();
    validate_subject(&s, "buyer", false, &mut errors);
    assert!(errors.0.is_empty());
}

#[test]
fn check_helpers_append_errors() {
    let mut errors = ValidationErrors::default();
    check_non_empty(&mut errors, "a".to_string(), "  x ", "a is empty");
    assert!(errors.is_empty());
    check_non_empty(&mut errors, "a".to_string(), "\u{00A0}", "a is empty");
    check_country_code(&mut errors, "cc".to_string(), "PL");
    check_country_code(&mut errors, "cc".to_string(), "Pl");
    check_country_code(&mut errors, "cc".to_string(), "POL");
    add_err(&mut errors, "p".to_string(), "m".to_string());
    assert_eq!(
        pairs(&errors),
        vec![
            pair("a", "a is empty"),
            pair("cc", "country_code must be two uppercase ASCII letters"),
            pair("cc", "country_code must be two uppercase ASCII letters"),
            pair("p", "m"),
        ]
    );
}

#[test]
fn errors_render_one_line_each() {
    let errors = ValidationErrors::from(vec![
        ValidationError { path: "positions".to_string(), message: "positions array must contain at least one position".to_string() },
        ValidationError { path: "seller.nip".to_string(), message: "PL NIP must contain 10 digits".to_string() },
    ]);
    assert_eq!(
        errors.render(),
        "positions: positions array must contain at least one position\nseller.nip: PL NIP must contain 10 digits"
    );
    assert_eq!(ValidationErrors::default().render(), "");
    let mut n = 0;
    for e in &errors {
        assert!(!e.path.is_empty());
        n += 1;
    }
    assert_eq!(n, 2);
}

#[test]
fn no_payment_details_no_payment_entries() {
    let mut data = full_invoice();
    data.payment_details = None;
    data.positions = vec![];
    let errors = validate_invoice_data(&data).unwrap_err();
    assert!(errors.0.iter().all(|e| !e.path.starts_with("payment_details")));
    assert_eq!(errors.len(), 1);
}

#[test]
fn blank_polish_seller_nip_is_reported_once() {
    let mut data = full_invoice();
    data.seller.nip = "   ".to_string();
    assert_eq!(pairs(&validate_invoice_data(&data).unwrap_err()), vec![pair("seller.nip", "nip is empty")]);
}

#[test]
fn validation_positions_entries_are_only_the_failed_fields() {
    let mut data = full_invoice();
    data.positions = vec![
        position(" ", dec(0, 0), dec(-1, 2), VatRate::Custom(-5)),
        position("Ok", dec(3, 0), dec(100, 2), VatRate::Zw),
    ];
    let errors = validate_invoice_data(&data).unwrap_err();
    let under_positions: Vec<String> = errors
        .0
        .iter()
        .map(|e| e.path.clone())
        .filter(|p| p.starts_with("positions"))
        .collect();
    assert_eq!(
        under_positions,
        vec!["positions[0].name", "positions[0].count", "positions[0].price"]
    );
}
