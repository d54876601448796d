use ksef_tool::decimal::Dec;
use ksef_tool::invoice::{extract_invoice_number, PAYMENT_METHOD_BANK_TRANSFER};
use ksef_tool::model::{Address, InvoiceData, Subject};

fn subject(nip: &str, name: &str, street: &str, building: &str, city: &str, postal: &str) -> Subject {
    Subject {
        nip: nip.to_string(),
        name: name.to_string(),
        address: Address {
            country_code: "PL".to_string(),
            street: street.to_string(),
            building_number: building.to_string(),
            flat_number: None,
            city: city.to_string(),
            postal_code: postal.to_string(),
        },
    }
}

#[test]
fn test_invoice_number_valid() {
    let result = extract_invoice_number(Some("FV-01-01-26".to_string()));
    assert_eq!(result.unwrap(), "FV-01-01-26");
}

#[test]
fn test_invoice_number_trimmed() {
    let result = extract_invoice_number(Some("  FV-01  ".to_string()));
    assert_eq!(result.unwrap(), "FV-01");
}

#[test]
fn test_invoice_number_none_fails() {
    let result = extract_invoice_number(None);
    assert!(result.is_err());
    let err = result.unwrap_err().to_io_error();
    assert_eq!(err.kind(), std::io::ErrorKind::InvalidInput);
    assert_eq!(err.to_string(), "Missing required field: number");
}

#[test]
fn test_invoice_number_empty_string_fails() {
    let result = extract_invoice_number(Some("".to_string()));
    assert!(result.is_err());
}

#[test]
fn test_invoice_number_whitespace_only_fails() {
    let result = extract_invoice_number(Some("   ".to_string()));
    assert!(result.is_err(), "whitespace-only number should fail");
}

#[test]
fn test_invoice_number_tab_whitespace_only_fails() {
    let result = extract_invoice_number(Some("\t\n ".to_string()));
    assert!(result.is_err(), "tab/newline whitespace should fail");
}

#[test]
fn test_invoice_number_trimmed_non_empty_succeeds() {
    let result = extract_invoice_number(Some("\nFV-100\t".to_string()));
    assert_eq!(result.unwrap(), "FV-100");
}

#[test]
fn test_payment_method_bank_transfer_constant() {
    assert_eq!(PAYMENT_METHOD_BANK_TRANSFER, 6u8);
}

#[test]
fn test_invoice_data_null_number_becomes_none() {
    let data = InvoiceData {
        number: None,
        currency: "PLN".to_string(),
        seller: subject("1111111111", "S", "A", "1", "C", "00-000"),
        buyer: subject("2222222222", "B", "B", "2", "D", "11-111"),
        positions: vec![],
        payment_details: None,
    };
    assert_eq!(data.number, None);
    let number_result = extract_invoice_number(data.number);
    assert!(number_result.is_err(), "null number should fail validation");
}

#[test]
fn invoice_number_unicode_whitespace_is_trimmed() {
    let result = extract_invoice_number(Some("\u{3000}\u{00A0}FV 7\u{2003}".to_string()));
    assert_eq!(result.unwrap(), "FV 7");
    assert!(extract_invoice_number(Some("\u{2028}\u{205F}".to_string())).is_err());
}

#[test]
fn invoice_number_inner_whitespace_kept() {
    let result = extract_invoice_number(Some(" FV  01 ".to_string()));
    assert_eq!(result.unwrap(), "FV  01");
}

#[test]
fn dec_from_parts_range() {
    assert!(Dec::from_parts(1, 28).is_some());
    assert!(Dec::from_parts(1, 29).is_none());
    assert!(Dec::from_parts(0xFFFF_FFFF_FFFF_FFFF_FFFF_FFFF, 0).is_some());
    assert!(Dec::from_parts(0x1_0000_0000_0000_0000_0000_0000, 0).is_none());
    assert!(Dec::from_parts(-0x1_0000_0000_0000_0000_0000_0000, 0).is_none());
}

#[test]
fn invoice_number_trimming_twice_changes_nothing() {
    let once = extract_invoice_number(Some("\u{2009} FV/2026/01 \r\n".to_string())).unwrap();
    assert_eq!(once, "FV/2026/01");
    let twice = extract_invoice_number(Some(once.clone())).unwrap();
    assert_eq!(twice, once);
}

#[test]
fn missing_number_reports_invalid_input_with_its_message() {
    let err = extract_invoice_number(Some("   ".to_string())).unwrap_err().to_io_error();
    assert_eq!(err.kind(), std::io::ErrorKind::InvalidInput);
    assert_eq!(format!("{err}"), "Missing required field: number");
}
