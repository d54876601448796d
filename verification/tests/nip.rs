use ksef_tool::validation::is_valid_pl_nip;

fn pl_nip_check_digit(digits9: &str) -> u32 {
    let weights = [6u32, 5, 7, 2, 3, 4, 5, 6, 7];
    let sum: u32 = digits9
        .chars()
        .zip(weights.iter())
        .map(|(c, w)| c.to_digit(10).unwrap() * (*w))
        .sum();
    let checksum = sum % 11;
    if checksum == 10 { 0 } else { checksum }
}

#[test]
fn test_is_valid_pl_nip_rejects_formatted_inputs() {
    assert!(!is_valid_pl_nip("856 734 6215"));
    assert!(!is_valid_pl_nip("856-734-6215"));
}

#[test]
fn test_is_valid_pl_nip_rejects_non_digits() {
    assert!(!is_valid_pl_nip("85A7346215"));
}

#[test]
fn nip_accepts_known_valid_numbers() {
    assert!(is_valid_pl_nip("8567346215"));
    assert!(is_valid_pl_nip("1765432897"));
}

#[test]
fn nip_rejects_wrong_check_digit() {
    assert!(!is_valid_pl_nip("1234567890"));
    assert!(!is_valid_pl_nip("8567346216"));
}

#[test]
fn nip_rejects_wrong_lengths() {
    assert!(!is_valid_pl_nip(""));
    assert!(!is_valid_pl_nip("856734621"));
    assert!(!is_valid_pl_nip("85673462150"));
}

#[test]
fn nip_rejects_non_ascii_digits() {
    // Arabic-Indic digits are digits in Unicode but not ASCII digits.
    assert!(!is_valid_pl_nip("\u{0668}567346215"));
}

#[test]
fn nip_check_digit_law_on_examples() {
    for nine in ["856734621", "176543289", "111111111", "000000000"] {
        let full = format!("{}{}", nine, pl_nip_check_digit(nine));
        assert!(is_valid_pl_nip(&full), "{}", full);
    }
}

#[test]
fn nip_remainder_ten_has_no_check_digit() {
    // Weighted sum 5 * 2 = 10: no tenth digit makes this a valid NIP.
    let nine = "000000200";
    for d in 0..10 {
        assert!(!is_valid_pl_nip(&format!("{}{}", nine, d)));
    }
    // Weighted sum 6 * 5 = 30, 30 % 11 = 8.
    assert!(is_valid_pl_nip("0000000508"));
}

#[test]
fn every_single_digit_change_of_a_valid_nip_is_rejected() {
    let nip = "8567346215";
    assert!(is_valid_pl_nip(nip));
    for k in 0..10 {
        for d in '0'..='9' {
            let mut chars: Vec<char> = nip.chars().collect();
            if chars[k] == d {
                continue;
            }
            chars[k] = d;
            let changed: String = chars.into_iter().collect();
            assert!(!is_valid_pl_nip(&changed), "{changed}");
        }
    }
}

#[test]
fn every_adjacent_swap_of_a_valid_nip_is_rejected() {
    let nip = "8567346215";
    for k in 0..9 {
        let mut chars: Vec<char> = nip.chars().collect();
        if chars[k] == chars[k + 1] {
            continue;
        }
        chars.swap(k, k + 1);
        let swapped: String = chars.into_iter().collect();
        assert!(!is_valid_pl_nip(&swapped), "{swapped}");
    }
}
