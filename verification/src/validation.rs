//! Checks an invoice descriptor after it was read: presence, basic formats and the rules that
//! relate fields (Polish NIP checksum, SWIFT shape, positions).

use vstd::prelude::*;

use crate::model::{Address, InvoiceData, PaymentDetails, Position, Subject};
use crate::text::{
    all_ascii_digits, all_ascii_letters, ascii_digits, ascii_letters,
    blank, char_is_ascii_alphanumeric, char_is_ascii_digit, char_is_ascii_uppercase,
    chars_of, decimal_string, decimal_text, digit_of, digit_value, is_ascii_alphanumeric,
    is_ascii_digit, is_ascii_uppercase, is_blank, same_text, str_len, trim, trimmed,
};

verus! {

broadcast use vstd::string::group_string_axioms;

/// One rule that the descriptor breaks: where, and what.
#[derive(Clone, Debug)]
pub struct ValidationError {
    pub path: String,
    pub message: String,
}

impl View for ValidationError {
    type V = (Seq<char>, Seq<char>);

    open spec fn view(&self) -> (Seq<char>, Seq<char>) {
        (self.path@, self.message@)
    }
}

/// Every rule that the descriptor breaks, in the order in which they were found.
#[derive(Debug)]
pub struct ValidationErrors(pub Vec<ValidationError>);

impl View for ValidationErrors {
    type V = Seq<(Seq<char>, Seq<char>)>;

    open spec fn view(&self) -> Seq<(Seq<char>, Seq<char>)> {
        self.0@.map_values(|e: ValidationError| e@)
    }
}

impl Default for ValidationErrors {
    fn default() -> (r: Self)
        ensures
            r@ == Seq::<(Seq<char>, Seq<char>)>::empty(),
    {
        let r = ValidationErrors(Vec::new());
        assert(r@ =~= Seq::<(Seq<char>, Seq<char>)>::empty());
        r
    }
}

impl From<Vec<ValidationError>> for ValidationErrors {
    fn from(v: Vec<ValidationError>) -> (r: Self) {
        ValidationErrors(v)
    }
}

impl vstd::std_specs::convert::FromSpecImpl<Vec<ValidationError>> for ValidationErrors {
    open spec fn obeys_from_spec() -> bool {
        true
    }

    open spec fn from_spec(v: Vec<ValidationError>) -> Self {
        ValidationErrors(v)
    }
}

impl core::ops::Deref for ValidationErrors {
    type Target = Vec<ValidationError>;

    fn deref(&self) -> (r: &Vec<ValidationError>)
        ensures
            r == &self.0,
    {
        &self.0
    }
}

impl<'a> IntoIterator for &'a ValidationErrors {
    type Item = &'a ValidationError;

    type IntoIter = core::slice::Iter<'a, ValidationError>;

    fn into_iter(self) -> (r: core::slice::Iter<'a, ValidationError>)
        ensures
            vstd::std_specs::iter::IteratorSpec::remaining(&r) == self.0@.as_ref(),
    {
        broadcast use vstd::std_specs::slice::axiom_spec_slice_iter;

        self.0.iter()
    }
}

/// One line of the report: `path: message`.
pub open spec fn report_line(e: (Seq<char>, Seq<char>)) -> Seq<char> {
    e.0 + ": "@ + e.1
}

/// The report lines of `es`, separated by line breaks.
pub open spec fn report(es: Seq<(Seq<char>, Seq<char>)>) -> Seq<char>
    decreases es.len(),
{
    if es.len() == 0 {
        Seq::empty()
    } else if es.len() == 1 {
        report_line(es[0])
    } else {
        report(es.drop_last()) + "\n"@ + report_line(es.last())
    }
}

impl ValidationErrors {
    /// The text that the error list displays: one `path: message` line per error.
    pub fn render(&self) -> (s: String)
        ensures
            s@ == report(self@),
    {
        let mut s = String::new();
        let n = self.0.len();
        let mut i: usize = 0;
        while i < n
            invariant
                i <= n,
                n == self.0@.len(),
                s@ == report(self@.take(i as int)),
            decreases n - i,
        {
            let ghost before = s@;
            if i > 0 {
                s.append("\n");
            }
            s.append(self.0[i].path.as_str());
            s.append(": ");
            s.append(self.0[i].message.as_str());
            proof {
                let t = self@.take(i + 1);
                assert(t.drop_last() =~= self@.take(i as int));
                assert(t.last() == self@[i as int]);
                assert(self@[i as int] == self.0@[i as int]@);
                if i == 0 {
                    assert(before =~= Seq::<char>::empty());
                }
                assert(s@ =~= report(t));
            }
            i = i + 1;
        }
        assert(self@.take(n as int) =~= self@);
        s
    }
}

/// A one-element list of issues when `cond` holds, the empty list otherwise.
pub open spec fn issue(cond: bool, path: Seq<char>, message: Seq<char>) -> Seq<
    (Seq<char>, Seq<char>),
> {
    if cond {
        seq![(path, message)]
    } else {
        Seq::empty()
    }
}

/// Weighted digit sum of the first nine digits of a NIP.
pub open spec fn nip_weighted_sum(s: Seq<char>) -> int {
    6 * digit_value(s[0]) + 5 * digit_value(s[1]) + 7 * digit_value(s[2]) + 2 * digit_value(s[3])
        + 3 * digit_value(s[4]) + 4 * digit_value(s[5]) + 5 * digit_value(s[6]) + 6
        * digit_value(s[7]) + 7 * digit_value(s[8])
}

/// A Polish NIP: ten ASCII digits whose weighted sum of the first nine, modulo 11, is the tenth
/// (a remainder of 10 matches no digit, so such a number is never valid).
pub open spec fn valid_pl_nip(s: Seq<char>) -> bool {
    &&& forall|i: int| 0 <= i < s.len() ==> is_ascii_digit(#[trigger] s[i])
    &&& s.len() == 10
    &&& nip_weighted_sum(s) % 11 == digit_value(s[9])
}

/// Exactly two characters, both ASCII capitals (two bytes of UTF-8).
pub open spec fn valid_country_code(s: Seq<char>) -> bool {
    &&& str_len(s) == 2
    &&& forall|i: int| 0 <= i < s.len() ==> is_ascii_uppercase(#[trigger] s[i])
}

pub open spec fn number_issues(number: Option<String>) -> Seq<(Seq<char>, Seq<char>)> {
    match number {
        None => seq![("number"@, "invoice number is missing"@)],
        Some(n) => issue(blank(n@), "number"@, "invoice number is empty"@),
    }
}

/// A currency code is three ASCII letters (such as PLN or EUR): a wrong number of characters is
/// reported as such, three characters that are not all letters otherwise.
pub open spec fn currency_issues(currency: Seq<char>) -> Seq<(Seq<char>, Seq<char>)> {
    issue(currency.len() != 3, "currency"@, "invalid currency code length"@) + issue(
        currency.len() == 3 && !ascii_letters(currency),
        "currency"@,
        "currency code must consist of three ASCII letters"@,
    )
}

/// Exactly ten ASCII digits.
pub open spec fn ten_digits(s: Seq<char>) -> bool {
    s.len() == 10 && ascii_digits(s)
}

pub open spec fn nip_issues(s: Subject, key: Seq<char>, is_seller: bool) -> Seq<
    (Seq<char>, Seq<char>),
> {
    issue(is_seller && blank(s.nip@), key + ".nip"@, "nip is empty"@) + issue(
        !blank(s.nip@) && s.address.country_code@ == "PL"@ && !ten_digits(s.nip@),
        key + ".nip"@,
        "PL NIP must contain 10 digits"@,
    ) + issue(
        !blank(s.nip@) && s.address.country_code@ == "PL"@ && ten_digits(s.nip@)
            && !valid_pl_nip(s.nip@),
        key + ".nip"@,
        "PL NIP is invalid (checksum or length)"@,
    )
}

pub open spec fn address_issues(a: Address, key: Seq<char>) -> Seq<(Seq<char>, Seq<char>)> {
    issue(
        !valid_country_code(a.country_code@),
        key + ".address.country_code"@,
        "country_code must be two uppercase ASCII letters"@,
    ) + issue(blank(a.street@), key + ".address.street"@, "street is empty"@) + issue(
        blank(a.building_number@),
        key + ".address.building_number"@,
        "building_number is empty"@,
    ) + issue(blank(a.city@), key + ".address.city"@, "city is empty"@) + issue(
        blank(a.postal_code@),
        key + ".address.postal_code"@,
        "postal_code is empty"@,
    )
}

pub open spec fn subject_issues(s: Subject, key: Seq<char>, is_seller: bool) -> Seq<
    (Seq<char>, Seq<char>),
> {
    nip_issues(s, key, is_seller) + issue(blank(s.name@), key + ".name"@, "name is empty"@)
        + address_issues(s.address, key)
}

/// `positions[i]`
pub open spec fn position_path(i: nat) -> Seq<char> {
    "positions["@ + decimal_text(i) + "]"@
}

pub open spec fn position_issues(i: nat, p: Position) -> Seq<(Seq<char>, Seq<char>)> {
    issue(blank(p.name@), position_path(i) + ".name"@, "position name is empty"@) + issue(
        p.count.mantissa <= 0,
        position_path(i) + ".count"@,
        "count must be > 0"@,
    ) + issue(p.price.mantissa < 0, position_path(i) + ".price"@, "price must be >= 0"@)
}

/// The issues of each position of `ps`, in order.
pub open spec fn each_position_issues(ps: Seq<Position>) -> Seq<(Seq<char>, Seq<char>)>
    decreases ps.len(),
{
    if ps.len() == 0 {
        Seq::empty()
    } else {
        each_position_issues(ps.drop_last()) + position_issues((ps.len() - 1) as nat, ps.last())
    }
}

pub open spec fn positions_issues(ps: Seq<Position>) -> Seq<(Seq<char>, Seq<char>)> {
    issue(ps.len() == 0, "positions"@, "positions array must contain at least one position"@)
        + each_position_issues(ps)
}

pub open spec fn swift_issues(swift: Seq<char>) -> Seq<(Seq<char>, Seq<char>)> {
    let t = trimmed(swift);
    issue(
        !(str_len(t) == 8 || str_len(t) == 11),
        "payment_details.swift"@,
        "SWIFT must be 8 or 11 characters if present"@,
    ) + issue(
        !(forall|i: int| 0 <= i < t.len() ==> is_ascii_alphanumeric(#[trigger] t[i])),
        "payment_details.swift"@,
        "SWIFT contains invalid characters"@,
    )
}

pub open spec fn payment_issues(pd: Option<PaymentDetails>) -> Seq<(Seq<char>, Seq<char>)> {
    match pd {
        None => Seq::empty(),
        Some(p) => issue(
            blank(p.account_number@),
            "payment_details.account_number"@,
            "account_number is empty"@,
        ) + match p.swift {
            None => Seq::empty(),
            Some(s) => swift_issues(s@),
        },
    }
}

/// Every rule that `d` breaks, in the order in which validation reports them.
pub open spec fn invoice_issues(d: InvoiceData) -> Seq<(Seq<char>, Seq<char>)> {
    number_issues(d.number) + currency_issues(d.currency@) + subject_issues(
        d.seller,
        "seller"@,
        true,
    ) + subject_issues(d.buyer, "buyer"@, false) + positions_issues(d.positions@)
        + payment_issues(d.payment_details)
}

/// Appends the error `path: message`.
pub fn add_err(errors: &mut ValidationErrors, path: String, message: String)
    ensures
        final(errors)@ == old(errors)@.push((path@, message@)),
{
    let e = ValidationError { path, message };
    errors.0.push(e);
    assert(errors@ =~= old(errors)@.push((path@, message@)));
}

/// Appends an error when `condition` holds.
fn add_err_if(errors: &mut ValidationErrors, condition: bool, path: String, message: &str)
    ensures
        final(errors)@ == old(errors)@ + issue(condition, path@, message@),
{
    if condition {
        add_err(errors, path, String::from_str(message));
        assert(errors@ =~= old(errors)@ + issue(condition, path@, message@));
    } else {
        assert(errors@ =~= old(errors)@ + issue(condition, path@, message@));
    }
}

/// Validates a Polish NIP: only a string of exactly ten ASCII digits with a matching check
/// digit is accepted; spaces, dashes and other characters are rejected.
pub fn is_valid_pl_nip(nip: &str) -> (b: bool)
    ensures
        b == valid_pl_nip(nip@),
{
    let v = chars_of(nip);
    let mut i: usize = 0;
    while i < v.len()
        invariant
            i <= v@.len(),
            v@ == nip@,
            forall|k: int| 0 <= k < i ==> is_ascii_digit(#[trigger] nip@[k]),
        decreases v@.len() - i,
    {
        if !char_is_ascii_digit(v[i]) {
            return false;
        }
        i = i + 1;
    }
    if v.len() != 10 {
        return false;
    }
    let sum: u32 = 6 * digit_of(v[0]) + 5 * digit_of(v[1]) + 7 * digit_of(v[2]) + 2 * digit_of(
        v[3],
    ) + 3 * digit_of(v[4]) + 4 * digit_of(v[5]) + 5 * digit_of(v[6]) + 6 * digit_of(v[7]) + 7
        * digit_of(v[8]);
    let checksum = sum % 11;
    if checksum == 10 {
        return false;
    }
    checksum == digit_of(v[9])
}

/// Appends `message` at `path` when `val` is empty once trimmed.
pub fn check_non_empty(errors: &mut ValidationErrors, path: String, val: &str, message: &str)
    ensures
        final(errors)@ == old(errors)@ + issue(blank(val@), path@, message@),
{
    let b = is_blank(val);
    add_err_if(errors, b, path, message);
}

/// A country code passes exactly when it is two characters, each of `A` to `Z`: every pair of
/// ASCII capitals passes, and a code that passes holds only capitals, two of them (for any
/// text whose length fits in memory).
pub proof fn lemma_country_code_is_two_capitals(s: Seq<char>)
    ensures
        s.len() == 2 && 'A' <= s[0] <= 'Z' && 'A' <= s[1] <= 'Z' ==> valid_country_code(s),
        valid_country_code(s) ==> forall|i: int| 0 <= i < s.len() ==> 'A' <= #[trigger] s[i] <= 'Z',
        valid_country_code(s) && s.len() <= usize::MAX ==> s.len() == 2,
{
    if forall|i: int| 0 <= i < s.len() ==> is_ascii_uppercase(#[trigger] s[i]) {
        assert(vstd::utf8::is_ascii_chars(s));
        vstd::utf8::is_ascii_chars_encode_utf8(s);
    }
    if s.len() == 2 && 'A' <= s[0] <= 'Z' && 'A' <= s[1] <= 'Z' {
        assert forall|i: int| 0 <= i < s.len() implies is_ascii_uppercase(#[trigger] s[i]) by {
            assert(i == 0 || i == 1);
        }
        assert(vstd::utf8::is_ascii_chars(s));
        vstd::utf8::is_ascii_chars_encode_utf8(s);
    }
}

/// Appends an error at `path` unless `code` is two ASCII capitals.
pub fn check_country_code(errors: &mut ValidationErrors, path: String, code: &str)
    ensures
        final(errors)@ == old(errors)@ + issue(
            !valid_country_code(code@),
            path@,
            "country_code must be two uppercase ASCII letters"@,
        ),
        code@.len() == 2 && 'A' <= code@[0] <= 'Z' && 'A' <= code@[1] <= 'Z' ==> final(errors)@
            == old(errors)@,
{
    proof {
        lemma_country_code_is_two_capitals(code@);
    }
    let v = chars_of(code);
    let mut all_upper = true;
    let mut i: usize = 0;
    while i < v.len()
        invariant
            i <= v@.len(),
            v@ == code@,
            all_upper == forall|k: int| 0 <= k < i ==> is_ascii_uppercase(#[trigger] code@[k]),
        decreases v@.len() - i,
    {
        if !char_is_ascii_uppercase(v[i]) {
            all_upper = false;
        }
        i = i + 1;
    }
    let bad = code.len() != 2 || !all_upper;
    add_err_if(errors, bad, path, "country_code must be two uppercase ASCII letters");
}

/// `key` followed by `suffix`.
fn joined(key: &str, suffix: &str) -> (s: String)
    ensures
        s@ == key@ + suffix@,
{
    let mut s = String::from_str(key);
    s.append(suffix);
    s
}

/// Checks the address fields of a party.
fn validate_address(addr: &Address, key: &str, errors: &mut ValidationErrors)
    ensures
        final(errors)@ == old(errors)@ + address_issues(*addr, key@),
{
    check_country_code(errors, joined(key, ".address.country_code"), addr.country_code.as_str());
    check_non_empty(errors, joined(key, ".address.street"), addr.street.as_str(), "street is empty");
    check_non_empty(
        errors,
        joined(key, ".address.building_number"),
        addr.building_number.as_str(),
        "building_number is empty",
    );
    check_non_empty(errors, joined(key, ".address.city"), addr.city.as_str(), "city is empty");
    check_non_empty(
        errors,
        joined(key, ".address.postal_code"),
        addr.postal_code.as_str(),
        "postal_code is empty",
    );
    assert(errors@ =~= old(errors)@ + address_issues(*addr, key@));
}

/// Checks a party's NIP: required for the seller, and a valid checksum for a Polish party.
fn validate_nip(subj: &Subject, key: &str, is_seller: bool, errors: &mut ValidationErrors)
    ensures
        final(errors)@ == old(errors)@ + nip_issues(*subj, key@, is_seller),
{
    let nip_blank = is_blank(subj.nip.as_str());
    add_err_if(errors, is_seller && nip_blank, joined(key, ".nip"), "nip is empty");
    let is_pl = same_text(subj.address.country_code.as_str(), "PL");
    let digits = chars_of(subj.nip.as_str()).len() == 10 && all_ascii_digits(subj.nip.as_str());
    add_err_if(errors, !nip_blank && is_pl && !digits, joined(key, ".nip"), "PL NIP must contain 10 digits");
    let bad_checksum = !nip_blank && is_pl && digits && !is_valid_pl_nip(subj.nip.as_str());
    add_err_if(errors, bad_checksum, joined(key, ".nip"), "PL NIP is invalid (checksum or length)");
    assert(errors@ =~= old(errors)@ + nip_issues(*subj, key@, is_seller));
}

/// Checks one party: its NIP (required for the seller; checksum for Polish parties), name and
/// address fields.
pub fn validate_subject(subj: &Subject, key: &str, is_seller: bool, errors: &mut ValidationErrors)
    ensures
        final(errors)@ == old(errors)@ + subject_issues(*subj, key@, is_seller),
{
    validate_nip(subj, key, is_seller, errors);
    check_non_empty(errors, joined(key, ".name"), subj.name.as_str(), "name is empty");
    validate_address(&subj.address, key, errors);
    assert(errors@ =~= old(errors)@ + subject_issues(*subj, key@, is_seller));
}

/// Checks the position at index `i`: name, count > 0 and price >= 0.
fn validate_position(i: usize, pos: &Position, errors: &mut ValidationErrors)
    ensures
        final(errors)@ == old(errors)@ + position_issues(i as nat, *pos),
{
    let mut ppath = String::from_str("positions[");
    ppath.append(decimal_string(i).as_str());
    ppath.append("]");
    check_non_empty(
        errors,
        joined(ppath.as_str(), ".name"),
        pos.name.as_str(),
        "position name is empty",
    );
    add_err_if(errors, !pos.count.is_positive(), joined(ppath.as_str(), ".count"), "count must be > 0");
    add_err_if(errors, pos.price.is_negative(), joined(ppath.as_str(), ".price"), "price must be >= 0");
    assert(errors@ =~= old(errors)@ + position_issues(i as nat, *pos));
}

/// Checks the positions: at least one, and each on its own.
fn validate_positions(positions: &Vec<Position>, errors: &mut ValidationErrors)
    ensures
        final(errors)@ == old(errors)@ + positions_issues(positions@),
{
    add_err_if(
        errors,
        positions.len() == 0,
        String::from_str("positions"),
        "positions array must contain at least one position",
    );
    let ghost e0 = errors@;
    let n = positions.len();
    let mut i: usize = 0;
    while i < n
        invariant
            i <= n,
            n == positions@.len(),
            errors@ == e0 + each_position_issues(positions@.take(i as int)),
        decreases n - i,
    {
        let ghost before = errors@;
        validate_position(i, &positions[i], errors);
        proof {
            let t = positions@.take(i + 1);
            assert(t.drop_last() =~= positions@.take(i as int));
            assert(t.last() == positions@[i as int]);
            assert(errors@ =~= e0 + each_position_issues(t));
        }
        i = i + 1;
    }
    assert(positions@.take(n as int) =~= positions@);
    assert(errors@ =~= old(errors)@ + positions_issues(positions@));
}

/// Checks a SWIFT code: 8 or 11 bytes once trimmed, and alphanumeric ASCII only.
fn validate_swift(swift: &str, errors: &mut ValidationErrors)
    ensures
        final(errors)@ == old(errors)@ + swift_issues(swift@),
{
    let s = trim(swift);
    let len = s.as_str().len();
    add_err_if(
        errors,
        !(len == 8 || len == 11),
        String::from_str("payment_details.swift"),
        "SWIFT must be 8 or 11 characters if present",
    );
    let v = chars_of(s.as_str());
    let mut all_alnum = true;
    let mut i: usize = 0;
    while i < v.len()
        invariant
            i <= v@.len(),
            v@ == s@,
            all_alnum == forall|k: int| 0 <= k < i ==> is_ascii_alphanumeric(#[trigger] s@[k]),
        decreases v@.len() - i,
    {
        if !char_is_ascii_alphanumeric(v[i]) {
            all_alnum = false;
        }
        i = i + 1;
    }
    add_err_if(
        errors,
        !all_alnum,
        String::from_str("payment_details.swift"),
        "SWIFT contains invalid characters",
    );
    assert(errors@ =~= old(errors)@ + swift_issues(swift@));
}

/// Checks the payment details when present: an account number, and the SWIFT code if given.
fn validate_payment(pd: &Option<PaymentDetails>, errors: &mut ValidationErrors)
    ensures
        final(errors)@ == old(errors)@ + payment_issues(*pd),
{
    match pd {
        None => {
            assert(errors@ =~= old(errors)@ + payment_issues(*pd));
        },
        Some(p) => {
            check_non_empty(
                errors,
                String::from_str("payment_details.account_number"),
                p.account_number.as_str(),
                "account_number is empty",
            );
            match &p.swift {
                None => {},
                Some(s) => {
                    validate_swift(s.as_str(), errors);
                },
            }
            assert(errors@ =~= old(errors)@ + payment_issues(*pd));
        },
    }
}

/// Checks a descriptor after it was read. `Ok` exactly when no rule is broken; otherwise every
/// broken rule, in the order of the fields.
pub fn validate_invoice_data(data: &InvoiceData) -> (r: Result<(), ValidationErrors>)
    ensures
        r is Ok <==> invoice_issues(*data).len() == 0,
        r matches Err(e) ==> e@ == invoice_issues(*data),
{
    let mut errors = ValidationErrors::default();
    match &data.number {
        None => {
            add_err(
                &mut errors,
                String::from_str("number"),
                String::from_str("invoice number is missing"),
            );
        },
        Some(n) => {
            check_non_empty(
                &mut errors,
                String::from_str("number"),
                n.as_str(),
                "invoice number is empty",
            );
        },
    }
    let ghost e1 = errors@;
    assert(e1 =~= number_issues(data.number));
    let clen = chars_of(data.currency.as_str()).len();
    add_err_if(
        &mut errors,
        clen != 3,
        String::from_str("currency"),
        "invalid currency code length",
    );
    let letters = all_ascii_letters(data.currency.as_str());
    add_err_if(
        &mut errors,
        clen == 3 && !letters,
        String::from_str("currency"),
        "currency code must consist of three ASCII letters",
    );
    validate_subject(&data.seller, "seller", true, &mut errors);
    validate_subject(&data.buyer, "buyer", false, &mut errors);
    validate_positions(&data.positions, &mut errors);
    validate_payment(&data.payment_details, &mut errors);
    assert(errors@ =~= invoice_issues(*data));
    if errors.0.len() == 0 {
        Ok(())
    } else {
        Err(errors)
    }
}

/// The invoice number passes validation exactly when something is left of it once trimmed,
/// which is what generation requires of it.
pub proof fn lemma_number_accepted_iff_nonblank(number: Option<String>)
    ensures
        number_issues(number).len() == 0 <==> (number matches Some(n) && trimmed(n@).len() > 0),
{
    if let Some(n) = number {
        crate::text::lemma_blank_iff_trimmed_empty(n@);
    }
}

/// A descriptor that passes validation has an invoice number that is not blank, and a currency
/// code of three ASCII letters.
pub proof fn lemma_accepted_number_and_currency(d: InvoiceData)
    requires
        invoice_issues(d).len() == 0,
    ensures
        d.number matches Some(n) && trimmed(n@).len() > 0,
        d.currency@.len() == 3 && ascii_letters(d.currency@),
{
    lemma_number_accepted_iff_nonblank(d.number);
}

/// A descriptor that passes validation has a seller NIP, and each party's NIP, when given for a
/// Polish party, carries a valid checksum; each party has a name and a full address with a
/// two-capital country code.
pub proof fn lemma_accepted_parties(d: InvoiceData)
    requires
        invoice_issues(d).len() == 0,
    ensures
        !blank(d.seller.nip@),
        d.seller.address.country_code@ == "PL"@ ==> valid_pl_nip(d.seller.nip@),
        !blank(d.buyer.nip@) && d.buyer.address.country_code@ == "PL"@ ==> valid_pl_nip(
            d.buyer.nip@,
        ),
        !blank(d.seller.name@) && !blank(d.buyer.name@),
        valid_country_code(d.seller.address.country_code@),
        valid_country_code(d.buyer.address.country_code@),
        !blank(d.seller.address.street@) && !blank(d.seller.address.building_number@) && !blank(
            d.seller.address.city@,
        ) && !blank(d.seller.address.postal_code@),
        !blank(d.buyer.address.street@) && !blank(d.buyer.address.building_number@) && !blank(
            d.buyer.address.city@,
        ) && !blank(d.buyer.address.postal_code@),
{
}

proof fn lemma_each_position_clean(ps: Seq<Position>)
    requires
        each_position_issues(ps).len() == 0,
    ensures
        forall|i: int| 0 <= i < ps.len() ==> (#[trigger] position_issues(i as nat, ps[i])).len() == 0,
    decreases ps.len(),
{
    if ps.len() > 0 {
        let init = ps.drop_last();
        lemma_each_position_clean(init);
        assert forall|i: int| 0 <= i < ps.len() implies (#[trigger] position_issues(
            i as nat,
            ps[i],
        )).len() == 0 by {
            if i < ps.len() - 1 {
                assert(ps[i] == init[i]);
                assert(position_issues(i as nat, init[i]).len() == 0);
            }
        }
    }
}

/// A descriptor that passes validation has at least one position, and every position has a
/// name, a count above zero and a price not below zero.
pub proof fn lemma_accepted_positions(d: InvoiceData)
    requires
        invoice_issues(d).len() == 0,
    ensures
        d.positions@.len() > 0,
        forall|i: int|
            0 <= i < d.positions@.len() ==> {
                &&& !blank((#[trigger] d.positions@[i]).name@)
                &&& d.positions@[i].count.mantissa > 0
                &&& d.positions@[i].price.mantissa >= 0
            },
{
    let ps = d.positions@;
    lemma_each_position_clean(ps);
    assert forall|i: int| 0 <= i < ps.len() implies {
        &&& !blank((#[trigger] ps[i]).name@)
        &&& ps[i].count.mantissa > 0
        &&& ps[i].price.mantissa >= 0
    } by {
        assert(position_issues(i as nat, ps[i]).len() == 0);
    }
}

/// Payment details that pass validation have an account number, and a SWIFT code, when
/// given, is 8 or 11 bytes of ASCII letters and digits once trimmed.
pub proof fn lemma_accepted_payment(d: InvoiceData)
    requires
        invoice_issues(d).len() == 0,
    ensures
        d.payment_details matches Some(p) ==> {
            &&& !blank(p.account_number@)
            &&& p.swift matches Some(s) ==> {
                let t = trimmed(s@);
                &&& (str_len(t) == 8 || str_len(t) == 11)
                &&& forall|i: int| 0 <= i < t.len() ==> is_ascii_alphanumeric(#[trigger] t[i])
            }
        },
{
}

/// Nine digits followed by their check digit form a valid NIP, unless the weighted sum leaves
/// a remainder of 10 modulo 11 (then no check digit exists).
pub proof fn lemma_check_digit_completes_nip(first_nine: Seq<char>)
    requires
        first_nine.len() == 9,
        forall|i: int| 0 <= i < 9 ==> is_ascii_digit(#[trigger] first_nine[i]),
        nip_weighted_sum(first_nine) % 11 != 10,
    ensures
        valid_pl_nip(first_nine.push(crate::text::digit_char((nip_weighted_sum(first_nine) % 11) as nat))),
{
    let c = (nip_weighted_sum(first_nine) % 11) as nat;
    let s = first_nine.push(crate::text::digit_char(c));
    assert(0 <= c <= 9);
    assert(s[9] == crate::text::digit_char(c));
    assert(digit_value(s[9]) == c);
    assert forall|i: int| 0 <= i < 9 implies s[i] == first_nine[i] by {}
    assert(nip_weighted_sum(s) == nip_weighted_sum(first_nine));
}

} // verus!
