//! What the error list of `validate_invoice_data` says field by field: an entry appears at a
//! path exactly when the check of that field fails, and there is one entry per failed check.

use vstd::prelude::*;

use crate::model::{InvoiceData, PaymentDetails, Position, Subject};
use crate::text::{ascii_letters, blank, decimal_text, digit_char, digit_value, is_ascii_alphanumeric, is_ascii_digit, str_len, trimmed};
use crate::validation::{
    address_issues, currency_issues, each_position_issues, invoice_issues, issue, nip_issues,
    number_issues, payment_issues, position_issues, position_path, positions_issues, subject_issues,
    swift_issues, ten_digits, valid_country_code, valid_pl_nip, nip_weighted_sum,
};

verus! {

/// Some entry of `es` is at `path`.
pub open spec fn has_entry_at(es: Seq<(Seq<char>, Seq<char>)>, path: Seq<char>) -> bool {
    exists|i: int| 0 <= i < es.len() && (#[trigger] es[i]).0 == path
}

/// Every path of `es` begins with the characters `a`, `b`.
pub open spec fn paths_begin(es: Seq<(Seq<char>, Seq<char>)>, a: char, b: char) -> bool {
    forall|i: int|
        0 <= i < es.len() ==> (#[trigger] es[i]).0.len() >= 2 && es[i].0[0] == a && es[i].0[1] == b
}

pub proof fn lemma_has_entry_concat(x: Seq<(Seq<char>, Seq<char>)>, y: Seq<(Seq<char>, Seq<char>)>, p: Seq<char>)
    ensures
        has_entry_at(x + y, p) <==> has_entry_at(x, p) || has_entry_at(y, p),
{
    let z = x + y;
    if has_entry_at(z, p) {
        let i = choose|i: int| 0 <= i < z.len() && (#[trigger] z[i]).0 == p;
        if i < x.len() {
            assert(x[i] == z[i]);
        } else {
            assert(y[i - x.len()] == z[i]);
        }
    }
    if has_entry_at(x, p) {
        let i = choose|i: int| 0 <= i < x.len() && (#[trigger] x[i]).0 == p;
        assert(z[i] == x[i]);
    }
    if has_entry_at(y, p) {
        let i = choose|i: int| 0 <= i < y.len() && (#[trigger] y[i]).0 == p;
        assert(z[i + x.len()] == y[i]);
    }
}

pub proof fn lemma_has_entry_issue(c: bool, q: Seq<char>, m: Seq<char>, p: Seq<char>)
    ensures
        has_entry_at(issue(c, q, m), p) <==> c && q == p,
{
    if c && q == p {
        assert(issue(c, q, m)[0].0 == p);
    }
}

proof fn lemma_paths_begin_concat(x: Seq<(Seq<char>, Seq<char>)>, y: Seq<(Seq<char>, Seq<char>)>, a: char, b: char)
    requires
        paths_begin(x, a, b),
        paths_begin(y, a, b),
    ensures
        paths_begin(x + y, a, b),
{
    assert forall|i: int| 0 <= i < (x + y).len() implies (#[trigger] (x + y)[i]).0.len() >= 2
        && (x + y)[i].0[0] == a && (x + y)[i].0[1] == b by {
        if i < x.len() {
            assert((x + y)[i] == x[i]);
        } else {
            assert((x + y)[i] == y[i - x.len()]);
        }
    }
}

proof fn lemma_paths_begin_issue(c: bool, q: Seq<char>, m: Seq<char>, a: char, b: char)
    requires
        q.len() >= 2,
        q[0] == a,
        q[1] == b,
    ensures
        paths_begin(issue(c, q, m), a, b),
{
}

/// A list whose paths all begin with `a`, `b` has no entry at a path beginning otherwise.
proof fn lemma_no_entry_elsewhere(es: Seq<(Seq<char>, Seq<char>)>, a: char, b: char, p: Seq<char>)
    requires
        paths_begin(es, a, b),
        p.len() >= 2,
        p[0] != a || p[1] != b,
    ensures
        !has_entry_at(es, p),
{
}

proof fn lemma_prefixed(k: Seq<char>, s: Seq<char>)
    requires
        k.len() >= 2,
    ensures
        (k + s).len() >= 2,
        (k + s)[0] == k[0],
        (k + s)[1] == k[1],
{
}

proof fn lemma_same_prefix(k: Seq<char>, a: Seq<char>, b: Seq<char>)
    requires
        k + a == k + b,
    ensures
        a == b,
{
    assert(a =~= (k + a).subrange(k.len() as int, (k + a).len() as int));
    assert(b =~= (k + b).subrange(k.len() as int, (k + b).len() as int));
}

proof fn lemma_subject_entry_any(s: Subject, key: Seq<char>, is_seller: bool, p: Seq<char>)
    ensures
        has_entry_at(subject_issues(s, key, is_seller), p) <==> {
            ||| ((is_seller && blank(s.nip@)) || (!blank(s.nip@) && s.address.country_code@ == "PL"@
                && !valid_pl_nip(s.nip@))) && key + ".nip"@ == p
            ||| blank(s.name@) && key + ".name"@ == p
            ||| !valid_country_code(s.address.country_code@) && key + ".address.country_code"@ == p
            ||| blank(s.address.street@) && key + ".address.street"@ == p
            ||| blank(s.address.building_number@) && key + ".address.building_number"@ == p
            ||| blank(s.address.city@) && key + ".address.city"@ == p
            ||| blank(s.address.postal_code@) && key + ".address.postal_code"@ == p
        },
{
    let nip = s.nip@;
    let pl = s.address.country_code@ == "PL"@;
    let i1 = issue(is_seller && blank(nip), key + ".nip"@, "nip is empty"@);
    let i2 = issue(!blank(nip) && pl && !ten_digits(nip), key + ".nip"@, "PL NIP must contain 10 digits"@);
    let i3 = issue(!blank(nip) && pl && ten_digits(nip) && !valid_pl_nip(nip), key + ".nip"@,
        "PL NIP is invalid (checksum or length)"@);
    lemma_has_entry_concat(i1, i2, p);
    lemma_has_entry_concat(i1 + i2, i3, p);
    lemma_has_entry_issue(is_seller && blank(nip), key + ".nip"@, "nip is empty"@, p);
    lemma_has_entry_issue(!blank(nip) && pl && !ten_digits(nip), key + ".nip"@, "PL NIP must contain 10 digits"@, p);
    lemma_has_entry_issue(!blank(nip) && pl && ten_digits(nip) && !valid_pl_nip(nip), key + ".nip"@,
        "PL NIP is invalid (checksum or length)"@, p);
    let a = s.address;
    let n = issue(blank(s.name@), key + ".name"@, "name is empty"@);
    let a1 = issue(!valid_country_code(a.country_code@), key + ".address.country_code"@,
        "country_code must be two uppercase ASCII letters"@);
    let a2 = issue(blank(a.street@), key + ".address.street"@, "street is empty"@);
    let a3 = issue(blank(a.building_number@), key + ".address.building_number"@, "building_number is empty"@);
    let a4 = issue(blank(a.city@), key + ".address.city"@, "city is empty"@);
    let a5 = issue(blank(a.postal_code@), key + ".address.postal_code"@, "postal_code is empty"@);
    lemma_has_entry_issue(blank(s.name@), key + ".name"@, "name is empty"@, p);
    lemma_has_entry_issue(!valid_country_code(a.country_code@), key + ".address.country_code"@,
        "country_code must be two uppercase ASCII letters"@, p);
    lemma_has_entry_issue(blank(a.street@), key + ".address.street"@, "street is empty"@, p);
    lemma_has_entry_issue(blank(a.building_number@), key + ".address.building_number"@, "building_number is empty"@, p);
    lemma_has_entry_issue(blank(a.city@), key + ".address.city"@, "city is empty"@, p);
    lemma_has_entry_issue(blank(a.postal_code@), key + ".address.postal_code"@, "postal_code is empty"@, p);
    lemma_has_entry_concat(a1, a2, p);
    lemma_has_entry_concat(a1 + a2, a3, p);
    lemma_has_entry_concat(a1 + a2 + a3, a4, p);
    lemma_has_entry_concat(a1 + a2 + a3 + a4, a5, p);
    lemma_has_entry_concat(nip_issues(s, key, is_seller), n, p);
    lemma_has_entry_concat(nip_issues(s, key, is_seller) + n, address_issues(a, key), p);
    assert(!ten_digits(nip) ==> !valid_pl_nip(nip));
}

/// The suffixes that name a party's fields, all different.
proof fn lemma_party_suffixes_differ()
    ensures
        ".nip"@.len() == 4,
        ".name"@.len() == 5,
        ".address.country_code"@.len() == 21,
        ".address.street"@.len() == 15,
        ".address.building_number"@.len() == 24,
        ".address.city"@.len() == 13,
        ".address.postal_code"@.len() == 20,
{
    reveal_strlit(".nip");
    reveal_strlit(".name");
    reveal_strlit(".address.country_code");
    reveal_strlit(".address.street");
    reveal_strlit(".address.building_number");
    reveal_strlit(".address.city");
    reveal_strlit(".address.postal_code");
}

/// Within a party's errors, there is an entry at each field's path exactly when that field's
/// check fails: the NIP (required for the seller; a Polish NIP must be valid), the name, the
/// country code (two ASCII capitals) and each address field (not blank). The flat number is
/// never checked.
pub proof fn lemma_party_entries(s: Subject, key: Seq<char>, is_seller: bool)
    ensures
        has_entry_at(subject_issues(s, key, is_seller), key + ".nip"@) <==> (is_seller && blank(s.nip@))
            || (!blank(s.nip@) && s.address.country_code@ == "PL"@ && !valid_pl_nip(s.nip@)),
        has_entry_at(subject_issues(s, key, is_seller), key + ".name"@) <==> blank(s.name@),
        has_entry_at(subject_issues(s, key, is_seller), key + ".address.country_code"@)
            <==> !valid_country_code(s.address.country_code@),
        has_entry_at(subject_issues(s, key, is_seller), key + ".address.street"@) <==> blank(s.address.street@),
        has_entry_at(subject_issues(s, key, is_seller), key + ".address.building_number"@)
            <==> blank(s.address.building_number@),
        has_entry_at(subject_issues(s, key, is_seller), key + ".address.city"@) <==> blank(s.address.city@),
        has_entry_at(subject_issues(s, key, is_seller), key + ".address.postal_code"@)
            <==> blank(s.address.postal_code@),
{
    lemma_party_suffixes_differ();
    let sfx = seq![".nip"@, ".name"@, ".address.country_code"@, ".address.street"@,
        ".address.building_number"@, ".address.city"@, ".address.postal_code"@];
    assert forall|i: int, j: int| 0 <= i < 7 && 0 <= j < 7 && i != j implies key + sfx[i] != key + sfx[j] by {
        if key + sfx[i] == key + sfx[j] {
            lemma_same_prefix(key, sfx[i], sfx[j]);
        }
    }
    assert forall|j: int| 0 <= j < 7 implies #[trigger] sfx[j] == sfx[j] by {}
    lemma_subject_entry_any(s, key, is_seller, key + ".nip"@);
    lemma_subject_entry_any(s, key, is_seller, key + ".name"@);
    lemma_subject_entry_any(s, key, is_seller, key + ".address.country_code"@);
    lemma_subject_entry_any(s, key, is_seller, key + ".address.street"@);
    lemma_subject_entry_any(s, key, is_seller, key + ".address.building_number"@);
    lemma_subject_entry_any(s, key, is_seller, key + ".address.city"@);
    lemma_subject_entry_any(s, key, is_seller, key + ".address.postal_code"@);
    assert(sfx[0] == ".nip"@);
    assert(sfx[1] == ".name"@);
    assert(sfx[2] == ".address.country_code"@);
    assert(sfx[3] == ".address.street"@);
    assert(sfx[4] == ".address.building_number"@);
    assert(sfx[5] == ".address.city"@);
    assert(sfx[6] == ".address.postal_code"@);
}

proof fn lemma_invoice_entry_parts(d: InvoiceData, p: Seq<char>)
    ensures
        has_entry_at(invoice_issues(d), p) <==> {
            ||| has_entry_at(number_issues(d.number), p)
            ||| has_entry_at(currency_issues(d.currency@), p)
            ||| has_entry_at(subject_issues(d.seller, "seller"@, true), p)
            ||| has_entry_at(subject_issues(d.buyer, "buyer"@, false), p)
            ||| has_entry_at(positions_issues(d.positions@), p)
            ||| has_entry_at(payment_issues(d.payment_details), p)
        },
{
    let n = number_issues(d.number);
    let c = currency_issues(d.currency@);
    let se = subject_issues(d.seller, "seller"@, true);
    let bu = subject_issues(d.buyer, "buyer"@, false);
    let po = positions_issues(d.positions@);
    let pa = payment_issues(d.payment_details);
    lemma_has_entry_concat(n, c, p);
    lemma_has_entry_concat(n + c, se, p);
    lemma_has_entry_concat(n + c + se, bu, p);
    lemma_has_entry_concat(n + c + se + bu, po, p);
    lemma_has_entry_concat(n + c + se + bu + po, pa, p);
}

proof fn lemma_key_paths_begin(s: Subject, key: Seq<char>, is_seller: bool)
    requires
        key.len() >= 2,
    ensures
        paths_begin(subject_issues(s, key, is_seller), key[0], key[1]),
{
    let es = subject_issues(s, key, is_seller);
    assert forall|i: int| 0 <= i < es.len() implies (#[trigger] es[i]).0.len() >= 2 && es[i].0[0]
        == key[0] && es[i].0[1] == key[1] by {
        let p = es[i].0;
        assert(has_entry_at(es, p));
        lemma_subject_entry_any(s, key, is_seller, p);
        let sfx = choose|x: Seq<char>| key + x == p;
        assert(exists|x: Seq<char>| key + x == p) by {
            if key + ".nip"@ == p {
            } else if key + ".name"@ == p {
            } else if key + ".address.country_code"@ == p {
            } else if key + ".address.street"@ == p {
            } else if key + ".address.building_number"@ == p {
            } else if key + ".address.city"@ == p {
            } else {
                assert(key + ".address.postal_code"@ == p);
            }
        }
        lemma_prefixed(key, sfx);
    }
}

proof fn lemma_position_paths_begin(ps: Seq<Position>)
    ensures
        paths_begin(each_position_issues(ps), 'p', 'o'),
    decreases ps.len(),
{
    if ps.len() > 0 {
        reveal_strlit("positions[");
        lemma_position_paths_begin(ps.drop_last());
        let i = (ps.len() - 1) as nat;
        let q = position_path(i);
        let p = ps.last();
        lemma_prefixed(q, ".name"@);
        lemma_prefixed(q, ".count"@);
        lemma_prefixed(q, ".price"@);
        lemma_paths_begin_issue(blank(p.name@), q + ".name"@, "position name is empty"@, 'p', 'o');
        lemma_paths_begin_issue(p.count.mantissa <= 0, q + ".count"@, "count must be > 0"@, 'p', 'o');
        lemma_paths_begin_issue(p.price.mantissa < 0, q + ".price"@, "price must be >= 0"@, 'p', 'o');
        let x = issue(blank(p.name@), q + ".name"@, "position name is empty"@);
        let y = issue(p.count.mantissa <= 0, q + ".count"@, "count must be > 0"@);
        let z = issue(p.price.mantissa < 0, q + ".price"@, "price must be >= 0"@);
        lemma_paths_begin_concat(x, y, 'p', 'o');
        lemma_paths_begin_concat(x + y, z, 'p', 'o');
        lemma_paths_begin_concat(each_position_issues(ps.drop_last()), x + y + z, 'p', 'o');
    }
}

/// Where the paths of each part of the error list begin.
proof fn lemma_part_paths_begin(d: InvoiceData)
    ensures
        paths_begin(number_issues(d.number), 'n', 'u'),
        paths_begin(currency_issues(d.currency@), 'c', 'u'),
        paths_begin(subject_issues(d.seller, "seller"@, true), 's', 'e'),
        paths_begin(subject_issues(d.buyer, "buyer"@, false), 'b', 'u'),
        paths_begin(positions_issues(d.positions@), 'p', 'o'),
        paths_begin(payment_issues(d.payment_details), 'p', 'a'),
{
    reveal_strlit("number");
    reveal_strlit("currency");
    reveal_strlit("seller");
    reveal_strlit("buyer");
    reveal_strlit("positions");
    reveal_strlit("payment_details.account_number");
    reveal_strlit("payment_details.swift");
    lemma_key_paths_begin(d.seller, "seller"@, true);
    lemma_key_paths_begin(d.buyer, "buyer"@, false);
    lemma_position_paths_begin(d.positions@);
    lemma_paths_begin_concat(
        issue(d.positions@.len() == 0, "positions"@, "positions array must contain at least one position"@),
        each_position_issues(d.positions@), 'p', 'o');
    let c = d.currency@;
    lemma_paths_begin_concat(issue(c.len() != 3, "currency"@, "invalid currency code length"@),
        issue(c.len() == 3 && !ascii_letters(c), "currency"@, "currency code must consist of three ASCII letters"@),
        'c', 'u');
    match d.payment_details {
        None => {},
        Some(pd) => {
            let x = issue(blank(pd.account_number@), "payment_details.account_number"@, "account_number is empty"@);
            match pd.swift {
                None => {
                    lemma_paths_begin_concat(x, Seq::empty(), 'p', 'a');
                },
                Some(w) => {
                    let t = trimmed(w@);
                    let y = issue(!(str_len(t) == 8 || str_len(t) == 11), "payment_details.swift"@,
                        "SWIFT must be 8 or 11 characters if present"@);
                    let z = issue(!(forall|i: int| 0 <= i < t.len() ==> is_ascii_alphanumeric(#[trigger] t[i])),
                        "payment_details.swift"@, "SWIFT contains invalid characters"@);
                    lemma_paths_begin_concat(y, z, 'p', 'a');
                    lemma_paths_begin_concat(x, y + z, 'p', 'a');
                },
            }
        },
    }
}

/// Each party of an invoice has an error at one of its fields exactly when that field's check
/// fails (see `lemma_party_entries`); the seller's errors are at `seller.…`, the buyer's at
/// `buyer.…`, and no other check reports there.
pub proof fn lemma_invoice_party_entries(d: InvoiceData, seller_side: bool, suffix: Seq<char>)
    requires
        suffix.len() >= 1,
    ensures
        seller_side ==> (has_entry_at(invoice_issues(d), "seller"@ + suffix) <==> has_entry_at(
            subject_issues(d.seller, "seller"@, true),
            "seller"@ + suffix,
        )),
        !seller_side ==> (has_entry_at(invoice_issues(d), "buyer"@ + suffix) <==> has_entry_at(
            subject_issues(d.buyer, "buyer"@, false),
            "buyer"@ + suffix,
        )),
{
    reveal_strlit("seller");
    reveal_strlit("buyer");
    lemma_part_paths_begin(d);
    let p = if seller_side { "seller"@ + suffix } else { "buyer"@ + suffix };
    lemma_prefixed(if seller_side { "seller"@ } else { "buyer"@ }, suffix);
    lemma_invoice_entry_parts(d, p);
    lemma_no_entry_elsewhere(number_issues(d.number), 'n', 'u', p);
    lemma_no_entry_elsewhere(currency_issues(d.currency@), 'c', 'u', p);
    lemma_no_entry_elsewhere(positions_issues(d.positions@), 'p', 'o', p);
    lemma_no_entry_elsewhere(payment_issues(d.payment_details), 'p', 'a', p);
    if seller_side {
        lemma_no_entry_elsewhere(subject_issues(d.buyer, "buyer"@, false), 'b', 'u', p);
    } else {
        lemma_no_entry_elsewhere(subject_issues(d.seller, "seller"@, true), 's', 'e', p);
    }
}

/// The parties' fields of an invoice: an entry at `seller.nip` exactly when the seller's NIP is
/// blank or, for a Polish seller, not valid; at `buyer.nip` exactly when the buyer's NIP is given,
/// Polish and not valid; at each other field exactly when it is blank (the country code: when it
/// is not two ASCII capitals).
pub proof fn lemma_invoice_parties(d: InvoiceData)
    ensures
        has_entry_at(invoice_issues(d), "seller"@ + ".nip"@) <==> blank(d.seller.nip@) || (
        d.seller.address.country_code@ == "PL"@ && !valid_pl_nip(d.seller.nip@)),
        has_entry_at(invoice_issues(d), "buyer"@ + ".nip"@) <==> !blank(d.buyer.nip@)
            && d.buyer.address.country_code@ == "PL"@ && !valid_pl_nip(d.buyer.nip@),
        has_entry_at(invoice_issues(d), "seller"@ + ".name"@) <==> blank(d.seller.name@),
        has_entry_at(invoice_issues(d), "buyer"@ + ".name"@) <==> blank(d.buyer.name@),
        has_entry_at(invoice_issues(d), "seller"@ + ".address.country_code"@) <==> !valid_country_code(
            d.seller.address.country_code@,
        ),
        has_entry_at(invoice_issues(d), "buyer"@ + ".address.country_code"@) <==> !valid_country_code(
            d.buyer.address.country_code@,
        ),
        has_entry_at(invoice_issues(d), "seller"@ + ".address.street"@) <==> blank(d.seller.address.street@),
        has_entry_at(invoice_issues(d), "buyer"@ + ".address.street"@) <==> blank(d.buyer.address.street@),
        has_entry_at(invoice_issues(d), "seller"@ + ".address.building_number"@) <==> blank(
            d.seller.address.building_number@,
        ),
        has_entry_at(invoice_issues(d), "buyer"@ + ".address.building_number"@) <==> blank(
            d.buyer.address.building_number@,
        ),
        has_entry_at(invoice_issues(d), "seller"@ + ".address.city"@) <==> blank(d.seller.address.city@),
        has_entry_at(invoice_issues(d), "buyer"@ + ".address.city"@) <==> blank(d.buyer.address.city@),
        has_entry_at(invoice_issues(d), "seller"@ + ".address.postal_code"@) <==> blank(
            d.seller.address.postal_code@,
        ),
        has_entry_at(invoice_issues(d), "buyer"@ + ".address.postal_code"@) <==> blank(
            d.buyer.address.postal_code@,
        ),
{
    lemma_party_suffixes_differ();
    lemma_party_entries(d.seller, "seller"@, true);
    lemma_party_entries(d.buyer, "buyer"@, false);
    lemma_invoice_party_entries(d, true, ".nip"@);
    lemma_invoice_party_entries(d, false, ".nip"@);
    lemma_invoice_party_entries(d, true, ".name"@);
    lemma_invoice_party_entries(d, false, ".name"@);
    lemma_invoice_party_entries(d, true, ".address.country_code"@);
    lemma_invoice_party_entries(d, false, ".address.country_code"@);
    lemma_invoice_party_entries(d, true, ".address.street"@);
    lemma_invoice_party_entries(d, false, ".address.street"@);
    lemma_invoice_party_entries(d, true, ".address.building_number"@);
    lemma_invoice_party_entries(d, false, ".address.building_number"@);
    lemma_invoice_party_entries(d, true, ".address.city"@);
    lemma_invoice_party_entries(d, false, ".address.city"@);
    lemma_invoice_party_entries(d, true, ".address.postal_code"@);
    lemma_invoice_party_entries(d, false, ".address.postal_code"@);
}

proof fn lemma_decimal_text_digits(n: nat)
    ensures
        decimal_text(n).len() >= 1,
        n >= 10 ==> decimal_text(n).len() >= 2,
        forall|i: int| 0 <= i < decimal_text(n).len() ==> is_ascii_digit(#[trigger] decimal_text(n)[i]),
    decreases n,
{
    if n >= 10 {
        lemma_decimal_text_digits(n / 10);
        let t = decimal_text(n / 10);
        assert forall|i: int| 0 <= i < decimal_text(n).len() implies is_ascii_digit(
            #[trigger] decimal_text(n)[i],
        ) by {
            if i < t.len() {
                assert(decimal_text(n)[i] == t[i]);
            }
        }
    }
}

proof fn lemma_decimal_text_injective(n: nat, m: nat)
    requires
        decimal_text(n) == decimal_text(m),
    ensures
        n == m,
    decreases n,
{
    lemma_decimal_text_digits(n);
    lemma_decimal_text_digits(m);
    if n < 10 {
        if m >= 10 {
            assert(false);
        }
        assert(decimal_text(n)[0] == digit_char(n));
        assert(decimal_text(m)[0] == digit_char(m));
        assert(crate::text::digit_value(digit_char(n)) == n);
        assert(crate::text::digit_value(digit_char(m)) == m);
    } else {
        if m < 10 {
            assert(false);
        }
        let a = decimal_text(n);
        assert(a.last() == digit_char(n % 10));
        assert(decimal_text(m).last() == digit_char(m % 10));
        assert(crate::text::digit_value(digit_char(n % 10)) == n % 10);
        assert(crate::text::digit_value(digit_char(m % 10)) == m % 10);
        assert(a.drop_last() == decimal_text(n / 10));
        assert(decimal_text(m).drop_last() == decimal_text(m / 10));
        lemma_decimal_text_injective(n / 10, m / 10);
    }
}

/// The three suffixes of a position's fields.
pub open spec fn is_position_suffix(a: Seq<char>) -> bool {
    a == ".name"@ || a == ".count"@ || a == ".price"@
}

proof fn lemma_position_suffixes()
    ensures
        ".name"@ == seq!['.', 'n', 'a', 'm', 'e'],
        ".count"@ == seq!['.', 'c', 'o', 'u', 'n', 't'],
        ".price"@ == seq!['.', 'p', 'r', 'i', 'c', 'e'],
        "positions["@.len() == 10,
        "]"@ == seq![']'],
        "positions"@.len() == 9,
{
    reveal_strlit(".name");
    reveal_strlit(".count");
    reveal_strlit(".price");
    reveal_strlit("positions[");
    reveal_strlit("]");
    reveal_strlit("positions");
}

/// A position's path names one position and one field.
proof fn lemma_position_path_unique(i: nat, j: nat, a: Seq<char>, b: Seq<char>)
    requires
        is_position_suffix(a),
        is_position_suffix(b),
        position_path(i) + a == position_path(j) + b,
    ensures
        i == j,
        a == b,
{
    lemma_position_suffixes();
    lemma_decimal_text_digits(i);
    lemma_decimal_text_digits(j);
    let di = decimal_text(i);
    let dj = decimal_text(j);
    let s = position_path(i) + a;
    let t = position_path(j) + b;
    let li = di.len() as int;
    let lj = dj.len() as int;
    assert(s[10 + li] == ']');
    assert(t[10 + lj] == ']');
    if li < lj {
        assert(t[10 + li] == dj[li]);
        assert(is_ascii_digit(dj[li]));
        assert(false);
    }
    if lj < li {
        assert(s[10 + lj] == di[lj]);
        assert(is_ascii_digit(di[lj]));
        assert(false);
    }
    assert(di =~= s.subrange(10, 10 + li));
    assert(dj =~= t.subrange(10, 10 + lj));
    lemma_decimal_text_injective(i, j);
    lemma_same_prefix(position_path(i), a, b);
}

/// The position at index `i` has an entry at `p`.
pub open spec fn position_hit(i: nat, pos: Position, p: Seq<char>) -> bool {
    ||| blank(pos.name@) && position_path(i) + ".name"@ == p
    ||| pos.count.mantissa <= 0 && position_path(i) + ".count"@ == p
    ||| pos.price.mantissa < 0 && position_path(i) + ".price"@ == p
}

proof fn lemma_each_position_entry(ps: Seq<Position>, p: Seq<char>)
    ensures
        has_entry_at(each_position_issues(ps), p) <==> exists|i: int|
            0 <= i < ps.len() && #[trigger] position_hit(i as nat, ps[i], p),
    decreases ps.len(),
{
    if ps.len() > 0 {
        let init = ps.drop_last();
        lemma_each_position_entry(init, p);
        let k = (ps.len() - 1) as nat;
        let q = ps.last();
        let x = issue(blank(q.name@), position_path(k) + ".name"@, "position name is empty"@);
        let y = issue(q.count.mantissa <= 0, position_path(k) + ".count"@, "count must be > 0"@);
        let z = issue(q.price.mantissa < 0, position_path(k) + ".price"@, "price must be >= 0"@);
        lemma_has_entry_issue(blank(q.name@), position_path(k) + ".name"@, "position name is empty"@, p);
        lemma_has_entry_issue(q.count.mantissa <= 0, position_path(k) + ".count"@, "count must be > 0"@, p);
        lemma_has_entry_issue(q.price.mantissa < 0, position_path(k) + ".price"@, "price must be >= 0"@, p);
        lemma_has_entry_concat(x, y, p);
        lemma_has_entry_concat(x + y, z, p);
        lemma_has_entry_concat(each_position_issues(init), x + y + z, p);
        if has_entry_at(each_position_issues(ps), p) {
            if has_entry_at(each_position_issues(init), p) {
                let i = choose|i: int| 0 <= i < init.len() && #[trigger] position_hit(i as nat, init[i], p);
                assert(ps[i] == init[i]);
            } else {
                assert(position_hit(k, ps[k as int], p));
            }
        }
        if exists|i: int| 0 <= i < ps.len() && #[trigger] position_hit(i as nat, ps[i], p) {
            let i = choose|i: int| 0 <= i < ps.len() && #[trigger] position_hit(i as nat, ps[i], p);
            if i < ps.len() - 1 {
                assert(ps[i] == init[i]);
                assert(position_hit(i as nat, init[i], p));
            }
        }
    }
}

/// The positions of an invoice: an entry at `positions` exactly when there is none, and at
/// `positions[i].name`, `.count`, `.price` exactly when that position's name is blank, its count
/// is not above zero, its price is below zero. The VAT rate is never checked.
pub proof fn lemma_invoice_positions(d: InvoiceData)
    ensures
        has_entry_at(invoice_issues(d), "positions"@) <==> d.positions@.len() == 0,
        forall|i: int|
            0 <= i < d.positions@.len() ==> {
                &&& has_entry_at(invoice_issues(d), position_path(i as nat) + ".name"@) <==> blank(
                    (#[trigger] d.positions@[i]).name@,
                )
                &&& has_entry_at(invoice_issues(d), position_path(i as nat) + ".count"@)
                    <==> d.positions@[i].count.mantissa <= 0
                &&& has_entry_at(invoice_issues(d), position_path(i as nat) + ".price"@)
                    <==> d.positions@[i].price.mantissa < 0
            },
{
    lemma_position_suffixes();
    lemma_part_paths_begin(d);
    reveal_strlit("positions");
    let ps = d.positions@;
    let head = issue(ps.len() == 0, "positions"@, "positions array must contain at least one position"@);
    // the bare path
    let p0 = "positions"@;
    lemma_invoice_entry_parts(d, p0);
    lemma_has_entry_concat(head, each_position_issues(ps), p0);
    lemma_has_entry_issue(ps.len() == 0, "positions"@, "positions array must contain at least one position"@, p0);
    lemma_each_position_entry(ps, p0);
    if exists|i: int| 0 <= i < ps.len() && #[trigger] position_hit(i as nat, ps[i], p0) {
        let i = choose|i: int| 0 <= i < ps.len() && #[trigger] position_hit(i as nat, ps[i], p0);
        lemma_decimal_text_digits(i as nat);
        assert(false);
    }
    lemma_no_entry_elsewhere(number_issues(d.number), 'n', 'u', p0);
    lemma_no_entry_elsewhere(currency_issues(d.currency@), 'c', 'u', p0);
    lemma_no_entry_elsewhere(subject_issues(d.seller, "seller"@, true), 's', 'e', p0);
    lemma_no_entry_elsewhere(subject_issues(d.buyer, "buyer"@, false), 'b', 'u', p0);
    lemma_no_entry_elsewhere(payment_issues(d.payment_details), 'p', 'a', p0);
    assert forall|k: int| 0 <= k < ps.len() implies {
        &&& has_entry_at(invoice_issues(d), position_path(k as nat) + ".name"@) <==> blank(
            (#[trigger] ps[k]).name@,
        )
        &&& has_entry_at(invoice_issues(d), position_path(k as nat) + ".count"@) <==> ps[k].count.mantissa <= 0
        &&& has_entry_at(invoice_issues(d), position_path(k as nat) + ".price"@) <==> ps[k].price.mantissa < 0
    } by {
        lemma_position_field(d, k, ".name"@);
        lemma_position_field(d, k, ".count"@);
        lemma_position_field(d, k, ".price"@);
        lemma_position_hit_at(k as nat, ps[k]);
    }
}

/// Nothing else under `positions`: an entry whose path begins with `positions` is at
/// `positions` itself, or at the `.name`, `.count` or `.price` of a position the invoice has.
pub proof fn lemma_no_other_position_entries(d: InvoiceData, p: Seq<char>)
    requires
        has_entry_at(invoice_issues(d), p),
        p.len() >= 9,
        p.subrange(0, 9) == "positions"@,
    ensures
        p == "positions"@ || exists|i: int, a: Seq<char>|
            0 <= i < d.positions@.len() && is_position_suffix(a) && p == #[trigger] (position_path(
                i as nat,
            ) + a),
{
    lemma_position_suffixes();
    lemma_part_paths_begin(d);
    reveal_strlit("positions");
    assert(p[0] == 'p' && p[1] == 'o') by {
        assert(p[0] == p.subrange(0, 9)[0] && p[1] == p.subrange(0, 9)[1]);
    }
    lemma_invoice_entry_parts(d, p);
    lemma_no_entry_elsewhere(number_issues(d.number), 'n', 'u', p);
    lemma_no_entry_elsewhere(currency_issues(d.currency@), 'c', 'u', p);
    lemma_no_entry_elsewhere(subject_issues(d.seller, "seller"@, true), 's', 'e', p);
    lemma_no_entry_elsewhere(subject_issues(d.buyer, "buyer"@, false), 'b', 'u', p);
    lemma_no_entry_elsewhere(payment_issues(d.payment_details), 'p', 'a', p);
    let ps = d.positions@;
    let head = issue(ps.len() == 0, "positions"@, "positions array must contain at least one position"@);
    lemma_has_entry_concat(head, each_position_issues(ps), p);
    lemma_has_entry_issue(ps.len() == 0, "positions"@, "positions array must contain at least one position"@, p);
    lemma_each_position_entry(ps, p);
    if p != "positions"@ {
        let i = choose|i: int| 0 <= i < ps.len() && #[trigger] position_hit(i as nat, ps[i], p);
        if blank(ps[i].name@) && position_path(i as nat) + ".name"@ == p {
            assert(is_position_suffix(".name"@));
        } else if ps[i].count.mantissa <= 0 && position_path(i as nat) + ".count"@ == p {
            assert(is_position_suffix(".count"@));
        } else {
            assert(is_position_suffix(".price"@));
        }
    }
}

proof fn lemma_position_hit_at(k: nat, pos: Position)
    ensures
        position_hit(k, pos, position_path(k) + ".name"@) <==> blank(pos.name@),
        position_hit(k, pos, position_path(k) + ".count"@) <==> pos.count.mantissa <= 0,
        position_hit(k, pos, position_path(k) + ".price"@) <==> pos.price.mantissa < 0,
{
    lemma_position_suffixes();
    let q = position_path(k);
    if q + ".name"@ == q + ".count"@ {
        lemma_same_prefix(q, ".name"@, ".count"@);
    }
    if q + ".name"@ == q + ".price"@ {
        lemma_same_prefix(q, ".name"@, ".price"@);
    }
    if q + ".count"@ == q + ".price"@ {
        lemma_same_prefix(q, ".count"@, ".price"@);
        assert(".count"@[1] != ".price"@[1]);
    }
}

proof fn lemma_position_field(d: InvoiceData, k: int, a: Seq<char>)
    requires
        0 <= k < d.positions@.len(),
        is_position_suffix(a),
    ensures
        has_entry_at(invoice_issues(d), position_path(k as nat) + a) <==> position_hit(
            k as nat,
            d.positions@[k],
            position_path(k as nat) + a,
        ),
{
    lemma_position_suffixes();
    lemma_part_paths_begin(d);
    reveal_strlit("positions");
    let ps = d.positions@;
    reveal_strlit("positions[");
    let p = position_path(k as nat) + a;
    lemma_decimal_text_digits(k as nat);
    assert(p.len() >= 12);
    assert(p[0] == 'p' && p[1] == 'o');
    lemma_invoice_entry_parts(d, p);
    let head = issue(ps.len() == 0, "positions"@, "positions array must contain at least one position"@);
    lemma_has_entry_concat(head, each_position_issues(ps), p);
    lemma_has_entry_issue(ps.len() == 0, "positions"@, "positions array must contain at least one position"@, p);
    lemma_each_position_entry(ps, p);
    if exists|i: int| 0 <= i < ps.len() && #[trigger] position_hit(i as nat, ps[i], p) {
        let i = choose|i: int| 0 <= i < ps.len() && #[trigger] position_hit(i as nat, ps[i], p);
        if position_path(i as nat) + ".name"@ == p {
            lemma_position_path_unique(i as nat, k as nat, ".name"@, a);
        } else if position_path(i as nat) + ".count"@ == p {
            lemma_position_path_unique(i as nat, k as nat, ".count"@, a);
        } else {
            lemma_position_path_unique(i as nat, k as nat, ".price"@, a);
        }
    }
    lemma_no_entry_elsewhere(number_issues(d.number), 'n', 'u', p);
    lemma_no_entry_elsewhere(currency_issues(d.currency@), 'c', 'u', p);
    lemma_no_entry_elsewhere(subject_issues(d.seller, "seller"@, true), 's', 'e', p);
    lemma_no_entry_elsewhere(subject_issues(d.buyer, "buyer"@, false), 'b', 'u', p);
    lemma_no_entry_elsewhere(payment_issues(d.payment_details), 'p', 'a', p);
}

/// The SWIFT code `w`, trimmed, is 8 or 11 bytes of ASCII letters and digits.
pub open spec fn valid_swift(w: Seq<char>) -> bool {
    let t = trimmed(w);
    &&& (str_len(t) == 8 || str_len(t) == 11)
    &&& forall|i: int| 0 <= i < t.len() ==> is_ascii_alphanumeric(#[trigger] t[i])
}

/// The payment details of an invoice: without them no entry's path begins with
/// `payment_details`; with them, an entry at `payment_details.account_number` exactly when the
/// account number is blank, and at `payment_details.swift` exactly when a SWIFT code is given
/// and is not valid. The bank name and the period are never checked.
pub proof fn lemma_invoice_payment(d: InvoiceData)
    ensures
        d.payment_details is None ==> forall|i: int|
            0 <= i < invoice_issues(d).len() ==> !((#[trigger] invoice_issues(d)[i]).0.len() >= 15
                && invoice_issues(d)[i].0.subrange(0, 15) == "payment_details"@),
        d.payment_details matches Some(pd) ==> {
            &&& has_entry_at(invoice_issues(d), "payment_details.account_number"@) <==> blank(
                pd.account_number@,
            )
            &&& has_entry_at(invoice_issues(d), "payment_details.swift"@) <==> (pd.swift matches Some(
                w,
            ) && !valid_swift(w@))
        },
{
    lemma_part_paths_begin(d);
    reveal_strlit("payment_details");
    reveal_strlit("payment_details.account_number");
    reveal_strlit("payment_details.swift");
    let es = invoice_issues(d);
    if d.payment_details is None {
        assert forall|i: int| 0 <= i < es.len() implies !((#[trigger] es[i]).0.len() >= 15
            && es[i].0.subrange(0, 15) == "payment_details"@) by {
            let p = es[i].0;
            assert(has_entry_at(es, p));
            lemma_invoice_entry_parts(d, p);
            if p.len() >= 15 && p.subrange(0, 15) == "payment_details"@ {
                assert(p[0] == p.subrange(0, 15)[0]);
                assert(p[1] == p.subrange(0, 15)[1]);
                lemma_no_entry_elsewhere(number_issues(d.number), 'n', 'u', p);
                lemma_no_entry_elsewhere(currency_issues(d.currency@), 'c', 'u', p);
                lemma_no_entry_elsewhere(subject_issues(d.seller, "seller"@, true), 's', 'e', p);
                lemma_no_entry_elsewhere(subject_issues(d.buyer, "buyer"@, false), 'b', 'u', p);
                lemma_no_entry_elsewhere(positions_issues(d.positions@), 'p', 'o', p);
                assert(payment_issues(d.payment_details).len() == 0);
            }
        }
    }
    if let Some(pd) = d.payment_details {
        let pa = "payment_details.account_number"@;
        let ps = "payment_details.swift"@;
        let x = issue(blank(pd.account_number@), pa, "account_number is empty"@);
        lemma_has_entry_issue(blank(pd.account_number@), pa, "account_number is empty"@, pa);
        lemma_has_entry_issue(blank(pd.account_number@), pa, "account_number is empty"@, ps);
        let rest = match pd.swift {
            None => Seq::<(Seq<char>, Seq<char>)>::empty(),
            Some(w) => swift_issues(w@),
        };
        if let Some(w) = pd.swift {
            let t = trimmed(w@);
            let c1 = !(str_len(t) == 8 || str_len(t) == 11);
            let c2 = !(forall|i: int| 0 <= i < t.len() ==> is_ascii_alphanumeric(#[trigger] t[i]));
            lemma_has_entry_issue(c1, ps, "SWIFT must be 8 or 11 characters if present"@, pa);
            lemma_has_entry_issue(c1, ps, "SWIFT must be 8 or 11 characters if present"@, ps);
            lemma_has_entry_issue(c2, ps, "SWIFT contains invalid characters"@, pa);
            lemma_has_entry_issue(c2, ps, "SWIFT contains invalid characters"@, ps);
            lemma_has_entry_concat(issue(c1, ps, "SWIFT must be 8 or 11 characters if present"@),
                issue(c2, ps, "SWIFT contains invalid characters"@), pa);
            lemma_has_entry_concat(issue(c1, ps, "SWIFT must be 8 or 11 characters if present"@),
                issue(c2, ps, "SWIFT contains invalid characters"@), ps);
        }
        lemma_has_entry_concat(x, rest, pa);
        lemma_has_entry_concat(x, rest, ps);
        lemma_invoice_entry_parts(d, pa);
        lemma_invoice_entry_parts(d, ps);
        lemma_no_entry_elsewhere(number_issues(d.number), 'n', 'u', pa);
        lemma_no_entry_elsewhere(currency_issues(d.currency@), 'c', 'u', pa);
        lemma_no_entry_elsewhere(subject_issues(d.seller, "seller"@, true), 's', 'e', pa);
        lemma_no_entry_elsewhere(subject_issues(d.buyer, "buyer"@, false), 'b', 'u', pa);
        lemma_no_entry_elsewhere(positions_issues(d.positions@), 'p', 'o', pa);
        lemma_no_entry_elsewhere(number_issues(d.number), 'n', 'u', ps);
        lemma_no_entry_elsewhere(currency_issues(d.currency@), 'c', 'u', ps);
        lemma_no_entry_elsewhere(subject_issues(d.seller, "seller"@, true), 's', 'e', ps);
        lemma_no_entry_elsewhere(subject_issues(d.buyer, "buyer"@, false), 'b', 'u', ps);
        lemma_no_entry_elsewhere(positions_issues(d.positions@), 'p', 'o', ps);
    }
}

/// 1 when `b` holds, 0 otherwise.
pub open spec fn ind(b: bool) -> nat {
    if b {
        1
    } else {
        0
    }
}

/// Number of failed checks of a party: the NIP (required for the seller; valid when Polish),
/// the name, the country code and four address fields.
pub open spec fn party_failures(s: Subject, is_seller: bool) -> nat {
    ind(is_seller && blank(s.nip@)) + ind(!blank(s.nip@) && s.address.country_code@ == "PL"@
        && !valid_pl_nip(s.nip@)) + ind(blank(s.name@)) + ind(!valid_country_code(s.address.country_code@))
        + ind(blank(s.address.street@)) + ind(blank(s.address.building_number@)) + ind(
        blank(s.address.city@),
    ) + ind(blank(s.address.postal_code@))
}

pub open spec fn position_failures(p: Position) -> nat {
    ind(blank(p.name@)) + ind(p.count.mantissa <= 0) + ind(p.price.mantissa < 0)
}

pub open spec fn positions_failures(ps: Seq<Position>) -> nat
    decreases ps.len(),
{
    if ps.len() == 0 {
        0
    } else {
        positions_failures(ps.drop_last()) + position_failures(ps.last())
    }
}

pub open spec fn payment_failures(pd: Option<PaymentDetails>) -> nat {
    match pd {
        None => 0,
        Some(p) => ind(blank(p.account_number@)) + match p.swift {
            None => 0,
            Some(w) => {
                let t = trimmed(w@);
                ind(!(str_len(t) == 8 || str_len(t) == 11)) + ind(
                    !(forall|i: int| 0 <= i < t.len() ==> is_ascii_alphanumeric(#[trigger] t[i])),
                )
            },
        },
    }
}

/// Number of failed checks of a descriptor: the number (present, not blank), the currency
/// (three ASCII letters), each party, the positions (at least one; each name, count, price) and
/// the payment details (account number; SWIFT length and characters).
pub open spec fn failed_checks(d: InvoiceData) -> nat {
    ind(
        match d.number {
            None => true,
            Some(n) => blank(n@),
        },
    ) + ind(!(d.currency@.len() == 3 && ascii_letters(d.currency@))) + party_failures(d.seller, true)
        + party_failures(d.buyer, false) + ind(d.positions@.len() == 0) + positions_failures(
        d.positions@,
    ) + payment_failures(d.payment_details)
}

proof fn lemma_each_position_count(ps: Seq<Position>)
    ensures
        each_position_issues(ps).len() == positions_failures(ps),
    decreases ps.len(),
{
    if ps.len() > 0 {
        lemma_each_position_count(ps.drop_last());
    }
}

proof fn lemma_party_count(s: Subject, key: Seq<char>, is_seller: bool)
    ensures
        subject_issues(s, key, is_seller).len() == party_failures(s, is_seller),
{
    assert(!ten_digits(s.nip@) ==> !valid_pl_nip(s.nip@));
    assert(nip_issues(s, key, is_seller).len() == ind(is_seller && blank(s.nip@)) + ind(!blank(s.nip@)
        && s.address.country_code@ == "PL"@ && !valid_pl_nip(s.nip@)));
    assert(address_issues(s.address, key).len() == ind(!valid_country_code(s.address.country_code@))
        + ind(blank(s.address.street@)) + ind(blank(s.address.building_number@)) + ind(
        blank(s.address.city@),
    ) + ind(blank(s.address.postal_code@)));
}

proof fn lemma_payment_count(pd: Option<PaymentDetails>)
    ensures
        payment_issues(pd).len() == payment_failures(pd),
{
}

proof fn lemma_first_parts_count(d: InvoiceData)
    ensures
        number_issues(d.number).len() == ind(
            match d.number {
                None => true,
                Some(n) => blank(n@),
            },
        ),
        currency_issues(d.currency@).len() == ind(!(d.currency@.len() == 3 && ascii_letters(d.currency@))),
        positions_issues(d.positions@).len() == ind(d.positions@.len() == 0) + positions_failures(
            d.positions@,
        ),
{
    lemma_each_position_count(d.positions@);
}

/// Validation reports one entry per failed check, so it fails exactly when some check fails.
pub proof fn lemma_one_entry_per_failed_check(d: InvoiceData)
    ensures
        invoice_issues(d).len() == failed_checks(d),
{
    lemma_first_parts_count(d);
    lemma_party_count(d.seller, "seller"@, true);
    lemma_party_count(d.buyer, "buyer"@, false);
    lemma_payment_count(d.payment_details);
}

/// The number and currency of an invoice: an entry at `number` exactly when it is missing or
/// blank, and at `currency` exactly when it is not three ASCII letters.
pub proof fn lemma_invoice_number_and_currency(d: InvoiceData)
    ensures
        has_entry_at(invoice_issues(d), "number"@) <==> match d.number {
            None => true,
            Some(n) => blank(n@),
        },
        has_entry_at(invoice_issues(d), "currency"@) <==> !(d.currency@.len() == 3 && ascii_letters(
            d.currency@,
        )),
{
    lemma_part_paths_begin(d);
    reveal_strlit("number");
    reveal_strlit("currency");
    let pn = "number"@;
    let pc = "currency"@;
    lemma_invoice_entry_parts(d, pn);
    lemma_invoice_entry_parts(d, pc);
    match d.number {
        None => {
            assert(number_issues(d.number)[0].0 == pn);
        },
        Some(n) => {
            lemma_has_entry_issue(blank(n@), pn, "invoice number is empty"@, pn);
        },
    }
    let c = d.currency@;
    let c1 = c.len() != 3;
    let c2 = c.len() == 3 && !ascii_letters(c);
    lemma_has_entry_issue(c1, pc, "invalid currency code length"@, pc);
    lemma_has_entry_issue(c2, pc, "currency code must consist of three ASCII letters"@, pc);
    lemma_has_entry_concat(issue(c1, pc, "invalid currency code length"@),
        issue(c2, pc, "currency code must consist of three ASCII letters"@), pc);
    lemma_no_entry_elsewhere(currency_issues(c), 'c', 'u', pn);
    lemma_no_entry_elsewhere(number_issues(d.number), 'n', 'u', pc);
    lemma_no_entry_elsewhere(subject_issues(d.seller, "seller"@, true), 's', 'e', pn);
    lemma_no_entry_elsewhere(subject_issues(d.buyer, "buyer"@, false), 'b', 'u', pn);
    lemma_no_entry_elsewhere(positions_issues(d.positions@), 'p', 'o', pn);
    lemma_no_entry_elsewhere(payment_issues(d.payment_details), 'p', 'a', pn);
    lemma_no_entry_elsewhere(subject_issues(d.seller, "seller"@, true), 's', 'e', pc);
    lemma_no_entry_elsewhere(subject_issues(d.buyer, "buyer"@, false), 'b', 'u', pc);
    lemma_no_entry_elsewhere(positions_issues(d.positions@), 'p', 'o', pc);
    lemma_no_entry_elsewhere(payment_issues(d.payment_details), 'p', 'a', pc);
}

/// A valid NIP is ten bytes long in UTF-8, each byte the ASCII code of its digit, so the rule
/// holds of its bytes as of its characters.
pub proof fn lemma_valid_nip_bytes(s: Seq<char>)
    requires
        valid_pl_nip(s),
    ensures
        vstd::utf8::encode_utf8(s).len() == 10,
        forall|i: int|
            0 <= i < 10 ==> (#[trigger] vstd::utf8::encode_utf8(s)[i]) == s[i] as u8 && 48 <= vstd::utf8::encode_utf8(s)[i] <= 57,
{
    assert(vstd::utf8::is_ascii_chars(s));
    vstd::utf8::is_ascii_chars_encode_utf8(s);
    assert forall|i: int| 0 <= i < 10 implies (#[trigger] vstd::utf8::encode_utf8(s)[i]) == s[i] as u8
        && 48 <= vstd::utf8::encode_utf8(s)[i] <= 57 by {
        assert(is_ascii_digit(s[i]));
        assert(s[i] as u8 == vstd::utf8::encode_utf8(s)[i]);
    }
}


/// `a` and `b` leave the same remainder modulo 11 only if `w * delta` is a multiple of 11, which
/// for a weight `w` that is not a multiple of 11 and `delta` in `-9..=9` means `delta == 0`.
proof fn lemma_mod11_shift(a: int, w: int, delta: int)
    requires
        a >= 0,
        a + w * delta >= 0,
        (a + w * delta) % 11 == a % 11,
        -9 <= delta <= 9,
        w == 1 || w == -1 || w == 2 || w == -2 || w == 3 || w == 4 || w == 5 || w == 6 || w == 7
            || w == 8,
    ensures
        delta == 0,
{
    let q1 = a / 11;
    let q2 = (a + w * delta) / 11;
    assert(a == 11 * q1 + a % 11);
    assert(a + w * delta == 11 * q2 + (a + w * delta) % 11);
    assert(w * delta == 11 * (q2 - q1));
    assert(delta == 0) by (nonlinear_arith)
        requires
            w * delta == 11 * (q2 - q1),
            -9 <= delta <= 9,
            w == 1 || w == -1 || w == 2 || w == -2 || w == 3 || w == 4 || w == 5 || w == 6 || w
                == 7 || w == 8,
    ;
}

/// Changing one digit of a valid Polish NIP into another digit never gives a valid NIP: the
/// checksum catches every single-digit error.
pub proof fn lemma_nip_detects_changed_digit(s: Seq<char>, k: int, c: char)
    requires
        valid_pl_nip(s),
        0 <= k < 10,
        is_ascii_digit(c),
        c != s[k],
    ensures
        !valid_pl_nip(s.update(k, c)),
{
    let t = s.update(k, c);
    if valid_pl_nip(t) {
        assert(is_ascii_digit(s[k]));
        let delta = digit_value(c) - digit_value(s[k]);
        assert(delta != 0);
        let a = nip_weighted_sum(s);
        assert(a >= 0) by {
            assert(is_ascii_digit(s[0]) && is_ascii_digit(s[1]) && is_ascii_digit(s[2]));
            assert(is_ascii_digit(s[3]) && is_ascii_digit(s[4]) && is_ascii_digit(s[5]));
            assert(is_ascii_digit(s[6]) && is_ascii_digit(s[7]) && is_ascii_digit(s[8]));
        }
        if k == 9 {
            assert(nip_weighted_sum(t) == a);
        } else {
            let w: int = if k == 0 || k == 7 {
                6
            } else if k == 1 || k == 6 {
                5
            } else if k == 2 || k == 8 {
                7
            } else if k == 3 {
                2
            } else if k == 4 {
                3
            } else {
                4
            };
            assert(nip_weighted_sum(t) == a + w * delta);
            assert(t[9] == s[9]);
            lemma_mod11_shift(a, w, delta);
        }
    }
}

/// How swapping the digits at `k` and `k + 1` (`k < 8`) moves the weighted sum: by the
/// difference of their weights times the difference of the digits.
proof fn lemma_swap_moves_sum(s: Seq<char>, k: int) -> (w: int)
    requires
        s.len() == 10,
        0 <= k < 8,
    ensures
        w == 1 || w == -2 || w == 5 || w == -1,
        nip_weighted_sum(s.update(k, s[k + 1]).update(k + 1, s[k])) == nip_weighted_sum(s) + w * (
        digit_value(s[k + 1]) - digit_value(s[k])),
{
    let t = s.update(k, s[k + 1]).update(k + 1, s[k]);
    assert(t[k] == s[k + 1] && t[k + 1] == s[k]);
    assert forall|i: int| 0 <= i < 10 && i != k && i != k + 1 implies t[i] == s[i] by {}
    assert(k == 0 || k + 1 == 0 || t[0] == s[0]);
    assert(k == 1 || k + 1 == 1 || t[1] == s[1]);
    assert(k == 2 || k + 1 == 2 || t[2] == s[2]);
    assert(k == 3 || k + 1 == 3 || t[3] == s[3]);
    assert(k == 4 || k + 1 == 4 || t[4] == s[4]);
    assert(k == 5 || k + 1 == 5 || t[5] == s[5]);
    assert(k == 6 || k + 1 == 6 || t[6] == s[6]);
    assert(k == 7 || k + 1 == 7 || t[7] == s[7]);
    assert(k == 8 || k + 1 == 8 || t[8] == s[8]);
    assert(k == 9 || k + 1 == 9 || t[9] == s[9]);
    if k == 0 {
        1
    } else if k == 1 {
        -2
    } else if k == 2 {
        5
    } else {
        -1
    }
}

/// Swapping two adjacent, different digits of a valid Polish NIP never gives a valid NIP: the
/// checksum catches every transposition of neighbours.
#[verifier::spinoff_prover]
pub proof fn lemma_nip_detects_swapped_digits(s: Seq<char>, k: int)
    requires
        valid_pl_nip(s),
        0 <= k < 9,
        s[k] != s[k + 1],
    ensures
        !valid_pl_nip(s.update(k, s[k + 1]).update(k + 1, s[k])),
{
    let t = s.update(k, s[k + 1]).update(k + 1, s[k]);
    if valid_pl_nip(t) {
        assert(is_ascii_digit(s[k]) && is_ascii_digit(s[k + 1]));
        let delta = digit_value(s[k + 1]) - digit_value(s[k]);
        assert(delta != 0);
        let a = nip_weighted_sum(s);
        assert(a >= 0) by {
            assert(is_ascii_digit(s[0]) && is_ascii_digit(s[1]) && is_ascii_digit(s[2]));
            assert(is_ascii_digit(s[3]) && is_ascii_digit(s[4]) && is_ascii_digit(s[5]));
            assert(is_ascii_digit(s[6]) && is_ascii_digit(s[7]) && is_ascii_digit(s[8]));
        }
        if k == 8 {
            // The last weighted digit (weight 7) and the check digit trade places.
            assert(t[8] == s[9] && t[9] == s[8]);
            assert forall|i: int| 0 <= i < 8 implies t[i] == s[i] by {}
            assert(t[0] == s[0] && t[1] == s[1] && t[2] == s[2] && t[3] == s[3]);
            assert(t[4] == s[4] && t[5] == s[5] && t[6] == s[6] && t[7] == s[7]);
            let b = a + 7 * delta;
            assert(nip_weighted_sum(t) == b);
            let q1 = a / 11;
            let q2 = b / 11;
            assert(a == 11 * q1 + digit_value(s[9]));
            assert(b == 11 * q2 + digit_value(s[8]));
            assert(delta == 0) by (nonlinear_arith)
                requires
                    a == 11 * q1 + digit_value(s[9]),
                    a + 7 * delta == 11 * q2 + digit_value(s[8]),
                    delta == digit_value(s[9]) - digit_value(s[8]),
                    -9 <= delta <= 9,
            ;
        } else {
            let w = lemma_swap_moves_sum(s, k);
            assert(t[9] == s[9]);
            lemma_mod11_shift(a, w, delta);
        }
    }
}

} // verus!
