//! Time stamps and identifiers, which come from the clock and from chance.

use vstd::prelude::*;

verus! {

/// A lower-case hexadecimal digit.
pub open spec fn is_lower_hex(c: char) -> bool {
    ('0' <= c && c <= '9') || ('a' <= c && c <= 'f')
}

/// The hyphenated text form of a version-4 UUID: 36 characters, hyphens at
/// positions 8, 13, 18 and 23, lower-case hexadecimal digits elsewhere, the
/// version digit `4` at position 14 and a variant digit in `8..=b` at 19.
pub open spec fn is_v4_uuid_text(s: Seq<char>) -> bool {
    &&& s.len() == 36
    &&& forall|i: int|
        0 <= i < 36 ==> if i == 8 || i == 13 || i == 18 || i == 23 {
            #[trigger] s[i] == '-'
        } else {
            is_lower_hex(s[i])
        }
    &&& s[14] == '4'
    &&& (s[19] == '8' || s[19] == '9' || s[19] == 'a' || s[19] == 'b')
}

/// A decimal digit.
pub open spec fn is_digit(c: char) -> bool {
    '0' <= c && c <= '9'
}

/// Text made of decimal digits only.
pub open spec fn all_digits(s: Seq<char>) -> bool {
    forall|i: int| 0 <= i < s.len() ==> is_digit(#[trigger] s[i])
}

/// A year as chrono writes it: four digits, or a sign followed by at least
/// four digits for years outside `0..=9999`.
pub open spec fn is_year_text(y: Seq<char>) -> bool {
    ||| y.len() == 4 && all_digits(y)
    ||| y.len() >= 5 && (y[0] == '+' || y[0] == '-') && all_digits(y.skip(1))
}

/// The rest of a date and time after the year: `-MM-DDTHH:MM:SS`, two digits
/// each.
pub open spec fn is_date_time_rest(t: Seq<char>) -> bool {
    &&& t.len() == 15
    &&& t[0] == '-' && is_digit(t[1]) && is_digit(t[2])
    &&& t[3] == '-' && is_digit(t[4]) && is_digit(t[5])
    &&& t[6] == 'T' && is_digit(t[7]) && is_digit(t[8])
    &&& t[9] == ':' && is_digit(t[10]) && is_digit(t[11])
    &&& t[12] == ':' && is_digit(t[13]) && is_digit(t[14])
}

/// A fraction of a second as chrono writes it for `to_rfc3339`: nothing, or a
/// dot and three, six or nine digits.
pub open spec fn is_fraction_text(f: Seq<char>) -> bool {
    ||| f.len() == 0
    ||| (f.len() == 4 || f.len() == 7 || f.len() == 10) && f[0] == '.' && all_digits(f.skip(1))
}

/// A time stamp whose fraction has `fl` characters: year, `-MM-DDTHH:MM:SS`,
/// fraction, and the UTC offset `+00:00`.
pub open spec fn is_utc_stamp_with_fraction(s: Seq<char>, fl: int) -> bool {
    let n = s.len() as int;
    &&& n >= 6 + fl + 15 + 4
    &&& s.subrange(n - 6, n) == "+00:00"@
    &&& is_fraction_text(s.subrange(n - 6 - fl, n - 6))
    &&& is_date_time_rest(s.subrange(n - 6 - fl - 15, n - 6 - fl))
    &&& is_year_text(s.subrange(0, n - 6 - fl - 15))
}

/// An RFC 3339 time stamp in UTC as chrono's `to_rfc3339` writes it, such as
/// `2024-05-01T12:30:05.123+00:00`.
pub open spec fn is_rfc3339_utc(s: Seq<char>) -> bool {
    ||| is_utc_stamp_with_fraction(s, 0)
    ||| is_utc_stamp_with_fraction(s, 4)
    ||| is_utc_stamp_with_fraction(s, 7)
    ||| is_utc_stamp_with_fraction(s, 10)
}

/// Calls `uuid::Uuid::new_v4` and writes the identifier with `to_string`.
/// The identifier is random; of every outcome the claim is only its text
/// form, which the crate's `format_hyphenated` and `new_v4` bit masks fix.
#[verifier::external_body]
pub(crate) fn new_v4_uuid() -> (r: String)
    ensures
        is_v4_uuid_text(r@),
{
    uuid::Uuid::new_v4().to_string()
}

/// Calls `chrono::Utc::now` and writes the instant with `to_rfc3339`.  The
/// value depends on the clock; of every outcome the claim is only its form,
/// which `write_rfc3339` fixes: the year (four digits, or signed beyond
/// `0..=9999`), two digits each for month, day, hour, minute and second, a
/// fraction of none, three, six or nine digits, and the offset `+00:00`.
#[verifier::external_body]
pub(crate) fn now_rfc3339() -> (r: String)
    ensures
        is_rfc3339_utc(r@),
{
    chrono::Utc::now().to_rfc3339()
}

} // verus!
