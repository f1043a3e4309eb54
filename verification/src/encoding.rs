//! Percent-encoding of identifiers and the content-disposition header value
//! attached to a served blob.
//!
//! The header suggests a download whose filename is the identifier, encoded
//! so that every character outside the ASCII alphanumerics is escaped.

use vstd::prelude::*;

verus! {

/// Every character of the sequence is ASCII.
pub open spec fn ascii_only(s: Seq<char>) -> bool {
    forall|i: int| 0 <= i < s.len() ==> #[trigger] (s[i] as u32) < 128
}

/// The character is an ASCII alphanumeric: a digit or a letter of either
/// case. These are exactly the characters percent-encoding leaves unchanged.
pub open spec fn is_ascii_alphanumeric_char(c: char) -> bool {
    (0x30 <= c as u32 && c as u32 <= 0x39)
        || (0x41 <= c as u32 && c as u32 <= 0x5a)
        || (0x61 <= c as u32 && c as u32 <= 0x7a)
}

/// The uppercase hexadecimal digit of a value below 16.
pub open spec fn hex_upper(n: int) -> char {
    if n == 0 { '0' }
    else if n == 1 { '1' }
    else if n == 2 { '2' }
    else if n == 3 { '3' }
    else if n == 4 { '4' }
    else if n == 5 { '5' }
    else if n == 6 { '6' }
    else if n == 7 { '7' }
    else if n == 8 { '8' }
    else if n == 9 { '9' }
    else if n == 10 { 'A' }
    else if n == 11 { 'B' }
    else if n == 12 { 'C' }
    else if n == 13 { 'D' }
    else if n == 14 { 'E' }
    else { 'F' }
}

/// How one ASCII character is rendered: alphanumerics stand as themselves,
/// every other character becomes a percent sign and two uppercase
/// hexadecimal digits of its code.
pub open spec fn encode_char(c: char) -> Seq<char> {
    if is_ascii_alphanumeric_char(c) {
        seq![c]
    } else {
        seq!['%', hex_upper(c as u32 as int / 16), hex_upper(c as u32 as int % 16)]
    }
}

/// The percent-encoding of an ASCII character sequence, character by
/// character.
pub open spec fn spec_percent_encode(s: Seq<char>) -> Seq<char>
    decreases s.len(),
{
    if s.len() == 0 {
        Seq::empty()
    } else {
        encode_char(s[0]) + spec_percent_encode(s.drop_first())
    }
}

/// Relies on percent_encoding::utf8_percent_encode with the
/// NON_ALPHANUMERIC set: for ASCII input, each byte that is not an ASCII
/// alphanumeric is replaced by a percent sign and its two uppercase
/// hexadecimal digits, and alphanumeric bytes pass through unchanged.
#[verifier::external_body]
fn percent_encode_non_alphanumeric(s: &str) -> (r: String)
    requires
        ascii_only(s@),
    ensures
        r@ == spec_percent_encode(s@),
{
    percent_encoding::utf8_percent_encode(s, percent_encoding::NON_ALPHANUMERIC).to_string()
}

/// The content-disposition value served with a blob: an attachment whose
/// suggested filename is the percent-encoded identifier.
pub open spec fn spec_content_disposition(id: Seq<char>) -> Seq<char> {
    "attachment; filename*=UTF-8''"@ + spec_percent_encode(id)
}

/// Build the content-disposition header value for an identifier.
pub fn content_disposition(id: &str) -> (r: String)
    requires
        ascii_only(id@),
    ensures
        r@ == spec_content_disposition(id@),
{
    let mut r = String::from_str("attachment; filename*=UTF-8''");
    let encoded = percent_encode_non_alphanumeric(id);
    r.append(encoded.as_str());
    r
}

} // verus!
