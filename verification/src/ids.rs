//! Fresh identifiers and the current time, from the `uuid` and `chrono`
//! crates.
use vstd::prelude::*;

use crate::numbers::is_digit;
use crate::text::ends_with_seq;

verus! {

/// `c` is a lowercase hexadecimal digit.
pub open spec fn is_lower_hex(c: char) -> bool {
    ('0' <= c && c <= '9') || ('a' <= c && c <= 'f')
}

/// `s` is the hyphenated lowercase text of a random (version 4, RFC 4122
/// variant) UUID: 36 characters, dashes at 8, 13, 18 and 23, hexadecimal
/// digits elsewhere, a `4` at 14 and one of `8`, `9`, `a`, `b` at 19.
pub open spec fn is_uuid_v4_text(s: Seq<char>) -> bool {
    &&& s.len() == 36
    &&& forall|i: int| 0 <= i < 36 ==> if i == 8 || i == 13 || i == 18 || i == 23 {
        #[trigger] s[i] == '-'
    } else {
        is_lower_hex(s[i])
    }
    &&& s[14] == '4'
    &&& (s[19] == '8' || s[19] == '9' || s[19] == 'a' || s[19] == 'b')
}

/// Calls `uuid::Uuid::new_v4` and writes the result as text (its `Display`,
/// the hyphenated lowercase form). Claimed: the text has that form, with the
/// version digit `4` and an RFC 4122 variant digit. Which identifier comes
/// out is random and not stated.
#[verifier::external_body]
pub(crate) fn new_uuid_text() -> (r: String)
    ensures
        is_uuid_v4_text(r@),
{
    uuid::Uuid::new_v4().to_string()
}

/// `s` has the form in which `to_rfc3339` writes a UTC time: it ends with
/// the offset `+00:00`, and when it starts with a digit (a year from 0 to
/// 9999, written without sign) it starts with `YYYY-MM-DDTHH:MM:SS` and is at
/// least 25 characters long.
pub open spec fn is_rfc3339_utc_text(s: Seq<char>) -> bool {
    &&& ends_with_seq(s, "+00:00"@)
    &&& s.len() > 0 && is_digit(s[0]) ==> {
        &&& s.len() >= 25
        &&& forall|i: int| 0 <= i < 19 ==> if i == 4 || i == 7 {
            #[trigger] s[i] == '-'
        } else if i == 10 {
            s[i] == 'T'
        } else if i == 13 || i == 16 {
            s[i] == ':'
        } else {
            is_digit(s[i])
        }
    }
}

/// Calls `chrono::Utc::now` and writes the time with `to_rfc3339`. Claimed:
/// the text has the form above (chrono writes years 0 to 9999 as four digits
/// and others with a sign, then two digits each for month, day, hour, minute
/// and second, an optional fraction, and `+00:00` for UTC). The time itself
/// is not stated.
#[verifier::external_body]
pub(crate) fn now_rfc3339() -> (r: String)
    ensures
        is_rfc3339_utc_text(r@),
{
    chrono::Utc::now().to_rfc3339()
}

} // verus!
