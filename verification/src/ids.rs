//! Identifiers and clock readings.
//!
//! Identifiers are UUIDs held as their 128-bit value; the `uuid` crate formats,
//! parses and generates them. The clock is read through `chrono`.

use vstd::prelude::*;
use crate::models::Timestamp;

verus! {

/// The lower-case hexadecimal digit of a value below sixteen.
pub open spec fn hex_digit(n: u128) -> char {
    if n < 10 {
        (48 + n) as char
    } else {
        (87 + n) as char
    }
}

/// The "simple" text of an identifier: its 32 hexadecimal digits, most
/// significant first, in lower case and without separators.
pub open spec fn simple_text(id: u128) -> Seq<char> {
    Seq::new(32, |i: int| hex_digit((id >> ((31 - i) * 4) as u128) & 0xf))
}

/// The "hyphenated" text of an identifier: the simple text split 8-4-4-4-12
/// by hyphens, as `Display` writes it.
pub open spec fn hyphenated_text(id: u128) -> Seq<char> {
    let s = simple_text(id);
    s.subrange(0, 8) + seq!['-'] + s.subrange(8, 12) + seq!['-'] + s.subrange(12, 16)
        + seq!['-'] + s.subrange(16, 20) + seq!['-'] + s.subrange(20, 32)
}

/// What `uuid::Uuid::parse_str` accepts, and the value it reads, for a text.
pub uninterp spec fn parsed_uuid(text: Seq<char>) -> Option<u128>;

/// Calls `uuid::Uuid::simple` on the identifier and formats it with `to_string`.
/// Claims the 32 lower-case hexadecimal digits of the big-endian value.
#[verifier::external_body]
pub(crate) fn simple_string(id: u128) -> (s: String)
    ensures
        s@ == simple_text(id),
{
    uuid::Uuid::from_u128(id).simple().to_string()
}

/// Formats the identifier with `uuid::Uuid`'s `Display` (the hyphenated form).
/// Claims the 8-4-4-4-12 grouping of the lower-case hexadecimal digits.
#[verifier::external_body]
pub(crate) fn hyphenated_string(id: u128) -> (s: String)
    ensures
        s@ == hyphenated_text(id),
{
    uuid::Uuid::from_u128(id).to_string()
}

/// Calls `uuid::Uuid::parse_str`. Claims only that the outcome is a function of
/// the text; the accepted formats are not written out here.
#[verifier::external_body]
pub(crate) fn parse_uuid(text: &str) -> (r: Option<u128>)
    ensures
        r == parsed_uuid(text@),
{
    match uuid::Uuid::parse_str(text) {
        Ok(u) => Some(u.as_u128()),
        Err(_) => None,
    }
}

/// Calls `uuid::Uuid::new_v4`. The value is random; the source sets the version
/// nibble (bits 76 to 79) to 4 on every outcome.
#[verifier::external_body]
pub(crate) fn random_uuid() -> (r: u128)
    ensures
        (r >> 76u128) & 0xf == 4,
{
    uuid::Uuid::new_v4().as_u128()
}

/// Calls `chrono::Utc::now()` and splits the reading, one for one, into its
/// whole seconds since the Unix epoch (`timestamp`) and the nanoseconds past
/// them (`timestamp_subsec_nanos`). Nothing is claimed of the reading: it
/// depends on the clock.
#[verifier::external_body]
pub(crate) fn now() -> (r: Timestamp) {
    let t = chrono::Utc::now();
    Timestamp { secs: t.timestamp(), nanos: t.timestamp_subsec_nanos() }
}

/// A digit of the simple text is never a dot, so the text is one path segment.
pub proof fn lemma_simple_text_has_no_dot(id: u128)
    ensures
        simple_text(id).len() == 32,
        forall|i: int| 0 <= i < 32 ==> #[trigger] simple_text(id)[i] != '.',
{
    assert forall|i: int| 0 <= i < 32 implies #[trigger] simple_text(id)[i] != '.' by {
        let k: u128 = ((31 - i) * 4) as u128;
        let n: u128 = (id >> k) & 0xf;
        assert(n <= 15) by (bit_vector)
            requires
                n == (id >> k) & 0xf,
        ;
    }
}

} // verus!
