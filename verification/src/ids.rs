//! Identifiers of stored records: fresh ones, their text form, and reading them back.

use crate::model::Uuid;
use vstd::prelude::*;

verus! {

/// The lowercase character of a hexadecimal digit.
pub open spec fn hex_char(d: nat) -> char {
    if d < 10 {
        ((d + 48) as int) as char
    } else {
        ((d + 87) as int) as char
    }
}

/// The last `count` hexadecimal digits of `n`, most significant first.
pub open spec fn hex_digits(n: nat, count: nat) -> Seq<char>
    decreases count,
{
    if count == 0 {
        Seq::empty()
    } else {
        hex_digits(n / 16, (count - 1) as nat).push(hex_char(n % 16))
    }
}

/// The hyphenated text of an identifier: its 32 lowercase hexadecimal digits in
/// groups of 8, 4, 4, 4 and 12, joined by hyphens.
pub open spec fn uuid_text(id: Uuid) -> Seq<char> {
    let h = hex_digits(id as nat, 32);
    h.subrange(0, 8) + seq!['-'] + h.subrange(8, 12) + seq!['-'] + h.subrange(12, 16) + seq!['-']
        + h.subrange(16, 20) + seq!['-'] + h.subrange(20, 32)
}

/// What `uuid::Uuid::parse_str` makes of a text, as a number; `None` where it refuses it.
pub uninterp spec fn parsed_uuid(text: Seq<char>) -> Option<Uuid>;

/// A fresh identifier from `uuid::Uuid::new_v4`. Nothing is promised of its value:
/// it is drawn at random.
#[verifier::external_body]
pub(crate) fn random_uuid() -> (id: Uuid) {
    uuid::Uuid::new_v4().as_u128()
}

/// The text of an identifier, from `uuid::Uuid::from_u128` and its hyphenated
/// form: the crate writes the 16 bytes, most significant first, as lowercase
/// hexadecimal digits in groups of 8, 4, 4, 4 and 12 joined by hyphens.
#[verifier::external_body]
pub(crate) fn uuid_to_string(id: Uuid) -> (s: String)
    ensures
        s@ == uuid_text(id),
{
    uuid::Uuid::from_u128(id).hyphenated().to_string()
}

/// Reads an identifier with `uuid::Uuid::parse_str`. The contract names the
/// result; of the formats the crate accepts it states only that the hyphenated
/// text of an identifier reads back as that identifier.
#[verifier::external_body]
pub(crate) fn parse_uuid(text: &str) -> (r: Option<Uuid>)
    ensures
        r == parsed_uuid(text@),
        forall|id: Uuid| text@ == uuid_text(id) ==> r == Some(id),
{
    match uuid::Uuid::parse_str(text) {
        Ok(id) => Some(id.as_u128()),
        Err(_) => None,
    }
}

} // verus!
