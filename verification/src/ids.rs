//! Fresh identifiers for messages and instructions.
use vstd::prelude::*;

verus! {

/// A lowercase hexadecimal digit.
pub open spec fn is_lower_hex_digit(c: char) -> bool {
    ('0' <= c && c <= '9') || ('a' <= c && c <= 'f')
}

/// The hyphenated text of a version-4 UUID: 36 characters in groups of 8, 4,
/// 4, 4 and 12 lowercase hexadecimal digits separated by hyphens, the third
/// group starting with the version digit 4.
pub open spec fn is_v4_uuid_text(s: Seq<char>) -> bool {
    &&& s.len() == 36
    &&& forall|i: int|
        0 <= i < 36 ==> if i == 8 || i == 13 || i == 18 || i == 23 {
            #[trigger] s[i] == '-'
        } else {
            is_lower_hex_digit(s[i])
        }
    &&& s[14] == '4'
}

/// A fresh random identifier: a version-4 UUID (`uuid::Uuid::new_v4`)
/// displayed, which `uuid` writes in its lowercase hyphenated form.  Which
/// identifier comes out is left open; two calls may give different ones.
#[verifier::external_body]
pub(crate) fn new_message_identifier() -> (id: String)
    ensures
        is_v4_uuid_text(id@),
{
    format!("{}", uuid::Uuid::new_v4())
}

} // verus!
