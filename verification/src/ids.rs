//! Random identifiers.

use vstd::prelude::*;

verus! {

/// A hexadecimal digit in small letters.
pub open spec fn is_hex_digit(c: char) -> bool {
    '0' <= c <= '9' || 'a' <= c <= 'f'
}

/// The spelling of a random UUID: 32 hexadecimal digits, of which two tell that it is random, in
/// groups of 8, 4, 4, 4 and 12.
pub open spec fn is_uuid(s: Seq<char>) -> bool {
    &&& s.len() == 36
    &&& forall|i: int|
        0 <= i < 36 ==> if i == 8 || i == 13 || i == 18 || i == 23 {
            #[trigger] s[i] == '-'
        } else {
            is_hex_digit(s[i])
        }
    &&& s[14] == '4'
    &&& s[19] == '8' || s[19] == '9' || s[19] == 'a' || s[19] == 'b'
}

/// The spelling of a random UUID without groups.
pub open spec fn is_simple_uuid(s: Seq<char>) -> bool {
    &&& s.len() == 32
    &&& forall|i: int| 0 <= i < 32 ==> is_hex_digit(#[trigger] s[i])
    &&& s[12] == '4'
    &&& s[16] == '8' || s[16] == '9' || s[16] == 'a' || s[16] == 'b'
}

/// `uuid::Uuid::new_v4`, spelled in groups. Which of the random UUIDs it gives rests on chance.
#[verifier::external_body]
pub(crate) fn new_uuid() -> (s: String)
    ensures
        is_uuid(s@),
{
    uuid::Uuid::new_v4().to_string()
}

/// `uuid::Uuid::new_v4`, spelled by `uuid::Uuid::simple` without groups. Which of the random UUIDs it
/// gives rests on chance.
#[verifier::external_body]
pub(crate) fn new_simple_uuid() -> (s: String)
    ensures
        is_simple_uuid(s@),
{
    uuid::Uuid::new_v4().simple().to_string()
}

/// An identifier for an account or a login.
pub fn new_id() -> (id: String)
    ensures
        is_uuid(id@),
{
    new_uuid()
}

} // verus!
