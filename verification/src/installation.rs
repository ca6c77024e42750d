//! The identity of an installation of the proxy.

use vstd::prelude::*;
use vstd::string::*;

use crate::ids;
use crate::text;

verus! {

/// The file that holds the installation's id.
pub const INSTALLATION_ID_FILENAME: &'static str = "installation_id";

/// The id that a stored text holds, where it holds one.
pub open spec fn stored_id(stored: Option<Seq<char>>) -> Option<Seq<char>> {
    match stored {
        Some(stored) if text::trimmed(stored).len() > 0 => Some(text::trimmed(stored)),
        _ => None,
    }
}

/// The installation's id: the stored one, else a new one. The second part tells whether it is new.
pub fn load_or_create_installation_id(stored: Option<&str>) -> (r: (String, bool))
    ensures
        r.1 == (stored_id(text::str_in(stored)) is None),
        match stored_id(text::str_in(stored)) {
            Some(id) => r.0@ == id,
            None => ids::is_uuid(r.0@),
        },
{
    if let Some(stored) = stored {
        let trimmed = text::trim(stored);
        if trimmed.unicode_len() > 0 {
            return (trimmed.to_string(), false);
        }
    }
    (ids::new_uuid(), true)
}

/// A stored text holds an id exactly if it is not blank, and the id is the text without the white space
/// around it.
pub proof fn law_stored_id(stored: Seq<char>)
    ensures
        stored_id(Some(stored)) is None <==> forall|k: int|
            0 <= k < stored.len() ==> text::is_white(#[trigger] stored[k]),
        stored_id(Some(stored)) matches Some(id) ==> id == text::trimmed(stored),
        stored_id(None) is None,
{
    text::law_trimmed(stored);
}

/// The stored id of an installation is kept as it is but for the white space around it, and a new one is
/// made exactly if there is none or it is blank.
pub proof fn law_loading_an_id(stored: Option<&str>, r: (String, bool))
    requires
        call_ensures(load_or_create_installation_id, (stored,), r),
    ensures
        r.1 <==> stored is None || text::trimmed(stored->0@).len() == 0,
        !r.1 ==> r.0@ == text::trimmed(stored->0@),
        r.1 ==> r.0@.len() == 36,
{
}

} // verus!
