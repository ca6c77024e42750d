//! The API key that requests to the proxy have to show.

use vstd::prelude::*;
use vstd::string::*;

use crate::ids;
use crate::text;

verus! {

/// The proxy's API key, if one is configured.
#[derive(Debug)]
pub struct ProxyAuth {
    api_key: Option<String>,
}

/// A bearer token is admitted where `key` is the configured key, if any.
pub open spec fn admits(key: Option<Seq<char>>, bearer_token: Seq<char>) -> bool {
    key == Some(bearer_token)
}

impl ProxyAuth {
    /// The configured key.
    pub closed spec fn view(&self) -> Option<Seq<char>> {
        text::text_in(self.api_key)
    }

    /// Takes over the key that was stored, if there was one.
    pub fn load_or_create(stored: Option<String>) -> (r: ProxyAuth)
        ensures
            r@ == text::text_in(stored),
    {
        ProxyAuth { api_key: stored }
    }

    /// Takes over a new key.
    pub fn set_api_key(&mut self, api_key: &str)
        ensures
            final(self)@ == Some(api_key@),
    {
        self.api_key = Some(api_key.to_string());
    }

    /// Whether a bearer token is the configured key.
    pub fn verify_bearer_token(&self, bearer_token: &str) -> (r: bool)
        ensures
            r == admits(self@, bearer_token@),
    {
        match &self.api_key {
            Some(key) => text::same(key.as_str(), bearer_token),
            None => false,
        }
    }

    /// Whether a key is configured.
    pub fn is_configured(&self) -> (r: bool)
        ensures
            r == (self@ is Some),
    {
        self.api_key.is_some()
    }

    /// The configured key.
    pub fn api_key(&self) -> (r: Option<&str>)
        ensures
            text::str_in(r) == self@,
    {
        text::borrow_text(&self.api_key)
    }
}

/// The key is admitted and nothing else is; without a key nothing is.
pub proof fn law_only_the_key_is_admitted(key: Seq<char>, token: Seq<char>)
    ensures
        admits(Some(key), token) <==> token == key,
        !admits(None, token),
{
}

/// An API key made of two UUIDs.
pub open spec fn is_generated_key(key: Seq<char>) -> bool {
    &&& key.len() == 68
    &&& key.take(4) == "ocp_"@
    &&& ids::is_simple_uuid(key.subrange(4, 36))
    &&& ids::is_simple_uuid(key.subrange(36, 68))
}

/// A random API key.
pub fn generate_api_key() -> (key: String)
    ensures
        is_generated_key(key@),
{
    let first = ids::new_simple_uuid();
    let second = ids::new_simple_uuid();
    let key = "ocp_".to_string().concat(first.as_str()).concat(second.as_str());
    proof {
        reveal_strlit("ocp_");
        assert(key@.take(4) =~= "ocp_"@);
        assert(key@.subrange(4, 36) =~= first@);
        assert(key@.subrange(36, 68) =~= second@);
    }
    key
}

/// A key that is made is `ocp_` and 64 hexadecimal digits.
pub proof fn law_generated_keys(key: Seq<char>, k: int)
    requires
        is_generated_key(key),
        0 <= k < 64,
    ensures
        key.len() == 68,
        key.take(4) == "ocp_"@,
        '0' <= key[4 + k] <= '9' || 'a' <= key[4 + k] <= 'f',
{
    if k < 32 {
        assert(key.subrange(4, 36)[k] == key[4 + k]);
        assert(ids::is_hex_digit(key.subrange(4, 36)[k]));
    } else {
        assert(key.subrange(36, 68)[k - 32] == key[4 + k]);
        assert(ids::is_hex_digit(key.subrange(36, 68)[k - 32]));
    }
}

/// The key that is set is the only one that is accepted from then on, and without a key none is.
pub proof fn law_setting_a_key(
    auth: &mut ProxyAuth,
    api_key: &str,
    r: (),
    other: &ProxyAuth,
    token: &str,
    admitted: bool,
)
    requires
        call_ensures(ProxyAuth::set_api_key, (auth, api_key), r),
        call_ensures(ProxyAuth::verify_bearer_token, (other, token), admitted),
    ensures
        other@ == final(auth)@ ==> (admitted <==> token@ == api_key@),
        other@ is None ==> !admitted,
        other@ matches Some(key) ==> (admitted <==> token@ == key),
{
}

} // verus!
