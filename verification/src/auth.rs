use vstd::prelude::*;
use sha3::Digest;
use crate::store::LinkStore;

verus! {

/// The lowercase hex rendering of the SHA3-256 digest of a string's bytes:
/// a function of the characters alone.
pub uninterp spec fn sha3_hex_of(key: Seq<char>) -> Seq<char>;

/// Relies on sha3's `Sha3_256` (update over the string's bytes, then
/// finalize) and lowercase-hex formatting of the digest: the result depends
/// on the input characters alone.
#[verifier::external_body]
fn sha3_256_hex(key: &str) -> (r: String)
    ensures
        r@ == sha3_hex_of(key@),
{
    let mut hasher = sha3::Sha3_256::new();
    hasher.update(key.as_bytes());
    let digest = hasher.finalize();
    format!("{digest:x}")
}

/// Whether a computed digest matches the stored one, byte for byte.
pub fn api_key_matches(hashed: &String, stored: &String) -> (r: bool)
    ensures
        r == (hashed@ == stored@),
{
    *hashed == *stored
}

/// Whether `api_key` is the accepted key: its digest equals the stored
/// digest. The plaintext key is never stored or compared directly.
pub fn authorize(api_key: &str, stored_hash: &String) -> (r: bool)
    ensures
        r == (sha3_hex_of(api_key@) == stored_hash@),
{
    let hashed = sha3_256_hex(api_key);
    api_key_matches(&hashed, stored_hash)
}

/// The view of the optional key taken from the request header.
pub open spec fn key_view(api_key: Option<&String>) -> Option<Seq<char>> {
    match api_key {
        Some(k) => Some(k@),
        None => None,
    }
}

/// Whether authentication admits an optional supplied key against a stored digest:
/// a key must be present and its digest must match.
pub open spec fn spec_authorized(hashed_api_key: Seq<char>, api_key: Option<Seq<char>>) -> bool {
    match api_key {
        Some(k) => sha3_hex_of(k) == hashed_api_key,
        None => false,
    }
}

/// The guard in front of protected routes. A missing key is denied at once,
/// without reading anything; a key whose digest differs from the stored one
/// is denied as well; only a matching digest passes. The store is only ever
/// read here, never changed.
pub fn auth(store: &LinkStore, api_key: Option<&String>) -> (r: Result<(), (u16, String)>)
    ensures
        r is Ok <==> spec_authorized(store.hashed_api_key@, key_view(api_key)),
        r matches Err(e) ==> e.0 == 401 && e.1@ == "Unauthorized"@,
{
    match api_key {
        None => Err((401, "Unauthorized".to_owned())),
        Some(key) => {
            if authorize(key.as_str(), &store.hashed_api_key) {
                Ok(())
            } else {
                Err((401, "Unauthorized".to_owned()))
            }
        },
    }
}

} // verus!
