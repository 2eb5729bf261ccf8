//! Trusted declarations for the outside crates the logic calls.
//!
//! Each wrapper holds exactly one outside call; its contract states what the
//! called function's source and documentation show.  Everything else in the
//! crate is verified against these contracts.
use vstd::prelude::*;
use vstd::utf8::{decode_utf8, valid_utf8};

use argon2::password_hash::{PasswordHash, SaltString};
use argon2::{PasswordHasher, PasswordVerifier};

verus! {

/// Relies on `String::from_utf8`: succeeds exactly on valid UTF-8 and decodes
/// the bytes to the character sequence they encode.
#[verifier::external_body]
pub fn string_from_utf8(bytes: Vec<u8>) -> (r: Option<String>)
    ensures
        r matches Some(s) ==> valid_utf8(bytes@) && s@ == decode_utf8(bytes@),
        r is None ==> !valid_utf8(bytes@),
{
    String::from_utf8(bytes).ok()
}

/// What `urlencoding::decode` returns: a function of the input alone.
pub uninterp spec fn url_decoded(s: Seq<char>) -> Seq<char>;

/// Whether `urlencoding::decode` succeeds on the input: it fails exactly
/// when the percent-decoded bytes are not valid UTF-8, a function of the
/// input alone.
pub uninterp spec fn url_decodable(s: Seq<char>) -> bool;

/// Relies on `urlencoding::decode`: percent-decodes a string, failing only
/// when the decoded bytes are not valid UTF-8; a string without `%` decodes
/// to itself.
#[verifier::external_body]
pub fn url_decode(s: &str) -> (r: Option<String>)
    ensures
        r is Some <==> url_decodable(s@),
        r matches Some(d) ==> d@ == url_decoded(s@) && (!s@.contains('%') ==> d@ == s@),
        r is None ==> s@.contains('%'),
{
    match urlencoding::decode(s) {
        Ok(d) => Some(d.into_owned()),
        Err(_) => None,
    }
}

/// Relies on `uuid::Uuid::new_v4`: a freshly generated random UUID, returned
/// as its 128-bit value.  Nothing can be promised of a random value.
#[verifier::external_body]
pub fn random_uuid() -> u128 {
    uuid::Uuid::new_v4().as_u128()
}

#[verifier::external_type_specification]
#[verifier::external_body]
pub struct ExSaltString(SaltString);

/// Relies on `SaltString::generate`: a freshly generated random salt.
#[verifier::external_body]
pub fn generate_salt() -> SaltString {
    SaltString::generate(&mut argon2::password_hash::rand_core::OsRng)
}

/// Whether an Argon2 PHC hash string was computed from the given password:
/// a function of the two arguments alone.
pub uninterp spec fn password_matches(password: Seq<char>, hash: Seq<char>) -> bool;

/// Whether `PasswordHash::new` accepts a stored hash string: a function of
/// the string alone.
pub uninterp spec fn phc_parseable(hash: Seq<char>) -> bool;

/// Relies on `Argon2::hash_password` (via the `PasswordHasher` trait): on
/// success the returned string is a well-formed PHC hash (it is written by
/// `PasswordHash`'s own serializer, which `PasswordHash::new` re-parses)
/// and verifies against the hashed password.
#[verifier::external_body]
pub fn hash_password_with_salt(password: &str, salt: &SaltString) -> (r: Option<String>)
    ensures
        r matches Some(h) ==> password_matches(password@, h@) && phc_parseable(h@),
{
    match argon2::Argon2::default().hash_password(password.as_bytes(), salt) {
        Ok(h) => Some(h.to_string()),
        Err(_) => None,
    }
}

/// Relies on `Argon2::verify_password` (via the `PasswordVerifier` trait):
/// recomputes the hash and compares, a deterministic check.  `None` means the
/// stored string could not be parsed as a PHC hash.
#[verifier::external_body]
pub fn verify_password(password: &str, hash: &str) -> (r: Option<bool>)
    ensures
        r is Some <==> phc_parseable(hash@),
        r matches Some(b) ==> b == password_matches(password@, hash@),
{
    match PasswordHash::new(hash) {
        Ok(parsed) => Some(
            argon2::Argon2::default().verify_password(password.as_bytes(), &parsed).is_ok(),
        ),
        Err(_) => None,
    }
}

} // verus!
