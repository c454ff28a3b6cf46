//! Trusted boundary to the credential primitives: memory-hard password
//! hashing (argon2), URL-safe token encoding (base64), and the random bytes
//! both are fed from (rand).
//!
//! The hash and the encoding are deterministic functions of their inputs, so
//! their results are named by uninterpreted spec functions; of the random
//! draws nothing is assumed but their length.

use rand::Rng;
use vstd::prelude::*;

verus! {

/// The encoded argon2 hash of a password under a salt, with the default
/// configuration: a pure function of the two.
pub uninterp spec fn argon2_hash(password: Seq<char>, salt: Seq<u8>) -> Seq<char>;

/// The outcome of verifying a password against an encoded hash: `None` when
/// the encoded text does not parse as a hash, otherwise `Some` of the
/// comparison's result. A pure function of the two texts.
pub uninterp spec fn argon2_verify(encoded: Seq<char>, password: Seq<char>) -> Option<bool>;

/// The padded URL-safe base64 text of a byte string: a pure function of the
/// bytes.
pub uninterp spec fn base64_url(bytes: Seq<u8>) -> Seq<char>;

/// Relies on rand::thread_rng and rand::Rng::fill: sixteen random bytes.
/// Nothing is promised of the values drawn.
#[verifier::external_body]
pub(crate) fn random_bytes() -> (r: Vec<u8>)
    ensures
        r@.len() == 16,
{
    let mut data = [0u8; 16];
    rand::thread_rng().fill(&mut data);
    data.to_vec()
}

/// Relies on argon2::hash_encoded (rust-argon2): the encoded hash is a
/// function of the password, the salt and the default configuration alone;
/// it is produced whenever the salt is sixteen bytes and the password is not
/// absurdly long (the crate only refuses salts under eight bytes and
/// passwords of 2^32 bytes or more); and argon2::verify_encoded accepts the
/// encoding it produced together with the password it was made from.
#[verifier::external_body]
pub(crate) fn hash_password(password: &str, salt: &Vec<u8>) -> (r: Option<String>)
    ensures
        (r matches Some(h) ==> h@ == argon2_hash(password@, salt@)),
        (r matches Some(h) ==> argon2_verify(h@, password@) == Some(true)),
        salt@.len() == 16 && password@.len() <= 0x3FFF_FFFF ==> r is Some,
{
    match argon2::hash_encoded(password.as_bytes(), salt.as_slice(), &argon2::Config::default()) {
        Ok(h) => Some(h),
        Err(_) => None,
    }
}

/// Relies on argon2::verify_encoded (rust-argon2): the outcome is a function
/// of the encoded hash and the password alone; an encoded text that does not
/// parse is reported as None.
#[verifier::external_body]
pub(crate) fn verify_password(encoded: &str, password: &str) -> (r: Option<bool>)
    ensures
        r == argon2_verify(encoded@, password@),
{
    match argon2::verify_encoded(encoded, password.as_bytes()) {
        Ok(b) => Some(b),
        Err(_) => None,
    }
}

/// Relies on base64::encode_config with base64::URL_SAFE: the text is a
/// function of the input bytes alone, four characters for every three bytes
/// begun (URL_SAFE pads).
#[verifier::external_body]
pub(crate) fn encode_token(bytes: &Vec<u8>) -> (r: String)
    ensures
        r@ == base64_url(bytes@),
        r@.len() == 4 * ((bytes@.len() + 2) / 3),
{
    base64::encode_config(bytes.as_slice(), base64::URL_SAFE)
}

} // verus!
