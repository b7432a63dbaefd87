//! Password hashing and verification, delegated to argon2. Whether a
//! password matches a stored PHC hash, and whether a stored hash is usable
//! at all, are pure functions of the texts involved; their values are
//! named, never spelled out, and only argon2 computes them.
use crate::response::AppError;
use vstd::prelude::*;

verus! {

/// Any text of at most this many characters is at most 0xFFFFFFFF bytes of
/// UTF-8, the longest password argon2 accepts.
pub const MAX_PASSWORD_CHARS: usize = 0x3FFFFFFF;

/// Whether a password matches a stored PHC hash string, as argon2 decides
/// it: a pure function of the two texts.
pub uninterp spec fn password_matches(password: Seq<char>, phc: Seq<char>) -> bool;

/// Whether a stored PHC hash string is usable for verification at all: it
/// parses, and argon2 accepts its algorithm, version, parameters and salt.
/// A pure function of the text.
pub uninterp spec fn phc_usable(phc: Seq<char>) -> bool;

/// Relies on argon2's `hash_password` (PHC string output, random salt): any
/// hash it returns for a password verifies against that same password, and
/// argon2's own verifier accepts it; the call fails only when salt
/// generation does.
#[verifier::external_body]
fn argon2_hash(password: &str) -> (r: Option<String>)
    ensures
        r matches Some(h) ==> password_matches(password@, h@) && phc_usable(h@),
{
    match argon2::password_hash::PasswordHasher::hash_password(
        &argon2::Argon2::default(),
        password.as_bytes(),
    ) {
        Ok(h) => Some(h.to_string()),
        Err(_) => None,
    }
}

/// Relies on argon2's `verify_password` against a parsed PHC hash: it
/// decides exactly whether the password matches; it answers for every
/// usable hash as long as the password fits argon2's length cap, and never
/// answers for an unusable one (malformed text, or an unsupported scheme).
#[verifier::external_body]
fn argon2_verify(password: &str, phc: &str) -> (r: Option<bool>)
    ensures
        r matches Some(b) ==> b == password_matches(password@, phc@),
        phc_usable(phc@) && password@.len() <= MAX_PASSWORD_CHARS ==> r is Some,
        r is Some ==> phc_usable(phc@),
{
    match argon2::password_hash::phc::PasswordHash::new(phc) {
        Err(_) => None,
        Ok(parsed) => match argon2::password_hash::PasswordVerifier::verify_password(
            &argon2::Argon2::default(),
            password.as_bytes(),
            &parsed,
        ) {
            Ok(()) => Some(true),
            Err(argon2::password_hash::Error::PasswordInvalid) => Some(false),
            Err(_) => None,
        },
    }
}

/// Hashes a password into a PHC string that verifies against it; an
/// infrastructure error when hashing itself fails.
pub fn hash_password(password: &str) -> (r: Result<String, AppError>)
    ensures
        r matches Ok(h) ==> password_matches(password@, h@) && phc_usable(h@),
        r matches Err(e) ==> e.status == 500,
{
    match argon2_hash(password) {
        Some(h) => Ok(h),
        None => Err(AppError::internal("Failed to hash password".to_owned())),
    }
}

/// Whether `password` matches the stored hash. It answers for every usable
/// hash and reasonably sized password, and fails — as an infrastructure
/// error — exactly when the stored hash cannot be used at all.
pub fn check_password(password: &str, password_hash: &str) -> (r: Result<bool, AppError>)
    ensures
        r matches Ok(b) ==> b == password_matches(password@, password_hash@),
        r matches Err(e) ==> e.status == 500,
        phc_usable(password_hash@) && password@.len() <= MAX_PASSWORD_CHARS ==> r is Ok,
        r is Ok ==> phc_usable(password_hash@),
{
    match argon2_verify(password, password_hash) {
        Some(b) => Ok(b),
        None => Err(AppError::internal("Failed to parse password hash".to_owned())),
    }
}

/// Whether `password` matches the stored hash; alias kept for callers that
/// phrase verification as a yes-or-no question.
pub fn verify_password(password: &str, password_hash: &str) -> (r: Result<bool, AppError>)
    ensures
        r matches Ok(b) ==> b == password_matches(password@, password_hash@),
        r matches Err(e) ==> e.status == 500,
        phc_usable(password_hash@) && password@.len() <= MAX_PASSWORD_CHARS ==> r is Ok,
        r is Ok ==> phc_usable(password_hash@),
{
    check_password(password, password_hash)
}

} // verus!
