//! Accounts: email normalisation, registration rules, password hashing and
//! the login decision.
use vstd::prelude::*;
use crate::access::AuthUser;
use crate::error::{bad_request, is_bad_request, AppError, AppResult};
use crate::models::User;
use crate::repo::NewUser;
use crate::text::{lowercase, lowercased, trim, trimmed};

verus! {

/// What a bearer token carries: the user's identity in text form, the
/// expiry as seconds since the Unix epoch, and the privilege flag.
#[derive(Clone, Debug)]
pub struct Claims {
    pub sub: String,
    pub exp: usize,
    pub is_superadmin: bool,
}

/// The form under which an email is stored and looked up.
pub open spec fn normalized_email(raw: Seq<char>) -> Seq<char> {
    lowercased(trimmed(raw))
}

/// What argon2 answers when `password` is checked against the PHC string
/// `phc`: `None` when `phc` does not parse.
pub uninterp spec fn password_check(password: Seq<char>, phc: Seq<char>) -> Option<bool>;

/// Trimmed, then lowercased.
pub fn normalize_email(raw: &str) -> (r: String)
    ensures
        r@ == normalized_email(raw@),
{
    lowercase(trim(raw))
}

/// The shortest password accepted, in characters.
pub const MIN_PASSWORD_CHARS: usize = 8;

/// The normalised email of a registration, or BadRequest when the trimmed
/// email is empty or the password has fewer than eight characters.
pub fn validate_registration(email: &str, password: &str) -> (r: AppResult<String>)
    ensures
        trimmed(email@).len() == 0 || password@.len() < MIN_PASSWORD_CHARS ==> is_bad_request(r),
        !(trimmed(email@).len() == 0 || password@.len() < MIN_PASSWORD_CHARS) ==> (r matches Ok(e)
            && e@ == normalized_email(email@) && e@.len() != 0),
{
    let t = trim(email);
    let e = lowercase(t);
    if e.as_str().is_empty() || password.unicode_len() < MIN_PASSWORD_CHARS {
        return Err(bad_request("email must be set and password must be >= 8 chars"));
    }
    Ok(e)
}

/// The record of a new account: the first one ever is the superadmin.
pub fn new_account(email: String, password_hash: String, existing_users: usize) -> (r: NewUser)
    ensures
        r.email == email,
        r.password_hash == password_hash,
        r.is_superadmin == (existing_users == 0),
{
    NewUser { email, password_hash, is_superadmin: existing_users == 0 }
}

/// Relies on argon2's `PasswordHasher::hash_password` with default parameters
/// and a salt from `OsRng`, written as a PHC string: argon2's verifier, which
/// recomputes the hash with the salt and parameters the string holds, accepts
/// the same password against it.
#[verifier::external_body]
fn argon2_hash(password: &str) -> (r: Option<String>)
    ensures
        r matches Some(h) ==> password_check(password@, h@) == Some(true),
{
    let salt = argon2::password_hash::SaltString::generate(&mut rand::rngs::OsRng);
    match argon2::PasswordHasher::hash_password(&argon2::Argon2::default(), password.as_bytes(), &salt) {
        Ok(h) => Some(h.to_string()),
        Err(_) => None,
    }
}

/// Relies on password-hash's `PasswordHash::new` and argon2's
/// `PasswordVerifier::verify_password` with default settings.
#[verifier::external_body]
fn argon2_verify(password: &str, phc: &str) -> (r: Option<bool>)
    ensures
        r == password_check(password@, phc@),
{
    match argon2::password_hash::PasswordHash::new(phc) {
        Ok(parsed) => Some(
            argon2::PasswordVerifier::verify_password(
                &argon2::Argon2::default(),
                password.as_bytes(),
                &parsed,
            ).is_ok(),
        ),
        Err(_) => None,
    }
}

/// A salted argon2 hash of `password`, or Internal when hashing fails.
pub fn hash_password(password: &str) -> (r: AppResult<String>)
    ensures
        r matches Ok(h) ==> password_check(password@, h@) == Some(true),
        r is Err ==> (r matches Err(AppError::Internal)),
{
    match argon2_hash(password) {
        Some(h) => Ok(h),
        None => Err(AppError::Internal),
    }
}

/// Whether `password` matches the stored hash; Internal when the hash does
/// not parse.
pub fn verify_password(password: &str, password_hash: &str) -> (r: AppResult<bool>)
    ensures
        match password_check(password@, password_hash@) {
            Some(b) => r == Ok::<bool, AppError>(b),
            None => r matches Err(AppError::Internal),
        },
{
    match argon2_verify(password, password_hash) {
        Some(b) => Ok(b),
        None => Err(AppError::Internal),
    }
}

/// The outcome of a login, given what the store found under the email and
/// what the password check answered.
pub open spec fn login_decision(found: Option<(User, String)>, password: Seq<char>) -> AppResult<
    AuthUser,
> {
    match found {
        None => Err(AppError::Unauthorized),
        Some((u, h)) => match password_check(password, h@) {
            None => Err(AppError::Internal),
            Some(false) => Err(AppError::Unauthorized),
            Some(true) => Ok(AuthUser { id: u.id, is_superadmin: u.is_superadmin }),
        },
    }
}

/// The identity a login grants: the found user, when the password matches
/// its hash; Unauthorized otherwise.
pub fn login_identity(found: Option<(User, String)>, password: &str) -> (r: AppResult<AuthUser>)
    ensures
        r == login_decision(found, password@),
{
    match found {
        None => Err(AppError::Unauthorized),
        Some((u, h)) => {
            let ok = verify_password(password, h.as_str())?;
            if !ok {
                return Err(AppError::Unauthorized);
            }
            Ok(AuthUser { id: u.id, is_superadmin: u.is_superadmin })
        },
    }
}

} // verus!
