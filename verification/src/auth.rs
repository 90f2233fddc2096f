//! Credentials: password hashes, the claims of a session token, and the
//! check of a presented token.
use vstd::prelude::*;
use crate::error::ApiError;

verus! {

/// The claims that a session token carries: the user's id and the moment
/// (seconds since the Unix epoch) at which the token expires.
#[derive(Debug)]
pub struct Claims {
    pub sub: String,
    pub exp: usize,
}

impl Clone for Claims {
    fn clone(&self) -> (r: Self)
        ensures
            r == *self,
    {
        Claims { sub: self.sub.clone(), exp: self.exp }
    }
}

/// The body of a login request.
#[derive(Debug)]
pub struct LoginRequest {
    pub email: String,
    pub password: String,
}

/// How long a session token stays valid, in seconds.
pub const SESSION_SECONDS: u64 = 86400;

/// What `bcrypt::verify` answers for a password and a stored hash:
/// `Some(matches)`, or `None` where the hash is not a bcrypt hash.
pub uninterp spec fn bcrypt_verify_result(password: Seq<char>, hash: Seq<char>) -> Option<bool>;

/// `bcrypt::verify(password, hash)`, with its error turned into `None`.
/// The answer is `bcrypt_verify_result` of the password and the hash, and a
/// hash of any length other than 60 characters is refused as malformed.
#[verifier::external_body]
fn bcrypt_verify(password: &String, hash: &String) -> (r: Option<bool>)
    ensures
        r == bcrypt_verify_result(password@, hash@),
        hash@.len() != 60 ==> r is None,
{
    bcrypt::verify(password, hash).ok()
}

/// `bcrypt::hash(password, bcrypt::DEFAULT_COST)`, with its error turned
/// into `None` (the salt is random, so which hash comes back is left open).
/// A hash it hands out has 60 characters, begins with `$2b$12$` (version
/// 2b, cost 12), and is one that `bcrypt::verify` accepts for the password.
#[verifier::external_body]
fn bcrypt_hash(password: &String) -> (r: Option<String>)
    ensures
        r matches Some(h) ==> h@.len() == 60 && h@.subrange(0, 7) == bcrypt_prefix()
            && bcrypt_verify_result(password@, h@) == Some(true),
{
    bcrypt::hash(password, bcrypt::DEFAULT_COST).ok()
}

/// The start of every hash that the service makes: bcrypt version 2b at
/// cost 12.
pub open spec fn bcrypt_prefix() -> Seq<char> {
    seq!['$', '2', 'b', '$', '1', '2', '$']
}

/// The stored hash of an account: the empty text where none is stored.
pub open spec fn stored_hash(password: Option<String>) -> Seq<char> {
    match password {
        Some(h) => h@,
        None => Seq::empty(),
    }
}

/// bcrypt accepts `password` for the stored `hash`.
pub open spec fn password_accepted(password: Seq<char>, hash: Seq<char>) -> bool {
    bcrypt_verify_result(password, hash) == Some(true)
}

/// A password check passes only where bcrypt answered that the password
/// matches; a malformed hash counts as a mismatch.
pub fn check_passes(outcome: Option<bool>) -> (r: bool)
    ensures
        r == (outcome == Some(true)),
{
    match outcome {
        Some(b) => b,
        None => false,
    }
}

/// Whether `password` matches the stored password hash of an account.
pub fn password_matches(password: &String, stored: &Option<String>) -> (r: bool)
    ensures
        r == password_accepted(password@, stored_hash(*stored)),
        stored_hash(*stored).len() != 60 ==> !r,
{
    let hash = match stored {
        Some(h) => h.clone(),
        None => String::new(),
    };
    check_passes(bcrypt_verify(password, &hash))
}

/// The hash to store: the one bcrypt made, or the empty text where hashing
/// failed.
pub fn hash_or_empty(outcome: Option<String>) -> (r: String)
    ensures
        r@ == stored_hash(outcome),
{
    match outcome {
        Some(h) => h,
        None => String::new(),
    }
}

/// A stored hash is either empty (hashing failed) or a 60-character bcrypt
/// hash of version 2b and cost 12 that accepts the password.
pub open spec fn hash_of(password: Seq<char>, hash: Seq<char>) -> bool {
    hash.len() == 0 || (hash.len() == 60 && hash.subrange(0, 7) == bcrypt_prefix()
        && password_accepted(password, hash))
}

/// Hashes a new password with bcrypt at its default cost.
pub fn hash_password(password: &String) -> (r: String)
    ensures
        hash_of(password@, r@),
{
    hash_or_empty(bcrypt_hash(password))
}

/// The key that signs and checks session tokens: the configured one, or
/// `default_secret` where none is configured.
pub fn secret_key(configured: Option<String>) -> (r: String)
    ensures
        configured matches Some(k) ==> r == k,
        configured is None ==> r@ == "default_secret"@,
{
    match configured {
        Some(k) => k,
        None => String::from_str("default_secret"),
    }
}

/// The claims of a new session of user `user_id` that starts at `now_secs`
/// (seconds since the Unix epoch): valid for one day.
pub fn issue_claims(user_id: &String, now_secs: u64) -> (r: Claims)
    requires
        now_secs <= u64::MAX - SESSION_SECONDS,
    ensures
        r == (Claims { sub: *user_id, exp: (now_secs + SESSION_SECONDS) as usize }),
{
    let expiration: u64 = now_secs + SESSION_SECONDS;
    Claims { sub: user_id.clone(), exp: expiration as usize }
}

/// The answer to a presented bearer token, given what checking its signature
/// and expiry gave: the claims go on with the request, and a token that did
/// not check out is refused.
pub fn validate_user_credentials(decoded: Option<Claims>) -> (r: Result<Claims, ApiError>)
    ensures
        decoded matches Some(c) ==> r == Ok::<Claims, ApiError>(c),
        decoded is None ==> r == Err::<Claims, ApiError>(ApiError::InvalidToken),
{
    match decoded {
        Some(c) => Ok(c),
        None => Err(ApiError::InvalidToken),
    }
}

} // verus!
