//! Server-side credentials: bcrypt password hashes and session tokens.
use vstd::prelude::*;
use crate::server::Status;
use crate::text::{has_prefix, two_digits};

verus! {

/// The work factor passwords are hashed with (bcrypt's default).
pub const BCRYPT_COST: u32 = 12;

/// What `bcrypt::verify` gives for `password` and the stored `hash`: whether
/// they match, or failure when the hash is malformed.
pub uninterp spec fn bcrypt_check(password: Seq<char>, hash: Seq<char>) -> Option<bool>;

/// Hashes `password` with `bcrypt::hash` at the given cost and a salt drawn
/// from the operating system.  The result differs from call to call; what is
/// claimed is that a hash it returns verifies against the same password and
/// begins with `$2b$`, the cost in two digits and `$`.
#[verifier::external_body]
fn bcrypt_hash(password: &str, cost: u32) -> (r: Option<String>)
    requires
        4 <= cost <= 31,
    ensures
        match r {
            Some(h) => bcrypt_check(password@, h@) == Some(true) && has_prefix(h@, bcrypt_prefix(cost as nat)),
            None => true,
        },
{
    match bcrypt::hash(password, cost) {
        Ok(h) => Some(h),
        Err(_) => None,
    }
}

/// Checks `password` against `hash` with `bcrypt::verify`.  Only the naming
/// of the result is claimed.
#[verifier::external_body]
fn bcrypt_verify(password: &str, hash: &str) -> (r: Option<bool>)
    ensures
        r == bcrypt_check(password@, hash@),
{
    match bcrypt::verify(password, hash) {
        Ok(b) => Some(b),
        Err(_) => None,
    }
}

/// The start of a bcrypt hash of version `2b` made at `cost`:
/// `$2b$<cost in two digits>$`.
pub open spec fn bcrypt_prefix(cost: nat) -> Seq<char> {
    "$2b$"@ + two_digits(cost) + "$"@
}

/// Hashes a password for storage at cost [`BCRYPT_COST`].  A hash it
/// returns always verifies against the same password; a failure is an
/// internal server error.
pub fn hash_password(password: &str) -> (r: Result<String, Status>)
    ensures
        match r {
            Ok(h) => bcrypt_check(password@, h@) == Some(true) && has_prefix(h@, bcrypt_prefix(BCRYPT_COST as nat)),
            Err(s) => s == Status::InternalServerError,
        },
{
    match bcrypt_hash(password, BCRYPT_COST) {
        Some(h) => Ok(h),
        None => Err(Status::InternalServerError),
    }
}

/// What checking a password against a stored hash answers: whether they
/// match, or unauthorized for a malformed hash.
pub open spec fn check_outcome(password: Seq<char>, hashed_password: Seq<char>) -> Result<bool, Status> {
    match bcrypt_check(password, hashed_password) {
        Some(b) => Ok(b),
        None => Err(Status::Unauthorized),
    }
}

/// Checks a password against its stored hash; a malformed hash is
/// unauthorized.
pub fn verify_password(password: &str, hashed_password: &str) -> (r: Result<bool, Status>)
    ensures
        r == check_outcome(password@, hashed_password@),
{
    match bcrypt_verify(password, hashed_password) {
        Some(b) => Ok(b),
        None => Err(Status::Unauthorized),
    }
}

/// A password checks out against any hash that [`hash_password`] made of
/// it.
pub proof fn stored_hash_verifies(password: Seq<char>, hashed_password: Seq<char>)
    requires
        bcrypt_check(password, hashed_password) == Some(true),
    ensures
        check_outcome(password, hashed_password) == Ok::<bool, Status>(true),
{
}

/// A lowercase hexadecimal digit.
pub open spec fn is_lower_hex(c: char) -> bool {
    ('0' <= c <= '9') || ('a' <= c <= 'f')
}

/// The text of a UUID in its hyphenated form: 36 characters, with `-` at
/// positions 8, 13, 18 and 23 and lowercase hexadecimal digits elsewhere.
pub open spec fn is_hyphenated_uuid(s: Seq<char>) -> bool {
    &&& s.len() == 36
    &&& forall|i: int|
        0 <= i < 36 ==> if i == 8 || i == 13 || i == 18 || i == 23 {
            s[i] == '-'
        } else {
            is_lower_hex(#[trigger] s[i])
        }
}

/// A fresh random version-4 UUID (`Uuid::new_v4`) in its hyphenated text
/// form.  Its value is random; its shape is what `Uuid`'s `Display` writes.
#[verifier::external_body]
fn random_uuid_text() -> (r: String)
    ensures
        is_hyphenated_uuid(r@),
{
    uuid::Uuid::new_v4().to_string()
}

/// A new session token: a random UUID in hyphenated form.
pub fn new_token() -> (r: String)
    ensures
        is_hyphenated_uuid(r@),
{
    random_uuid_text()
}

} // verus!
