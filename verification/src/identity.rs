//! Fresh identifiers and passwords.

use vstd::prelude::*;

verus! {

/// Whether the character is a lower case hexadecimal digit.
pub open spec fn is_hex(c: char) -> bool {
    '0' <= c <= '9' || 'a' <= c <= 'f'
}

/// Whether the text is written as identifiers are: 32 hexadecimal digits in five
/// groups with hyphens between them.
pub open spec fn is_id(s: Seq<char>) -> bool {
    &&& s.len() == 36
    &&& forall|i: int|
        0 <= i < 36 ==> if i == 8 || i == 13 || i == 18 || i == 23 {
            #[trigger] s[i] == '-'
        } else {
            is_hex(s[i])
        }
}

/// `Uuid::new_v4` and its hyphenated text, in lower case.
#[verifier::external_body]
pub(crate) fn new_id() -> (r: String)
    ensures
        is_id(r@),
{
    uuid::Uuid::new_v4().to_string()
}

/// Whether a password and a hash belong together, or why that cannot be told.
pub type Verification = Result<bool, Seq<char>>;

/// What `bcrypt::verify` says of a password and a hash: whether they belong
/// together, or the text of its error.
pub uninterp spec fn bcrypt_verification(password: Seq<char>, hash: Seq<char>) -> Verification;

/// `bcrypt::hash` at the default cost. It salts the hash with random bytes, and fails
/// where the system has none. The password verifies against the hash.
#[verifier::external_body]
pub(crate) fn bcrypt_hash(password: &str) -> (r: Result<String, String>)
    ensures
        r matches Ok(hash) ==> bcrypt_verification(password@, hash@) == Verification::Ok(true),
{
    bcrypt::hash(password, bcrypt::DEFAULT_COST).map_err(|e| e.to_string())
}

/// `bcrypt::verify`, with the text of its error.
#[verifier::external_body]
pub(crate) fn bcrypt_verify(password: &str, hash: &str) -> (r: Result<bool, String>)
    ensures
        r matches Ok(b) ==> bcrypt_verification(password@, hash@) == Verification::Ok(b),
        r matches Err(e) ==> bcrypt_verification(password@, hash@) == Verification::Err(e@),
{
    bcrypt::verify(password, hash).map_err(|e| e.to_string())
}

} // verus!
