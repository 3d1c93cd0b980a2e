use vstd::prelude::*;

verus! {

use vstd::string::StrSliceExecFns;
use crate::sanitize::push_char;

/// The alphabet session tokens are drawn from: letters and digits.
pub open spec fn spec_token_charset() -> Seq<char> {
    "abcdefghijklmnopqrstuvwxyzABCDEFGHIJKLMNOPQRSTUVWXYZ0123456789"@
}

/// Relies on rand: `rand::rng` hands out the thread-local generator and
/// `Rng::random_range` returns a value drawn from the given range, which
/// must not be empty.
#[verifier::external_body]
fn random_index(bound: usize) -> (r: usize)
    requires
        bound > 0,
    ensures
        r < bound,
{
    rand::Rng::random_range(&mut rand::rng(), 0..bound)
}

/// A fresh random string of the given length over letters and digits; used
/// as a session token.
pub fn generate_random_string(len: usize) -> (r: String)
    ensures
        r@.len() == len,
        forall|i: int| 0 <= i < r@.len() ==> spec_token_charset().contains(#[trigger] r@[i]),
{
    let charset = "abcdefghijklmnopqrstuvwxyzABCDEFGHIJKLMNOPQRSTUVWXYZ0123456789";
    proof {
        reveal_strlit("abcdefghijklmnopqrstuvwxyzABCDEFGHIJKLMNOPQRSTUVWXYZ0123456789");
    }
    let n = charset.unicode_len();
    let mut out = String::new();
    let mut i: usize = 0;
    while i < len
        invariant
            i <= len,
            n == spec_token_charset().len(),
            n > 0,
            charset@ == spec_token_charset(),
            out@.len() == i,
            forall|k: int| 0 <= k < out@.len() ==> spec_token_charset().contains(
                #[trigger] out@[k],
            ),
        decreases len - i,
    {
        let idx = random_index(n);
        let c = charset.get_char(idx);
        push_char(&mut out, c);
        proof {
            assert(spec_token_charset()[idx as int] == c);
        }
        i += 1;
    }
    out
}

/// The parse outcome of a stored password-hash record: a fixed property of
/// the string alone.
pub uninterp spec fn phc_parses(hash: Seq<char>) -> bool;

/// Whether a password agrees with a stored record: argon2 verification is
/// deterministic in the record and the password, the salt being part of
/// the record.
pub uninterp spec fn password_matches(hash: Seq<char>, password: Seq<char>) -> bool;

#[verifier::external_type_specification]
#[verifier::external_body]
pub struct ExPasswordHashError(argon2::password_hash::Error);

/// The library's own error for failed password hashing.
#[derive(Clone, Copy, PartialEq, Eq, Structural, Debug)]
pub enum CryptoError {
    HashingFailed,
}

/// Relies on argon2's PasswordHasher::hash_password with the default
/// parameters and a fresh random salt from the operating system. A produced
/// record is the PHC string of the hash, never empty; it parses back with
/// PasswordHash::new, which accepts what the same types serialized; and the
/// blanket PasswordVerifier recomputes the hash from the record's own
/// algorithm, version, params and salt, so the record matches the password
/// it was made from. The salt is random, so the record's value itself is
/// not promised.
#[verifier::external_body]
fn argon2_hash(password: &str) -> (r: Result<String, argon2::password_hash::Error>)
    ensures
        r matches Ok(h) ==> h@.len() > 0 && phc_parses(h@) && password_matches(h@, password@),
{
    let salt = argon2::password_hash::SaltString::generate(
        &mut argon2::password_hash::rand_core::OsRng,
    );
    argon2::PasswordHasher::hash_password(&argon2::Argon2::default(), password.as_bytes(), &salt)
        .map(|h| h.to_string())
}

/// Hashes a password for storage, with a fresh random salt; the stored
/// record is a non-empty PHC string that `verify_password` later accepts
/// the password against: the round trip holds by these contracts.
pub fn hash_password(password: &str) -> (r: Result<String, CryptoError>)
    ensures
        r matches Ok(h) ==> h@.len() > 0 && phc_parses(h@) && password_matches(h@, password@),
{
    match argon2_hash(password) {
        Result::Ok(h) => Result::Ok(h),
        Result::Err(_) => Result::Err(CryptoError::HashingFailed),
    }
}

/// Checks a password against a stored record. A record that does not parse
/// fails the check rather than erroring. Relies on argon2's
/// PasswordHash::new, which accepts exactly the well-formed PHC strings,
/// and Argon2::verify_password with the default parameters, which is
/// deterministic in the parsed record and the password.
#[verifier::external_body]
pub fn verify_password(hash: &str, password: &str) -> (r: bool)
    ensures
        r == (phc_parses(hash@) && password_matches(hash@, password@)),
{
    match argon2::password_hash::PasswordHash::new(hash) {
        Ok(parsed) => argon2::PasswordVerifier::verify_password(
            &argon2::Argon2::default(),
            password.as_bytes(),
            &parsed,
        ).is_ok(),
        Err(_) => false,
    }
}

} // verus!
