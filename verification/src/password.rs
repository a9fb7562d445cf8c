//! Passwords: hashing and checking those of users, and making those of
//! instances.

use vstd::prelude::*;
use crate::text::{chars_of, has_prefix, string_of};

verus! {

/// The error of the `bcrypt` crate.
#[verifier::external_type_specification]
#[verifier::external_body]
pub struct ExBcryptError(bcrypt::BcryptError);

/// Why a password could not be hashed or checked.
#[derive(Debug, Clone, Copy, PartialEq, Eq, Structural)]
pub enum PasswordError {
    /// The password could not be hashed.
    HashingFailed,
    /// The stored hash is no hash.
    MalformedHash,
}

/// Whether `bcrypt::verify` finds that a password fits a hash; none
/// where it fails, as it does on a malformed hash.
pub uninterp spec fn bcrypt_fits(password: Seq<char>, hash: Seq<char>) -> Option<bool>;

/// The form of a hash that is made at the default cost: `$2b$12$`, then
/// the salt in 22 characters and the digest in 31, which makes 60
/// characters in all.
pub open spec fn fresh_hash_form(hash: Seq<char>) -> bool {
    hash.len() == 60 && has_prefix(hash, "$2b$12$"@)
}

/// `bcrypt::hash` at the default cost: a hash of the password under a
/// salt that is drawn anew at each call, written in version `2b` with the
/// cost, the salt and the digest. Whatever salt was drawn, `bcrypt::verify`
/// finds that the password fits the hash: it reads the cost and the salt
/// back out of the hash, hashes the password again in the same way, and
/// compares the digests.
#[verifier::external_body]
fn bcrypt_hash(password: &str) -> (r: Result<String, bcrypt::BcryptError>)
    ensures
        r matches Ok(hash) ==> fresh_hash_form(hash@) && bcrypt_fits(password@, hash@) == Some(
            true,
        ),
{
    bcrypt::hash(password, bcrypt::DEFAULT_COST)
}

/// `bcrypt::verify` hashes the password under the salt and cost that the
/// hash names and compares; it fails where the hash is malformed. The same
/// password and hash always give the same result.
#[verifier::external_body]
fn bcrypt_verify(password: &str, hash: &str) -> (r: Result<bool, bcrypt::BcryptError>)
    ensures
        (match r {
            Ok(fits) => Some(fits),
            Err(_) => None,
        }) == bcrypt_fits(password@, hash@),
{
    bcrypt::verify(password, hash)
}

/// What a check of a password gives, for what `bcrypt` found.
pub open spec fn checked(found: Option<bool>) -> Result<bool, PasswordError> {
    match found {
        Some(fits) => Ok(fits),
        None => Err(PasswordError::MalformedHash),
    }
}

/// Hashes a password at the default cost, under a salt that is drawn anew
/// at each call. The hash has the form of a fresh hash, and the password
/// checks against it.
pub fn hash_password(password: &str) -> (r: Result<String, PasswordError>)
    ensures
        match r {
            Ok(hash) => fresh_hash_form(hash@) && bcrypt_fits(password@, hash@) == Some(true)
                && checked(bcrypt_fits(password@, hash@)) == Ok::<bool, PasswordError>(true),
            Err(e) => e == PasswordError::HashingFailed,
        },
{
    match bcrypt_hash(password) {
        Ok(hash) => Ok(hash),
        Err(_) => Err(PasswordError::HashingFailed),
    }
}

/// Checks a password against a hash.
pub fn verify_password(password: &str, hash: &str) -> (r: Result<bool, PasswordError>)
    ensures
        r == checked(bcrypt_fits(password@, hash@)),
{
    match bcrypt_verify(password, hash) {
        Ok(fits) => Ok(fits),
        Err(_) => Err(PasswordError::MalformedHash),
    }
}

/// How many characters the password of an instance has.
pub const INSTANCE_PASSWORD_LENGTH: usize = 24;

/// The characters that the password of an instance is made of: the
/// lower-case letters, the upper-case letters, the digits, and
/// `!@#$%^&*`.
pub open spec fn password_alphabet() -> Seq<char> {
    "abcdefghijklmnopqrstuvwxyzABCDEFGHIJKLMNOPQRSTUVWXYZ0123456789!@#$%^&*"@
}

/// The password that a sequence of draws from the alphabet spells.
pub open spec fn spelled(alphabet: Seq<char>, draws: Seq<usize>) -> Seq<char> {
    Seq::new(draws.len(), |i: int| alphabet[draws[i] as int])
}

/// `rand::Rng::gen_range` on `0..bound` with the generator of the
/// thread: a number below the bound.
#[verifier::external_body]
fn random_below(bound: usize) -> (r: usize)
    requires
        bound > 0,
    ensures
        r < bound,
{
    rand::Rng::gen_range(&mut rand::thread_rng(), 0..bound)
}

/// The password that a sequence of draws spells.
pub fn spell_password(alphabet: &Vec<char>, draws: &Vec<usize>) -> (r: String)
    requires
        forall|i: int| 0 <= i < draws@.len() ==> (#[trigger] draws@[i]) < alphabet@.len(),
    ensures
        r@ == spelled(alphabet@, draws@),
{
    let mut out: Vec<char> = Vec::new();
    let mut i: usize = 0;
    while i < draws.len()
        invariant
            i <= draws.len(),
            out.len() == i,
            forall|j: int| 0 <= j < draws@.len() ==> (#[trigger] draws@[j]) < alphabet@.len(),
            forall|j: int| 0 <= j < i ==> out@[j] == alphabet@[draws@[j] as int],
        decreases draws.len() - i,
    {
        out.push(alphabet[draws[i]]);
        i += 1;
    }
    assert(out@ =~= spelled(alphabet@, draws@));
    string_of(&out)
}

/// Makes the password of an instance: 24 characters, each drawn from the
/// alphabet.
pub fn generate_redis_password() -> (r: String)
    ensures
        r@.len() == INSTANCE_PASSWORD_LENGTH,
        forall|i: int| 0 <= i < r@.len() ==> password_alphabet().contains(#[trigger] r@[i]),
{
    let alphabet = chars_of(
        "abcdefghijklmnopqrstuvwxyzABCDEFGHIJKLMNOPQRSTUVWXYZ0123456789!@#$%^&*",
    );
    proof {
        reveal_strlit("abcdefghijklmnopqrstuvwxyzABCDEFGHIJKLMNOPQRSTUVWXYZ0123456789!@#$%^&*");
    }
    assert(alphabet@.len() == 70);
    let mut draws: Vec<usize> = Vec::new();
    while draws.len() < INSTANCE_PASSWORD_LENGTH
        invariant
            draws.len() <= INSTANCE_PASSWORD_LENGTH,
            alphabet@.len() == 70,
            forall|j: int| 0 <= j < draws@.len() ==> (#[trigger] draws@[j]) < alphabet@.len(),
        decreases INSTANCE_PASSWORD_LENGTH - draws.len(),
    {
        draws.push(random_below(alphabet.len()));
    }
    let r = spell_password(&alphabet, &draws);
    assert forall|i: int| 0 <= i < r@.len() implies password_alphabet().contains(
        #[trigger] r@[i],
    ) by {
        assert(r@[i] == alphabet@[draws@[i] as int]);
    }
    r
}

} // verus!
