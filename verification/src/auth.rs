//! Login: who a pair of user name and password is.
//!
//! Passwords are stored as bcrypt hashes. The hashing itself is the work of
//! the `bcrypt` crate; what is decided here is what a lookup and a
//! verification amount to.

use vstd::prelude::*;
use crate::movement::text_view;

verus! {

/// A user as stored, or as handed to the caller.
#[derive(Clone, Debug, PartialEq, Eq)]
pub struct User {
    pub id: Option<i32>,
    pub username: String,
    /// The bcrypt hash of the password; empty in what is handed to callers.
    pub password_hash: String,
    pub role: String,
    pub fullname: Option<String>,
}

/// Mathematical form of a [`User`].
pub struct UserView {
    pub id: Option<i32>,
    pub username: Seq<char>,
    pub password_hash: Seq<char>,
    pub role: Seq<char>,
    pub fullname: Option<Seq<char>>,
}

impl UserView {
    /// The same user without the password hash.
    pub open spec fn disclosed(self) -> UserView {
        UserView {
            id: self.id,
            username: self.username,
            password_hash: Seq::empty(),
            role: self.role,
            fullname: self.fullname,
        }
    }
}

impl View for User {
    type V = UserView;

    open spec fn view(&self) -> UserView {
        UserView {
            id: self.id,
            username: self.username@,
            password_hash: self.password_hash@,
            role: self.role@,
            fullname: text_view(self.fullname),
        }
    }
}

/// Why a login was refused.
#[derive(Clone, Debug, PartialEq, Eq)]
pub enum LoginError {
    /// No user of that name is stored.
    UserNotFound,
    /// The password does not belong to the stored hash.
    WrongPassword,
    /// The stored hash could not be verified against; the message says why.
    Unverifiable { message: String },
}

/// What `bcrypt::verify` makes of a password and a hash: `Some(true)`
/// where it finds that the password belongs to the hash, `Some(false)` where
/// it finds that it does not, `None` where it reports an error.
pub uninterp spec fn bcrypt_verdict(password: Seq<char>, hash: Seq<char>) -> Option<bool>;

/// The error type of the `bcrypt` crate. Nothing of its contents is used.
#[verifier::external_type_specification]
#[verifier::external_body]
pub struct ExBcryptError(bcrypt::BcryptError);

/// The verdict that a result of `bcrypt::verify` stands for.
pub open spec fn verdict_of(checked: Result<bool, bcrypt::BcryptError>) -> Option<bool> {
    match checked {
        Ok(genuine) => Some(genuine),
        Err(_) => None,
    }
}

/// Calls `bcrypt::verify`, which recomputes the hash of the password with
/// the cost and salt found in `hash` and compares. Its result depends on
/// the two texts alone; the contract gives that result its name.
#[verifier::external_body]
fn bcrypt_verify(password: &str, hash: &str) -> (checked: Result<bool, bcrypt::BcryptError>)
    ensures
        verdict_of(checked) == bcrypt_verdict(password@, hash@),
{
    bcrypt::verify(password, hash)
}

/// Calls `bcrypt::hash` with the crate's default cost. The salt is drawn at
/// random, so two calls differ; the hash may also fail, when no randomness
/// is to be had. What holds of every hash that is returned: it carries the
/// cost and the salt it was made with, so that `bcrypt::verify` recomputes
/// it from the same password and finds it genuine. The crate's own tests
/// hold it to that.
#[verifier::external_body]
fn bcrypt_hash(password: &str) -> (hashed: Result<String, bcrypt::BcryptError>)
    ensures
        hashed matches Ok(hash) ==> bcrypt_verdict(password@, hash@) == Some(true),
{
    bcrypt::hash(password, bcrypt::DEFAULT_COST)
}

/// The text of a `bcrypt::BcryptError`, as its `Display` gives it. Nothing
/// is claimed of it.
#[verifier::external_body]
fn bcrypt_error_text(error: &bcrypt::BcryptError) -> String {
    error.to_string()
}

/// Decides a login from the verification's result: with a genuine password
/// the user is let in, and handed out without the password hash; a mismatch
/// and a failed verification refuse, each with its own error.
pub fn conclude(user: User, checked: Result<bool, LoginError>) -> (granted: Result<User, LoginError>)
    ensures
        match checked {
            Ok(true) => granted is Ok && granted->Ok_0@ == user@.disclosed(),
            Ok(false) => granted == Err::<User, LoginError>(LoginError::WrongPassword),
            Err(e) => granted == Err::<User, LoginError>(e),
        },
{
    match checked {
        Ok(true) => Ok(
            User {
                id: user.id,
                username: user.username,
                password_hash: String::new(),
                role: user.role,
                fullname: user.fullname,
            },
        ),
        Ok(false) => Err(LoginError::WrongPassword),
        Err(e) => Err(e),
    }
}

/// A password could not be hashed; the message says why.
#[derive(Clone, Debug, PartialEq, Eq)]
pub struct HashingFailed {
    pub message: String,
}

/// Hashes a password for storing. Every hash that is returned verifies as
/// genuine against the password it was made from.
pub fn hash_password(password: &str) -> (hashed: Result<String, HashingFailed>)
    ensures
        hashed matches Ok(hash) ==> bcrypt_verdict(password@, hash@) == Some(true),
{
    let made = bcrypt_hash(password);
    hashing_outcome(made)
}

/// What a finished hashing comes to: the hash as it was made, or the
/// failure with the text of the error that stood in its way. Whether
/// [`hash_password`] gets a hash rests with `bcrypt::hash`, which needs
/// randomness for the salt; what becomes of each of its results is said
/// here.
pub fn hashing_outcome(made: Result<String, bcrypt::BcryptError>) -> (hashed: Result<
    String,
    HashingFailed,
>)
    ensures
        match made {
            Ok(hash) => hashed == Ok::<String, HashingFailed>(hash),
            Err(_) => hashed is Err,
        },
{
    match made {
        Ok(hash) => Ok(hash),
        Err(error) => Err(HashingFailed { message: bcrypt_error_text(&error) }),
    }
}

/// Verifies a password against a stored hash.
pub fn check_password(password: &str, hash: &str) -> (checked: Result<bool, LoginError>)
    ensures
        match bcrypt_verdict(password@, hash@) {
            Some(genuine) => checked == Ok::<bool, LoginError>(genuine),
            None => checked matches Err(LoginError::Unverifiable { .. }),
        },
{
    match bcrypt_verify(password, hash) {
        Ok(genuine) => Ok(genuine),
        Err(error) => Err(LoginError::Unverifiable { message: bcrypt_error_text(&error) }),
    }
}

/// Decides a login: `found` is the stored user of the given name, if there
/// is one, and `password` what was typed.
///
/// No stored user refuses with [`LoginError::UserNotFound`]. Otherwise the
/// password is verified against the stored hash, and [`conclude`] decides.
pub fn verify_login(found: Option<User>, password: &str) -> (granted: Result<User, LoginError>)
    ensures
        match found {
            None => granted == Err::<User, LoginError>(LoginError::UserNotFound),
            Some(user) => match bcrypt_verdict(password@, user.password_hash@) {
                Some(true) => granted is Ok && granted->Ok_0@ == user@.disclosed(),
                Some(false) => granted == Err::<User, LoginError>(LoginError::WrongPassword),
                None => granted matches Err(LoginError::Unverifiable { .. }),
            },
        },
{
    match found {
        None => Err(LoginError::UserNotFound),
        Some(user) => {
            let checked = check_password(password, user.password_hash.as_str());
            conclude(user, checked)
        },
    }
}

} // verus!
