//! Password checks: registration, authentication, permission checks and password
//! changes, over hashes that the credential store keeps.
use vstd::prelude::*;

verus! {

#[verifier::external_type_specification]
#[verifier::external_body]
pub struct ExBcryptError(bcrypt::BcryptError);

/// What bcrypt's verification answers for `password` against the stored `hash`:
/// whether they match, or `None` when the hash is malformed.
pub uninterp spec fn bcrypt_verdict(password: Seq<char>, hash: Seq<char>) -> Option<bool>;

/// Relies on `bcrypt::verify`: whether `password` matches `hash`, an error when the hash
/// cannot be parsed; the answer depends on the two strings alone.
#[verifier::external_body]
fn bcrypt_verify(password: &str, hash: &str) -> (r: Result<bool, bcrypt::BcryptError>)
    ensures
        r matches Ok(b) ==> bcrypt_verdict(password@, hash@) == Some(b),
        r is Err ==> bcrypt_verdict(password@, hash@) is None,
{
    bcrypt::verify(password, hash)
}

/// Relies on `bcrypt::hash`: a hash of `password` under a fresh random salt, which
/// `bcrypt::verify` accepts for that password; an error for a cost outside `4..=31` or
/// when no randomness is available.
#[verifier::external_body]
fn bcrypt_hash(password: &str, cost: u32) -> (r: Result<String, bcrypt::BcryptError>)
    ensures
        r matches Ok(h) ==> bcrypt_verdict(password@, h@) == Some(true),
{
    bcrypt::hash(password, cost)
}

/// The cost with which passwords are hashed.
pub const HASH_COST: u32 = 12;

/// Why an authentication request was refused.
#[derive(Debug, Clone, Copy, PartialEq, Eq, Structural)]
pub enum AuthError {
    /// No such user.
    UnknownUser,
    /// The password does not match.
    InvalidPassword,
    /// The stored hash cannot be read, or hashing failed.
    Hash,
    /// The credential store failed.
    Store,
}

/// A hash of `password` under `cost`, to be stored in place of the password.
pub fn password_hash(password: &str, cost: u32) -> (r: Result<String, AuthError>)
    ensures
        r matches Ok(h) ==> bcrypt_verdict(password@, h@) == Some(true),
        r matches Err(e) ==> e == AuthError::Hash,
{
    match bcrypt_hash(password, cost) {
        Ok(h) => Ok(h),
        Err(_) => Err(AuthError::Hash),
    }
}

/// The answer to a password check whose verification gave `verdict`: a match is
/// accepted, a mismatch is `InvalidPassword`, an unreadable hash is `Hash`.
pub open spec fn verdict_spec(verdict: Option<bool>) -> Result<(), AuthError> {
    match verdict {
        Some(true) => Ok(()),
        Some(false) => Err(AuthError::InvalidPassword),
        None => Err(AuthError::Hash),
    }
}

/// Whether `password` matches `stored`.
pub open spec fn check_spec(password: Seq<char>, stored: Seq<char>) -> Result<(), AuthError> {
    verdict_spec(bcrypt_verdict(password, stored))
}

/// The answer to a password check, from what verification gave.
pub fn verdict_result(verdict: Option<bool>) -> (r: Result<(), AuthError>)
    ensures
        r == verdict_spec(verdict),
{
    match verdict {
        Some(true) => Ok(()),
        Some(false) => Err(AuthError::InvalidPassword),
        None => Err(AuthError::Hash),
    }
}

/// Checks `password` against the stored hash.
pub fn check_password(password: &str, stored: &str) -> (r: Result<(), AuthError>)
    ensures
        r == check_spec(password@, stored@),
{
    let verdict = match bcrypt_verify(password, stored) {
        Ok(b) => Some(b),
        Err(_) => None,
    };
    verdict_result(verdict)
}

/// The credential store's operations, as the server consumes them.
pub trait Auther {
    /// Stores a new user with the hash of `password` and the role `user`.
    fn register(&self, username: &str, password: &str) -> Result<(), AuthError>;

    /// Binds `username` to the session when `password` matches its stored hash.
    fn authenticate(&mut self, username: &str, password: &str) -> Result<(), AuthError>;

    /// Whether the role of `username` is `permission`.
    fn check_permission(&self, username: &str, permission: &str) -> Result<bool, AuthError>;

    /// Replaces the password of `username` when `old_password` matches.
    fn update_user_password(&self, username: &str, password: &str, old_password: &str) -> Result<(), AuthError>;
}

/// The authentication state of one connection.
pub struct User {
    username: String,
    authed: bool,
}

impl User {
    pub closed spec fn is_authed(&self) -> bool {
        self.authed
    }

    /// The user bound to the connection; empty before any authentication.
    pub closed spec fn name(&self) -> Seq<char> {
        self.username@
    }

    /// The user bound to the connection.
    pub fn username(&self) -> (r: &str)
        ensures
            r@ == self.name(),
    {
        self.username.as_str()
    }

    /// A connection on which nobody has authenticated.
    pub fn new() -> (r: User)
        ensures
            r.name() == Seq::<char>::empty(),
            !r.is_authed(),
    {
        User { username: String::new(), authed: false }
    }

    /// True once a user has authenticated.
    pub fn authed(&self) -> (r: bool)
        ensures
            r == self.is_authed(),
    {
        self.authed
    }

    /// Authenticates `username` with `password`, given the hash the store holds for it
    /// (`None`: no such user). On success the user is bound to the connection; on a
    /// refusal nothing changes.
    pub fn authenticate(&mut self, username: &str, password: &str, stored: Option<&str>) -> (r: Result<(), AuthError>)
        ensures
            stored is None ==> r == Err::<(), AuthError>(AuthError::UnknownUser),
            stored matches Some(h) ==> r == check_spec(password@, h@),
            r is Ok ==> final(self).name() == username@ && final(self).is_authed(),
            r is Err ==> final(self).name() == old(self).name() && final(self).is_authed() == old(self).is_authed(),
    {
        match stored {
            None => Err(AuthError::UnknownUser),
            Some(h) => {
                let verdict = check_password(password, h);
                if verdict.is_ok() {
                    self.username = String::from_str(username);
                    self.authed = true;
                }
                verdict
            },
        }
    }
}

/// Whether a user whose stored role is `role` (`None`: no such user) holds
/// `permission`: roles match exactly.
pub fn check_permission(role: Option<&str>, permission: &str) -> (r: Result<bool, AuthError>)
    ensures
        role is None ==> r == Err::<bool, AuthError>(AuthError::UnknownUser),
        role matches Some(x) ==> r == Ok::<bool, AuthError>(x@ == permission@),
{
    match role {
        None => Err(AuthError::UnknownUser),
        Some(x) => Ok(String::from_str(x) == String::from_str(permission)),
    }
}

/// The hash to store for a password change, given the hash the store holds (`None`: no
/// such user): the old password must match it.
pub fn new_password_hash(stored: Option<&str>, password: &str, old_password: &str, cost: u32) -> (r: Result<String, AuthError>)
    ensures
        stored is None ==> r == Err::<String, AuthError>(AuthError::UnknownUser),
        stored matches Some(h) ==> (check_spec(old_password@, h@) matches Err(e) ==> r == Err::<String, AuthError>(e)),
        stored matches Some(h) ==> (check_spec(old_password@, h@) is Ok ==> (r matches Ok(n) ==> bcrypt_verdict(password@, n@) == Some(true))),
        stored matches Some(h) ==> (check_spec(old_password@, h@) is Ok ==> (r matches Err(e) ==> e == AuthError::Hash)),
{
    match stored {
        None => Err(AuthError::UnknownUser),
        Some(h) => {
            check_password(old_password, h)?;
            password_hash(password, cost)
        },
    }
}

} // verus!
