//! Password hashing and the format rules for user fields.
use vstd::prelude::*;
use crate::text::{regex_match, regex_outcome};

verus! {

/// Accepted e-mail addresses.
pub const EMAIL_PATTERN: &'static str = "^[a-zA-Z0-9._%+-]+@[a-zA-Z0-9.-]+\\.[a-zA-Z]{2,}$";

/// Accepted roles.
pub const ROLE_PATTERN: &'static str = "^(admin|user|guest)$";

/// Accepted display names: 1 to 50 ASCII letters or whitespace.
pub const NAME_PATTERN: &'static str = "^[a-zA-Z\\s]{1,50}$";

/// Whether PasswordHash::new parses `hash` as a PHC string.
pub uninterp spec fn phc_parses(hash: Seq<char>) -> bool;

/// Whether the default Argon2 context accepts `password` against the parsed PHC `hash`.
pub uninterp spec fn argon2_accepts(password: Seq<char>, hash: Seq<char>) -> bool;

/// Relies on argon2's PasswordHasher::hash_password with the default Argon2 context and a
/// salt from password_hash's SaltString::generate over the OS random source. The salt is
/// random, so nothing is promised of the PHC string, nor that hashing succeeds.
#[verifier::external_body]
fn argon2_hash(password: &str) -> (r: Result<String, String>) {
    let salt = argon2::password_hash::SaltString::generate(
        &mut argon2::password_hash::rand_core::OsRng,
    );
    match argon2::PasswordHasher::hash_password(
        &argon2::Argon2::default(),
        password.as_bytes(),
        &salt,
    ) {
        Ok(hash) => Ok(hash.to_string()),
        Err(e) => Err(e.to_string()),
    }
}

/// Relies on password_hash's PasswordHash::new, which parses `hash` or fails, and on
/// argon2's PasswordVerifier::verify_password with the default Argon2 context, which
/// recomputes the hash of `password` with the salt and parameters read from `hash`.
#[verifier::external_body]
fn argon2_verify(password: &str, hash: &str) -> (r: Result<bool, String>)
    ensures
        r is Ok <==> phc_parses(hash@),
        r is Ok ==> r->Ok_0 == argon2_accepts(password@, hash@),
{
    match argon2::password_hash::PasswordHash::new(hash) {
        Ok(parsed) => Ok(
            argon2::PasswordVerifier::verify_password(
                &argon2::Argon2::default(),
                password.as_bytes(),
                &parsed,
            ).is_ok(),
        ),
        Err(e) => Err(e.to_string()),
    }
}

#[derive(Clone, Debug, PartialEq, Eq)]
pub enum SecurityError {
    HashingError(String),
    VerificationError(String),
    ValidationError(String),
}

pub type SecurityResult<T> = Result<T, SecurityError>;

pub open spec fn is_ascii_letter(c: char) -> bool {
    ('a' <= c && c <= 'z') || ('A' <= c && c <= 'Z')
}

pub open spec fn is_ascii_digit(c: char) -> bool {
    '0' <= c && c <= '9'
}

/// At least 8 characters, only ASCII letters and digits, and at least one of each.
pub open spec fn password_acceptable(p: Seq<char>) -> bool {
    &&& p.len() >= 8
    &&& forall|i: int| 0 <= i < p.len() ==> is_ascii_letter(#[trigger] p[i]) || is_ascii_digit(
        p[i],
    )
    &&& exists|i: int| 0 <= i < p.len() && is_ascii_letter(#[trigger] p[i])
    &&& exists|i: int| 0 <= i < p.len() && is_ascii_digit(#[trigger] p[i])
}

/// Hashes passwords and checks user fields against their format rules.
pub struct SecurityManager {}

impl SecurityManager {
    pub fn new() -> (r: SecurityManager) {
        SecurityManager {  }
    }

    /// Hashes `password` into a PHC string with a fresh random salt.
    pub fn hash_password(&self, password: &str) -> (r: SecurityResult<String>)
        ensures
            r is Err ==> r->Err_0 is HashingError,
    {
        match argon2_hash(password) {
            Ok(hash) => Ok(hash),
            Err(msg) => Err(SecurityError::HashingError(msg)),
        }
    }

    /// Whether `password` matches the PHC string `hash`; an error when `hash` does not
    /// parse.
    pub fn verify_password(&self, password: &str, hash: &str) -> (r: SecurityResult<bool>)
        ensures
            r is Ok <==> phc_parses(hash@),
            r is Ok ==> r->Ok_0 == argon2_accepts(password@, hash@),
            r is Err ==> r->Err_0 is VerificationError,
    {
        match argon2_verify(password, hash) {
            Ok(accepted) => Ok(accepted),
            Err(msg) => Err(SecurityError::VerificationError(msg)),
        }
    }

    pub fn is_valid_email(&self, email: &str) -> (r: bool)
        ensures
            r == (regex_outcome(EMAIL_PATTERN@, email@) == Some(true)),
    {
        regex_match(EMAIL_PATTERN, email) == Some(true)
    }

    /// The regex crate has no look-ahead, so this rule is checked character by character.
    pub fn is_valid_password(&self, password: &str) -> (r: bool)
        ensures
            r == password_acceptable(password@),
    {
        let n = password.unicode_len();
        let mut letter = false;
        let mut digit = false;
        let mut i: usize = 0;
        while i < n
            invariant
                n == password@.len(),
                i <= n,
                forall|k: int| 0 <= k < i ==> is_ascii_letter(#[trigger] password@[k])
                    || is_ascii_digit(password@[k]),
                letter == exists|k: int| 0 <= k < i && is_ascii_letter(#[trigger] password@[k]),
                digit == exists|k: int| 0 <= k < i && is_ascii_digit(#[trigger] password@[k]),
            decreases n - i,
        {
            let c = password.get_char(i);
            let is_letter = ('a' <= c && c <= 'z') || ('A' <= c && c <= 'Z');
            let is_digit = '0' <= c && c <= '9';
            if !is_letter && !is_digit {
                return false;
            }
            letter = letter || is_letter;
            digit = digit || is_digit;
            i = i + 1;
        }
        n >= 8 && letter && digit
    }

    pub fn is_valid_role(&self, role: &str) -> (r: bool)
        ensures
            r == (regex_outcome(ROLE_PATTERN@, role@) == Some(true)),
    {
        regex_match(ROLE_PATTERN, role) == Some(true)
    }

    pub fn is_valid_name(&self, name: &str) -> (r: bool)
        ensures
            r == (regex_outcome(NAME_PATTERN@, name@) == Some(true)),
    {
        regex_match(NAME_PATTERN, name) == Some(true)
    }

    /// Checks the e-mail address first, then the password.
    pub fn validate_user_input(&self, email: &str, password: &str) -> (r: SecurityResult<()>)
        ensures
            is_input_verdict(
                r,
                regex_outcome(EMAIL_PATTERN@, email@) == Some(true),
                password_acceptable(password@),
            ),
    {
        let email_ok = self.is_valid_email(email);
        let password_ok = self.is_valid_password(password);
        input_verdict(email_ok, password_ok)
    }
}

/// Message for an e-mail address that breaks its rule.
pub const INVALID_EMAIL_MESSAGE: &'static str = "Invalid email format";

/// Message for a password that breaks its rule.
pub const WEAK_PASSWORD_MESSAGE: &'static str =
    "Password must be at least 8 characters long and contain both letters and numbers";

/// `r` is the outcome of validating user input whose e-mail address and password passed
/// or failed their rules: the e-mail address is reported first.
pub open spec fn is_input_verdict(r: SecurityResult<()>, email_ok: bool, password_ok: bool) -> bool {
    if !email_ok {
        r is Err && r->Err_0 is ValidationError && r->Err_0->ValidationError_0@
            == INVALID_EMAIL_MESSAGE@
    } else if !password_ok {
        r is Err && r->Err_0 is ValidationError && r->Err_0->ValidationError_0@
            == WEAK_PASSWORD_MESSAGE@
    } else {
        r is Ok
    }
}

/// The outcome of validating user input once its e-mail address and password have been
/// checked against their rules.
pub fn input_verdict(email_ok: bool, password_ok: bool) -> (r: SecurityResult<()>)
    ensures
        is_input_verdict(r, email_ok, password_ok),
{
    if !email_ok {
        Err(SecurityError::ValidationError(INVALID_EMAIL_MESSAGE.to_owned()))
    } else if !password_ok {
        Err(SecurityError::ValidationError(WEAK_PASSWORD_MESSAGE.to_owned()))
    } else {
        Ok(())
    }
}

} // verus!
