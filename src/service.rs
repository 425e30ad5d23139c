//! The decisions of the user service that do not need the database.
use vstd::prelude::*;
use crate::proto::{CreateUserRequest, UpdateUserRequest, User};
use crate::security::{EMAIL_PATTERN, SecurityManager, password_acceptable};
use crate::text::regex_outcome;

verus! {

/// Reason given for a new user whose e-mail address breaks its rule.
pub const INVALID_EMAIL_FORMAT: &'static str = "Invalid email format";

/// Reason given for a new user whose password breaks its rule.
pub const INVALID_PASSWORD_FORMAT: &'static str = "Invalid password format";

/// `r` is the verdict on a new user whose e-mail address and password passed or failed
/// their rules: the e-mail address is reported first.
pub open spec fn is_new_user_verdict(r: Result<(), String>, email_ok: bool, password_ok: bool) -> bool {
    if !email_ok {
        r is Err && r->Err_0@ == INVALID_EMAIL_FORMAT@
    } else if !password_ok {
        r is Err && r->Err_0@ == INVALID_PASSWORD_FORMAT@
    } else {
        r is Ok
    }
}

/// The verdict on a new user once the e-mail address and password have been checked.
pub fn new_user_verdict(email_ok: bool, password_ok: bool) -> (r: Result<(), String>)
    ensures
        is_new_user_verdict(r, email_ok, password_ok),
{
    if !email_ok {
        Err(INVALID_EMAIL_FORMAT.to_owned())
    } else if !password_ok {
        Err(INVALID_PASSWORD_FORMAT.to_owned())
    } else {
        Ok(())
    }
}

/// Whether a user may be created from `request`; the error is the reason to give back.
pub fn check_new_user(security: &SecurityManager, request: &CreateUserRequest) -> (r: Result<
    (),
    String,
>)
    ensures
        is_new_user_verdict(
            r,
            regex_outcome(EMAIL_PATTERN@, request.email@) == Some(true),
            password_acceptable(request.password@),
        ),
{
    let email_ok = security.is_valid_email(request.email.as_str());
    let password_ok = security.is_valid_password(request.password.as_str());
    new_user_verdict(email_ok, password_ok)
}

/// `user` with each field that `request` carries replaced; the id is kept.
pub fn apply_user_update(user: &User, request: &UpdateUserRequest) -> (r: User)
    ensures
        r.id == user.id,
        r.name == (match request.name {
            Some(n) => n,
            None => user.name,
        }),
        r.email == (match request.email {
            Some(e) => e,
            None => user.email,
        }),
        r.role == (match request.role {
            Some(x) => x,
            None => user.role,
        }),
{
    let name = match &request.name {
        Some(n) => n.clone(),
        None => user.name.clone(),
    };
    let email = match &request.email {
        Some(e) => e.clone(),
        None => user.email.clone(),
    };
    let role = match &request.role {
        Some(x) => x.clone(),
        None => user.role.clone(),
    };
    User { id: user.id.clone(), email, name, role }
}

} // verus!
