//! The sessions of users at the management routes: who a request comes
//! from, and whether a login is let in.

use vstd::prelude::*;
use crate::claims::{current_timestamp, on_the_clock, Claims, ClaimsModel};
use crate::error::AuthError;
use crate::gate::bearer;
use crate::password::{bcrypt_fits, verify_password, PasswordError};
use crate::text::{chars_of, has_prefix, optional_text, slice_chars, starts_with_chars, string_of};
use crate::token::{as_session, verified, JwtManager};

verus! {

/// What the store holds of a user.
#[derive(Debug, Clone, PartialEq, Eq)]
pub struct UserRecord {
    pub id: String,
    pub email: String,
    pub username: String,
    pub password_hash: String,
    pub is_active: bool,
}

/// The user that a request comes from.
#[derive(Debug, Clone, PartialEq, Eq)]
pub struct CurrentUser {
    pub id: String,
    pub email: String,
    pub username: String,
    pub org_id: Option<String>,
}

/// The token of a session: what follows `Bearer ` in the `Authorization`
/// header; a request without such a header carries none.
pub open spec fn session_token(authorization: Option<Seq<char>>) -> Result<Seq<char>, AuthError> {
    match authorization {
        Some(header) if has_prefix(header, bearer()) => Ok(header.skip(bearer().len() as int)),
        _ => Err(AuthError::MissingToken),
    }
}

/// The claims of the session of a request at the second `now`.
pub open spec fn session_of(authorization: Option<Seq<char>>, secret: Seq<u8>, now: int) -> Result<
    ClaimsModel,
    AuthError,
> {
    match session_token(authorization) {
        Err(e) => Err(e),
        Ok(token) => as_session(verified(token, secret, now)),
    }
}

/// Finds the token of a session.
pub fn session_credential(authorization: Option<&str>) -> (r: Result<String, AuthError>)
    ensures
        (match r {
            Ok(token) => Ok(token@),
            Err(e) => Err(e),
        }) == session_token(optional_text(authorization)),
{
    if let Some(header) = authorization {
        let chars = chars_of(header);
        let scheme = chars_of("Bearer ");
        if starts_with_chars(&chars, &scheme) {
            let rest = slice_chars(&chars, scheme.len(), chars.len());
            assert(chars@.subrange(scheme.len() as int, chars.len() as int) == chars@.skip(
                scheme.len() as int,
            ));
            return Ok(string_of(&rest));
        }
    }
    Err(AuthError::MissingToken)
}

/// Verifies the session of a request at the second `now`.
pub fn authenticate_session_at(manager: &JwtManager, authorization: Option<&str>, now: i64) -> (r:
    Result<Claims, AuthError>)
    ensures
        (match r {
            Ok(claims) => Ok(claims@),
            Err(e) => Err(e),
        }) == session_of(optional_text(authorization), manager.secret(), now as int),
        match session_token(optional_text(authorization)) {
            Ok(token) => !token.contains('.') ==> r is Err && r->Err_0 == AuthError::InvalidToken,
            Err(e) => r is Err && r->Err_0 == e,
        },
{
    let token = match session_credential(authorization) {
        Ok(token) => token,
        Err(e) => {
            return Err(e);
        },
    };
    match manager.verify_token_at(token.as_str(), now) {
        Ok(data) => Ok(data.claims),
        Err(e) => Err(e),
    }
}

/// The outcome of verifying a session, as a mathematical value.
pub open spec fn session_view(r: Result<Claims, AuthError>) -> Result<ClaimsModel, AuthError> {
    match r {
        Ok(claims) => Ok(claims@),
        Err(e) => Err(e),
    }
}

/// Verifies the session of a request now.
pub fn authenticate_session(manager: &JwtManager, authorization: Option<&str>) -> (r: Result<
    Claims,
    AuthError,
>)
    ensures
        exists|now: int|
            on_the_clock(now) && session_view(r) == #[trigger] session_of(
                optional_text(authorization),
                manager.secret(),
                now,
            ),
        match session_token(optional_text(authorization)) {
            Ok(token) => !token.contains('.') ==> r is Err && r->Err_0 == AuthError::InvalidToken,
            Err(e) => r is Err && r->Err_0 == e,
        },
{
    let now = current_timestamp();
    let r = authenticate_session_at(manager, authorization, now);
    assert(session_view(r) == session_of(
        optional_text(authorization),
        manager.secret(),
        now as int,
    ));
    r
}

/// Admits the user of a session: the store must hold the user, and the
/// user must be active. The organization is that of the session.
pub fn admit_user(claims: &Claims, user: Option<UserRecord>) -> (r: Result<CurrentUser, AuthError>)
    ensures
        match user {
            None => r == Err::<CurrentUser, AuthError>(AuthError::UserNotFound),
            Some(u) => if u.is_active {
                r == Ok::<CurrentUser, AuthError>(
                    CurrentUser {
                        id: u.id,
                        email: u.email,
                        username: u.username,
                        org_id: claims.org_id,
                    },
                )
            } else {
                r == Err::<CurrentUser, AuthError>(AuthError::UserNotActive)
            },
        },
{
    match user {
        None => Err(AuthError::UserNotFound),
        Some(u) => {
            if !u.is_active {
                return Err(AuthError::UserNotActive);
            }
            Ok(
                CurrentUser {
                    id: u.id,
                    email: u.email,
                    username: u.username,
                    org_id: claims.org_id.clone(),
                },
            )
        },
    }
}

/// Why a login is not let in.
#[derive(Debug, Clone, Copy, PartialEq, Eq, Structural)]
pub enum LoginError {
    /// The login is refused.
    Refused(AuthError),
    /// The password could not be checked.
    Fault(PasswordError),
}

/// Whether a login is let in: the store must hold the user, the user must
/// be active, and the password must fit the hash of the user. A hash that
/// cannot be read is a fault, not a refusal.
pub open spec fn login_outcome(user: Option<UserRecord>, password: Seq<char>) -> Result<
    (),
    LoginError,
> {
    match user {
        None => Err(LoginError::Refused(AuthError::InvalidCredentials)),
        Some(u) => if !u.is_active {
            Err(LoginError::Refused(AuthError::UserNotActive))
        } else {
            match bcrypt_fits(password, u.password_hash@) {
                Some(true) => Ok(()),
                Some(false) => Err(LoginError::Refused(AuthError::InvalidCredentials)),
                None => Err(LoginError::Fault(PasswordError::MalformedHash)),
            }
        },
    }
}

/// The HTTP status that answers a login that is not let in: 401 for a
/// refusal, 500 for a fault.
pub open spec fn login_status_of(e: LoginError) -> int {
    match e {
        LoginError::Refused(_) => 401,
        LoginError::Fault(_) => 500,
    }
}

/// Decides whether a login is let in.
pub fn check_login(user: &Option<UserRecord>, password: &str) -> (r: Result<(), LoginError>)
    ensures
        r == login_outcome(*user, password@),
{
    match user {
        None => Err(LoginError::Refused(AuthError::InvalidCredentials)),
        Some(u) => {
            if !u.is_active {
                return Err(LoginError::Refused(AuthError::UserNotActive));
            }
            match verify_password(password, u.password_hash.as_str()) {
                Ok(true) => Ok(()),
                Ok(false) => Err(LoginError::Refused(AuthError::InvalidCredentials)),
                Err(e) => Err(LoginError::Fault(e)),
            }
        },
    }
}

impl LoginError {
    /// The HTTP status that answers this login.
    pub fn status_code(&self) -> (code: u16)
        ensures
            code == login_status_of(*self),
    {
        match self {
            LoginError::Refused(_) => 401,
            LoginError::Fault(_) => 500,
        }
    }
}

} // verus!
