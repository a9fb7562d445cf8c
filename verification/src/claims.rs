//! What a bearer token carries: the claims of a user session and those of
//! an API key.

use vstd::prelude::*;
use crate::text::texts;

verus! {

/// How long a user session lasts, in seconds: a day.
pub const SESSION_SECONDS: i64 = 86_400;

/// How long an API key lasts where no expiry is given, in seconds: a
/// year of 365 days.
pub const API_KEY_SECONDS: i64 = 31_536_000;

/// The claims of a user session.
#[derive(Debug, Clone, PartialEq, Eq)]
pub struct Claims {
    pub user_id: String,
    pub email: String,
    pub org_id: Option<String>,
    /// The second at which the token expires.
    pub exp: i64,
    /// The second at which the token was issued.
    pub iat: i64,
}

/// The claims of an API key.
#[derive(Debug, Clone, PartialEq, Eq)]
pub struct ApiKeyClaims {
    pub api_key_id: String,
    pub user_id: String,
    pub organization_id: String,
    pub scopes: Vec<String>,
    /// The handle under which the key is shown.
    pub key_prefix: String,
    /// The second at which the token expires.
    pub exp: i64,
    /// The second at which the token was issued.
    pub iat: i64,
}

/// The claims of a verified token, in one of the two shapes.
#[derive(Debug, Clone, PartialEq, Eq)]
pub enum TokenClaims {
    User(Claims),
    ApiKey(ApiKeyClaims),
}

/// The mathematical value of [`Claims`].
pub ghost struct ClaimsModel {
    pub user_id: Seq<char>,
    pub email: Seq<char>,
    pub org_id: Option<Seq<char>>,
    pub exp: int,
    pub iat: int,
}

/// The mathematical value of [`ApiKeyClaims`].
pub ghost struct ApiKeyClaimsModel {
    pub api_key_id: Seq<char>,
    pub user_id: Seq<char>,
    pub organization_id: Seq<char>,
    pub scopes: Seq<Seq<char>>,
    pub key_prefix: Seq<char>,
    pub exp: int,
    pub iat: int,
}

/// The mathematical value of [`TokenClaims`].
pub ghost enum TokenClaimsModel {
    User(ClaimsModel),
    ApiKey(ApiKeyClaimsModel),
}

impl View for Claims {
    type V = ClaimsModel;

    open spec fn view(&self) -> ClaimsModel {
        ClaimsModel {
            user_id: self.user_id@,
            email: self.email@,
            org_id: match self.org_id {
                Some(id) => Some(id@),
                None => None,
            },
            exp: self.exp as int,
            iat: self.iat as int,
        }
    }
}

impl View for ApiKeyClaims {
    type V = ApiKeyClaimsModel;

    open spec fn view(&self) -> ApiKeyClaimsModel {
        ApiKeyClaimsModel {
            api_key_id: self.api_key_id@,
            user_id: self.user_id@,
            organization_id: self.organization_id@,
            scopes: texts(self.scopes@),
            key_prefix: self.key_prefix@,
            exp: self.exp as int,
            iat: self.iat as int,
        }
    }
}

impl View for TokenClaims {
    type V = TokenClaimsModel;

    open spec fn view(&self) -> TokenClaimsModel {
        match self {
            TokenClaims::User(c) => TokenClaimsModel::User(c@),
            TokenClaims::ApiKey(c) => TokenClaimsModel::ApiKey(c@),
        }
    }
}

/// Whether a second is one that the clock can show: not before 1970, and
/// well inside 44 bits.
pub open spec fn on_the_clock(now: int) -> bool {
    0 <= now < 0x1000_0000_0000
}

/// `chrono::Utc::now().timestamp()`: the present second, counted from the
/// start of 1970. The clock is read as a time since then, and a
/// `DateTime` ends with the year 262142, so the count is not negative and
/// stays well inside 44 bits. (Where the clock of the machine is set
/// before 1970, `chrono` does not return.)
#[verifier::external_body]
pub(crate) fn current_timestamp() -> (now: i64)
    ensures
        on_the_clock(now as int),
{
    chrono::Utc::now().timestamp()
}

/// The claims of a user session issued at the second `now`: it expires a
/// day later.
pub open spec fn session_claims(
    user_id: Seq<char>,
    email: Seq<char>,
    org_id: Option<Seq<char>>,
    now: int,
) -> ClaimsModel {
    ClaimsModel { user_id, email, org_id, exp: now + SESSION_SECONDS, iat: now }
}

/// The claims of an API key issued at the second `now`: it expires at the
/// given second, or a year after `now` where none is given.
pub open spec fn api_key_claims(
    api_key_id: Seq<char>,
    user_id: Seq<char>,
    organization_id: Seq<char>,
    scopes: Seq<Seq<char>>,
    key_prefix: Seq<char>,
    expires_at: Option<i64>,
    now: int,
) -> ApiKeyClaimsModel {
    ApiKeyClaimsModel {
        api_key_id,
        user_id,
        organization_id,
        scopes,
        key_prefix,
        exp: match expires_at {
            Some(at) => at as int,
            None => now + API_KEY_SECONDS,
        },
        iat: now,
    }
}

impl Claims {
    /// The claims of a user session issued at the second `now`.
    pub fn issued_at(user_id: String, email: String, org_id: Option<String>, now: i64) -> (r:
        Self)
        requires
            now + SESSION_SECONDS <= i64::MAX,
        ensures
            r@ == session_claims(
                user_id@,
                email@,
                match org_id {
                    Some(id) => Some(id@),
                    None => None,
                },
                now as int,
            ),
    {
        Claims { user_id, email, org_id, exp: now + SESSION_SECONDS, iat: now }
    }

    /// The claims of a user session issued now.
    pub fn new(user_id: String, email: String, org_id: Option<String>) -> (r: Self)
        ensures
            on_the_clock(r.iat as int),
            r@ == session_claims(
                user_id@,
                email@,
                match org_id {
                    Some(id) => Some(id@),
                    None => None,
                },
                r.iat as int,
            ),
    {
        let now = current_timestamp();
        Claims::issued_at(user_id, email, org_id, now)
    }
}

impl ApiKeyClaims {
    /// The claims of an API key issued at the second `now`.
    pub fn issued_at(
        api_key_id: String,
        user_id: String,
        organization_id: String,
        scopes: Vec<String>,
        key_prefix: String,
        expires_at: Option<i64>,
        now: i64,
    ) -> (r: Self)
        requires
            now + API_KEY_SECONDS <= i64::MAX,
        ensures
            r@ == api_key_claims(
                api_key_id@,
                user_id@,
                organization_id@,
                texts(scopes@),
                key_prefix@,
                expires_at,
                now as int,
            ),
    {
        let exp = match expires_at {
            Some(at) => at,
            None => now + API_KEY_SECONDS,
        };
        ApiKeyClaims { api_key_id, user_id, organization_id, scopes, key_prefix, exp, iat: now }
    }

    /// The claims of an API key issued now.
    pub fn new(
        api_key_id: String,
        user_id: String,
        organization_id: String,
        scopes: Vec<String>,
        key_prefix: String,
        expires_at: Option<i64>,
    ) -> (r: Self)
        ensures
            on_the_clock(r.iat as int),
            r@ == api_key_claims(
                api_key_id@,
                user_id@,
                organization_id@,
                texts(scopes@),
                key_prefix@,
                expires_at,
                r.iat as int,
            ),
    {
        let now = current_timestamp();
        ApiKeyClaims::issued_at(
            api_key_id,
            user_id,
            organization_id,
            scopes,
            key_prefix,
            expires_at,
            now,
        )
    }
}

} // verus!
