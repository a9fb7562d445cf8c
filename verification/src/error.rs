//! The gateway's failures, the HTTP status each is answered with, and the
//! JSON envelope that carries it.

use vstd::prelude::*;
use crate::reply::{lemma_object_view, JsonMember, JsonModel, JsonValue, MemberModel};
use crate::text::join2;

verus! {

/// Why a request failed.
#[derive(Debug, Clone, PartialEq, Eq)]
pub enum GatewayError {
    /// No credential, or one that does not verify.
    Unauthorized,
    /// A command request without a credential.
    MissingApiKey,
    /// A command request whose credential does not verify.
    InvalidApiKey,
    /// A command request whose credential is that of a key that was
    /// switched off.
    InactiveApiKey,
    /// A verified credential that may not do what was asked.
    Forbidden,
    /// A missing or invalid argument of a key route.
    BadRequest(String),
    /// A command that cannot be planned: it is empty, unknown, or lacks
    /// an argument, or an argument is not what it must be. The text says
    /// which.
    InvalidCommand(String),
    /// No live instance under this name.
    InstanceNotFound(String),
    /// No live instance under the identifier of a command request.
    RedisInstanceNotFound,
    /// No connection came free within the wait timeout.
    PoolExhausted(String),
    /// The command did not answer within its timeout.
    Timeout,
    /// Connecting to the instance, or its first `PING`, failed.
    RedisUnavailable(String),
    /// The endpoint of the instance could not be resolved.
    ServiceDiscoveryFailed(String),
    /// Redis answered the command with an error.
    Redis(String),
    /// A fault of the gateway itself.
    Internal,
}

/// The mathematical value of a [`GatewayError`].
pub ghost enum ErrorModel {
    Unauthorized,
    MissingApiKey,
    InvalidApiKey,
    InactiveApiKey,
    Forbidden,
    BadRequest(Seq<char>),
    InvalidCommand(Seq<char>),
    InstanceNotFound(Seq<char>),
    RedisInstanceNotFound,
    PoolExhausted(Seq<char>),
    Timeout,
    RedisUnavailable(Seq<char>),
    ServiceDiscoveryFailed(Seq<char>),
    Redis(Seq<char>),
    Internal,
}

impl View for GatewayError {
    type V = ErrorModel;

    open spec fn view(&self) -> ErrorModel {
        match self {
            GatewayError::Unauthorized => ErrorModel::Unauthorized,
            GatewayError::MissingApiKey => ErrorModel::MissingApiKey,
            GatewayError::InvalidApiKey => ErrorModel::InvalidApiKey,
            GatewayError::InactiveApiKey => ErrorModel::InactiveApiKey,
            GatewayError::Forbidden => ErrorModel::Forbidden,
            GatewayError::BadRequest(m) => ErrorModel::BadRequest(m@),
            GatewayError::InvalidCommand(m) => ErrorModel::InvalidCommand(m@),
            GatewayError::InstanceNotFound(m) => ErrorModel::InstanceNotFound(m@),
            GatewayError::RedisInstanceNotFound => ErrorModel::RedisInstanceNotFound,
            GatewayError::PoolExhausted(m) => ErrorModel::PoolExhausted(m@),
            GatewayError::Timeout => ErrorModel::Timeout,
            GatewayError::RedisUnavailable(m) => ErrorModel::RedisUnavailable(m@),
            GatewayError::ServiceDiscoveryFailed(m) => ErrorModel::ServiceDiscoveryFailed(m@),
            GatewayError::Redis(m) => ErrorModel::Redis(m@),
            GatewayError::Internal => ErrorModel::Internal,
        }
    }
}

/// The HTTP status that answers a failure.
pub open spec fn status_of(e: ErrorModel) -> int {
    match e {
        ErrorModel::Unauthorized => 401,
        ErrorModel::MissingApiKey => 401,
        ErrorModel::InvalidApiKey => 401,
        ErrorModel::InactiveApiKey => 401,
        ErrorModel::Forbidden => 403,
        ErrorModel::BadRequest(_) => 400,
        ErrorModel::InvalidCommand(_) => 400,
        ErrorModel::InstanceNotFound(_) => 404,
        ErrorModel::RedisInstanceNotFound => 404,
        ErrorModel::PoolExhausted(_) => 504,
        ErrorModel::Timeout => 504,
        ErrorModel::RedisUnavailable(_) => 502,
        ErrorModel::ServiceDiscoveryFailed(_) => 503,
        ErrorModel::Redis(_) => 500,
        ErrorModel::Internal => 500,
    }
}

/// The message that answers a failure.
pub open spec fn message_of(e: ErrorModel) -> Seq<char> {
    match e {
        ErrorModel::Unauthorized => "Unauthorized"@,
        ErrorModel::MissingApiKey => "Missing API key"@,
        ErrorModel::InvalidApiKey => "Invalid API key"@,
        ErrorModel::InactiveApiKey => "API key is not active"@,
        ErrorModel::Forbidden => "Forbidden"@,
        ErrorModel::BadRequest(m) => "Bad request: "@ + m,
        ErrorModel::InvalidCommand(m) => m,
        ErrorModel::InstanceNotFound(m) => "Instance not found: "@ + m,
        ErrorModel::RedisInstanceNotFound => "Redis instance not found"@,
        ErrorModel::PoolExhausted(m) => "Redis pool error: "@ + m,
        ErrorModel::Timeout => "Command timed out"@,
        ErrorModel::RedisUnavailable(m) => "Connect to Redis instance error: "@ + m,
        ErrorModel::ServiceDiscoveryFailed(m) => "Service discovery error: "@ + m,
        ErrorModel::Redis(m) => "Redis operation error: "@ + m,
        ErrorModel::Internal => "Internal server error"@,
    }
}

/// Whether a failure is of a transient kind, after which the pool of the
/// instance is dropped so that the next request builds it anew.
pub open spec fn evicts_pool(e: ErrorModel) -> bool {
    e is PoolExhausted || e is Timeout || e is RedisUnavailable || e is ServiceDiscoveryFailed
}

/// The envelope of a failure: an object with the members `error` and
/// `status`, in this order.
pub open spec fn envelope_of(e: ErrorModel) -> JsonModel {
    JsonModel::Object(
        seq![
            MemberModel { name: "error"@, value: JsonModel::String(message_of(e)) },
            MemberModel { name: "status"@, value: JsonModel::Number(status_of(e)) },
        ],
    )
}

impl GatewayError {
    /// The HTTP status that answers this failure.
    pub fn status_code(&self) -> (code: u16)
        ensures
            code == status_of(self@),
    {
        match self {
            GatewayError::Unauthorized => 401,
            GatewayError::MissingApiKey => 401,
            GatewayError::InvalidApiKey => 401,
            GatewayError::InactiveApiKey => 401,
            GatewayError::Forbidden => 403,
            GatewayError::BadRequest(_) => 400,
            GatewayError::InvalidCommand(_) => 400,
            GatewayError::InstanceNotFound(_) => 404,
            GatewayError::RedisInstanceNotFound => 404,
            GatewayError::PoolExhausted(_) => 504,
            GatewayError::Timeout => 504,
            GatewayError::RedisUnavailable(_) => 502,
            GatewayError::ServiceDiscoveryFailed(_) => 503,
            GatewayError::Redis(_) => 500,
            GatewayError::Internal => 500,
        }
    }

    /// The message that answers this failure.
    pub fn message(&self) -> (text: String)
        ensures
            text@ == message_of(self@),
    {
        match self {
            GatewayError::Unauthorized => "Unauthorized".to_string(),
            GatewayError::MissingApiKey => "Missing API key".to_string(),
            GatewayError::InvalidApiKey => "Invalid API key".to_string(),
            GatewayError::InactiveApiKey => "API key is not active".to_string(),
            GatewayError::Forbidden => "Forbidden".to_string(),
            GatewayError::BadRequest(m) => join2("Bad request: ", m.as_str()),
            GatewayError::InvalidCommand(m) => m.clone(),
            GatewayError::RedisInstanceNotFound => "Redis instance not found".to_string(),
            GatewayError::InstanceNotFound(m) => join2("Instance not found: ", m.as_str()),
            GatewayError::PoolExhausted(m) => join2("Redis pool error: ", m.as_str()),
            GatewayError::Timeout => "Command timed out".to_string(),
            GatewayError::RedisUnavailable(m) => join2(
                "Connect to Redis instance error: ",
                m.as_str(),
            ),
            GatewayError::ServiceDiscoveryFailed(m) => join2(
                "Service discovery error: ",
                m.as_str(),
            ),
            GatewayError::Redis(m) => join2("Redis operation error: ", m.as_str()),
            GatewayError::Internal => "Internal server error".to_string(),
        }
    }

    /// Whether the pool of the instance is dropped after this failure.
    pub fn evicts_pool(&self) -> (r: bool)
        ensures
            r == evicts_pool(self@),
    {
        match self {
            GatewayError::PoolExhausted(_) => true,
            GatewayError::Timeout => true,
            GatewayError::RedisUnavailable(_) => true,
            GatewayError::ServiceDiscoveryFailed(_) => true,
            _ => false,
        }
    }

    /// The JSON body that answers this failure.
    pub fn envelope(&self) -> (body: JsonValue)
        ensures
            body@ == envelope_of(self@),
    {
        let error = JsonValue::String(self.message());
        let status = JsonValue::Number(self.status_code() as i64);
        let mut members: Vec<JsonMember> = Vec::new();
        members.push(JsonMember { name: "error".to_string(), value: error });
        members.push(JsonMember { name: "status".to_string(), value: status });
        proof {
            lemma_object_view(members);
        }
        let body = JsonValue::Object(members);
        assert(body@->Object_0 =~= envelope_of(self@)->Object_0);
        body
    }
}

/// Why a credential was not issued or not accepted.
#[derive(Debug, Clone, Copy, PartialEq, Eq, Structural)]
pub enum AuthError {
    TokenCreationFailed,
    InvalidToken,
    TokenExpired,
    MissingToken,
    InvalidCredentials,
    UserNotFound,
    UserNotActive,
}

/// The HTTP status that answers a refused credential: 500 where the
/// token could not be made, 401 otherwise.
pub open spec fn auth_status_of(e: AuthError) -> int {
    match e {
        AuthError::TokenCreationFailed => 500,
        _ => 401,
    }
}

/// The message that answers a refused credential.
pub open spec fn auth_message_of(e: AuthError) -> Seq<char> {
    match e {
        AuthError::TokenCreationFailed => "Failed to create token"@,
        AuthError::InvalidToken => "Invalid token"@,
        AuthError::TokenExpired => "Token expired"@,
        AuthError::MissingToken => "Missing authorization token"@,
        AuthError::InvalidCredentials => "Invalid credentials"@,
        AuthError::UserNotFound => "User not found"@,
        AuthError::UserNotActive => "User account is not active"@,
    }
}

impl AuthError {
    /// The HTTP status that answers this refusal.
    pub fn status_code(&self) -> (code: u16)
        ensures
            code == auth_status_of(*self),
    {
        match self {
            AuthError::TokenCreationFailed => 500,
            _ => 401,
        }
    }

    /// The message that answers this refusal.
    pub fn message(&self) -> (text: String)
        ensures
            text@ == auth_message_of(*self),
    {
        match self {
            AuthError::TokenCreationFailed => "Failed to create token".to_string(),
            AuthError::InvalidToken => "Invalid token".to_string(),
            AuthError::TokenExpired => "Token expired".to_string(),
            AuthError::MissingToken => "Missing authorization token".to_string(),
            AuthError::InvalidCredentials => "Invalid credentials".to_string(),
            AuthError::UserNotFound => "User not found".to_string(),
            AuthError::UserNotActive => "User account is not active".to_string(),
        }
    }
}

} // verus!
