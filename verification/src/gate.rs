//! The authorization gate: which credential a request carries, and whether
//! it may reach the instance it names.

use vstd::prelude::*;
use crate::claims::{
    on_the_clock, ApiKeyClaims, ApiKeyClaimsModel, TokenClaims, TokenClaimsModel,
};
use crate::command::{class_name, ScopeClass};
use crate::error::{AuthError, ErrorModel, GatewayError};
use crate::k8s::{secret_name, secret_name_of};
use crate::password::{bcrypt_fits, verify_password};
use crate::token::{claims_view, verified, JwtManager};
use crate::text::{
    chars_of, has_prefix, leading, leading_chars, same_text, slice_chars, starts_with_chars,
    optional_text, string_of, texts,
};

verus! {

/// Where an instance stands in its life.
#[derive(Debug, Clone, Copy, PartialEq, Eq, Structural)]
pub enum InstanceStatus {
    Creating,
    Running,
    Failed,
    Deleted,
}

/// The status of an instance, from what its record holds: a record that
/// was deleted is deleted, whatever its status word; else the words
/// `running`, `failed` and `deleted` mean what they say, and any other
/// word, or none, is an instance that is still being created.
pub open spec fn status_of_record(word: Option<Seq<char>>, deleted: bool) -> InstanceStatus {
    if deleted {
        InstanceStatus::Deleted
    } else {
        match word {
            Some(w) => if w == "running"@ {
                InstanceStatus::Running
            } else if w == "failed"@ {
                InstanceStatus::Failed
            } else if w == "deleted"@ {
                InstanceStatus::Deleted
            } else {
                InstanceStatus::Creating
            },
            None => InstanceStatus::Creating,
        }
    }
}

impl InstanceStatus {
    /// The status of an instance, from what its record holds.
    pub fn from_record(word: Option<&str>, deleted: bool) -> (r: InstanceStatus)
        ensures
            r == status_of_record(optional_text(word), deleted),
    {
        if deleted {
            return InstanceStatus::Deleted;
        }
        match word {
            Some(w) => {
                if same_text(w, "running") {
                    InstanceStatus::Running
                } else if same_text(w, "failed") {
                    InstanceStatus::Failed
                } else if same_text(w, "deleted") {
                    InstanceStatus::Deleted
                } else {
                    InstanceStatus::Creating
                }
            },
            None => InstanceStatus::Creating,
        }
    }
}

/// Where an instance is to be found.
#[derive(Debug, Clone, PartialEq, Eq)]
pub enum EndpointHint {
    /// A service of the cluster, in a namespace.
    Service { name: String, namespace: String },
    /// A host and a port.
    Direct { host: String, port: u16 },
}

/// What the registry holds of an instance.
#[derive(Debug, Clone, PartialEq, Eq)]
pub struct InstanceDescriptor {
    pub instance_id: String,
    pub organization_id: String,
    pub slug: String,
    pub endpoint_hint: EndpointHint,
    /// The secret that holds the password, where the instance has one.
    pub auth_secret_ref: Option<String>,
    pub status: InstanceStatus,
}

/// What the store holds of an instance.
#[derive(Debug, Clone, PartialEq, Eq)]
pub struct InstanceRecord {
    pub id: String,
    pub organization_id: String,
    pub slug: String,
    pub namespace: Option<String>,
    pub service_name: Option<String>,
    pub domain: Option<String>,
    pub port: Option<i32>,
    pub password_hash: Option<String>,
    pub status: Option<String>,
    /// Whether the record was deleted.
    pub deleted: bool,
}

/// The port at which Redis listens where nothing else is said.
pub const DEFAULT_REDIS_PORT: u16 = 6379;

/// The port of a record: the one it holds, where that is a port; else
/// the port at which Redis listens by default.
pub open spec fn port_of_record(port: Option<i32>) -> u16 {
    match port {
        Some(p) => if 0 <= p <= 65535 {
            p as u16
        } else {
            DEFAULT_REDIS_PORT
        },
        None => DEFAULT_REDIS_PORT,
    }
}

/// Whether a record names a service of the cluster: it does where it
/// holds both the name of a service and a namespace.
pub open spec fn names_service(record: InstanceRecord) -> bool {
    record.service_name is Some && record.namespace is Some
}

impl InstanceDescriptor {
    /// The descriptor of the instance of a record. An instance that names
    /// a service is to be found at that service; any other at its domain,
    /// or at `localhost` where it has none, on the port of the record. An
    /// instance that has a password keeps it in the secret that is named
    /// after its slug.
    pub fn from_record(record: InstanceRecord) -> (r: Self)
        ensures
            r.instance_id == record.id,
            r.organization_id == record.organization_id,
            r.slug == record.slug,
            r.status == status_of_record(
                match record.status {
                    Some(word) => Some(word@),
                    None => None,
                },
                record.deleted,
            ),
            match r.auth_secret_ref {
                Some(secret) => record.password_hash is Some && secret@ == secret_name_of(
                    record.slug@,
                ),
                None => record.password_hash is None,
            },
            match r.endpoint_hint {
                EndpointHint::Service { name, namespace } => names_service(record) && name
                    == record.service_name->0 && namespace == record.namespace->0,
                EndpointHint::Direct { host, port } => !names_service(record) && port
                    == port_of_record(record.port) && host@ == (match record.domain {
                    Some(domain) => domain@,
                    None => "localhost"@,
                }),
            },
    {
        let status = InstanceStatus::from_record(
            match &record.status {
                Some(word) => Some(word.as_str()),
                None => None,
            },
            record.deleted,
        );
        let auth_secret_ref = match &record.password_hash {
            Some(_) => Some(secret_name(record.slug.as_str())),
            None => None,
        };
        let endpoint_hint = match (record.service_name, record.namespace) {
            (Some(name), Some(namespace)) => EndpointHint::Service { name, namespace },
            _ => EndpointHint::Direct {
                host: match record.domain {
                    Some(domain) => domain,
                    None => "localhost".to_string(),
                },
                port: match record.port {
                    Some(p) => if 0 <= p && p <= 65535 {
                        p as u16
                    } else {
                        DEFAULT_REDIS_PORT
                    },
                    None => DEFAULT_REDIS_PORT,
                },
            },
        };
        InstanceDescriptor {
            instance_id: record.id,
            organization_id: record.organization_id,
            slug: record.slug,
            endpoint_hint,
            auth_secret_ref,
            status,
        }
    }
}

/// The scheme that introduces a bearer credential in the `Authorization`
/// header.
pub open spec fn bearer() -> Seq<char> {
    "Bearer "@
}

/// The credential of a request: what follows `Bearer ` in the
/// `Authorization` header, where the header is there and starts so; else
/// the query parameter `_token`, where it is there.
pub open spec fn credential_of(
    authorization: Option<Seq<char>>,
    query_token: Option<Seq<char>>,
) -> Option<Seq<char>> {
    match authorization {
        Some(header) if has_prefix(header, bearer()) => Some(header.skip(bearer().len() as int)),
        _ => query_token,
    }
}

/// Finds the credential of a request.
pub fn extract_credential(authorization: Option<&str>, query_token: Option<&str>) -> (r: Option<
    String,
>)
    ensures
        (match r {
            Some(token) => Some(token@),
            None => None,
        }) == credential_of(
            optional_text(authorization),
            optional_text(query_token),
        ),
{
    if let Some(header) = authorization {
        let chars = chars_of(header);
        let scheme = chars_of("Bearer ");
        if starts_with_chars(&chars, &scheme) {
            let rest = slice_chars(&chars, scheme.len(), chars.len());
            assert(chars@.subrange(scheme.len() as int, chars.len() as int) == chars@.skip(
                scheme.len() as int,
            ));
            return Some(string_of(&rest));
        }
    }
    match query_token {
        Some(token) => Some(token.to_string()),
        None => None,
    }
}

/// What a log line may show of a credential: its first eight characters.
pub fn credential_handle(token: &str) -> (r: String)
    ensures
        r@ == leading(token@, 8),
{
    leading_chars(token, 8)
}

/// What authorization makes of a verification: a token that does not verify
/// is unauthenticated; one that verifies but is no API key is forbidden.
pub open spec fn admitted(verified: Result<TokenClaimsModel, AuthError>) -> Result<
    ApiKeyClaimsModel,
    ErrorModel,
> {
    match verified {
        Err(_) => Err(ErrorModel::InvalidApiKey),
        Ok(TokenClaimsModel::User(_)) => Err(ErrorModel::Forbidden),
        Ok(TokenClaimsModel::ApiKey(claims)) => Ok(claims),
    }
}

/// Admits the claims of an API key and refuses everything else.
pub fn admit_claims(verified: Result<TokenClaims, AuthError>) -> (r: Result<
    ApiKeyClaims,
    GatewayError,
>)
    ensures
        (match r {
            Ok(claims) => Ok(claims@),
            Err(e) => Err(e@),
        }) == admitted(
            match verified {
                Ok(claims) => Ok(claims@),
                Err(e) => Err(e),
            },
        ),
{
    match verified {
        Err(_) => Err(GatewayError::InvalidApiKey),
        Ok(TokenClaims::User(_)) => Err(GatewayError::Forbidden),
        Ok(TokenClaims::ApiKey(claims)) => Ok(claims),
    }
}

/// Whether a credential with these scopes may run commands of a class.
pub fn scopes_permit(scopes: &Vec<String>, class: ScopeClass) -> (r: bool)
    ensures
        r == texts(scopes@).contains(class_name(class)),
{
    let wanted = class.name();
    let mut i: usize = 0;
    while i < scopes.len()
        invariant
            i <= scopes.len(),
            wanted@ == class_name(class),
            forall|j: int| 0 <= j < i ==> texts(scopes@)[j] != class_name(class),
        decreases scopes.len() - i,
    {
        if same_text(scopes[i].as_str(), wanted.as_str()) {
            assert(texts(scopes@)[i as int] == class_name(class));
            return true;
        }
        i += 1;
    }
    false
}

/// Why a request for an instance is refused, if it is. An
/// instance that the registry does not hold, or holds as deleted, is not
/// found. One that belongs to another organization than the credential is
/// forbidden; so is a command of a class that the credential is not
/// scoped for, where a class is asked for.
pub open spec fn refusal(
    claims: ApiKeyClaimsModel,
    descriptor: Option<InstanceDescriptor>,
    required: Option<ScopeClass>,
) -> Option<ErrorModel> {
    match descriptor {
        None => Some(ErrorModel::RedisInstanceNotFound),
        Some(d) => if d.status == InstanceStatus::Deleted {
            Some(ErrorModel::RedisInstanceNotFound)
        } else if d.organization_id@ != claims.organization_id {
            Some(ErrorModel::Forbidden)
        } else if required is Some && !claims.scopes.contains(class_name(required->0)) {
            Some(ErrorModel::Forbidden)
        } else {
            None
        },
    }
}

/// Decides whether a request with the verified claims of an API key may
/// reach the instance that the registry returned for the identifier of
/// the request.
pub fn authorize_instance(
    claims: &ApiKeyClaims,
    descriptor: Option<InstanceDescriptor>,
    required: Option<ScopeClass>,
) -> (r: Result<InstanceDescriptor, GatewayError>)
    ensures
        match refusal(claims@, descriptor, required) {
            Some(e) => r is Err && r->Err_0@ == e,
            None => r == Ok::<InstanceDescriptor, GatewayError>(descriptor->0),
        },
{
    let d = match descriptor {
        None => {
            return Err(GatewayError::RedisInstanceNotFound);
        },
        Some(d) => d,
    };
    if d.status == InstanceStatus::Deleted {
        return Err(GatewayError::RedisInstanceNotFound);
    }
    if !same_text(d.organization_id.as_str(), claims.organization_id.as_str()) {
        return Err(GatewayError::Forbidden);
    }
    if let Some(class) = required {
        if !scopes_permit(&claims.scopes, class) {
            return Err(GatewayError::Forbidden);
        }
    }
    Ok(d)
}

/// A request is let through exactly where the instance is held,
/// is not deleted and belongs to the organization of the credential, and
/// the credential is scoped for the class of the command where one is
/// asked for.
pub proof fn lemma_gate_accepts_iff_same_organization(
    claims: ApiKeyClaimsModel,
    descriptor: Option<InstanceDescriptor>,
    required: Option<ScopeClass>,
)
    ensures
        refusal(claims, descriptor, required) is None <==> (descriptor is Some
            && descriptor->0.status != InstanceStatus::Deleted
            && descriptor->0.organization_id@ == claims.organization_id && (required is Some
            ==> claims.scopes.contains(class_name(required->0)))),
        required is None ==> (refusal(claims, descriptor, required) is None <==> (
            descriptor is Some && descriptor->0.status != InstanceStatus::Deleted
                && descriptor->0.organization_id@ == claims.organization_id)),
{
}

/// What authorization makes of the credential of a request at the second
/// `now`: a request without a credential is unauthenticated, and so is one
/// whose token does not verify; a verified token that is no API key is
/// forbidden.
pub open spec fn authenticated(
    authorization: Option<Seq<char>>,
    query_token: Option<Seq<char>>,
    secret: Seq<u8>,
    now: int,
) -> Result<ApiKeyClaimsModel, ErrorModel> {
    match credential_of(authorization, query_token) {
        None => Err(ErrorModel::MissingApiKey),
        Some(token) => admitted(verified(token, secret, now)),
    }
}

/// The outcome of authentication, as a mathematical value.
pub open spec fn admission_view(r: Result<ApiKeyClaims, GatewayError>) -> Result<
    ApiKeyClaimsModel,
    ErrorModel,
> {
    match r {
        Ok(claims) => Ok(claims@),
        Err(e) => Err(e@),
    }
}

/// Authentication at the second `now`: finds the credential
/// of the request, verifies it and admits the claims of an API key.
pub fn authenticate_at(
    manager: &JwtManager,
    authorization: Option<&str>,
    query_token: Option<&str>,
    now: i64,
) -> (r: Result<ApiKeyClaims, GatewayError>)
    ensures
        admission_view(r) == authenticated(
            optional_text(authorization),
            optional_text(query_token),
            manager.secret(),
            now as int,
        ),
        match credential_of(optional_text(authorization), optional_text(query_token)) {
            Some(token) => !token.contains('.') ==> admission_view(r) == Err::<
                ApiKeyClaimsModel,
                ErrorModel,
            >(ErrorModel::InvalidApiKey),
            None => admission_view(r) == Err::<ApiKeyClaimsModel, ErrorModel>(
                ErrorModel::MissingApiKey,
            ),
        },
{
    let token = match extract_credential(authorization, query_token) {
        Some(token) => token,
        None => {
            return Err(GatewayError::MissingApiKey);
        },
    };
    admit_claims(manager.verify_at(token.as_str(), now))
}

/// Authentication now.
pub fn authenticate(
    manager: &JwtManager,
    authorization: Option<&str>,
    query_token: Option<&str>,
) -> (r: Result<ApiKeyClaims, GatewayError>)
    ensures
        exists|now: int|
            on_the_clock(now) && admission_view(r) == #[trigger] authenticated(
                optional_text(authorization),
                optional_text(query_token),
                manager.secret(),
                now,
            ),
        match credential_of(optional_text(authorization), optional_text(query_token)) {
            Some(token) => !token.contains('.') ==> admission_view(r) == Err::<
                ApiKeyClaimsModel,
                ErrorModel,
            >(ErrorModel::InvalidApiKey),
            None => admission_view(r) == Err::<ApiKeyClaimsModel, ErrorModel>(
                ErrorModel::MissingApiKey,
            ),
        },
{
    let token = match extract_credential(authorization, query_token) {
        Some(token) => token,
        None => {
            assert(admission_view(Err(GatewayError::MissingApiKey)) == authenticated(
                optional_text(authorization),
                optional_text(query_token),
                manager.secret(),
                0,
            ));
            return Err(GatewayError::MissingApiKey);
        },
    };
    let outcome = manager.verify(token.as_str());
    let ghost now = choose|now: int|
        on_the_clock(now) && claims_view(outcome) == #[trigger] verified(
            token@,
            manager.secret(),
            now,
        );
    let r = admit_claims(outcome);
    assert(admission_view(r) == authenticated(
        optional_text(authorization),
        optional_text(query_token),
        manager.secret(),
        now,
    ));
    r
}

/// What the store holds of an API key whose credential is kept as a
/// hash.
#[derive(Debug, Clone, PartialEq, Eq)]
pub struct ApiKeyRecord {
    pub id: String,
    pub organization_id: String,
    pub is_active: Option<bool>,
    pub key_hash: String,
}

/// Whether a credential fits the hash of a record.
pub open spec fn fits_record(record: ApiKeyRecord, credential: Seq<char>) -> bool {
    bcrypt_fits(credential, record.key_hash@) == Some(true)
}

/// The place of the first record whose hash a credential fits.
pub open spec fn first_fitting(records: Seq<ApiKeyRecord>, credential: Seq<char>) -> Option<int>
    decreases records.len(),
{
    if records.len() == 0 {
        None
    } else if first_fitting(records.drop_last(), credential) is Some {
        first_fitting(records.drop_last(), credential)
    } else if fits_record(records.last(), credential) {
        Some(records.len() - 1)
    } else {
        None
    }
}

/// The record of a credential that is kept as a hash: the first record
/// whose hash the credential fits. A credential that fits none is
/// invalid; one whose record is not active is that of an inactive key.
pub open spec fn stored_key(records: Seq<ApiKeyRecord>, credential: Seq<char>) -> Result<
    int,
    ErrorModel,
> {
    match first_fitting(records, credential) {
        None => Err(ErrorModel::InvalidApiKey),
        Some(i) => if records[i].is_active == Some(true) {
            Ok(i)
        } else {
            Err(ErrorModel::InactiveApiKey)
        },
    }
}

/// Finds the record of a credential that is kept as a hash.
pub fn authenticate_stored_key(records: &Vec<ApiKeyRecord>, credential: &str) -> (r: Result<
    usize,
    GatewayError,
>)
    ensures
        (match r {
            Ok(i) => Ok(i as int),
            Err(e) => Err(e@),
        }) == stored_key(records@, credential@),
        r is Ok ==> r->Ok_0 < records.len(),
{
    let mut i: usize = 0;
    assert(records@.take(0) =~= Seq::<ApiKeyRecord>::empty());
    while i < records.len()
        invariant
            i <= records.len(),
            first_fitting(records@.take(i as int), credential@) is None,
        decreases records.len() - i,
    {
        let ghost next = records@.take(i + 1);
        assert(next.drop_last() == records@.take(i as int));
        assert(next.last() == records@[i as int]);
        let fits = match verify_password(credential, records[i].key_hash.as_str()) {
            Ok(fits) => fits,
            Err(_) => false,
        };
        if fits {
            proof {
                lemma_first_fitting_stays(records@, credential@, i + 1);
            }
            return match records[i].is_active {
                Some(true) => Ok(i),
                _ => Err(GatewayError::InactiveApiKey),
            };
        }
        i += 1;
    }
    assert(records@.take(records.len() as int) == records@);
    Err(GatewayError::InvalidApiKey)
}

/// Once a record fits, it is the first fitting record of every longer
/// list.
proof fn lemma_first_fitting_stays(records: Seq<ApiKeyRecord>, credential: Seq<char>, k: int)
    requires
        0 <= k <= records.len(),
        first_fitting(records.take(k), credential) is Some,
    ensures
        first_fitting(records, credential) == first_fitting(records.take(k), credential),
    decreases records.len() - k,
{
    if k < records.len() {
        let longer = records.take(k + 1);
        assert(longer.drop_last() == records.take(k));
        lemma_first_fitting_stays(records, credential, k + 1);
    } else {
        assert(records.take(k) == records);
    }
}

} // verus!
