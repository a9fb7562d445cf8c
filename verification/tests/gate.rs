use redisgate::claims::{ApiKeyClaims, Claims, TokenClaims};
use redisgate::command::ScopeClass;
use redisgate::error::{AuthError, GatewayError};
use redisgate::gate::{
    admit_claims, authenticate, authenticate_at, authenticate_stored_key, authorize_instance,
    credential_handle, extract_credential, scopes_permit, ApiKeyRecord, EndpointHint,
    InstanceDescriptor, InstanceRecord, InstanceStatus,
};
use redisgate::token::JwtManager;

const ORG_A: &str = "aaaaaaaa-0000-0000-0000-000000000000";
const ORG_B: &str = "bbbbbbbb-0000-0000-0000-000000000000";
const INSTANCE: &str = "11111111-2222-3333-4444-555555555555";

fn claims_of(organization: &str, scopes: &[&str], exp: i64) -> ApiKeyClaims {
    ApiKeyClaims::issued_at(
        "a1a2a3a4-b1b2-c1c2-d1d2-d3d4d5d6d7d8".to_string(),
        "99999999-2222-3333-4444-555555555555".to_string(),
        organization.to_string(),
        scopes.iter().map(|s| s.to_string()).collect(),
        "a1a2a3a4".to_string(),
        Some(exp),
        1_000,
    )
}

fn descriptor(organization: &str, status: InstanceStatus) -> InstanceDescriptor {
    InstanceDescriptor {
        instance_id: INSTANCE.to_string(),
        organization_id: organization.to_string(),
        slug: "cache".to_string(),
        endpoint_hint: EndpointHint::Service {
            name: "redis-cache-service".to_string(),
            namespace: "redis-a".to_string(),
        },
        auth_secret_ref: None,
        status,
    }
}

fn not_found() -> GatewayError {
    GatewayError::RedisInstanceNotFound
}

#[test]
fn credential_comes_from_the_header_or_the_query() {
    assert_eq!(extract_credential(None, None), None);
    assert_eq!(extract_credential(Some("Bearer abc"), None), Some("abc".to_string()));
    assert_eq!(extract_credential(None, Some("q")), Some("q".to_string()));
    assert_eq!(extract_credential(Some("Bearer "), None), Some(String::new()));
    assert_eq!(extract_credential(Some("Bearer a b"), None), Some("a b".to_string()));
}

#[test]
fn header_beats_the_query_parameter() {
    assert_eq!(extract_credential(Some("Bearer h"), Some("q")), Some("h".to_string()));
}

#[test]
fn header_of_another_scheme_leaves_the_query_parameter() {
    assert_eq!(extract_credential(Some("Basic h"), Some("q")), Some("q".to_string()));
    assert_eq!(extract_credential(Some("bearer h"), Some("q")), Some("q".to_string()));
    assert_eq!(extract_credential(Some("Bearer"), Some("q")), Some("q".to_string()));
    assert_eq!(extract_credential(Some("Basic h"), None), None);
    assert_eq!(extract_credential(Some(""), None), None);
}

#[test]
fn credential_is_shown_by_its_first_eight_characters() {
    assert_eq!(credential_handle("abcdefghijkl"), "abcdefgh");
    assert_eq!(credential_handle("abcdefgh"), "abcdefgh");
    assert_eq!(credential_handle("abc"), "abc");
    assert_eq!(credential_handle(""), "");
    assert_eq!(credential_handle("ééééééééé"), "éééééééé");
}

#[test]
fn only_the_claims_of_an_api_key_are_admitted() {
    let key = claims_of(ORG_A, &["read"], 2_000);
    assert_eq!(admit_claims(Ok(TokenClaims::ApiKey(key.clone()))), Ok(key));
    let session = Claims::issued_at("u".to_string(), "a@b.c".to_string(), None, 1);
    assert_eq!(admit_claims(Ok(TokenClaims::User(session))), Err(GatewayError::Forbidden));
    assert_eq!(admit_claims(Err(AuthError::InvalidToken)), Err(GatewayError::InvalidApiKey));
    assert_eq!(admit_claims(Err(AuthError::TokenExpired)), Err(GatewayError::InvalidApiKey));
}

#[test]
fn request_without_credential_is_unauthenticated() {
    let manager = JwtManager::new("secret");
    assert_eq!(authenticate_at(&manager, None, None, 0), Err(GatewayError::MissingApiKey));
    assert_eq!(authenticate(&manager, None, None), Err(GatewayError::MissingApiKey));
    assert_eq!(
        authenticate_at(&manager, Some("Basic abc"), None, 0),
        Err(GatewayError::MissingApiKey)
    );
    assert_eq!(
        authenticate_at(&manager, Some("Bearer nonsense"), None, 0),
        Err(GatewayError::InvalidApiKey)
    );
    assert_eq!(
        authenticate(&manager, None, Some("invalid-token")),
        Err(GatewayError::InvalidApiKey)
    );
    assert_eq!(GatewayError::MissingApiKey.message(), "Missing API key");
    assert_eq!(GatewayError::InvalidApiKey.message(), "Invalid API key");
}

#[test]
fn valid_api_key_token_is_authenticated_from_header_and_query() {
    let manager = JwtManager::new("secret");
    let key = claims_of(ORG_A, &["read"], 2_000);
    let token = manager.create_api_key_token(&key).unwrap();
    let header = format!("Bearer {}", token);
    assert_eq!(authenticate_at(&manager, Some(&header), None, 1_999), Ok(key.clone()));
    assert_eq!(authenticate_at(&manager, None, Some(&token), 1_999), Ok(key.clone()));
    assert_eq!(
        authenticate_at(&manager, Some(&header), Some("nonsense"), 1_999),
        Ok(key.clone())
    );
    assert_eq!(
        authenticate_at(&manager, Some("Bearer nonsense"), Some(&token), 1_999),
        Err(GatewayError::InvalidApiKey)
    );
}

#[test]
fn expired_token_is_unauthenticated_whatever_the_instance() {
    let manager = JwtManager::new("secret");
    let key = claims_of(ORG_A, &["read"], 2_000);
    let token = manager.create_api_key_token(&key).unwrap();
    let header = format!("Bearer {}", token);
    assert_eq!(
        authenticate_at(&manager, Some(&header), None, 2_001),
        Err(GatewayError::InvalidApiKey)
    );
    assert_eq!(
        authenticate_at(&manager, Some(&header), None, 2_000),
        Err(GatewayError::InvalidApiKey)
    );
    assert_eq!(authenticate(&manager, Some(&header), None), Err(GatewayError::InvalidApiKey));
    assert_eq!(GatewayError::InvalidApiKey.status_code(), 401);
}

#[test]
fn session_token_is_forbidden_at_the_command_routes() {
    let manager = JwtManager::new("secret");
    let session = Claims::issued_at("u".to_string(), "a@b.c".to_string(), None, 1_000);
    let token = manager.create_token(&session).unwrap();
    assert_eq!(
        authenticate_at(&manager, None, Some(&token), 1_001),
        Err(GatewayError::Forbidden)
    );
}

#[test]
fn token_of_another_secret_is_unauthenticated() {
    let token = JwtManager::new("other")
        .create_api_key_token(&claims_of(ORG_A, &["read"], 2_000))
        .unwrap();
    assert_eq!(
        authenticate_at(&JwtManager::new("secret"), None, Some(&token), 0),
        Err(GatewayError::InvalidApiKey)
    );
}

#[test]
fn instance_of_the_same_organization_is_let_through() {
    let claims = claims_of(ORG_A, &["read"], 2_000);
    let d = descriptor(ORG_A, InstanceStatus::Running);
    assert_eq!(authorize_instance(&claims, Some(d.clone()), None), Ok(d.clone()));
    for status in [InstanceStatus::Creating, InstanceStatus::Failed] {
        let d = descriptor(ORG_A, status);
        assert_eq!(authorize_instance(&claims, Some(d.clone()), None), Ok(d));
    }
}

#[test]
fn instance_of_another_organization_is_forbidden() {
    let claims = claims_of(ORG_A, &["read", "write", "admin"], 2_000);
    let d = descriptor(ORG_B, InstanceStatus::Running);
    let refused = authorize_instance(&claims, Some(d), None);
    assert_eq!(refused, Err(GatewayError::Forbidden));
    assert_eq!(refused.unwrap_err().status_code(), 403);
}

#[test]
fn missing_or_deleted_instance_is_not_found() {
    let claims = claims_of(ORG_A, &["read"], 2_000);
    assert_eq!(authorize_instance(&claims, None, None), Err(not_found()));
    let deleted = descriptor(ORG_A, InstanceStatus::Deleted);
    assert_eq!(authorize_instance(&claims, Some(deleted), None), Err(not_found()));
    let foreign = descriptor(ORG_B, InstanceStatus::Deleted);
    assert_eq!(authorize_instance(&claims, Some(foreign), None), Err(not_found()));
    assert_eq!(not_found().status_code(), 404);
}

#[test]
fn command_class_must_be_among_the_scopes_where_asked_for() {
    let reader = claims_of(ORG_A, &["read"], 2_000);
    let d = descriptor(ORG_A, InstanceStatus::Running);
    assert_eq!(
        authorize_instance(&reader, Some(d.clone()), Some(ScopeClass::Read)),
        Ok(d.clone())
    );
    assert_eq!(
        authorize_instance(&reader, Some(d.clone()), Some(ScopeClass::Write)),
        Err(GatewayError::Forbidden)
    );
    assert_eq!(
        authorize_instance(&reader, Some(d.clone()), Some(ScopeClass::Admin)),
        Err(GatewayError::Forbidden)
    );
    let none = claims_of(ORG_A, &[], 2_000);
    assert_eq!(
        authorize_instance(&none, Some(d.clone()), Some(ScopeClass::Read)),
        Err(GatewayError::Forbidden)
    );
    assert_eq!(authorize_instance(&none, Some(d.clone()), None), Ok(d));
}

#[test]
fn scopes_permit_the_classes_they_name() {
    let scopes = vec!["redis:*".to_string(), "write".to_string()];
    assert!(scopes_permit(&scopes, ScopeClass::Write));
    assert!(!scopes_permit(&scopes, ScopeClass::Read));
    assert!(!scopes_permit(&scopes, ScopeClass::Admin));
    assert!(!scopes_permit(&vec![], ScopeClass::Read));
    assert!(scopes_permit(&vec!["admin".to_string()], ScopeClass::Admin));
    assert!(!scopes_permit(&vec!["Read".to_string()], ScopeClass::Read));
}

#[test]
fn status_of_an_instance_follows_its_record() {
    assert_eq!(InstanceStatus::from_record(Some("running"), false), InstanceStatus::Running);
    assert_eq!(InstanceStatus::from_record(Some("failed"), false), InstanceStatus::Failed);
    assert_eq!(InstanceStatus::from_record(Some("deleted"), false), InstanceStatus::Deleted);
    assert_eq!(InstanceStatus::from_record(Some("creating"), false), InstanceStatus::Creating);
    assert_eq!(InstanceStatus::from_record(Some("pending"), false), InstanceStatus::Creating);
    assert_eq!(InstanceStatus::from_record(None, false), InstanceStatus::Creating);
    assert_eq!(InstanceStatus::from_record(Some("running"), true), InstanceStatus::Deleted);
    assert_eq!(InstanceStatus::from_record(None, true), InstanceStatus::Deleted);
}

#[test]
fn stored_key_is_found_by_the_hash_that_its_credential_fits() {
    let hash_of_password = "$2y$05$bvIG6Nmid91Mu9RcmmWZfO5HJIMCT8riNW0hEp8f6/FuA2/mHZFpe";
    let record = |id: &str, active: Option<bool>, hash: &str| ApiKeyRecord {
        id: id.to_string(),
        organization_id: ORG_A.to_string(),
        is_active: active,
        key_hash: hash.to_string(),
    };
    let records = vec![
        record("malformed", Some(true), "not a hash"),
        record("other", Some(true), "$2y$05$6bNw2HLQYeqHYyBfLMsv/OiwqTymGIGzFsA4hOTWebfehXHNprcAS"),
        record("first", Some(true), hash_of_password),
        record("second", Some(true), hash_of_password),
    ];
    assert_eq!(authenticate_stored_key(&records, "password"), Ok(2));
    assert_eq!(
        authenticate_stored_key(&records, "Password"),
        Err(GatewayError::InvalidApiKey)
    );
    assert_eq!(authenticate_stored_key(&vec![], "password"), Err(GatewayError::InvalidApiKey));
    let inactive = vec![
        record("off", Some(false), hash_of_password),
        record("on", Some(true), hash_of_password),
    ];
    assert_eq!(
        authenticate_stored_key(&inactive, "password"),
        Err(GatewayError::InactiveApiKey)
    );
    let unknown = vec![record("unset", None, hash_of_password)];
    assert_eq!(authenticate_stored_key(&unknown, "password"), Err(GatewayError::InactiveApiKey));
    assert_eq!(GatewayError::InactiveApiKey.message(), "API key is not active");
    assert_eq!(GatewayError::InactiveApiKey.status_code(), 401);
}

fn record() -> InstanceRecord {
    InstanceRecord {
        id: INSTANCE.to_string(),
        organization_id: ORG_A.to_string(),
        slug: "cache".to_string(),
        namespace: Some("ns".to_string()),
        service_name: Some("redis-cache-service".to_string()),
        domain: Some("cache.example".to_string()),
        port: Some(6380),
        password_hash: Some("$2b$12$hash".to_string()),
        status: Some("running".to_string()),
        deleted: false,
    }
}

#[test]
fn descriptor_of_a_record_names_its_service_and_secret() {
    assert_eq!(
        InstanceDescriptor::from_record(record()),
        InstanceDescriptor {
            instance_id: INSTANCE.to_string(),
            organization_id: ORG_A.to_string(),
            slug: "cache".to_string(),
            endpoint_hint: EndpointHint::Service {
                name: "redis-cache-service".to_string(),
                namespace: "ns".to_string(),
            },
            auth_secret_ref: Some("redis-cache-secret".to_string()),
            status: InstanceStatus::Running,
        }
    );
}

#[test]
fn descriptor_of_a_record_without_service_points_at_its_domain() {
    let mut direct = record();
    direct.service_name = None;
    direct.password_hash = None;
    direct.deleted = true;
    let descriptor = InstanceDescriptor::from_record(direct);
    assert_eq!(
        descriptor.endpoint_hint,
        EndpointHint::Direct { host: "cache.example".to_string(), port: 6380 }
    );
    assert_eq!(descriptor.auth_secret_ref, None);
    assert_eq!(descriptor.status, InstanceStatus::Deleted);
    let mut bare = record();
    bare.namespace = None;
    bare.domain = None;
    bare.port = None;
    bare.status = None;
    let descriptor = InstanceDescriptor::from_record(bare);
    assert_eq!(
        descriptor.endpoint_hint,
        EndpointHint::Direct { host: "localhost".to_string(), port: 6379 }
    );
    assert_eq!(descriptor.status, InstanceStatus::Creating);
    for (port, expected) in [(0, 0u16), (65535, 65535), (65536, 6379), (-1, 6379)] {
        let mut odd = record();
        odd.service_name = None;
        odd.port = Some(port);
        assert_eq!(
            InstanceDescriptor::from_record(odd).endpoint_hint,
            EndpointHint::Direct { host: "cache.example".to_string(), port: expected }
        );
    }
}
