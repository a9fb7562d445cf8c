use chrono::{Duration, Utc};
use redisgate::claims::{ApiKeyClaims, Claims, TokenClaims, API_KEY_SECONDS, SESSION_SECONDS};
use redisgate::error::AuthError;
use redisgate::reply::{JsonMember, JsonValue};
use redisgate::token::{
    api_key_claims_to_json, claims_from_json, generate_api_key_jwt, generate_api_key_jwt_at,
    session_claims_to_json, JwtManager,
};
use uuid::Uuid;

fn sample_api_key_claims(exp: i64) -> ApiKeyClaims {
    ApiKeyClaims::issued_at(
        "a1a2a3a4-b1b2-c1c2-d1d2-d3d4d5d6d7d8".to_string(),
        "11111111-2222-3333-4444-555555555555".to_string(),
        "99999999-8888-7777-6666-555555555555".to_string(),
        vec!["read".to_string(), "write".to_string()],
        "a1a2a3a4".to_string(),
        Some(exp),
        1_700_000_000,
    )
}

#[test]
fn test_api_key_claims_creation() {
    let api_key_id = Uuid::new_v4().to_string();
    let user_id = Uuid::new_v4().to_string();
    let organization_id = Uuid::new_v4().to_string();
    let scopes = vec!["read".to_string(), "write".to_string()];
    let key_prefix = "rg_test123".to_string();
    let expires_at = Some(Utc::now() + Duration::days(30));

    let claims = ApiKeyClaims::new(
        api_key_id.clone(),
        user_id.clone(),
        organization_id.clone(),
        scopes.clone(),
        key_prefix.clone(),
        expires_at.map(|at| at.timestamp()),
    );

    assert_eq!(claims.api_key_id, api_key_id);
    assert_eq!(claims.user_id, user_id);
    assert_eq!(claims.organization_id, organization_id);
    assert_eq!(claims.scopes, scopes);
    assert_eq!(claims.key_prefix, key_prefix);
    assert_eq!(claims.exp, expires_at.unwrap().timestamp());
}

#[test]
fn test_jwt_manager_api_key_token_cycle() {
    let secret = "test-secret-key-for-jwt";
    let jwt_manager = JwtManager::new(secret);

    let api_key_id = Uuid::new_v4().to_string();
    let user_id = Uuid::new_v4().to_string();
    let organization_id = Uuid::new_v4().to_string();
    let scopes = vec!["read".to_string()];
    let key_prefix = "rg_test123".to_string();

    let claims = ApiKeyClaims::new(
        api_key_id.clone(),
        user_id.clone(),
        organization_id.clone(),
        scopes.clone(),
        key_prefix.clone(),
        None,
    );

    let token = jwt_manager.create_api_key_token(&claims).unwrap();
    assert!(!token.is_empty());
    assert!(token.contains('.'), "JWT token should contain dots");

    let verified = jwt_manager.verify_api_key_token(&token).unwrap();
    assert_eq!(verified.claims.api_key_id, api_key_id);
    assert_eq!(verified.claims.user_id, user_id);
    assert_eq!(verified.claims.organization_id, organization_id);
    assert_eq!(verified.claims.scopes, scopes);
    assert_eq!(verified.claims.key_prefix, key_prefix);
}

#[test]
fn test_invalid_token_verification() {
    let jwt_manager = JwtManager::new("test-secret");

    let result = jwt_manager.verify_api_key_token("invalid-token");
    assert!(result.is_err());

    let wrong_secret_manager = JwtManager::new("wrong-secret");
    let claims = ApiKeyClaims::new(
        Uuid::new_v4().to_string(),
        Uuid::new_v4().to_string(),
        Uuid::new_v4().to_string(),
        vec!["read".to_string()],
        "rg_test".to_string(),
        None,
    );
    let token = wrong_secret_manager.create_api_key_token(&claims).unwrap();

    let verify_result = jwt_manager.verify_api_key_token(&token);
    assert!(verify_result.is_err());
}

#[test]
fn api_key_expires_a_year_after_issue_by_default() {
    let claims = ApiKeyClaims::issued_at(
        "k".to_string(),
        "u".to_string(),
        "o".to_string(),
        vec![],
        "k".to_string(),
        None,
        1_700_000_000,
    );
    assert_eq!(API_KEY_SECONDS, 31_536_000);
    assert_eq!(claims.iat, 1_700_000_000);
    assert_eq!(claims.exp, 1_731_536_000);
}

#[test]
fn session_expires_a_day_after_issue() {
    let claims = Claims::issued_at("u".to_string(), "a@b.c".to_string(), None, 1_700_000_000);
    assert_eq!(SESSION_SECONDS, 86_400);
    assert_eq!(claims.exp, 1_700_086_400);
    assert_eq!(claims.iat, 1_700_000_000);
    let now = Claims::new("u".to_string(), "a@b.c".to_string(), Some("o".to_string()));
    assert_eq!(now.exp - now.iat, 86_400);
    assert!((now.iat - Utc::now().timestamp()).abs() <= 2);
}

#[test]
fn token_is_a_signed_frame_of_three_parts() {
    let manager = JwtManager::new("secret");
    let claims = sample_api_key_claims(2_000_000_000);
    let token = manager.create_api_key_token(&claims).unwrap();
    assert_eq!(token.split('.').count(), 3);
    assert_ne!(token, "");
    let again = manager.create_api_key_token(&claims).unwrap();
    assert_eq!(token, again);
    let other = JwtManager::new("other").create_api_key_token(&claims).unwrap();
    assert_ne!(token, other);
}

#[test]
fn token_verifies_until_it_expires_and_never_after() {
    let manager = JwtManager::new("secret");
    let claims = sample_api_key_claims(2_000_000_000);
    let token = manager.create_api_key_token(&claims).unwrap();
    assert_eq!(
        manager.verify_at(&token, 1_999_999_999),
        Ok(TokenClaims::ApiKey(claims.clone()))
    );
    assert_eq!(manager.verify_at(&token, 0), Ok(TokenClaims::ApiKey(claims.clone())));
    assert_eq!(manager.verify_at(&token, 2_000_000_000), Err(AuthError::InvalidToken));
    assert_eq!(manager.verify_at(&token, 2_000_000_001), Err(AuthError::InvalidToken));
    assert_eq!(manager.verify_at(&token, i64::MAX), Err(AuthError::InvalidToken));
}

#[test]
fn expired_one_second_ago_does_not_verify() {
    let manager = JwtManager::new("secret");
    let now = Utc::now().timestamp();
    let claims = sample_api_key_claims(now - 1);
    let token = manager.create_api_key_token(&claims).unwrap();
    assert_eq!(manager.verify(&token), Err(AuthError::InvalidToken));
    assert!(manager.verify_api_key_token(&token).is_err());
}

#[test]
fn verify_of_sign_is_the_claims() {
    let manager = JwtManager::new("k");
    let session = Claims::issued_at(
        "user \"one\"".to_string(),
        "a\\b@example.com\n".to_string(),
        Some("org\u{1}\u{7f}é".to_string()),
        5,
    );
    let token = manager.create_token(&session).unwrap();
    assert_eq!(manager.verify_at(&token, 6), Ok(TokenClaims::User(session.clone())));
    let lone = Claims::issued_at("u".to_string(), "e".to_string(), None, -5);
    let token = manager.create_token(&lone).unwrap();
    assert_eq!(manager.verify_at(&token, 0), Ok(TokenClaims::User(lone)));
    let extreme = ApiKeyClaims {
        api_key_id: String::new(),
        user_id: "\t".to_string(),
        organization_id: "o".to_string(),
        scopes: vec![String::new(), "redis:*".to_string()],
        key_prefix: "\u{8}\u{c}\r".to_string(),
        exp: i64::MAX,
        iat: i64::MIN,
    };
    let token = manager.create_api_key_token(&extreme).unwrap();
    assert_eq!(manager.verify_at(&token, 0), Ok(TokenClaims::ApiKey(extreme)));
}

#[test]
fn claims_that_expire_before_1970_verify_before_then() {
    let manager = JwtManager::new("k");
    let early = ApiKeyClaims {
        api_key_id: "k".to_string(),
        user_id: "u".to_string(),
        organization_id: "o".to_string(),
        scopes: vec![],
        key_prefix: "k".to_string(),
        exp: -10,
        iat: -20,
    };
    let token = manager.create_api_key_token(&early).unwrap();
    assert_eq!(manager.verify_at(&token, -11), Ok(TokenClaims::ApiKey(early.clone())));
    assert_eq!(manager.verify_at(&token, -10), Err(AuthError::InvalidToken));
    assert_eq!(manager.verify(&token), Err(AuthError::InvalidToken));
    let session = Claims {
        user_id: "u".to_string(),
        email: "e".to_string(),
        org_id: None,
        exp: i64::MIN + 1,
        iat: i64::MIN,
    };
    let token = manager.create_token(&session).unwrap();
    assert_eq!(manager.verify_at(&token, i64::MIN), Ok(TokenClaims::User(session)));
}

#[test]
fn the_two_shapes_are_not_taken_for_each_other() {
    let manager = JwtManager::new("secret");
    let session = Claims::issued_at("u".to_string(), "a@b.c".to_string(), None, 10);
    let session_token = manager.create_token(&session).unwrap();
    let key = sample_api_key_claims(2_000_000_000);
    let key_token = manager.create_api_key_token(&key).unwrap();
    assert_eq!(
        manager.verify_api_key_token_at(&session_token, 11).map(|d| d.claims),
        Err(AuthError::InvalidToken)
    );
    assert_eq!(
        manager.verify_token_at(&key_token, 11).map(|d| d.claims),
        Err(AuthError::InvalidToken)
    );
    assert_eq!(manager.verify_token_at(&session_token, 11).map(|d| d.claims), Ok(session));
    assert_eq!(manager.verify_api_key_token_at(&key_token, 11).map(|d| d.claims), Ok(key));
}

#[test]
fn tampered_and_malformed_tokens_do_not_verify() {
    let manager = JwtManager::new("secret");
    let token = manager.create_api_key_token(&sample_api_key_claims(2_000_000_000)).unwrap();
    let mut parts: Vec<String> = token.split('.').map(|p| p.to_string()).collect();
    parts[1].push('A');
    assert_eq!(manager.verify_at(&parts.join("."), 0), Err(AuthError::InvalidToken));
    assert_eq!(manager.verify_at("", 0), Err(AuthError::InvalidToken));
    assert_eq!(manager.verify_at("a.b.c", 0), Err(AuthError::InvalidToken));
    assert_eq!(manager.verify_at(&token[..token.len() - 1], 0), Err(AuthError::InvalidToken));
    assert!(manager.verify_token("invalid.token.here").is_err());
}

#[test]
fn payload_of_api_key_claims_has_its_members_in_order() {
    let claims = sample_api_key_claims(7);
    let payload = api_key_claims_to_json(&claims);
    let names: Vec<String> = match &payload {
        JsonValue::Object(members) => members.iter().map(|m| m.name.clone()).collect(),
        _ => panic!("payload is no object"),
    };
    assert_eq!(
        names,
        vec!["api_key_id", "user_id", "organization_id", "scopes", "key_prefix", "exp", "iat"]
    );
    assert_eq!(claims_from_json(&payload), Some(TokenClaims::ApiKey(claims)));
}

#[test]
fn payload_of_session_claims_has_null_for_no_organization() {
    let claims = Claims::issued_at("u".to_string(), "e".to_string(), None, 1);
    let payload = session_claims_to_json(&claims);
    match &payload {
        JsonValue::Object(members) => {
            assert_eq!(members.len(), 5);
            assert_eq!(members[2].name, "org_id");
            assert_eq!(members[2].value, JsonValue::Null);
        }
        _ => panic!("payload is no object"),
    }
    assert_eq!(claims_from_json(&payload), Some(TokenClaims::User(claims)));
}

#[test]
fn payloads_of_other_forms_hold_no_claims() {
    assert_eq!(claims_from_json(&JsonValue::Null), None);
    assert_eq!(claims_from_json(&JsonValue::Object(vec![])), None);
    let mut wrong = match session_claims_to_json(&Claims::issued_at(
        "u".to_string(),
        "e".to_string(),
        None,
        1,
    )) {
        JsonValue::Object(members) => members,
        _ => panic!("payload is no object"),
    };
    wrong[3] = JsonMember { name: "exp".to_string(), value: JsonValue::String("1".to_string()) };
    assert_eq!(claims_from_json(&JsonValue::Object(wrong)), None);
    let mut scopes = match api_key_claims_to_json(&sample_api_key_claims(7)) {
        JsonValue::Object(members) => members,
        _ => panic!("payload is no object"),
    };
    scopes[3] = JsonMember {
        name: "scopes".to_string(),
        value: JsonValue::Array(vec![JsonValue::Number(1)]),
    };
    assert_eq!(claims_from_json(&JsonValue::Object(scopes)), None);
}

#[test]
fn issued_api_key_is_shown_by_the_start_of_its_identifier() {
    let manager = JwtManager::new("secret");
    let id = "a1a2a3a4-b1b2-c1c2-d1d2-d3d4d5d6d7d8".to_string();
    let key = generate_api_key_jwt(
        &manager,
        id.clone(),
        "u".to_string(),
        "o".to_string(),
        vec!["read".to_string()],
        Some(4_000_000_000),
    )
    .unwrap();
    assert_eq!(key.key_prefix, "a1a2a3a4");
    let verified = manager.verify_api_key_token(&key.token).unwrap();
    assert_eq!(verified.claims.api_key_id, id);
    assert_eq!(verified.claims.key_prefix, "a1a2a3a4");
    assert_eq!(verified.claims.exp, 4_000_000_000);
    assert_eq!(verified.claims.scopes, vec!["read".to_string()]);
    let short = generate_api_key_jwt(
        &manager,
        "abc".to_string(),
        "u".to_string(),
        "o".to_string(),
        vec![],
        None,
    )
    .unwrap();
    assert_eq!(short.key_prefix, "abc");
}

#[test]
fn auth_errors_have_their_status_and_message() {
    assert_eq!(AuthError::TokenCreationFailed.status_code(), 500);
    assert_eq!(AuthError::TokenCreationFailed.message(), "Failed to create token");
    assert_eq!(AuthError::InvalidToken.status_code(), 401);
    assert_eq!(AuthError::InvalidToken.message(), "Invalid token");
    assert_eq!(AuthError::TokenExpired.status_code(), 401);
    assert_eq!(AuthError::TokenExpired.message(), "Token expired");
    assert_eq!(AuthError::MissingToken.status_code(), 401);
    assert_eq!(AuthError::MissingToken.message(), "Missing authorization token");
    assert_eq!(AuthError::InvalidCredentials.status_code(), 401);
    assert_eq!(AuthError::InvalidCredentials.message(), "Invalid credentials");
    assert_eq!(AuthError::UserNotFound.status_code(), 401);
    assert_eq!(AuthError::UserNotFound.message(), "User not found");
    assert_eq!(AuthError::UserNotActive.status_code(), 401);
    assert_eq!(AuthError::UserNotActive.message(), "User account is not active");
}

#[test]
fn api_key_issued_at_a_second_carries_its_claims() {
    let manager = JwtManager::new("secret");
    let id = "a1a2a3a4-b1b2-c1c2-d1d2-d3d4d5d6d7d8".to_string();
    let key = generate_api_key_jwt_at(
        &manager,
        id.clone(),
        "u".to_string(),
        "o".to_string(),
        vec!["read".to_string(), "write".to_string()],
        None,
        1_700_000_000,
    )
    .unwrap();
    assert_eq!(key.key_prefix, "a1a2a3a4");
    let expected = ApiKeyClaims {
        api_key_id: id.clone(),
        user_id: "u".to_string(),
        organization_id: "o".to_string(),
        scopes: vec!["read".to_string(), "write".to_string()],
        key_prefix: "a1a2a3a4".to_string(),
        exp: 1_731_536_000,
        iat: 1_700_000_000,
    };
    assert_eq!(key.token, manager.create_api_key_token(&expected).unwrap());
    assert_eq!(
        manager.verify_at(&key.token, 1_731_535_999),
        Ok(TokenClaims::ApiKey(expected.clone()))
    );
    assert_eq!(manager.verify_at(&key.token, 1_731_536_000), Err(AuthError::InvalidToken));
    let timed = generate_api_key_jwt_at(
        &manager,
        id,
        "u".to_string(),
        "o".to_string(),
        vec![],
        Some(5),
        1_700_000_000,
    )
    .unwrap();
    assert_eq!(manager.verify_at(&timed.token, 4).map(|_| ()), Ok(()));
    assert_eq!(manager.verify_at(&timed.token, 5), Err(AuthError::InvalidToken));
    let other = generate_api_key_jwt_at(
        &manager,
        "é".repeat(9),
        "u".to_string(),
        "o".to_string(),
        vec![],
        None,
        0,
    )
    .unwrap();
    assert_eq!(other.key_prefix, "é".repeat(8));
}

#[test]
fn api_key_issued_now_verifies_now() {
    let manager = JwtManager::new("secret");
    let key = generate_api_key_jwt(
        &manager,
        "0123456789".to_string(),
        "u".to_string(),
        "o".to_string(),
        vec!["read".to_string()],
        None,
    )
    .unwrap();
    assert_eq!(key.key_prefix, "01234567");
    let claims = manager.verify_api_key_token(&key.token).unwrap().claims;
    assert_eq!(claims.exp - claims.iat, 31_536_000);
    assert!((claims.iat - Utc::now().timestamp()).abs() <= 2);
}
