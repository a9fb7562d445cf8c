use redisgate::claims::{ApiKeyClaims, Claims};
use redisgate::error::AuthError;
use redisgate::password::PasswordError;
use redisgate::session::{
    admit_user, authenticate_session, authenticate_session_at, check_login, session_credential,
    CurrentUser, LoginError, UserRecord,
};
use redisgate::token::JwtManager;

const HASH_OF_PASSWORD: &str = "$2y$05$bvIG6Nmid91Mu9RcmmWZfO5HJIMCT8riNW0hEp8f6/FuA2/mHZFpe";

fn user(active: bool, hash: &str) -> UserRecord {
    UserRecord {
        id: "u1".to_string(),
        email: "user@example.com".to_string(),
        username: "user".to_string(),
        password_hash: hash.to_string(),
        is_active: active,
    }
}

fn session(org: Option<&str>) -> Claims {
    Claims::issued_at(
        "u1".to_string(),
        "user@example.com".to_string(),
        org.map(|o| o.to_string()),
        1_000,
    )
}

#[test]
fn session_token_stands_in_the_authorization_header() {
    assert_eq!(session_credential(Some("Bearer abc")), Ok("abc".to_string()));
    assert_eq!(session_credential(Some("Bearer ")), Ok(String::new()));
    assert_eq!(session_credential(None), Err(AuthError::MissingToken));
    assert_eq!(session_credential(Some("abc")), Err(AuthError::MissingToken));
    assert_eq!(session_credential(Some("bearer abc")), Err(AuthError::MissingToken));
    assert_eq!(session_credential(Some("")), Err(AuthError::MissingToken));
}

#[test]
fn session_is_verified_until_it_expires() {
    let manager = JwtManager::new("secret");
    let claims = session(Some("o1"));
    let header = format!("Bearer {}", manager.create_token(&claims).unwrap());
    assert_eq!(authenticate_session_at(&manager, Some(&header), 1_001), Ok(claims.clone()));
    assert_eq!(authenticate_session_at(&manager, Some(&header), 87_399), Ok(claims.clone()));
    assert_eq!(
        authenticate_session_at(&manager, Some(&header), 87_400),
        Err(AuthError::InvalidToken)
    );
    assert_eq!(authenticate_session(&manager, Some(&header)), Err(AuthError::InvalidToken));
    assert_eq!(authenticate_session_at(&manager, None, 1_001), Err(AuthError::MissingToken));
    assert_eq!(authenticate_session(&manager, None), Err(AuthError::MissingToken));
    assert_eq!(
        authenticate_session_at(&manager, Some("Bearer nonsense"), 1_001),
        Err(AuthError::InvalidToken)
    );
    let fresh = Claims::new("u1".to_string(), "user@example.com".to_string(), None);
    let header = format!("Bearer {}", manager.create_token(&fresh).unwrap());
    assert_eq!(authenticate_session(&manager, Some(&header)), Ok(fresh));
}

#[test]
fn api_key_is_no_session() {
    let manager = JwtManager::new("secret");
    let key = ApiKeyClaims::issued_at(
        "k".to_string(),
        "u1".to_string(),
        "o1".to_string(),
        vec![],
        "k".to_string(),
        None,
        1_000,
    );
    let header = format!("Bearer {}", manager.create_api_key_token(&key).unwrap());
    assert_eq!(
        authenticate_session_at(&manager, Some(&header), 1_001),
        Err(AuthError::InvalidToken)
    );
}

#[test]
fn user_of_a_session_must_be_held_and_active() {
    let claims = session(Some("o1"));
    assert_eq!(admit_user(&claims, None), Err(AuthError::UserNotFound));
    assert_eq!(admit_user(&claims, Some(user(false, ""))), Err(AuthError::UserNotActive));
    assert_eq!(
        admit_user(&claims, Some(user(true, ""))),
        Ok(CurrentUser {
            id: "u1".to_string(),
            email: "user@example.com".to_string(),
            username: "user".to_string(),
            org_id: Some("o1".to_string()),
        })
    );
    assert_eq!(admit_user(&session(None), Some(user(true, ""))).unwrap().org_id, None);
}

#[test]
fn login_needs_an_active_user_and_the_password() {
    assert_eq!(check_login(&Some(user(true, HASH_OF_PASSWORD)), "password"), Ok(()));
    assert_eq!(
        check_login(&Some(user(true, HASH_OF_PASSWORD)), "Password"),
        Err(LoginError::Refused(AuthError::InvalidCredentials))
    );
    assert_eq!(
        check_login(&None, "password"),
        Err(LoginError::Refused(AuthError::InvalidCredentials))
    );
    assert_eq!(
        check_login(&Some(user(false, HASH_OF_PASSWORD)), "password"),
        Err(LoginError::Refused(AuthError::UserNotActive))
    );
    assert_eq!(
        check_login(&Some(user(true, "not a hash")), "password"),
        Err(LoginError::Fault(PasswordError::MalformedHash))
    );
    assert_eq!(
        check_login(&Some(user(false, "not a hash")), "password"),
        Err(LoginError::Refused(AuthError::UserNotActive))
    );
    assert_eq!(LoginError::Refused(AuthError::InvalidCredentials).status_code(), 401);
    assert_eq!(LoginError::Fault(PasswordError::MalformedHash).status_code(), 500);
}
