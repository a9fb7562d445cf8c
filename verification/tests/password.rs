use redisgate::password::{
    generate_redis_password, hash_password, spell_password, verify_password, PasswordError,
    INSTANCE_PASSWORD_LENGTH,
};

const ALPHABET: &str = "abcdefghijklmnopqrstuvwxyzABCDEFGHIJKLMNOPQRSTUVWXYZ0123456789!@#$%^&*";

#[test]
fn hashed_password_is_verified() {
    let hash = hash_password("correct horse").unwrap();
    assert_ne!(hash, "correct horse");
    assert!(hash.starts_with("$2b$12$"));
    assert_eq!(hash.chars().count(), 60);
    assert_eq!(verify_password("correct horse", &hash), Ok(true));
    assert_eq!(verify_password("wrong horse", &hash), Ok(false));
    assert_eq!(verify_password("", &hash), Ok(false));
}

#[test]
fn hashes_of_one_password_differ_by_their_salt() {
    let first = hash_password("secret").unwrap();
    let second = hash_password("secret").unwrap();
    assert_ne!(first, second);
    assert_eq!(verify_password("secret", &first), Ok(true));
    assert_eq!(verify_password("secret", &second), Ok(true));
}

#[test]
fn every_password_checks_against_its_own_hash() {
    let long = "x".repeat(100);
    for password in ["", "a\u{0}b", "é日本", long.as_str()] {
        let hash = hash_password(password).unwrap();
        assert!(hash.starts_with("$2b$12$"));
        assert_eq!(hash.chars().count(), 60);
        assert_eq!(verify_password(password, &hash), Ok(true));
    }
}

#[test]
fn known_hash_is_verified() {
    let hash = "$2y$05$bvIG6Nmid91Mu9RcmmWZfO5HJIMCT8riNW0hEp8f6/FuA2/mHZFpe";
    assert_eq!(verify_password("password", hash), Ok(true));
    assert_eq!(verify_password("Password", hash), Ok(false));
}

#[test]
fn malformed_hash_is_reported() {
    assert_eq!(verify_password("secret", "not a hash"), Err(PasswordError::MalformedHash));
    assert_eq!(verify_password("secret", ""), Err(PasswordError::MalformedHash));
    assert_eq!(verify_password("secret", "secret"), Err(PasswordError::MalformedHash));
}

#[test]
fn instance_password_has_twenty_four_characters_of_the_alphabet() {
    assert_eq!(INSTANCE_PASSWORD_LENGTH, 24);
    assert_eq!(ALPHABET.chars().count(), 70);
    let mut seen = Vec::new();
    for _ in 0..20 {
        let password = generate_redis_password();
        assert_eq!(password.chars().count(), 24);
        assert!(password.chars().all(|c| ALPHABET.contains(c)));
        seen.push(password);
    }
    seen.sort();
    seen.dedup();
    assert!(seen.len() > 1);
}

#[test]
fn draws_spell_a_password() {
    let alphabet: Vec<char> = ALPHABET.chars().collect();
    assert_eq!(spell_password(&alphabet, &vec![0, 25, 26, 51, 52, 61, 62, 69]), "azAZ09!*");
    assert_eq!(spell_password(&alphabet, &vec![]), "");
    assert_eq!(spell_password(&alphabet, &vec![7, 7, 7]), "hhh");
}
