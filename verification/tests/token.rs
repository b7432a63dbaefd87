use carai::claims::{Claims, Role, Typ};
use carai::codec::TokenError;
use carai::token::TokenManager;

const SECRET: &[u8] = b"test-signing-secret";

#[test]
fn access_token_roundtrip() {
    let tm = TokenManager::new(SECRET);
    let now: i64 = 1_700_000_000;
    let token = tm.generate_access_token(42, now + 900, now, vec![Role::User]);
    assert!(!token.is_empty());
    let claims = tm.validate_access_token(&token, now).unwrap();
    assert_eq!(claims.sub(), 42);
    assert_eq!(claims.iat(), now);
    assert_eq!(claims.exp(), now + 900);
    assert_eq!(claims.typ(), Typ::Access);
    assert_eq!(claims.role(), &vec![Role::User]);
    assert_ne!(claims.jti(), 0);
}

#[test]
fn refresh_token_roundtrip() {
    let tm = TokenManager::new(SECRET);
    let now: i64 = 1_700_000_000;
    let token = tm.generate_refresh_token(7, now + 86400, now);
    let claims = tm.validate_refresh_token(&token, now).unwrap();
    assert_eq!(claims.sub(), 7);
    assert_eq!(claims.typ(), Typ::Refresh);
    assert!(claims.role().is_empty());
}

#[test]
fn refresh_token_is_not_an_access_token() {
    let tm = TokenManager::new(SECRET);
    let now: i64 = 1_700_000_000;
    let token = tm.generate_refresh_token(7, now + 86400, now);
    assert_eq!(tm.validate_access_token(&token, now).unwrap_err(), TokenError::TypeMismatch);
}

#[test]
fn access_token_is_not_a_refresh_token() {
    let tm = TokenManager::new(SECRET);
    let now: i64 = 1_700_000_000;
    let token = tm.generate_access_token(7, now + 900, now, vec![Role::User]);
    assert_eq!(tm.validate_refresh_token(&token, now).unwrap_err(), TokenError::TypeMismatch);
}

#[test]
fn expired_token_is_rejected() {
    let tm = TokenManager::new(SECRET);
    let now: i64 = 1_700_000_000;
    let ttl: i64 = 900;
    let token = tm.generate_access_token(42, now + ttl, now, vec![Role::User]);
    assert_eq!(tm.validate_access_token(&token, now + ttl + 1).unwrap_err(), TokenError::Expired);
    // The boundary instant itself is still accepted.
    assert!(tm.validate_access_token(&token, now + ttl).is_ok());
}

#[test]
fn token_used_before_issue_is_rejected() {
    let tm = TokenManager::new(SECRET);
    let now: i64 = 1_700_000_000;
    let token = tm.generate_access_token(42, now + 900, now, vec![Role::User]);
    assert_eq!(tm.validate_access_token(&token, now - 1).unwrap_err(), TokenError::NotYetValid);
}

#[test]
fn wrong_secret_fails_signature_check() {
    let tm = TokenManager::new(SECRET);
    let other = TokenManager::new(b"another-secret-entirely");
    let now: i64 = 1_700_000_000;
    let token = tm.generate_access_token(42, now + 900, now, vec![Role::User]);
    assert_eq!(other.validate_access_token(&token, now).unwrap_err(), TokenError::SignatureInvalid);
}

#[test]
fn tampered_signature_is_rejected() {
    let tm = TokenManager::new(SECRET);
    let now: i64 = 1_700_000_000;
    let token = tm.generate_access_token(42, now + 900, now, vec![Role::User]);
    let mut tampered = token.clone();
    let last = tampered.pop().unwrap();
    tampered.push(if last == 'A' { 'B' } else { 'A' });
    assert_eq!(tm.validate_access_token(&tampered, now).unwrap_err(), TokenError::SignatureInvalid);
}

#[test]
fn garbage_is_malformed() {
    let tm = TokenManager::new(SECRET);
    let now: i64 = 1_700_000_000;
    assert_eq!(tm.validate_access_token("", now).unwrap_err(), TokenError::Malformed);
    assert_eq!(tm.validate_access_token("not a token", now).unwrap_err(), TokenError::Malformed);
    assert_eq!(tm.validate_access_token("hs1.short.sig", now).unwrap_err(), TokenError::Malformed);
    assert_eq!(tm.get_expires_in("garbage"), Err(TokenError::Malformed));
}

#[test]
fn expires_in_reports_whole_lifetime() {
    let tm = TokenManager::new(SECRET);
    let now: i64 = 1_700_000_000;
    let token = tm.generate_access_token(42, now + 900, now, vec![Role::User]);
    assert_eq!(tm.get_expires_in(&token), Ok(900));
    // No expiry check is involved: the report works on a long-dead token too.
    let old = tm.generate_access_token(42, 20, 10, vec![Role::User]);
    assert_eq!(tm.get_expires_in(&old), Ok(10));
}

#[test]
fn distinct_tokens_for_equal_inputs() {
    // Fresh random token ids keep otherwise identical tokens distinct.
    let tm = TokenManager::new(SECRET);
    let now: i64 = 1_700_000_000;
    let a = tm.generate_access_token(42, now + 900, now, vec![Role::User]);
    let b = tm.generate_access_token(42, now + 900, now, vec![Role::User]);
    assert_ne!(a, b);
}

#[test]
fn claims_carry_admin_roles() {
    let tm = TokenManager::new(SECRET);
    let now: i64 = 1_700_000_000;
    let token = tm.generate_access_token(1, now + 900, now, vec![Role::Admin]);
    let claims = tm.validate_access_token(&token, now).unwrap();
    assert_eq!(claims.role(), &vec![Role::Admin]);
}

#[test]
fn claims_constructor_and_lifetime() {
    let c = Claims::new(5, 120, 100, Typ::Access, 9, vec![Role::User]);
    assert_eq!(c.sub(), 5);
    assert_eq!(c.exp(), 120);
    assert_eq!(c.iat(), 100);
    assert_eq!(c.jti(), 9);
    assert_eq!(c.get_expires_in(), 20);
}
