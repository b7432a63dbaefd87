use carai::auth::{
    check_admin, handle_stale_sessions, login, logout, refresh_session_by_body,
    refresh_session_by_cookie, revoke_all_sessions, revoke_my_session, revoke_user_session,
};
use carai::claims::{Role, Typ};
use carai::dto::{GetAllUsersQueryDto, PatchReqDto, UserReqDto};
use carai::password::{check_password, hash_password, verify_password};
use carai::session::{Session, SessionStore};
use carai::token::TokenManager;
use carai::user::User;
use carai::user_ops::{get_all_users, handle_patch_updates, register};

const SECRET: &[u8] = b"flow-test-secret";
const NOW: i64 = 1_700_000_000;
const ACCESS_TTL: i64 = 900;
const REFRESH_TTL: i64 = 86400;

fn alice() -> User {
    let hash = hash_password("correct").unwrap();
    User::new(None, "alice@example.com".to_string(), hash, "alice".to_string(), None, NOW)
}

#[test]
fn login_on_empty_store_creates_session() {
    let mut store = SessionStore::new();
    let tm = TokenManager::new(SECRET);
    let user = alice();

    let resp = login(&mut store, &tm, Some(&user), "correct", ACCESS_TTL, REFRESH_TTL, NOW)
        .unwrap();
    assert_eq!(resp.status, 201);
    let body = resp.body;
    assert_ne!(body.session_id, 0, "session id must not be nil");
    assert!(!body.access_token.is_empty());
    assert!(!body.refresh_token.is_empty());
    assert_eq!(body.access_token_expires_at, 900);
    assert_eq!(body.refresh_token_expires_at, 86400);
    assert_eq!(body.user.username, "alice");
    assert_eq!(body.user.email, "alice@example.com");

    let row = store.get_session_by_user_id(user.id).expect("row must exist");
    assert_eq!(row.id, body.session_id);
    assert_eq!(row.refresh_token, body.refresh_token);
    assert!(!row.is_revoked);
}

#[test]
fn second_login_reuses_refresh_token() {
    let mut store = SessionStore::new();
    let tm = TokenManager::new(SECRET);
    let user = alice();

    let first = login(&mut store, &tm, Some(&user), "correct", ACCESS_TTL, REFRESH_TTL, NOW)
        .unwrap()
        .body;
    let second = login(&mut store, &tm, Some(&user), "correct", ACCESS_TTL, REFRESH_TTL, NOW + 5)
        .unwrap()
        .body;

    assert_eq!(second.refresh_token, first.refresh_token, "refresh token must be reused");
    assert_eq!(second.session_id, first.session_id, "no second row may appear");
    assert_ne!(second.access_token, first.access_token, "access token must be fresh");

    let row = store.get_session_by_user_id(user.id).expect("row must exist");
    assert_eq!(row.id, first.session_id);
}

#[test]
fn logout_then_refresh_fails_and_row_is_gone() {
    let mut store = SessionStore::new();
    let tm = TokenManager::new(SECRET);
    let user = alice();

    let body = login(&mut store, &tm, Some(&user), "correct", ACCESS_TTL, REFRESH_TTL, NOW)
        .unwrap()
        .body;
    let refresh_token = body.refresh_token;

    let claims = tm.validate_refresh_token(&refresh_token, NOW + 1).unwrap();
    assert_eq!(claims.sub(), user.id);
    logout(&mut store, &claims);
    assert!(store.get_session_by_user_id(user.id).is_none(), "row must be gone after logout");

    let r = refresh_session_by_body(&mut store, &tm, &refresh_token, ACCESS_TTL, NOW + 2);
    let e = r.unwrap_err();
    assert_eq!(e.status, 401, "old refresh token must fail as authentication");
}

#[test]
fn refresh_with_active_session_mints_access_token() {
    let mut store = SessionStore::new();
    let tm = TokenManager::new(SECRET);
    let user = alice();

    let body = login(&mut store, &tm, Some(&user), "correct", ACCESS_TTL, REFRESH_TTL, NOW)
        .unwrap()
        .body;
    let r = refresh_session_by_body(&mut store, &tm, &body.refresh_token, ACCESS_TTL, NOW + 10)
        .unwrap();
    assert_eq!(r.status, 200, "a refresh against an active session reports ok, not created");
    assert_eq!(r.body.access_token_expires_at, ACCESS_TTL);
    let claims = tm.validate_access_token(&r.body.access_token, NOW + 10).unwrap();
    assert_eq!(claims.sub(), user.id);
    assert_eq!(claims.typ(), Typ::Access);

    // The cookie path takes verified claims and behaves the same way.
    let refresh_claims = tm.validate_refresh_token(&body.refresh_token, NOW + 20).unwrap();
    let via_cookie =
        refresh_session_by_cookie(&mut store, &tm, &refresh_claims, ACCESS_TTL, NOW + 20).unwrap();
    assert_eq!(via_cookie.status, 200);
    assert_eq!(via_cookie.body.access_token_expires_at, ACCESS_TTL);
}

#[test]
fn expired_session_row_is_deleted_on_refresh() {
    let mut store = SessionStore::new();
    let tm = TokenManager::new(SECRET);
    let row = Session::new(77, "stored-refresh-token".to_string(), NOW, 10);
    store.create_session(row);

    let r = handle_stale_sessions(&mut store, &tm, 77, ACCESS_TTL, NOW + 11);
    let e = r.unwrap_err();
    assert_eq!(e.status, 401, "stale session must fail as authentication, not infrastructure");
    assert!(store.get_session_by_user_id(77).is_none(), "stale row must be deleted");
}

#[test]
fn revoked_session_fails_refresh_and_is_purged() {
    let mut store = SessionStore::new();
    let tm = TokenManager::new(SECRET);
    let user = alice();

    let body = login(&mut store, &tm, Some(&user), "correct", ACCESS_TTL, REFRESH_TTL, NOW)
        .unwrap()
        .body;
    let access_claims = tm.validate_access_token(&body.access_token, NOW).unwrap();
    revoke_my_session(&mut store, &access_claims, NOW + 1);
    assert!(store.get_session_by_user_id(user.id).unwrap().is_revoked);

    let r = refresh_session_by_body(&mut store, &tm, &body.refresh_token, ACCESS_TTL, NOW + 2);
    assert_eq!(r.unwrap_err().status, 401);
    assert!(store.get_session_by_user_id(user.id).is_none());
}

#[test]
fn stale_login_rotates_the_session() {
    let mut store = SessionStore::new();
    let tm = TokenManager::new(SECRET);
    let user = alice();

    let first = login(&mut store, &tm, Some(&user), "correct", ACCESS_TTL, 10, NOW).unwrap().body;
    // Past the session's expiry the old row is purged and a new pair minted.
    let second = login(&mut store, &tm, Some(&user), "correct", ACCESS_TTL, REFRESH_TTL, NOW + 60)
        .unwrap()
        .body;
    assert_ne!(second.session_id, first.session_id);
    assert_ne!(second.refresh_token, first.refresh_token);
    let row = store.get_session_by_user_id(user.id).unwrap();
    assert_eq!(row.id, second.session_id);
    assert_eq!(row.expires_at, NOW + 60 + REFRESH_TTL);
}

#[test]
fn login_rejects_bad_credentials() {
    let mut store = SessionStore::new();
    let tm = TokenManager::new(SECRET);
    let user = alice();

    let wrong = login(&mut store, &tm, Some(&user), "incorrect", ACCESS_TTL, REFRESH_TTL, NOW);
    let e = wrong.unwrap_err();
    assert_eq!(e.status, 401);
    assert_eq!(e.message.to_external(), "Invalid credentials");
    assert!(store.get_session_by_user_id(user.id).is_none());

    let unknown = login(&mut store, &tm, None, "correct", ACCESS_TTL, REFRESH_TTL, NOW);
    let e = unknown.unwrap_err();
    assert_eq!(e.status, 401);
    assert_eq!(
        e.message.to_external(),
        "Invalid credentials",
        "an unknown identity and a wrong password must read alike"
    );
}

#[test]
fn admin_gates_hold() {
    let tm = TokenManager::new(SECRET);
    let admin_token = tm.generate_access_token(1, NOW + 900, NOW, vec![Role::Admin]);
    let user_token = tm.generate_access_token(2, NOW + 900, NOW, vec![Role::User]);
    let admin = tm.validate_access_token(&admin_token, NOW).unwrap();
    let plain = tm.validate_access_token(&user_token, NOW).unwrap();

    assert!(check_admin(&admin).is_ok());
    assert_eq!(check_admin(&plain).unwrap_err().status, 403);

    let mut store = SessionStore::new();
    store.create_session(Session::new(9, "tok".to_string(), NOW, 1000));

    assert_eq!(revoke_user_session(&mut store, &plain, 9, NOW).unwrap_err().status, 403);
    assert!(!store.get_session_by_user_id(9).unwrap().is_revoked);

    revoke_user_session(&mut store, &admin, 9, NOW).unwrap();
    assert!(store.get_session_by_user_id(9).unwrap().is_revoked);
}

#[test]
fn revoke_all_sessions_is_admin_gated_and_total() {
    let tm = TokenManager::new(SECRET);
    let admin_token = tm.generate_access_token(1, NOW + 900, NOW, vec![Role::Admin]);
    let admin = tm.validate_access_token(&admin_token, NOW).unwrap();
    let user_token = tm.generate_access_token(2, NOW + 900, NOW, vec![Role::User]);
    let plain = tm.validate_access_token(&user_token, NOW).unwrap();

    let mut store = SessionStore::new();
    store.create_session(Session::new(5, "a".to_string(), NOW, 1000));
    store.create_session(Session::new(6, "b".to_string(), NOW, 1000));

    assert_eq!(revoke_all_sessions(&mut store, &plain, NOW).unwrap_err().status, 403);
    assert!(!store.get_session_by_user_id(5).unwrap().is_revoked);

    revoke_all_sessions(&mut store, &admin, NOW + 1).unwrap();
    for uid in [5u128, 6u128] {
        let row = store.get_session_by_user_id(uid).unwrap();
        assert!(row.is_revoked);
        assert_eq!(row.updated_at, NOW + 1);
    }
}

#[test]
fn register_hashes_and_guards() {
    let dto = UserReqDto {
        username: Some("bob".to_string()),
        email: Some("bob@example.com".to_string()),
        password: "hunter2hunter2".to_string(),
        avatar_url: None,
        github_id: Some(7),
    };
    let user = register(dto, None, NOW).unwrap();
    assert_eq!(user.username, "bob");
    assert_eq!(user.email, "bob@example.com");
    assert!(!user.is_admin);
    assert_eq!(user.github_id, Some(7));
    assert_ne!(user.password_hash, "hunter2hunter2", "the password itself is never stored");
    assert!(check_password("hunter2hunter2", &user.password_hash).unwrap());
    assert!(!verify_password("hunter3hunter3", &user.password_hash).unwrap());

    let conflict = UserReqDto {
        username: Some("bob".to_string()),
        email: None,
        password: "whatever-password".to_string(),
        avatar_url: None,
        github_id: None,
    };
    assert_eq!(register(conflict, Some(&user), NOW).unwrap_err().status, 409);

    let nameless = UserReqDto {
        username: None,
        email: None,
        password: "whatever-password".to_string(),
        avatar_url: None,
        github_id: None,
    };
    assert_eq!(register(nameless, None, NOW).unwrap_err().status, 422);
}

#[test]
fn password_check_rejects_malformed_hash() {
    assert_eq!(check_password("pw", "not-a-phc-hash").unwrap_err().status, 500);
}

#[test]
fn patch_updates_merge_fields() {
    let user = alice();
    let dto = PatchReqDto {
        username: None,
        email: Some("new@example.com".to_string()),
        password: None,
        avatar_url: Some("https://example.com/a.png".to_string()),
        github_id: None,
    };
    let updated = handle_patch_updates(Some(&user), dto, false, false, false).unwrap();
    assert_eq!(updated.username, "alice");
    assert_eq!(updated.email, "new@example.com");
    assert_eq!(updated.avatar_url.as_deref(), Some("https://example.com/a.png"));
    assert_eq!(updated.password_hash, user.password_hash);

    let conflict = PatchReqDto {
        username: Some("taken".to_string()),
        email: None,
        password: None,
        avatar_url: None,
        github_id: None,
    };
    assert_eq!(
        handle_patch_updates(Some(&user), conflict, true, false, false).unwrap_err().status,
        409
    );

    let nobody = PatchReqDto {
        username: None,
        email: None,
        password: None,
        avatar_url: None,
        github_id: None,
    };
    assert_eq!(handle_patch_updates(None, nobody, false, false, false).unwrap_err().status, 404);
}

#[test]
fn patch_rehashes_password() {
    let user = alice();
    let dto = PatchReqDto {
        username: None,
        email: None,
        password: Some("fresh-password".to_string()),
        avatar_url: None,
        github_id: None,
    };
    let updated = handle_patch_updates(Some(&user), dto, false, false, false).unwrap();
    assert!(check_password("fresh-password", &updated.password_hash).unwrap());
    assert!(!check_password("correct", &updated.password_hash).unwrap());
}

#[test]
fn user_listing_is_gated_and_clamped() {
    let tm = TokenManager::new(SECRET);
    let admin_token = tm.generate_access_token(1, NOW + 900, NOW, vec![Role::Admin]);
    let admin = tm.validate_access_token(&admin_token, NOW).unwrap();
    let user_token = tm.generate_access_token(2, NOW + 900, NOW, vec![Role::User]);
    let plain = tm.validate_access_token(&user_token, NOW).unwrap();

    let q = |limit, offset| GetAllUsersQueryDto { limit, offset };
    assert_eq!(get_all_users(&admin, q(None, None)).unwrap(), (50, 0));
    assert_eq!(get_all_users(&admin, q(Some(10), Some(5))).unwrap(), (10, 5));
    assert_eq!(get_all_users(&admin, q(Some(1000), None)).unwrap(), (100, 0));
    assert_eq!(get_all_users(&plain, q(None, None)).unwrap_err().status, 403);
}
