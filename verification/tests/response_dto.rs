use carai::config::JwtConfig;
use carai::dto::{process_optional_fields, GetAllUsersResDto, ServiceInfo, TokenInfo, UserResDto};
use carai::response::{AppError, Message, SuccessResponse};
use carai::session::Session;
use carai::user::User;

#[test]
fn message_texts() {
    let internal = Message::Internal("database briefly away".to_string());
    assert_eq!(internal.to_internal(), "database briefly away");
    assert_eq!(
        internal.to_external(),
        "An internal error occurred",
        "internal detail must never reach the client"
    );

    let external = Message::External("Invalid credentials".to_string());
    assert_eq!(external.to_external(), "Invalid credentials");
    assert_eq!(external.to_internal(), "An internal error occurred");
}

#[test]
fn app_error_shapes() {
    let e = AppError::new(401, "Invalid credentials".to_string());
    assert_eq!(e.status, 401);
    let body = e.to_error_response();
    assert_eq!(body.status, 401);
    assert_eq!(body.body, "Invalid credentials");

    let internal = AppError::internal("boom".to_string());
    assert_eq!(internal.status, 500);
    assert_eq!(internal.to_error_response().body, "An internal error occurred");
    assert_eq!(internal.message.to_internal(), "boom");

    let ext = AppError::external("Forbidden".to_string(), 403);
    assert_eq!(ext.status, 403);
}

#[test]
fn success_response_statuses() {
    assert_eq!(SuccessResponse::ok("x").status, 200);
    assert_eq!(SuccessResponse::created("x").status, 201);
    assert_eq!(SuccessResponse::no_content(()).status, 204);
    let custom = SuccessResponse::new(5u8, 207);
    assert_eq!(custom.status, 207);
    assert_eq!(custom.body, 5);
}

#[test]
fn user_res_dto_hides_credentials() {
    let u = User::new(
        Some(3),
        "carol@example.com".to_string(),
        "phc-hash-here".to_string(),
        "carol".to_string(),
        Some("https://example.com/c.png".to_string()),
        10,
    );
    let dto = UserResDto::from(u);
    assert_eq!(dto.username, "carol");
    assert_eq!(dto.email, "carol@example.com");
    assert!(!dto.is_admin);
    assert_eq!(dto.github_id, Some(3));
}

#[test]
fn user_page_maps_in_order() {
    let mk = |name: &str| {
        User::new(None, format!("{}@example.com", name), "h".to_string(), name.to_string(), None, 0)
    };
    let page = GetAllUsersResDto::from_users(vec![mk("a"), mk("b")]);
    assert_eq!(page.users.len(), 2);
    assert_eq!(page.users[0].username, "a");
    assert_eq!(page.users[1].username, "b");
}

#[test]
fn optional_fields_resolution() {
    let r = process_optional_fields(Some("alice".to_string()), None).unwrap();
    assert_eq!(r, ("alice".to_string(), String::new()));
    let r = process_optional_fields(None, Some("a@b.c".to_string())).unwrap();
    assert_eq!(r, (String::new(), "a@b.c".to_string()));
    let e = process_optional_fields(None, None).unwrap_err();
    assert_eq!(e.status, 422);
}

#[test]
fn session_expiry_is_strict() {
    let s = Session::new(1, "t".to_string(), 100, 50);
    assert_eq!(s.expires_at, 150);
    assert!(!s.is_expired(150), "the expiry instant itself is still valid");
    assert!(s.is_expired(151));
    assert_ne!(s.id, 0);
}

#[test]
fn session_ids_are_fresh() {
    let a = Session::new(1, "t".to_string(), 0, 10);
    let b = Session::new(1, "t".to_string(), 0, 10);
    assert_ne!(a.id, b.id);
}

#[test]
fn jwt_config_defaults() {
    let cfg = JwtConfig::default();
    assert_eq!(cfg.access_token_expiration_secs, 900);
    assert_eq!(cfg.refresh_token_expiration_secs, 86400);
    assert!(cfg.secret.is_empty());
}

#[test]
fn reporting_dtos_hold_their_fields() {
    let info = TokenInfo {
        access_token: "a".to_string(),
        refresh_token: "r".to_string(),
        token_type: "Bearer".to_string(),
        expires_in: 900,
    };
    assert_eq!(info.token_type, "Bearer");
    let svc = ServiceInfo {
        name: "carai".to_string(),
        version: "0.1.0".to_string(),
        description: "auth backend".to_string(),
    };
    assert_eq!(svc.name, "carai");
}
