use gallery_api::artifacts::repo::map_artist_fk_violation;
use gallery_api::artists::repo::{map_referenced_artist_violation, map_tribe_fk_violation};
use gallery_api::auth::jwt::{Claims, JwtSecret, Role};
use gallery_api::auth::password::verify_password;
use gallery_api::error::{require_deleted, AppError, DbError};
use gallery_api::health::{bind_addr_text, status_is_ok, Health, DEFAULT_BIND_ADDR};
use gallery_api::tribes::repo::{map_geojson_parse_error, map_unique_violation};
use gallery_api::users::model::{LoginInput, RegisterInput, User, UserUpdate};
use gallery_api::users::repo::map_unique_violation as map_email_violation;
use gallery_api::users::store::InMemoryUserStore;
use gallery_api::users::routes::{
    check_credentials, guard_user_delete, issue_token, issue_token_at, login_email, plan_user_update,
    prepare_registration, require_self_or_admin,
};

fn claims(sub: u128, role: Role) -> Claims {
    Claims::issued_at(sub, "someone@test.local".to_string(), role, 1_000)
}

fn db(code: Option<&str>, message: &str) -> DbError {
    DbError::Database { code: code.map(|c| c.to_string()), message: message.to_string() }
}

#[test]
fn users_reach_only_their_own_record_unless_admin() {
    assert_eq!(require_self_or_admin(&claims(1, Role::User), 1), Ok(()));
    assert_eq!(
        require_self_or_admin(&claims(1, Role::User), 2),
        Err(AppError::Forbidden("may only access your own user record".to_string()))
    );
    assert_eq!(require_self_or_admin(&claims(1, Role::Admin), 2), Ok(()));
}

#[test]
fn user_cannot_change_role() {
    let input = UserUpdate { email: None, password: None, role: Some(Role::Admin) };
    assert!(matches!(
        plan_user_update(&claims(1, Role::User), 1, &input),
        Err(AppError::Forbidden(m)) if m == "only admins can change role"
    ));
    let patch = plan_user_update(&claims(9, Role::Admin), 1, &input).ok().unwrap();
    assert_eq!(patch.role.as_deref(), Some("Admin"));
    assert_eq!(patch.email, None);
    assert_eq!(patch.password_hash, None);
}

#[test]
fn patch_checks_access_then_input() {
    let bad = UserUpdate { email: Some("nope".into()), password: None, role: None };
    assert!(matches!(plan_user_update(&claims(1, Role::User), 2, &bad), Err(AppError::Forbidden(_))));
    assert_eq!(
        plan_user_update(&claims(1, Role::User), 1, &bad).err(),
        Some(AppError::Validation("email must look like 'name@host.tld'".to_string()))
    );
    let good = UserUpdate { email: Some("  new@example.com ".into()), password: Some("longenough".into()), role: None };
    let patch = plan_user_update(&claims(1, Role::User), 1, &good).ok().unwrap();
    assert_eq!(patch.email.as_deref(), Some("new@example.com"));
    assert_eq!(verify_password("longenough", patch.password_hash.as_deref().unwrap()), Ok(true));
}

#[test]
fn admin_cannot_delete_self() {
    assert_eq!(
        guard_user_delete(&claims(3, Role::Admin), 3),
        Err(AppError::Conflict("admins cannot delete their own account".to_string()))
    );
    assert_eq!(guard_user_delete(&claims(3, Role::Admin), 4), Ok(()));
}

#[test]
fn registration_trims_email_and_hashes_password() {
    let bad = RegisterInput { email: "bob@example.com".into(), password: "short".into() };
    assert_eq!(
        prepare_registration(&bad).err(),
        Some(AppError::Validation("password must be at least 8 characters".to_string()))
    );
    let good = RegisterInput { email: " alice@example.com ".into(), password: "correct horse".into() };
    let account = prepare_registration(&good).ok().unwrap();
    assert_eq!(account.email, "alice@example.com");
    assert_eq!(account.role, "User");
    assert_eq!(verify_password("correct horse", &account.password_hash), Ok(true));
}

#[test]
fn login_refuses_unknown_and_wrong_alike() {
    assert_eq!(
        login_email(&LoginInput { email: " a@b.c ".into(), password: "x".into() }),
        Ok("a@b.c".to_string())
    );
    assert!(matches!(
        login_email(&LoginInput { email: "".into(), password: "x".into() }),
        Err(AppError::Validation(_))
    ));
    let refused = Err(AppError::Unauthorized("invalid credentials".to_string()));
    assert_eq!(check_credentials("longenough", None).map(|u| u.id), refused.clone());
    let phc = gallery_api::auth::password::hash_password("longenough").unwrap();
    let user = User {
        id: 11,
        email: "alice@example.com".into(),
        password_hash: phc,
        role: "User".into(),
        created_at: 0,
        updated_at: 0,
    };
    assert_eq!(check_credentials("wrong-password", Some(user.clone())).map(|u| u.id), refused);
    assert_eq!(check_credentials("longenough", Some(user)).map(|u| u.id), Ok(11));
}

#[test]
fn token_is_issued_for_the_stored_role() {
    let secret = JwtSecret::from_bytes(b"0123456789abcdef0123456789abcdef");
    let mut user = User {
        id: 77,
        email: "admin@test.local".into(),
        password_hash: "x".into(),
        role: "Admin".into(),
        created_at: 0,
        updated_at: 0,
    };
    let token = issue_token(&secret, &user).unwrap();
    let back = secret.decode(&token).unwrap();
    assert_eq!(back.sub, 77);
    assert_eq!(back.email, "admin@test.local");
    assert_eq!(back.role, Role::Admin);
    user.role = "Root".into();
    assert_eq!(
        issue_token(&secret, &user),
        Err(AppError::Internal("unexpected role in DB: Root".to_string()))
    );
}

#[test]
fn errors_map_to_status_and_body() {
    let cases = [
        (AppError::NotFound, 404, "not found"),
        (AppError::Validation("title cannot be empty".into()), 400, "validation failed: title cannot be empty"),
        (AppError::Conflict("email already in use".into()), 409, "conflict: email already in use"),
        (AppError::Unauthorized("missing Authorization header".into()), 401, "unauthorized: missing Authorization header"),
        (AppError::Forbidden("admin role required".into()), 403, "forbidden: admin role required"),
        (AppError::Database(DbError::RowNotFound), 404, "not found"),
        (AppError::Database(DbError::Other("pool timed out".into())), 500, "internal server error"),
        (AppError::Database(db(Some("XX000"), "boom")), 500, "internal server error"),
        (AppError::Internal("argon2 hash failed: x".into()), 500, "internal server error"),
    ];
    for (e, status, body) in cases {
        assert_eq!(e.response_parts(), (status, body.to_string()));
        assert_eq!(e.is_server_error(), status == 500);
    }
    assert_eq!(AppError::Internal("x".into()).message(), "internal error: x");
    assert_eq!(
        AppError::Database(db(Some("23505"), "duplicate key")).message(),
        "database error: error returned from database: duplicate key"
    );
}

#[test]
fn database_refusals_become_client_errors() {
    assert_eq!(
        map_unique_violation(db(Some("23505"), "dup")),
        AppError::Conflict("a tribe with this name already exists".to_string())
    );
    assert_eq!(map_unique_violation(db(Some("23503"), "fk")), AppError::Database(db(Some("23503"), "fk")));
    assert_eq!(map_email_violation(db(Some("23505"), "dup")), AppError::Conflict("email already in use".to_string()));
    assert_eq!(
        map_tribe_fk_violation(db(Some("23503"), "fk")),
        AppError::Validation("tribe_id: tribe not found".to_string())
    );
    assert_eq!(
        map_artist_fk_violation(db(Some("23503"), "fk")),
        AppError::Validation("artist_id: artist not found".to_string())
    );
    assert_eq!(
        map_referenced_artist_violation(db(Some("23503"), "fk")),
        AppError::Conflict("cannot delete artist while artifacts reference them".to_string())
    );
    assert_eq!(map_artist_fk_violation(DbError::RowNotFound), AppError::Database(DbError::RowNotFound));
    assert_eq!(map_tribe_fk_violation(db(None, "x")), AppError::Database(db(None, "x")));
}

#[test]
fn malformed_geojson_is_a_validation_error() {
    assert_eq!(
        map_geojson_parse_error(db(Some("XX000"), "unknown GeoJSON type")),
        AppError::Validation("invalid GeoJSON: unknown GeoJSON type".to_string())
    );
    assert_eq!(
        map_geojson_parse_error(db(None, "could not parse geojson input")),
        AppError::Validation("invalid GeoJSON: could not parse geojson input".to_string())
    );
    assert_eq!(map_geojson_parse_error(db(None, "GEOJSON?")), AppError::Database(db(None, "GEOJSON?")));
    assert_eq!(
        map_geojson_parse_error(db(Some("XX000"), "parse error - invalid geometry")),
        AppError::Validation("invalid GeoJSON: parse error - invalid geometry".to_string())
    );
    assert_eq!(map_geojson_parse_error(db(Some("23505"), "dup")), AppError::Database(db(Some("23505"), "dup")));
    assert_eq!(
        map_geojson_parse_error(DbError::Other("GeoJSON".into())),
        AppError::Database(DbError::Other("GeoJSON".into()))
    );
}

#[test]
fn delete_of_nothing_is_not_found() {
    assert_eq!(require_deleted(0), Err(AppError::NotFound));
    assert_eq!(require_deleted(1), Ok(()));
}

#[test]
fn health_and_bind_address() {
    let h = Health::ok();
    assert_eq!((h.status, h.db), ("ok", "ok"));
    assert_eq!(bind_addr_text(None), DEFAULT_BIND_ADDR);
    assert_eq!(DEFAULT_BIND_ADDR, "127.0.0.1:8080");
    assert_eq!(bind_addr_text(Some("0.0.0.0:8080".into())), "0.0.0.0:8080");
}

#[test]
fn probe_reads_the_status_line() {
    assert!(status_is_ok("HTTP/1.1 200 OK\r\ncontent-length: 0\r\n\r\n"));
    assert!(status_is_ok("HTTP/1.1 200"));
    assert!(status_is_ok("  HTTP/1.1\t200\r\n"));
    assert!(!status_is_ok("HTTP/1.1 500 Internal Server Error\r\n\r\n200"));
    assert!(!status_is_ok("HTTP/1.1 2000 OK"));
    assert!(!status_is_ok("HTTP/1.1\n200 OK"));
    assert!(!status_is_ok(""));
    assert!(!status_is_ok("200"));
}

#[test]
fn register_then_login_against_the_store() {
    let secret = JwtSecret::from_bytes(b"0123456789abcdef0123456789abcdef");
    let mut store = InMemoryUserStore::new();

    let account = prepare_registration(&RegisterInput {
        email: "alice@example.com".into(),
        password: "longenough".into(),
    })
    .ok()
    .unwrap();
    let user = store.create(&account.email, &account.password_hash, &account.role).unwrap();
    let token = issue_token(&secret, &user).unwrap();
    assert_eq!(secret.decode(&token).unwrap().sub, user.id);

    // the same email in another case is taken
    let again = prepare_registration(&RegisterInput {
        email: "ALICE@example.com".into(),
        password: "longenough".into(),
    })
    .ok()
    .unwrap();
    assert!(matches!(
        store.create(&again.email, &again.password_hash, &again.role),
        Err(AppError::Conflict(m)) if m == "email already in use"
    ));

    let email = login_email(&LoginInput { email: " Alice@Example.com ".into(), password: "longenough".into() }).unwrap();
    let found = store.find_by_email(&email).unwrap();
    let logged_in = check_credentials("longenough", found).unwrap();
    assert_eq!(logged_in.id, user.id);
    let found = store.find_by_email("alice@example.com").unwrap();
    assert_eq!(
        check_credentials("wrong-password", found).map(|u| u.id),
        Err(AppError::Unauthorized("invalid credentials".to_string()))
    );

    // a user cannot promote themselves; an admin can
    let claims = secret.decode(&token).unwrap();
    let promote = UserUpdate { email: None, password: None, role: Some(Role::Admin) };
    assert!(matches!(plan_user_update(&claims, user.id, &promote), Err(AppError::Forbidden(_))));
    let admin = Claims::issued_at(999, "root@test.local".into(), Role::Admin, 0);
    let patch = plan_user_update(&admin, user.id, &promote).ok().unwrap();
    let updated = store
        .update(user.id, patch.email.as_deref(), patch.password_hash.as_deref(), patch.role.as_deref())
        .unwrap();
    assert_eq!(updated.role, "Admin");
    assert_eq!(updated.email, "alice@example.com");
}

#[test]
fn token_issued_at_a_given_time() {
    let secret = JwtSecret::from_bytes(b"0123456789abcdef0123456789abcdef");
    let user = User {
        id: 5,
        email: "u@test.local".into(),
        password_hash: "x".into(),
        role: "User".into(),
        created_at: 0,
        updated_at: 0,
    };
    let token = issue_token_at(&secret, &user, 1_000).unwrap();
    let back = secret.decode_at(&token, 1_000).unwrap();
    assert_eq!(back, Claims::issued_at(5, "u@test.local".into(), Role::User, 1_000));
    assert_eq!(back.exp, 1_000 + 86_400);
    assert!(matches!(secret.decode_at(&token, 1_000 + 86_400 + 61), Err(AppError::Unauthorized(_))));
}
