use gallery_api::auth::extractor::{AdminUser, AuthUser};
use gallery_api::auth::jwt::{claims_from_payload, Claims, JwtSecret, Role};
use gallery_api::auth::password::{hash_password, verify_password};
use gallery_api::auth::payload::{claims_to_json, parse_claims};
use gallery_api::error::AppError;

const SECRET: &[u8] = b"0123456789abcdef0123456789abcdef";
const NOW: i64 = 1_700_000_000;

fn sample(role: Role) -> Claims {
    Claims::issued_at(0x0123456789abcdef0011223344556677, "user@test.local".to_string(), role, NOW)
}

#[test]
fn role_strings_roundtrip() {
    assert_eq!(Role::User.as_str(), "User");
    assert_eq!(Role::Admin.as_str(), "Admin");
    assert_eq!(Role::from_db_str("User"), Ok(Role::User));
    assert_eq!(Role::from_db_str("Admin"), Ok(Role::Admin));
    assert_eq!(
        Role::from_db_str("admin"),
        Err(AppError::Internal("unexpected role in DB: admin".to_string()))
    );
}

#[test]
fn claims_expire_a_day_after_issue() {
    let c = sample(Role::User);
    assert_eq!(c.iat, NOW);
    assert_eq!(c.exp, NOW + 86_400);
    let fresh = Claims::new(5, "a@b.c".to_string(), Role::Admin).unwrap();
    assert_eq!(fresh.exp - fresh.iat, 86_400);
    assert_eq!(fresh.sub, 5);
}

#[test]
fn claims_text_has_the_serde_layout() {
    let c = Claims {
        sub: 0x0123456789abcdef0011223344556677,
        email: "a\"b\\c\n@x.y".to_string(),
        role: Role::Admin,
        exp: 100,
        iat: -5,
    };
    assert_eq!(
        claims_to_json(&c),
        "{\"sub\":\"01234567-89ab-cdef-0011-223344556677\",\"email\":\"a\\\"b\\\\c\\n@x.y\",\"role\":\"Admin\",\"exp\":100,\"iat\":-5}"
    );
}

#[test]
fn claims_text_reads_back() {
    for c in [
        sample(Role::User),
        sample(Role::Admin),
        Claims { sub: 0, email: "\u{1}é\t".to_string(), role: Role::User, exp: i64::MIN, iat: i64::MAX },
    ] {
        assert_eq!(parse_claims(&claims_to_json(&c)), Some(c));
    }
    assert_eq!(parse_claims("{}"), None);
    let spaced = claims_to_json(&sample(Role::User)).replace(",", ", ");
    assert_eq!(parse_claims(&spaced), None);
}

#[test]
fn token_decodes_back_to_its_claims() {
    let secret = JwtSecret::from_bytes(SECRET);
    let claims = sample(Role::Admin);
    let token = secret.encode(&claims).unwrap();
    assert_eq!(token.split('.').count(), 3);
    assert_eq!(secret.decode_at(&token, NOW), Ok(claims.clone()));
    assert_eq!(secret.decode_at(&token, NOW + 86_400 + 60), Ok(claims));
}

#[test]
fn expired_token_is_unauthorized() {
    let secret = JwtSecret::from_bytes(SECRET);
    let token = secret.encode(&sample(Role::User)).unwrap();
    assert_eq!(
        secret.decode_at(&token, NOW + 86_400 + 61),
        Err(AppError::Unauthorized("invalid or expired token".to_string()))
    );
}

#[test]
fn token_from_another_secret_is_unauthorized() {
    let token = JwtSecret::from_bytes(SECRET).encode(&sample(Role::User)).unwrap();
    let other = JwtSecret::from_bytes(b"another-secret-another-secret-xx");
    assert_eq!(
        other.decode_at(&token, NOW),
        Err(AppError::Unauthorized("invalid or expired token".to_string()))
    );
    let secret = JwtSecret::from_bytes(SECRET);
    assert!(matches!(secret.decode_at("not-a-jwt", NOW), Err(AppError::Unauthorized(_))));
}

#[test]
fn token_is_a_standard_hs256_jwt() {
    let secret = JwtSecret::from_bytes(SECRET);
    let claims = Claims::new(42, "user@test.local".to_string(), Role::User).unwrap();
    let token = secret.encode(&claims).unwrap();
    let data = jsonwebtoken::decode::<serde_json::Value>(
        &token,
        &jsonwebtoken::DecodingKey::from_secret(SECRET),
        &jsonwebtoken::Validation::default(),
    )
    .unwrap();
    assert_eq!(data.claims["sub"], "00000000-0000-0000-0000-00000000002a");
    assert_eq!(data.claims["email"], "user@test.local");
    assert_eq!(data.claims["role"], "User");
    assert_eq!(data.claims["exp"].as_i64(), Some(claims.exp));
    assert_eq!(secret.decode(&token), Ok(claims));
}

#[test]
fn payload_without_claims_is_refused() {
    let refused = Err(AppError::Unauthorized("invalid or expired token".to_string()));
    assert_eq!(claims_from_payload(None, NOW), refused);
    assert_eq!(claims_from_payload(Some("{\"sub\":1}".to_string()), NOW), refused);
    let c = sample(Role::User);
    assert_eq!(claims_from_payload(Some(claims_to_json(&c)), NOW), Ok(c.clone()));
    let negative = Claims { exp: -1, ..c };
    assert_eq!(claims_from_payload(Some(claims_to_json(&negative)), 0), refused);
}

#[test]
fn secret_text_must_be_long_enough() {
    assert_eq!(
        JwtSecret::from_secret_text(None).err(),
        Some("JWT_SECRET must be set (see .env.example)".to_string())
    );
    assert_eq!(
        JwtSecret::from_secret_text(Some("short".to_string())).err(),
        Some("JWT_SECRET must be at least 32 bytes for HS256".to_string())
    );
    let s = JwtSecret::from_secret_text(Some("0123456789abcdef0123456789abcdef".to_string())).ok().unwrap();
    let token = s.encode(&sample(Role::User)).unwrap();
    assert_eq!(JwtSecret::from_bytes(SECRET).decode_at(&token, NOW), Ok(sample(Role::User)));
}

#[test]
fn password_hash_verifies_only_its_password() {
    let phc = hash_password("correct horse").unwrap();
    assert!(phc.starts_with("$argon2id$v=19$m=19456,t=2,p=1$"));
    assert_ne!(hash_password("correct horse").unwrap(), phc);
    assert_ne!(phc, "correct horse");
    assert_eq!(verify_password("correct horse", &phc), Ok(true));
    assert_eq!(verify_password("wrong-password", &phc), Ok(false));
}

#[test]
fn malformed_stored_hash_is_internal() {
    for stored in ["not-a-phc-string", "hash", "", "$"] {
        match verify_password("anything", stored) {
            Err(AppError::Internal(m)) => assert!(m.starts_with("stored password hash is invalid: ")),
            other => panic!("unexpected {other:?} for {stored:?}"),
        }
    }
}

#[test]
fn missing_or_malformed_header_is_unauthorized() {
    let secret = JwtSecret::from_bytes(SECRET);
    assert_eq!(
        AuthUser::from_header_at(&secret, None, NOW).err(),
        Some(AppError::Unauthorized("missing Authorization header".to_string()))
    );
    assert_eq!(
        AuthUser::from_header_at(&secret, Some("Token abc"), NOW).err(),
        Some(AppError::Unauthorized("expected 'Bearer <token>'".to_string()))
    );
    assert_eq!(
        AuthUser::from_header_at(&secret, Some("Bearer not-a-jwt"), NOW).err(),
        Some(AppError::Unauthorized("invalid or expired token".to_string()))
    );
}

#[test]
fn bearer_token_authenticates() {
    let secret = JwtSecret::from_bytes(SECRET);
    let token = secret.encode(&sample(Role::User)).unwrap();
    let header = format!("Bearer {token}");
    let auth = AuthUser::from_header_at(&secret, Some(&header), NOW).ok().unwrap();
    assert_eq!(auth.claims, sample(Role::User));
    assert_eq!(
        AdminUser::from_header_at(&secret, Some(&header), NOW).err(),
        Some(AppError::Forbidden("admin role required".to_string()))
    );
    let admin_token = secret.encode(&sample(Role::Admin)).unwrap();
    let admin = AdminUser::from_header_at(&secret, Some(&format!("Bearer {admin_token}")), NOW).ok().unwrap();
    assert_eq!(admin.claims.role, Role::Admin);
    assert!(matches!(AdminUser::from_header_at(&secret, None, NOW), Err(AppError::Unauthorized(_))));
}

#[test]
fn email_is_escaped_as_serde_json_does() {
    for email in ["plain@x.y", "q\"uote\\back", "tab\tnl\ncr\r", "\u{0}\u{1f}\u{7f}\u{8}\u{c}", "ünï/cødé ✓"] {
        let c = Claims { sub: 1, email: email.to_string(), role: Role::User, exp: 2, iat: 3 };
        let expected = format!(
            "{{\"sub\":\"00000000-0000-0000-0000-000000000001\",\"email\":{},\"role\":\"User\",\"exp\":2,\"iat\":3}}",
            serde_json::to_string(email).unwrap()
        );
        assert_eq!(claims_to_json(&c), expected);
        assert_eq!(parse_claims(&expected), Some(c));
    }
}

fn payload(text: &str) -> Result<Claims, AppError> {
    claims_from_payload(Some(text.to_string()), NOW)
}

#[test]
fn payload_in_any_json_layout_is_read() {
    let c = payload(
        r#" { "iat" : 3, "role":"User", "exp": 2000000000, "email":"a\u0040b.c",
             "sub":"{01234567-89AB-CDEF-0011-223344556677}", "extra":[1.5,{"x":null}] } "#,
    )
    .unwrap();
    assert_eq!(
        c,
        Claims {
            sub: 0x0123456789abcdef0011223344556677,
            email: "a@b.c".to_string(),
            role: Role::User,
            exp: 2_000_000_000,
            iat: 3,
        }
    );
    let admin = payload(
        r#"{"sub":"0123456789abcdef0011223344556677","email":"","role":{"Admin":null},"exp":2000000000,"iat":-1}"#,
    )
    .unwrap();
    assert_eq!(admin.role, Role::Admin);
    assert_eq!(admin.sub, 0x0123456789abcdef0011223344556677);
}

#[test]
fn payload_claims_must_have_the_claims_shapes() {
    let base = |extra: &str, exp: &str, role: &str| {
        format!(
            r#"{{"sub":"01234567-89ab-cdef-0011-223344556677","email":"e","role":{role},"exp":{exp},"iat":1{extra}}}"#
        )
    };
    assert!(payload(&base("", "2000000000", "\"User\"")).is_ok());
    let refused = Err(AppError::Unauthorized("invalid or expired token".to_string()));
    assert_eq!(payload(&base("", "2e9", "\"User\"")), refused);
    assert_eq!(payload(&base("", "\"2000000000\"", "\"User\"")), refused);
    assert_eq!(payload(&base("", "-5", "\"User\"")), refused);
    assert_eq!(payload(&base("", "2000000000", "\"user\"")), refused);
    assert_eq!(payload(&base("", "2000000000", "{\"User\":1}")), refused);
    assert_eq!(payload(&base(",\"aud\":\"me\"", "2000000000", "\"User\"")), refused);
    assert_eq!(payload(&base(",\"aud\":[]", "2000000000", "\"User\"")), refused);
    assert_eq!(payload(&base(",\"aud\":[\"a\",\"b\"]", "2000000000", "\"User\"")), refused);
    assert!(payload(&base(",\"aud\":[1]", "2000000000", "\"User\"")).is_ok());
    assert!(payload(&base(",\"aud\":null", "2000000000", "\"User\"")).is_ok());
    assert_eq!(payload("{\"sub\":\"not-a-uuid\"}"), refused);
    assert_eq!(payload("not json"), refused);
    assert_eq!(payload("[]"), refused);
}

#[test]
fn foreign_layout_token_is_accepted() {
    let value: serde_json::Value = serde_json::from_str(
        r#"{"role":"Admin","sub":"01234567-89ab-cdef-0011-223344556677","email":"x@y.z","iat":5,"exp":2000000000,"iss":"elsewhere"}"#,
    )
    .unwrap();
    let token = jsonwebtoken::encode(
        &jsonwebtoken::Header::default(),
        &value,
        &jsonwebtoken::EncodingKey::from_secret(SECRET),
    )
    .unwrap();
    let c = JwtSecret::from_bytes(SECRET).decode_at(&token, NOW).unwrap();
    assert_eq!(c.role, Role::Admin);
    assert_eq!(c.email, "x@y.z");
    assert_eq!(c.iat, 5);
}
