use jsonwebtoken::{decode, encode, Algorithm, DecodingKey, EncodingKey, Header, Validation};
use ppdrive::session::{
    create_jwt, extract_jwt, login_claims, session_expiry, sign_claims, Claims, TokenType,
};
use ppdrive::AppError;

fn sign_by_hand(c: &Claims, secret: &[u8]) -> String {
    let mut m = serde_json::Map::new();
    m.insert("sub".to_string(), serde_json::Value::from(c.sub));
    m.insert("exp".to_string(), serde_json::Value::from(c.exp));
    let ty = match c.ty {
        TokenType::Access => "Access",
        TokenType::Refresh => "Refresh",
    };
    m.insert("ty".to_string(), serde_json::Value::from(ty));
    encode(&Header::new(Algorithm::HS512), &serde_json::Value::Object(m), &EncodingKey::from_secret(secret))
        .unwrap()
}

fn sign(c: &Claims, secret: &[u8]) -> String {
    sign_claims(c, secret)
}

fn check(token: &str, secret: &[u8]) -> bool {
    let mut validation = Validation::new(Algorithm::HS512);
    validation.leeway = 0;
    decode::<serde_json::Value>(token, &DecodingKey::from_secret(secret), &validation).is_ok()
}

#[test]
fn expiry_arithmetic() {
    assert_eq!(session_expiry(1_000, 60).unwrap(), 1_060);
    assert_eq!(session_expiry(1_000, -1).unwrap(), 999);
    assert!(matches!(session_expiry(i64::MAX, 1), Err(AppError::InternalServerError(_))));
    let c = Claims::issue(7, 100, 50, TokenType::Refresh).unwrap();
    assert_eq!(c, Claims { sub: 7, exp: 150, ty: TokenType::Refresh });
    assert!(!c.is_expired(150));
    assert!(c.is_expired(151));
}

#[test]
fn expired_and_foreign_tokens_fail() {
    let secret = b"first secret";
    let live = Claims::issue_now(3, 3600, TokenType::Access).unwrap();
    assert!(check(&sign(&live, secret), secret));
    assert!(!check(&sign(&live, secret), b"other secret"));
    let expired = Claims::issue_now(3, -1, TokenType::Access).unwrap();
    assert!(!check(&sign(&expired, secret), secret));
}

#[test]
fn bearer_extraction() {
    assert_eq!(extract_jwt("Bearer abc.def", "Bearer").unwrap(), "abc.def");
    assert_eq!(extract_jwt("Token x", "Token").unwrap(), "x");
    assert_eq!(extract_jwt("Bearer Bearer x", "Bearer").unwrap(), "Bearer x");
    assert!(matches!(extract_jwt("Bearerabc", "Bearer"), Err(AppError::AuthorizationError(_))));
    assert!(matches!(extract_jwt("Basic abc", "Bearer"), Err(AppError::AuthorizationError(_))));
    assert!(matches!(extract_jwt("", "Bearer"), Err(AppError::AuthorizationError(_))));
}

#[test]
fn error_statuses() {
    assert_eq!(AppError::AuthorizationError("a".into()).status_code(), 401);
    assert_eq!(AppError::PermissionDenied("a".into()).status_code(), 403);
    assert_eq!(AppError::NotFound("a".into()).status_code(), 404);
    assert_eq!(AppError::DatabaseError("a".into()).status_code(), 500);
    assert_eq!(AppError::IOError("disk".into()).message(), "disk");
    assert!(matches!(AppError::from_store_failure(true, "x".into()), AppError::NotFound(_)));
    assert!(matches!(AppError::from_store_failure(false, "x".into()), AppError::DatabaseError(_)));
}

#[test]
fn login_issues_both_tokens() {
    let (access, refresh) = login_claims(9, 1_000, 60, 3_600).unwrap();
    assert_eq!(access, Claims { sub: 9, exp: 1_060, ty: TokenType::Access });
    assert_eq!(refresh, Claims { sub: 9, exp: 4_600, ty: TokenType::Refresh });
    assert!(matches!(login_claims(9, i64::MAX, 0, 1), Err(AppError::InternalServerError(_))));
}

#[test]
fn issue_now_without_lifetime() {
    let c = Claims::issue_now(4, 0, TokenType::Access).unwrap();
    assert_eq!(c.sub, 4);
    assert!(c.exp > 0);
    let expired = Claims::issue_now(4, -1, TokenType::Refresh).unwrap();
    assert!(expired.is_expired(expired.exp + 1));
}

#[test]
fn signed_claims_read_back() {
    let c = Claims { sub: 12, exp: 4_000_000_000, ty: TokenType::Refresh };
    let t = sign_claims(&c, b"k");
    assert_eq!(t, sign_by_hand(&c, b"k"));
    assert_eq!(t.split('.').count(), 3);
    let mut validation = Validation::new(Algorithm::HS512);
    validation.leeway = 0;
    let data = decode::<serde_json::Value>(&t, &DecodingKey::from_secret(b"k"), &validation).unwrap();
    assert_eq!(data.claims["sub"], 12);
    assert_eq!(data.claims["exp"], 4_000_000_000i64);
    assert_eq!(data.claims["ty"], "Refresh");
    assert_ne!(t, sign_claims(&c, b"other"));
}

#[test]
fn create_jwt_expiry_and_secret() {
    let live = create_jwt(5, b"s1", 600, TokenType::Access).unwrap();
    assert!(check(&live, b"s1"));
    assert!(!check(&live, b"s2"));
    let expired = create_jwt(5, b"s1", -1, TokenType::Access).unwrap();
    assert!(!check(&expired, b"s1"));
}

#[test]
fn error_messages() {
    match extract_jwt("Basic x", "Bearer") {
        Err(AppError::AuthorizationError(m)) => assert_eq!(m, "Error extracting jwt"),
        _ => panic!("expected an authorization error"),
    }
}
