use crate::errors::AppError;
use crate::text::{has_prefix, joined, owned};
use vstd::prelude::*;
use vstd::string::*;

verus! {

/// Whether a session token grants access or only the right to obtain a new one.
#[derive(Clone, Copy, Debug, PartialEq, Eq, Structural)]
pub enum TokenType {
    Access,
    Refresh,
}

/// What a session token carries: the user's numeric id, the absolute expiry in unix
/// seconds, and the token's type.
#[derive(Clone, Copy, Debug, PartialEq, Eq, Structural)]
pub struct Claims {
    pub sub: u64,
    pub exp: i64,
    pub ty: TokenType,
}

/// The expiry of a token issued at `now` that lives `ttl` seconds.
pub fn session_expiry(now: i64, ttl: i64) -> (r: Result<i64, AppError>)
    ensures
        i64::MIN <= now + ttl <= i64::MAX ==> (r matches Ok(e) && e == now + ttl),
        !(i64::MIN <= now + ttl <= i64::MAX) ==> (r matches Err(e) && e is InternalServerError),
{
    match now.checked_add(ttl) {
        Some(e) => Ok(e),
        None => Err(AppError::InternalServerError(owned("invalid token expiry"))),
    }
}

/// Relies on chrono::Utc::now: the current time in unix seconds, measured from the
/// epoch (chrono panics on a clock set before it), so never negative.
#[verifier::external_body]
fn unix_now() -> (r: i64)
    ensures
        0 <= r,
{
    chrono::Utc::now().timestamp()
}

impl Claims {
    /// The claims of a token for `user_id` issued at `now`, expiring `ttl` seconds later.
    pub fn issue(user_id: u64, now: i64, ttl: i64, ty: TokenType) -> (r: Result<Claims, AppError>)
        ensures
            i64::MIN <= now + ttl <= i64::MAX ==> r == Ok::<Claims, AppError>(
                Claims { sub: user_id, exp: (now + ttl) as i64, ty },
            ),
            !(i64::MIN <= now + ttl <= i64::MAX) ==> (r matches Err(e) && e is InternalServerError),
    {
        let exp = session_expiry(now, ttl)?;
        Ok(Claims { sub: user_id, exp, ty })
    }

    /// The claims of a token for `user_id` issued now, expiring `ttl` seconds later.
    pub fn issue_now(user_id: u64, ttl: i64, ty: TokenType) -> (r: Result<Claims, AppError>)
        ensures
            ttl <= 0 ==> r is Ok,
            r matches Ok(c) ==> c.sub == user_id && c.ty == ty && c.exp >= ttl,
            r matches Err(e) ==> e is InternalServerError,
    {
        Claims::issue(user_id, unix_now(), ttl, ty)
    }

    /// Whether the token has expired at `now`: its expiry lies in the past.
    pub fn is_expired(&self, now: i64) -> (r: bool)
        ensures
            r == (self.exp < now),
    {
        self.exp < now
    }
}

/// The access and refresh claims issued at login at `now` for `user_id`, living
/// `access_ttl` and `refresh_ttl` seconds.
pub fn login_claims(user_id: u64, now: i64, access_ttl: i64, refresh_ttl: i64) -> (r: Result<
    (Claims, Claims),
    AppError,
>)
    ensures
        i64::MIN <= now + access_ttl <= i64::MAX && i64::MIN <= now + refresh_ttl <= i64::MAX
            ==> r == Ok::<(Claims, Claims), AppError>(
            (
                Claims { sub: user_id, exp: (now + access_ttl) as i64, ty: TokenType::Access },
                Claims { sub: user_id, exp: (now + refresh_ttl) as i64, ty: TokenType::Refresh },
            ),
        ),
        !(i64::MIN <= now + access_ttl <= i64::MAX && i64::MIN <= now + refresh_ttl <= i64::MAX)
            ==> (r matches Err(e) && e is InternalServerError),
{
    let access = Claims::issue(user_id, now, access_ttl, TokenType::Access)?;
    let refresh = Claims::issue(user_id, now, refresh_ttl, TokenType::Refresh)?;
    Ok((access, refresh))
}

/// The name a token type travels under in a signed token.
pub open spec fn token_type_text(ty: TokenType) -> Seq<char> {
    match ty {
        TokenType::Access => seq!['A', 'c', 'c', 'e', 's', 's'],
        TokenType::Refresh => seq!['R', 'e', 'f', 'r', 'e', 's', 'h'],
    }
}

fn token_type_str(ty: TokenType) -> (r: &'static str)
    ensures
        r@ == token_type_text(ty),
{
    proof {
        reveal_strlit("Access");
        reveal_strlit("Refresh");
    }
    match ty {
        TokenType::Access => {
            assert("Access"@ =~= token_type_text(ty));
            "Access"
        },
        TokenType::Refresh => {
            assert("Refresh"@ =~= token_type_text(ty));
            "Refresh"
        },
    }
}

/// The HS512-signed token over the claims `{sub, exp, ty}` under `secret`.
pub uninterp spec fn hs512_token(secret: Seq<u8>, sub: u64, exp: i64, ty: Seq<char>) -> Seq<char>;

/// Relies on jsonwebtoken::encode with an HS512 header and an HMAC key: the claims
/// object serialises without fail and HMAC signing cannot fail, so a token always
/// comes back, determined by the secret and the claims.
#[verifier::external_body]
fn sign_hs512(secret: &[u8], sub: u64, exp: i64, ty: &str) -> (r: Option<String>)
    ensures
        r is Some,
        r is Some ==> r->Some_0@ == hs512_token(secret@, sub, exp, ty@),
{
    let mut claims = serde_json::Map::new();
    claims.insert("sub".to_string(), serde_json::Value::from(sub));
    claims.insert("exp".to_string(), serde_json::Value::from(exp));
    claims.insert("ty".to_string(), serde_json::Value::from(ty));
    let header = jsonwebtoken::Header::new(jsonwebtoken::Algorithm::HS512);
    let key = jsonwebtoken::EncodingKey::from_secret(secret);
    jsonwebtoken::encode(&header, &serde_json::Value::Object(claims), &key).ok()
}

/// The session token carrying `claims`, signed with `secret`.
pub fn sign_claims(claims: &Claims, secret: &[u8]) -> (r: String)
    ensures
        r@ == hs512_token(secret@, claims.sub, claims.exp, token_type_text(claims.ty)),
{
    match sign_hs512(secret, claims.sub, claims.exp, token_type_str(claims.ty)) {
        Some(t) => t,
        None => String::new(),
    }
}

/// A session token for `user_id` issued now, living `ttl` seconds, signed with
/// `secret`. Only an expiry past the range of timestamps fails, as an internal error.
pub fn create_jwt(user_id: u64, secret: &[u8], ttl: i64, ty: TokenType) -> (r: Result<String, AppError>)
    ensures
        ttl <= 0 ==> r is Ok,
        r matches Ok(t) ==> exists|exp: i64| exp >= ttl && t@ == hs512_token(secret@, user_id, exp, token_type_text(ty)),
        r matches Err(e) ==> e is InternalServerError,
{
    let claims = Claims::issue_now(user_id, ttl, ty)?;
    let t = sign_claims(&claims, secret);
    assert(t@ == hs512_token(secret@, user_id, claims.exp, token_type_text(ty)));
    Ok(t)
}

/// The scheme prefix of an authorization header: the configured bearer word and a space.
pub open spec fn bearer_prefix(bearer: Seq<char>) -> Seq<char> {
    bearer + seq![' ']
}

/// The token of an authorization header that reads `<bearer> <token>`. A header that
/// does not open with the configured bearer word and a space is an authorization error.
pub fn extract_jwt(header_value: &str, bearer: &str) -> (r: Result<String, AppError>)
    ensures
        ({
            let p = bearer_prefix(bearer@);
            if header_value@.len() >= p.len() && header_value@.take(p.len() as int) == p {
                (r matches Ok(t) && t@ == header_value@.skip(p.len() as int))
            } else {
                (r matches Err(AppError::AuthorizationError(m)) && m@ == "Error extracting jwt"@)
            }
        }),
{
    proof {
        reveal_strlit(" ");
    }
    let prefix = joined(owned(bearer), " ");
    assert(prefix@ =~= bearer_prefix(bearer@));
    if has_prefix(header_value, prefix.as_str()) {
        let n = header_value.unicode_len();
        let m = prefix.as_str().unicode_len();
        Ok(owned(header_value.substring_char(m, n)))
    } else {
        Err(AppError::AuthorizationError(owned("Error extracting jwt")))
    }
}

} // verus!
