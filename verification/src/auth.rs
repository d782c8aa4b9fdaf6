use argon2::password_hash::rand_core::OsRng;
use argon2::password_hash::SaltString;
use argon2::{Argon2, PasswordHash, PasswordHasher, PasswordVerifier};
use jsonwebtoken::{decode, encode, DecodingKey, EncodingKey, Header, Validation};
use serde_json::Value;
use std::collections::HashMap;
use uuid::Uuid;
use vstd::prelude::*;
use vstd::string::StrSliceExecFns;

use crate::text::str_eq;
use crate::trading::current_time_millis;

verus! {

/// Why an authentication step failed, as the service answers it.
#[derive(Debug, Clone, PartialEq, Eq)]
pub enum AuthError {
    /// A fault of the service itself (such as a stored hash it cannot read).
    Internal(String),
    /// The credentials are refused.
    Unauthorized(String),
}

/// The stored text is a password hash in PHC string format that argon2 can read.
pub uninterp spec fn password_hash_parses(hash: Seq<char>) -> bool;

/// Argon2 accepts `password` against the readable stored hash `hash`.
pub uninterp spec fn password_matches(password: Seq<char>, hash: Seq<char>) -> bool;

/// A login with `password` is accepted against the stored text `hash`: the text is a readable
/// password hash and the password matches it.
pub open spec fn login_accepts(password: Seq<char>, hash: Seq<char>) -> bool {
    password_hash_parses(hash) && password_matches(password, hash)
}

/// Wrapper: reads a stored password hash.
/// Trusted: calls `argon2::PasswordHash::new`, a parse of the PHC string that depends on the
/// text alone; the result is `Ok` exactly when it parses, and the error message quotes the
/// parser's error.
#[verifier::external_body]
fn parse_password_hash(hash: &str) -> (r: Result<(), String>)
    ensures
        r is Ok == password_hash_parses(hash@),
{
    match PasswordHash::new(hash) {
        Ok(_) => Ok(()),
        Err(e) => Err(format!("Password hash parse error: {}", e)),
    }
}

/// Wrapper: checks a password against a readable stored hash.
/// Trusted: calls `argon2::Argon2::default().verify_password` on the parsed hash; argon2
/// recomputes the hash with the salt and parameters stored in it, so the answer depends on the
/// password and the stored text alone.
#[verifier::external_body]
fn verify_password_hash(password: &str, hash: &str) -> (r: bool)
    requires
        password_hash_parses(hash@),
    ensures
        r == password_matches(password@, hash@),
{
    match PasswordHash::new(hash) {
        Ok(parsed) => Argon2::default().verify_password(password.as_bytes(), &parsed).is_ok(),
        Err(_) => false,
    }
}

/// Wrapper: hashes a password with Argon2id (default parameters) and a fresh random salt.
/// Trusted: calls `argon2::Argon2::default().hash_password` with a salt from
/// `SaltString::generate(OsRng)` and renders the hash as a PHC string. The salt is random, so
/// the text itself is not stated; what argon2 documents of it is (its usage example): the text
/// parses with `PasswordHash::new` and the same password verifies against it.
#[verifier::external_body]
fn hash_with_fresh_salt(password: &str) -> (r: Result<String, String>)
    ensures
        r matches Ok(h) ==> login_accepts(password@, h@),
{
    let salt = SaltString::generate(&mut OsRng);
    match Argon2::default().hash_password(password.as_bytes(), &salt) {
        Ok(h) => Ok(h.to_string()),
        Err(e) => Err(format!("Password hashing failed: {}", e)),
    }
}

/// Hashes a new account's password (Argon2id with a fresh random salt); a hashing failure is a
/// fault of the service. A login with the same password is accepted against the hash returned.
pub fn new_password_hash(password: &str) -> (r: Result<String, AuthError>)
    ensures
        r matches Err(e) ==> e is Internal,
        r matches Ok(h) ==> login_accepts(password@, h@),
{
    match hash_with_fresh_salt(password) {
        Ok(h) => Ok(h),
        Err(m) => Err(AuthError::Internal(m)),
    }
}

/// Checks a login password against the account's stored hash: a stored hash that cannot be read
/// is a fault of the service; a password that does not match is refused as invalid credentials.
pub fn check_password(password: &str, stored_hash: &str) -> (r: Result<(), AuthError>)
    ensures
        r is Ok <==> login_accepts(password@, stored_hash@),
        !password_hash_parses(stored_hash@) <==> (r matches Err(e) && e is Internal),
        password_hash_parses(stored_hash@) ==> match r {
            Ok(()) => password_matches(password@, stored_hash@),
            Err(AuthError::Unauthorized(m)) => !password_matches(password@, stored_hash@) && m@
                == "Invalid credentials"@,
            Err(AuthError::Internal(_)) => false,
        },
{
    match parse_password_hash(stored_hash) {
        Err(m) => {
            return Err(AuthError::Internal(m));
        },
        Ok(()) => {},
    }
    if verify_password_hash(password, stored_hash) {
        Ok(())
    } else {
        proof {
            reveal_strlit("Invalid credentials");
        }
        Err(AuthError::Unauthorized("Invalid credentials".to_owned()))
    }
}

/// An `Authorization` header that starts with `Bearer `.
pub open spec fn bearer_header(header: Seq<char>) -> bool {
    header.len() >= 7 && header.take(7) == "Bearer "@
}

/// The token of an `Authorization` header: what follows `Bearer `, when the header starts so.
pub fn bearer_token(header: &str) -> (r: Option<&str>)
    ensures
        match r {
            Some(t) => bearer_header(header@) && t@ == header@.skip(7),
            None => !bearer_header(header@),
        },
{
    let prefix = "Bearer ";
    proof {
        reveal_strlit("Bearer ");
    }
    let n = header.unicode_len();
    if n < 7 {
        return None;
    }
    let mut i: usize = 0;
    while i < 7
        invariant
            n == header@.len(),
            n >= 7,
            i <= 7,
            prefix@ == "Bearer "@,
            prefix@.len() == 7,
            forall|j: int| 0 <= j < i ==> header@[j] == prefix@[j],
        decreases 7 - i,
    {
        if header.get_char(i) != prefix.get_char(i) {
            proof {
                assert(header@.take(7)[i as int] != prefix@[i as int]);
            }
            return None;
        }
        i = i + 1;
    }
    assert(header@.take(7) =~= prefix@);
    Some(header.substring_char(7, n))
}

/// A valid token is accepted only while it is the session stored for its account.
pub fn check_session(stored: Option<&str>, token: &str) -> (r: Result<(), String>)
    ensures
        r is Ok <==> (stored matches Some(s) && s@ == token@),
        r matches Err(e) ==> e@ == "Session expired"@,
{
    match stored {
        Some(s) => {
            if str_eq(s, token) {
                return Ok(());
            }
        },
        None => {},
    }
    Err("Session expired".to_owned())
}

/// The claims of a session token: the account it was issued to, the account's tier, and when it
/// expires (seconds since the Unix epoch).
#[derive(Debug, Clone, PartialEq, Eq)]
pub struct SessionClaims {
    pub sub: u128,
    pub tier: String,
    pub exp: u64,
}

/// The claims as plain values.
pub open spec fn claims_view(c: SessionClaims) -> (u128, Seq<char>, u64) {
    (c.sub, c.tier@, c.exp)
}

/// The claims (account, tier, expiry) that `token` carries when its signature under `secret`
/// checks out and jsonwebtoken's default validation accepts it, the comparison of the expiry
/// with the clock left aside; `None` when it does not, or when the claims are not an account
/// id, a tier text and an expiry.
pub uninterp spec fn session_token_claims(token: Seq<char>, secret: Seq<char>) -> Option<
    (u128, Seq<char>, u64),
>;

/// Wrapper: signs a session token.
/// Trusted: calls `jsonwebtoken::encode` with the default header (HS256) on the claims `sub`
/// (the account id as a UUID text), `tier` and `exp`; decoding the token with the same secret
/// gives these claims back.
#[verifier::external_body]
fn sign_session_token(sub: u128, tier: &str, exp: u64, secret: &str) -> (r: Result<String, ()>)
    ensures
        r matches Ok(t) ==> session_token_claims(t@, secret@) == Some((sub, tier@, exp)),
{
    let mut claims: HashMap<String, Value> = HashMap::new();
    claims.insert("sub".to_string(), Value::String(Uuid::from_u128(sub).to_string()));
    claims.insert("tier".to_string(), Value::String(tier.to_string()));
    claims.insert("exp".to_string(), Value::from(exp));
    encode(&Header::default(), &claims, &EncodingKey::from_secret(secret.as_bytes())).map_err(|_| ())
}

/// Wrapper: decodes and validates a session token.
/// Trusted: calls `jsonwebtoken::decode` with `Validation::default()`, which checks the
/// signature under `secret` and that the token has not expired by the clock, then reads the
/// `sub`, `tier` and `exp` claims. Whether the token has expired depends on the time of the
/// call, so when `Ok` comes is not stated; an `Ok` carries the token's claims.
#[verifier::external_body]
fn decode_session_token(token: &str, secret: &str) -> (r: Result<SessionClaims, ()>)
    ensures
        r matches Ok(c) ==> session_token_claims(token@, secret@) == Some(claims_view(c)),
{
    let key = DecodingKey::from_secret(secret.as_bytes());
    let claims = decode::<HashMap<String, Value>>(token, &key, &Validation::default()).map_err(|_| ())?.claims;
    match (claims.get("sub"), claims.get("tier"), claims.get("exp").and_then(Value::as_u64)) {
        (Some(Value::String(sub)), Some(Value::String(tier)), Some(exp)) => {
            let sub = Uuid::parse_str(sub).map_err(|_| ())?.as_u128();
            Ok(SessionClaims { sub, tier: tier.clone(), exp })
        },
        _ => Err(()),
    }
}

/// A session lasts a day: the expiry of a token issued at `now_millis`, in whole seconds.
pub open spec fn expiry_after_day(now_millis: u64) -> u64 {
    (now_millis / 1000 + 86400) as u64
}

/// The expiry of a token issued at `now_millis` (see `expiry_after_day`).
pub fn session_expiry(now_millis: u64) -> (r: u64)
    ensures
        r == expiry_after_day(now_millis),
        r == now_millis / 1000 + 86400,
{
    now_millis / 1000 + 86400
}

/// Issues the session token of account `sub` with `tier` at time `now_millis`; it expires a
/// day later.
pub fn issue_session_token_at(sub: u128, tier: &str, now_millis: u64, secret: &str) -> (r: Result<
    String,
    String,
>)
    ensures
        r matches Ok(t) ==> session_token_claims(t@, secret@) == Some(
            (sub, tier@, expiry_after_day(now_millis)),
        ),
        r matches Err(e) ==> e@ == "Invalid token"@,
{
    match sign_session_token(sub, tier, session_expiry(now_millis), secret) {
        Ok(t) => Ok(t),
        Err(()) => Err("Invalid token".to_owned()),
    }
}

/// Issues the session token of account `sub` with `tier` now; it expires a day later.
pub fn issue_session_token(sub: u128, tier: &str, secret: &str) -> (r: Result<String, String>)
    ensures
        r matches Ok(t) ==> exists|now: u64|
            session_token_claims(t@, secret@) == Some((sub, tier@, #[trigger] expiry_after_day(now))),
        r matches Err(e) ==> e@ == "Invalid token"@,
{
    let now = current_time_millis();
    issue_session_token_at(sub, tier, now, secret)
}

/// Reads a session token: its claims when it is signed with `secret` and has not expired.
pub fn read_session_token(token: &str, secret: &str) -> (r: Result<SessionClaims, String>)
    ensures
        r matches Ok(c) ==> session_token_claims(token@, secret@) == Some(claims_view(c)),
        r matches Err(e) ==> e@ == "Invalid token"@,
{
    match decode_session_token(token, secret) {
        Ok(c) => Ok(c),
        Err(()) => Err("Invalid token".to_owned()),
    }
}

/// The first step of admitting a request: the token of its `Authorization` header (`None`: the
/// request has none) and the claims that token carries. The header must hold a bearer token, and
/// the token must be signed with `secret` and not expired.
pub fn authenticate(header: Option<&str>, secret: &str) -> (r: Result<(String, SessionClaims), String>)
    ensures
        match r {
            Ok((t, c)) => {
                &&& header matches Some(h) && bearer_header(h@) && t@ == h@.skip(7)
                &&& session_token_claims(t@, secret@) == Some(claims_view(c))
            },
            Err(e) => if header matches Some(h) && bearer_header(h@) {
                e@ == "Invalid token"@
            } else {
                e@ == "Missing authorization header"@
            },
        },
{
    let token = match header {
        Some(h) => match bearer_token(h) {
            Some(t) => t,
            None => {
                return Err("Missing authorization header".to_owned());
            },
        },
        None => {
            return Err("Missing authorization header".to_owned());
        },
    };
    let claims = read_session_token(token, secret)?;
    Ok((token.to_owned(), claims))
}

/// The second step of admitting a request: its token stands only while it is the session stored
/// for the token's account (`stored`); the claims then pass through unchanged.
pub fn admit_session(token: &str, claims: SessionClaims, stored: Option<&str>) -> (r: Result<
    SessionClaims,
    String,
>)
    ensures
        r is Ok <==> (stored matches Some(s) && s@ == token@),
        r matches Ok(c) ==> c == claims,
        r matches Err(e) ==> e@ == "Session expired"@,
{
    check_session(stored, token)?;
    Ok(claims)
}

} // verus!
