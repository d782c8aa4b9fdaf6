use capitol_backend::auth::{
    admit_session, authenticate, issue_session_token, issue_session_token_at, read_session_token, session_expiry,
    SessionClaims,
};

const SECRET: &str = "test-secret";

#[test]
fn session_lasts_a_day() {
    assert_eq!(session_expiry(0), 86400);
    assert_eq!(session_expiry(1_700_000_000_999), 1_700_000_000 + 86400);
}

#[test]
fn issued_token_reads_back() {
    let t = issue_session_token(0xABCD, "premium", SECRET).unwrap();
    let c = read_session_token(&t, SECRET).unwrap();
    assert_eq!(c.sub, 0xABCD);
    assert_eq!(c.tier, "premium");
    assert!(c.exp > 1_600_000_000 + 86400);
    assert_eq!(read_session_token(&t, "other-secret").unwrap_err(), "Invalid token");
    assert_eq!(read_session_token("not a token", SECRET).unwrap_err(), "Invalid token");
}

#[test]
fn token_issued_long_ago_has_expired() {
    let t = issue_session_token_at(1, "free", 1_000_000, SECRET).unwrap();
    assert_eq!(read_session_token(&t, SECRET).unwrap_err(), "Invalid token");
}

#[test]
fn authentication_steps() {
    let t = issue_session_token(7, "free", SECRET).unwrap();
    let header = format!("Bearer {}", t);
    let (token, claims) = authenticate(Some(&header), SECRET).unwrap();
    assert_eq!(token, t);
    assert_eq!(claims.sub, 7);
    assert_eq!(authenticate(None, SECRET).unwrap_err(), "Missing authorization header");
    assert_eq!(authenticate(Some(&t), SECRET).unwrap_err(), "Missing authorization header");
    assert_eq!(authenticate(Some("Bearer junk"), SECRET).unwrap_err(), "Invalid token");
    assert_eq!(admit_session(&token, claims.clone(), Some(&t)), Ok(claims.clone()));
    assert_eq!(admit_session(&token, claims.clone(), Some("older")).unwrap_err(), "Session expired");
    assert_eq!(admit_session(&token, claims, None).unwrap_err(), "Session expired");
    let c = SessionClaims { sub: 1, tier: "free".to_string(), exp: 5 };
    assert_eq!(c.clone(), c);
}
