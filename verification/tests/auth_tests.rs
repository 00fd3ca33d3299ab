use base64::Engine;
use vanguard::auth::{session_token, unexpired, unexpired_at, AuthManager, SIGN_KEY_LEN, VRFY_KEY_LEN};
use vanguard::claims::{claims_to_json, Claims};

fn claims(sub: &str, exp: i64, iat: i64) -> Claims {
    Claims { sub: sub.to_string(), exp, iat }
}

fn read_claims(payload: &[u8]) -> Option<Claims> {
    let v: serde_json::Value = serde_json::from_slice(payload).ok()?;
    Some(Claims { sub: v["sub"].as_str()?.to_string(), exp: v["exp"].as_i64()?, iat: v["iat"].as_i64()? })
}

fn verify_at(m: &AuthManager, token: &str, now: i64) -> Option<Claims> {
    unexpired_at(read_claims(&m.verified_payload(token)?)?, now)
}

fn verify(m: &AuthManager, token: &str) -> Option<Claims> {
    unexpired(read_claims(&m.verified_payload(token)?)?)
}

#[test]
fn claims_json_text() {
    assert_eq!(claims_to_json(&claims("alice", 3600, 0)), r#"{"sub":"alice","exp":3600,"iat":0}"#);
    assert_eq!(
        claims_to_json(&claims("a\"b\\c\n\u{1}é", -5, i64::MIN)),
        "{\"sub\":\"a\\\"b\\\\c\\n\\u0001é\",\"exp\":-5,\"iat\":-9223372036854775808}"
    );
}

#[test]
fn claims_json_is_read_back_by_serde_json() {
    for c in [claims("bob", 1, 2), claims("", i64::MAX, i64::MIN), claims("q\"\t\u{1f}z\u{10348}", -1, 0)] {
        let back = read_claims(claims_to_json(&c).as_bytes()).unwrap();
        assert_eq!((back.sub.clone(), back.exp, back.iat), (c.sub.clone(), c.exp, c.iat));
        let v: serde_json::Value = serde_json::from_str(&claims_to_json(&c)).unwrap();
        let mut text = String::from("{\"sub\":");
        text.push_str(&serde_json::to_string(&v["sub"]).unwrap());
        text.push_str(&format!(",\"exp\":{},\"iat\":{}}}", c.exp, c.iat));
        assert_eq!(claims_to_json(&c), text);
    }
}

#[test]
fn expiry_check() {
    assert_eq!(unexpired_at(claims("a", 10, 0), 9).map(|c| c.sub), Some("a".to_string()));
    assert!(unexpired_at(claims("a", 10, 0), 10).is_none());
    assert!(unexpired(claims("a", i64::MAX, 0)).is_some());
    assert!(unexpired(claims("a", 0, 0)).is_none());
}

#[test]
fn key_bytes_round_trip() {
    let m = AuthManager::generate();
    let bytes = m.key_bytes();
    assert_eq!(bytes.len(), SIGN_KEY_LEN + VRFY_KEY_LEN);
    let again = AuthManager::from_key_bytes(&bytes).unwrap();
    assert_eq!(again.key_bytes(), bytes);
    assert!(AuthManager::from_key_bytes(&bytes[1..]).is_none());
}

#[test]
fn issued_token_is_accepted_until_it_expires() {
    let m = AuthManager::generate();
    let now = 1_700_000_000;
    let token = m.create_token_at("alice", 60, now).unwrap();
    let c = verify_at(&m, &token, now).unwrap();
    assert_eq!((c.sub.as_str(), c.exp, c.iat), ("alice", now + 3600, now));
    assert!(verify_at(&m, &token, now + 3599).is_some());
    assert!(verify_at(&m, &token, now + 3600).is_none());
}

#[test]
fn token_shape() {
    let m = AuthManager::generate();
    let token = m.create_token_at("alice", 1, 0).unwrap();
    let parts: Vec<&str> = token.split('.').collect();
    assert_eq!(parts.len(), 2);
    assert_eq!(parts[0], "eyJzdWIiOiJhbGljZSIsImV4cCI6NjAsImlhdCI6MH0=");
}

#[test]
fn token_checked_against_clock() {
    let m = AuthManager::generate();
    let token = m.create_token("carol", 5).unwrap();
    assert_eq!(verify(&m, &token).unwrap().sub, "carol");
    let old = m.create_token("carol", -5).unwrap();
    assert!(verify(&m, &old).is_none());
}

#[test]
fn refreshed_token_keeps_subject() {
    let m = AuthManager::generate();
    let token = m.refresh_token(&claims("dave", 0, 0), 10).unwrap();
    assert_eq!(verify(&m, &token).unwrap().sub, "dave");
}

#[test]
fn tampered_tokens_are_refused() {
    let m = AuthManager::generate();
    let other = AuthManager::generate();
    let token = m.create_token_at("alice", 60, 0).unwrap();
    assert!(verify_at(&other, &token, 0).is_none());
    let (payload, sig) = token.split_once('.').unwrap();
    let forged_payload = base64::engine::general_purpose::STANDARD.encode(br#"{"sub":"mallory","exp":3600,"iat":0}"#);
    assert!(verify_at(&m, &format!("{}.{}", forged_payload, sig), 0).is_none());
    assert!(verify_at(&m, payload, 0).is_none());
    assert!(verify_at(&m, &format!("{}.{}.x", payload, sig), 0).is_none());
    assert!(verify_at(&m, &format!("{}!.{}", payload, sig), 0).is_none());
    assert!(verify_at(&m, "", 0).is_none());
}

#[test]
fn bad_signing_key_is_reported() {
    let m = AuthManager::from_key_bytes(&vec![0u8; SIGN_KEY_LEN + VRFY_KEY_LEN]).unwrap();
    assert_eq!(m.create_token_at("x", 1, 0), Err("Failed to decode signing key".to_string()));
}

#[test]
fn expiry_out_of_range_is_refused() {
    let m = AuthManager::generate();
    assert_eq!(
        m.create_token("x", vanguard::auth::MAX_TOKEN_MINUTES),
        Err("token expiry is out of range".to_string())
    );
}

#[test]
fn auth_cookie_text() {
    let m = AuthManager::generate();
    assert_eq!(m.auth_cookie("t0k".to_string(), false), "vanguard_auth=t0k; HttpOnly; SameSite=Lax; Path=/");
    assert_eq!(
        m.auth_cookie("t0k".to_string(), true),
        "vanguard_auth=t0k; HttpOnly; SameSite=Lax; Secure; Path=/"
    );
}

#[test]
fn session_token_from_cookie_header() {
    let m = AuthManager::generate();
    let token = m.create_token("erin", 5).unwrap();
    let header = format!("theme=dark; vanguard_auth={}", token);
    let found = session_token(&header).unwrap();
    assert_eq!(found, token);
    assert_eq!(verify(&m, &found).unwrap().sub, "erin");
    assert!(session_token("theme=dark").is_none());
    assert!(verify(&m, &session_token("vanguard_auth=garbage").unwrap()).is_none());
}

#[test]
fn verified_payload_is_the_claims_text() {
    let m = AuthManager::generate();
    let token = m.create_token_at("zed", 60, 0).unwrap();
    let payload = m.verified_payload(&token).unwrap();
    assert_eq!(payload, br#"{"sub":"zed","exp":3600,"iat":0}"#.to_vec());
    let other = AuthManager::generate();
    assert!(other.verified_payload(&token).is_none());
}
