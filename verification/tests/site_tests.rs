use base64::Engine;
use vanguard::site::{ws_next, WsAction, WsEvent, WsSession};
use vanguard::auth::AuthManager;
use vanguard::claims::Claims;
use vanguard::pages::{home_page, login_page, profile_page};
use vanguard::response::{not_found, Reply};
use vanguard::router::cookie_value;
use vanguard::server::{preflight_reply, with_cors};
use vanguard::site::{
    counter_reply, counter_update, home_reply, increment_reply, login_get_reply, login_page_reply, login_reply,
    logout_reply, pong_update, profile_reply, rate_limited_reply, redirect, unauthorized_reply,
    update_text, welcome_update, ws_refusal, LoginForm, LoginInput,
};

fn header<'a>(r: &'a Reply, name: &str) -> Option<&'a str> {
    r.headers.iter().find(|(n, _)| n == name).map(|(_, v)| v.as_str())
}

fn doc_head(title: &str) -> String {
    format!(
        "<!DOCTYPE html><html><head><meta charset=\"utf-8\"><meta name=\"viewport\" content=\"width=device-width, initial-scale=1.0\"><title>{}</title>",
        title
    )
}

const DOC_ASSETS: &str = "<link rel=\"stylesheet\" href=\"/static/app.css\"><script src=\"/static/router.js\"></script></head><body><div id=\"app\">";

fn form(user: &str, pass: &str, csrf: &str) -> LoginInput {
    LoginInput::Valid(LoginForm {
        username: user.to_string(),
        password: pass.to_string(),
        csrf_token: csrf.to_string(),
    })
}

fn login_error_body(msg: &str) -> String {
    format!("{}{}{}</div></body></html>", doc_head("Login - Vanguard"), DOC_ASSETS, login_page(Some(msg), ""))
}

#[test]
fn home_reply_document() {
    let r = home_reply();
    assert_eq!(r.status, 200);
    assert_eq!(r.content_type.as_deref(), Some("text/html"));
    assert!(r.headers.is_empty());
    let expected = format!(
        "{}<meta name=\"description\" content=\"A high-performance Rust foundation for secure, server-rendered web applications.\"><meta name=\"keywords\" content=\"vanguard, rust, framework, hyper, web\">{}{}</div></body></html>",
        doc_head("Home - Vanguard"),
        DOC_ASSETS,
        home_page()
    );
    assert_eq!(r.body, expected);
}

#[test]
fn counter_reply_document() {
    let r = counter_reply(3);
    assert_eq!(r.status, 200);
    assert!(r.body.starts_with(&format!(
        "{}<meta name=\"description\" content=\"Interactive counter demo built with Vanguard.\">",
        doc_head("Counter - Vanguard")
    )));
    assert!(r.body.contains("<span id=\"count-display\">3</span>"));
    assert!(r.body.contains("Router.setState('counter', {\"count\":3}, false);"));
}

#[test]
fn profile_reply_cases() {
    let r = profile_reply(Some(Claims { sub: "a&b".to_string(), exp: 10, iat: 0 }));
    assert_eq!(r.status, 200);
    assert_eq!(
        r.body,
        format!(
            "{}<meta name=\"description\" content=\"User profile and settings.\">{}{}</div></body></html>",
            doc_head("Profile - a&amp;b"),
            DOC_ASSETS,
            profile_page("a&b")
        )
    );
    let r = profile_reply(None);
    assert_eq!(r.status, 303);
    assert_eq!(r.content_type, None);
    assert_eq!(header(&r, "Location"), Some("/login"));
    assert_eq!(r.body, "");
}

#[test]
fn redirect_reply() {
    let r = redirect("/somewhere");
    assert_eq!((r.status, r.content_type.clone(), r.body.clone()), (303, None, String::new()));
    assert_eq!(r.headers, vec![("Location".to_string(), "/somewhere".to_string())]);
}

#[test]
fn login_get_reply_cases() {
    let m = AuthManager::generate();
    let r = login_get_reply(&m, true, false);
    assert_eq!(r.status, 303);
    assert_eq!(header(&r, "Location"), Some("/profile"));
    assert_eq!(r.headers.len(), 1);
    let r = login_page_reply(&m, "tok", true);
    assert_eq!(r.status, 200);
    assert_eq!(header(&r, "Set-Cookie"), Some("vanguard_csrf=tok; HttpOnly; SameSite=Lax; Secure; Path=/"));
    assert_eq!(
        r.body,
        format!(
            "{}<meta name=\"description\" content=\"Log in to your Vanguard account.\">{}{}</div></body></html>",
            doc_head("Login - Vanguard"),
            DOC_ASSETS,
            login_page(None, "tok")
        )
    );
}

#[test]
fn csrf_token_flows_from_page_to_sign_in() {
    let m = AuthManager::generate();
    let page = login_get_reply(&m, false, false);
    assert_eq!(page.status, 200);
    let set_cookie = header(&page, "Set-Cookie").unwrap();
    let sent_back = set_cookie.split(';').next().unwrap();
    let token = cookie_value(sent_back, "vanguard_csrf").unwrap();
    assert_eq!(token.len(), 32);
    assert!(token.chars().all(|c| c.is_ascii_digit() || ('a'..='f').contains(&c)));
    assert!(page.body.contains(&format!("<input type=\"hidden\" name=\"csrf_token\" value=\"{}\">", token)));
    let r = login_reply(&m, form("alice", "secret1", &token), Some(&token), false);
    assert_eq!(r.status, 303);
    let other = login_get_reply(&m, false, false);
    assert_ne!(header(&other, "Set-Cookie"), Some(set_cookie));
}

#[test]
fn csrf_tokens_are_hex() {
    let m = AuthManager::generate();
    let t = m.generate_csrf_token();
    assert_eq!(t.len(), 32);
    assert!(t.chars().all(|c| c.is_ascii_digit() || ('a'..='f').contains(&c)));
    assert_ne!(t, m.generate_csrf_token());
}

#[test]
fn login_unreadable_form() {
    let m = AuthManager::generate();
    let r = login_reply(&m, LoginInput::Unreadable, Some("c"), false);
    assert_eq!(r.status, 200);
    assert_eq!(r.content_type.as_deref(), Some("text/html"));
    assert_eq!(r.body, login_error_body("Invalid form data"));
}

#[test]
fn login_invalid_form() {
    let m = AuthManager::generate();
    let msg = "username: Username must be at least 3 characters";
    let r = login_reply(&m, LoginInput::Invalid(msg.to_string()), Some("c"), false);
    assert_eq!(r.status, 200);
    assert_eq!(r.body, login_error_body(msg));
}

#[test]
fn login_csrf_mismatch() {
    let m = AuthManager::generate();
    let r = login_reply(&m, form("alice", "secret1", "abc"), Some("abd"), false);
    assert_eq!(r.status, 403);
    assert_eq!(r.body, login_error_body("Invalid CSRF token"));
    let r = login_reply(&m, form("alice", "secret1", "abc"), None, false);
    assert_eq!(r.status, 403);
    assert_eq!(r.body, login_error_body("Invalid CSRF token"));
}

#[test]
fn login_success_sets_session() {
    let m = AuthManager::generate();
    let r = login_reply(&m, form("alice", "secret1", "abc"), Some("abc"), false);
    assert_eq!(r.status, 303);
    assert_eq!(r.content_type, None);
    assert_eq!(r.body, "");
    assert_eq!(r.headers[0], ("Location".to_string(), "/profile".to_string()));
    let cookie = header(&r, "Set-Cookie").unwrap();
    assert!(cookie.starts_with("vanguard_auth="));
    assert!(cookie.ends_with("; HttpOnly; SameSite=Lax; Path=/"));
    let token = &cookie["vanguard_auth=".len()..cookie.len() - "; HttpOnly; SameSite=Lax; Path=/".len()];
    let found = vanguard::auth::session_token(&format!("vanguard_auth={}", token)).unwrap();
    let payload: serde_json::Value = serde_json::from_slice(&m.verified_payload(&found).unwrap()).unwrap();
    let claims = Claims {
        sub: payload["sub"].as_str().unwrap().to_string(),
        exp: payload["exp"].as_i64().unwrap(),
        iat: payload["iat"].as_i64().unwrap(),
    };
    assert_eq!(claims.sub, "alice");
    assert_eq!(claims.exp - claims.iat, 3600);
}

#[test]
fn logout_clears_session() {
    let m = AuthManager::generate();
    let r = logout_reply(&m, false);
    assert_eq!(r.status, 303);
    assert_eq!(
        r.headers,
        vec![
            ("Location".to_string(), "/".to_string()),
            ("Set-Cookie".to_string(), "vanguard_auth=; HttpOnly; SameSite=Lax; Path=/; Max-Age=0".to_string()),
        ]
    );
}

#[test]
fn increment_reply_json() {
    let r = increment_reply(5);
    assert_eq!(r.status, 200);
    assert_eq!(r.content_type.as_deref(), Some("application/json"));
    let mut obj = serde_json::Map::new();
    obj.insert("success".to_string(), serde_json::Value::Bool(true));
    obj.insert("count".to_string(), serde_json::Value::from(5));
    assert_eq!(r.body, serde_json::Value::Object(obj).to_string());
    assert_eq!(increment_reply(-12).body, "{\"count\":-12,\"success\":true}");
}

#[test]
fn fixed_replies() {
    let r = rate_limited_reply();
    assert_eq!((r.status, r.content_type.as_deref(), r.body.as_str()), (429, Some("text/plain"), "429 Too Many Requests: Slow down!"));
    let r = unauthorized_reply();
    assert_eq!((r.status, r.content_type.as_deref(), r.body.as_str()), (401, None, "Unauthorized"));
    let r = not_found();
    assert_eq!((r.status, r.content_type.as_deref(), r.body.as_str()), (404, None, "404 Not Found"));
}

#[test]
fn ws_refusal_cases() {
    let r = ws_refusal(false, true).unwrap();
    assert_eq!((r.status, r.body.as_str()), (401, "Unauthorized for WebSocket"));
    let r = ws_refusal(false, false).unwrap();
    assert_eq!(r.status, 401);
    let r = ws_refusal(true, false).unwrap();
    assert_eq!((r.status, r.body.as_str()), (400, "Not a WebSocket connection request"));
    assert!(ws_refusal(true, true).is_none());
}

#[test]
fn ws_updates_are_json() {
    let json = |topic: &str, data: &str| {
        format!(
            "{{\"topic\":{},\"data\":{}}}",
            serde_json::to_string(topic).unwrap(),
            serde_json::to_string(data).unwrap()
        )
    };
    assert_eq!(welcome_update("bob"), json("system", "Welcome, bob"));
    assert_eq!(welcome_update("b\"o\\b\n"), json("system", "Welcome, b\"o\\b\n"));
    assert_eq!(pong_update(), "{\"topic\":\"pong\",\"data\":\"PONG\"}");
    assert_eq!(counter_update(-4), "{\"topic\":\"counter_update\",\"data\":\"-4\"}");
    assert_eq!(update_text("t\u{1}", "\u{7f}é"), json("t\u{1}", "\u{7f}é"));
}

#[test]
fn cors_on_preflight_and_replies() {
    let allowed = Some("https://example.com".to_string());
    let r = preflight_reply(Some("http://localhost:3000"), &allowed);
    assert_eq!(r.status, 204);
    assert_eq!(r.body, "");
    assert_eq!(
        r.headers,
        vec![
            ("access-control-allow-origin".to_string(), "http://localhost:3000".to_string()),
            ("access-control-allow-methods".to_string(), "GET, POST, OPTIONS".to_string()),
            ("access-control-allow-headers".to_string(), "Content-Type, Authorization".to_string()),
            ("access-control-allow-credentials".to_string(), "true".to_string()),
        ]
    );
    let r = preflight_reply(Some("https://evil.com"), &allowed);
    assert!(r.headers.is_empty());
    let r = with_cors(redirect("/x"), Some("https://example.com"), &allowed);
    assert_eq!(r.headers.len(), 5);
    assert_eq!(r.headers[0], ("Location".to_string(), "/x".to_string()));
    assert_eq!(r.headers[1].1, "https://example.com");
    let r = with_cors(not_found(), None, &allowed);
    assert!(r.headers.is_empty());
}

#[test]
fn ws_events_and_actions() {
    assert!(matches!(ws_next(&WsEvent::Text(Some("ping".to_string()))), WsAction::Send(t) if t == pong_update()));
    assert!(matches!(ws_next(&WsEvent::Text(Some("increment_counter".to_string()))), WsAction::Increment));
    assert!(matches!(ws_next(&WsEvent::Text(Some("dance".to_string()))), WsAction::Continue));
    assert!(matches!(ws_next(&WsEvent::Text(None)), WsAction::Continue));
    assert!(matches!(ws_next(&WsEvent::Other), WsAction::Continue));
    assert!(matches!(ws_next(&WsEvent::Close), WsAction::Stop));
    assert!(matches!(ws_next(&WsEvent::Failed), WsAction::Stop));
}

#[test]
fn session_cookie_read_back() {
    let m = AuthManager::generate();
    let token = m.create_token("grace", 5).unwrap();
    let set_cookie = m.auth_cookie(token.clone(), false);
    let sent_back = set_cookie.split(';').next().unwrap();
    assert_eq!(sent_back, format!("vanguard_auth={}", token));
    let found = vanguard::auth::session_token(sent_back).unwrap();
    let payload: serde_json::Value = serde_json::from_slice(&m.verified_payload(&found).unwrap()).unwrap();
    assert_eq!(payload["sub"], "grace");
}

#[test]
fn cors_replaces_same_named_headers() {
    let allowed = Some("https://example.com".to_string());
    let mut reply = redirect("/x");
    reply.headers.push(("Access-Control-Allow-Origin".to_string(), "*".to_string()));
    reply.headers.push(("X-Other".to_string(), "1".to_string()));
    let r = with_cors(reply, Some("https://example.com"), &allowed);
    assert_eq!(r.headers.len(), 6);
    assert_eq!(r.headers[0].0, "Location");
    assert_eq!(r.headers[1].0, "X-Other");
    assert_eq!(r.headers[2], ("access-control-allow-origin".to_string(), "https://example.com".to_string()));
    let mut reply = redirect("/x");
    reply.headers.push(("Access-Control-Allow-Origin".to_string(), "*".to_string()));
    let r = with_cors(reply, Some("https://evil.org"), &allowed);
    assert_eq!(r.headers.len(), 2);
}

#[test]
fn ws_session_stops_for_good() {
    let mut s = WsSession::new();
    assert!(matches!(s.step(&WsEvent::Text(Some("increment_counter".to_string()))), WsAction::Increment));
    assert!(matches!(s.step(&WsEvent::Text(Some("ping".to_string()))), WsAction::Send(_)));
    assert!(matches!(s.step(&WsEvent::Close), WsAction::Stop));
    assert!(matches!(s.step(&WsEvent::Text(Some("increment_counter".to_string()))), WsAction::Stop));
    assert!(matches!(s.step(&WsEvent::Text(Some("ping".to_string()))), WsAction::Stop));
}

#[test]
fn token_signature_has_standard_length() {
    let m = AuthManager::generate();
    let token = m.create_token_at("sam", 10, 1000).unwrap();
    let (_, sig) = token.split_once('.').unwrap();
    assert_eq!(base64::engine::general_purpose::STANDARD.decode(sig).unwrap().len(), 666);
    assert_eq!(token.matches('.').count(), 1);
}

#[test]
fn api_refusals() {
    let r = vanguard::site::api_refusal(false, true).unwrap();
    assert_eq!(r.status, 429);
    let r = vanguard::site::api_refusal(false, false).unwrap();
    assert_eq!(r.status, 429);
    let r = vanguard::site::api_refusal(true, false).unwrap();
    assert_eq!((r.status, r.body.as_str()), (401, "Unauthorized"));
    assert!(vanguard::site::api_refusal(true, true).is_none());
}

#[test]
fn counter_steps_by_one() {
    assert_eq!(vanguard::site::next_count(0), 1);
    assert_eq!(vanguard::site::next_count(-1), 0);
    assert_eq!(vanguard::site::next_count(i32::MAX - 1), i32::MAX);
}
