use vanguard::ws::{upgrade_failure_reply, UpgradeFailure};
use vanguard::static_files::{forbidden_reply, missing_file_reply};
use vanguard::router::cookie_value;
use vanguard::rate_limit::take_token;
use vanguard::response::{Html, IntoResponse, Reply};
use vanguard::router::ExtractError;
use vanguard::server::{cors_allow_origin, cors_headers};
use vanguard::state::{serialize_global_state, serialize_state};
use vanguard::static_files::{static_content_type, static_target, StaticTarget};
use vanguard::view::Page;
use vanguard::ws::{welcome_text, ws_command, WsCommand};

fn parts(r: Reply) -> (u16, Option<String>, usize, String) {
    (r.status, r.content_type, r.headers.len(), r.body)
}

#[test]
fn token_taken_when_available() {
    let d = take_token(3, 5, 0);
    assert!(d.allowed && !d.refilled);
    assert_eq!(d.tokens, 2);
}

#[test]
fn empty_bucket_refuses() {
    let d = take_token(0, 5, 0);
    assert!(!d.allowed && !d.refilled);
    assert_eq!(d.tokens, 0);
}

#[test]
fn refill_is_capped_at_capacity() {
    let d = take_token(1, 5, 100);
    assert!(d.allowed && d.refilled);
    assert_eq!(d.tokens, 4);
    let d = take_token(0, 5, 2);
    assert!(d.allowed && d.refilled);
    assert_eq!(d.tokens, 1);
}

#[test]
fn zero_capacity_refuses_even_after_refill() {
    let d = take_token(0, 0, 3);
    assert!(!d.allowed && d.refilled);
    assert_eq!(d.tokens, 0);
}

#[test]
fn burst_is_allowed_as_many_times_as_tokens() {
    let mut tokens = 3;
    let mut allowed = 0;
    for _ in 0..10 {
        let d = take_token(tokens, 3, 0);
        if d.allowed {
            allowed += 1;
        }
        tokens = d.tokens;
        assert!(tokens <= 3);
    }
    assert_eq!(allowed, 3);
}

#[test]
fn state_scripts() {
    assert_eq!(
        serialize_state("counter", "{\"count\":1}"),
        "<script data-page>Router.setState('counter', {\"count\":1}, false);</script>"
    );
    assert_eq!(
        serialize_global_state("user", "null"),
        "<script data-page>Router.setGlobalState('user', null, false);</script>"
    );
}

#[test]
fn static_paths() {
    assert!(matches!(static_target("/static/app.css"), StaticTarget::File(f) if f == "static/app.css"));
    assert!(matches!(static_target("///x/y.js"), StaticTarget::File(f) if f == "x/y.js"));
    assert!(matches!(static_target("/static/../secret"), StaticTarget::Forbidden));
    assert!(matches!(static_target("/a..b"), StaticTarget::Forbidden));
    assert!(matches!(static_target(""), StaticTarget::File(f) if f.is_empty()));
}

#[test]
fn static_content_types() {
    assert_eq!(static_content_type("./static/app.css"), "text/css");
    assert_eq!(static_content_type("./static/router.js"), "text/javascript");
    assert_eq!(static_content_type("./static/data.unknownext"), "application/octet-stream");
    assert_eq!(static_content_type("./static/noext"), "application/octet-stream");
}

#[test]
fn cors_origins() {
    let allowed = Some("https://example.com".to_string());
    assert_eq!(cors_allow_origin(Some("http://localhost:8080"), &None).as_deref(), Some("http://localhost:8080"));
    assert_eq!(cors_allow_origin(Some("http://127.0.0.1"), &None).as_deref(), Some("http://127.0.0.1"));
    assert_eq!(cors_allow_origin(Some("https://example.com"), &allowed).as_deref(), Some("https://example.com"));
    assert_eq!(cors_allow_origin(Some("https://example.com.evil"), &allowed), None);
    assert_eq!(cors_allow_origin(Some("https://localhost"), &None), None);
    assert_eq!(cors_allow_origin(None, &allowed), None);
    assert_eq!(cors_allow_origin(Some("null"), &Some("null".to_string())), None);
    assert_eq!(cors_headers(Some("https://other.org"), &allowed), vec![]);
    assert_eq!(cors_headers(Some("https://example.com"), &allowed).len(), 4);
}

#[test]
fn responses_of_values() {
    assert_eq!(parts(().into_response()), (200, None, 0, String::new()));
    assert_eq!(parts("hi".into_response()), (200, Some("text/plain".to_string()), 0, "hi".to_string()));
    assert_eq!(parts("yo".to_string().into_response()), (200, Some("text/plain".to_string()), 0, "yo".to_string()));
    assert_eq!(parts(Html("<p>".to_string()).into_response()), (200, Some("text/html".to_string()), 0, "<p>".to_string()));
    assert_eq!(parts((418u16, "tea").into_response()), (418, Some("text/plain".to_string()), 0, "tea".to_string()));
    let ok: Result<&'static str, (u16, String)> = Ok("fine");
    assert_eq!(parts(ok.into_response()).3, "fine");
    let err: Result<&'static str, (u16, String)> = Err((500, "boom".to_string()));
    assert_eq!(parts(err.into_response()), (500, Some("text/plain".to_string()), 0, "boom".to_string()));
}

#[test]
fn extract_errors_are_bad_requests() {
    let cases = [
        (ExtractError::JsonSync("eof".to_string()), "Failed to read body: eof"),
        (ExtractError::JsonDeserialize("x".to_string()), "JSON deserialize error: x"),
        (ExtractError::FormSync("y".to_string()), "Failed to read body: y"),
        (ExtractError::FormDeserialize("z".to_string()), "Form deserialize error: z"),
    ];
    for (e, msg) in cases {
        assert_eq!(parts(e.into_response()), (400, Some("text/plain".to_string()), 0, msg.to_string()));
    }
}

#[test]
fn page_render_bare() {
    assert_eq!(
        Page::new("T<1>".to_string()).render(),
        "<!DOCTYPE html><html><head><meta charset=\"utf-8\"><meta name=\"viewport\" content=\"width=device-width, initial-scale=1.0\"><title>T&lt;1&gt;</title><link rel=\"stylesheet\" href=\"/static/app.css\"><script src=\"/static/router.js\"></script></head><body><div id=\"app\"></div></body></html>"
    );
}

#[test]
fn page_render_full() {
    let html = Page::new("Title".to_string())
        .description("d \"q\"".to_string())
        .keywords(&["a", "b&c"])
        .canonical_url("https://x.org/p".to_string())
        .og_image("https://x.org/i.png".to_string())
        .head("<meta name=\"x\" content=\"y\">".to_string())
        .inline_css("body{}".to_string())
        .inline_css("p{}".to_string())
        .inline_js("go();".to_string())
        .content("<main>hi</main>".to_string())
        .render();
    let expected = [
        "<!DOCTYPE html><html><head><meta charset=\"utf-8\"><meta name=\"viewport\" content=\"width=device-width, initial-scale=1.0\"><title>Title</title>",
        "<meta name=\"description\" content=\"d &quot;q&quot;\">",
        "<meta name=\"keywords\" content=\"a, b&amp;c\">",
        "<link rel=\"canonical\" href=\"https://x.org/p\">",
        "<meta property=\"og:image\" content=\"https://x.org/i.png\"><meta name=\"twitter:card\" content=\"summary_large_image\">",
        "<link rel=\"stylesheet\" href=\"/static/app.css\"><script src=\"/static/router.js\"></script>",
        "<meta name=\"x\" content=\"y\">",
        "<style>body{}</style><style>p{}</style>",
        "<script data-page>go();</script>",
        "</head><body><div id=\"app\"><main>hi</main></div></body></html>",
    ]
    .join("");
    assert_eq!(html, expected);
}

#[test]
fn ws_commands() {
    assert_eq!(ws_command("ping"), WsCommand::Ping);
    assert_eq!(ws_command("increment_counter"), WsCommand::IncrementCounter);
    assert_eq!(ws_command("Ping"), WsCommand::Ignore);
    assert_eq!(ws_command(""), WsCommand::Ignore);
    assert_eq!(welcome_text("zoe"), "Welcome, zoe");
}

#[test]
fn upgrade_failures_are_bad_requests() {
    assert_eq!(parts(upgrade_failure_reply(UpgradeFailure::NotRequested)), (400, None, 0, "Expected WebSocket upgrade request".to_string()));
    assert_eq!(parts(upgrade_failure_reply(UpgradeFailure::Handshake)), (400, None, 0, "WebSocket upgrade error".to_string()));
}

#[test]
fn static_refusals() {
    assert_eq!(parts(forbidden_reply()), (403, None, 0, "Forbidden".to_string()));
    assert_eq!(parts(missing_file_reply()), (404, None, 0, "Not Found".to_string()));
}

#[test]
fn cookie_sent_alone_reads_back() {
    assert_eq!(cookie_value("vanguard_csrf=abc123", "vanguard_csrf").as_deref(), Some("abc123"));
    assert_eq!(cookie_value("k=", "k").as_deref(), Some(""));
}
