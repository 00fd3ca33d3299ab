use vanguard::pages::{
    counter_page, home_page, login_page, profile_page, ws_demo_page, CounterState, COUNTER_SCRIPT,
};

const BACK: &str = "<div style=\"margin-top: 2rem;\"><a href=\"/\" class=\"nav-link\">← Back to Home</a></div>";

#[test]
fn home_page_markup() {
    let html = home_page();
    assert!(html.starts_with("<div><section style=\"margin-bottom: 4rem;\"><h1>Vanguard Framework</h1>"));
    assert!(html.contains("<a href=\"/counter\" class=\"btn btn-outline\">View Demo</a>"));
    assert!(html.contains("<div class=\"grid-item\"><h3>Security</h3><p>Session integrity verified with 512-bit FN-DSA digital signatures.</p></div>"));
    assert!(html.ends_with("modular frontend components.</p></div></div></div>"));
}

#[test]
fn login_page_without_error() {
    let expected = format!(
        "{}{}{}",
        "<div class=\"container\"><div class=\"card\"><h1>Sign In</h1><p>Enter your credentials to access your protected dashboard. Try 'username' and 'password'.</p>",
        "<form action=\"/login\" method=\"POST\"><input type=\"hidden\" name=\"csrf_token\" value=\"0123abcd\"><div class=\"form-group\"><label>Username</label><input type=\"text\" name=\"username\" required autocomplete=\"username\"></div><div class=\"form-group\"><label>Password</label><input type=\"password\" name=\"password\" required autocomplete=\"current-password\"></div><button type=\"submit\" class=\"btn\" style=\"width: 100%; margin-top: 1rem;\">Sign In</button></form></div>",
        format!("{}</div>", BACK)
    );
    assert_eq!(login_page(None, "0123abcd"), expected);
}

#[test]
fn login_page_error_is_escaped() {
    let html = login_page(Some("<b>bad</b> & \"x\" 'y'"), "t\"<");
    assert!(html.contains("'password'.</p><div class=\"error-banner\">&lt;b&gt;bad&lt;/b&gt; &amp; &quot;x&quot; 'y'</div><form action=\"/login\" method=\"POST\"><input type=\"hidden\" name=\"csrf_token\" value=\"t&quot;&lt;\"><div"));
}

#[test]
fn profile_page_shows_escaped_name() {
    let html = profile_page("al<i>ce");
    assert!(html.starts_with("<div class=\"container\"><div class=\"card\"><h1>User Profile</h1><p>Logged in as <b>al&lt;i&gt;ce</b></p>"));
    assert!(html.contains("<form action=\"/logout\" method=\"POST\"><button type=\"submit\" class=\"btn btn-outline\">Sign Out</button></form>"));
    assert!(html.ends_with(&format!("{}</div>", BACK)));
}

#[test]
fn counter_state_json() {
    assert_eq!(CounterState { count: 42 }.to_json(), "{\"count\":42}");
    assert_eq!(CounterState { count: -3 }.to_json(), "{\"count\":-3}");
    assert_eq!(CounterState { count: i32::MIN }.to_json(), "{\"count\":-2147483648}");
}

#[test]
fn counter_page_markup() {
    let html = counter_page(&CounterState { count: -7 });
    let expected = format!(
        "<div class=\"container\"><div class=\"card\"><h1>Counter Demo</h1><p>This counter persists per-user using server-side storage and hydration.</p><div style=\"text-align: center;\"><span id=\"count-display\">-7</span><div><button id=\"inc-btn\" class=\"btn\">Increment Count</button></div></div></div>{}<script data-page>Router.setState('counter', {{\"count\":-7}}, false);</script><script data-page>{}</script></div>",
        BACK, COUNTER_SCRIPT
    );
    assert_eq!(html, expected);
    assert!(COUNTER_SCRIPT.contains("fetch('/api/increment', { method: 'POST' })"));
    assert!(COUNTER_SCRIPT.starts_with("\n                    const btn = document.getElementById('inc-btn');"));
}

#[test]
fn ws_demo_page_markup() {
    let html = ws_demo_page();
    assert!(html.contains("<button id=\"ws-disconnect\" class=\"btn btn-outline\" style=\"margin-top: 0.5rem;\" disabled>Disconnect</button>"));
    assert!(html.contains("id=\"ws-logs\"><div>&gt; Disconnected</div></div>"));
    assert!(html.ends_with(&format!("{}</div>", BACK)));
}
