//! The pages of the demo site, rendered to markup: the home page, sign-in,
//! profile, counter and WebSocket demo pages.
use vstd::prelude::*;
use crate::claims::{decimal, push_decimal};
use crate::state::{serialize_state, state_script};
use crate::text::string_of;
use crate::view::{escape_html, html_escape, push_str};

verus! {

/// The home page.
pub const HOME_PAGE: &'static str = "<div><section style=\"margin-bottom: 4rem;\"><h1>Vanguard Framework</h1><p>A high-performance Rust foundation for secure, server-rendered web applications.</p><div style=\"display: flex; gap: 1rem;\"><a href=\"/login\" class=\"btn\">Get Started</a><a href=\"/counter\" class=\"btn btn-outline\">View Demo</a></div></section><div class=\"grid\"><div class=\"grid-item\"><h3>Performance</h3><p>Built on Hyper 1.0 for low-latency, high-throughput request handling.</p></div><div class=\"grid-item\"><h3>Security</h3><p>Session integrity verified with 512-bit FN-DSA digital signatures.</p></div><div class=\"grid-item\"><h3>Architecture</h3><p>Clean separation between server-side logic and modular frontend components.</p></div></div></div>";

/// The sign-in page up to the place of the error banner.
pub const LOGIN_INTRO: &'static str = "<div class=\"container\"><div class=\"card\"><h1>Sign In</h1><p>Enter your credentials to access your protected dashboard. Try 'username' and 'password'.</p>";

/// The opening of the error banner.
pub const ERROR_BANNER: &'static str = "<div class=\"error-banner\">";

/// The end of an element.
pub const DIV_END: &'static str = "</div>";

/// The opening of the sign-in form and of its hidden CSRF token field, up to the token.
pub const LOGIN_FORM_OPEN: &'static str = "<form action=\"/login\" method=\"POST\"><input type=\"hidden\" name=\"csrf_token\" value=\"";

/// The sign-in form after its CSRF token, and the rest of the sign-in page.
pub const LOGIN_FORM: &'static str = "\"><div class=\"form-group\"><label>Username</label><input type=\"text\" name=\"username\" required autocomplete=\"username\"></div><div class=\"form-group\"><label>Password</label><input type=\"password\" name=\"password\" required autocomplete=\"current-password\"></div><button type=\"submit\" class=\"btn\" style=\"width: 100%; margin-top: 1rem;\">Sign In</button></form></div><div style=\"margin-top: 2rem;\"><a href=\"/\" class=\"nav-link\">← Back to Home</a></div></div>";

/// The profile page up to the user's name.
pub const PROFILE_INTRO: &'static str = "<div class=\"container\"><div class=\"card\"><h1>User Profile</h1><p>Logged in as <b>";

/// The profile page after the user's name.
pub const PROFILE_REST: &'static str = "</b></p><div style=\"padding: 1.5rem 0; border-top: 1px solid var(--border); margin-top: 1.5rem;\"><h3 style=\"font-size: 1rem; margin-bottom: 0.5rem;\">Session Information</h3><p style=\"font-size: 0.875rem;\">Authentication is achieved using FN-DSA signatures.</p></div><form action=\"/logout\" method=\"POST\"><button type=\"submit\" class=\"btn btn-outline\">Sign Out</button></form></div><div style=\"margin-top: 2rem;\"><a href=\"/\" class=\"nav-link\">← Back to Home</a></div></div>";

/// The counter page up to the count.
pub const COUNTER_INTRO: &'static str = "<div class=\"container\"><div class=\"card\"><h1>Counter Demo</h1><p>This counter persists per-user using server-side storage and hydration.</p><div style=\"text-align: center;\"><span id=\"count-display\">";

/// The counter page from the count to the state script.
pub const COUNTER_MIDDLE: &'static str = "</span><div><button id=\"inc-btn\" class=\"btn\">Increment Count</button></div></div></div><div style=\"margin-top: 2rem;\"><a href=\"/\" class=\"nav-link\">← Back to Home</a></div>";

/// The opening of a page script.
pub const SCRIPT_OPEN: &'static str = "<script data-page>";

/// The script of the counter page: it shows the count from the page state and
/// sends increments to `/api/increment`.
pub const COUNTER_SCRIPT: &'static str = r#"
                    const btn = document.getElementById('inc-btn');
                    const display = document.getElementById('count-display');
                    let state = Router.getState('counter') || { count: 0 };
                    display.innerText = state.count;

                    btn.onclick = async () => {
                        // Minimal visual feedback without changing text
                        btn.style.opacity = '0.7';
                        try {
                            const response = await fetch('/api/increment', { method: 'POST' });
                            if (response.ok) {
                                const data = await response.json();
                                Router.setState('counter', { count: data.count }, true);
                                display.innerText = data.count;
                            } else if (response.status === 401) {
                                window.location.href = '/login';
                            }
                        } catch (err) {
                            console.error('Increment failed:', err);
                        } finally {
                            btn.style.opacity = '1';
                        }
                    };
                "#;

/// The end of the counter page.
pub const COUNTER_END: &'static str = "</script></div>";

/// The WebSocket demo page.
pub const WS_DEMO_PAGE: &'static str = "<div class=\"container\"><div class=\"card\"><h1>WebSocket Demo</h1><p>A persistent real-time connection managed via Tokio and Hyper-tungstenite.</p><div style=\"display: flex; gap: 1rem; align-items: stretch;\"><div style=\"flex: 1;\"><button id=\"ws-connect\" class=\"btn\">Connect</button><button id=\"ws-disconnect\" class=\"btn btn-outline\" style=\"margin-top: 0.5rem;\" disabled>Disconnect</button><button id=\"ws-ping\" class=\"btn\" style=\"margin-top: 1rem; width: 100%; display: block;\" disabled>Send Ping</button><button id=\"ws-inc\" class=\"btn\" style=\"margin-top: 0.5rem; width: 100%; display: block;\" disabled>Realtime Increment</button></div><div style=\"flex: 2; background: #1a1b26; border-radius: 8px; padding: 1rem; color: #a9b1d6; font-family: monospace; overflow-y: auto; max-height: 250px;\" id=\"ws-logs\"><div>&gt; Disconnected</div></div></div></div><div style=\"margin-top: 2rem;\"><a href=\"/\" class=\"nav-link\">← Back to Home</a></div></div>";

/// The state of the counter page that its script starts from.
pub struct CounterState {
    pub count: i32,
}

/// The JSON text of a counter state: `{"count":N}`.
pub open spec fn counter_json(count: i32) -> Seq<char> {
    "{\"count\":"@ + decimal(count as int) + "}"@
}

impl CounterState {
    /// The JSON text of the state.
    pub fn to_json(&self) -> (r: String)
        ensures
            r@ == counter_json(self.count),
    {
        let mut out: Vec<char> = Vec::new();
        push_str(&mut out, "{\"count\":");
        push_decimal(&mut out, self.count as i64);
        push_str(&mut out, "}");
        string_of(&out)
    }
}

/// The markup of the sign-in page, with an error banner when there is an
/// error, and `csrf_token` in the form's hidden `csrf_token` field.
pub open spec fn login_html(error: Option<Seq<char>>, csrf_token: Seq<char>) -> Seq<char> {
    LOGIN_INTRO@ + match error {
        Some(e) => ERROR_BANNER@ + html_escape(e) + DIV_END@,
        None => Seq::empty(),
    } + LOGIN_FORM_OPEN@ + html_escape(csrf_token) + LOGIN_FORM@
}

/// The markup of the profile page of user `name`.
pub open spec fn profile_html(name: Seq<char>) -> Seq<char> {
    PROFILE_INTRO@ + html_escape(name) + PROFILE_REST@
}

/// The markup of the counter page showing `count`, with the state script that
/// hands the count to the page script.
pub open spec fn counter_html(count: i32) -> Seq<char> {
    COUNTER_INTRO@ + decimal(count as int) + COUNTER_MIDDLE@ + state_script(
        "Router.setState"@,
        "counter"@,
        counter_json(count),
    ) + SCRIPT_OPEN@ + COUNTER_SCRIPT@ + COUNTER_END@
}

/// The home page.
pub fn home_page() -> (r: String)
    ensures
        r@ == HOME_PAGE@,
{
    HOME_PAGE.to_owned()
}

/// The sign-in page, showing `error` (escaped) in a banner when given, with
/// the CSRF token (escaped) in a hidden field of the form.
pub fn login_page(error: Option<&str>, csrf_token: &str) -> (r: String)
    ensures
        r@ == login_html(
            match error {
                Some(e) => Some(e@),
                None => None,
            },
            csrf_token@,
        ),
{
    let mut out: Vec<char> = Vec::new();
    push_str(&mut out, LOGIN_INTRO);
    match error {
        Some(e) => {
            push_str(&mut out, ERROR_BANNER);
            push_str(&mut out, escape_html(e).as_str());
            push_str(&mut out, DIV_END);
        },
        None => {},
    }
    push_str(&mut out, LOGIN_FORM_OPEN);
    push_str(&mut out, escape_html(csrf_token).as_str());
    push_str(&mut out, LOGIN_FORM);
    string_of(&out)
}

/// The profile page of `username` (escaped).
pub fn profile_page(username: &str) -> (r: String)
    ensures
        r@ == profile_html(username@),
{
    let mut out: Vec<char> = Vec::new();
    push_str(&mut out, PROFILE_INTRO);
    push_str(&mut out, escape_html(username).as_str());
    push_str(&mut out, PROFILE_REST);
    string_of(&out)
}

/// The counter page for the given state.
pub fn counter_page(state: &CounterState) -> (r: String)
    ensures
        r@ == counter_html(state.count),
{
    let mut out: Vec<char> = Vec::new();
    push_str(&mut out, COUNTER_INTRO);
    push_decimal(&mut out, state.count as i64);
    push_str(&mut out, COUNTER_MIDDLE);
    let json = state.to_json();
    push_str(&mut out, serialize_state("counter", json.as_str()).as_str());
    push_str(&mut out, SCRIPT_OPEN);
    push_str(&mut out, COUNTER_SCRIPT);
    push_str(&mut out, COUNTER_END);
    string_of(&out)
}

/// The WebSocket demo page.
pub fn ws_demo_page() -> (r: String)
    ensures
        r@ == WS_DEMO_PAGE@,
{
    WS_DEMO_PAGE.to_owned()
}

} // verus!
