//! The demo site: what each of its routes answers, given what the server
//! read from the request and from its shared state.
use vstd::prelude::*;
use crate::auth::{
    auth_cookie_name, created_now, csrf_cookie_name, csrf_token_shape, set_cookie_text, AuthManager,
};
use crate::claims::{decimal, json_escape, push_decimal, push_json_escaped, Claims};
use crate::pages::{
    counter_html, counter_page, home_page, login_html, login_page, profile_html, profile_page,
    CounterState, HOME_PAGE,
};
use crate::response::{text_html, text_plain, Reply, ReplyView};
use crate::text::{chars_of, string_of};
use crate::view::{page_html, push_str, Page, PageView};
use crate::ws::{command_of, ws_command, WsCommand};

verus! {

/// `Location`
pub const LOCATION: &'static str = "Location";

/// `Set-Cookie`
pub const SET_COOKIE: &'static str = "Set-Cookie";

/// `application/json`
pub const APPLICATION_JSON: &'static str = "application/json";

/// The title of the sign-in page.
pub const LOGIN_TITLE: &'static str = "Login - Vanguard";

/// The message shown when the body of a sign-in request is not a sign-in form.
pub const INVALID_FORM: &'static str = "Invalid form data";

/// The message shown when the CSRF token of a sign-in form does not match its cookie.
pub const INVALID_CSRF: &'static str = "Invalid CSRF token";

/// The message shown when no session token could be issued.
pub const TOKEN_FAILED: &'static str = "Internal error generating token";

/// How long a session lasts, in minutes.
pub const SESSION_MINUTES: i64 = 60;

/// A page with the given title, description and content, and nothing else.
pub open spec fn simple_page(title: Seq<char>, description: Option<Seq<char>>, content: Seq<char>) -> PageView {
    PageView {
        title,
        description,
        keywords: Seq::empty(),
        canonical_url: None,
        og_image: None,
        head_tags: Seq::empty(),
        inline_css: Seq::empty(),
        inline_js: Seq::empty(),
        content: Some(content),
    }
}

/// The home page document.
pub open spec fn home_view() -> PageView {
    PageView {
        keywords: seq!["vanguard"@, "rust"@, "framework"@, "hyper"@, "web"@],
        ..simple_page(
            "Home - Vanguard"@,
            Some("A high-performance Rust foundation for secure, server-rendered web applications."@),
            HOME_PAGE@,
        )
    }
}

/// The counter page document showing `count`.
pub open spec fn counter_view(count: i32) -> PageView {
    simple_page(
        "Counter - Vanguard"@,
        Some("Interactive counter demo built with Vanguard."@),
        counter_html(count),
    )
}

/// The sign-in page document, as a signed-out visitor first gets it, with the
/// CSRF token `csrf_token` in its form.
pub open spec fn login_form_view(csrf_token: Seq<char>) -> PageView {
    simple_page(LOGIN_TITLE@, Some("Log in to your Vanguard account."@), login_html(None, csrf_token))
}

/// The sign-in page document with an error banner (and an empty CSRF token).
pub open spec fn login_error_view(error: Seq<char>) -> PageView {
    simple_page(LOGIN_TITLE@, None, login_html(Some(error), Seq::empty()))
}

/// The profile page document of user `name`.
pub open spec fn profile_view(name: Seq<char>) -> PageView {
    simple_page("Profile - "@ + name, Some("User profile and settings."@), profile_html(name))
}

/// An HTML response with the given status and document.
pub open spec fn html_view(status: u16, body: Seq<char>) -> ReplyView {
    (status, Some(text_html()), Seq::empty(), body)
}

/// A `303 See Other` response to `path`, with further headers after `Location`.
pub open spec fn redirect_view(path: Seq<char>, more: Seq<(Seq<char>, Seq<char>)>) -> ReplyView {
    (303, None, seq![(LOCATION@, path)] + more, Seq::empty())
}

/// The sign-in page again, with `error` in its banner, under `status`.
pub open spec fn login_error_reply(status: u16, error: Seq<char>) -> ReplyView {
    html_view(status, page_html(login_error_view(error)))
}

/// The response that signs a user in with session token `token`: a redirect
/// to the profile page that sets the session cookie.
pub open spec fn signed_in_reply(token: Seq<char>, secure: bool) -> ReplyView {
    redirect_view("/profile"@, seq![(SET_COOKIE@, set_cookie_text(auth_cookie_name(), token, secure))])
}

/// The JSON text of an update sent over a WebSocket.
pub open spec fn update_json(topic: Seq<char>, data: Seq<char>) -> Seq<char> {
    "{\"topic\":\""@ + json_escape(topic) + "\",\"data\":\""@ + json_escape(data) + "\"}"@
}

/// The JSON text of the answer to an increment request.
pub open spec fn increment_json(count: i32) -> Seq<char> {
    "{\"count\":"@ + decimal(count as int) + ",\"success\":true}"@
}

/// A submitted sign-in form.
pub struct LoginForm {
    pub username: String,
    pub password: String,
    pub csrf_token: String,
}

/// What the server made of the body of a sign-in request.
pub enum LoginInput {
    /// The body is not a sign-in form.
    Unreadable,
    /// A sign-in form whose fields failed validation, with the message that says why.
    Invalid(String),
    /// A sign-in form whose fields passed validation.
    Valid(LoginForm),
}

fn owned(s: &str) -> (r: String)
    ensures
        r@ == s@,
{
    s.to_owned()
}

fn header(name: &str, value: String) -> (r: (String, String))
    ensures
        r.0@ == name@,
        r.1@ == value@,
{
    (owned(name), value)
}

fn document(page: Page) -> (r: String)
    ensures
        r@ == page_html(page@),
{
    page.render()
}

/// An HTML page response (`200 OK`, `text/html`).
pub fn html_reply(body: String) -> (r: Reply)
    ensures
        r@ == html_view(200, body@),
{
    html_with_status(200, body)
}

fn html_with_status(status: u16, body: String) -> (r: Reply)
    ensures
        r@ == html_view(status, body@),
{
    let r = Reply { status, content_type: Some(owned("text/html")), headers: Vec::new(), body };
    proof {
        reveal_strlit("text/html");
    }
    assert(r@.1 == Some(text_html()));
    assert(r@.2 =~= Seq::<(Seq<char>, Seq<char>)>::empty());
    r
}

fn redirect_with(path: &str, more: Vec<(String, String)>) -> (r: Reply)
    ensures
        r@ == redirect_view(path@, crate::response::headers_view(more@)),
{
    let mut headers: Vec<(String, String)> = Vec::new();
    headers.push(header(LOCATION, owned(path)));
    let mut i: usize = 0;
    while i < more.len()
        invariant
            i <= more@.len(),
            crate::response::headers_view(headers@) =~= seq![(LOCATION@, path@)]
                + crate::response::headers_view(more@).take(i as int),
        decreases more@.len() - i,
    {
        let (n, v) = (owned(more[i].0.as_str()), owned(more[i].1.as_str()));
        let ghost before = headers@;
        headers.push((n, v));
        assert(crate::response::headers_view(headers@) =~= crate::response::headers_view(before).push(
            (more@[i as int].0@, more@[i as int].1@),
        ));
        assert(crate::response::headers_view(more@).take(i + 1) =~= crate::response::headers_view(more@).take(
            i as int,
        ).push((more@[i as int].0@, more@[i as int].1@)));
        i = i + 1;
    }
    let r = Reply { status: 303, content_type: None, headers, body: String::new() };
    assert(crate::response::headers_view(more@).take(more@.len() as int) =~= crate::response::headers_view(more@));
    assert(r@.3 =~= Seq::<char>::empty());
    r
}

/// A `303 See Other` response to `path`.
pub fn redirect(path: &str) -> (r: Reply)
    ensures
        r@ == redirect_view(path@, Seq::empty()),
{
    let none: Vec<(String, String)> = Vec::new();
    assert(crate::response::headers_view(none@) =~= Seq::<(Seq<char>, Seq<char>)>::empty());
    redirect_with(path, none)
}

/// The home page document.
pub fn home_document() -> (r: String)
    ensures
        r@ == page_html(home_view()),
{
    let keywords: [&str; 5] = ["vanguard", "rust", "framework", "hyper", "web"];
    let ks = keywords.as_slice();
    assert(ks@ =~= seq!["vanguard", "rust", "framework", "hyper", "web"]);
    let page = Page::new(owned("Home - Vanguard")).description(
        owned("A high-performance Rust foundation for secure, server-rendered web applications."),
    ).keywords(ks).content(home_page());
    assert(page@.keywords =~= home_view().keywords);
    assert(page@ == home_view());
    document(page)
}

/// The counter page document showing `count`.
pub fn counter_document(count: i32) -> (r: String)
    ensures
        r@ == page_html(counter_view(count)),
{
    let page = Page::new(owned("Counter - Vanguard")).description(
        owned("Interactive counter demo built with Vanguard."),
    ).content(counter_page(&CounterState { count }));
    assert(page@ == counter_view(count));
    document(page)
}

/// The sign-in page document, as a signed-out visitor first gets it, with
/// `csrf_token` in its form.
pub fn login_form_document(csrf_token: &str) -> (r: String)
    ensures
        r@ == page_html(login_form_view(csrf_token@)),
{
    let page = Page::new(owned(LOGIN_TITLE)).description(owned("Log in to your Vanguard account.")).content(
        login_page(None, csrf_token),
    );
    assert(page@ == login_form_view(csrf_token@));
    document(page)
}

/// The sign-in page document with `error` in its banner.
pub fn login_error_document(error: &str) -> (r: String)
    ensures
        r@ == page_html(login_error_view(error@)),
{
    let no_token = String::new();
    let page = Page::new(owned(LOGIN_TITLE)).content(login_page(Some(error), no_token.as_str()));
    assert(page@ == login_error_view(error@));
    document(page)
}

/// The profile page document of user `name`.
pub fn profile_document(name: &str) -> (r: String)
    ensures
        r@ == page_html(profile_view(name@)),
{
    let mut title = chars_of("Profile - ");
    crate::text::extend_chars(&mut title, &chars_of(name));
    let page = Page::new(string_of(&title)).description(owned("User profile and settings.")).content(
        profile_page(name),
    );
    assert(page@ == profile_view(name@));
    document(page)
}

/// `GET /`: the home page.
pub fn home_reply() -> (r: Reply)
    ensures
        r@ == html_view(200, page_html(home_view())),
{
    html_reply(home_document())
}

/// `GET /counter` for a signed-in user whose counter stands at `count`.
pub fn counter_reply(count: i32) -> (r: Reply)
    ensures
        r@ == html_view(200, page_html(counter_view(count))),
{
    html_reply(counter_document(count))
}

/// `GET /profile`: the profile page of the signed-in user, or a redirect to
/// the sign-in page when nobody is signed in.
pub fn profile_reply(user: Option<Claims>) -> (r: Reply)
    ensures
        match user {
            Some(c) => r@ == html_view(200, page_html(profile_view(c.sub@))),
            None => r@ == redirect_view("/login"@, Seq::empty()),
        },
{
    match user {
        Some(c) => html_reply(profile_document(c.sub.as_str())),
        None => redirect("/login"),
    }
}

/// The response that hands a signed-out visitor the sign-in page with the CSRF
/// token `csrf_token` in its form and the same token in the CSRF cookie.
pub open spec fn login_page_reply_view(csrf_token: Seq<char>, secure: bool) -> ReplyView {
    (
        200u16,
        Some(text_html()),
        seq![(SET_COOKIE@, set_cookie_text(csrf_cookie_name(), csrf_token, secure))],
        page_html(login_form_view(csrf_token)),
    )
}

/// The sign-in page for a signed-out visitor, carrying `csrf_token` both in
/// its form and in the CSRF cookie.
pub fn login_page_reply(auth: &AuthManager, csrf_token: &str, secure: bool) -> (r: Reply)
    ensures
        r@ == login_page_reply_view(csrf_token@, secure),
{
    let mut r = html_reply(login_form_document(csrf_token));
    let cookie = auth.csrf_cookie(csrf_token, secure);
    r.headers.push(header(SET_COOKIE, cookie));
    assert(r@.2 =~= seq![(SET_COOKIE@, set_cookie_text(csrf_cookie_name(), csrf_token@, secure))]);
    r
}

/// `GET /login`: a signed-in user is sent to the profile page; anyone else
/// gets the sign-in page with a fresh CSRF token, in its form and in the CSRF
/// cookie.
pub fn login_get_reply(auth: &AuthManager, signed_in: bool, secure: bool) -> (r: Reply)
    ensures
        signed_in ==> r@ == redirect_view("/profile"@, Seq::empty()),
        !signed_in ==> exists|t: Seq<char>| csrf_token_shape(t) && r@ == login_page_reply_view(t, secure),
{
    if signed_in {
        return redirect("/profile");
    }
    let token = auth.generate_csrf_token();
    let r = login_page_reply(auth, token.as_str(), secure);
    assert(csrf_token_shape(token@) && r@ == login_page_reply_view(token@, secure));
    r
}

/// `POST /login`: checks the form and its CSRF token against the CSRF cookie
/// (`csrf_cookie`), then signs the user in with a session token valid for
/// an hour. A form that cannot be read, fails validation or carries the
/// wrong token gets the sign-in page again with the reason; the token is
/// issued with the clock's time.
pub fn login_reply(auth: &AuthManager, input: LoginInput, csrf_cookie: Option<&str>, secure: bool) -> (r: Reply)
    ensures
        input is Unreadable ==> r@ == login_error_reply(200, INVALID_FORM@),
        input matches LoginInput::Invalid(m) ==> r@ == login_error_reply(200, m@),
        input matches LoginInput::Valid(f) ==> {
            if csrf_cookie is None || csrf_cookie.unwrap()@ != f.csrf_token@ {
                r@ == login_error_reply(403, INVALID_CSRF@)
            } else {
                exists|now: i64, t: Result<String, String>|
                    call_ensures(crate::auth::clock_now, (), now) && created_now(
                        auth.sign_key(),
                        f.username@,
                        SESSION_MINUTES,
                        now,
                        t,
                    ) && r@ == match t {
                        Ok(token) => signed_in_reply(token@, secure),
                        Err(_) => login_error_reply(200, TOKEN_FAILED@),
                    }
            }
        },
{
    let form = match input {
        LoginInput::Unreadable => return html_with_status(200, login_error_document(INVALID_FORM)),
        LoginInput::Invalid(m) => return html_with_status(200, login_error_document(m.as_str())),
        LoginInput::Valid(f) => f,
    };
    let matches = match csrf_cookie {
        Some(c) => crate::text::chars_eq(&chars_of(c), &chars_of(form.csrf_token.as_str())),
        None => false,
    };
    if !matches {
        return html_with_status(403, login_error_document(INVALID_CSRF));
    }
    let t = auth.create_token(form.username.as_str(), SESSION_MINUTES);
    let ghost now = choose|now: i64|
        call_ensures(crate::auth::clock_now, (), now) && created_now(
            auth.sign_key(),
            form.username@,
            SESSION_MINUTES,
            now,
            t,
        );
    match t {
        Ok(token) => {
            let ghost tv = token@;
            let cookie = auth.auth_cookie(token, secure);
            let mut more: Vec<(String, String)> = Vec::new();
            more.push(header(SET_COOKIE, cookie));
            let r = redirect_with("/profile", more);
            assert(r@ == signed_in_reply(tv, secure));
            r
        },
        Err(_) => html_with_status(200, login_error_document(TOKEN_FAILED)),
    }
}

/// `POST /logout`: a redirect home that clears the session cookie.
pub fn logout_reply(auth: &AuthManager, secure: bool) -> (r: Reply)
    ensures
        r@ == redirect_view(
            "/"@,
            seq![(SET_COOKIE@, set_cookie_text(auth_cookie_name(), Seq::empty(), secure) + "; Max-Age=0"@)],
        ),
{
    let cookie = auth.auth_cookie(String::new(), secure);
    let mut c = chars_of(cookie.as_str());
    crate::text::extend_chars(&mut c, &chars_of("; Max-Age=0"));
    let mut more: Vec<(String, String)> = Vec::new();
    more.push(header(SET_COOKIE, string_of(&c)));
    redirect_with("/", more)
}

/// `POST /api/increment` when the counter now stands at `count`: its new value, as JSON.
pub fn increment_reply(count: i32) -> (r: Reply)
    ensures
        r@ == (200u16, Some(APPLICATION_JSON@), Seq::<(Seq<char>, Seq<char>)>::empty(), increment_json(count)),
{
    let mut out: Vec<char> = Vec::new();
    push_str(&mut out, "{\"count\":");
    push_decimal(&mut out, count as i64);
    push_str(&mut out, ",\"success\":true}");
    let r = Reply {
        status: 200,
        content_type: Some(owned(APPLICATION_JSON)),
        headers: Vec::new(),
        body: string_of(&out),
    };
    assert(r@.2 =~= Seq::<(Seq<char>, Seq<char>)>::empty());
    r
}

fn plain_reply(status: u16, content_type: bool, body: &str) -> (r: Reply)
    ensures
        r@ == (
            status,
            if content_type {
                Some(text_plain())
            } else {
                None
            },
            Seq::<(Seq<char>, Seq<char>)>::empty(),
            body@,
        ),
{
    let t = if content_type {
        proof {
            reveal_strlit("text/plain");
        }
        Some(owned("text/plain"))
    } else {
        None
    };
    let r = Reply { status, content_type: t, headers: Vec::new(), body: owned(body) };
    assert(r@.2 =~= Seq::<(Seq<char>, Seq<char>)>::empty());
    r
}

/// The answer to a client that has used up its requests.
pub fn rate_limited_reply() -> (r: Reply)
    ensures
        r@ == (429u16, Some(text_plain()), Seq::<(Seq<char>, Seq<char>)>::empty(), "429 Too Many Requests: Slow down!"@),
{
    plain_reply(429, true, "429 Too Many Requests: Slow down!")
}

/// The answer to a request that needs a signed-in user and has none.
pub fn unauthorized_reply() -> (r: Reply)
    ensures
        r@ == (401u16, None::<Seq<char>>, Seq::<(Seq<char>, Seq<char>)>::empty(), "Unauthorized"@),
{
    plain_reply(401, false, "Unauthorized")
}

/// A user's counter after one increment.
pub fn next_count(count: i32) -> (r: i32)
    requires
        count < i32::MAX,
    ensures
        r == count + 1,
{
    count + 1
}

/// Why a request to the counter API is refused, if it is: the client has used
/// up its requests (`429`, checked first), or nobody is signed in (`401`).
pub fn api_refusal(allowed: bool, signed_in: bool) -> (r: Option<Reply>)
    ensures
        !allowed ==> r is Some && r.unwrap()@ == (
            429u16,
            Some(text_plain()),
            Seq::<(Seq<char>, Seq<char>)>::empty(),
            "429 Too Many Requests: Slow down!"@,
        ),
        allowed && !signed_in ==> r is Some && r.unwrap()@ == (
            401u16,
            None::<Seq<char>>,
            Seq::<(Seq<char>, Seq<char>)>::empty(),
            "Unauthorized"@,
        ),
        allowed && signed_in ==> r is None,
{
    if !allowed {
        Some(rate_limited_reply())
    } else if !signed_in {
        Some(unauthorized_reply())
    } else {
        None
    }
}

/// Why a WebSocket request is refused, if it is: nobody is signed in
/// (`401`), or it does not ask for an upgrade (`400`).
pub fn ws_refusal(signed_in: bool, upgrade: bool) -> (r: Option<Reply>)
    ensures
        !signed_in ==> r is Some && r.unwrap()@ == (
            401u16,
            None::<Seq<char>>,
            Seq::<(Seq<char>, Seq<char>)>::empty(),
            "Unauthorized for WebSocket"@,
        ),
        signed_in && !upgrade ==> r is Some && r.unwrap()@ == (
            400u16,
            None::<Seq<char>>,
            Seq::<(Seq<char>, Seq<char>)>::empty(),
            "Not a WebSocket connection request"@,
        ),
        signed_in && upgrade ==> r is None,
{
    if !signed_in {
        Some(plain_reply(401, false, "Unauthorized for WebSocket"))
    } else if !upgrade {
        Some(plain_reply(400, false, "Not a WebSocket connection request"))
    } else {
        None
    }
}

/// The JSON text of an update with the given topic and data.
pub fn update_text(topic: &str, data: &str) -> (r: String)
    ensures
        r@ == update_json(topic@, data@),
{
    let mut out: Vec<char> = Vec::new();
    push_str(&mut out, "{\"topic\":\"");
    push_json_escaped(&mut out, &chars_of(topic));
    push_str(&mut out, "\",\"data\":\"");
    push_json_escaped(&mut out, &chars_of(data));
    push_str(&mut out, "\"}");
    string_of(&out)
}

/// The update that greets `user` when the connection opens.
pub fn welcome_update(user: &str) -> (r: String)
    ensures
        r@ == update_json("system"@, "Welcome, "@ + user@),
{
    update_text("system", crate::ws::welcome_text(user).as_str())
}

/// The update that answers a ping.
pub fn pong_update() -> (r: String)
    ensures
        r@ == update_json("pong"@, "PONG"@),
{
    update_text("pong", "PONG")
}

/// The update that reports the user's counter at `count`.
pub fn counter_update(count: i32) -> (r: String)
    ensures
        r@ == update_json("counter_update"@, decimal(count as int)),
{
    let mut d: Vec<char> = Vec::new();
    push_decimal(&mut d, count as i64);
    update_text("counter_update", string_of(&d).as_str())
}

/// What arrives on a WebSocket.
pub enum WsEvent {
    /// A text message, with the action it names when it is a JSON command.
    Text(Option<String>),
    /// The client closed the connection.
    Close,
    /// Reading from the connection failed.
    Failed,
    /// Any other frame.
    Other,
}

/// What the server does next on a WebSocket.
pub enum WsAction {
    /// Send this text and go on.
    Send(String),
    /// Add one to the user's counter, send its new value, and go on.
    Increment,
    /// Go on.
    Continue,
    /// Stop serving the connection.
    Stop,
}

/// What the server does with an event on a user's WebSocket: answer a ping
/// with a pong, count an increment, ignore anything else, and stop when the
/// connection closes or fails.
pub fn ws_next(event: &WsEvent) -> (a: WsAction)
    ensures
        match event {
            WsEvent::Text(Some(action)) => match command_of(action@) {
                WsCommand::Ping => a matches WsAction::Send(t) && t@ == update_json("pong"@, "PONG"@),
                WsCommand::IncrementCounter => a is Increment,
                WsCommand::Ignore => a is Continue,
            },
            WsEvent::Text(None) | WsEvent::Other => a is Continue,
            WsEvent::Close | WsEvent::Failed => a is Stop,
        },
{
    match event {
        WsEvent::Text(Some(action)) => match ws_command(action.as_str()) {
            WsCommand::Ping => WsAction::Send(pong_update()),
            WsCommand::IncrementCounter => WsAction::Increment,
            WsCommand::Ignore => WsAction::Continue,
        },
        WsEvent::Text(None) | WsEvent::Other => WsAction::Continue,
        WsEvent::Close | WsEvent::Failed => WsAction::Stop,
    }
}

/// The event ends the session: the connection closed or failed.
pub open spec fn stops(e: WsEvent) -> bool {
    e is Close || e is Failed
}

/// The event asks to add one to the user's counter.
pub open spec fn asks_increment(e: WsEvent) -> bool {
    e matches WsEvent::Text(Some(a)) && command_of(a@) == WsCommand::IncrementCounter
}

/// A WebSocket session as plain values: whether it is still open, and how
/// many increments it has asked the server to make.
pub open spec fn session_step(s: (bool, nat), e: WsEvent) -> (bool, nat) {
    if !s.0 {
        s
    } else {
        (!stops(e), s.1 + if asks_increment(e) {
            1nat
        } else {
            0nat
        })
    }
}

/// The session after a sequence of events.
pub open spec fn session_run(s: (bool, nat), events: Seq<WsEvent>) -> (bool, nat)
    decreases events.len(),
{
    if events.len() == 0 {
        s
    } else {
        session_run(session_step(s, events[0]), events.drop_first())
    }
}

/// The number of increment commands among the events before the first one
/// that ends the session.
pub open spec fn increments_before_stop(events: Seq<WsEvent>) -> nat
    decreases events.len(),
{
    if events.len() == 0 {
        0
    } else if stops(events[0]) {
        0
    } else {
        (if asks_increment(events[0]) {
            1nat
        } else {
            0nat
        }) + increments_before_stop(events.drop_first())
    }
}

/// The state of one user's WebSocket session.
pub struct WsSession {
    open: bool,
    increments: Ghost<nat>,
}

impl View for WsSession {
    type V = (bool, nat);

    closed spec fn view(&self) -> (bool, nat) {
        (self.open, self.increments@)
    }
}

impl WsSession {
    /// A session that has just opened.
    pub fn new() -> (s: Self)
        ensures
            s@ == (true, 0nat),
    {
        WsSession { open: true, increments: Ghost(0) }
    }

    /// What the server does with the next event of the session: as `ws_next`
    /// says while it is open; once it has ended, nothing but stop.
    pub fn step(&mut self, event: &WsEvent) -> (a: WsAction)
        ensures
            final(self)@ == session_step(old(self)@, *event),
            !old(self)@.0 ==> a is Stop,
            old(self)@.0 ==> match event {
                WsEvent::Text(Some(action)) => match command_of(action@) {
                    WsCommand::Ping => a matches WsAction::Send(t) && t@ == update_json("pong"@, "PONG"@),
                    WsCommand::IncrementCounter => a is Increment,
                    WsCommand::Ignore => a is Continue,
                },
                WsEvent::Text(None) | WsEvent::Other => a is Continue,
                WsEvent::Close | WsEvent::Failed => a is Stop,
            },
    {
        if !self.open {
            return WsAction::Stop;
        }
        let a = ws_next(event);
        let ghost inc: nat = if asks_increment(*event) {
            1nat
        } else {
            0nat
        };
        self.increments = Ghost(self.increments@ + inc);
        self.open = match event {
            WsEvent::Close | WsEvent::Failed => false,
            _ => true,
        };
        a
    }
}

/// Over a whole WebSocket session, the server makes exactly as many
/// increments as there are increment commands before the connection closes
/// or fails, and after that it makes none and answers nothing: the session
/// ends open exactly when no event ended it.
pub proof fn lemma_session_increments(n: nat, events: Seq<WsEvent>)
    ensures
        session_run((true, n), events) == (
            !(exists|i: int| 0 <= i < events.len() && stops(#[trigger] events[i])),
            n + increments_before_stop(events),
        ),
        session_run((false, n), events) == (false, n),
    decreases events.len(),
{
    if events.len() > 0 {
        let rest = events.drop_first();
        lemma_session_increments(n, rest);
        if !stops(events[0]) {
            let m = n + if asks_increment(events[0]) {
                1nat
            } else {
                0nat
            };
            lemma_session_increments(m, rest);
            if exists|i: int| 0 <= i < events.len() && stops(#[trigger] events[i]) {
                let i = choose|i: int| 0 <= i < events.len() && stops(#[trigger] events[i]);
                assert(rest[i - 1] == events[i]);
            }
            if exists|i: int| 0 <= i < rest.len() && stops(#[trigger] rest[i]) {
                let i = choose|i: int| 0 <= i < rest.len() && stops(#[trigger] rest[i]);
                assert(events[i + 1] == rest[i]);
            }
        } else {
            assert(stops(events[0]));
        }
    }
}

} // verus!
