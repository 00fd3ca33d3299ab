use vanguard::router::{cookie_value, Method, Router};

#[test]
fn exact_route_serves_its_method() {
    let r: Router<(), u32> = Router::new(()).get("/", 1).post("/login", 2).get("/login", 3);
    assert_eq!(r.handle(Method::Get, "/"), Some(&1));
    assert_eq!(r.handle(Method::Post, "/login"), Some(&2));
    assert_eq!(r.handle(Method::Get, "/login"), Some(&3));
    assert_eq!(r.handle(Method::Post, "/"), None);
    assert_eq!(r.handle(Method::Get, "/missing"), None);
}

#[test]
fn later_route_replaces_earlier() {
    let r: Router<(), u32> = Router::new(()).get("/a", 1).get("/a", 7);
    assert_eq!(r.handle(Method::Get, "/a"), Some(&7));
}

#[test]
fn mount_serves_prefix() {
    let r: Router<(), u32> = Router::new(()).get("/", 1).mount("/static", 9);
    assert_eq!(r.handle(Method::Get, "/static/app.css"), Some(&9));
    assert_eq!(r.handle(Method::Post, "/static/x"), Some(&9));
    // plain string prefix, as `str::starts_with`
    assert_eq!(r.handle(Method::Get, "/staticky"), Some(&9));
    assert_eq!(r.handle(Method::Get, "/stat"), None);
}

#[test]
fn exact_route_wins_over_mount() {
    let r: Router<(), u32> = Router::new(()).mount("/", 5).get("/profile", 6);
    assert_eq!(r.handle(Method::Get, "/profile"), Some(&6));
    assert_eq!(r.handle(Method::Post, "/profile"), Some(&5));
    assert_eq!(r.handle(Method::Get, "/anything"), Some(&5));
}

#[test]
fn longest_prefix_wins() {
    let r: Router<(), u32> = Router::new(())
        .mount("/a", 1)
        .mount("/a/b/c", 3)
        .mount("/a/b", 2);
    assert_eq!(r.handle(Method::Get, "/a/b/c/d"), Some(&3));
    assert_eq!(r.handle(Method::Get, "/a/b/x"), Some(&2));
    assert_eq!(r.handle(Method::Get, "/a/x"), Some(&1));
    assert_eq!(r.handle(Method::Get, "/b"), None);
}

#[test]
fn equal_length_prefixes_keep_mount_order() {
    let r: Router<(), u32> = Router::new(()).mount("/ab", 1).mount("/ab", 2);
    assert_eq!(r.handle(Method::Get, "/abc"), Some(&1));
}

#[test]
fn mount_drops_one_trailing_slash() {
    let r: Router<(), u32> = Router::new(()).mount("/files/", 4);
    assert_eq!(r.handle(Method::Get, "/files"), Some(&4));
    let root: Router<(), u32> = Router::new(()).mount("/", 8);
    assert_eq!(root.handle(Method::Get, "/x"), Some(&8));
    assert_eq!(root.handle(Method::Get, ""), None);
}

#[test]
fn mount_orders_by_bytes_not_characters() {
    // "/é" is 3 bytes, "/ab" is 3 bytes, "/abc" is 4 bytes.
    let r: Router<(), u32> = Router::new(()).mount("/é", 1).mount("/abc", 2).mount("/ab", 3);
    assert_eq!(r.handle(Method::Get, "/abcd"), Some(&2));
    assert_eq!(r.handle(Method::Get, "/abx"), Some(&3));
    assert_eq!(r.handle(Method::Get, "/éa"), Some(&1));
}

#[test]
fn router_keeps_state() {
    let r: Router<String, u32> = Router::new("shared".to_string());
    assert_eq!(r.state(), "shared");
}

#[test]
fn cookie_found_among_others() {
    assert_eq!(
        cookie_value("theme=dark; vanguard_auth=abc.def; lang=en", "vanguard_auth"),
        Some("abc.def".to_string())
    );
}

#[test]
fn cookie_parts_are_trimmed() {
    assert_eq!(cookie_value("  a=1 ;\tb=two words  ", "b"), Some("two words".to_string()));
    assert_eq!(cookie_value("a=1", "a"), Some("1".to_string()));
}

#[test]
fn cookie_first_match_wins() {
    assert_eq!(cookie_value("a=1; a=2", "a"), Some("1".to_string()));
}

#[test]
fn cookie_absent() {
    assert_eq!(cookie_value("", "a"), None);
    assert_eq!(cookie_value("ab=1; b=2", "a"), None);
    assert_eq!(cookie_value("a", "a"), None);
    assert_eq!(cookie_value("vanguard_auth_x=1", "vanguard_auth"), None);
}

#[test]
fn cookie_with_empty_value() {
    assert_eq!(cookie_value("a=; b=1", "a"), Some("".to_string()));
}
