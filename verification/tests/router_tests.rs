use http_library::{Route, Router};

fn table() -> Router<u32> {
    let mut r: Router<u32> = Router::new("127.0.0.1:4221");
    r.handle_func("/", 1, vec!["GET"]);
    r.handle_func("/te:?", 2, vec!["GET"]);
    r.handle_func("/test", 3, vec!["GET"]);
    r
}

#[test]
fn resolve_returns_first_matching_route_in_registration_order() {
    let r = table();
    // "/test" matches both the wildcard "/te:?" (registered second) and the
    // exact "/test" (registered third): the earlier one wins.
    let hit = Route::match_route(&r.routes, "/test").expect("a route matches");
    assert_eq!(hit.handler, 2);
    assert_eq!(hit.path, "/te:?");
}

#[test]
fn resolve_returns_none_when_no_pattern_matches() {
    let r = table();
    assert!(Route::match_route(&r.routes, "/missing").is_none());
}

#[test]
fn exact_pattern_requires_equality() {
    let r = table();
    let hit = Route::match_route(&r.routes, "/").expect("the root route matches");
    assert_eq!(hit.handler, 1);
    assert!(Route::match_route(&r.routes, "/x").is_none());
}

#[test]
fn wildcard_matches_by_prefix() {
    let mut r: Router<u32> = Router::new("h");
    r.handle_func("/files/:?", 7, vec!["GET"]);
    assert_eq!(Route::match_route(&r.routes, "/files/a").unwrap().handler, 7);
    assert_eq!(Route::match_route(&r.routes, "/files/a/b").unwrap().handler, 7);
    assert_eq!(Route::match_route(&r.routes, "/files/").unwrap().handler, 7);
    assert!(Route::match_route(&r.routes, "/file").is_none());
}

#[test]
fn a_bare_wildcard_pattern_matches_every_path() {
    let mut r: Router<u32> = Router::new("h");
    r.handle_func(":?", 5, vec!["GET"]);
    assert_eq!(Route::match_route(&r.routes, "/anything").unwrap().handler, 5);
    assert_eq!(Route::match_route(&r.routes, "").unwrap().handler, 5);
}

#[test]
fn registration_keeps_pattern_methods_and_handler() {
    let mut r: Router<u32> = Router::new("localhost:1");
    assert_eq!(r.host, "localhost:1");
    assert!(r.routes.is_empty());
    r.handle_func("/a", 9, vec!["GET", "POST"]);
    assert_eq!(r.routes.len(), 1);
    assert_eq!(r.routes[0].path, "/a");
    assert_eq!(r.routes[0].methods, vec!["GET".to_owned(), "POST".to_owned()]);
    assert_eq!(r.routes[0].handler, 9);
}

#[test]
fn has_method_is_a_separate_check_after_resolution() {
    let r = table();
    let hit = Route::match_route(&r.routes, "/").unwrap();
    assert!(hit.has_method("GET"));
    assert!(!hit.has_method("POST"));
    assert!(!hit.has_method("get"));
}
