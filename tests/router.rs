use dispatch_core::router::{match_segments, parse_pattern, split_path, Router, Target};

fn pairs(v: &[(&str, &str)]) -> Vec<(String, String)> {
    v.iter().map(|(a, b)| (a.to_string(), b.to_string())).collect()
}

#[test]
fn placeholder_captures_segment() {
    let mut router = Router::new();
    assert_eq!(router.add("GET", "/users/:id"), Some(0));
    let r = router.resolve("GET", "/users/42");
    assert_eq!(r.target, Target::Route(0));
    assert_eq!(r.params, pairs(&[("id", "42")]));
}

#[test]
fn unmatched_path_goes_to_not_found() {
    let mut router = Router::new();
    router.add("GET", "/users/:id");
    let r = router.resolve("GET", "/nope");
    assert_eq!(r.target, Target::NotFound);
    assert!(r.params.is_empty());
}

#[test]
fn method_must_match() {
    let mut router = Router::new();
    router.add("GET", "/users/:id");
    let r = router.resolve("POST", "/users/42");
    assert_eq!(r.target, Target::NotFound);
    assert!(r.params.is_empty());
}

#[test]
fn several_placeholders_in_order() {
    let mut router = Router::new();
    router.add("GET", "/");
    router.add("GET", "/users/:uid/posts/:pid");
    assert_eq!(router.len(), 2);
    let r = router.resolve("GET", "/users/7/posts/abc");
    assert_eq!(r.target, Target::Route(1));
    assert_eq!(r.params, pairs(&[("uid", "7"), ("pid", "abc")]));
    let root = router.resolve("GET", "/");
    assert_eq!(root.target, Target::Route(0));
    assert!(root.params.is_empty());
}

#[test]
fn first_added_route_wins() {
    let mut router = Router::new();
    router.add("GET", "/a/:x");
    router.add("GET", "/a/b");
    let r = router.resolve("GET", "/a/b");
    assert_eq!(r.target, Target::Route(0));
    assert_eq!(r.params, pairs(&[("x", "b")]));
}

#[test]
fn placeholder_needs_non_empty_segment() {
    let mut router = Router::new();
    router.add("GET", "/users/:id");
    assert_eq!(router.resolve("GET", "/users/").target, Target::NotFound);
    assert_eq!(router.resolve("GET", "/users/42/x").target, Target::NotFound);
}

#[test]
fn pattern_must_start_with_slash() {
    let mut router = Router::new();
    assert_eq!(router.add("GET", "users"), None);
    assert_eq!(router.len(), 0);
    assert!(parse_pattern("").is_none());
}

#[test]
fn path_splitting() {
    assert_eq!(split_path("/a/b"), Some(vec!["a".to_string(), "b".to_string()]));
    assert_eq!(split_path("/"), Some(vec!["".to_string()]));
    assert_eq!(split_path("a"), None);
    assert_eq!(split_path("*"), None);
}

#[test]
fn match_segments_directly() {
    let pat = parse_pattern("/x/:n").unwrap();
    let segs = split_path("/x/5").unwrap();
    assert_eq!(match_segments(&pat, &segs), Some(pairs(&[("n", "5")])));
    let other = split_path("/y/5").unwrap();
    assert_eq!(match_segments(&pat, &other), None);
}
