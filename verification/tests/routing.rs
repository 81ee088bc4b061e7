use direkuta::Method;
use direkuta::router::Router;

#[test]
fn parameter_round_trip() {
    let mut r = Router::new();
    r.route(Method::Get, "/items/<id:(\\d+)>", 1).unwrap();
    let (handler, cap) = r.recognize(&Method::Get, "/items/42").unwrap();
    assert_eq!(handler, 1);
    assert_eq!(cap.len(), 1);
    assert_eq!(cap.get("id").as_str(), "42");
    assert_eq!(cap.try_get("id").unwrap().as_str(), "42");
    assert!(cap.try_get("other").is_none());
}

#[test]
fn first_registered_route_wins() {
    let mut r = Router::new();
    r.get("/<a:(.+)>", 1).unwrap();
    r.get("/items", 2).unwrap();
    let (handler, cap) = r.recognize(&Method::Get, "/items").unwrap();
    assert_eq!(handler, 1);
    assert_eq!(cap.get("a").as_str(), "items");
}

#[test]
fn first_registered_route_wins_reversed() {
    let mut r = Router::new();
    r.get("/items", 2).unwrap();
    r.get("/<a:(.+)>", 1).unwrap();
    let (handler, cap) = r.recognize(&Method::Get, "/items").unwrap();
    assert_eq!(handler, 2);
    assert_eq!(cap.len(), 0);
}

#[test]
fn empty_declaration_matches_only_root() {
    let mut r = Router::new();
    r.get("", 7).unwrap();
    assert_eq!(r.recognize(&Method::Get, "/").unwrap().0, 7);
    assert_eq!(r.recognize(&Method::Get, "/x").unwrap_err(), 404);
    assert_eq!(r.recognize(&Method::Get, "").unwrap_err(), 404);
}

#[test]
fn slash_declaration_matches_only_root() {
    let mut r = Router::new();
    r.get("/", 8).unwrap();
    assert_eq!(r.recognize(&Method::Get, "/").unwrap().0, 8);
    assert_eq!(r.recognize(&Method::Get, "/x").unwrap_err(), 404);
}

#[test]
fn trailing_slash_is_tolerated() {
    let mut r = Router::new();
    r.get("/foo", 3).unwrap();
    assert_eq!(r.recognize(&Method::Get, "/foo").unwrap().0, 3);
    assert_eq!(r.recognize(&Method::Get, "/foo/").unwrap().0, 3);
    assert_eq!(r.recognize(&Method::Get, "/foo//").unwrap_err(), 404);
}

#[test]
fn unknown_method_is_not_found() {
    let mut r = Router::new();
    r.get("/foo", 3).unwrap();
    assert_eq!(r.recognize(&Method::Post, "/foo").unwrap_err(), 404);
}

#[test]
fn unmatched_path_is_not_found() {
    let mut r = Router::new();
    r.get("/foo", 3).unwrap();
    r.get("/bar/<x:(\\d+)>", 4).unwrap();
    assert_eq!(r.recognize(&Method::Get, "/baz").unwrap_err(), 404);
    assert_eq!(r.recognize(&Method::Get, "/bar/notdigits").unwrap_err(), 404);
}

#[test]
fn every_verb_recognizes() {
    let mut r = Router::new();
    r.get("/v", 1).unwrap();
    r.post("/v", 2).unwrap();
    r.put("/v", 3).unwrap();
    r.delete("/v", 4).unwrap();
    r.head("/v", 5).unwrap();
    r.options("/v", 6).unwrap();
    assert_eq!(r.recognize(&Method::Get, "/v").unwrap().0, 1);
    assert_eq!(r.recognize(&Method::Post, "/v").unwrap().0, 2);
    assert_eq!(r.recognize(&Method::Put, "/v").unwrap().0, 3);
    assert_eq!(r.recognize(&Method::Delete, "/v").unwrap().0, 4);
    assert_eq!(r.recognize(&Method::Head, "/v").unwrap().0, 5);
    assert_eq!(r.recognize(&Method::Options, "/v").unwrap().0, 6);
}

#[test]
fn nested_path_composes_with_direct_registration() {
    let mut nested = Router::new();
    let mut sub = Router::new();
    sub.get("/child", 9).unwrap();
    nested.path("/parent", sub).unwrap();

    let mut direct = Router::new();
    direct.get("/parent/child", 9).unwrap();

    for path in ["/parent/child", "/parent/child/"] {
        let (h1, c1) = nested.recognize(&Method::Get, path).unwrap();
        let (h2, c2) = direct.recognize(&Method::Get, path).unwrap();
        assert_eq!(h1, 9);
        assert_eq!(h2, 9);
        assert_eq!(c1.len(), 0);
        assert_eq!(c2.len(), 0);
    }
    assert_eq!(nested.recognize(&Method::Get, "/child").unwrap_err(), 404);
    assert_eq!(nested.recognize(&Method::Get, "/parent").unwrap_err(), 404);
}

#[test]
fn nested_path_merges_parameter_names_in_order() {
    let mut sub = Router::new();
    sub.get("/<b:(\\w+)>", 11).unwrap();
    let mut r = Router::new();
    r.path("/<a:(\\w+)>", sub).unwrap();
    let (handler, cap) = r.recognize(&Method::Get, "/left/right").unwrap();
    assert_eq!(handler, 11);
    assert_eq!(cap.len(), 2);
    assert_eq!(cap.get("a").as_str(), "left");
    assert_eq!(cap.get("b").as_str(), "right");
}

#[test]
fn nested_path_keeps_methods_apart() {
    let mut sub = Router::new();
    sub.get("/one", 1).unwrap();
    sub.post("/two", 2).unwrap();
    let mut r = Router::new();
    r.get("/solo", 5).unwrap();
    r.path("/p", sub).unwrap();
    assert_eq!(r.recognize(&Method::Get, "/p/one").unwrap().0, 1);
    assert_eq!(r.recognize(&Method::Post, "/p/two").unwrap().0, 2);
    assert_eq!(r.recognize(&Method::Get, "/solo").unwrap().0, 5);
    assert_eq!(r.recognize(&Method::Post, "/p/one").unwrap_err(), 404);
}

#[test]
fn malformed_fragment_is_a_pattern_error() {
    let mut r = Router::new();
    let err = r.route(Method::Get, "/<x:(>", 1).unwrap_err();
    assert_eq!(err.pattern, "^/(/?$");
    assert!(!err.message.is_empty());
    assert_eq!(r.recognize(&Method::Get, "/anything").unwrap_err(), 404);
}

#[test]
fn nested_malformed_prefix_is_a_pattern_error() {
    let mut sub = Router::new();
    sub.get("/x", 1).unwrap();
    let mut parent = Router::new();
    assert!(parent.path("/(", sub).is_err());
}

#[test]
fn anonymous_capture_keeps_its_position() {
    let mut r = Router::new();
    r.get("/n/<:(\\d+)>", 21).unwrap();
    let (handler, cap) = r.recognize(&Method::Get, "/n/7").unwrap();
    assert_eq!(handler, 21);
    assert_eq!(cap.len(), 1);
    assert_eq!(cap.get("").as_str(), "7");
}

#[test]
fn multiple_placeholders_extract_in_order() {
    let mut r = Router::new();
    r.get("/a/<x:(\\d+)>/b/<y:([a-z]+)>", 31).unwrap();
    let (_, cap) = r.recognize(&Method::Get, "/a/10/b/zz").unwrap();
    assert_eq!(cap.len(), 2);
    assert_eq!(cap.get("x").as_str(), "10");
    assert_eq!(cap.get("y").as_str(), "zz");
}
