use direkuta::Method;
use direkuta::normal::normalize;
use direkuta::router::Router;
use direkuta::scan::read;
use direkuta::text::str_to_chars;

fn to_string(chars: Vec<char>) -> String {
    chars.into_iter().collect()
}

fn normalized_text(decl: &str) -> String {
    let (_, raw) = read(decl);
    to_string(normalize(&raw))
}

#[test]
fn scanner_separates_names_and_pattern() {
    let (ids, raw) = read("/items/<id:(\\d+)>/edit");
    assert_eq!(ids.len(), 1);
    assert_eq!(ids[0].as_str(), "id");
    assert_eq!(to_string(raw), "/items/(\\d+)/edit");
}

#[test]
fn scanner_takes_every_placeholder_in_order() {
    let (ids, raw) = read("/<a:(\\w+)>/mid/<b:(\\d+)>");
    assert_eq!(ids.len(), 2);
    assert_eq!(ids[0].as_str(), "a");
    assert_eq!(ids[1].as_str(), "b");
    assert_eq!(to_string(raw), "/(\\w+)/mid/(\\d+)");
}

#[test]
fn scanner_records_empty_name_for_anonymous_capture() {
    let (ids, raw) = read("/<:(\\d+)>");
    assert_eq!(ids.len(), 1);
    assert_eq!(ids[0].as_str(), "");
    assert_eq!(to_string(raw), "/(\\d+)");
}

#[test]
fn normalization_adds_anchors_and_optional_slash() {
    assert_eq!(normalized_text("/foo"), "^/foo/?$");
    assert_eq!(normalized_text("/items/<id:(\\d+)>"), "^/items/(\\d+)/?$");
}

#[test]
fn normalization_of_decorated_forms_agrees() {
    let plain = normalized_text("/foo");
    assert_eq!(normalized_text("/foo/"), plain);
    assert_eq!(normalized_text("^/foo$"), plain);
    assert_eq!(normalized_text("/foo$"), plain);
    assert_eq!(normalized_text("  /foo  "), plain);
}

#[test]
fn normalization_of_empty_and_root_is_the_root_pattern() {
    assert_eq!(normalized_text(""), "^/$");
    assert_eq!(normalized_text("/"), "^/$");
}

#[test]
fn decorated_declarations_match_with_and_without_trailing_slash() {
    for decl in ["/foo", "/foo/", "^/foo$", "/foo$"] {
        let mut r = Router::new();
        r.get(decl, 1).unwrap();
        assert_eq!(r.recognize(&Method::Get, "/foo").unwrap().0, 1, "{}", decl);
        assert_eq!(r.recognize(&Method::Get, "/foo/").unwrap().0, 1, "{}", decl);
        assert_eq!(r.recognize(&Method::Get, "/fo").unwrap_err(), 404, "{}", decl);
    }
}

#[test]
fn string_chars_round_trip() {
    let v = str_to_chars("abc/`<>:42");
    assert_eq!(v.len(), 10);
    assert_eq!(to_string(v), "abc/`<>:42");
}
