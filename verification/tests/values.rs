use direkuta::Version;
use direkuta::capture::Capture;
use direkuta::config::Config;
use direkuta::error::DireError;
use direkuta::headers::Headers;
use direkuta::json::JsonBuilder;
use direkuta::response::{CssBuilder, JsBuilder, Response};
use direkuta::state::State;

#[test]
fn capture_set_overwrites_by_key() {
    let mut c = Capture::new();
    assert_eq!(c.len(), 0);
    c.set("k", "1");
    c.set("other", "x");
    c.set("k", "2");
    assert_eq!(c.len(), 2);
    assert_eq!(c.get("k").as_str(), "2");
    assert_eq!(c.get("other").as_str(), "x");
    assert!(c.try_get("missing").is_none());
}

#[test]
fn state_set_overwrites_by_key() {
    let mut s = State::new();
    s.set(1, 10);
    s.set(2, 20);
    s.set(1, 30);
    assert_eq!(s.len(), 2);
    assert_eq!(s.get(1), 30);
    assert_eq!(s.get(2), 20);
    assert_eq!(s.try_get(3), None);
}

#[test]
fn headers_keep_insertion_order_and_replace_in_place() {
    let mut h = Headers::new();
    h.insert("content-type", "text/plain");
    h.insert("x-extra", "1");
    h.insert("content-type", "text/html");
    assert_eq!(h.len(), 2);
    let (name, value) = h.entry(0);
    assert_eq!(name.as_str(), "content-type");
    assert_eq!(value.as_str(), "text/html");
    assert_eq!(h.get("x-extra").unwrap().as_str(), "1");
    assert!(h.get("missing").is_none());
}

#[test]
fn headers_extend_merges_in_order() {
    let mut a = Headers::new();
    a.insert("one", "1");
    a.insert("two", "2");
    let mut b = Headers::new();
    b.insert("two", "22");
    b.insert("three", "3");
    a.extend(&b);
    assert_eq!(a.len(), 3);
    assert_eq!(a.get("one").unwrap().as_str(), "1");
    assert_eq!(a.get("two").unwrap().as_str(), "22");
    assert_eq!(a.get("three").unwrap().as_str(), "3");
}

#[test]
fn response_defaults() {
    let r = Response::new();
    assert_eq!(r.status(), 200);
    assert_eq!(r.headers().len(), 0);
    assert!(matches!(r.version(), Version::Http11));
    assert_eq!(r.body().as_str(), "");
}

#[test]
fn response_body_records_content_length() {
    let mut r = Response::new();
    r.set_body("Hello World!");
    assert_eq!(r.headers().get("content-length").unwrap().as_str(), "12");
    assert_eq!(r.body().as_str(), "Hello World!");
}

#[test]
fn response_empty_body_has_zero_content_length() {
    let r = Response::new().with_body("");
    assert_eq!(r.headers().get("content-length").unwrap().as_str(), "0");
}

#[test]
fn response_content_length_counts_bytes_not_chars() {
    let mut r = Response::new();
    r.set_body("héllo");
    assert_eq!(r.headers().get("content-length").unwrap().as_str(), "6");
}

#[test]
fn response_redirect_sets_status_and_location() {
    let r = Response::new().with_redirect("/moved/here");
    assert_eq!(r.status(), 301);
    assert_eq!(r.headers().get("location").unwrap().as_str(), "/moved/here");
}

#[test]
fn response_html_sets_content_type() {
    let mut r = Response::new();
    r.html("<p>hi</p>");
    assert_eq!(r.headers().get("content-type").unwrap().as_str(), "text/html");
    assert_eq!(r.headers().get("content-length").unwrap().as_str(), "9");
    assert_eq!(r.body().as_str(), "<p>hi</p>");
}

#[test]
fn response_css_and_js_builders() {
    let mut css = CssBuilder::new();
    css.append("body {");
    css.append(" }");
    assert_eq!(css.get_body(), "body { }");
    let r = Response::new().with_css(&css);
    assert_eq!(r.headers().get("content-type").unwrap().as_str(), "text/css");
    assert_eq!(r.body().as_str(), "body { }");

    let mut js = JsBuilder::new();
    js.append("alert(1);");
    let r2 = Response::new().with_js(&js);
    assert_eq!(
        r2.headers().get("content-type").unwrap().as_str(),
        "application/javascript"
    );
    assert_eq!(r2.body().as_str(), "alert(1);");
}

#[test]
fn response_json_sets_content_type() {
    let r = Response::new().with_json("{\"hello\":\"world\"}");
    assert_eq!(r.headers().get("content-type").unwrap().as_str(), "application/json");
    assert_eq!(r.body().as_str(), "{\"hello\":\"world\"}");
}

#[test]
fn response_mutable_accessors() {
    let mut r = Response::new();
    *r.status_mut() = 204;
    r.headers_mut().insert("x-a", "b");
    r.body_mut().push_str("text");
    assert_eq!(r.status(), 204);
    assert_eq!(r.headers().get("x-a").unwrap().as_str(), "b");
    assert_eq!(r.body().as_str(), "text");
}

#[test]
fn response_set_status_and_headers() {
    let mut extra = Headers::new();
    extra.insert("x-one", "1");
    let r = Response::new().with_status(418).with_headers(&extra);
    assert_eq!(r.status(), 418);
    assert_eq!(r.headers().get("x-one").unwrap().as_str(), "1");
}

#[test]
fn json_builder_defaults_and_setters() {
    let b: JsonBuilder<u32> = JsonBuilder::new();
    let (code, messages, result, status) = b.into_parts();
    assert_eq!(code, 200);
    assert!(messages.is_empty());
    assert_eq!(result, None);
    assert_eq!(status.as_str(), "OK");

    let mut b2: JsonBuilder<u32> = JsonBuilder::new();
    b2.error("first");
    b2.errors(&vec![String::from("second"), String::from("third")]);
    b2.body(7);
    let b2 = b2.with_code(500).with_status("ERROR");
    let (code, messages, result, status) = b2.into_parts();
    assert_eq!(code, 500);
    assert_eq!(messages, vec!["first", "second", "third"]);
    assert_eq!(result, Some(7));
    assert_eq!(status.as_str(), "ERROR");
}

#[test]
fn config_paths() {
    let mut c = Config::new();
    assert_eq!(c.template_dir().as_str(), "templates");
    assert_eq!(c.static_dir().as_str(), "static");
    c.template_path("views");
    c.static_path("public");
    assert_eq!(c.template_dir().as_str(), "views");
    assert_eq!(c.static_dir().as_str(), "public");
    let d = Config::default();
    assert_eq!(d.template_dir().as_str(), "templates");
}

#[test]
fn dire_error_messages() {
    let e = DireError::Other(String::from("boom"));
    assert_eq!(e.message().as_str(), "boom");
    assert_eq!(e.describe().as_str(), "(DireError [Other] boom)");
    let h = DireError::Hyper(String::from("net down"));
    assert_eq!(h.describe().as_str(), "(DireError [Hyper] net down)");
    let f = DireError::from(String::from("oops"));
    assert_eq!(f.message().as_str(), "oops");
}
