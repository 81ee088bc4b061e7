use direkuta::Method;
use direkuta::dispatch::{Direkuta, Outcome};
use direkuta::logger::Logger;
use direkuta::router::Router;

#[test]
fn hooks_run_in_registration_order_in_both_phases() {
    let d = Direkuta::new().middle(1, 11).middle(2, 22).middle(3, 33);
    assert_eq!(d.before_hooks(), vec![11, 22, 33]);
    assert_eq!(d.after_hooks(), vec![11, 22, 33]);
}

#[test]
fn re_registered_middleware_keeps_its_position() {
    let d = Direkuta::new().middle(1, 11).middle(2, 22).middle(1, 99);
    assert_eq!(d.before_hooks(), vec![99, 22]);
    assert_eq!(d.after_hooks(), vec![99, 22]);
}

#[test]
fn dispatch_hands_back_the_matched_handler() {
    let mut r = Router::new();
    r.get("/hello/<name:(\\w+)>", 42).unwrap();
    let d = Direkuta::new().route(r);
    match d.dispatch(&Method::Get, "/hello/world") {
        Outcome::Matched { handler, captures } => {
            assert_eq!(handler, 42);
            assert_eq!(captures.get("name").as_str(), "world");
        },
        Outcome::Unmatched(_) => panic!("expected a match"),
    }
}

#[test]
fn dispatch_falls_back_to_a_bare_404() {
    let mut r = Router::new();
    r.get("/hello", 42).unwrap();
    let d = Direkuta::new().route(r);
    match d.dispatch(&Method::Get, "/missing") {
        Outcome::Matched { .. } => panic!("expected no match"),
        Outcome::Unmatched(resp) => {
            assert_eq!(resp.status(), 404);
            assert_eq!(resp.headers().len(), 0);
            assert_eq!(resp.body().as_str(), "");
        },
    }
}

#[test]
fn disjoint_requests_get_their_own_captures() {
    let mut r = Router::new();
    r.get("/items/<id:(\\d+)>", 1).unwrap();
    r.get("/users/<name:(\\w+)>", 2).unwrap();
    let d = Direkuta::new().route(r);
    let paths: Vec<String> = (0..8).map(|i| format!("/items/{}", i * 7)).collect();
    let mut outcomes = Vec::new();
    for p in &paths {
        outcomes.push(d.dispatch(&Method::Get, p.as_str()));
    }
    match d.dispatch(&Method::Get, "/users/alice") {
        Outcome::Matched { handler, captures } => {
            assert_eq!(handler, 2);
            assert_eq!(captures.get("name").as_str(), "alice");
        },
        Outcome::Unmatched(_) => panic!("expected a match"),
    }
    for (i, outcome) in outcomes.into_iter().enumerate() {
        match outcome {
            Outcome::Matched { handler, captures } => {
                assert_eq!(handler, 1);
                assert_eq!(captures.get("id").as_str(), format!("{}", i * 7).as_str());
            },
            Outcome::Unmatched(_) => panic!("expected a match"),
        }
    }
}

#[test]
fn state_is_type_keyed_and_last_write_wins() {
    let d = Direkuta::new().state(5, 100).state(6, 101).state(5, 200);
    assert_eq!(d.state_ref().try_get(5), Some(200));
    assert_eq!(d.state_ref().try_get(6), Some(101));
    assert_eq!(d.state_ref().try_get(7), None);
    assert_eq!(d.state_ref().get(5), 200);
    assert_eq!(d.state_ref().len(), 2);
}

#[test]
fn config_is_replaced_whole() {
    let mut c = direkuta::config::Config::new();
    c.template_path("tpl");
    let d = Direkuta::new().config(c);
    assert_eq!(d.config_ref().template_dir().as_str(), "tpl");
    assert_eq!(d.config_ref().static_dir().as_str(), "static");
}

#[test]
fn logger_line_pads_the_method_to_six_columns() {
    let logger = Logger::new();
    assert_eq!(logger.line(&Method::Get, "http://localhost:3000/"), "[   GET] `http://localhost:3000/`");
    assert_eq!(logger.line(&Method::Options, "/x"), "[OPTIONS] `/x`");
    assert_eq!(logger.line(&Method::Delete, "/y"), "[DELETE] `/y`");
}
