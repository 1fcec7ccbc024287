use rexprs::dispatch::{finish, route_request, Outcome, Reply, Step};
use rexprs::path::{match_route, split_segments};
use rexprs::router::{Method, Router};
use rexprs::server::{App, RexprsServer};
use rexprs::strmap::StrMap;
use std::sync::Arc;

fn pairs(m: &StrMap) -> Vec<(String, String)> {
    m.entries().clone()
}

#[test]
fn param_segment_binds_value() {
    let m = match_route("/users/:id", "/users/42").expect("should match");
    assert_eq!(m.len(), 1);
    assert_eq!(m.get("id"), Some("42".to_string()));
}

#[test]
fn duplicate_param_last_binding_wins() {
    let m = match_route("/a/:x/:x", "/a/1/2").expect("should match");
    assert_eq!(pairs(&m), vec![("x".to_string(), "2".to_string())]);
}

#[test]
fn segment_count_mismatch_is_no_match() {
    assert!(match_route("/a/b", "/a").is_none());
    assert!(match_route("/:id", "/a/b").is_none());
    assert!(match_route("/a", "/a/b/c").is_none());
}

#[test]
fn literal_pattern_matches_equal_path_after_trim() {
    let m = match_route("/a/b/", "a/b").expect("should match");
    assert_eq!(m.len(), 0);
    let m = match_route("//a/b", "/a/b///").expect("should match");
    assert_eq!(m.len(), 0);
    assert!(match_route("/a/b", "/a/c").is_none());
    assert!(match_route("/users", "/Users").is_none());
}

#[test]
fn root_matches_root() {
    let m = match_route("/", "/").expect("should match");
    assert_eq!(m.len(), 0);
    assert!(match_route("/", "").is_some());
    assert!(match_route("/", "/x").is_none());
}

#[test]
fn inner_empty_segments_are_kept() {
    assert_eq!(split_segments("/a//b/"), vec!["a".to_string(), String::new(), "b".to_string()]);
    assert_eq!(split_segments("///"), vec![String::new()]);
    assert!(match_route("/a/:x/b", "/a//b").is_some());
}

#[test]
fn params_hold_non_ascii_values() {
    let m = match_route("/caf\u{e9}/:n", "/caf\u{e9}/\u{fc}ber").expect("should match");
    assert_eq!(m.get("n"), Some("\u{fc}ber".to_string()));
}

#[test]
fn first_registered_route_wins() {
    let mut r: Router<u32> = Router::new();
    r.add_route(Method::Get, "/:id", 1);
    r.add_route(Method::Get, "/users", 2);
    let (h, params) = r.find_handler(&Method::Get, "/users").expect("should match");
    assert_eq!(*h, 1);
    assert_eq!(params.get("id"), Some("users".to_string()));
    assert_eq!(r.find_route(&Method::Get, "/users").map(|(i, _)| i), Some(0));
}

#[test]
fn identical_routes_earliest_wins() {
    let mut r: Router<u32> = Router::new();
    r.add_route(Method::Post, "/x", 7);
    r.add_route(Method::Post, "/x", 8);
    assert_eq!(r.find_handler(&Method::Post, "/x").map(|(h, _)| *h), Some(7));
}

#[test]
fn method_must_match() {
    let mut r: Router<u32> = Router::new();
    r.add_route(Method::Post, "/items", 1);
    r.add_route(Method::Get, "/items", 2);
    assert_eq!(r.find_handler(&Method::Get, "/items").map(|(h, _)| *h), Some(2));
    assert!(r.find_handler(&Method::Delete, "/items").is_none());
}

#[test]
fn method_names_round_trip() {
    for m in [Method::Get, Method::Post, Method::Put, Method::Delete, Method::Patch, Method::Head,
              Method::Options, Method::Connect, Method::Trace] {
        assert_eq!(Method::from_name(m.as_str()), Some(m));
    }
    assert_eq!(Method::from_name("get"), None);
    assert_eq!(Method::from_name("BREW"), None);
}

#[test]
fn dispatch_ping_returns_handler_response() {
    let mut r: Router<fn() -> (u16, String)> = Router::new();
    r.add_route(Method::Get, "/ping", || (200, "pong".to_string()));
    match route_request(&r, "GET", "/ping") {
        Step::Execute { handler, params } => {
            assert_eq!(params.len(), 0);
            match finish(Outcome::Completed(handler())) {
                Reply::Handler((status, body)) => {
                    assert_eq!(status, 200);
                    assert_eq!(body, "pong");
                }
                Reply::Error(_) => panic!("expected the handler's response"),
            }
        }
        Step::Respond(_) => panic!("expected a route"),
    }
}

#[test]
fn dispatch_slow_handler_times_out() {
    let mut r: Router<u32> = Router::new();
    r.add_route(Method::Get, "/slow", 1);
    assert!(matches!(route_request(&r, "GET", "/slow"), Step::Execute { .. }));
    match finish::<u32>(Outcome::TimedOut) {
        Reply::Error(e) => {
            assert_eq!(e.status, 408);
            assert_eq!(e.body, "{\"error\":\"Request timeout\"}");
            assert_eq!(e.headers, vec![("content-type".to_string(), "application/json".to_string())]);
        }
        Reply::Handler(_) => panic!("expected a timeout response"),
    }
}

#[test]
fn dispatch_failed_handler_is_internal_error() {
    match finish::<u32>(Outcome::Failed) {
        Reply::Error(e) => {
            assert_eq!(e.status, 500);
            assert_eq!(e.body, "{\"error\":\"Internal server error\"}");
        }
        Reply::Handler(_) => panic!("expected an error response"),
    }
}

#[test]
fn dispatch_missing_route_is_not_found() {
    let mut r: Router<u32> = Router::new();
    r.add_route(Method::Get, "/ping", 1);
    match route_request(&r, "GET", "/missing") {
        Step::Respond(e) => {
            assert_eq!(e.status, 404);
            assert!(e.body.contains("Cannot GET /missing"));
            assert_eq!(e.body, "{\"error\":\"Cannot GET /missing\"}");
        }
        Step::Execute { .. } => panic!("expected no route"),
    }
}

#[test]
fn dispatch_unknown_method_is_not_found() {
    let mut r: Router<u32> = Router::new();
    r.add_route(Method::Get, "/x", 1);
    match route_request(&r, "BREW", "/x") {
        Step::Respond(e) => {
            assert_eq!(e.status, 404);
            assert_eq!(e.body, "{\"error\":\"Cannot BREW /x\"}");
        }
        Step::Execute { .. } => panic!("expected no route"),
    }
}

#[test]
fn concurrent_requests_complete_independently() {
    let rt = tokio::runtime::Builder::new_multi_thread()
        .worker_threads(4)
        .enable_time()
        .build()
        .expect("runtime");
    let mut r: Router<u64> = Router::new();
    r.add_route(Method::Get, "/work/:n", 20);
    let router = Arc::new(r);
    let n: u64 = 16;
    let results = rt.block_on(async {
        let mut tasks = Vec::new();
        for i in 0..n {
            let router = Arc::clone(&router);
            tasks.push(tokio::spawn(async move {
                let path = format!("/work/{}", i);
                let (delay, param) = match route_request(&router, "GET", &path) {
                    Step::Execute { handler, params } => (*handler, params.get("n")),
                    Step::Respond(_) => panic!("expected a route"),
                };
                let outcome = match tokio::time::timeout(
                    std::time::Duration::from_secs(rexprs::dispatch::HANDLER_TIMEOUT_SECS),
                    async move {
                        tokio::time::sleep(std::time::Duration::from_millis(delay + i)).await;
                        (200u16, param.expect("param"))
                    },
                )
                .await
                {
                    Ok(resp) => Outcome::Completed(resp),
                    Err(_) => Outcome::TimedOut,
                };
                (i, finish(outcome))
            }));
        }
        let mut out = Vec::new();
        for t in tasks {
            out.push(t.await.expect("task"));
        }
        out
    });
    assert_eq!(results.len() as u64, n);
    for (i, reply) in results {
        match reply {
            Reply::Handler((status, body)) => {
                assert_eq!(status, 200);
                assert_eq!(body, i.to_string());
            }
            Reply::Error(_) => panic!("request {} failed", i),
        }
    }
}

#[test]
fn app_registers_each_method() {
    let mut app: App<u32> = App::new();
    app.get("/a", 1);
    app.post("/a", 2);
    app.put("/a", 3);
    app.delete("/a", 4);
    app.patch("/a", 5);
    let r = app.router();
    assert_eq!(r.len(), 5);
    assert_eq!(r.find_handler(&Method::Put, "/a").map(|(h, _)| *h), Some(3));
    assert_eq!(r.find_handler(&Method::Patch, "a/").map(|(h, _)| *h), Some(5));
}

#[test]
fn server_hands_over_routes_on_start() {
    let mut s: RexprsServer<u32> = RexprsServer::new();
    assert_eq!(s.port(), 3000);
    s.add_route(Method::Get, "/users/:id", 9);
    let router = s.start(8080);
    assert_eq!(s.port(), 8080);
    assert_eq!(router.len(), 1);
    assert_eq!(router.find_handler(&Method::Get, "/users/5").map(|(h, _)| *h), Some(9));
    let empty = s.start(8081);
    assert_eq!(empty.len(), 0);
}

#[test]
fn strmap_insert_replaces_in_place() {
    let mut m = StrMap::new();
    m.insert("a".to_string(), "1".to_string());
    m.insert("b".to_string(), "2".to_string());
    m.insert("a".to_string(), "3".to_string());
    assert_eq!(pairs(&m), vec![("a".to_string(), "3".to_string()), ("b".to_string(), "2".to_string())]);
    assert_eq!(m.get("c"), None);
    let f = StrMap::from_pairs(&vec![("k".to_string(), "x".to_string()), ("k".to_string(), "y".to_string())]);
    assert_eq!(pairs(&f), vec![("k".to_string(), "y".to_string())]);
}
