use haxonite::config::{Config, RequestConfig, ResponseConfig, ServerConfig};
use haxonite::error::HaxoniteError;
use haxonite::handlers::IteratingKind;
use haxonite::headers::{process_headers, split_header};
use haxonite::routes::{define_route, get_single_response_handler, HttpMethod, RouteHandler};
use haxonite::serve::{config_routes, process_config_requests, server_address, should_reload, WatchEvent};

fn s(text: &str) -> String {
    text.to_string()
}

fn resp(status: Option<u16>, response: Option<&str>) -> ResponseConfig {
    ResponseConfig {
        content_type: None,
        headers: None,
        status: status,
        response: response.map(s),
        weight: None,
        delay: None,
    }
}

fn req(type_: Option<&str>, method: Option<&str>, path: Option<&str>, responses: Option<Vec<ResponseConfig>>) -> RequestConfig {
    RequestConfig { type_: type_.map(s), method: method.map(s), path: path.map(s), responses: responses }
}

#[test]
fn default_headers_are_kept_and_split() {
    assert_eq!(
        process_headers(None),
        vec![vec![s("Content-Type"), s("application/json")]]
    );
}

#[test]
fn invalid_headers_are_dropped() {
    let headers = vec![s("X-Custom: value"), s("no separator here"), s("Accept:text/html"), s("A-B: c/d")];
    assert_eq!(
        process_headers(Some(headers)),
        vec![vec![s("X-Custom"), s("value")], vec![s("A-B"), s("c/d")]]
    );
    assert_eq!(process_headers(Some(vec![])), Vec::<Vec<String>>::new());
}

#[test]
fn headers_are_split_on_every_separator() {
    assert_eq!(split_header("a: b: c"), vec![s("a"), s("b"), s("c")]);
    assert_eq!(split_header("a: : b"), vec![s("a"), s(""), s("b")]);
    assert_eq!(split_header(": x"), vec![s(""), s("x")]);
    assert_eq!(split_header("x: "), vec![s("x"), s("")]);
    assert_eq!(split_header("plain"), vec![s("plain")]);
    assert_eq!(split_header(""), vec![s("")]);
    assert_eq!(split_header("a::  b"), vec![s("a:"), s(" b")]);
    assert_eq!(split_header("Zeichen: ä: ö"), vec![s("Zeichen"), s("ä"), s("ö")]);
}

#[test]
fn single_response_errors_come_in_order() {
    let name = s("r");
    let bad_status = resp(Some(700), None);
    assert_eq!(get_single_response_handler(&name, &bad_status, false).unwrap_err(), HaxoniteError::InvalidHTTPStatus(s("r"), 700));
    let low_status = resp(Some(99), Some("f"));
    assert_eq!(get_single_response_handler(&name, &low_status, true).unwrap_err(), HaxoniteError::InvalidHTTPStatus(s("r"), 99));
    let no_file = resp(Some(200), None);
    assert_eq!(get_single_response_handler(&name, &no_file, true).unwrap_err(), HaxoniteError::NoResponseDefined(s("r")));
    let missing = resp(None, Some("missing.json"));
    assert_eq!(get_single_response_handler(&name, &missing, false).unwrap_err(), HaxoniteError::ResponseDoesNotExist(s("r")));
}

#[test]
fn single_response_defaults_status_and_headers() {
    let name = s("r");
    let ok = resp(None, Some("f.json"));
    let h = get_single_response_handler(&name, &ok, true).unwrap();
    assert_eq!(h.status(), 200);
    assert_eq!(h.response_path(), "f.json");
    assert_eq!(h.headers(), &vec![vec![s("Content-Type"), s("application/json")]]);
    assert_eq!(h.delay(), None);
    let edge = ResponseConfig { delay: Some(2), ..resp(Some(599), Some("g")) };
    let h = get_single_response_handler(&name, &edge, true).unwrap();
    assert_eq!(h.status(), 599);
    assert_eq!(h.delay(), Some(2));
    assert_eq!(get_single_response_handler(&name, &resp(Some(100), Some("g")), true).unwrap().status(), 100);
}

#[test]
fn content_type_sets_the_header_when_no_headers_are_configured() {
    let name = s("r");
    let typed = ResponseConfig { content_type: Some(s("text/html")), ..resp(None, Some("f")) };
    let h = get_single_response_handler(&name, &typed, true).unwrap();
    assert_eq!(h.headers(), &vec![vec![s("Content-Type"), s("text/html")]]);
    let both = ResponseConfig {
        content_type: Some(s("text/html")),
        headers: Some(vec![s("X-Id: 7")]),
        ..resp(None, Some("f"))
    };
    let h = get_single_response_handler(&name, &both, true).unwrap();
    assert_eq!(h.headers(), &vec![vec![s("X-Id"), s("7")]]);
}

#[test]
fn route_defaults_to_single_get() {
    let cfg = req(None, None, Some("/"), Some(vec![resp(None, Some("f.json"))]));
    let route = define_route(&s("example"), &cfg, &vec![true]).unwrap();
    assert_eq!(route.name, "example");
    assert_eq!(route.method, HttpMethod::Get);
    assert_eq!(route.path, "/");
    assert_eq!(route.type_, "single");
    assert!(!route.is_static());
    match route.handler {
        RouteHandler::Single(h) => assert_eq!(h.response_path(), "f.json"),
        _ => panic!("expected a single handler"),
    }
}

#[test]
fn methods_are_accepted_in_any_case() {
    for (text, method) in [
        ("get", HttpMethod::Get), ("Post", HttpMethod::Post), ("PUT", HttpMethod::Put),
        ("delete", HttpMethod::Delete), ("head", HttpMethod::Head), ("options", HttpMethod::Options),
        ("trace", HttpMethod::Trace), ("connect", HttpMethod::Connect), ("patch", HttpMethod::Patch),
    ] {
        let cfg = req(None, Some(text), Some("/a"), Some(vec![resp(None, Some("f"))]));
        assert_eq!(define_route(&s("m"), &cfg, &vec![true]).unwrap().method, method);
    }
}

#[test]
fn extension_and_empty_methods_are_refused() {
    for text in ["FOO", "", "g e t"] {
        let cfg = req(None, Some(text), Some("/a"), Some(vec![resp(None, Some("f"))]));
        assert_eq!(define_route(&s("m"), &cfg, &vec![true]).unwrap_err(), HaxoniteError::InvalidHTTPMethod(s("m")));
    }
}

#[test]
fn route_errors_come_in_order() {
    let n = s("n");
    let no_path = req(Some("bogus"), Some("FOO"), None, None);
    assert_eq!(define_route(&n, &no_path, &vec![]).unwrap_err(), HaxoniteError::NoPathDefined(s("n")));
    let no_responses = req(Some("bogus"), Some("FOO"), Some("/"), None);
    assert_eq!(define_route(&n, &no_responses, &vec![]).unwrap_err(), HaxoniteError::NoResponseDefined(s("n")));
    let bad_type = req(Some("bogus"), Some("FOO"), Some("/"), Some(vec![]));
    assert_eq!(define_route(&n, &bad_type, &vec![]).unwrap_err(), HaxoniteError::InvalidType(s("n")));
    let empty_single = req(None, Some("FOO"), Some("/"), Some(vec![]));
    assert_eq!(define_route(&n, &empty_single, &vec![]).unwrap_err(), HaxoniteError::NoResponseDefined(s("n")));
    let bad_status_first = req(None, Some("FOO"), Some("/"), Some(vec![resp(Some(42), Some("f"))]));
    assert_eq!(define_route(&n, &bad_status_first, &vec![true]).unwrap_err(), HaxoniteError::InvalidHTTPStatus(s("n"), 42));
    let missing_file = req(None, Some("GET"), Some("/"), Some(vec![resp(None, Some("f"))]));
    assert_eq!(define_route(&n, &missing_file, &vec![false]).unwrap_err(), HaxoniteError::ResponseDoesNotExist(s("n")));
    assert_eq!(define_route(&n, &missing_file, &vec![]).unwrap_err(), HaxoniteError::ResponseDoesNotExist(s("n")));
    let bad_method_last = req(None, Some("FOO"), Some("/"), Some(vec![resp(None, Some("f"))]));
    assert_eq!(define_route(&n, &bad_method_last, &vec![true]).unwrap_err(), HaxoniteError::InvalidHTTPMethod(s("n")));
}

#[test]
fn random_route_has_all_responses_with_weights() {
    let mut heavy = resp(Some(200), Some("a"));
    heavy.weight = Some(95);
    let light = resp(Some(500), Some("b"));
    let cfg = req(Some("random"), None, Some("/r"), Some(vec![heavy, light]));
    let route = define_route(&s("r"), &cfg, &vec![true, true]).unwrap();
    match route.handler {
        RouteHandler::Random(h) => {
            assert_eq!(h.len(), 2);
            assert_eq!(h.weights(), &vec![95, 1]);
            assert_eq!(h.handler(0).status(), 200);
            assert_eq!(h.handler(1).status(), 500);
        },
        _ => panic!("expected a random handler"),
    }
}

#[test]
fn the_first_failing_response_decides_the_error() {
    let cfg = req(Some("roundrobin"), None, Some("/r"), Some(vec![
        resp(Some(200), Some("a")),
        resp(Some(1000), Some("b")),
        resp(Some(200), None),
    ]));
    assert_eq!(define_route(&s("r"), &cfg, &vec![true, true, true]).unwrap_err(), HaxoniteError::InvalidHTTPStatus(s("r"), 1000));
    let cfg = req(Some("random"), None, Some("/r"), Some(vec![resp(Some(200), Some("a")), resp(Some(200), Some("b"))]));
    assert_eq!(define_route(&s("r"), &cfg, &vec![true, false]).unwrap_err(), HaxoniteError::ResponseDoesNotExist(s("r")));
}

#[test]
fn iterating_routes_start_at_the_first_response() {
    for (type_, kind, expected) in [
        ("roundrobin", IteratingKind::RoundRobin, vec![200, 201, 200]),
        ("chain", IteratingKind::Chain, vec![200, 201, 201]),
    ] {
        let cfg = req(Some(type_), None, Some("/i"), Some(vec![resp(Some(200), Some("a")), resp(Some(201), Some("b"))]));
        let route = define_route(&s("i"), &cfg, &vec![true, true]).unwrap();
        assert_eq!(route.type_, type_);
        match route.handler {
            RouteHandler::Iterating(mut h) => {
                assert_eq!(h.kind(), kind);
                let got: Vec<u16> = (0..3).map(|_| { let i = h.next_handler_index(); h.handler(i).status() }).collect();
                assert_eq!(got, expected);
            },
            _ => panic!("expected an iterating handler"),
        }
    }
}

#[test]
fn static_routes_are_mounted_from_the_first_response() {
    let cfg = req(Some("static"), None, Some("/public"), Some(vec![resp(None, Some("assets")), resp(None, Some("other"))]));
    let route = define_route(&s("assets_request"), &cfg, &vec![false, false]).unwrap();
    assert!(route.is_static());
    assert_eq!(route.path, "/public");
    match route.handler {
        RouteHandler::Static(dir) => assert_eq!(dir, "assets"),
        _ => panic!("expected static files"),
    }
    let no_dir = req(Some("static"), None, Some("/public"), Some(vec![resp(None, None)]));
    assert_eq!(define_route(&s("a"), &no_dir, &vec![]).unwrap_err(), HaxoniteError::NoResponseDefined(s("a")));
    let bad_method = req(Some("static"), Some("NOPE"), Some("/public"), Some(vec![resp(None, Some("assets"))]));
    assert_eq!(define_route(&s("a"), &bad_method, &vec![]).unwrap_err(), HaxoniteError::InvalidHTTPMethod(s("a")));
}

#[test]
fn requests_are_processed_in_order_until_one_is_refused() {
    let good = req(None, None, Some("/"), Some(vec![resp(None, Some("f"))]));
    let bad = req(None, None, None, None);
    let worse = req(Some("bogus"), None, Some("/"), Some(vec![]));
    let requests = vec![(s("a"), good.clone()), (s("b"), bad), (s("c"), worse)];
    assert_eq!(process_config_requests(&requests, &vec![vec![true]]).unwrap_err(), HaxoniteError::NoPathDefined(s("b")));
    let requests = vec![(s("a"), good.clone()), (s("z"), good)];
    let routes = process_config_requests(&requests, &vec![vec![true], vec![true]]).unwrap();
    assert_eq!(routes.iter().map(|r| r.name.clone()).collect::<Vec<_>>(), vec![s("a"), s("z")]);
    assert_eq!(process_config_requests(&vec![], &vec![]).unwrap().len(), 0);
}

#[test]
fn a_config_without_requests_is_refused() {
    let config = Config { server: None, requests: None };
    assert_eq!(config_routes(&config, &vec![]).unwrap_err(), HaxoniteError::NoRequestDefined);
    let config = Config { server: None, requests: Some(vec![]) };
    assert!(config_routes(&config, &vec![]).unwrap().is_empty());
}

#[test]
fn command_line_overrides_config_which_overrides_defaults() {
    assert_eq!(server_address(&None, None, None), (s("localhost"), 4000));
    let server = Some(ServerConfig { port: Some(8080), host: Some(s("0.0.0.0")) });
    assert_eq!(server_address(&server, None, None), (s("0.0.0.0"), 8080));
    assert_eq!(server_address(&server, Some(s("example.org")), Some(1)), (s("example.org"), 1));
    let partial = Some(ServerConfig { port: None, host: Some(s("h")) });
    assert_eq!(server_address(&partial, None, Some(9)), (s("h"), 9));
    let partial = Some(ServerConfig { port: Some(5), host: None });
    assert_eq!(server_address(&partial, None, None), (s("localhost"), 5));
}

#[test]
fn only_changes_to_the_config_file_reload() {
    let config = vec![s("config.toml")];
    let changed = |parts: &[&str]| WatchEvent::Changed(parts.iter().map(|p| s(p)).collect());
    assert!(should_reload(&changed(&["/", "home", "p", "config.toml"]), &config));
    assert!(!should_reload(&changed(&["/", "home", "p", "other.toml"]), &config));
    assert!(!should_reload(&changed(&["/", "home", "p", "my_config.toml"]), &config));
    assert!(!should_reload(&WatchEvent::Other, &config));
    let nested = vec![s("dir"), s("config.toml")];
    assert!(should_reload(&changed(&["/", "x", "dir", "config.toml"]), &nested));
    assert!(!should_reload(&changed(&["config.toml"]), &nested));
}

#[test]
fn split_pieces_join_back_to_the_header() {
    for header in ["Content-Type: application/json", "a: : b", ": x", "x: ", "plain", "", "a::  b", "k: v: w"] {
        assert_eq!(split_header(header).join(": "), header);
    }
}

#[test]
fn requests_of_every_type_need_a_response() {
    for type_ in ["single", "random", "roundrobin", "chain", "static"] {
        let cfg = req(Some(type_), Some("GET"), Some("/e"), Some(vec![]));
        assert_eq!(define_route(&s("e"), &cfg, &vec![]).unwrap_err(), HaxoniteError::NoResponseDefined(s("e")), "{}", type_);
        let cfg = req(Some(type_), Some("FOO"), Some("/e"), Some(vec![]));
        assert_eq!(define_route(&s("e"), &cfg, &vec![]).unwrap_err(), HaxoniteError::NoResponseDefined(s("e")), "{}", type_);
    }
}
