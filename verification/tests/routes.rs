use gateway::host::{HostSpec, Hostname};
use gateway::service::balancer::ConnectionError;
use gateway::web::matchers::{HeaderMatch, Matcher, MethodMatch, PathMatch, PathPrefix};
use gateway::web::route::{HttpRoute, HttpRule};
use gateway::web::server::{Dispatch, HttpServer, HttpServerFields};
use gateway::web::service::ForwardError;
use http::header::{HeaderName, HeaderValue};
use http::HeaderMap;

fn headers(fields: &[(&'static str, &[u8])]) -> HeaderMap<HeaderValue> {
    let mut map = HeaderMap::new();
    for (name, value) in fields {
        map.append(
            HeaderName::from_static(name),
            HeaderValue::from_bytes(value).unwrap(),
        );
    }
    map
}

fn path(prefix: &str) -> Matcher {
    Matcher {
        path: Some(PathMatch::Prefix {
            value: PathPrefix::from_str(prefix).unwrap(),
        }),
        method: None,
        headers: None,
    }
}

fn method(name: &str) -> Matcher {
    Matcher {
        path: None,
        method: Some(MethodMatch::parse(name).unwrap()),
        headers: None,
    }
}

fn hosts(patterns: &[&str]) -> Vec<HostSpec> {
    patterns
        .iter()
        .map(|p| HostSpec::from_str(p).unwrap())
        .collect()
}

fn server(routes: Vec<HttpRoute>) -> HttpServer {
    HttpServer::new(
        HttpServerFields {
            port: 8080,
            name: "main".to_owned(),
        },
        routes,
    )
}

#[test]
fn a_rule_needs_one_of_its_matchers() {
    let rule = HttpRule::new(vec![path("/a"), method("POST")], 3);
    let none = headers(&[]);

    assert_eq!(rule.backend(), 3);
    assert!(rule.matches("/a/b", "GET", &none));
    assert!(rule.matches("/x", "POST", &none));
    assert!(rule.matches("/a", "POST", &none));
    assert!(!rule.matches("/x", "GET", &none));
}

#[test]
fn a_rule_without_matchers_takes_everything() {
    let rule = HttpRule::new(Vec::new(), 0);

    assert!(rule.matches("/anything", "DELETE", &headers(&[])));
    assert!(rule.matches("", "", &headers(&[("x", b"y")])));
}

#[test]
fn the_first_matching_rule_wins() {
    let route = HttpRoute {
        hostnames: Vec::new(),
        rules: vec![
            HttpRule::new(vec![path("/api/v2")], 2),
            HttpRule::new(vec![path("/api")], 1),
            HttpRule::new(vec![method("GET")], 0),
        ],
    };
    let none = headers(&[]);

    assert_eq!(route.matching_rule("/api/v2/x", "GET", &none), Some(0));
    assert_eq!(route.matching_rule("/api/v1/x", "GET", &none), Some(1));
    assert_eq!(route.matching_rule("/static", "GET", &none), Some(2));
    assert_eq!(route.matching_rule("/static", "POST", &none), None);
    assert_eq!(
        route.find_matching_rule("/api/v1", "POST", &none).unwrap().backend(),
        1
    );
    assert!(route.find_matching_rule("/static", "POST", &none).is_none());
}

#[test]
fn a_route_serves_the_hosts_of_its_patterns() {
    let route = HttpRoute {
        hostnames: hosts(&["example.com", "*.example.org"]),
        rules: Vec::new(),
    };

    assert!(route.serves_host(&Hostname::from_str("example.com").unwrap()));
    assert!(route.serves_host(&Hostname::from_str("a.example.org").unwrap()));
    assert!(!route.serves_host(&Hostname::from_str("example.org").unwrap()));
    assert!(!route.serves_host(&Hostname::from_str("a.example.com").unwrap()));
}

#[test]
fn a_route_without_patterns_serves_every_host() {
    let route = HttpRoute {
        hostnames: Vec::new(),
        rules: Vec::new(),
    };

    assert!(route.serves_host(&Hostname::from_str("example.com").unwrap()));
    assert!(route.serves_host(&Hostname::from_str("x").unwrap()));
}

#[test]
fn route_selection() {
    let server = server(vec![
        HttpRoute {
            hostnames: hosts(&["api.example.com"]),
            rules: vec![HttpRule::new(Vec::new(), 10)],
        },
        HttpRoute {
            hostnames: hosts(&["*.example.com"]),
            rules: vec![HttpRule::new(Vec::new(), 20)],
        },
    ]);

    assert_eq!(
        server.proxy_request("/", "GET", &headers(&[("host", b"api.example.com")])),
        Dispatch::Forward {
            route: 0,
            rule: 0,
            backend: 10
        }
    );
    assert_eq!(
        server.proxy_request("/", "GET", &headers(&[("host", b"www.example.com")])),
        Dispatch::Forward {
            route: 1,
            rule: 0,
            backend: 20
        }
    );
    let lost = server.proxy_request("/", "GET", &headers(&[("host", b"example.com")]));
    assert_eq!(lost, Dispatch::NotFound);
    assert_eq!(lost.status(), Some(404));
}

#[test]
fn a_request_without_a_host_is_bad() {
    let server = server(vec![HttpRoute {
        hostnames: Vec::new(),
        rules: vec![HttpRule::new(Vec::new(), 0)],
    }]);

    let missing = server.proxy_request("/", "GET", &headers(&[("x-a", b"1")]));
    assert_eq!(missing, Dispatch::BadRequest);
    assert_eq!(missing.status(), Some(400));

    for value in [
        &b""[..],
        b"exa_mple.com",
        b"example.com:8080",
        b"*.example.com",
        b"10.0.0.1",
        b"::1",
        b"caf\xe9.com",
        b"Example.com",
    ] {
        assert_eq!(
            server.proxy_request("/", "GET", &headers(&[("host", value)])),
            Dispatch::BadRequest
        );
    }
    assert_eq!(
        server.proxy_request("/", "GET", &headers(&[("host", b"example.com")])),
        Dispatch::Forward {
            route: 0,
            rule: 0,
            backend: 0
        }
    );
}

#[test]
fn the_first_route_that_serves_the_host_decides() {
    let server = server(vec![
        HttpRoute {
            hostnames: hosts(&["*.example.com"]),
            rules: vec![HttpRule::new(vec![path("/api")], 1)],
        },
        HttpRoute {
            hostnames: Vec::new(),
            rules: vec![HttpRule::new(Vec::new(), 2)],
        },
    ]);
    let host = headers(&[("host", b"a.example.com")]);

    assert_eq!(
        server.proxy_request("/api/x", "GET", &host),
        Dispatch::Forward {
            route: 0,
            rule: 0,
            backend: 1
        }
    );
    // The first route serves the host and has no rule for the path: the
    // catch-all route behind it is not asked.
    assert_eq!(server.proxy_request("/other", "GET", &host), Dispatch::NotFound);
    assert_eq!(
        server.proxy_request("/other", "GET", &headers(&[("host", b"example.net")])),
        Dispatch::Forward {
            route: 1,
            rule: 0,
            backend: 2
        }
    );
    assert_eq!(server.select_route(&Hostname::from_str("a.example.com").unwrap()), Some(0));
    assert_eq!(server.select_route(&Hostname::from_str("example.com").unwrap()), Some(1));
}

#[test]
fn no_routes_nothing_found() {
    let server = server(Vec::new());
    assert_eq!(server.port, 8080);
    assert_eq!(
        server.proxy_request("/", "GET", &headers(&[("host", b"example.com")])),
        Dispatch::NotFound
    );
    assert_eq!(
        server.select_route(&Hostname::from_str("example.com").unwrap()),
        None
    );
}

#[test]
fn dispatch_on_a_given_host_value() {
    let server = server(vec![HttpRoute {
        hostnames: hosts(&["example.com"]),
        rules: vec![HttpRule::new(
            vec![Matcher {
                path: None,
                method: None,
                headers: Some(vec![HeaderMatch::Exact {
                    name: "x-a".to_owned(),
                    value: "1".to_owned(),
                }]),
            }],
            4,
        )],
    }]);
    let with = headers(&[("x-a", b"1")]);

    assert_eq!(
        server.dispatch(Some(b"example.com"), "/", "GET", &with),
        Dispatch::Forward {
            route: 0,
            rule: 0,
            backend: 4
        }
    );
    assert_eq!(
        server.dispatch(Some(b"example.com"), "/", "GET", &headers(&[])),
        Dispatch::NotFound
    );
    assert_eq!(server.dispatch(None, "/", "GET", &with), Dispatch::BadRequest);
    assert_eq!(
        server.dispatch(Some(b"\xff"), "/", "GET", &with),
        Dispatch::BadRequest
    );
    assert!(HttpServer::read_host(Some(b"example.com")).is_some());
    assert_eq!(
        *HttpServer::read_host(Some(b"www.example.com")).unwrap().labels(),
        vec!["com", "example", "www"]
    );
    assert!(HttpServer::read_host(Some(b"example..com")).is_none());
    assert!(HttpServer::read_host(None).is_none());
}

#[test]
fn forwarded_requests_have_the_backends_status() {
    assert_eq!(
        Dispatch::Forward {
            route: 0,
            rule: 0,
            backend: 0
        }
        .status(),
        None
    );
}

#[test]
fn failures_to_forward() {
    assert_eq!(ForwardError::Connection(ConnectionError::IoError).status(), 502);
    assert_eq!(ForwardError::Handshake.status(), 502);
    assert_eq!(ForwardError::Timeout.status(), 504);
    assert_eq!(
        ForwardError::Connection(ConnectionError::BackendNotFound).status(),
        500
    );
    assert_eq!(ForwardError::Unknown.status(), 500);
}
