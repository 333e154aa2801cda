use ig::protocol::{ErrorKind, Failure, Report};
use ig::service::{
    load_routes, load_service_file, BackendSpec, Document, Host, Route, ServiceEntry, Services,
};

fn localhost() -> Host {
    Host { text: "127.0.0.1".to_string(), v6: false }
}

/// Registering is where a spec is validated, on both the startup and the
/// `expose` path, so validation tests go through it.
fn register_all(entries: Vec<ServiceEntry>) -> Result<Services, Report> {
    let mut services = Services::new(localhost());
    let list = load_service_file("services.toml", Document::Parsed(entries))?;
    for (port, spec) in list {
        services.register_new(port, spec)?;
    }
    Ok(services)
}

fn route(host: Option<&str>, prefix: Option<&str>, upstream: &str) -> Route {
    Route {
        host: host.map(str::to_string),
        prefix: prefix.map(str::to_string),
        upstream: Some(upstream.to_string()),
        unix: None,
        tls: false,
        sni: None,
        strip_prefix: false,
        host_header: None,
    }
}

fn tcp(upstream: &str) -> BackendSpec {
    BackendSpec::Tcp { upstream: upstream.to_string() }
}

#[test]
fn prefix_route_matches_by_path_only() {
    let r = route(None, Some("/gitlab"), "gitlab.internal:80");
    assert!(r.matches(None, "/gitlab/x"));
    assert!(r.matches(Some("anything:8080"), "/gitlab"));
    assert!(!r.matches(None, "/wiki"));
}

#[test]
fn host_route_ignores_port_in_header() {
    let r = route(Some("wiki.local"), None, "wiki.internal:80");
    assert!(r.matches(Some("wiki.local"), "/"));
    assert!(r.matches(Some("wiki.local:8080"), "/"));
    assert!(!r.matches(Some("other.local"), "/"));
    assert!(!r.matches(None, "/"));
}

#[test]
fn upstream_host_strips_port_but_keeps_ipv6_literal() {
    assert_eq!(
        route(None, None, "gitlab.internal:80").upstream_host(),
        "gitlab.internal"
    );
    assert_eq!(
        route(None, None, "gitlab.internal").upstream_host(),
        "gitlab.internal"
    );
    assert_eq!(route(None, None, "[::1]").upstream_host(), "[::1]");
    assert_eq!(route(None, None, "[::1]:80").upstream_host(), "[::1]");
}

#[test]
fn unix_route_names_itself_by_sni_then_localhost() {
    let mut r = route(None, None, "");
    r.upstream = None;
    r.unix = Some("/run/app.sock".to_string());
    assert_eq!(r.upstream_host(), "localhost");
    r.sni = Some("app.internal".into());
    assert_eq!(r.upstream_host(), "app.internal");
}

fn kind_of(spec: &BackendSpec) -> &'static str {
    match spec {
        BackendSpec::Http { .. } => "http",
        BackendSpec::Tcp { .. } => "tcp",
        BackendSpec::Unix { .. } => "unix",
    }
}

#[test]
fn parses_all_three_kinds() {
    let entries = vec![
        ServiceEntry {
            port: 8080,
            backend: BackendSpec::Http {
                routes: vec![route(None, Some("/gitlab"), "gitlab.internal:80")],
            },
        },
        ServiceEntry { port: 5432, backend: tcp("db.internal:5432") },
        ServiceEntry {
            port: 6000,
            backend: BackendSpec::Unix { path: "/var/run/docker.sock".to_string() },
        },
    ];
    let services = load_service_file("services.toml", Document::Parsed(entries)).unwrap();

    assert_eq!(services.len(), 3);
    assert_eq!(
        services.iter().map(|(_, s)| kind_of(s)).collect::<Vec<_>>(),
        ["http", "tcp", "unix"]
    );
    assert_eq!(
        services.iter().map(|(p, _)| *p).collect::<Vec<_>>(),
        [8080, 5432, 6000]
    );
}

#[test]
fn route_needs_exactly_one_upstream_kind() {
    let bare = |upstream: Option<&str>, unix: Option<&str>| {
        let mut r = route(None, Some("/"), "");
        r.upstream = upstream.map(str::to_string);
        r.unix = unix.map(str::to_string);
        vec![ServiceEntry { port: 80, backend: BackendSpec::Http { routes: vec![r] } }]
    };

    let neither = register_all(bare(None, None));
    assert!(neither.is_err(), "a route with no upstream must be rejected");
    assert_eq!(
        neither.unwrap_err().text(),
        "http service on port 80: route needs `upstream` or `unix`"
    );

    let both = register_all(bare(Some("a.internal:80"), Some("/run/a.sock")));
    assert!(both.is_err(), "a route with two upstreams must be rejected");
    assert_eq!(
        both.unwrap_err().text(),
        "http service on port 80: route sets both `upstream` and `unix`"
    );

    let empty = register_all(bare(Some(""), None)).unwrap_err();
    assert_eq!(empty.text(), "http service on port 80: route has an empty upstream");
    assert_eq!(Failure::kind_of(&empty), ErrorKind::Invalid);
}

#[test]
fn http_service_needs_a_route() {
    let empty = register_all(vec![ServiceEntry {
        port: 80,
        backend: BackendSpec::Http { routes: vec![] },
    }]);
    assert!(empty.is_err());
    assert_eq!(empty.unwrap_err().text(), "http service on port 80 has no routes");
}

#[test]
fn a_forward_to_nowhere_is_rejected() {
    let e = tcp("").validate(7).unwrap_err();
    assert_eq!(e.text(), "tcp service on port 7 has an empty upstream");
    let e = BackendSpec::Unix { path: String::new() }.validate(8).unwrap_err();
    assert_eq!(e.text(), "unix service on port 8 has an empty path");
    assert_eq!(Failure::kind_of(&e), ErrorKind::Invalid);
}

#[test]
fn a_file_with_no_services_is_rejected() {
    let none: Document<Vec<ServiceEntry>> = Document::Parsed(vec![]);
    let e = load_service_file("s.toml", none).unwrap_err();
    assert_eq!(e.text(), "service config s.toml has no [[service]] entries");
}

#[test]
fn a_bad_route_table_is_an_invalid_request() {
    let e = load_routes("r.toml", Document::Parsed(vec![])).unwrap_err();
    assert_eq!(e.text(), "route table r.toml has no [[route]] entries");
    assert_eq!(Failure::kind_of(&e).exit_code(), 2);

    let e = load_routes("r.toml", Document::Garbled("line 3".to_string())).unwrap_err();
    assert_eq!(e.text(), "failed to parse route table r.toml: line 3");
    assert_eq!(Failure::kind_of(&e).exit_code(), 2);

    let e = load_routes("r.toml", Document::Unreadable("no such file".to_string())).unwrap_err();
    assert_eq!(e.text(), "failed to read route table r.toml: no such file");
    assert_eq!(Failure::kind_of(&e).exit_code(), 1);

    let table = vec![route(None, Some("/a"), "a:80")];
    assert_eq!(load_routes("r.toml", Document::Parsed(table)).unwrap().len(), 1);
}

#[test]
fn duplicate_ports_are_rejected_at_startup_but_replaced_at_runtime() {
    let mut services = Services::new(localhost());

    // The startup file declares the whole set at once, so two entries for
    // one port is a mistake.
    services.register_new(9, tcp("x:9")).unwrap();
    let e = services.register_new(9, tcp("y:9")).unwrap_err();
    assert_eq!(e.text(), "two services both claim port 9");
    assert_eq!(Failure::kind_of(&e), ErrorKind::Conflict);
    assert_eq!(services.describe(9), "tcp x:9");

    // `expose` is a live command, so re-declaring is a redirect.
    services.register(9, tcp("y:9")).unwrap();
    assert_eq!(services.describe(9), "tcp y:9");

    assert_eq!(services.ports(), vec![9]);
    assert!(services.contains(9));
    assert!(services.remove(9));
    assert!(!services.remove(9));
    assert_eq!(services.describe(9), "default 127.0.0.1:9");
}

#[test]
fn backends_describe_themselves_for_list() {
    let mut services = Services::new(localhost());
    services
        .register(
            80,
            BackendSpec::Http {
                routes: vec![route(None, Some("/a"), "a.internal:80")],
            },
        )
        .unwrap();
    services
        .register(
            81,
            BackendSpec::Http {
                routes: vec![
                    route(None, Some("/a"), "a.internal:80"),
                    route(None, Some("/b"), "b.internal:80"),
                ],
            },
        )
        .unwrap();
    services.register(5432, tcp("db.internal:5432")).unwrap();
    services
        .register(
            6000,
            BackendSpec::Unix {
                path: "/run/docker.sock".into(),
            },
        )
        .unwrap();

    assert_eq!(services.describe(80), "http (1 route)");
    assert_eq!(services.describe(81), "http (2 routes)");
    assert_eq!(services.describe(5432), "tcp db.internal:5432");
    assert_eq!(services.describe(6000), "unix /run/docker.sock");
    assert_eq!(services.ports(), vec![80, 81, 5432, 6000]);
}

#[test]
fn registering_an_invalid_backend_leaves_the_registry_untouched() {
    let mut services = Services::new(localhost());
    assert!(services
        .register(80, BackendSpec::Http { routes: vec![] })
        .is_err());
    assert!(!services.contains(80));
}

#[test]
fn a_startup_file_is_declared_up_to_its_first_mistake() {
    let mut services = Services::new(localhost());
    let list = vec![(1, tcp("a:1")), (1, tcp("b:1")), (2, tcp("c:2"))];
    let e = services.declare("s.toml", list).unwrap_err();
    assert_eq!(e.text(), "in service config s.toml: two services both claim port 1");
    assert_eq!(Failure::kind_of(&e), ErrorKind::Conflict);
    assert_eq!(services.ports(), vec![1]);

    let mut services = Services::new(localhost());
    services.declare("s.toml", vec![(2, tcp("c:2")), (1, tcp("a:1"))]).unwrap();
    assert_eq!(services.ports(), vec![1, 2]);
}

#[test]
fn an_undeclared_port_forwards_to_the_host() {
    let services = Services::new(Host { text: "::1".to_string(), v6: true });
    match services.backend(3002) {
        BackendSpec::Tcp { upstream } => assert_eq!(upstream, "[::1]:3002"),
        other => panic!("{other:?}"),
    }
    assert_eq!(services.describe(3002), "default ::1:3002");

    let services = Services::new(localhost());
    match services.backend(3002) {
        BackendSpec::Tcp { upstream } => assert_eq!(upstream, "127.0.0.1:3002"),
        other => panic!("{other:?}"),
    }
}

#[test]
fn a_failure_is_classified_once_and_keeps_its_kind() {
    let e = Report::failure(ErrorKind::Denied, "no".to_string());
    let e = e.context("asking".to_string()).context("trying".to_string());
    assert_eq!(e.text(), "trying: asking: no");
    assert_eq!(Failure::kind_of(&e), ErrorKind::Denied);
    assert_eq!(Failure::kind_of(&Report::internal("x".to_string())), ErrorKind::Internal);
    assert_eq!(Failure::new(ErrorKind::NotFound, "gone").message, "gone");
}

#[test]
fn exit_codes_are_as_documented() {
    assert_eq!(ErrorKind::Internal.exit_code(), 1);
    assert_eq!(ErrorKind::Invalid.exit_code(), 2);
    assert_eq!(ErrorKind::NotFound.exit_code(), 3);
    assert_eq!(ErrorKind::Denied.exit_code(), 4);
    assert_eq!(ErrorKind::Conflict.exit_code(), 5);
    assert_eq!(ErrorKind::Unavailable.exit_code(), 7);
}
