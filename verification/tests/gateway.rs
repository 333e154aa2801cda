use ig::addr::{synthetic_addr, SyntheticAddr};
use ig::gateway::{resolution, rewrite, Ctx, Gateway, Target, Verdict};
use ig::service::Route;

fn route(host: Option<&str>, prefix: Option<&str>, upstream: &str) -> Route {
    Route {
        host: host.map(str::to_string),
        prefix: prefix.map(str::to_string),
        upstream: Some(upstream.to_string()),
        unix: None,
        tls: false,
        sni: None,
        strip_prefix: false,
        host_header: None,
    }
}

fn gateway() -> Gateway {
    let mut git = route(None, Some("/gitlab"), "gitlab.internal:80");
    git.strip_prefix = true;
    let mut wiki = route(Some("wiki.local"), None, "wiki.internal:443");
    wiki.tls = true;
    let mut app = route(None, Some("/app"), "");
    app.upstream = None;
    app.unix = Some("/run/app.sock".to_string());
    app.host_header = Some("app.internal".to_string());
    Gateway::build(8080, vec![git, wiki, app]).unwrap()
}

#[test]
fn the_first_match_wins() {
    let g = gateway();
    let mut ctx = g.new_ctx();
    assert_eq!(
        g.request_filter(Some(b"wiki.local:8080"), "/gitlab/x", &mut ctx),
        Verdict::Forward
    );
    assert_eq!(ctx.route, Some(0));
    assert_eq!(g.request_filter(Some(b"wiki.local"), "/app", &mut ctx), Verdict::Forward);
    assert_eq!(ctx.route, Some(1));
    assert_eq!(g.request_filter(None, "/app/x", &mut ctx), Verdict::Forward);
    assert_eq!(ctx.route, Some(2));
}

#[test]
fn a_request_that_no_route_takes_is_a_404() {
    let g = gateway();
    let mut ctx = g.new_ctx();
    assert_eq!(g.request_filter(Some(b"other"), "/", &mut ctx), Verdict::Respond(404));
    assert_eq!(ctx.route, None);
    assert!(g.route(&ctx).is_none());
    assert!(g.upstream_request_filter(&ctx, "/", None).is_none());
}

#[test]
fn a_host_header_that_is_no_text_matches_no_host() {
    let g = gateway();
    let mut ctx = g.new_ctx();
    assert_eq!(g.request_filter(Some(b"wiki.local\xff"), "/", &mut ctx), Verdict::Respond(404));
    assert_eq!(g.request_filter(Some(b"wiki.local"), "/", &mut ctx), Verdict::Forward);
}

#[test]
fn requests_go_where_the_route_says() {
    let g = gateway();
    match g.upstream_peer(&Ctx { route: Some(0) }) {
        Target::Tcp { upstream, tls, sni } => {
            assert_eq!((upstream.as_str(), tls, sni.as_str()), ("gitlab.internal:80", false, "gitlab.internal"));
        }
        other => panic!("{other:?}"),
    }
    match g.upstream_peer(&Ctx { route: Some(1) }) {
        Target::Tcp { upstream, tls, sni } => {
            assert_eq!((upstream.as_str(), tls, sni.as_str()), ("wiki.internal:443", true, "wiki.internal"));
        }
        other => panic!("{other:?}"),
    }
    match g.upstream_peer(&Ctx { route: Some(2) }) {
        Target::Unix { path, tls, sni } => {
            assert_eq!((path.as_str(), tls, sni.as_str()), ("/run/app.sock", false, "localhost"));
        }
        other => panic!("{other:?}"),
    }
}

#[test]
fn a_stripped_path_stays_absolute() {
    let g = gateway();
    let ctx = Ctx { route: Some(0) };
    let edit = g.upstream_request_filter(&ctx, "/gitlab", None).unwrap();
    assert_eq!(edit.target.as_deref(), Some("/"));
    assert_eq!(edit.host, "gitlab.internal");
    let edit = g.upstream_request_filter(&ctx, "/gitlab/x", Some("a=1")).unwrap();
    assert_eq!(edit.target.as_deref(), Some("/x?a=1"));
    let edit = g.upstream_request_filter(&ctx, "/gitlabfoo", None).unwrap();
    assert_eq!(edit.target.as_deref(), Some("/foo"));
    let edit = g.upstream_request_filter(&Ctx { route: Some(2) }, "/app", None).unwrap();
    assert_eq!(edit.target, None);
    assert_eq!(edit.host, "app.internal");
}

#[test]
fn a_target_that_would_be_no_uri_stays_as_it_was() {
    let g = gateway();
    let edit = g.upstream_request_filter(&Ctx { route: Some(0) }, "/gitlab/a b", None).unwrap();
    assert_eq!(edit.target, None);
    let mut r = route(None, Some("/gitlab"), "x:1");
    r.strip_prefix = true;
    assert_eq!(rewrite(&r, "/gitlab/a b", None).as_deref(), Some("/a b"));
    r.strip_prefix = false;
    assert_eq!(rewrite(&r, "/gitlab/a", None), None);
}

#[test]
fn a_gateway_needs_routes_that_could_serve() {
    let e = Gateway::build(80, vec![]).unwrap_err();
    assert_eq!(e.text(), "http service on port 80 has no routes");
    let mut bad = route(None, None, "");
    bad.upstream = None;
    assert!(Gateway::build(80, vec![route(None, None, "a:1"), bad]).is_err());
}

#[test]
fn an_answer_is_reused_for_five_seconds() {
    let mut g = gateway();
    assert_eq!(g.cached("a:1", 0), None);
    g.remember("a:1", "10.0.0.1:1".to_string(), 1_000_000_000);
    g.remember("b:1", "10.0.0.2:1".to_string(), 1_000_000_000);
    assert_eq!(g.cached("a:1", 5_999_999_999).as_deref(), Some("10.0.0.1:1"));
    assert_eq!(g.cached("a:1", 6_000_000_000), None);
    g.remember("a:1", "10.0.0.3:1".to_string(), 7_000_000_000);
    assert_eq!(g.cached("a:1", 7_000_000_001).as_deref(), Some("10.0.0.3:1"));
    assert_eq!(g.cached("a:1", 0).as_deref(), Some("10.0.0.3:1"));
    assert_eq!(g.cached("b:1", 7_000_000_000), None);
}

#[test]
fn a_success_is_kept_and_a_failure_is_not() {
    let one = || Ok(vec!["10.0.0.1:1".to_string(), "10.0.0.9:1".to_string()]);
    let two = || Ok(vec!["10.0.0.2:1".to_string()]);
    let mut g = gateway();
    assert_eq!(
        g.answered("a:1", Err("nope".to_string()), 0),
        Err("cannot resolve upstream a:1: nope".to_string())
    );
    assert!(g.answered("a:1", Ok(vec![]), 0).is_err());
    assert_eq!(g.cached("a:1", 0), None);
    assert_eq!(g.answered("a:1", one(), 1).as_deref(), Ok("10.0.0.1:1"));
    assert_eq!(g.cached("a:1", 1).as_deref(), Some("10.0.0.1:1"));

    // A recent answer is reused, and the lookup does not count.
    assert_eq!(g.resolve("a:1", two(), 5_000_000_000).as_deref(), Ok("10.0.0.1:1"));
    assert_eq!(g.resolve("b:1", two(), 5_000_000_000).as_deref(), Ok("10.0.0.2:1"));
    // One that is not is replaced, unless the lookup fails.
    assert!(g.resolve("a:1", Err("nope".to_string()), 5_000_000_001).is_err());
    assert_eq!(g.cached("a:1", 5_000_000_000).as_deref(), Some("10.0.0.1:1"));
    assert_eq!(g.resolve("a:1", two(), 5_000_000_001).as_deref(), Ok("10.0.0.2:1"));
    assert_eq!(g.cached("a:1", 5_000_000_001).as_deref(), Some("10.0.0.2:1"));
}

#[test]
fn a_lookup_comes_to_its_first_address() {
    let found = vec!["10.0.0.1:1".to_string(), "10.0.0.2:1".to_string()];
    assert_eq!(resolution("a:1", Ok(found)), Ok("10.0.0.1:1".to_string()));
    assert_eq!(
        resolution("a:1", Ok(vec![])),
        Err("upstream a:1 resolved to no addresses".to_string())
    );
    assert_eq!(
        resolution("a:1", Err("nope".to_string())),
        Err("cannot resolve upstream a:1: nope".to_string())
    );
}

#[test]
fn synthetic_addrs_are_stable_distinct_and_in_cgnat() {
    let a = iroh::SecretKey::generate().public();
    let b = iroh::SecretKey::generate().public();

    assert_eq!(synthetic_addr(a.as_bytes()), synthetic_addr(a.as_bytes()));
    assert_ne!(synthetic_addr(a.as_bytes()), synthetic_addr(b.as_bytes()));

    let ip = synthetic_addr(a.as_bytes()).ip;
    let o = ip.to_be_bytes();
    assert_eq!(o[0], 100);
    assert!((64..128).contains(&o[1]), "not in 100.64.0.0/10: {ip:#x}");
}

#[test]
fn an_address_is_mixed_from_all_of_the_key() {
    assert_eq!(
        synthetic_addr(&[0; 32]),
        SyntheticAddr { ip: 0x6440_0000, port: 1024 }
    );
    let mut key = [0u8; 32];
    key[31] = 1;
    // The last word is turned once, by 7 bits.
    assert_eq!(synthetic_addr(&key), SyntheticAddr { ip: 0x6440_0080, port: 1024 });
    let mut key = [0u8; 32];
    key[3] = 1;
    // The first word is turned 8 times: 56 bits, or 24 more than once around.
    assert_eq!(
        synthetic_addr(&key),
        SyntheticAddr { ip: 0x6440_0000, port: 1024 + 4 }
    );
}
