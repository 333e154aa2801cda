use ig::control::{committed, connected, pinned, resolve, Effect, Order, Step};
use ig::daemon::Daemon;
use ig::grants::Grants;
use ig::keys::{parse_key, parse_keys, readable_keys, refuse_key, PeerKey};
use ig::protocol::{ErrorKind, Failure, PeerInfo, Report, Request, Response};
use ig::service::{BackendSpec, Host, Services};
use ig::state::{Found, State, Store};

fn id(seed: u8) -> String {
    iroh::SecretKey::from_bytes(&[seed; 32]).public().to_string()
}

fn key(seed: u8) -> PeerKey {
    parse_key(&id(seed)).unwrap()
}

fn services() -> Services {
    Services::new(Host { text: "127.0.0.1".to_string(), v6: false })
}

fn daemon() -> Daemon {
    Daemon::new(key(1), services())
}

fn tcp(upstream: &str) -> BackendSpec {
    BackendSpec::Tcp { upstream: upstream.to_string() }
}

fn expose(port: u16, to: Vec<String>, backend: Option<BackendSpec>, dry_run: bool) -> Request {
    Request::Expose { port, to, backend, dry_run }
}

fn unexpose(port: u16, to: Option<String>, dry_run: bool) -> Request {
    Request::Unexpose { port, to, dry_run }
}

fn state_of(step: Step) -> State {
    match step {
        Step::Commit { state, .. } => state,
        other => panic!("{other:?}"),
    }
}

fn detail_of(step: Step) -> (bool, String) {
    match step {
        Step::Reply(Response::Done { dry_run, detail }) => (dry_run, detail),
        Step::Commit { detail, .. } => (false, detail),
        other => panic!("{other:?}"),
    }
}

fn error_of(step: Step) -> (ErrorKind, String) {
    match step {
        Step::Reply(Response::Error { kind, message }) => (kind, message),
        other => panic!("{other:?}"),
    }
}

#[test]
fn a_key_is_read_and_written_as_64_hex_digits() {
    assert_eq!(key(7).text(), id(7));
    assert_eq!(key(7).text().len(), 64);
    assert!(key(7).is(&key(7)));
    assert!(!key(7).is(&key(8)));
    let e = parse_key("nonsense").unwrap_err();
    assert!(e.text().starts_with("invalid peer key: "), "{}", e.text());
    assert_eq!(Failure::kind_of(&e).exit_code(), 2);
    assert_eq!(refuse_key("why").text(), "invalid peer key: why");
    assert!(parse_keys(&vec![id(1), "x".to_string()]).is_err());
    assert_eq!(parse_keys(&vec![id(1), id(2)]).unwrap().len(), 2);
    assert_eq!(readable_keys(&vec![id(1), "x".to_string(), id(2)]).len(), 2);
}

#[test]
fn a_key_may_be_given_in_base32() {
    // The other encoding that iroh reads: what is written is hexadecimal all the same.
    let bytes = *iroh::SecretKey::from_bytes(&[3; 32]).public().as_bytes();
    let digits = b"abcdefghijklmnopqrstuvwxyz234567";
    let mut text = String::new();
    let mut bits: u32 = 0;
    let mut held: u32 = 0;
    for b in bytes {
        held = (held << 8) | b as u32;
        bits += 8;
        while bits >= 5 {
            text.push(digits[((held >> (bits - 5)) & 31) as usize] as char);
            bits -= 5;
        }
        held &= (1 << bits) - 1;
    }
    if bits > 0 {
        text.push(digits[((held << (5 - bits)) & 31) as usize] as char);
    }
    assert_eq!(parse_key(&text).unwrap().text(), id(3));
}

#[test]
fn grants_are_held_once_and_in_order() {
    let mut g = Grants::new();
    assert!(!g.allows(22, &key(2)));
    g.add(22, &key(2));
    g.add(80, &key(3));
    g.add(22, &key(3));
    g.add(22, &key(2));
    assert_eq!(g.all(), vec![(22, id(2)), (80, id(3)), (22, id(3))]);
    assert_eq!(g.ports(), vec![22, 80]);
    assert_eq!(g.ports_for(&key(3)), vec![22, 80]);
    assert_eq!(g.ports_for(&key(2)), vec![22]);
    g.remove(Some(22), &Some(key(2)));
    assert_eq!(g.all(), vec![(80, id(3)), (22, id(3))]);
    g.remove(None, &Some(key(3)));
    assert!(!g.exposes(22));
    assert!(g.all().is_empty());
}

#[test]
fn a_port_is_served_only_to_the_peers_that_a_grant_names() {
    let mut d = daemon();
    let step = d.handle_request(expose(22, vec![id(2)], None, false), &vec![]);
    match step {
        Step::Commit { state, effect, detail } => {
            assert_eq!(state.grants, vec![(22, id(2))]);
            assert_eq!(effect, Effect::Announce);
            assert_eq!(detail, "expose 22 to 1 peer(s), served by default 127.0.0.1:22");
        }
        other => panic!("{other:?}"),
    }
    assert!(d.allows(22, &key(2)));
    assert!(!d.allows(22, &key(3)));
    assert!(!d.allows(23, &key(2)));
    match d.dispatch(22, &key(2)) {
        Some(BackendSpec::Tcp { upstream }) => assert_eq!(upstream, "127.0.0.1:22"),
        other => panic!("{other:?}"),
    }
    assert!(d.dispatch(22, &key(3)).is_none());
    assert!(d.dispatch(23, &key(2)).is_none());
    assert_eq!(d.ports_for(&key(2)), vec![22]);
    assert!(d.ports_for(&key(3)).is_empty());
}

#[test]
fn an_expose_without_grantees_goes_to_every_known_peer() {
    let mut d = daemon();
    let known = vec![key(2), key(3)];
    let step = d.handle_request(expose(80, vec![], Some(tcp("web:80")), false), &known);
    assert_eq!(detail_of(step).1, "expose 80 to 2 peer(s), served by tcp web:80");
    assert!(d.allows(80, &key(2)) && d.allows(80, &key(3)));

    let step = d.handle_request(expose(81, vec![], None, false), &vec![]);
    assert_eq!(
        error_of(step),
        (ErrorKind::Invalid, "no peers to grant to; use --to <key>".to_string())
    );
}

#[test]
fn a_typo_in_a_grantee_declares_no_backend() {
    let mut d = daemon();
    let bad = vec![id(2), "typo".to_string()];
    let (kind, message) = error_of(d.handle_request(expose(80, bad, Some(tcp("")), false), &vec![]));
    assert_eq!(kind, ErrorKind::Invalid);
    assert!(message.starts_with("invalid peer key: "));
    assert_eq!(d.describe(80), "default 127.0.0.1:80");

    let (_, message) =
        error_of(d.handle_request(expose(80, vec![id(2)], Some(tcp("")), false), &vec![]));
    assert_eq!(message, "tcp service on port 80 has an empty upstream");
    assert!(!d.allows(80, &key(2)));
}

#[test]
fn a_dry_run_changes_nothing_and_decides_alike() {
    let mut d = daemon();
    let dry = detail_of(d.handle_request(expose(22, vec![id(2)], Some(tcp("a:1")), true), &vec![]));
    assert_eq!(dry, (true, "expose 22 to 1 peer(s), served by tcp a:1".to_string()));
    assert!(!d.allows(22, &key(2)));
    assert!(d.snapshot().is_empty());
    let wet = detail_of(d.handle_request(expose(22, vec![id(2)], Some(tcp("a:1")), false), &vec![]));
    assert_eq!(wet.1, dry.1);

    let dry = detail_of(d.handle_request(unexpose(22, None, true), &vec![]));
    assert_eq!(dry, (true, "revoke every grant for 22".to_string()));
    assert!(d.allows(22, &key(2)));

    let both = |dry_run: bool| expose(1, vec!["x".to_string()], None, dry_run);
    assert_eq!(
        error_of(d.handle_request(both(true), &vec![])),
        error_of(d.handle_request(both(false), &vec![]))
    );

    let step = d.handle_request(Request::AddPeer { ticket: id(2), dry_run: true }, &vec![]);
    assert_eq!(detail_of(step).1, format!("connect to peer {}", id(2)));
    let step = d.handle_request(Request::RemovePeer { ticket: id(2), dry_run: true }, &vec![]);
    assert_eq!(detail_of(step).1, format!("disconnect from peer {}", id(2)));
    let pin = Request::Pin { key: id(2), label: "vm".to_string(), dry_run: true };
    assert_eq!(
        detail_of(d.handle_request(pin, &vec![])).1,
        format!("pin {} as \"vm\"", id(2))
    );
}

#[test]
fn revoking_the_last_grantee_retires_the_service() {
    for by_name in [false, true] {
        let mut d = daemon();
        d.handle_request(expose(80, vec![id(2)], Some(tcp("web:80")), false), &vec![]);
        let to = if by_name { Some(id(2)) } else { None };
        let step = d.handle_request(unexpose(80, to, false), &vec![]);
        assert!(state_of(step).is_empty());
        assert_eq!(d.describe(80), "default 127.0.0.1:80");
    }
}

#[test]
fn a_revoke_that_leaves_a_grantee_keeps_the_service() {
    let mut d = daemon();
    d.handle_request(expose(80, vec![id(2), id(3)], Some(tcp("web:80")), false), &vec![]);
    let step = d.handle_request(unexpose(80, Some(id(2)), false), &vec![]);
    assert_eq!(detail_of(step).1, format!("revoke 80 from {}", id(2)));
    assert_eq!(d.describe(80), "tcp web:80");
    assert!(!d.allows(80, &key(2)) && d.allows(80, &key(3)));
}

#[test]
fn a_removed_peer_loses_what_was_granted_to_it() {
    let mut d = daemon();
    d.handle_request(expose(80, vec![id(2)], Some(tcp("web:80")), false), &vec![]);
    d.handle_request(expose(81, vec![id(2), id(3)], Some(tcp("web:81")), false), &vec![]);
    match d.handle_request(Request::RemovePeer { ticket: id(2), dry_run: false }, &vec![]) {
        Step::Disconnect { ticket, id: who } => {
            assert_eq!(ticket, id(2));
            let failed = d.disconnected(&ticket, &who, Err(Report::failure(ErrorKind::NotFound, "no such peer".to_string())));
            assert_eq!(error_of(failed), (ErrorKind::NotFound, "no such peer".to_string()));
            assert!(d.allows(80, &key(2)));
            match d.disconnected(&ticket, &who, Ok(())) {
                Step::Commit { state, effect, detail } => {
                    assert_eq!(state.grants, vec![(81, id(3))]);
                    assert_eq!(state.services.len(), 1);
                    assert_eq!(effect, Effect::Nothing);
                    assert_eq!(detail, format!("removed peer {}", id(2)));
                }
                other => panic!("{other:?}"),
            }
        }
        other => panic!("{other:?}"),
    }
    assert_eq!(d.describe(80), "default 127.0.0.1:80");
    assert_eq!(d.describe(81), "tcp web:81");
}

#[test]
fn a_remap_is_set_and_cleared() {
    let mut d = daemon();
    let bind = |local: Option<u16>| Request::Bind { port: 5432, local, dry_run: false };
    match d.handle_request(bind(Some(5433)), &vec![]) {
        Step::Commit { state, effect, detail } => {
            assert_eq!(state.binds.get(&5432), Some(&5433));
            assert_eq!(effect, Effect::Rebind { port: 5432, local: Some(5433) });
            assert_eq!(detail, "bind peer port 5432 on local port 5433");
        }
        other => panic!("{other:?}"),
    }
    assert_eq!((d.landing(5432), d.landing(80)), (5433, 80));
    let (_, detail) = detail_of(d.handle_request(bind(Some(0)), &vec![]));
    assert_eq!(detail, "bind peer port 5432 on a free local port");
    let step = d.handle_request(bind(None), &vec![]);
    assert!(state_of(step).binds.is_empty());
    assert_eq!(d.landing(5432), 5432);
    let dry = Request::Bind { port: 5432, local: None, dry_run: true };
    assert_eq!(detail_of(d.handle_request(dry, &vec![])).1, "bind peer port 5432 on 5432 again");
}

#[test]
fn a_restart_keeps_what_was_told() {
    let mut d = daemon();
    d.handle_request(expose(80, vec![id(2)], Some(tcp("web:80")), false), &vec![]);
    d.handle_request(Request::Bind { port: 1, local: Some(2), dry_run: false }, &vec![]);

    let store = Store::new("key");
    let saved = store.save(&d.snapshot());
    let found = store.load(Found::State(saved)).unwrap();

    let mut again = daemon();
    again.restore(&found).unwrap();
    assert!(again.allows(80, &key(2)));
    assert_eq!(again.describe(80), "tcp web:80");
    let state = again.snapshot();
    assert_eq!(state.grants, vec![(80, id(2))]);
    assert_eq!(state.binds.get(&1), Some(&2));
    assert_eq!(state.services.len(), 1);
}

#[test]
fn a_startup_declaration_is_an_overlay_for_that_run() {
    let mut told = State::default();
    told.grants.push((80, id(2)));
    told.grants.push((81, "unreadable".to_string()));
    told.services.insert(80, tcp("old:80"));
    told.services.insert(90, tcp("told:90"));

    let mut overlay = services();
    overlay.declare("s.toml", vec![(80, tcp("new:80"))]).unwrap();
    let (d, startup) = Daemon::boot(
        key(1),
        overlay,
        &told,
        &vec![(1, 2), (1, 3)],
        &vec![22, 22],
        &vec![id(3), "unreadable".to_string()],
    )
    .unwrap();

    // What was declared in this run wins, and everything that is served is granted.
    assert_eq!(d.describe(80), "tcp new:80");
    assert_eq!(startup.ports, vec![22, 80, 90]);
    assert!(!startup.unheard);
    for port in [22, 80, 90] {
        assert!(d.allows(port, &key(3)));
    }
    assert!(d.allows(80, &key(2)));
    assert_eq!(d.list(vec![], vec![]).remaps[0].local, 3);

    // None of it is written down.
    let state = d.snapshot();
    assert_eq!(state.grants, vec![(80, id(2))]);
    assert!(state.binds.is_empty());
    match state.services.get(&80) {
        Some(BackendSpec::Tcp { upstream }) => assert_eq!(upstream, "old:80"),
        other => panic!("{other:?}"),
    }
}

#[test]
fn ports_with_no_one_to_grant_to_are_noticed() {
    let (d, startup) =
        Daemon::boot(key(1), services(), &State::default(), &vec![], &vec![22], &vec![]).unwrap();
    assert!(startup.unheard);
    assert!(d.ports_for(&key(2)).is_empty());
    let (_, startup) =
        Daemon::boot(key(1), services(), &State::default(), &vec![], &vec![], &vec![]).unwrap();
    assert!(!startup.unheard);
}

#[test]
fn a_written_service_that_could_never_serve_stops_the_daemon() {
    let mut told = State::default();
    told.services.insert(80, BackendSpec::Http { routes: vec![] });
    told.services.insert(7, tcp(""));
    let mut d = daemon();
    let e = d.restore(&told).unwrap_err();
    assert_eq!(e.text(), "tcp service on port 7 has an empty upstream");
    assert!(d.snapshot().is_empty());

    // What stands below the first bad one came back, and nothing else did.
    told.services.insert(5, tcp("a:5"));
    told.grants.push((5, id(2)));
    let mut d = daemon();
    assert!(d.restore(&told).is_err());
    assert_eq!(d.describe(5), "tcp a:5");
    assert!(!d.allows(5, &key(2)));
    told.services.remove(&5);
    told.grants.clear();

    let mut overlay = services();
    overlay.declare("s.toml", vec![(7, tcp("a:7")), (80, tcp("a:80"))]).unwrap();
    let mut d = Daemon::new(key(1), overlay);
    d.restore(&told).unwrap();
    assert_eq!(d.describe(7), "tcp a:7");
    assert!(d.snapshot().services.is_empty());
}

#[test]
fn the_list_is_the_whole_picture() {
    let mut d = daemon();
    d.handle_request(expose(80, vec![id(2), id(3)], Some(tcp("web:80")), false), &vec![]);
    d.handle_request(expose(22, vec![id(2)], None, false), &vec![]);
    d.handle_request(Request::Bind { port: 5, local: Some(6), dry_run: false }, &vec![]);
    let peer = PeerInfo { key: id(2), label: None, online: true, they_expose: vec![1] };
    let info = d.list(vec![peer], vec![]);
    assert_eq!(info.me, id(1));
    assert_eq!(d.ticket(), id(1));
    assert_eq!(info.peers.len(), 1);
    let rows: Vec<(u16, &str)> = info.i_expose.iter().map(|e| (e.port, e.backend.as_str())).collect();
    assert_eq!(rows, vec![(22, "default 127.0.0.1:22"), (80, "tcp web:80")]);
    let grants: Vec<(u16, &str)> = info.grants.iter().map(|g| (g.port, g.to.as_str())).collect();
    let (two, three) = (id(2), id(3));
    assert_eq!(grants, vec![(80, two.as_str()), (80, three.as_str()), (22, two.as_str())]);
    assert_eq!((info.remaps[0].port, info.remaps[0].local), (5, 6));
}

#[test]
fn requests_that_change_nothing_here() {
    let mut d = daemon();
    assert!(matches!(d.handle_request(Request::List, &vec![]), Step::Show));
    assert!(matches!(d.handle_request(Request::ListPeers, &vec![]), Step::Show));
    assert!(matches!(d.handle_request(Request::ListPorts, &vec![]), Step::Show));
    match d.handle_request(Request::Ticket, &vec![]) {
        Step::Reply(Response::Ticket(t)) => assert_eq!(t, id(1)),
        other => panic!("{other:?}"),
    }
    match d.handle_request(Request::GrantToken { label: "vm".to_string() }, &vec![]) {
        Step::Mint { label } => assert_eq!(label, "vm"),
        other => panic!("{other:?}"),
    }
    match d.handle_request(Request::AddPeer { ticket: id(2), dry_run: false }, &vec![]) {
        Step::Connect { ticket } => assert_eq!(ticket, id(2)),
        other => panic!("{other:?}"),
    }
    let pin = Request::Pin { key: id(2), label: "vm".to_string(), dry_run: false };
    match d.handle_request(pin, &vec![]) {
        Step::Pin { key, label } => assert_eq!((key, label.as_str()), (id(2), "vm")),
        other => panic!("{other:?}"),
    }
}

#[test]
fn replies_follow_what_came_of_it() {
    let done = |r: Response| match r {
        Response::Done { dry_run: false, detail } => detail,
        other => panic!("{other:?}"),
    };
    assert_eq!(done(connected("t", Ok(()))), "connected to peer t");
    assert_eq!(done(pinned("k", "vm", Ok(()))), "pinned k as \"vm\"");
    assert_eq!(done(committed("d".to_string(), Ok(()))), "d");
    let gone = || Err(Report::failure(ErrorKind::NotFound, "gone".to_string()));
    for r in [connected("t", gone()), pinned("k", "l", gone()), committed("d".to_string(), gone())] {
        match r {
            Response::Error { kind, message } => {
                assert_eq!((kind, message.as_str()), (ErrorKind::NotFound, "gone"));
            }
            other => panic!("{other:?}"),
        }
    }
}

#[test]
fn an_order_is_carried_out_as_it_was_resolved() {
    let mut d = daemon();
    let order = resolve(unexpose(9, Some(id(4)), true), &vec![]).unwrap();
    match &order {
        Order::Unexpose { port: 9, to: Some(k), dry_run: true } => assert_eq!(k.text(), id(4)),
        other => panic!("{other:?}"),
    }
    assert_eq!(detail_of(d.carry_out(order)).1, format!("revoke 9 from {}", id(4)));
    assert!(resolve(unexpose(9, Some("x".to_string()), false), &vec![]).is_err());
}

#[test]
fn a_revoke_of_what_was_told_leaves_what_this_run_was_started_with() {
    let mut told = State::default();
    told.grants.push((80, id(2)));
    told.services.insert(80, tcp("web:80"));
    let (mut d, _) =
        Daemon::boot(key(1), services(), &told, &vec![], &vec![], &vec![id(3)]).unwrap();
    let step = d.handle_request(unexpose(80, Some(id(2)), false), &vec![]);
    // The service is still held in this run, and is not written down without a grant.
    assert!(state_of(step).is_empty());
    assert!(d.allows(80, &key(3)));
    assert_eq!(d.describe(80), "tcp web:80");
    let step = d.handle_request(unexpose(80, None, false), &vec![]);
    assert!(state_of(step).is_empty());
    assert_eq!(d.describe(80), "default 127.0.0.1:80");
}

#[test]
fn saying_it_again_changes_nothing() {
    let mut d = daemon();
    let again = |d: &mut Daemon, make: &dyn Fn() -> Request| {
        let once = state_of(d.handle_request(make(), &vec![]));
        let twice = state_of(d.handle_request(make(), &vec![]));
        assert_eq!(once.grants, twice.grants);
        assert_eq!(once.binds, twice.binds);
        assert_eq!(format!("{:?}", once.services), format!("{:?}", twice.services));
    };
    again(&mut d, &|| expose(80, vec![id(2), id(2)], Some(tcp("web:80")), false));
    again(&mut d, &|| Request::Bind { port: 1, local: Some(2), dry_run: false });
    again(&mut d, &|| Request::Bind { port: 1, local: None, dry_run: false });
    // A new backend takes the place of the old one.
    d.handle_request(expose(80, vec![id(2)], Some(tcp("other:80")), false), &vec![]);
    assert_eq!(d.describe(80), "tcp other:80");
    // Without one, what is declared stays.
    let (_, detail) = detail_of(d.handle_request(expose(80, vec![id(3)], None, false), &vec![]));
    assert_eq!(detail, "expose 80 to 1 peer(s), served by tcp other:80");
    again(&mut d, &|| unexpose(80, Some(id(2)), false));
    again(&mut d, &|| unexpose(80, None, false));
    assert!(d.snapshot().is_empty());
}
