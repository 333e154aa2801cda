use ig::client::{
    accept_reply, build_request, emit_value, json_view, render, render_failure, short,
    text_view, unreachable_daemon, wanted_table, Command, Format, ListView, PeerCmd, PortCmd,
};
use ig::protocol::{
    BindingInfo, ErrorKind, ExposedInfo, Failure, GrantInfo, ListInfo, PeerInfo, RemapInfo,
    Report, Request, Response,
};
use ig::service::{BackendSpec, Document, Route};

const ME: &str = "e51a1db43748a73b44c12233239cbb36a763953c7901be97443cf075c02abce2";
const PEER: &str = "2ecee2029149aaaaaaaaaaaaaaaaaaaaaaaaaaaaaaaaaaaaaaaaaaaaaaaaaaaa";

fn info() -> ListInfo {
    let exposed = |port: u16, backend: &str| ExposedInfo { port, backend: backend.to_string() };
    let grant = |port: u16| GrantInfo { port, to: PEER.to_string() };
    ListInfo {
        me: ME.to_string(),
        peers: vec![PeerInfo {
            key: PEER.to_string(),
            label: Some("desktop".to_string()),
            online: true,
            they_expose: vec![],
        }],
        i_expose: vec![
            exposed(3002, "default 127.0.0.1:3002"),
            exposed(5432, "tcp db.internal:5432"),
            exposed(6000, "unix /var/run/docker.sock"),
            exposed(8080, "http (2 routes)"),
        ],
        grants: vec![grant(3002), grant(5432), grant(6000), grant(8080)],
        bindings: vec![],
        remaps: vec![RemapInfo { port: 1, local: 2 }],
    }
}

fn json(text: &str) -> serde_json::Value {
    serde_json::from_str(text).unwrap()
}

#[test]
fn status_is_shown_as_documented() {
    let text = text_view(&info(), ListView::All);
    let want = "\
id  e51a1db43748a73b44c12233239cbb36a763953c7901be97443cf075c02abce2

peers
  2ecee2029149  desktop     online   exposes -

exposed
  3002    default 127.0.0.1:3002          to 2ecee2029149
  5432    tcp db.internal:5432            to 2ecee2029149
  6000    unix /var/run/docker.sock       to 2ecee2029149
  8080    http (2 routes)                 to 2ecee2029149

bindings
  (none)
";
    assert_eq!(text, want);
}

#[test]
fn rows_show_labels_states_and_remaps() {
    let mut i = info();
    i.peers[0].label = None;
    i.peers[0].online = false;
    i.peers[0].they_expose = vec![80, 443];
    i.grants.clear();
    i.bindings = vec![
        BindingInfo { port: 80, local: 80, peer: PEER.to_string() },
        BindingInfo { port: 443, local: 8443, peer: "short".to_string() },
    ];
    let text = text_view(&i, ListView::All);
    assert!(text.contains("  2ecee2029149  -           offline  exposes 80,443\n"), "{text}");
    assert!(text.contains("  8080    http (2 routes)                 to (nobody)\n"), "{text}");
    assert!(
        text.contains("  127.0.0.1:80                            from 2ecee2029149\n"),
        "{text}"
    );
    assert!(
        text.contains("  127.0.0.1:8443 (remapped from 443)      from short\n"),
        "{text}"
    );
}

#[test]
fn each_listing_shows_its_part() {
    let i = info();
    assert!(text_view(&i, ListView::Peers).starts_with("\npeers\n"));
    assert!(!text_view(&i, ListView::Peers).contains("exposed\n"));
    assert!(text_view(&i, ListView::Ports).starts_with("\nexposed\n"));
    assert_eq!(text_view(&i, ListView::Nothing), "");

    let keys = |v: serde_json::Value| -> Vec<String> { v.as_object().unwrap().keys().cloned().collect() };
    assert_eq!(keys(json_view(&i, ListView::Peers)), ["peers"]);
    assert_eq!(keys(json_view(&i, ListView::Ports)), ["exposed", "grants"]);
    assert_eq!(
        keys(json_view(&i, ListView::All)),
        ["bindings", "exposed", "grants", "id", "peers"]
    );
}

#[test]
fn json_rows_have_the_documented_shapes() {
    let mut i = info();
    i.bindings = vec![BindingInfo { port: 5432, local: 5433, peer: PEER.to_string() }];
    i.peers[0].they_expose = vec![3001];
    let v = json_view(&i, ListView::All);
    assert_eq!(v["id"], ME);
    assert_eq!(v["peers"][0]["key"], PEER);
    assert_eq!(v["peers"][0]["label"], "desktop");
    assert_eq!(v["peers"][0]["online"], true);
    assert_eq!(v["peers"][0]["they_expose"][0], 3001);
    assert_eq!(v["exposed"][1]["port"], 5432);
    assert_eq!(v["exposed"][1]["backend"], "tcp db.internal:5432");
    assert_eq!(v["grants"][1]["port"], 5432);
    assert_eq!(v["grants"][1]["to"], PEER);
    assert_eq!(v["bindings"][0]["port"], 5432);
    assert_eq!(v["bindings"][0]["local"], 5433);
    assert_eq!(v["bindings"][0]["peer"], PEER);

    i.peers[0].label = None;
    assert!(json_view(&i, ListView::All)["peers"][0]["label"].is_null());
}

#[test]
fn values_go_to_stdout_and_actions_do_not() {
    let out = render(Response::Ticket(ME.to_string()), ListView::Nothing, Format::Text, false);
    assert_eq!((out.stdout, out.stderr, out.code), (format!("{ME}\n"), String::new(), 0));
    let out = render(Response::Token("t".to_string()), ListView::Nothing, Format::Json, false);
    assert_eq!(out.stdout, "{\n  \"token\": \"t\"\n}\n");
    assert_eq!(emit_value(Format::Json, "id", "x"), "{\n  \"id\": \"x\"\n}\n");

    let done = |dry_run: bool| Response::Done { dry_run, detail: "do it".to_string() };
    let out = render(done(true), ListView::Nothing, Format::Text, false);
    assert_eq!((out.stdout.as_str(), out.stderr.as_str(), out.code), ("", "would: do it\n", 0));
    let out = render(done(false), ListView::Nothing, Format::Text, false);
    assert_eq!(out.stderr, "do it\n");
    let out = render(done(false), ListView::Nothing, Format::Text, true);
    assert_eq!((out.stdout.as_str(), out.stderr.as_str()), ("", ""));
    let out = render(done(true), ListView::Nothing, Format::Json, true);
    let v = json(&out.stdout);
    assert_eq!(v["ok"], true);
    assert_eq!(v["dry_run"], true);
    assert_eq!(v["detail"], "do it");
    assert_eq!(out.stderr, "");
}

#[test]
fn failures_say_so_on_stderr_and_in_the_exit_code() {
    let fail = || Response::Error { kind: ErrorKind::NotFound, message: "no peer".to_string() };
    let out = render(fail(), ListView::Nothing, Format::Text, true);
    assert_eq!((out.stdout.as_str(), out.stderr.as_str(), out.code), ("", "error: no peer\n", 3));
    let out = render(fail(), ListView::Nothing, Format::Json, false);
    let v = json(&out.stdout);
    assert_eq!(v["ok"], false);
    assert_eq!(v["error"]["kind"], "not_found");
    assert_eq!(v["error"]["message"], "no peer");
    assert_eq!(out.stderr, "error: no peer\n");

    let e = unreachable_daemon("/tmp/ig.sock", "refused");
    assert_eq!(Failure::kind_of(&e), ErrorKind::Unavailable);
    let out = render_failure(e, Format::Json);
    assert_eq!(out.code, 7);
    assert_eq!(json(&out.stdout)["error"]["kind"], "unavailable");
    assert_eq!(
        out.stderr,
        "error: cannot reach the daemon at /tmp/ig.sock (refused); start it with `ig daemon`\n"
    );
    let out = render_failure(Report::internal("x".to_string()), Format::Text);
    assert_eq!((out.code, out.stdout.as_str()), (1, ""));
}

#[test]
fn a_listing_is_rendered_in_its_view() {
    let view = ListView::of(&Request::ListPorts);
    let out = render(Response::List(info()), view, Format::Text, false);
    assert!(out.stdout.starts_with("\nexposed\n"));
    let out = render(Response::List(info()), view, Format::Json, false);
    assert_eq!(json(&out.stdout)["exposed"][0]["port"], 3002);
    assert_eq!(ListView::of(&Request::List), ListView::All);
    assert_eq!(ListView::of(&Request::ListPeers), ListView::Peers);
    assert_eq!(ListView::of(&Request::Ticket), ListView::Nothing);
}

#[test]
fn a_short_key_is_a_prefix() {
    assert_eq!(short(ME), "e51a1db43748");
    assert_eq!(short("abc"), "abc");
}

#[test]
fn an_empty_reply_is_a_closed_connection() {
    assert_eq!(accept_reply("x\n".to_string()).unwrap(), "x\n");
    assert_eq!(
        accept_reply(String::new()).unwrap_err().text(),
        "daemon closed the connection without replying"
    );
}

fn expose(upstream: Option<&str>, unix: Option<&str>, routes: Option<&str>) -> Command {
    Command::Port {
        cmd: PortCmd::Expose {
            port: 80,
            to: vec!["k".to_string()],
            upstream: upstream.map(str::to_string),
            unix: unix.map(str::to_string),
            routes: routes.map(str::to_string),
            dry_run: true,
        },
    }
}

fn backend_of(r: Request) -> Option<BackendSpec> {
    match r {
        Request::Expose { port: 80, to, backend, dry_run: true } => {
            assert_eq!(to, ["k"]);
            backend
        }
        other => panic!("{other:?}"),
    }
}

#[test]
fn an_expose_declares_the_one_backend_it_names() {
    assert!(backend_of(build_request(expose(None, None, None), None).unwrap()).is_none());
    match backend_of(build_request(expose(Some("a:1"), None, None), None).unwrap()) {
        Some(BackendSpec::Tcp { upstream }) => assert_eq!(upstream, "a:1"),
        other => panic!("{other:?}"),
    }
    match backend_of(build_request(expose(None, Some("/s"), None), None).unwrap()) {
        Some(BackendSpec::Unix { path }) => assert_eq!(path, "/s"),
        other => panic!("{other:?}"),
    }
    assert!(backend_of(build_request(expose(Some("a:1"), Some("/s"), None), None).unwrap()).is_none());
    assert!(backend_of(build_request(expose(Some("a:1"), None, Some("r")), None).unwrap()).is_none());

    let command = expose(None, None, Some("r.toml"));
    assert_eq!(wanted_table(&command), Some("r.toml"));
    let table = vec![Route {
        host: None,
        prefix: Some("/".to_string()),
        upstream: Some("a:1".to_string()),
        unix: None,
        tls: false,
        sni: None,
        strip_prefix: false,
        host_header: None,
    }];
    match backend_of(build_request(command, Some(Document::Parsed(table))).unwrap()) {
        Some(BackendSpec::Http { routes }) => assert_eq!(routes.len(), 1),
        other => panic!("{other:?}"),
    }
    let e = build_request(expose(None, None, Some("r.toml")), Some(Document::Parsed(vec![])));
    assert_eq!(e.unwrap_err().text(), "route table r.toml has no [[route]] entries");
    assert_eq!(wanted_table(&expose(Some("a:1"), None, Some("r"))), None);
}

#[test]
fn commands_ask_for_what_they_say() {
    let ask = |c: Command| build_request(c, None).unwrap();
    assert!(matches!(ask(Command::Id), Request::Ticket));
    assert!(matches!(ask(Command::Status), Request::List));
    assert!(matches!(ask(Command::Peer { cmd: PeerCmd::Ls }), Request::ListPeers));
    assert!(matches!(ask(Command::Port { cmd: PortCmd::Ls }), Request::ListPorts));
    let add = Command::Peer { cmd: PeerCmd::Add { ticket: "t".to_string(), dry_run: true } };
    assert!(matches!(ask(add), Request::AddPeer { ticket, dry_run: true } if ticket == "t"));
    let rm = Command::Peer { cmd: PeerCmd::Rm { ticket: "t".to_string(), dry_run: false } };
    assert!(matches!(ask(rm), Request::RemovePeer { ticket, dry_run: false } if ticket == "t"));
    let pin = PeerCmd::Pin { key: "k".to_string(), label: "l".to_string(), dry_run: false };
    assert!(matches!(ask(Command::Peer { cmd: pin }), Request::Pin { key, label, .. } if key == "k" && label == "l"));
    let token = Command::Peer { cmd: PeerCmd::Token { label: "l".to_string() } };
    assert!(matches!(ask(token), Request::GrantToken { label } if label == "l"));
    let bind = |local: Option<u16>, clear: bool| Command::Port {
        cmd: PortCmd::Bind { port: 1, local, clear, dry_run: false },
    };
    assert!(matches!(ask(bind(Some(2), false)), Request::Bind { port: 1, local: Some(2), .. }));
    assert!(matches!(ask(bind(None, true)), Request::Bind { port: 1, local: None, .. }));
    let un = PortCmd::Unexpose { port: 4, to: Some("k".to_string()), dry_run: false };
    assert!(matches!(ask(Command::Port { cmd: un }), Request::Unexpose { port: 4, to: Some(k), .. } if k == "k"));
}
