use ig::protocol::{ErrorKind, Failure};
use ig::service::Host;
use ig::startup::{
    claim_socket, default_key_path, key_bytes, log_directive, options, parse_bind, pins_path,
    read_token, DaemonArgs, Probe,
};

fn args(enroll_file: Option<&str>, enroll: Option<&str>) -> DaemonArgs {
    DaemonArgs {
        host: Host { text: "127.0.0.1".to_string(), v6: false },
        peers: vec!["p".to_string()],
        ports: vec![22],
        key_path: None,
        enroll_file: enroll_file.map(str::to_string),
        enroll: enroll.map(str::to_string),
        binds: vec![(1, 2)],
        services: vec!["s.toml".to_string()],
    }
}

#[test]
fn a_remap_is_a_pair_of_ports() {
    assert_eq!(parse_bind("5432:5433"), Ok((5432, 5433)));
    assert_eq!(parse_bind("0:65535"), Ok((0, 65535)));
    assert_eq!(parse_bind("5432"), Err("wants REMOTE:LOCAL, got 5432".to_string()));
    assert_eq!(parse_bind("x:1"), Err("bad remote port x".to_string()));
    assert_eq!(parse_bind(":1"), Err("bad remote port ".to_string()));
    assert_eq!(parse_bind("1:65536"), Err("bad local port 65536".to_string()));
    assert_eq!(parse_bind("1:2:3"), Err("bad local port 2:3".to_string()));
}

#[test]
fn a_token_file_goes_before_a_token() {
    let o = options(args(None, Some("inline")), None).unwrap();
    assert_eq!(o.enroll.as_deref(), Some("inline"));
    assert_eq!((o.ports, o.binds, o.peers.len()), (vec![22], vec![(1, 2)], 1));
    assert_eq!(o.service_configs, ["s.toml"]);
    let o = options(args(Some("/t"), None), Some(Ok("secret\n".to_string()))).unwrap();
    assert_eq!(o.enroll.as_deref(), Some("secret"));
    let e = options(args(Some("/t"), None), Some(Err("enoent".to_string()))).unwrap_err();
    assert_eq!(e.text(), "cannot read enrollment token /t: enoent");
    assert_eq!(read_token("/t", Ok(" x \r\n".to_string())).unwrap(), "x");
}

#[test]
fn the_key_is_where_it_is_documented_to_be() {
    assert_eq!(default_key_path(Some("/s"), Some("/h")), "/s/ig/key");
    assert_eq!(default_key_path(None, Some("/h")), "/h/.local/state/ig/key");
    assert_eq!(default_key_path(None, None), "./ig/key");
    assert_eq!(default_key_path(Some(""), None), "ig/key");
    assert_eq!(default_key_path(Some("/s/"), None), "/s/ig/key");
    assert_eq!(pins_path("/s/ig/key"), "/s/ig/key.peers.json");
}

#[test]
fn rejects_malformed_key_file() {
    assert!(key_bytes("/k", &b"too short".to_vec()).is_err());
    let e = key_bytes("/k", &vec![0; 33]).unwrap_err();
    assert_eq!(e.text(), "key file /k is not 32 bytes");
    let raw: Vec<u8> = (0..32).collect();
    assert_eq!(key_bytes("/k", &raw).unwrap().to_vec(), raw);
}

#[test]
fn a_live_control_socket_is_never_taken_over() {
    let e = claim_socket("/tmp/ig.sock", Probe::Answered).unwrap_err();
    assert_eq!(
        e.text(),
        "a daemon is already listening on /tmp/ig.sock; stop it first, or pass a different --socket"
    );
    assert_eq!(Failure::kind_of(&e), ErrorKind::Conflict);
    assert!(claim_socket("/tmp/ig.sock", Probe::NotFound).is_ok());
    assert!(claim_socket("/tmp/ig.sock", Probe::Refused).is_ok());
    let e = claim_socket("/tmp/ig.sock", Probe::Failed("denied".to_string())).unwrap_err();
    assert_eq!(e.text(), "cannot tell whether a daemon holds /tmp/ig.sock: denied");
}

#[test]
fn quiet_logs_warnings_only() {
    assert_eq!(log_directive(true), "ig=warn");
    assert_eq!(log_directive(false), "ig=info");
}
