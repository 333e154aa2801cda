//! What `ig daemon` is started with, and what has to hold before it runs.

use crate::protocol::{ErrorKind, FailureView, Report};
use crate::service::{opt_str, Host};
use crate::text::{
    chars_of, decimal, find_from, first_of, is_digit, join_path, numbers_read_back, port_of,
    ports_read_back, read_port, text_of, the_first_is_found, trim, trimmed, under,
};
use vstd::prelude::*;

verus! {

// ---------------------------------------------------------------------------
// Options
// ---------------------------------------------------------------------------

/// The arguments of `ig daemon`.
#[derive(Debug)]
pub struct DaemonArgs {
    /// Where ports with no declared service forward to.
    pub host: Host,
    /// Peers to add on startup.
    pub peers: Vec<String>,
    /// Ports to expose to those peers on startup.
    pub ports: Vec<u16>,
    /// Path to the daemon's secret key.
    pub key_path: Option<String>,
    /// A file to read the one-time enrollment token from.
    pub enroll_file: Option<String>,
    /// The one-time enrollment token itself.
    pub enroll: Option<String>,
    /// REMOTE:LOCAL port remaps.
    pub binds: Vec<(u16, u16)>,
    /// Files that declare what exposed ports are backed by.
    pub services: Vec<String>,
}

/// Everything `ig daemon` was invoked with.
#[derive(Debug)]
pub struct Options {
    /// Fallback address for ports with no service declared.
    pub host: Host,
    /// Peers to add on startup.
    pub peers: Vec<String>,
    /// Ports to expose to those peers on startup.
    pub ports: Vec<u16>,
    /// Where the secret key lives.
    pub key_path: Option<String>,
    /// One-time enrollment token to present to `peers`.
    pub enroll: Option<String>,
    /// REMOTE:LOCAL port remaps to apply on startup.
    pub binds: Vec<(u16, u16)>,
    /// Service declarations to apply on startup.
    pub service_configs: Vec<String>,
}

/// The failure to read an enrollment token.
pub open spec fn no_token(path: Seq<char>, why: Seq<char>) -> FailureView {
    FailureView {
        kind: ErrorKind::Internal,
        message: "cannot read enrollment token "@ + path + ": "@ + why,
    }
}

/// Accepts what was read from the token file at `path`, without the newline a
/// shell redirect leaves behind.
pub fn read_token(path: &str, found: Result<String, String>) -> (r: Result<String, Report>)
    ensures
        match found {
            Ok(text) => r matches Ok(token) && token@ == trimmed(text@),
            Err(why) => r matches Err(e) && e@ == no_token(path@, why@),
        },
{
    match found {
        Ok(text) => Ok(trim(text.as_str())),
        Err(why) => {
            let mut m = "cannot read enrollment token ".to_owned();
            m.append(path);
            m.append(": ");
            m.append(why.as_str());
            Err(Report::internal(m))
        },
    }
}

/// The options that the arguments come to, where `found` is what was read from the
/// token file, if one is named. A token file goes before a token.
pub fn options(args: DaemonArgs, found: Option<Result<String, String>>) -> (r: Result<
    Options,
    Report,
>)
    requires
        args.enroll_file is Some <==> found is Some,
    ensures
        match found {
            Some(Err(why)) => r matches Err(e) && e@ == no_token(args.enroll_file->0@, why@),
            _ => {
                &&& r matches Ok(o)
                &&& o.host == args.host
                &&& o.peers == args.peers
                &&& o.ports == args.ports
                &&& o.key_path == args.key_path
                &&& o.binds == args.binds
                &&& o.service_configs == args.services
                &&& match found {
                    Some(Ok(text)) => o.enroll matches Some(t) && t@ == trimmed(text@),
                    _ => o.enroll == args.enroll,
                }
            },
        },
{
    let DaemonArgs { host, peers, ports, key_path, enroll_file, enroll, binds, services } = args;
    let enroll = match (enroll_file, found) {
        (Some(path), Some(found)) => match read_token(path.as_str(), found) {
            Ok(token) => Some(token),
            Err(e) => {
                return Err(e);
            },
        },
        _ => enroll,
    };
    Ok(Options { host, peers, ports, key_path, enroll, binds, service_configs: services })
}

/// What a remap in an argument comes to, or what is wrong with it.
pub open spec fn bind_in(arg: Seq<char>) -> Result<(u16, u16), Seq<char>> {
    let colon = first_of(arg, ':');
    if colon >= arg.len() {
        Err("wants REMOTE:LOCAL, got "@ + arg)
    } else {
        let remote = arg.take(colon);
        let local = arg.skip(colon + 1);
        match port_of(remote) {
            None => Err("bad remote port "@ + remote),
            Some(from) => match port_of(local) {
                None => Err("bad local port "@ + local),
                Some(to) => Ok((from, to)),
            },
        }
    }
}

/// Reads a `--bind REMOTE:LOCAL` pair, so a typo is a usage error rather than a
/// failure part-way through daemon startup.
pub fn parse_bind(arg: &str) -> (r: Result<(u16, u16), String>)
    ensures
        match r {
            Ok(pair) => bind_in(arg@) == Ok::<(u16, u16), Seq<char>>(pair),
            Err(e) => bind_in(arg@) == Err::<(u16, u16), Seq<char>>(e@),
        },
{
    let v = chars_of(arg);
    let colon: usize = find_from(&v, ':', 0);
    if colon >= v.len() {
        let mut m = "wants REMOTE:LOCAL, got ".to_owned();
        m.append(arg);
        return Err(m);
    }
    let remote = text_of(&v, 0, colon);
    let local = text_of(&v, colon + 1, v.len());
    proof {
        assert(remote@ =~= arg@.take(colon as int));
        assert(local@ =~= arg@.skip(colon + 1));
    }
    let from: u16 = match read_port(remote.as_str()) {
        Some(p) => p,
        None => {
            let mut m = "bad remote port ".to_owned();
            m.append(remote.as_str());
            return Err(m);
        },
    };
    let to: u16 = match read_port(local.as_str()) {
        Some(p) => p,
        None => {
            let mut m = "bad local port ".to_owned();
            m.append(local.as_str());
            return Err(m);
        },
    };
    Ok((from, to))
}

/// What is logged where nothing else is asked for.
pub fn log_directive(quiet: bool) -> (r: &'static str)
    ensures
        r@ == (if quiet {
            "ig=warn"@
        } else {
            "ig=info"@
        }),
{
    if quiet {
        "ig=warn"
    } else {
        "ig=info"
    }
}

// ---------------------------------------------------------------------------
// Identity
// ---------------------------------------------------------------------------

/// Where the key is, if nothing else is said: `$XDG_STATE_HOME/ig/key`, or else
/// `~/.local/state/ig/key`, or else `./ig/key`.
pub open spec fn default_key(xdg: Option<Seq<char>>, home: Option<Seq<char>>) -> Seq<char> {
    let base = match xdg {
        Some(x) => x,
        None => match home {
            Some(h) => under(under(h, ".local"@), "state"@),
            None => "."@,
        },
    };
    under(under(base, "ig"@), "key"@)
}

/// Where the key is, if nothing else is said, given `XDG_STATE_HOME` and `HOME`.
pub fn default_key_path(xdg: Option<&str>, home: Option<&str>) -> (r: String)
    ensures
        r@ == default_key(opt_str(xdg), opt_str(home)),
{
    let base = match xdg {
        Some(x) => x.to_owned(),
        None => match home {
            Some(h) => join_path(join_path(h, ".local").as_str(), "state"),
            None => ".".to_owned(),
        },
    };
    join_path(join_path(base.as_str(), "ig").as_str(), "key")
}

/// Where the pins that go with a key are kept: beside it.
pub fn pins_path(key_path: &str) -> (r: String)
    ensures
        r@ == key_path@ + ".peers.json"@,
{
    let mut out = key_path.to_owned();
    out.append(".peers.json");
    out
}

/// Accepts what was read from the key file at `path`: a key is 32 raw bytes.
pub fn key_bytes(path: &str, found: &Vec<u8>) -> (r: Result<[u8; 32], Report>)
    ensures
        if found@.len() == 32 {
            r matches Ok(bytes) && bytes@ == found@
        } else {
            r matches Err(e) && e@ == (FailureView {
                kind: ErrorKind::Internal,
                message: "key file "@ + path@ + " is not 32 bytes"@,
            })
        },
{
    if found.len() != 32 {
        let mut m = "key file ".to_owned();
        m.append(path);
        m.append(" is not 32 bytes");
        return Err(Report::internal(m));
    }
    let mut bytes: [u8; 32] = [0u8; 32];
    let mut i: usize = 0;
    while i < 32
        invariant
            i <= 32,
            found@.len() == 32,
            forall|j: int| 0 <= j < i ==> bytes@[j] == found@[j],
        decreases 32 - i,
    {
        bytes[i] = found[i];
        i = i + 1;
    }
    proof {
        assert(bytes@ =~= found@);
    }
    Ok(bytes)
}

// ---------------------------------------------------------------------------
// The control socket
// ---------------------------------------------------------------------------

/// What came of connecting to the control socket.
#[derive(Debug)]
pub enum Probe {
    /// Something answered.
    Answered,
    /// There is no such file.
    NotFound,
    /// Nothing is alive behind it.
    Refused,
    /// It can not be told, and why.
    Failed(String),
}

/// Why the control socket at `path` can not be claimed, if it can not.
pub open spec fn claim_fault(path: Seq<char>, probe: Probe) -> Option<FailureView> {
    match probe {
        Probe::Answered => Some(
            FailureView {
                kind: ErrorKind::Conflict,
                message: "a daemon is already listening on "@ + path
                    + "; stop it first, or pass a different --socket"@,
            },
        ),
        Probe::NotFound | Probe::Refused => None,
        Probe::Failed(why) => Some(
            FailureView {
                kind: ErrorKind::Internal,
                message: "cannot tell whether a daemon holds "@ + path + ": "@ + why@,
            },
        ),
    }
}

/// Decides whether the control socket may be claimed, which unlinks what is there.
///
/// Taking over a path a live daemon is bound to is worse than failing: unlinking
/// it does not stop that process, which keeps its peers and its bound ports and
/// simply becomes unreachable by path. What looked like a restart is then two
/// daemons serving the same ports. Connecting is what separates that from the
/// socket a crash left behind -- a dead one refuses.
pub fn claim_socket(path: &str, probe: Probe) -> (r: Result<(), Report>)
    ensures
        match r {
            Ok(_) => claim_fault(path@, probe) is None,
            Err(e) => claim_fault(path@, probe) == Some(e@),
        },
{
    match probe {
        Probe::Answered => {
            let mut m = "a daemon is already listening on ".to_owned();
            m.append(path);
            m.append("; stop it first, or pass a different --socket");
            Err(Report::failure(ErrorKind::Conflict, m))
        },
        Probe::NotFound => Ok(()),
        Probe::Refused => Ok(()),
        Probe::Failed(why) => {
            let mut m = "cannot tell whether a daemon holds ".to_owned();
            m.append(path);
            m.append(": ");
            m.append(why.as_str());
            Err(Report::internal(m))
        },
    }
}

/// Two daemons never share a control socket: one that is alive is never taken over.
pub proof fn a_live_socket_is_never_taken_over(path: Seq<char>)
    ensures
        claim_fault(path, Probe::Answered) matches Some(f) && f.kind == ErrorKind::Conflict,
{
}

/// A remap reads back: two ports with a colon between are that pair, and a text is
/// refused where it has no colon, or where what stands before or after the first one is
/// no port.
pub proof fn a_remap_reads_back(remote: u16, local: u16, before: Seq<char>, after: Seq<char>)
    requires
        !before.contains(':'),
    ensures
        bind_in(decimal(remote as nat) + seq![':'] + decimal(local as nat)) == Ok::<
            (u16, u16),
            Seq<char>,
        >((remote, local)),
        bind_in(before) is Err,
        bind_in(before + seq![':'] + after) is Ok <==> port_of(before) is Some && port_of(
            after,
        ) is Some,
        bind_in(before + seq![':'] + after) matches Ok(pair) ==> port_of(before) == Some(pair.0)
            && port_of(after) == Some(pair.1),
{
    let a = decimal(remote as nat);
    let b = decimal(local as nat);
    numbers_read_back(remote as nat);
    ports_read_back(remote as nat, Seq::empty());
    ports_read_back(local as nat, Seq::empty());
    if a.contains(':') {
        let i = choose|i: int| 0 <= i < a.len() && a[i] == ':';
        assert(is_digit(a[i]));
    }
    lemma_first_colon(a, b);
    lemma_first_colon(before, after);
    the_first_is_found(before, ':', 0);
    let n = first_of(before, ':');
    if n < before.len() {
        assert(before.contains(before[n]));
    }
}

proof fn lemma_first_colon(before: Seq<char>, after: Seq<char>)
    requires
        !before.contains(':'),
    ensures
        ({
            let s = before + seq![':'] + after;
            &&& first_of(s, ':') == before.len()
            &&& s.take(before.len() as int) == before
            &&& s.skip(before.len() as int + 1) == after
        }),
{
    let s = before + seq![':'] + after;
    the_first_is_found(s, ':', 0);
    let n = first_of(s, ':');
    assert(s[before.len() as int] == ':');
    if n < before.len() {
        assert(s[n] == before[n]);
        assert(before.contains(before[n]));
    }
    assert(s.take(before.len() as int) =~= before);
    assert(s.skip(before.len() as int + 1) =~= after);
}

/// The key is kept in the directory that the environment names for state, or else in
/// the one that goes with the home directory, or else here; the first that is set
/// counts.
pub proof fn the_first_directory_that_is_set_counts(
    xdg: Seq<char>,
    home: Option<Seq<char>>,
    at: Seq<char>,
)
    ensures
        default_key(Some(xdg), home) == default_key(Some(xdg), None),
        default_key(Some(xdg), home) == under(under(xdg, "ig"@), "key"@),
        default_key(None, Some(at)) == default_key(Some(under(under(at, ".local"@), "state"@)), None),
        default_key(None, None) == default_key(Some("."@), None),
{
}

/// A control socket is claimed exactly where no one answers on it.
pub proof fn a_socket_is_claimed_where_no_one_answers(path: Seq<char>, probe: Probe)
    ensures
        claim_fault(path, probe) is None <==> probe is NotFound || probe is Refused,
        probe is Answered ==> claim_fault(path, probe)->0.kind == ErrorKind::Conflict,
        probe is Failed ==> claim_fault(path, probe)->0.kind == ErrorKind::Internal,
{
}

}
