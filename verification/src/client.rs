//! The command line: what it asks the daemon, and how it shows the reply.
//!
//! Two rules shape everything here:
//!
//! - **stdout carries results, stderr carries everything else.** `ig ... >/dev/null`
//!   must isolate the data, so status lines never go to stdout. A command whose
//!   result is an action rather than a value writes nothing to stdout in text
//!   mode.
//! - **The exit code says what happened.** The daemon classifies each failure
//!   once, and every caller maps it the same way, so nobody has to grep the
//!   message to decide whether to retry.

use crate::json::{
    a_field_is_found_by_its_name, an_object_holds_its_fields_only, field, fields_of, json_array,
    json_bool, json_number, json_object, json_of, json_opt, json_text, jsons, no_fields, object,
    pretty, pretty_text, text_or_null, Json,
};
use crate::protocol::{
    binding_rows, exposed_rows, grant_rows, peer_rows, refusal, BindingInfo, BindingInfoView,
    ErrorKind, ExposedInfo, ExposedInfoView, FailureView, GrantInfo, GrantInfoView, ListInfo,
    ListInfoView, PeerInfo, PeerInfoView, Report, Request, RequestView, Response, ResponseView,
};
use crate::service::{
    load_routes, route_rows, table_fault, BackendSpec, BackendView, Document, Route, RouteView,
};
use crate::text::{
    concat, decimal, decimal_text, every_part_is_there, holds, join, joined,
    joining_splits_anywhere, one_part_is_joined_as_it_is, opt_text, padded, push_decimal,
    push_padded, texts, what_is_held_stays_held,
};
use vstd::prelude::*;

verus! {

/// How results are written to stdout.
#[derive(Debug, Clone, Copy, PartialEq, Eq, Structural)]
pub enum Format {
    /// For a human: bare values and small tables.
    Text,
    /// For a program: a stable object per command.
    Json,
}

/// A command that goes to the daemon.
#[derive(Debug)]
#[allow(inconsistent_fields)]
pub enum Command {
    /// Print this daemon's endpoint id, which is what peers dial.
    Id,
    /// Show peers, exposed ports, and local bindings.
    Status,
    /// Peers: who may talk to this daemon.
    Peer { cmd: PeerCmd },
    /// Ports: what this daemon serves, and where a peer's ports land locally.
    Port { cmd: PortCmd },
}

/// What can be done to a peer.
#[derive(Debug)]
#[allow(inconsistent_fields)]
pub enum PeerCmd {
    /// Connect to a peer and start exchanging port announcements.
    Add { ticket: String, dry_run: bool },
    /// Disconnect from a peer and drop its pin.
    Rm { ticket: String, dry_run: bool },
    /// List known peers and the ports they expose to us.
    Ls,
    /// Authorize a peer by key, with no token.
    Pin { key: String, label: String, dry_run: bool },
    /// Mint a one-time enrollment token, valid 5 minutes.
    Token { label: String },
}

/// What can be done to a port.
#[derive(Debug)]
#[allow(inconsistent_fields)]
pub enum PortCmd {
    /// Grant a port to peers, and optionally declare what serves it.
    Expose {
        port: u16,
        /// Peer key(s) to grant to; defaults to every known peer.
        to: Vec<String>,
        /// Serve it by forwarding to any host:port this machine can reach.
        upstream: Option<String>,
        /// Serve it by forwarding to a Unix socket on this machine.
        unix: Option<String>,
        /// Serve it by reverse-proxying, using the `[[route]]` table in this file.
        routes: Option<String>,
        dry_run: bool,
    },
    /// Revoke grants for a port. Revoking the last one retires its service.
    Unexpose { port: u16, to: Option<String>, dry_run: bool },
    /// List the ports this daemon exposes and what serves each.
    Ls,
    /// Bind a peer's port to a different local port.
    Bind { port: u16, local: Option<u16>, clear: bool, dry_run: bool },
}

/// Which slice of the picture a listing command wants. The daemon always returns
/// the whole; picking a view here lets one request type serve `status`,
/// `peer ls`, and `port ls`.
#[derive(Debug, Clone, Copy, PartialEq, Eq, Structural)]
pub enum ListView {
    All,
    Peers,
    Ports,
    Nothing,
}

/// The view that a request asks for.
pub open spec fn view_of(request: RequestView) -> ListView {
    match request {
        RequestView::List => ListView::All,
        RequestView::ListPeers => ListView::Peers,
        RequestView::ListPorts => ListView::Ports,
        _ => ListView::Nothing,
    }
}

impl ListView {
    /// The view that a request asks for.
    pub fn of(request: &Request) -> (r: Self)
        ensures
            r == view_of(request@),
    {
        match request {
            Request::List => ListView::All,
            Request::ListPeers => ListView::Peers,
            Request::ListPorts => ListView::Ports,
            _ => ListView::Nothing,
        }
    }
}

// ---------------------------------------------------------------------------
// Asking
// ---------------------------------------------------------------------------

/// The route table that has to be read before a command can be asked, if any.
pub open spec fn table_of(command: Command) -> Option<Seq<char>> {
    match command {
        Command::Port {
            cmd: PortCmd::Expose { upstream: None, unix: None, routes: Some(file), .. },
        } => Some(file@),
        _ => None,
    }
}

/// The route table that has to be read before a command can be asked, if any.
pub fn wanted_table(command: &Command) -> (r: Option<&str>)
    ensures
        match r {
            Some(file) => table_of(*command) == Some(file@),
            None => table_of(*command) is None,
        },
{
    match command {
        Command::Port { cmd } => match cmd {
            PortCmd::Expose { upstream, unix, routes, .. } => match (upstream, unix, routes) {
                (None, None, Some(file)) => Some(file.as_str()),
                _ => None,
            },
            _ => None,
        },
        _ => None,
    }
}

/// What an expose declares: the one thing that is named, or nothing. `table` is
/// what the named route table holds.
pub open spec fn declared(
    upstream: Option<Seq<char>>,
    unix: Option<Seq<char>>,
    names_table: bool,
    table: Seq<RouteView>,
) -> Option<BackendView> {
    match (upstream, unix, names_table) {
        (Some(upstream), None, false) => Some(BackendView::Tcp { upstream }),
        (None, Some(path), false) => Some(BackendView::Unix { path }),
        (None, None, true) => Some(BackendView::Http { routes: table }),
        _ => None,
    }
}

/// What a command asks of the daemon, where `table` is the route table that it
/// names.
pub open spec fn asked(command: Command, table: Seq<RouteView>) -> RequestView {
    match command {
        Command::Id => RequestView::Ticket,
        Command::Status => RequestView::List,
        Command::Peer { cmd } => match cmd {
            PeerCmd::Add { ticket, dry_run } => RequestView::AddPeer { ticket: ticket@, dry_run },
            PeerCmd::Rm { ticket, dry_run } => RequestView::RemovePeer {
                ticket: ticket@,
                dry_run,
            },
            PeerCmd::Ls => RequestView::ListPeers,
            PeerCmd::Pin { key, label, dry_run } => RequestView::Pin {
                key: key@,
                label: label@,
                dry_run,
            },
            PeerCmd::Token { label } => RequestView::GrantToken { label: label@ },
        },
        Command::Port { cmd } => match cmd {
            PortCmd::Expose { port, to, upstream, unix, routes, dry_run } => RequestView::Expose {
                port,
                to: texts(to@),
                backend: declared(opt_text(upstream), opt_text(unix), routes is Some, table),
                dry_run,
            },
            PortCmd::Unexpose { port, to, dry_run } => RequestView::Unexpose {
                port,
                to: opt_text(to),
                dry_run,
            },
            PortCmd::Ls => RequestView::ListPorts,
            PortCmd::Bind { port, local, clear, dry_run } => RequestView::Bind {
                port,
                local: if clear {
                    None
                } else {
                    local
                },
                dry_run,
            },
        },
    }
}

/// Says what a command asks of the daemon. `table` is what reading the route table
/// that it names came to. A bad table is reported here, against the file the user
/// just pointed at, rather than swallowed by the daemon.
pub fn build_request(command: Command, table: Option<Document<Vec<Route>>>) -> (r: Result<
    Request,
    Report,
>)
    requires
        table_of(command) is Some <==> table is Some,
    ensures
        match table {
            None => r matches Ok(request) && request@ == asked(command, Seq::empty()),
            Some(document) => match table_fault(table_of(command)->0, document) {
                Some(f) => r matches Err(e) && e@ == f,
                None => r matches Ok(request) && request@ == asked(
                    command,
                    route_rows(document->Parsed_0@),
                ),
            },
        },
{
    match command {
        Command::Id => Ok(Request::Ticket),
        Command::Status => Ok(Request::List),
        Command::Peer { cmd } => Ok(
            match cmd {
                PeerCmd::Add { ticket, dry_run } => Request::AddPeer { ticket, dry_run },
                PeerCmd::Rm { ticket, dry_run } => Request::RemovePeer { ticket, dry_run },
                PeerCmd::Ls => Request::ListPeers,
                PeerCmd::Pin { key, label, dry_run } => Request::Pin { key, label, dry_run },
                PeerCmd::Token { label } => Request::GrantToken { label },
            },
        ),
        Command::Port { cmd } => match cmd {
            PortCmd::Expose { port, to, upstream, unix, routes, dry_run } => {
                let backend = match (upstream, unix, routes) {
                    (Some(upstream), None, None) => Some(BackendSpec::Tcp { upstream }),
                    (None, Some(path), None) => Some(BackendSpec::Unix { path }),
                    (None, None, Some(file)) => {
                        match load_routes(file.as_str(), table.unwrap()) {
                            Ok(routes) => Some(BackendSpec::Http { routes }),
                            Err(e) => {
                                return Err(e);
                            },
                        }
                    },
                    _ => None,
                };
                Ok(Request::Expose { port, to, backend, dry_run })
            },
            PortCmd::Unexpose { port, to, dry_run } => Ok(Request::Unexpose { port, to, dry_run }),
            PortCmd::Ls => Ok(Request::ListPorts),
            PortCmd::Bind { port, local, clear, dry_run } => Ok(
                Request::Bind {
                    port,
                    local: if clear {
                        None
                    } else {
                        local
                    },
                    dry_run,
                },
            ),
        },
    }
}

/// The failure to reach a daemon, and why. A missing socket is an environment
/// problem, not a bad request: its own exit code lets a caller tell "start the
/// daemon" from "fix your arguments".
pub fn unreachable_daemon(socket: &str, why: &str) -> (r: Report)
    ensures
        r@ == (FailureView {
            kind: ErrorKind::Unavailable,
            message: "cannot reach the daemon at "@ + socket@ + " ("@ + why@
                + "); start it with `ig daemon`"@,
        }),
{
    let mut m = "cannot reach the daemon at ".to_owned();
    m.append(socket);
    m.append(" (");
    m.append(why);
    m.append("); start it with `ig daemon`");
    Report::failure(ErrorKind::Unavailable, m)
}

/// Accepts the line that the daemon replied with, which is not an empty one.
pub fn accept_reply(line: String) -> (r: Result<String, Report>)
    ensures
        if line@.len() == 0 {
            r matches Err(e) && e@ == (FailureView {
                kind: ErrorKind::Internal,
                message: "daemon closed the connection without replying"@,
            })
        } else {
            r matches Ok(l) && l@ == line@
        },
{
    if line.as_str().is_empty() {
        return Err(
            Report::internal("daemon closed the connection without replying".to_owned()),
        );
    }
    Ok(line)
}

// ---------------------------------------------------------------------------
// Showing: JSON
// ---------------------------------------------------------------------------

/// A row of `peers`.
pub open spec fn peer_json(p: PeerInfoView) -> Json {
    Json::Object(
        object(
            seq![
                ("key"@, Json::Text(p.key)),
                ("label"@, text_or_null(p.label)),
                ("online"@, Json::Bool(p.online)),
                (
                    "they_expose"@,
                    Json::Array(p.they_expose.map_values(|n: u16| Json::Number(n as u64))),
                ),
            ],
        ),
    )
}

/// A row of `exposed`.
pub open spec fn exposed_json(e: ExposedInfoView) -> Json {
    Json::Object(
        object(
            seq![("port"@, Json::Number(e.port as u64)), ("backend"@, Json::Text(e.backend))],
        ),
    )
}

/// A row of `grants`.
pub open spec fn grant_json(g: GrantInfoView) -> Json {
    Json::Object(
        object(seq![("port"@, Json::Number(g.port as u64)), ("to"@, Json::Text(g.to))]),
    )
}

/// A row of `bindings`.
pub open spec fn binding_json(b: BindingInfoView) -> Json {
    Json::Object(
        object(
            seq![
                ("port"@, Json::Number(b.port as u64)),
                ("local"@, Json::Number(b.local as u64)),
                ("peer"@, Json::Text(b.peer)),
            ],
        ),
    )
}

/// The rows of `peers`.
pub open spec fn peers_json(rows: Seq<PeerInfoView>) -> Json {
    Json::Array(rows.map_values(|p: PeerInfoView| peer_json(p)))
}

/// The rows of `exposed`.
pub open spec fn exposeds_json(rows: Seq<ExposedInfoView>) -> Json {
    Json::Array(rows.map_values(|e: ExposedInfoView| exposed_json(e)))
}

/// The rows of `grants`.
pub open spec fn grants_json(rows: Seq<GrantInfoView>) -> Json {
    Json::Array(rows.map_values(|g: GrantInfoView| grant_json(g)))
}

/// The rows of `bindings`.
pub open spec fn bindings_json(rows: Seq<BindingInfoView>) -> Json {
    Json::Array(rows.map_values(|b: BindingInfoView| binding_json(b)))
}

/// The picture, as an object.
pub open spec fn picture_json(info: ListInfoView, view: ListView) -> Json {
    Json::Object(
        object(
            match view {
                ListView::Peers => seq![("peers"@, peers_json(info.peers))],
                ListView::Ports => seq![
                    ("exposed"@, exposeds_json(info.i_expose)),
                    ("grants"@, grants_json(info.grants)),
                ],
                _ => seq![
                    ("id"@, Json::Text(info.me)),
                    ("peers"@, peers_json(info.peers)),
                    ("exposed"@, exposeds_json(info.i_expose)),
                    ("grants"@, grants_json(info.grants)),
                    ("bindings"@, bindings_json(info.bindings)),
                ],
            },
        ),
    )
}

fn peers_value(peers: &Vec<PeerInfo>) -> (r: serde_json::Value)
    ensures
        json_of(r) == peers_json(peer_rows(peers@)),
{
    let mut rows: Vec<serde_json::Value> = Vec::new();
    let mut i: usize = 0;
    while i < peers.len()
        invariant
            i <= peers@.len(),
            rows@.len() == i,
            forall|j: int| 0 <= j < i ==> json_of(#[trigger] rows@[j]) == peer_json(peers@[j]@),
        decreases peers@.len() - i,
    {
        let p = &peers[i];
        let mut ports: Vec<serde_json::Value> = Vec::new();
        let mut k: usize = 0;
        while k < p.they_expose.len()
            invariant
                k <= p.they_expose@.len(),
                ports@.len() == k,
                forall|j: int|
                    0 <= j < k ==> json_of(#[trigger] ports@[j]) == Json::Number(
                        p.they_expose@[j] as u64,
                    ),
            decreases p.they_expose@.len() - k,
        {
            ports.push(json_number(p.they_expose[k] as u64));
            k = k + 1;
        }
        proof {
            assert(jsons(ports@) =~= p@.they_expose.map_values(|n: u16| Json::Number(n as u64)));
        }
        let mut fields = no_fields();
        field(&mut fields, "key", json_text(p.key.as_str()));
        field(&mut fields, "label", json_opt(&p.label));
        field(&mut fields, "online", json_bool(p.online));
        field(&mut fields, "they_expose", json_array(ports));
        proof {
            assert(fields_of(fields@) =~= seq![
                ("key"@, Json::Text(p@.key)),
                ("label"@, text_or_null(p@.label)),
                ("online"@, Json::Bool(p@.online)),
                (
                    "they_expose"@,
                    Json::Array(p@.they_expose.map_values(|n: u16| Json::Number(n as u64))),
                ),
            ]);
        }
        rows.push(json_object(fields));
        i = i + 1;
    }
    proof {
        assert(jsons(rows@) =~= peer_rows(peers@).map_values(|p: PeerInfoView| peer_json(p)));
    }
    json_array(rows)
}

fn exposeds_value(exposed: &Vec<ExposedInfo>) -> (r: serde_json::Value)
    ensures
        json_of(r) == exposeds_json(exposed_rows(exposed@)),
{
    let mut rows: Vec<serde_json::Value> = Vec::new();
    let mut i: usize = 0;
    while i < exposed.len()
        invariant
            i <= exposed@.len(),
            rows@.len() == i,
            forall|j: int|
                0 <= j < i ==> json_of(#[trigger] rows@[j]) == exposed_json(exposed@[j]@),
        decreases exposed@.len() - i,
    {
        let e = &exposed[i];
        let mut fields = no_fields();
        field(&mut fields, "port", json_number(e.port as u64));
        field(&mut fields, "backend", json_text(e.backend.as_str()));
        proof {
            assert(fields_of(fields@) =~= seq![
                ("port"@, Json::Number(e.port as u64)),
                ("backend"@, Json::Text(e@.backend)),
            ]);
        }
        rows.push(json_object(fields));
        i = i + 1;
    }
    proof {
        assert(jsons(rows@) =~= exposed_rows(exposed@).map_values(
            |e: ExposedInfoView| exposed_json(e),
        ));
    }
    json_array(rows)
}

fn grants_value(grants: &Vec<GrantInfo>) -> (r: serde_json::Value)
    ensures
        json_of(r) == grants_json(grant_rows(grants@)),
{
    let mut rows: Vec<serde_json::Value> = Vec::new();
    let mut i: usize = 0;
    while i < grants.len()
        invariant
            i <= grants@.len(),
            rows@.len() == i,
            forall|j: int| 0 <= j < i ==> json_of(#[trigger] rows@[j]) == grant_json(grants@[j]@),
        decreases grants@.len() - i,
    {
        let g = &grants[i];
        let mut fields = no_fields();
        field(&mut fields, "port", json_number(g.port as u64));
        field(&mut fields, "to", json_text(g.to.as_str()));
        proof {
            assert(fields_of(fields@) =~= seq![
                ("port"@, Json::Number(g.port as u64)),
                ("to"@, Json::Text(g@.to)),
            ]);
        }
        rows.push(json_object(fields));
        i = i + 1;
    }
    proof {
        assert(jsons(rows@) =~= grant_rows(grants@).map_values(|g: GrantInfoView| grant_json(g)));
    }
    json_array(rows)
}

fn bindings_value(bindings: &Vec<BindingInfo>) -> (r: serde_json::Value)
    ensures
        json_of(r) == bindings_json(binding_rows(bindings@)),
{
    let mut rows: Vec<serde_json::Value> = Vec::new();
    let mut i: usize = 0;
    while i < bindings.len()
        invariant
            i <= bindings@.len(),
            rows@.len() == i,
            forall|j: int|
                0 <= j < i ==> json_of(#[trigger] rows@[j]) == binding_json(bindings@[j]@),
        decreases bindings@.len() - i,
    {
        let b = &bindings[i];
        let mut fields = no_fields();
        field(&mut fields, "port", json_number(b.port as u64));
        field(&mut fields, "local", json_number(b.local as u64));
        field(&mut fields, "peer", json_text(b.peer.as_str()));
        proof {
            assert(fields_of(fields@) =~= seq![
                ("port"@, Json::Number(b.port as u64)),
                ("local"@, Json::Number(b.local as u64)),
                ("peer"@, Json::Text(b@.peer)),
            ]);
        }
        rows.push(json_object(fields));
        i = i + 1;
    }
    proof {
        assert(jsons(rows@) =~= binding_rows(bindings@).map_values(
            |b: BindingInfoView| binding_json(b),
        ));
    }
    json_array(rows)
}

/// The picture, as an object.
pub fn json_view(info: &ListInfo, view: ListView) -> (r: serde_json::Value)
    ensures
        json_of(r) == picture_json(info@, view),
{
    let mut fields = no_fields();
    match view {
        ListView::Peers => {
            field(&mut fields, "peers", peers_value(&info.peers));
            proof {
                assert(fields_of(fields@) =~= seq![("peers"@, peers_json(info@.peers))]);
            }
        },
        ListView::Ports => {
            field(&mut fields, "exposed", exposeds_value(&info.i_expose));
            field(&mut fields, "grants", grants_value(&info.grants));
            proof {
                assert(fields_of(fields@) =~= seq![
                    ("exposed"@, exposeds_json(info@.i_expose)),
                    ("grants"@, grants_json(info@.grants)),
                ]);
            }
        },
        _ => {
            field(&mut fields, "id", json_text(info.me.as_str()));
            field(&mut fields, "peers", peers_value(&info.peers));
            field(&mut fields, "exposed", exposeds_value(&info.i_expose));
            field(&mut fields, "grants", grants_value(&info.grants));
            field(&mut fields, "bindings", bindings_value(&info.bindings));
            proof {
                assert(fields_of(fields@) =~= seq![
                    ("id"@, Json::Text(info@.me)),
                    ("peers"@, peers_json(info@.peers)),
                    ("exposed"@, exposeds_json(info@.i_expose)),
                    ("grants"@, grants_json(info@.grants)),
                    ("bindings"@, bindings_json(info@.bindings)),
                ]);
            }
        },
    }
    json_object(fields)
}

// ---------------------------------------------------------------------------
// Showing: text
// ---------------------------------------------------------------------------

/// Endpoint ids are 64 hex characters; a prefix is enough to tell peers apart in
/// a table, and the full value is always available from `--format json`.
pub open spec fn shortened(key: Seq<char>) -> Seq<char> {
    if key.len() > 12 {
        key.take(12)
    } else {
        key
    }
}

/// The prefix of a key that a table shows.
pub fn short(key: &str) -> (r: String)
    ensures
        r@ == shortened(key@),
{
    if key.unicode_len() > 12 {
        let head = key.substring_char(0, 12).to_owned();
        proof {
            assert(head@ =~= key@.take(12));
        }
        head
    } else {
        key.to_owned()
    }
}

/// A section of a table: its title, and its rows or a note that there are none.
pub open spec fn section(title: Seq<char>, rows: Seq<Seq<char>>) -> Seq<char> {
    "\n"@ + title + "\n"@ + (if rows.len() == 0 {
        "  (none)\n"@
    } else {
        concat(rows)
    })
}

/// The ports that a peer exposes.
pub open spec fn ports_text(ports: Seq<u16>) -> Seq<char> {
    if ports.len() == 0 {
        "-"@
    } else {
        joined(ports.map_values(|p: u16| decimal(p as nat)), ","@)
    }
}

/// A row of the peers.
pub open spec fn peer_line(p: PeerInfoView) -> Seq<char> {
    let label = match p.label {
        Some(label) => label,
        None => "-"@,
    };
    let state = if p.online {
        "online"@
    } else {
        "offline"@
    };
    "  "@ + shortened(p.key) + "  "@ + padded(label, 10) + "  "@ + padded(state, 7)
        + "  exposes "@ + ports_text(p.they_expose) + "\n"@
}

/// The peers that a port is granted to.
pub open spec fn holders(grants: Seq<GrantInfoView>, port: u16) -> Seq<Seq<char>>
    decreases grants.len(),
{
    if grants.len() == 0 {
        Seq::empty()
    } else if grants.last().port == port {
        holders(grants.drop_last(), port).push(shortened(grants.last().to))
    } else {
        holders(grants.drop_last(), port)
    }
}

/// A row of the exposed ports.
pub open spec fn exposed_line(e: ExposedInfoView, grants: Seq<GrantInfoView>) -> Seq<char> {
    let to = holders(grants, e.port);
    "  "@ + padded(decimal(e.port as nat), 6) + "  "@ + padded(e.backend, 30) + "  to "@ + (
    if to.len() == 0 {
        "(nobody)"@
    } else {
        joined(to, ","@)
    }) + "\n"@
}

/// Where a peer's port landed.
pub open spec fn landed(b: BindingInfoView) -> Seq<char> {
    if b.local == b.port {
        "127.0.0.1:"@ + decimal(b.local as nat)
    } else {
        "127.0.0.1:"@ + decimal(b.local as nat) + " (remapped from "@ + decimal(b.port as nat)
            + ")"@
    }
}

/// A row of the bindings.
pub open spec fn binding_line(b: BindingInfoView) -> Seq<char> {
    "  "@ + padded(landed(b), 38) + "  from "@ + shortened(b.peer) + "\n"@
}

/// The section of the peers.
pub open spec fn peers_text(info: ListInfoView) -> Seq<char> {
    section("peers"@, info.peers.map_values(|p: PeerInfoView| peer_line(p)))
}

/// The section of the exposed ports.
pub open spec fn exposed_text(info: ListInfoView) -> Seq<char> {
    section(
        "exposed"@,
        info.i_expose.map_values(|e: ExposedInfoView| exposed_line(e, info.grants)),
    )
}

/// The section of the bindings.
pub open spec fn bindings_text(info: ListInfoView) -> Seq<char> {
    section("bindings"@, info.bindings.map_values(|b: BindingInfoView| binding_line(b)))
}

/// The picture, as tables.
pub open spec fn picture_text(info: ListInfoView, view: ListView) -> Seq<char> {
    match view {
        ListView::All => "id  "@ + info.me + "\n"@ + peers_text(info) + exposed_text(info)
            + bindings_text(info),
        ListView::Peers => peers_text(info),
        ListView::Ports => exposed_text(info),
        ListView::Nothing => Seq::empty(),
    }
}

fn push_section(out: &mut String, title: &str, rows: &Vec<String>)
    ensures
        final(out)@ == old(out)@ + section(title@, texts(rows@)),
{
    out.append("\n");
    out.append(title);
    out.append("\n");
    let ghost head = out@;
    if rows.len() == 0 {
        out.append("  (none)\n");
        proof {
            assert(out@ =~= old(out)@ + section(title@, texts(rows@)));
        }
        return;
    }
    let ghost all = texts(rows@);
    let mut i: usize = 0;
    while i < rows.len()
        invariant
            i <= rows@.len(),
            all == texts(rows@),
            out@ =~= head + concat(all.take(i as int)),
        decreases rows@.len() - i,
    {
        proof {
            assert(all.take(i + 1).drop_last() =~= all.take(i as int));
        }
        out.append(rows[i].as_str());
        i = i + 1;
    }
    proof {
        assert(all.take(rows@.len() as int) =~= all);
        assert(out@ =~= old(out)@ + section(title@, all));
    }
}

fn ports_line(ports: &Vec<u16>) -> (r: String)
    ensures
        r@ == ports_text(ports@),
{
    if ports.len() == 0 {
        return "-".to_owned();
    }
    let mut parts: Vec<String> = Vec::new();
    let mut i: usize = 0;
    while i < ports.len()
        invariant
            i <= ports@.len(),
            parts@.len() == i,
            forall|j: int| 0 <= j < i ==> (#[trigger] parts@[j])@ == decimal(ports@[j] as nat),
        decreases ports@.len() - i,
    {
        parts.push(decimal_text(ports[i] as u64));
        i = i + 1;
    }
    proof {
        assert(texts(parts@) =~= ports@.map_values(|p: u16| decimal(p as nat)));
    }
    join(&parts, ",")
}

fn push_peers(out: &mut String, info: &ListInfo)
    ensures
        final(out)@ == old(out)@ + peers_text(info@),
{
    let mut rows: Vec<String> = Vec::new();
    let mut i: usize = 0;
    while i < info.peers.len()
        invariant
            i <= info.peers@.len(),
            rows@.len() == i,
            forall|j: int| 0 <= j < i ==> (#[trigger] rows@[j])@ == peer_line(info.peers@[j]@),
        decreases info.peers@.len() - i,
    {
        let p = &info.peers[i];
        let mut line = "  ".to_owned();
        line.append(short(p.key.as_str()).as_str());
        line.append("  ");
        match &p.label {
            Some(label) => push_padded(&mut line, label.as_str(), 10),
            None => push_padded(&mut line, "-", 10),
        }
        line.append("  ");
        push_padded(
            &mut line,
            if p.online {
                "online"
            } else {
                "offline"
            },
            7,
        );
        line.append("  exposes ");
        line.append(ports_line(&p.they_expose).as_str());
        line.append("\n");
        proof {
            assert(line@ =~= peer_line(p@));
        }
        rows.push(line);
        i = i + 1;
    }
    proof {
        assert(texts(rows@) =~= info@.peers.map_values(|p: PeerInfoView| peer_line(p)));
    }
    push_section(out, "peers", &rows);
}

fn holders_of(grants: &Vec<GrantInfo>, port: u16) -> (r: Vec<String>)
    ensures
        texts(r@) == holders(grant_rows(grants@), port),
{
    let ghost all = grant_rows(grants@);
    let mut r: Vec<String> = Vec::new();
    let mut i: usize = 0;
    proof {
        assert(texts(r@) =~= Seq::empty());
    }
    while i < grants.len()
        invariant
            i <= grants@.len(),
            all == grant_rows(grants@),
            texts(r@) == holders(all.take(i as int), port),
        decreases grants@.len() - i,
    {
        proof {
            assert(all.take(i + 1).drop_last() =~= all.take(i as int));
            assert(all.take(i + 1).last() == grants@[i as int]@);
        }
        if grants[i].port == port {
            let ghost before = r@;
            r.push(short(grants[i].to.as_str()));
            proof {
                assert(texts(r@) =~= texts(before).push(shortened(grants@[i as int].to@)));
            }
        }
        i = i + 1;
    }
    proof {
        assert(all.take(grants@.len() as int) =~= all);
    }
    r
}

fn push_exposed(out: &mut String, info: &ListInfo)
    ensures
        final(out)@ == old(out)@ + exposed_text(info@),
{
    let mut rows: Vec<String> = Vec::new();
    let mut i: usize = 0;
    while i < info.i_expose.len()
        invariant
            i <= info.i_expose@.len(),
            rows@.len() == i,
            forall|j: int|
                0 <= j < i ==> (#[trigger] rows@[j])@ == exposed_line(
                    info.i_expose@[j]@,
                    info@.grants,
                ),
        decreases info.i_expose@.len() - i,
    {
        let e = &info.i_expose[i];
        let to = holders_of(&info.grants, e.port);
        let mut line = "  ".to_owned();
        push_padded(&mut line, decimal_text(e.port as u64).as_str(), 6);
        line.append("  ");
        push_padded(&mut line, e.backend.as_str(), 30);
        line.append("  to ");
        if to.len() == 0 {
            line.append("(nobody)");
        } else {
            line.append(join(&to, ",").as_str());
        }
        line.append("\n");
        proof {
            assert(texts(to@).len() == to@.len());
            assert(line@ =~= exposed_line(e@, info@.grants));
        }
        rows.push(line);
        i = i + 1;
    }
    proof {
        assert(texts(rows@) =~= info@.i_expose.map_values(
            |e: ExposedInfoView| exposed_line(e, info@.grants),
        ));
    }
    push_section(out, "exposed", &rows);
}

fn push_bindings(out: &mut String, info: &ListInfo)
    ensures
        final(out)@ == old(out)@ + bindings_text(info@),
{
    let mut rows: Vec<String> = Vec::new();
    let mut i: usize = 0;
    while i < info.bindings.len()
        invariant
            i <= info.bindings@.len(),
            rows@.len() == i,
            forall|j: int|
                0 <= j < i ==> (#[trigger] rows@[j])@ == binding_line(info.bindings@[j]@),
        decreases info.bindings@.len() - i,
    {
        let b = &info.bindings[i];
        let mut place = "127.0.0.1:".to_owned();
        push_decimal(&mut place, b.local as u64);
        if b.local != b.port {
            place.append(" (remapped from ");
            push_decimal(&mut place, b.port as u64);
            place.append(")");
        }
        let mut line = "  ".to_owned();
        push_padded(&mut line, place.as_str(), 38);
        line.append("  from ");
        line.append(short(b.peer.as_str()).as_str());
        line.append("\n");
        proof {
            assert(line@ =~= binding_line(b@));
        }
        rows.push(line);
        i = i + 1;
    }
    proof {
        assert(texts(rows@) =~= info@.bindings.map_values(|b: BindingInfoView| binding_line(b)));
    }
    push_section(out, "bindings", &rows);
}

/// The picture, as tables.
pub fn text_view(info: &ListInfo, view: ListView) -> (r: String)
    ensures
        r@ == picture_text(info@, view),
{
    let mut out = String::new();
    match view {
        ListView::All => {
            out.append("id  ");
            out.append(info.me.as_str());
            out.append("\n");
            push_peers(&mut out, info);
            push_exposed(&mut out, info);
            push_bindings(&mut out, info);
        },
        ListView::Peers => {
            push_peers(&mut out, info);
        },
        ListView::Ports => {
            push_exposed(&mut out, info);
        },
        ListView::Nothing => {},
    }
    proof {
        assert(out@ =~= picture_text(info@, view));
    }
    out
}

// ---------------------------------------------------------------------------
// Replies
// ---------------------------------------------------------------------------

/// What a command leaves behind.
#[derive(Debug)]
pub struct Output {
    pub stdout: String,
    pub stderr: String,
    pub code: i32,
}

/// What an [`Output`] holds.
#[verifier::ext_equal]
pub struct OutputView {
    pub stdout: Seq<char>,
    pub stderr: Seq<char>,
    pub code: i32,
}

impl View for Output {
    type V = OutputView;

    open spec fn view(&self) -> OutputView {
        OutputView { stdout: self.stdout@, stderr: self.stderr@, code: self.code }
    }
}

/// A text on a line of its own.
pub open spec fn line(text: Seq<char>) -> Seq<char> {
    text + "\n"@
}

/// A JSON value on lines of its own.
pub open spec fn json_lines(json: Json) -> Seq<char> {
    line(pretty_text(json))
}

/// The object that reports a failure.
pub open spec fn failure_json(kind: ErrorKind, message: Seq<char>) -> Json {
    Json::Object(
        object(
            seq![
                ("ok"@, Json::Bool(false)),
                (
                    "error"@,
                    Json::Object(
                        object(
                            seq![
                                ("kind"@, Json::Text(kind.word())),
                                ("message"@, Json::Text(message)),
                            ],
                        ),
                    ),
                ),
            ],
        ),
    )
}

/// The object that reports an action.
pub open spec fn done_json(dry_run: bool, detail: Seq<char>) -> Json {
    Json::Object(
        object(
            seq![
                ("ok"@, Json::Bool(true)),
                ("dry_run"@, Json::Bool(dry_run)),
                ("detail"@, Json::Text(detail)),
            ],
        ),
    )
}

/// An action in words: what was done, or what would have been.
pub open spec fn done_text(dry_run: bool, detail: Seq<char>) -> Seq<char> {
    (if dry_run {
        "would: "@
    } else {
        ""@
    }) + detail
}

/// A value: bare, or as the one field of an object.
pub open spec fn value_text(format: Format, key: Seq<char>, value: Seq<char>) -> Seq<char> {
    match format {
        Format::Text => line(value),
        Format::Json => json_lines(Json::Object(object(seq![(key, Json::Text(value))]))),
    }
}

/// How a reply is shown.
pub open spec fn shown(
    response: ResponseView,
    view: ListView,
    format: Format,
    quiet: bool,
) -> OutputView {
    match response {
        ResponseView::Error { kind, message } => OutputView {
            stdout: match format {
                Format::Text => Seq::empty(),
                Format::Json => json_lines(failure_json(kind, message)),
            },
            stderr: line("error: "@ + message),
            code: kind.code(),
        },
        ResponseView::Ticket(id) => OutputView {
            stdout: value_text(format, "id"@, id),
            stderr: Seq::empty(),
            code: 0,
        },
        ResponseView::Token(token) => OutputView {
            stdout: value_text(format, "token"@, token),
            stderr: Seq::empty(),
            code: 0,
        },
        ResponseView::Done { dry_run, detail } => match format {
            Format::Text => OutputView {
                stdout: Seq::empty(),
                stderr: if quiet {
                    Seq::empty()
                } else {
                    line(done_text(dry_run, detail))
                },
                code: 0,
            },
            Format::Json => OutputView {
                stdout: json_lines(done_json(dry_run, detail)),
                stderr: Seq::empty(),
                code: 0,
            },
        },
        ResponseView::List(info) => OutputView {
            stdout: match format {
                Format::Text => picture_text(info, view),
                Format::Json => json_lines(picture_json(info, view)),
            },
            stderr: Seq::empty(),
            code: 0,
        },
    }
}

/// A JSON value on lines of its own.
pub(crate) fn write_json_lines(value: &serde_json::Value) -> (r: String)
    ensures
        r@ == json_lines(json_of(*value)),
{
    let mut out = pretty(value);
    out.append("\n");
    out
}

/// A value: bare, or as the one field of an object.
pub fn emit_value(format: Format, key: &str, value: &str) -> (r: String)
    ensures
        r@ == value_text(format, key@, value@),
{
    match format {
        Format::Text => {
            let mut out = value.to_owned();
            out.append("\n");
            out
        },
        Format::Json => {
            let mut fields = no_fields();
            field(&mut fields, key, json_text(value));
            proof {
                assert(fields_of(fields@) =~= seq![(key@, Json::Text(value@))]);
            }
            write_json_lines(&json_object(fields))
        },
    }
}

fn failure_value(kind: ErrorKind, message: &str) -> (r: serde_json::Value)
    ensures
        json_of(r) == failure_json(kind, message@),
{
    let mut error = no_fields();
    field(&mut error, "kind", json_text(kind.name()));
    field(&mut error, "message", json_text(message));
    proof {
        assert(fields_of(error@) =~= seq![
            ("kind"@, Json::Text(kind.word())),
            ("message"@, Json::Text(message@)),
        ]);
    }
    let error = json_object(error);
    let mut fields = no_fields();
    field(&mut fields, "ok", json_bool(false));
    field(&mut fields, "error", error);
    proof {
        assert(fields_of(fields@) =~= seq![
            ("ok"@, Json::Bool(false)),
            ("error"@, json_of(error)),
        ]);
    }
    json_object(fields)
}

fn done_value(dry_run: bool, detail: &str) -> (r: serde_json::Value)
    ensures
        json_of(r) == done_json(dry_run, detail@),
{
    let mut fields = no_fields();
    field(&mut fields, "ok", json_bool(true));
    field(&mut fields, "dry_run", json_bool(dry_run));
    field(&mut fields, "detail", json_text(detail));
    proof {
        assert(fields_of(fields@) =~= seq![
            ("ok"@, Json::Bool(true)),
            ("dry_run"@, Json::Bool(dry_run)),
            ("detail"@, Json::Text(detail@)),
        ]);
    }
    json_object(fields)
}

/// An action in words, on a line of its own.
pub(crate) fn done_line(dry_run: bool, detail: &str) -> (r: String)
    ensures
        r@ == line(done_text(dry_run, detail@)),
{
    let mut out = String::new();
    if dry_run {
        out.append("would: ");
    }
    out.append(detail);
    out.append("\n");
    proof {
        reveal_strlit("");
        assert(out@ =~= line(done_text(dry_run, detail@)));
    }
    out
}

/// Shows a reply.
pub fn render(response: Response, view: ListView, format: Format, quiet: bool) -> (r: Output)
    ensures
        r@ == shown(response@, view, format, quiet),
{
    match response {
        Response::Error { kind, message } => {
            let mut stderr = "error: ".to_owned();
            stderr.append(message.as_str());
            stderr.append("\n");
            let stdout = match format {
                Format::Text => String::new(),
                Format::Json => write_json_lines(&failure_value(kind, message.as_str())),
            };
            Output { stdout, stderr, code: kind.exit_code() }
        },
        Response::Ticket(id) => Output {
            stdout: emit_value(format, "id", id.as_str()),
            stderr: String::new(),
            code: 0,
        },
        Response::Token(token) => Output {
            stdout: emit_value(format, "token", token.as_str()),
            stderr: String::new(),
            code: 0,
        },
        Response::Done { dry_run, detail } => match format {
            Format::Text => Output {
                stdout: String::new(),
                stderr: if quiet {
                    String::new()
                } else {
                    done_line(dry_run, detail.as_str())
                },
                code: 0,
            },
            Format::Json => Output {
                stdout: write_json_lines(&done_value(dry_run, detail.as_str())),
                stderr: String::new(),
                code: 0,
            },
        },
        Response::List(info) => Output {
            stdout: match format {
                Format::Text => text_view(&info, view),
                Format::Json => write_json_lines(&json_view(&info, view)),
            },
            stderr: String::new(),
            code: 0,
        },
    }
}

/// Shows a failure that came before there was any reply, as one that was replied
/// with is shown.
pub fn render_failure(err: Report, format: Format) -> (r: Output)
    ensures
        r@ == shown(refusal(err@), ListView::Nothing, format, false),
{
    render(Response::error(err), ListView::Nothing, format, false)
}

// ---------------------------------------------------------------------------
// What can be relied on
// ---------------------------------------------------------------------------

/// stdout carries results only: an action, or a failure, writes nothing to it in
/// text mode.
pub proof fn stdout_carries_results_only(response: ResponseView, view: ListView, quiet: bool)
    requires
        response is Done || response is Error,
    ensures
        shown(response, view, Format::Text, quiet).stdout == Seq::<char>::empty(),
{
}

/// stderr carries no result: dropping it never removes a value or a listing, nor
/// what a program parses.
pub proof fn stderr_carries_no_result(
    response: ResponseView,
    view: ListView,
    format: Format,
    quiet: bool,
)
    requires
        response is Ticket || response is Token || response is List || (response is Done && format
            == Format::Json),
    ensures
        shown(response, view, format, quiet).stderr == Seq::<char>::empty(),
{
}

/// A failure always says so on stderr, in either format and under `--quiet`.
pub proof fn failures_are_never_silent(
    kind: ErrorKind,
    message: Seq<char>,
    view: ListView,
    format: Format,
    quiet: bool,
)
    ensures
        shown(ResponseView::Error { kind, message }, view, format, quiet).stderr == "error: "@
            + message + "\n"@,
{
}

/// The exit code says what happened: 0 where the reply is no failure, and the code
/// of its kind where it is one, so that the kind can be told from the code alone.
pub proof fn the_exit_code_says_what_happened(
    a: ResponseView,
    b: ResponseView,
    view: ListView,
    format: Format,
    quiet: bool,
)
    ensures
        (shown(a, view, format, quiet).code == 0) == (a !is Error),
        (a is Error && b is Error && shown(a, view, format, quiet).code == shown(
            b,
            view,
            format,
            quiet,
        ).code) ==> a->kind == b->kind,
{
}

/// `--quiet` drops status chatter, and nothing else.
pub proof fn quiet_drops_chatter_only(response: ResponseView, view: ListView, format: Format)
    ensures
        ({
            let loud = shown(response, view, format, false);
            let quiet = shown(response, view, format, true);
            &&& quiet.stdout == loud.stdout
            &&& quiet.code == loud.code
            &&& quiet.stderr != loud.stderr ==> response is Done
        }),
{
}

/// A table shows a key by its first twelve characters, and a shorter one whole.
pub proof fn a_key_is_shown_by_its_beginning(key: Seq<char>)
    ensures
        shortened(key).is_prefix_of(key),
        shortened(key).len() == (if key.len() > 12 {
            12
        } else {
            key.len()
        }),
{
    assert(shortened(key) =~= key.subrange(0, shortened(key).len() as int));
}

/// The row of a port names every peer that a grant of that port names, one for each
/// grant, in the order of the grants, and no other.
pub proof fn the_holders_are_looked_up_one_by_one(
    a: Seq<GrantInfoView>,
    b: Seq<GrantInfoView>,
    g: GrantInfoView,
    port: u16,
)
    ensures
        holders(a + b, port) == holders(a, port) + holders(b, port),
        g.port == port ==> holders(seq![g], port) == seq![shortened(g.to)],
        g.port != port ==> holders(seq![g], port) == Seq::<Seq<char>>::empty(),
    decreases b.len(),
{
    assert(seq![g].drop_last() =~= Seq::empty());
    assert(holders(seq![g].drop_last(), port) =~= Seq::<Seq<char>>::empty());
    assert(Seq::<Seq<char>>::empty().push(shortened(g.to)) =~= seq![shortened(g.to)]);
    if b.len() == 0 {
        assert(a + b =~= a);
        assert(holders(a, port) + holders(b, port) =~= holders(a, port));
    } else {
        assert((a + b).drop_last() =~= a + b.drop_last());
        the_holders_are_looked_up_one_by_one(a, b.drop_last(), g, port);
        assert(holders(a + b, port) =~= holders(a, port) + holders(b, port));
    }
}

/// Where a grant of the port names a peer, that peer is among the holders.
pub proof fn every_holder_is_shown(grants: Seq<GrantInfoView>, port: u16, i: int)
    requires
        0 <= i < grants.len(),
        grants[i].port == port,
    ensures
        holders(grants, port).contains(shortened(grants[i].to)),
{
    let a = grants.take(i);
    let b = grants.skip(i + 1);
    let g = grants[i];
    assert(grants =~= a + seq![g] + b);
    the_holders_are_looked_up_one_by_one(a + seq![g], b, g, port);
    the_holders_are_looked_up_one_by_one(a, seq![g], g, port);
    let all = holders(grants, port);
    assert(all == holders(a, port) + seq![shortened(g.to)] + holders(b, port));
    assert(all[holders(a, port).len() as int] == shortened(g.to));
}

/// Where every grant is of the port, the holders are the peers of all of them, one for
/// each, and where none is, there are none.
pub proof fn the_holders_are_those_of_every_grant(grants: Seq<GrantInfoView>, port: u16)
    ensures
        (forall|i: int| 0 <= i < grants.len() ==> (#[trigger] grants[i]).port == port) ==> holders(
            grants,
            port,
        ) == Seq::new(grants.len(), |i: int| shortened(grants[i].to)),
        (forall|i: int| 0 <= i < grants.len() ==> (#[trigger] grants[i]).port != port) ==> holders(
            grants,
            port,
        ) == Seq::<Seq<char>>::empty(),
    decreases grants.len(),
{
    if grants.len() > 0 {
        let rest = grants.drop_last();
        the_holders_are_those_of_every_grant(rest, port);
        assert(grants[grants.len() - 1] == grants.last());
        if forall|i: int| 0 <= i < grants.len() ==> (#[trigger] grants[i]).port == port {
            assert forall|i: int| 0 <= i < rest.len() implies (#[trigger] rest[i]).port == port by {
                assert(rest[i] == grants[i]);
            }
            assert(holders(grants, port) =~= Seq::new(
                grants.len(),
                |i: int| shortened(grants[i].to),
            ));
        }
        if forall|i: int| 0 <= i < grants.len() ==> (#[trigger] grants[i]).port != port {
            assert forall|i: int| 0 <= i < rest.len() implies (#[trigger] rest[i]).port != port by {
                assert(rest[i] == grants[i]);
            }
        }
    } else {
        assert(Seq::new(grants.len(), |i: int| shortened(grants[i].to)) =~= Seq::<
            Seq<char>,
        >::empty());
    }
}

/// The row of an exposed port says the port, what serves it, and who holds it, all of
/// them, with commas between, or that nobody does.
pub proof fn the_row_of_a_port_says_who_holds_it(
    e: ExposedInfoView,
    grants: Seq<GrantInfoView>,
)
    ensures
        exposed_line(e, grants) == "  "@ + padded(decimal(e.port as nat), 6) + "  "@ + padded(
            e.backend,
            30,
        ) + "  to "@ + (if exists|i: int|
            0 <= i < grants.len() && (#[trigger] grants[i]).port == e.port {
            joined(holders(grants, e.port), ","@)
        } else {
            "(nobody)"@
        }) + "\n"@,
{
    if exists|i: int| 0 <= i < grants.len() && (#[trigger] grants[i]).port == e.port {
        let i = choose|i: int| 0 <= i < grants.len() && (#[trigger] grants[i]).port == e.port;
        every_holder_is_shown(grants, e.port, i);
    } else {
        the_holders_are_those_of_every_grant(grants, e.port);
    }
}

/// The ports that a peer exposes are all shown, in order, with commas between.
pub proof fn every_port_is_shown(a: Seq<u16>, b: Seq<u16>, p: u16)
    ensures
        a.len() > 0 && b.len() > 0 ==> ports_text(a + b) == ports_text(a) + ","@ + ports_text(b),
        ports_text(seq![p]) == decimal(p as nat),
        ports_text(Seq::empty()) == "-"@,
{
    let f = |p: u16| decimal(p as nat);
    assert((a + b).map_values(f) =~= a.map_values(f) + b.map_values(f));
    if a.len() > 0 && b.len() > 0 {
        joining_splits_anywhere(a.map_values(f), b.map_values(f), ","@);
    }
    assert(seq![p].map_values(f) =~= seq![decimal(p as nat)]);
    one_part_is_joined_as_it_is(decimal(p as nat), ","@);
}

/// The row of a peer says who it is, under which label, whether it is online, and what
/// it exposes.
pub proof fn the_row_of_a_peer_says_all_of_it(p: PeerInfoView)
    ensures
        p.label is Some && p.online ==> peer_line(p) == "  "@ + shortened(p.key) + "  "@
            + padded(p.label->0, 10) + "  "@ + padded("online"@, 7) + "  exposes "@ + ports_text(
            p.they_expose,
        ) + "\n"@,
        p.label is Some && !p.online ==> peer_line(p) == "  "@ + shortened(p.key)
            + "  "@ + padded(p.label->0, 10) + "  "@ + padded("offline"@, 7) + "  exposes "@ + ports_text(
            p.they_expose,
        ) + "\n"@,
        p.label is None ==> peer_line(p) == "  "@ + shortened(p.key) + "  "@ + padded("-"@, 10)
            + "  "@ + padded(
            if p.online {
                "online"@
            } else {
                "offline"@
            },
            7,
        ) + "  exposes "@ + ports_text(p.they_expose) + "\n"@,
{
}

/// The row of a binding says where the port landed, from where it was remapped if it
/// was, and whose it is.
pub proof fn the_row_of_a_binding_says_where_it_landed(b: BindingInfoView)
    ensures
        b.local == b.port ==> binding_line(b) == "  "@ + padded(
            "127.0.0.1:"@ + decimal(b.local as nat),
            38,
        ) + "  from "@ + shortened(b.peer) + "\n"@,
        b.local != b.port ==> binding_line(b) == "  "@ + padded(
            "127.0.0.1:"@ + decimal(b.local as nat) + " (remapped from "@ + decimal(b.port as nat)
                + ")"@,
            38,
        ) + "  from "@ + shortened(b.peer) + "\n"@,
{
}

/// A section shows every row, and says so where there is none.
pub proof fn a_section_shows_every_row(title: Seq<char>, rows: Seq<Seq<char>>, i: int)
    ensures
        rows.len() == 0 ==> section(title, rows) == "\n"@ + title + "\n"@ + "  (none)\n"@,
        0 <= i < rows.len() ==> holds(section(title, rows), rows[i]),
        rows.len() > 0 ==> section(title, rows) == "\n"@ + title + "\n"@ + concat(rows),
{
    if 0 <= i < rows.len() {
        every_part_is_there(rows, i);
        what_is_held_stays_held("\n"@ + title + "\n"@, concat(rows), Seq::empty(), rows[i]);
        assert("\n"@ + title + "\n"@ + concat(rows) + Seq::<char>::empty() =~= section(
            title,
            rows,
        ));
    }
}

/// A status shows every peer, every exposed port, and every binding, and who this is; a
/// listing of peers shows every peer, and one of ports every exposed port.
pub proof fn a_listing_leaves_no_one_out(info: ListInfoView, i: int)
    ensures
        0 <= i < info.peers.len() ==> holds(
            picture_text(info, ListView::All),
            peer_line(info.peers[i]),
        ) && holds(picture_text(info, ListView::Peers), peer_line(info.peers[i])),
        0 <= i < info.i_expose.len() ==> holds(
            picture_text(info, ListView::All),
            exposed_line(info.i_expose[i], info.grants),
        ) && holds(
            picture_text(info, ListView::Ports),
            exposed_line(info.i_expose[i], info.grants),
        ),
        0 <= i < info.bindings.len() ==> holds(
            picture_text(info, ListView::All),
            binding_line(info.bindings[i]),
        ),
        ("id  "@ + info.me + "\n"@).is_prefix_of(picture_text(info, ListView::All)),
        picture_text(info, ListView::All) == "id  "@ + info.me + "\n"@ + picture_text(
            info,
            ListView::Peers,
        ) + picture_text(info, ListView::Ports) + bindings_text(info),
{
    let head = "id  "@ + info.me + "\n"@;
    let all = picture_text(info, ListView::All);
    let nothing = Seq::<char>::empty();
    let peers = info.peers.map_values(|p: PeerInfoView| peer_line(p));
    let ports = info.i_expose.map_values(|e: ExposedInfoView| exposed_line(e, info.grants));
    let bound = info.bindings.map_values(|b: BindingInfoView| binding_line(b));
    a_section_shows_every_row("peers"@, peers, i);
    a_section_shows_every_row("exposed"@, ports, i);
    a_section_shows_every_row("bindings"@, bound, i);
    assert(all.subrange(0, head.len() as int) =~= head);
    if 0 <= i < info.peers.len() {
        let tail = exposed_text(info) + bindings_text(info);
        what_is_held_stays_held(head, peers_text(info), tail, peers[i]);
        assert(head + peers_text(info) + tail =~= all);
    }
    if 0 <= i < info.i_expose.len() {
        let front = head + peers_text(info);
        what_is_held_stays_held(front, exposed_text(info), bindings_text(info), ports[i]);
        assert(front + exposed_text(info) + bindings_text(info) =~= all);
    }
    if 0 <= i < info.bindings.len() {
        let front = head + peers_text(info) + exposed_text(info);
        what_is_held_stays_held(front, bindings_text(info), nothing, bound[i]);
        assert(front + bindings_text(info) + nothing =~= all);
    }
}

/// The objects of a listing have the fields that programs parse, with what they stand
/// for, and the rows are as many as there are.
pub proof fn the_rows_have_their_fields(
    p: PeerInfoView,
    e: ExposedInfoView,
    g: GrantInfoView,
    b: BindingInfoView,
)
    ensures
        ({
            let m = peer_json(p)->Object_0;
            &&& peer_json(p) is Object
            &&& m.contains_key("key"@) && m["key"@] == Json::Text(p.key)
            &&& m.contains_key("label"@) && m["label"@] == (match p.label {
                Some(l) => Json::Text(l),
                None => Json::Null,
            })
            &&& m.contains_key("online"@) && m["online"@] == Json::Bool(p.online)
            &&& m.contains_key("they_expose"@)
            &&& m["they_expose"@] matches Json::Array(ports)
            &&& ports.len() == p.they_expose.len()
            &&& forall|i: int|
                0 <= i < p.they_expose.len() ==> #[trigger] ports[i] == Json::Number(
                    p.they_expose[i] as u64,
                )
        }),
        ({
            let m = exposed_json(e)->Object_0;
            &&& exposed_json(e) is Object
            &&& m.contains_key("port"@) && m["port"@] == Json::Number(e.port as u64)
            &&& m.contains_key("backend"@) && m["backend"@] == Json::Text(e.backend)
        }),
        ({
            let m = grant_json(g)->Object_0;
            &&& grant_json(g) is Object
            &&& m.contains_key("port"@) && m["port"@] == Json::Number(g.port as u64)
            &&& m.contains_key("to"@) && m["to"@] == Json::Text(g.to)
        }),
        ({
            let m = binding_json(b)->Object_0;
            &&& binding_json(b) is Object
            &&& m.contains_key("port"@) && m["port"@] == Json::Number(b.port as u64)
            &&& m.contains_key("local"@) && m["local"@] == Json::Number(b.local as u64)
            &&& m.contains_key("peer"@) && m["peer"@] == Json::Text(b.peer)
        }),
{
    reveal_strlit("key");
    reveal_strlit("label");
    reveal_strlit("online");
    reveal_strlit("they_expose");
    reveal_strlit("port");
    reveal_strlit("backend");
    reveal_strlit("to");
    reveal_strlit("local");
    reveal_strlit("peer");
    assert("key"@.len() == 3 && "label"@.len() == 5 && "online"@.len() == 6);
    assert("they_expose"@.len() == 11 && "port"@.len() == 4 && "backend"@.len() == 7);
    assert("to"@.len() == 2 && "local"@.len() == 5 && "peer"@.len() == 4);
    assert("port"@[1] == 'o' && "peer"@[1] == 'e');
    let ports = Json::Array(p.they_expose.map_values(|n: u16| Json::Number(n as u64)));
    let f = seq![
        ("key"@, Json::Text(p.key)),
        ("label"@, text_or_null(p.label)),
        ("online"@, Json::Bool(p.online)),
        ("they_expose"@, ports),
    ];
    a_field_is_found_by_its_name(f, 0);
    a_field_is_found_by_its_name(f, 1);
    a_field_is_found_by_its_name(f, 2);
    a_field_is_found_by_its_name(f, 3);
    let f = seq![("port"@, Json::Number(e.port as u64)), ("backend"@, Json::Text(e.backend))];
    a_field_is_found_by_its_name(f, 0);
    a_field_is_found_by_its_name(f, 1);
    let f = seq![("port"@, Json::Number(g.port as u64)), ("to"@, Json::Text(g.to))];
    a_field_is_found_by_its_name(f, 0);
    a_field_is_found_by_its_name(f, 1);
    let f = seq![
        ("port"@, Json::Number(b.port as u64)),
        ("local"@, Json::Number(b.local as u64)),
        ("peer"@, Json::Text(b.peer)),
    ];
    a_field_is_found_by_its_name(f, 0);
    a_field_is_found_by_its_name(f, 1);
    a_field_is_found_by_its_name(f, 2);
}

/// Whether `json` is a list with one row for each of `rows`, in order.
pub open spec fn lists<T>(json: Json, rows: Seq<T>, row: spec_fn(T) -> Json) -> bool {
    json matches Json::Array(items) && items.len() == rows.len() && forall|i: int|
        0 <= i < rows.len() ==> #[trigger] items[i] == row(rows[i])
}

/// The object of a listing has the fields of its view and no others, and each lists
/// every row.
pub proof fn a_listing_has_the_fields_of_its_view(info: ListInfoView)
    ensures
        ({
            let m = picture_json(info, ListView::All)->Object_0;
            &&& picture_json(info, ListView::All) is Object
            &&& m.contains_key("id"@) && m["id"@] == Json::Text(info.me)
            &&& m.contains_key("peers"@) && lists(
                m["peers"@],
                info.peers,
                |p: PeerInfoView| peer_json(p),
            )
            &&& m.contains_key("exposed"@) && lists(
                m["exposed"@],
                info.i_expose,
                |e: ExposedInfoView| exposed_json(e),
            )
            &&& m.contains_key("grants"@) && lists(
                m["grants"@],
                info.grants,
                |g: GrantInfoView| grant_json(g),
            )
            &&& m.contains_key("bindings"@) && lists(
                m["bindings"@],
                info.bindings,
                |b: BindingInfoView| binding_json(b),
            )
        }),
        ({
            let m = picture_json(info, ListView::Peers)->Object_0;
            &&& picture_json(info, ListView::Peers) is Object
            &&& m.contains_key("peers"@) && lists(
                m["peers"@],
                info.peers,
                |p: PeerInfoView| peer_json(p),
            )
            &&& !m.contains_key("exposed"@)
        }),
        ({
            let m = picture_json(info, ListView::Ports)->Object_0;
            &&& picture_json(info, ListView::Ports) is Object
            &&& m.contains_key("exposed"@) && lists(
                m["exposed"@],
                info.i_expose,
                |e: ExposedInfoView| exposed_json(e),
            )
            &&& m.contains_key("grants"@) && lists(
                m["grants"@],
                info.grants,
                |g: GrantInfoView| grant_json(g),
            )
            &&& !m.contains_key("peers"@)
        }),
{
    reveal_strlit("id");
    reveal_strlit("peers");
    reveal_strlit("exposed");
    reveal_strlit("grants");
    reveal_strlit("bindings");
    assert("id"@.len() == 2 && "peers"@.len() == 5 && "exposed"@.len() == 7);
    assert("grants"@.len() == 6 && "bindings"@.len() == 8);
    let f = seq![
        ("id"@, Json::Text(info.me)),
        ("peers"@, peers_json(info.peers)),
        ("exposed"@, exposeds_json(info.i_expose)),
        ("grants"@, grants_json(info.grants)),
        ("bindings"@, bindings_json(info.bindings)),
    ];
    a_field_is_found_by_its_name(f, 0);
    a_field_is_found_by_its_name(f, 1);
    a_field_is_found_by_its_name(f, 2);
    a_field_is_found_by_its_name(f, 3);
    a_field_is_found_by_its_name(f, 4);
    let f = seq![("peers"@, peers_json(info.peers))];
    a_field_is_found_by_its_name(f, 0);
    an_object_holds_its_fields_only(f, "exposed"@);
    let f = seq![
        ("exposed"@, exposeds_json(info.i_expose)),
        ("grants"@, grants_json(info.grants)),
    ];
    a_field_is_found_by_its_name(f, 0);
    a_field_is_found_by_its_name(f, 1);
    an_object_holds_its_fields_only(f, "peers"@);
}

/// A failure is reported with `ok` false and its kind and words, an action with `ok`
/// true, whether it was a dry run, and what it did.
pub proof fn reports_have_their_fields(
    kind: ErrorKind,
    message: Seq<char>,
    dry_run: bool,
    detail: Seq<char>,
)
    ensures
        ({
            let m = failure_json(kind, message)->Object_0;
            let e = m["error"@]->Object_0;
            &&& failure_json(kind, message) is Object
            &&& m.contains_key("ok"@) && m["ok"@] == Json::Bool(false)
            &&& m.contains_key("error"@) && m["error"@] is Object
            &&& e.contains_key("kind"@) && e["kind"@] == Json::Text(kind.word())
            &&& e.contains_key("message"@) && e["message"@] == Json::Text(message)
        }),
        ({
            let m = done_json(dry_run, detail)->Object_0;
            &&& done_json(dry_run, detail) is Object
            &&& m.contains_key("ok"@) && m["ok"@] == Json::Bool(true)
            &&& m.contains_key("dry_run"@) && m["dry_run"@] == Json::Bool(dry_run)
            &&& m.contains_key("detail"@) && m["detail"@] == Json::Text(detail)
        }),
{
    reveal_strlit("ok");
    reveal_strlit("error");
    reveal_strlit("kind");
    reveal_strlit("message");
    reveal_strlit("dry_run");
    reveal_strlit("detail");
    assert("ok"@.len() == 2 && "error"@.len() == 5 && "kind"@.len() == 4);
    assert("message"@.len() == 7 && "dry_run"@.len() == 7 && "detail"@.len() == 6);
    let inner = seq![("kind"@, Json::Text(kind.word())), ("message"@, Json::Text(message))];
    a_field_is_found_by_its_name(inner, 0);
    a_field_is_found_by_its_name(inner, 1);
    let f = seq![("ok"@, Json::Bool(false)), ("error"@, Json::Object(object(inner)))];
    a_field_is_found_by_its_name(f, 0);
    a_field_is_found_by_its_name(f, 1);
    let f = seq![
        ("ok"@, Json::Bool(true)),
        ("dry_run"@, Json::Bool(dry_run)),
        ("detail"@, Json::Text(detail)),
    ];
    a_field_is_found_by_its_name(f, 0);
    a_field_is_found_by_its_name(f, 1);
    a_field_is_found_by_its_name(f, 2);
}

proof fn lemma_line(text: Seq<char>)
    ensures
        line(text) == text.push('\n'),
{
    reveal_strlit("\n");
    assert(line(text) =~= text.push('\n'));
}

/// A value is the result: in text it is all that stdout carries, on a line of its own,
/// and in JSON it is the one field.
pub proof fn a_value_is_shown_bare(value: Seq<char>, view: ListView, quiet: bool)
    ensures
        shown(ResponseView::Ticket(value), view, Format::Text, quiet).stdout == value.push('\n'),
        shown(ResponseView::Token(value), view, Format::Text, quiet).stdout == value.push('\n'),
        shown(ResponseView::Ticket(value), view, Format::Json, quiet).stdout == pretty_text(
            Json::Object(Map::empty().insert("id"@, Json::Text(value))),
        ).push('\n'),
        shown(ResponseView::Token(value), view, Format::Json, quiet).stdout == pretty_text(
            Json::Object(Map::empty().insert("token"@, Json::Text(value))),
        ).push('\n'),
{
    let id = seq![("id"@, Json::Text(value))];
    let token = seq![("token"@, Json::Text(value))];
    assert(id.drop_last() =~= Seq::empty());
    assert(token.drop_last() =~= Seq::empty());
    assert(object(id.drop_last()) == Map::<Seq<char>, Json>::empty());
    assert(object(token.drop_last()) == Map::<Seq<char>, Json>::empty());
    assert(object(id) == Map::<Seq<char>, Json>::empty().insert("id"@, Json::Text(value)));
    assert(object(token) == Map::<Seq<char>, Json>::empty().insert("token"@, Json::Text(value)));
    lemma_line(value);
    lemma_line(pretty_text(Json::Object(object(id))));
    lemma_line(pretty_text(Json::Object(object(token))));
}

/// An action says what it did, or what it would have done.
pub proof fn an_action_says_what_it_did(detail: Seq<char>, view: ListView, quiet: bool, dry: bool)
    ensures
        shown(
            ResponseView::Done { dry_run: false, detail },
            view,
            Format::Text,
            false,
        ).stderr == detail.push('\n'),
        shown(
            ResponseView::Done { dry_run: true, detail },
            view,
            Format::Text,
            false,
        ).stderr == ("would: "@ + detail).push('\n'),
        shown(ResponseView::Done { dry_run: dry, detail }, view, Format::Json, quiet).stdout
            == pretty_text(done_json(dry, detail)).push('\n'),
{
    reveal_strlit("");
    assert(""@ + detail =~= detail);
    lemma_line(detail);
    lemma_line("would: "@ + detail);
    lemma_line(pretty_text(done_json(dry, detail)));
}

/// A listing carries what its view shows, and a failure what it is.
pub proof fn a_listing_carries_its_view(
    info: ListInfoView,
    view: ListView,
    quiet: bool,
    kind: ErrorKind,
    message: Seq<char>,
)
    ensures
        shown(ResponseView::List(info), view, Format::Text, quiet).stdout == picture_text(
            info,
            view,
        ),
        shown(ResponseView::List(info), view, Format::Json, quiet).stdout == pretty_text(
            picture_json(info, view),
        ).push('\n'),
        shown(ResponseView::Error { kind, message }, view, Format::Json, quiet).stdout
            == pretty_text(failure_json(kind, message)).push('\n'),
{
    lemma_line(pretty_text(picture_json(info, view)));
    lemma_line(pretty_text(failure_json(kind, message)));
}

/// What a listing command asks for is what is shown of the reply.
pub proof fn a_listing_is_shown_in_the_view_it_asked_for(table: Seq<RouteView>)
    ensures
        view_of(asked(Command::Status, table)) == ListView::All,
        view_of(asked(Command::Peer { cmd: PeerCmd::Ls }, table)) == ListView::Peers,
        view_of(asked(Command::Port { cmd: PortCmd::Ls }, table)) == ListView::Ports,
        asked(Command::Id, table) == RequestView::Ticket,
{
}

/// An expose asks for the port, the grantees and the dry run that were given, and
/// declares the one backend that is named: an upstream, a socket, or the routes of a
/// table. Where none is named, or more than one, it declares nothing.
pub proof fn an_expose_asks_for_what_was_given(
    port: u16,
    to: Vec<String>,
    upstream: Option<String>,
    unix: Option<String>,
    routes: Option<String>,
    dry_run: bool,
    table: Seq<RouteView>,
)
    ensures
        ({
            let command = Command::Port {
                cmd: PortCmd::Expose { port, to, upstream, unix, routes, dry_run },
            };
            let request = asked(command, table);
            let backend = request->Expose_backend;
            &&& request is Expose
            &&& request->Expose_port == port
            &&& request->Expose_dry_run == dry_run
            &&& request->Expose_to.len() == to@.len()
            &&& forall|i: int| 0 <= i < to@.len() ==> #[trigger] request->Expose_to[i] == to@[i]@
            &&& upstream is Some && unix is None && routes is None ==> backend == Some(
                BackendView::Tcp { upstream: upstream->0@ },
            )
            &&& upstream is None && unix is Some && routes is None ==> backend == Some(
                BackendView::Unix { path: unix->0@ },
            )
            &&& upstream is None && unix is None && routes is Some ==> backend == Some(
                BackendView::Http { routes: table },
            ) && table_of(command) == Some(routes->0@)
            &&& upstream is None && unix is None && routes is None ==> backend is None
            &&& (upstream is Some && unix is Some) || (upstream is Some && routes is Some) || (
            unix is Some && routes is Some) ==> backend is None
            &&& upstream is Some || unix is Some || routes is None ==> table_of(command) is None
        }),
{
}

/// Every other command asks for what was given: the peer, the label, the port, whom to
/// revoke from, where to land, and whether it is a dry run. A remap that is cleared
/// asks for no place.
pub proof fn a_command_asks_for_what_was_given(
    text: String,
    label: String,
    port: u16,
    to: Option<String>,
    local: Option<u16>,
    dry_run: bool,
    table: Seq<RouteView>,
)
    ensures
        asked(Command::Peer { cmd: PeerCmd::Add { ticket: text, dry_run } }, table) == (
        RequestView::AddPeer { ticket: text@, dry_run }),
        asked(Command::Peer { cmd: PeerCmd::Rm { ticket: text, dry_run } }, table) == (
        RequestView::RemovePeer { ticket: text@, dry_run }),
        asked(Command::Peer { cmd: PeerCmd::Pin { key: text, label, dry_run } }, table) == (
        RequestView::Pin { key: text@, label: label@, dry_run }),
        asked(Command::Peer { cmd: PeerCmd::Token { label } }, table) == (
        RequestView::GrantToken { label: label@ }),
        asked(Command::Port { cmd: PortCmd::Unexpose { port, to, dry_run } }, table) == (
        RequestView::Unexpose {
            port,
            to: match to {
                Some(t) => Some(t@),
                None => None,
            },
            dry_run,
        }),
        asked(
            Command::Port { cmd: PortCmd::Bind { port, local, clear: true, dry_run } },
            table,
        ) == (RequestView::Bind { port, local: None, dry_run }),
        asked(
            Command::Port { cmd: PortCmd::Bind { port, local, clear: false, dry_run } },
            table,
        ) == (RequestView::Bind { port, local, dry_run }),
{
}

/// What a command leaves behind is what was made of it.
pub proof fn an_output_holds_what_it_was_made_of(out: Output)
    ensures
        out@.stdout == out.stdout@,
        out@.stderr == out.stderr@,
        out@.code == out.code,
{
}

}
