//! Services: what an exposed port is backed by.

use crate::protocol::{ErrorKind, FailureView, Report};
use crate::text::{
    chars_of, copy_opt, decimal, find_from, find_last, first_from, first_of, last_of, opt_text,
    push_decimal, starts_with, text_of, the_first_is_found, the_last_is_found,
};
use std::collections::BTreeMap;
use vstd::prelude::*;

verus! {

broadcast use vstd::std_specs::btree::group_btree_axioms;

/// What a port is backed by.
#[derive(Debug)]
pub enum BackendSpec {
    /// Reverse proxy. Routes are tried in order; the first match wins.
    Http { routes: Vec<Route> },
    /// Plain forward to `upstream`, resolved by the serving machine.
    Tcp { upstream: String },
    /// Plain forward to a Unix socket on the serving machine.
    Unix { path: String },
}

/// What a [`BackendSpec`] holds.
#[verifier::ext_equal]
pub enum BackendView {
    Http { routes: Seq<RouteView> },
    Tcp { upstream: Seq<char> },
    Unix { path: Seq<char> },
}

impl View for BackendSpec {
    type V = BackendView;

    open spec fn view(&self) -> BackendView {
        match *self {
            BackendSpec::Http { routes } => BackendView::Http { routes: route_rows(routes@) },
            BackendSpec::Tcp { upstream } => BackendView::Tcp { upstream: upstream@ },
            BackendSpec::Unix { path } => BackendView::Unix { path: path@ },
        }
    }
}

/// What `b` holds, if it is there.
pub open spec fn opt_backend(b: Option<BackendSpec>) -> Option<BackendView> {
    match b {
        Some(b) => Some(b@),
        None => None,
    }
}

/// One rule of a reverse proxy.
#[derive(Debug)]
pub struct Route {
    /// Match the request's Host header (hostname only, port ignored).
    /// Absent matches any host.
    pub host: Option<String>,
    /// Match a path prefix. Absent matches any path.
    pub prefix: Option<String>,
    /// Where to send it, e.g. "gitlab.internal:80". Resolved by the serving
    /// machine's resolver at request time. Mutually exclusive with `unix`.
    pub upstream: Option<String>,
    /// Send it to an HTTP server listening on a Unix socket instead.
    /// Mutually exclusive with `upstream`.
    pub unix: Option<String>,
    /// Speak TLS to the upstream.
    pub tls: bool,
    /// SNI to present upstream. Defaults to the upstream hostname.
    pub sni: Option<String>,
    /// Strip `prefix` from the path before forwarding.
    pub strip_prefix: bool,
    /// Host header to send upstream. Defaults to the upstream hostname.
    pub host_header: Option<String>,
}

/// What a [`Route`] holds.
#[verifier::ext_equal]
pub struct RouteView {
    pub host: Option<Seq<char>>,
    pub prefix: Option<Seq<char>>,
    pub upstream: Option<Seq<char>>,
    pub unix: Option<Seq<char>>,
    pub tls: bool,
    pub sni: Option<Seq<char>>,
    pub strip_prefix: bool,
    pub host_header: Option<Seq<char>>,
}

impl View for Route {
    type V = RouteView;

    open spec fn view(&self) -> RouteView {
        RouteView {
            host: opt_text(self.host),
            prefix: opt_text(self.prefix),
            upstream: opt_text(self.upstream),
            unix: opt_text(self.unix),
            tls: self.tls,
            sni: opt_text(self.sni),
            strip_prefix: self.strip_prefix,
            host_header: opt_text(self.host_header),
        }
    }
}

/// What each route holds.
pub open spec fn route_rows(v: Seq<Route>) -> Seq<RouteView> {
    v.map_values(|r: Route| r@)
}

// ---------------------------------------------------------------------------
// Routes
// ---------------------------------------------------------------------------

/// What is wrong with a route, if anything is: it names exactly one of an
/// upstream, which is not empty, and a Unix socket.
pub open spec fn route_fault(r: RouteView) -> Option<Seq<char>> {
    match (r.upstream, r.unix) {
        (Some(u), None) => if u.len() == 0 {
            Some("route has an empty upstream"@)
        } else {
            None
        },
        (None, Some(_)) => None,
        (None, None) => Some("route needs `upstream` or `unix`"@),
        (Some(_), Some(_)) => Some("route sets both `upstream` and `unix`"@),
    }
}

/// The hostname the upstream of a route is known by: the host part of
/// `upstream`, or for a Unix socket whatever `sni` says, or "localhost".
pub open spec fn host_of(r: RouteView) -> Seq<char> {
    match r.upstream {
        Some(u) => {
            let colon = last_of(u, ':');
            // What follows the last colon is a port, unless the colon stands
            // inside an IPv6 literal like "[::1]".
            if colon >= 0 && first_from(u, ']', colon + 1) == u.len() {
                u.take(colon)
            } else {
                u
            }
        },
        None => match r.sni {
            Some(sni) => sni,
            None => "localhost"@,
        },
    }
}

/// What a Host header says before its first colon.
pub open spec fn header_hostname(h: Seq<char>) -> Seq<char> {
    h.take(first_of(h, ':'))
}

/// Whether a route takes a request with this Host header and path.
pub open spec fn route_matches(r: RouteView, host: Option<Seq<char>>, path: Seq<char>) -> bool {
    &&& r.host matches Some(want) ==> host matches Some(h) && header_hostname(h) == want
    &&& r.prefix matches Some(prefix) ==> prefix.is_prefix_of(path)
}

/// What a string slice holds, if it is there.
pub open spec fn opt_str(t: Option<&str>) -> Option<Seq<char>> {
    match t {
        Some(s) => Some(s@),
        None => None,
    }
}

impl Clone for Route {
    fn clone(&self) -> (r: Self)
        ensures
            r == *self,
    {
        Route {
            host: copy_opt(&self.host),
            prefix: copy_opt(&self.prefix),
            upstream: copy_opt(&self.upstream),
            unix: copy_opt(&self.unix),
            tls: self.tls,
            sni: copy_opt(&self.sni),
            strip_prefix: self.strip_prefix,
            host_header: copy_opt(&self.host_header),
        }
    }
}

/// A copy of `v`.
pub fn copy_routes(v: &Vec<Route>) -> (r: Vec<Route>)
    ensures
        r@ == v@,
{
    let mut r: Vec<Route> = Vec::new();
    let mut i: usize = 0;
    while i < v.len()
        invariant
            i <= v@.len(),
            r@ =~= v@.take(i as int),
        decreases v@.len() - i,
    {
        r.push(v[i].clone());
        i = i + 1;
    }
    r
}

impl Route {
    /// A route needs exactly one of `upstream` and `unix`.
    pub fn validate(&self) -> (r: Result<(), Report>)
        ensures
            match r {
                Ok(_) => route_fault(self@) is None,
                Err(e) => e.links@.len() > 0 && route_fault(self@) == Some(e@.message) && e@.kind
                    == ErrorKind::Invalid,
            },
    {
        match (&self.upstream, &self.unix) {
            (Some(u), None) => {
                if u.as_str().is_empty() {
                    Err(invalid("route has an empty upstream"))
                } else {
                    Ok(())
                }
            },
            (None, Some(_)) => Ok(()),
            (None, None) => Err(invalid("route needs `upstream` or `unix`")),
            (Some(_), Some(_)) => Err(invalid("route sets both `upstream` and `unix`")),
        }
    }

    /// Hostname the upstream is known by: the host part of `upstream`, or for a
    /// Unix socket whatever `sni` says, falling back to "localhost" so the
    /// Host header and SNI are at least well-formed.
    pub fn upstream_host(&self) -> (r: &str)
        ensures
            r@ == host_of(self@),
    {
        match &self.upstream {
            Some(upstream) => {
                let v = chars_of(upstream.as_str());
                let n: usize = v.len();
                match find_last(&v, ':') {
                    Some(colon) => {
                        proof {
                            assert(colon < n);
                        }
                        if find_from(&v, ']', colon + 1) == n {
                            let head = upstream.as_str().substring_char(0, colon);
                            proof {
                                assert(head@ =~= upstream@.take(colon as int));
                            }
                            head
                        } else {
                            upstream.as_str()
                        }
                    },
                    None => upstream.as_str(),
                }
            },
            None => match &self.sni {
                Some(sni) => sni.as_str(),
                None => "localhost",
            },
        }
    }

    /// Whether this route takes a request.
    pub fn matches(&self, host: Option<&str>, path: &str) -> (r: bool)
        ensures
            r == route_matches(self@, opt_str(host), path@),
    {
        match &self.host {
            Some(want) => match host {
                Some(h) => {
                    let v = chars_of(h);
                    let colon: usize = find_from(&v, ':', 0);
                    let name = text_of(&v, 0, colon);
                    proof {
                        assert(name@ =~= header_hostname(h@));
                    }
                    if name != *want {
                        return false;
                    }
                },
                None => {
                    return false;
                },
            },
            None => {},
        }
        match &self.prefix {
            Some(prefix) => starts_with(path, prefix.as_str()),
            None => true,
        }
    }
}

/// A request that was malformed.
fn invalid(message: &str) -> (r: Report)
    ensures
        r.links@.len() > 0,
        r@ == (FailureView { kind: ErrorKind::Invalid, message: message@ }),
{
    Report::failure(ErrorKind::Invalid, message.to_owned())
}

// ---------------------------------------------------------------------------
// Backends
// ---------------------------------------------------------------------------

/// What is wrong with the first faulty route, if one is.
pub open spec fn first_fault(routes: Seq<RouteView>) -> Option<Seq<char>>
    decreases routes.len(),
{
    if routes.len() == 0 {
        None
    } else if route_fault(routes[0]) is Some {
        route_fault(routes[0])
    } else {
        first_fault(routes.skip(1))
    }
}

/// The words "http service on port" and the like.
pub open spec fn service_on(kind: Seq<char>, port: u16) -> Seq<char> {
    kind + " service on port "@ + decimal(port as nat)
}

/// What is wrong with declaring `b` for `port`, if anything is.
pub open spec fn backend_fault(b: BackendView, port: u16) -> Option<Seq<char>> {
    match b {
        BackendView::Http { routes } => if routes.len() == 0 {
            Some(service_on("http"@, port) + " has no routes"@)
        } else {
            match first_fault(routes) {
                Some(fault) => Some(service_on("http"@, port) + ": "@ + fault),
                None => None,
            }
        },
        BackendView::Tcp { upstream } => if upstream.len() == 0 {
            Some(service_on("tcp"@, port) + " has an empty upstream"@)
        } else {
            None
        },
        BackendView::Unix { path } => if path.len() == 0 {
            Some(service_on("unix"@, port) + " has an empty path"@)
        } else {
            None
        },
    }
}

/// One line that says what a backend is.
pub open spec fn backend_text(b: BackendView) -> Seq<char> {
    match b {
        BackendView::Http { routes } => "http ("@ + decimal(routes.len()) + " route"@ + (
        if routes.len() == 1 {
            ""@
        } else {
            "s"@
        }) + ")"@,
        BackendView::Tcp { upstream } => "tcp "@ + upstream,
        BackendView::Unix { path } => "unix "@ + path,
    }
}

fn service_on_text(kind: &str, port: u16) -> (r: String)
    ensures
        r@ == service_on(kind@, port),
{
    let mut out = kind.to_owned();
    out.append(" service on port ");
    push_decimal(&mut out, port as u64);
    out
}

impl Clone for BackendSpec {
    fn clone(&self) -> (r: Self)
        ensures
            r@ == self@,
    {
        match self {
            BackendSpec::Http { routes } => BackendSpec::Http { routes: copy_routes(routes) },
            BackendSpec::Tcp { upstream } => BackendSpec::Tcp { upstream: upstream.clone() },
            BackendSpec::Unix { path } => BackendSpec::Unix { path: path.clone() },
        }
    }
}

impl BackendSpec {
    /// Refuses a declaration that could never serve: a proxy without routes or
    /// with a faulty one, or a forward to nowhere.
    pub fn validate(&self, port: u16) -> (r: Result<(), Report>)
        ensures
            match r {
                Ok(_) => backend_fault(self@, port) is None,
                Err(e) => e.links@.len() > 0 && backend_fault(self@, port) == Some(e@.message)
                    && e@.kind == ErrorKind::Invalid,
            },
    {
        match self {
            BackendSpec::Http { routes } => {
                if routes.len() == 0 {
                    let mut m = service_on_text("http", port);
                    m.append(" has no routes");
                    return Err(Report::failure(ErrorKind::Invalid, m));
                }
                let ghost rows = route_rows(routes@);
                let mut i: usize = 0;
                proof {
                    assert(rows.skip(0) =~= rows);
                }
                while i < routes.len()
                    invariant
                        i <= routes@.len(),
                        routes@.len() > 0,
                        rows == route_rows(routes@),
                        self@ == (BackendView::Http { routes: rows }),
                        first_fault(rows) == first_fault(rows.skip(i as int)),
                    decreases routes@.len() - i,
                {
                    proof {
                        assert(rows.skip(i as int)[0] == routes@[i as int]@);
                        assert(rows.skip(i as int).skip(1) =~= rows.skip(i + 1));
                    }
                    match routes[i].validate() {
                        Ok(_) => {},
                        Err(e) => {
                            return Err(e.context(service_on_text("http", port)));
                        },
                    }
                    i = i + 1;
                }
                Ok(())
            },
            BackendSpec::Tcp { upstream } => {
                if upstream.as_str().is_empty() {
                    let mut m = service_on_text("tcp", port);
                    m.append(" has an empty upstream");
                    return Err(Report::failure(ErrorKind::Invalid, m));
                }
                Ok(())
            },
            BackendSpec::Unix { path } => {
                if path.as_str().is_empty() {
                    let mut m = service_on_text("unix", port);
                    m.append(" has an empty path");
                    return Err(Report::failure(ErrorKind::Invalid, m));
                }
                Ok(())
            },
        }
    }

    /// One line that says what this backend is.
    pub fn describe(&self) -> (r: String)
        ensures
            r@ == backend_text(self@),
    {
        match self {
            BackendSpec::Http { routes } => {
                let mut out = "http (".to_owned();
                push_decimal(&mut out, routes.len() as u64);
                out.append(" route");
                out.append(if routes.len() == 1 { "" } else { "s" });
                out.append(")");
                out
            },
            BackendSpec::Tcp { upstream } => {
                let mut out = "tcp ".to_owned();
                out.append(upstream.as_str());
                out
            },
            BackendSpec::Unix { path } => {
                let mut out = "unix ".to_owned();
                out.append(path.as_str());
                out
            },
        }
    }
}

// ---------------------------------------------------------------------------
// Files
// ---------------------------------------------------------------------------

/// One entry of the startup file: a port plus the backend it declares.
#[derive(Debug)]
pub struct ServiceEntry {
    pub port: u16,
    pub backend: BackendSpec,
}

/// What each declaration holds.
pub open spec fn declarations(v: Seq<(u16, BackendSpec)>) -> Seq<(u16, BackendView)> {
    v.map_values(|d: (u16, BackendSpec)| (d.0, d.1@))
}

/// What each entry declares.
pub open spec fn entry_rows(v: Seq<ServiceEntry>) -> Seq<(u16, BackendView)> {
    v.map_values(|e: ServiceEntry| (e.port, e.backend@))
}

/// What reading a file of declarations came to.
#[derive(Debug)]
pub enum Document<T> {
    /// It could not be read, and why.
    Unreadable(String),
    /// It was read, and is not what it should be, and why.
    Garbled(String),
    /// It says this.
    Parsed(T),
}

/// What is wrong with reading `document` from `path`, if anything is. `what` is
/// the kind of file, and `garbled` the kind of failure that a garbled one is.
pub open spec fn document_fault<T>(
    path: Seq<char>,
    what: Seq<char>,
    document: Document<T>,
    garbled: ErrorKind,
) -> Option<FailureView> {
    match document {
        Document::Unreadable(why) => Some(
            FailureView {
                kind: ErrorKind::Internal,
                message: "failed to read "@ + what + " "@ + path + ": "@ + why@,
            },
        ),
        Document::Garbled(why) => Some(
            FailureView {
                kind: garbled,
                message: "failed to parse "@ + what + " "@ + path + ": "@ + why@,
            },
        ),
        Document::Parsed(_) => None,
    }
}

/// What a file says, or how it is refused.
pub fn load_toml<T>(
    path: &str,
    what: &str,
    document: Document<T>,
    garbled: ErrorKind,
) -> (r: Result<T, Report>)
    ensures
        match r {
            Ok(value) => document == Document::Parsed(value),
            Err(e) => {
                &&& document_fault(path@, what@, document, garbled) == Some(e@)
                &&& e.links@.len() > 0
            },
        },
{
    match document {
        Document::Unreadable(why) => {
            let mut doing = "failed to read ".to_owned();
            doing.append(what);
            doing.append(" ");
            doing.append(path);
            Err(Report::internal(why).context(doing))
        },
        Document::Garbled(why) => {
            let mut doing = "failed to parse ".to_owned();
            doing.append(what);
            doing.append(" ");
            doing.append(path);
            Err(Report::failure(garbled, why).context(doing))
        },
        Document::Parsed(value) => Ok(value),
    }
}

/// What is wrong with a route table, if anything is. A table without entries, or
/// one that is no table, is an invalid one.
pub open spec fn table_fault(path: Seq<char>, document: Document<Vec<Route>>) -> Option<
    FailureView,
> {
    match document {
        Document::Parsed(routes) => if routes@.len() == 0 {
            Some(
                FailureView {
                    kind: ErrorKind::Invalid,
                    message: "route table "@ + path + " has no [[route]] entries"@,
                },
            )
        } else {
            None
        },
        _ => document_fault(path, "route table"@, document, ErrorKind::Invalid),
    }
}

/// Accepts the `[[route]]` table that was read from `path`, for
/// `expose --routes`.
pub fn load_routes(path: &str, document: Document<Vec<Route>>) -> (r: Result<Vec<Route>, Report>)
    ensures
        match r {
            Ok(routes) => table_fault(path@, document) is None && document == Document::Parsed(
                routes,
            ),
            Err(e) => table_fault(path@, document) == Some(e@) && e.links@.len() > 0,
        },
{
    let routes = match load_toml(path, "route table", document, ErrorKind::Invalid) {
        Ok(routes) => routes,
        Err(e) => {
            return Err(e);
        },
    };
    if routes.len() == 0 {
        let mut m = "route table ".to_owned();
        m.append(path);
        m.append(" has no [[route]] entries");
        return Err(Report::failure(ErrorKind::Invalid, m));
    }
    Ok(routes)
}

/// What is wrong with a startup file, if anything is.
pub open spec fn service_file_fault(
    path: Seq<char>,
    document: Document<Vec<ServiceEntry>>,
) -> Option<FailureView> {
    match document {
        Document::Parsed(services) => if services@.len() == 0 {
            Some(
                FailureView {
                    kind: ErrorKind::Internal,
                    message: "service config "@ + path + " has no [[service]] entries"@,
                },
            )
        } else {
            None
        },
        _ => document_fault(path, "service config"@, document, ErrorKind::Internal),
    }
}

/// Accepts the startup file that was read from `path`: the same declarations
/// `expose` makes, applied at boot. Backends are validated where they are
/// registered, not here, so both ways reject the same things in the same words.
pub fn load_service_file(path: &str, document: Document<Vec<ServiceEntry>>) -> (r: Result<
    Vec<(u16, BackendSpec)>,
    Report,
>)
    ensures
        match r {
            Ok(list) => {
                &&& service_file_fault(path@, document) is None
                &&& document matches Document::Parsed(services)
                &&& declarations(list@) == entry_rows(services@)
            },
            Err(e) => service_file_fault(path@, document) == Some(e@) && e.links@.len() > 0,
        },
{
    let services = match load_toml(path, "service config", document, ErrorKind::Internal) {
        Ok(services) => services,
        Err(e) => {
            return Err(e);
        },
    };
    if services.len() == 0 {
        let mut m = "service config ".to_owned();
        m.append(path);
        m.append(" has no [[service]] entries");
        return Err(Report::internal(m));
    }
    let mut list: Vec<(u16, BackendSpec)> = Vec::new();
    let mut i: usize = 0;
    while i < services.len()
        invariant
            i <= services@.len(),
            declarations(list@) =~= entry_rows(services@).take(i as int),
        decreases services@.len() - i,
    {
        let ghost before = list@;
        list.push((services[i].port, services[i].backend.clone()));
        proof {
            assert(declarations(list@) =~= declarations(before).push(
                entry_rows(services@)[i as int],
            ));
        }
        i = i + 1;
    }
    proof {
        assert(entry_rows(services@).take(services@.len() as int) =~= entry_rows(services@));
    }
    Ok(list)
}

// ---------------------------------------------------------------------------
// Registry
// ---------------------------------------------------------------------------

/// Whether `s` is strictly ascending.
pub open spec fn ascending(s: Seq<u16>) -> bool {
    forall|i: int, j: int| 0 <= i < j < s.len() ==> s[i] < s[j]
}

/// The keys of `m`, in ascending order.
pub fn keys_of<T>(m: &BTreeMap<u16, T>) -> (r: Vec<u16>)
    ensures
        ascending(r@),
        forall|p: u16| r@.contains(p) <==> m@.contains_key(p),
{
    let mut r: Vec<u16> = Vec::new();
    let entries = m.iter();
    let ghost rows = vstd::std_specs::iter::IteratorSpec::remaining(&entries);
    let ghost keys = rows.map_values(|kv: (&u16, &T)| *kv.0);
    for kv in it: entries
        invariant
            it.seq() == rows,
            keys == rows.map_values(|kv: (&u16, &T)| *kv.0),
            r@ =~= keys.take(it.index()),
    {
        r.push(*kv.0);
    }
    proof {
        assert(r@ =~= keys);
        assert(vstd::laws_cmp::obeys_cmp::<u16>());
        assert(vstd::std_specs::btree::increasing_seq(keys));
        assert forall|i: int, j: int| 0 <= i < j < r@.len() implies r@[i] < r@[j] by {
            assert(vstd::std_specs::cmp::OrdSpec::cmp_spec(&keys[i], &keys[j]) is Less);
        }
        assert forall|p: u16| r@.contains(p) <==> m@.contains_key(p) by {
            if r@.contains(p) {
                let i = choose|i: int| 0 <= i < r@.len() && r@[i] == p;
                assert(m@.contains_key(*rows[i].0));
            }
            if m@.contains_key(p) {
                assert(rows.contains((&p, &m@[p])));
                let i = choose|i: int| 0 <= i < rows.len() && rows[i] == (&p, &m@[p]);
                assert(r@[i] == p);
            }
        }
    }
    r
}

/// The address that ports without a declared backend forward to.
#[derive(Debug)]
pub struct Host {
    /// The address, as it is written.
    pub text: String,
    /// Whether it is an IPv6 address.
    pub v6: bool,
}

/// What a [`Host`] holds.
#[verifier::ext_equal]
pub struct HostView {
    pub text: Seq<char>,
    pub v6: bool,
}

impl View for Host {
    type V = HostView;

    open spec fn view(&self) -> HostView {
        HostView { text: self.text@, v6: self.v6 }
    }
}

/// `host` and `port` as one address; an IPv6 host stands in brackets.
pub open spec fn socket_text(host: HostView, port: u16) -> Seq<char> {
    if host.v6 {
        "["@ + host.text + "]:"@ + decimal(port as nat)
    } else {
        host.text + ":"@ + decimal(port as nat)
    }
}

/// What serves `port`: its declared backend, or the default forward.
pub open spec fn serving(
    declared: Map<u16, BackendView>,
    host: HostView,
    port: u16,
) -> BackendView {
    if declared.contains_key(port) {
        declared[port]
    } else {
        BackendView::Tcp { upstream: socket_text(host, port) }
    }
}

/// One line that says what serves `port`. An undeclared port says so rather
/// than reporting its equivalent forward.
pub open spec fn serving_text(declared: Map<u16, BackendView>, host: HostView, port: u16) -> Seq<
    char,
> {
    if declared.contains_key(port) {
        backend_text(declared[port])
    } else {
        "default "@ + host.text + ":"@ + decimal(port as nat)
    }
}

/// The refusal of a second declaration for `port` at startup.
pub open spec fn claimed_twice(port: u16) -> FailureView {
    FailureView {
        kind: ErrorKind::Conflict,
        message: "two services both claim port "@ + decimal(port as nat),
    }
}

/// What each declared backend holds.
pub open spec fn backend_map(m: Map<u16, BackendSpec>) -> Map<u16, BackendView> {
    m.map_values(|b: BackendSpec| b@)
}

/// Every declaration could serve.
pub open spec fn all_valid(declared: Map<u16, BackendView>) -> bool {
    forall|p: u16| #[trigger]
        declared.contains_key(p) ==> backend_fault(declared[p], p) is None
}

/// What is declared once `list` is declared on top of `declared`, and how a
/// declaration is refused, if one is: nothing after it is declared.
pub open spec fn declared_by(
    declared: Map<u16, BackendView>,
    list: Seq<(u16, BackendView)>,
) -> (Map<u16, BackendView>, Option<FailureView>)
    decreases list.len(),
{
    if list.len() == 0 {
        (declared, None)
    } else {
        let (port, backend) = list[0];
        if declared.contains_key(port) {
            (declared, Some(claimed_twice(port)))
        } else {
            match backend_fault(backend, port) {
                Some(message) => (
                    declared,
                    Some(FailureView { kind: ErrorKind::Invalid, message }),
                ),
                None => declared_by(declared.insert(port, backend), list.skip(1)),
            }
        }
    }
}

/// What each exposed port is backed by, keyed by the port peers ask for.
#[derive(Debug)]
pub struct Services {
    backends: BTreeMap<u16, BackendSpec>,
    /// Where a port with no declared backend forwards to.
    host: Host,
}

impl Services {
    /// What is declared, by port.
    pub closed spec fn declared(self) -> Map<u16, BackendView> {
        backend_map(self.backends@)
    }

    /// Where undeclared ports go.
    pub closed spec fn fallback(self) -> HostView {
        self.host@
    }

    pub fn new(host: Host) -> (r: Self)
        ensures
            r.declared() == Map::<u16, BackendView>::empty(),
            r.fallback() == host@,
    {
        let r = Services { backends: BTreeMap::new(), host };
        proof {
            assert(r.declared() =~= Map::<u16, BackendView>::empty());
        }
        r
    }

    /// Nothing declared, and the same default.
    pub fn bare(&self) -> (r: Self)
        ensures
            r.declared() == Map::<u16, BackendView>::empty(),
            r.fallback() == self.fallback(),
    {
        Services::new(Host { text: self.host.text.clone(), v6: self.host.v6 })
    }

    /// Declare what `port` is backed by, replacing any previous declaration.
    /// Re-exposing a port with a new backend is a redirect, not an error.
    pub fn register(&mut self, port: u16, spec: BackendSpec) -> (r: Result<(), Report>)
        ensures
            final(self).fallback() == old(self).fallback(),
            match r {
                Ok(_) => {
                    &&& backend_fault(spec@, port) is None
                    &&& final(self).declared() == old(self).declared().insert(port, spec@)
                },
                Err(e) => {
                    &&& e.links@.len() > 0
                    &&& backend_fault(spec@, port) == Some(e@.message)
                    &&& e@.kind == ErrorKind::Invalid
                    &&& final(self).declared() == old(self).declared()
                },
            },
    {
        match spec.validate(port) {
            Ok(_) => {},
            Err(e) => {
                return Err(e);
            },
        }
        self.backends.insert(port, spec);
        proof {
            assert(self.declared() =~= old(self).declared().insert(port, spec@));
        }
        Ok(())
    }

    /// Same, but refuse to overwrite. Used when applying the startup file, where
    /// two entries for one port is a mistake rather than an intent to replace.
    pub fn register_new(&mut self, port: u16, spec: BackendSpec) -> (r: Result<(), Report>)
        ensures
            final(self).fallback() == old(self).fallback(),
            match r {
                Ok(_) => {
                    &&& !old(self).declared().contains_key(port)
                    &&& backend_fault(spec@, port) is None
                    &&& final(self).declared() == old(self).declared().insert(port, spec@)
                },
                Err(e) => {
                    &&& e.links@.len() > 0
                    &&& final(self).declared() == old(self).declared()
                    &&& if old(self).declared().contains_key(port) {
                        e@ == claimed_twice(port)
                    } else {
                        backend_fault(spec@, port) == Some(e@.message) && e@.kind
                            == ErrorKind::Invalid
                    }
                },
            },
    {
        if self.contains(port) {
            let mut m = "two services both claim port ".to_owned();
            push_decimal(&mut m, port as u64);
            return Err(Report::failure(ErrorKind::Conflict, m));
        }
        self.register(port, spec)
    }

    /// Declare everything that the startup file at `path` says, up to the first
    /// declaration that is refused.
    pub fn declare(&mut self, path: &str, list: Vec<(u16, BackendSpec)>) -> (r: Result<(), Report>)
        ensures
            final(self).fallback() == old(self).fallback(),
            final(self).declared() == declared_by(old(self).declared(), declarations(list@)).0,
            all_valid(old(self).declared()) ==> all_valid(final(self).declared()),
            match r {
                Ok(_) => declared_by(old(self).declared(), declarations(list@)).1 is None,
                Err(e) => declared_by(old(self).declared(), declarations(list@)).1 matches Some(f)
                    && e@ == (FailureView {
                    kind: f.kind,
                    message: "in service config "@ + path@ + ": "@ + f.message,
                }),
            },
    {
        let ghost all = declarations(list@);
        let mut i: usize = 0;
        proof {
            assert(all.skip(0) =~= all);
        }
        while i < list.len()
            invariant
                i <= list@.len(),
                all == declarations(list@),
                self.fallback() == old(self).fallback(),
                all_valid(old(self).declared()) ==> all_valid(self.declared()),
                declared_by(old(self).declared(), all) == declared_by(
                    self.declared(),
                    all.skip(i as int),
                ),
            decreases list@.len() - i,
        {
            let port: u16 = list[i].0;
            proof {
                assert(all.skip(i as int)[0] == (port, list@[i as int].1@));
                assert(all.skip(i as int).skip(1) =~= all.skip(i + 1));
            }
            match self.register_new(port, list[i].1.clone()) {
                Ok(_) => {},
                Err(e) => {
                    let mut doing = "in service config ".to_owned();
                    doing.append(path);
                    return Err(e.context(doing));
                },
            }
            i = i + 1;
        }
        Ok(())
    }

    /// Withdraw the declaration for `port`; whether there was one.
    pub fn remove(&mut self, port: u16) -> (r: bool)
        ensures
            r == old(self).declared().contains_key(port),
            final(self).declared() == old(self).declared().remove(port),
            final(self).fallback() == old(self).fallback(),
    {
        let gone = self.backends.remove(&port);
        proof {
            assert(self.declared() =~= old(self).declared().remove(port));
        }
        gone.is_some()
    }

    /// Withdraw the declarations for all of `ports`.
    pub fn remove_all(&mut self, ports: &Vec<u16>)
        ensures
            final(self).declared() == old(self).declared().remove_keys(ports@.to_set()),
            final(self).fallback() == old(self).fallback(),
    {
        let mut i: usize = 0;
        proof {
            assert(self.declared() =~= old(self).declared().remove_keys(ports@.take(0).to_set()));
        }
        while i < ports.len()
            invariant
                i <= ports@.len(),
                self.fallback() == old(self).fallback(),
                self.declared() == old(self).declared().remove_keys(
                    ports@.take(i as int).to_set(),
                ),
            decreases ports@.len() - i,
        {
            self.remove(ports[i]);
            proof {
                assert(ports@.take(i + 1) =~= ports@.take(i as int).push(ports@[i as int]));
                ports@.take(i as int).lemma_push_to_set_commute(ports@[i as int]);
                assert(self.declared() =~= old(self).declared().remove_keys(
                    ports@.take(i + 1).to_set(),
                ));
            }
            i = i + 1;
        }
        proof {
            assert(ports@.take(ports@.len() as int) =~= ports@);
        }
    }

    /// Ports backed by a service, in ascending order. These are exposed and
    /// granted like any other port, but never bound locally on this side.
    pub fn ports(&self) -> (r: Vec<u16>)
        ensures
            ascending(r@),
            forall|p: u16| r@.contains(p) <==> self.declared().contains_key(p),
    {
        keys_of(&self.backends)
    }

    /// Whether something is declared for `port`.
    pub fn contains(&self, port: u16) -> (r: bool)
        ensures
            r == self.declared().contains_key(port),
    {
        self.backends.contains_key(&port)
    }

    /// What serves `port`: its declared backend, or the default forward.
    pub fn backend(&self, port: u16) -> (r: BackendSpec)
        ensures
            r@ == serving(self.declared(), self.fallback(), port),
            self.declared().contains_key(port) ==> r@ == self.declared()[port],
    {
        match self.backends.get(&port) {
            Some(b) => b.clone(),
            None => {
                let mut upstream = String::new();
                if self.host.v6 {
                    upstream.append("[");
                    upstream.append(self.host.text.as_str());
                    upstream.append("]:");
                } else {
                    upstream.append(self.host.text.as_str());
                    upstream.append(":");
                }
                push_decimal(&mut upstream, port as u64);
                proof {
                    assert(upstream@ =~= socket_text(self.fallback(), port));
                }
                BackendSpec::Tcp { upstream }
            },
        }
    }

    /// One-line description of what `port` is backed by, for `list`.
    pub fn describe(&self, port: u16) -> (r: String)
        ensures
            r@ == serving_text(self.declared(), self.fallback(), port),
    {
        match self.backends.get(&port) {
            Some(b) => b.describe(),
            None => {
                let mut out = "default ".to_owned();
                out.append(self.host.text.as_str());
                out.append(":");
                push_decimal(&mut out, port as u64);
                out
            },
        }
    }

    /// Every declaration, to be written down.
    pub fn snapshot(&self) -> (r: BTreeMap<u16, BackendSpec>)
        ensures
            backend_map(r@) == self.declared(),
    {
        self.backends.clone()
    }
}

// ---------------------------------------------------------------------------
// What can be relied on
// ---------------------------------------------------------------------------

/// Whether a Host header names the host `name`: it is the name, or the name with a
/// colon and something after it.
pub open spec fn names_host(header: Seq<char>, name: Seq<char>) -> bool {
    &&& !name.contains(':')
    &&& header == name || exists|port: Seq<char>| header == #[trigger] (name + seq![':'] + port)
}

/// What a Host header says before its first colon is the host that it names.
pub proof fn a_header_names_what_stands_before_its_colon(header: Seq<char>, name: Seq<char>)
    ensures
        header_hostname(header) == name <==> names_host(header, name),
{
    let n = first_of(header, ':');
    the_first_is_found(header, ':', 0);
    let before = header.take(n);
    if before == name {
        if name.contains(':') {
            let i = choose|i: int| 0 <= i < name.len() && name[i] == ':';
            assert(header[i] == ':');
        }
        if n == header.len() {
            assert(header =~= name);
        } else {
            assert(header =~= name + seq![':'] + header.skip(n + 1));
        }
    }
    if names_host(header, name) {
        if header == name {
            if n < header.len() {
                assert(name.contains(name[n]));
            }
            assert(before =~= name);
        } else {
            let port = choose|port: Seq<char>| header == #[trigger] (name + seq![':'] + port);
            assert(header[name.len() as int] == ':');
            if n < name.len() {
                assert(header[n] == name[n]);
                assert(name.contains(name[n]));
            }
            assert(n == name.len());
            assert(before =~= name);
        }
    }
}

/// A route takes a request only if everything that it names holds, whatever else it
/// names: its prefix begins the path, and its host is the one that the Host header
/// names. Where both hold, or are absent, it takes the request.
pub proof fn a_route_needs_everything_it_names(
    r: RouteView,
    host: Option<Seq<char>>,
    path: Seq<char>,
)
    ensures
        r.prefix matches Some(p) && !(p.len() <= path.len() && path.take(p.len() as int) == p)
            ==> !route_matches(r, host, path),
        r.host is Some && host is None ==> !route_matches(r, host, path),
        r.host matches Some(want) && host matches Some(h) && !names_host(h, want)
            ==> !route_matches(r, host, path),
        (r.prefix is None || (r.prefix->0.len() <= path.len() && path.take(
            r.prefix->0.len() as int,
        ) == r.prefix->0)) && (r.host is None || (host is Some && names_host(
            host->0,
            r.host->0,
        ))) ==> route_matches(r, host, path),
{
    if let (Some(h), Some(want)) = (host, r.host) {
        a_header_names_what_stands_before_its_colon(h, want);
    }
    if let Some(p) = r.prefix {
        if p.len() <= path.len() {
            assert(path.take(p.len() as int) =~= path.subrange(0, p.len() as int));
        }
    }
}

/// What a request asks for beyond what a route names makes no difference to it: a route
/// without a host takes any, and one without a prefix takes any path.
pub proof fn what_a_route_does_not_name_makes_no_difference(
    r: RouteView,
    host: Option<Seq<char>>,
    other_host: Option<Seq<char>>,
    path: Seq<char>,
    other_path: Seq<char>,
)
    ensures
        r.host is None ==> route_matches(r, host, path) == route_matches(r, other_host, path),
        r.prefix is None ==> route_matches(r, host, path) == route_matches(r, host, other_path),
{
}

/// A route is valid exactly where it names one place to go: an upstream that is not
/// empty, or a Unix socket, and not both.
pub proof fn a_route_goes_to_exactly_one_place(r: RouteView)
    ensures
        route_fault(r) is None <==> (r.upstream is Some) != (r.unix is Some) && (r.upstream is Some
            ==> r.upstream->0.len() > 0),
{
}

/// The upstream of a route is known by what stands before its port: of `name:port` the
/// name, of a name without a port the name, and of an IPv6 literal in brackets the
/// literal, with or without a port. A Unix socket is known by the SNI, or as localhost.
pub proof fn an_upstream_is_known_without_its_port(r: RouteView, name: Seq<char>, port: Seq<char>)
    requires
        !port.contains(':'),
        !port.contains(']'),
    ensures
        r.upstream == Some(name + seq![':'] + port) ==> host_of(r) == name,
        r.upstream == Some(name) && !name.contains(':') ==> host_of(r) == name,
        r.upstream == Some(name) && name.len() > 0 && name.last() == ']' ==> host_of(r) == name,
        r.upstream is None && r.sni is Some ==> host_of(r) == r.sni->0,
        r.upstream is None && r.sni is None ==> host_of(r) == "localhost"@,
{
    let u = name + seq![':'] + port;
    the_last_is_found(u, ':');
    let colon = last_of(u, ':');
    assert(u[name.len() as int] == ':');
    if colon > name.len() {
        assert(u[colon] == port[colon - name.len() - 1]);
        assert(port.contains(port[colon - name.len() - 1]));
    }
    assert(colon == name.len());
    the_first_is_found(u, ']', colon + 1);
    let bracket = first_from(u, ']', colon + 1);
    if bracket < u.len() {
        assert(u[bracket] == port[bracket - colon - 1]);
        assert(port.contains(port[bracket - colon - 1]));
    }
    assert(u.take(colon) =~= name);
    the_last_is_found(name, ':');
    let inner = last_of(name, ':');
    if inner >= 0 {
        assert(name.contains(name[inner]));
        the_first_is_found(name, ']', inner + 1);
        if name.last() == ']' {
            assert(name[name.len() - 1] == ']');
        }
    }
}

/// No route is faulty where the first faulty one is none, and the other way round.
pub proof fn a_table_is_as_good_as_its_routes(routes: Seq<RouteView>)
    ensures
        first_fault(routes) is None <==> forall|i: int|
            0 <= i < routes.len() ==> route_fault(#[trigger] routes[i]) is None,
    decreases routes.len(),
{
    if routes.len() > 0 {
        let rest = routes.skip(1);
        a_table_is_as_good_as_its_routes(rest);
        if first_fault(routes) is None {
            assert forall|i: int| 0 <= i < routes.len() implies route_fault(
                #[trigger] routes[i],
            ) is None by {
                if i > 0 {
                    assert(routes[i] == rest[i - 1]);
                }
            }
        }
        if forall|i: int| 0 <= i < routes.len() ==> route_fault(#[trigger] routes[i]) is None {
            assert forall|i: int| 0 <= i < rest.len() implies route_fault(
                #[trigger] rest[i],
            ) is None by {
                assert(rest[i] == routes[i + 1]);
            }
            assert(route_fault(routes[0]) is None);
        }
    }
}

/// A backend is accepted exactly where it could serve: a proxy with at least one route,
/// each of which goes to exactly one place; a forward to an upstream, or to a socket,
/// that is not empty.
pub proof fn a_backend_is_accepted_where_it_could_serve(b: BackendView, port: u16)
    ensures
        backend_fault(b, port) is None <==> match b {
            BackendView::Http { routes } => routes.len() > 0 && forall|i: int|
                0 <= i < routes.len() ==> {
                    let r = #[trigger] routes[i];
                    (r.upstream is Some) != (r.unix is Some) && (r.upstream is Some
                        ==> r.upstream->0.len() > 0)
                },
            BackendView::Tcp { upstream } => upstream.len() > 0,
            BackendView::Unix { path } => path.len() > 0,
        },
{
    if let BackendView::Http { routes } = b {
        a_table_is_as_good_as_its_routes(routes);
        if first_fault(routes) is None {
            assert forall|i: int| 0 <= i < routes.len() implies {
                let r = #[trigger] routes[i];
                (r.upstream is Some) != (r.unix is Some) && (r.upstream is Some
                    ==> r.upstream->0.len() > 0)
            } by {
                assert(route_fault(routes[i]) is None);
                a_route_goes_to_exactly_one_place(routes[i]);
            }
        } else {
            let i = choose|i: int|
                0 <= i < routes.len() && route_fault(#[trigger] routes[i]) is Some;
            a_route_goes_to_exactly_one_place(routes[i]);
        }
    }
}

/// What was declared for a port serves it, whatever its kind, and what serves the other
/// ports stays. A port that nothing is declared for goes to the same port of the host.
pub proof fn what_was_declared_serves(
    declared: Map<u16, BackendView>,
    host: HostView,
    port: u16,
    b: BackendView,
    other: u16,
)
    ensures
        serving(declared.insert(port, b), host, port) == b,
        other != port ==> serving(declared.insert(port, b), host, other) == serving(
            declared,
            host,
            other,
        ),
        declared.contains_key(port) ==> serving(declared, host, port) == declared[port],
        !declared.contains_key(port) && !host.v6 ==> serving(declared, host, port) == (
        BackendView::Tcp { upstream: host.text + seq![':'] + decimal(port as nat) }),
        !declared.contains_key(port) && host.v6 ==> serving(declared, host, port) == (
        BackendView::Tcp {
            upstream: seq!['['] + host.text + seq![']', ':'] + decimal(port as nat),
        }),
        serving(declared.remove(port), host, port) == serving(Map::empty(), host, port),
        other != port ==> serving(declared.remove(port), host, other) == serving(
            declared,
            host,
            other,
        ),
{
    reveal_strlit(":");
    reveal_strlit("[");
    reveal_strlit("]:");
    assert(":"@ =~= seq![':']);
    assert("["@ =~= seq!['[']);
    assert("]:"@ =~= seq![']', ':']);
}

/// What is said of a port is what serves it: the kind and the place of what was
/// declared, and of nothing else; a port that nothing is declared for says so.
pub proof fn what_is_said_of_a_port_is_what_serves_it(
    declared: Map<u16, BackendView>,
    host: HostView,
    port: u16,
    b: BackendView,
)
    ensures
        serving_text(declared.insert(port, b), host, port) == backend_text(b),
        b matches BackendView::Tcp { upstream } ==> backend_text(b) == "tcp "@ + upstream,
        b matches BackendView::Unix { path } ==> backend_text(b) == "unix "@ + path,
        b matches BackendView::Http { routes } ==> backend_text(b) == (if routes.len() == 1 {
            "http (1 route)"@
        } else {
            "http ("@ + decimal(routes.len()) + " routes)"@
        }),
        !declared.contains_key(port) ==> serving_text(declared, host, port) == "default "@
            + host.text + ":"@ + decimal(port as nat),
{
    if let BackendView::Http { routes } = b {
        reveal_strlit("http (");
        reveal_strlit(" route");
        reveal_strlit("s");
        reveal_strlit("");
        reveal_strlit(")");
        reveal_strlit(" routes)");
        reveal_strlit("http (1 route)");
        if routes.len() == 1 {
            assert(decimal(1) =~= seq!['1']);
            assert(backend_text(b) =~= "http (1 route)"@);
        } else {
            assert(backend_text(b) =~= "http ("@ + decimal(routes.len()) + " routes)"@);
        }
    }
}

/// Whether a list of declarations can be declared on top of others: each could serve,
/// no two are for one port, and none is for a port that is declared already.
pub open spec fn declarable(
    declared: Map<u16, BackendView>,
    list: Seq<(u16, BackendView)>,
) -> bool {
    &&& forall|i: int|
        0 <= i < list.len() ==> !declared.contains_key((#[trigger] list[i]).0) && backend_fault(
            list[i].1,
            list[i].0,
        ) is None
    &&& forall|i: int, j: int| 0 <= i < j < list.len() ==> list[i].0 != list[j].0
}

/// A startup file is declared exactly where it can be. Then everything that it says is
/// declared, and what was declared before stays as it was.
pub proof fn a_startup_file_is_declared_whole(
    declared: Map<u16, BackendView>,
    list: Seq<(u16, BackendView)>,
)
    ensures
        declared_by(declared, list).1 is None <==> declarable(declared, list),
        forall|p: u16| #[trigger]
            declared.contains_key(p) ==> declared_by(declared, list).0.contains_key(p)
                && declared_by(declared, list).0[p] == declared[p],
        declarable(declared, list) ==> forall|i: int|
            0 <= i < list.len() ==> declared_by(declared, list).0.contains_key(
                (#[trigger] list[i]).0,
            ) && declared_by(declared, list).0[list[i].0] == list[i].1,
        declarable(declared, list) ==> forall|p: u16| #[trigger]
            declared_by(declared, list).0.contains_key(p) ==> declared.contains_key(p) || exists|
                i: int,
            |
                0 <= i < list.len() && (#[trigger] list[i]).0 == p,
    decreases list.len(),
{
    if list.len() > 0 {
        let (port, b) = list[0];
        let rest = list.skip(1);
        if !declared.contains_key(port) && backend_fault(b, port) is None {
            let next = declared.insert(port, b);
            a_startup_file_is_declared_whole(next, rest);
            assert(declared_by(declared, list) == declared_by(next, rest));
            assert(declarable(declared, list) <==> declarable(next, rest)) by {
                if declarable(declared, list) {
                    assert forall|i: int| 0 <= i < rest.len() implies !next.contains_key(
                        (#[trigger] rest[i]).0,
                    ) && backend_fault(rest[i].1, rest[i].0) is None by {
                        assert(rest[i] == list[i + 1]);
                        assert(list[0].0 != list[i + 1].0);
                    }
                    assert forall|i: int, j: int| 0 <= i < j < rest.len() implies rest[i].0
                        != rest[j].0 by {
                        assert(list[i + 1].0 != list[j + 1].0);
                    }
                }
                if declarable(next, rest) {
                    assert forall|i: int| 0 <= i < list.len() implies !declared.contains_key(
                        (#[trigger] list[i]).0,
                    ) && backend_fault(list[i].1, list[i].0) is None by {
                        if i > 0 {
                            assert(list[i] == rest[i - 1]);
                        }
                    }
                    assert forall|i: int, j: int| 0 <= i < j < list.len() implies list[i].0
                        != list[j].0 by {
                        assert(list[j] == rest[j - 1]);
                        if i > 0 {
                            assert(rest[i - 1].0 != rest[j - 1].0);
                        } else {
                            assert(!next.contains_key(rest[j - 1].0));
                        }
                    }
                }
            }
            assert(next.contains_key(port));
            if declarable(declared, list) {
                assert forall|i: int| 0 <= i < list.len() implies declared_by(
                    declared,
                    list,
                ).0.contains_key((#[trigger] list[i]).0) && declared_by(
                    declared,
                    list,
                ).0[list[i].0] == list[i].1 by {
                    if i > 0 {
                        assert(list[i] == rest[i - 1]);
                    }
                }
                assert forall|p: u16| #[trigger]
                    declared_by(declared, list).0.contains_key(p) implies declared.contains_key(p)
                    || exists|i: int| 0 <= i < list.len() && (#[trigger] list[i]).0 == p by {
                    if next.contains_key(p) {
                        if p == port {
                            assert(list[0].0 == p);
                        }
                    } else {
                        let i = choose|i: int|
                            0 <= i < rest.len() && (#[trigger] rest[i]).0 == p;
                        assert(list[i + 1].0 == p);
                    }
                }
            }
            assert forall|p: u16| #[trigger] declared.contains_key(p) implies declared_by(
                declared,
                list,
            ).0.contains_key(p) && declared_by(declared, list).0[p] == declared[p] by {
                assert(next.contains_key(p));
            }
        } else {
            assert(!declarable(declared, list)) by {
                assert(list[0].0 == port);
            }
        }
    }
}

/// A file that could not be read, or that is not what it should be, is refused with the
/// file and the reason named, and the reason comes last.
pub proof fn a_refused_file_is_named_with_the_reason(
    path: Seq<char>,
    what: Seq<char>,
    why: String,
    kind: ErrorKind,
)
    ensures
        ({
            let unread: Document<Vec<Route>> = Document::Unreadable(why);
            let garbled: Document<Vec<Route>> = Document::Garbled(why);
            &&& document_fault(path, what, unread, kind) == Some(
                FailureView {
                    kind: ErrorKind::Internal,
                    message: "failed to read "@ + what + " "@ + path + ": "@ + why@,
                },
            )
            &&& document_fault(path, what, garbled, kind) == Some(
                FailureView {
                    kind,
                    message: "failed to parse "@ + what + " "@ + path + ": "@ + why@,
                },
            )
            &&& table_fault(path, garbled) matches Some(f) && f.kind == ErrorKind::Invalid
        }),
{
}

/// A route table is accepted exactly where it was read and holds a route, and so is a
/// startup file, with a service.
pub proof fn a_file_is_accepted_where_it_says_something(
    path: Seq<char>,
    table: Document<Vec<Route>>,
    services: Document<Vec<ServiceEntry>>,
)
    ensures
        table_fault(path, table) is None <==> (table matches Document::Parsed(routes)
            && routes@.len() > 0),
        service_file_fault(path, services) is None <==> (services matches Document::Parsed(list)
            && list@.len() > 0),
{
}

/// Where a table is refused, it is for its first faulty route.
pub proof fn the_first_faulty_route_is_reported(routes: Seq<RouteView>) -> (i: int)
    requires
        first_fault(routes) is Some,
    ensures
        0 <= i < routes.len(),
        route_fault(routes[i]) == first_fault(routes),
        forall|j: int| 0 <= j < i ==> route_fault(#[trigger] routes[j]) is None,
    decreases routes.len(),
{
    if route_fault(routes[0]) is Some {
        0
    } else {
        let rest = routes.skip(1);
        let k = the_first_faulty_route_is_reported(rest);
        assert forall|j: int| 0 <= j < k + 1 implies route_fault(#[trigger] routes[j]) is None by {
            if j > 0 {
                assert(routes[j] == rest[j - 1]);
            }
        }
        k + 1
    }
}

/// What a route holds is what it was made of, field by field.
pub proof fn a_route_holds_what_it_was_made_of(r: Route)
    ensures
        r@.host is Some == r.host is Some && (r.host is Some ==> r@.host->0 == r.host->0@),
        r@.prefix is Some == r.prefix is Some && (r.prefix is Some ==> r@.prefix->0 == r.prefix->0@),
        r@.upstream is Some == r.upstream is Some && (r.upstream is Some ==> r@.upstream->0
            == r.upstream->0@),
        r@.unix is Some == r.unix is Some && (r.unix is Some ==> r@.unix->0 == r.unix->0@),
        r@.sni is Some == r.sni is Some && (r.sni is Some ==> r@.sni->0 == r.sni->0@),
        r@.host_header is Some == r.host_header is Some && (r.host_header is Some
            ==> r@.host_header->0 == r.host_header->0@),
        r@.tls == r.tls,
        r@.strip_prefix == r.strip_prefix,
{
}

/// What a backend holds is what it was made of: of a proxy every route, in order.
pub proof fn a_backend_holds_what_it_was_made_of(routes: Vec<Route>, text: String, host: Host)
    ensures
        (BackendSpec::Tcp { upstream: text })@ == (BackendView::Tcp { upstream: text@ }),
        (BackendSpec::Unix { path: text })@ == (BackendView::Unix { path: text@ }),
        (BackendSpec::Http { routes })@ matches BackendView::Http { routes: rows } && rows.len()
            == routes@.len() && forall|i: int|
            0 <= i < routes@.len() ==> #[trigger] rows[i] == routes@[i]@,
        host@.text == host.text@,
        host@.v6 == host.v6,
{
}

/// What is declared by a list is what each entry declares, one for one, and by a map
/// what each port is declared with.
pub proof fn every_declaration_is_held(
    list: Seq<(u16, BackendSpec)>,
    entries: Seq<ServiceEntry>,
    map: Map<u16, BackendSpec>,
)
    ensures
        declarations(list).len() == list.len(),
        forall|i: int| 0 <= i < list.len() ==> #[trigger] declarations(list)[i] == (
            list[i].0,
            list[i].1@,
        ),
        entry_rows(entries).len() == entries.len(),
        forall|i: int| 0 <= i < entries.len() ==> #[trigger] entry_rows(entries)[i] == (
            entries[i].port,
            entries[i].backend@,
        ),
        forall|p: u16| #[trigger] backend_map(map).contains_key(p) <==> map.contains_key(p),
        forall|p: u16| #[trigger]
            map.contains_key(p) ==> backend_map(map)[p] == map[p]@,
{
}

/// A text or a backend that may be missing holds what it holds.
pub proof fn what_may_be_missing_is_held(t: Option<&str>, b: Option<BackendSpec>)
    ensures
        opt_str(t) is Some == t is Some,
        t is Some ==> opt_str(t)->0 == t->0@,
        opt_backend(b) is Some == b is Some,
        b is Some ==> opt_backend(b)->0 == b->0@,
{
}

/// Where a bracket closes after the last colon, that colon stands inside an IPv6
/// literal, and the upstream is known by the whole.
pub proof fn a_literal_keeps_its_colons(r: RouteView, name: Seq<char>, tail: Seq<char>)
    requires
        !tail.contains(':'),
        tail.contains(']'),
        r.upstream == Some(name + seq![':'] + tail),
    ensures
        host_of(r) == name + seq![':'] + tail,
{
    let u = name + seq![':'] + tail;
    the_last_is_found(u, ':');
    let colon = last_of(u, ':');
    assert(u[name.len() as int] == ':');
    if colon > name.len() {
        assert(u[colon] == tail[colon - name.len() - 1]);
        assert(tail.contains(tail[colon - name.len() - 1]));
    }
    the_first_is_found(u, ']', colon + 1);
    let i = choose|i: int| 0 <= i < tail.len() && tail[i] == ']';
    assert(u[colon + 1 + i] == ']');
}

/// A list of declarations is refused for the first that can not be declared: as a
/// conflict where its port is taken, and as invalid, with what is wrong, where it could
/// never serve. What stands before it makes no difference to that.
pub proof fn a_list_is_refused_for_its_first_mistake(
    declared: Map<u16, BackendView>,
    port: u16,
    b: BackendView,
    rest: Seq<(u16, BackendView)>,
)
    ensures
        declared.contains_key(port) ==> (declared_by(declared, seq![(port, b)] + rest).1 matches Some(
            f,
        ) && f.kind == ErrorKind::Conflict),
        !declared.contains_key(port) && backend_fault(b, port) is Some ==> declared_by(
            declared,
            seq![(port, b)] + rest,
        ).1 == Some(
            FailureView { kind: ErrorKind::Invalid, message: backend_fault(b, port)->0 },
        ),
        !declared.contains_key(port) && backend_fault(b, port) is None ==> declared_by(
            declared,
            seq![(port, b)] + rest,
        ) == declared_by(declared.insert(port, b), rest),
{
    let list = seq![(port, b)] + rest;
    assert(list[0] == (port, b));
    assert(list.skip(1) =~= rest);
}

}
