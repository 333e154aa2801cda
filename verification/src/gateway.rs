//! The HTTP kind: which route takes a request, and what becomes of the request.

use crate::protocol::{ErrorKind, Report};
use crate::service::{
    an_upstream_is_known_without_its_port, backend_fault, copy_routes, first_fault, host_of,
    opt_str, route_fault, route_matches, route_rows, BackendSpec, BackendView, Route, RouteView,
};
use crate::text::{chars_of, holds, same, starts_with, text_of, texts};
use vstd::prelude::*;

verus! {

// ---------------------------------------------------------------------------
// What the http crate decides
// ---------------------------------------------------------------------------

/// Whether a byte of a header is visible ASCII or a tab.
pub open spec fn visible(b: u8) -> bool {
    32 <= b < 127 || b == 9
}

/// What the bytes of a header say as text: all of them are visible.
pub open spec fn header_text(value: Seq<u8>) -> Option<Seq<char>> {
    if forall|i: int| 0 <= i < value.len() ==> visible(#[trigger] value[i]) {
        Some(Seq::new(value.len(), |i: int| value[i] as char))
    } else {
        None
    }
}

/// `http::HeaderValue::from_bytes` and `http::HeaderValue::to_str`: a header
/// value reads as text exactly when each byte is visible ASCII or a tab, and
/// then says one character per byte.
#[verifier::external_body]
fn read_header(value: &[u8]) -> (r: Option<String>)
    ensures
        match r {
            Some(t) => header_text(value@) == Some(t@),
            None => header_text(value@) is None,
        },
{
    let header = http::HeaderValue::from_bytes(value).ok()?;
    header.to_str().ok().map(str::to_owned)
}

/// Whether a text is a URI to the http crate.
pub uninterp spec fn uri_parses(text: Seq<char>) -> bool;

/// `http::Uri` through `str::parse`: whether the text is accepted as a URI,
/// which rests on the text alone. What the crate accepts is not stated.
#[verifier::external_body]
fn parses_as_uri(text: &str) -> (r: bool)
    ensures
        r == uri_parses(text@),
{
    text.parse::<http::Uri>().is_ok()
}

// ---------------------------------------------------------------------------
// Routing
// ---------------------------------------------------------------------------

/// The first of `routes` that takes the request, from `from` on.
pub open spec fn first_match(
    routes: Seq<RouteView>,
    host: Option<Seq<char>>,
    path: Seq<char>,
    from: int,
) -> Option<int>
    decreases routes.len() - from,
{
    if from < 0 || from >= routes.len() {
        None
    } else if route_matches(routes[from], host, path) {
        Some(from)
    } else {
        first_match(routes, host, path, from + 1)
    }
}

/// Routes are tried in order and the first match wins: the one that is picked
/// takes the request, none before it does, and where none is picked none does.
pub proof fn first_match_wins(
    routes: Seq<RouteView>,
    host: Option<Seq<char>>,
    path: Seq<char>,
    from: int,
)
    requires
        0 <= from,
    ensures
        match first_match(routes, host, path, from) {
            Some(i) => {
                &&& from <= i < routes.len()
                &&& route_matches(routes[i], host, path)
                &&& forall|j: int|
                    from <= j < i ==> !route_matches(#[trigger] routes[j], host, path)
            },
            None => forall|j: int|
                from <= j < routes.len() ==> !route_matches(#[trigger] routes[j], host, path),
        },
    decreases routes.len() - from,
{
    if from < routes.len() && !route_matches(routes[from], host, path) {
        first_match_wins(routes, host, path, from + 1);
    }
}

/// Which route was picked for a request. An index rather than the route itself:
/// the gateway outlives every request it serves.
#[derive(Debug)]
pub struct Ctx {
    pub route: Option<usize>,
}

/// What is to be done with a request.
#[derive(Debug, Clone, Copy, PartialEq, Eq, Structural)]
pub enum Verdict {
    /// Send it to the upstream of the route that was picked.
    Forward,
    /// Answer it with this status.
    Respond(u16),
}

/// Where a request goes.
#[derive(Debug)]
pub enum Target {
    /// To an HTTP server on a Unix socket.
    Unix { path: String, tls: bool, sni: String },
    /// To a `host:port`, to be resolved now.
    Tcp { upstream: String, tls: bool, sni: String },
}

/// What a [`Target`] holds.
#[verifier::ext_equal]
pub enum TargetView {
    Unix { path: Seq<char>, tls: bool, sni: Seq<char> },
    Tcp { upstream: Seq<char>, tls: bool, sni: Seq<char> },
}

impl View for Target {
    type V = TargetView;

    open spec fn view(&self) -> TargetView {
        match *self {
            Target::Unix { path, tls, sni } => TargetView::Unix { path: path@, tls, sni: sni@ },
            Target::Tcp { upstream, tls, sni } => TargetView::Tcp {
                upstream: upstream@,
                tls,
                sni: sni@,
            },
        }
    }
}

/// Where a route sends a request.
pub open spec fn target_of(r: RouteView) -> TargetView {
    let sni = match r.sni {
        Some(sni) => sni,
        None => host_of(r),
    };
    match r.unix {
        Some(path) => TargetView::Unix { path, tls: r.tls, sni },
        None => TargetView::Tcp { upstream: r.upstream->0, tls: r.tls, sni },
    }
}

/// What is to be changed in a request before it goes out.
#[derive(Debug)]
pub struct Edit {
    /// The request target to put in the place of the one that came, if any.
    pub target: Option<String>,
    /// The Host header to send.
    pub host: String,
}

/// What a path becomes when `prefix` is stripped from it: what is left, always
/// absolute.
pub open spec fn stripped(path: Seq<char>, prefix: Seq<char>) -> Seq<char> {
    let rest = if prefix.is_prefix_of(path) {
        path.skip(prefix.len() as int)
    } else {
        path
    };
    if rest.len() > 0 && rest[0] == '/' {
        rest
    } else {
        "/"@ + rest
    }
}

/// A path with its query.
pub open spec fn with_query(path: Seq<char>, query: Option<Seq<char>>) -> Seq<char> {
    match query {
        Some(q) => path + "?"@ + q,
        None => path,
    }
}

/// What a route makes of a request target, if it is to be rewritten.
pub open spec fn rewritten(r: RouteView, path: Seq<char>, query: Option<Seq<char>>) -> Option<
    Seq<char>,
> {
    if r.strip_prefix {
        match r.prefix {
            Some(prefix) => Some(with_query(stripped(path, prefix), query)),
            None => None,
        }
    } else {
        None
    }
}

/// The Host header a route sends.
pub open spec fn sent_host(r: RouteView) -> Seq<char> {
    match r.host_header {
        Some(h) => h,
        None => host_of(r),
    }
}

/// A rewritten target is absolute, whatever was stripped from it: stripping
/// "/gitlab" from "/gitlab" or from "/gitlabfoo" leaves no empty or relative one.
pub proof fn rewritten_targets_are_absolute(
    r: RouteView,
    path: Seq<char>,
    query: Option<Seq<char>>,
)
    ensures
        rewritten(r, path, query) matches Some(t) ==> t.len() > 0 && t[0] == '/',
{
    reveal_strlit("/");
}

// ---------------------------------------------------------------------------
// Resolved addresses
// ---------------------------------------------------------------------------

/// How long a resolved upstream address is reused, in nanoseconds.
pub const DNS_TTL: u64 = 5_000_000_000;

/// A resolved upstream, and when it was resolved.
#[derive(Debug)]
pub struct Resolved {
    pub upstream: String,
    pub addr: String,
    /// In nanoseconds, on a clock that never goes back.
    pub at: u64,
}

/// The latest answer for each upstream.
pub open spec fn answers(rows: Seq<Resolved>) -> Map<Seq<char>, (Seq<char>, u64)>
    decreases rows.len(),
{
    if rows.len() == 0 {
        Map::empty()
    } else {
        answers(rows.drop_last()).insert(
            rows.last().upstream@,
            (rows.last().addr@, rows.last().at),
        )
    }
}

/// How long ago `at` was.
pub open spec fn elapsed(now: u64, at: u64) -> int {
    if now >= at {
        now - at
    } else {
        0
    }
}

/// The answer for `upstream` that is recent enough to be reused at `now`.
pub open spec fn recent(
    known: Map<Seq<char>, (Seq<char>, u64)>,
    upstream: Seq<char>,
    now: u64,
) -> Option<Seq<char>> {
    if known.contains_key(upstream) && elapsed(now, known[upstream].1) < DNS_TTL {
        Some(known[upstream].0)
    } else {
        None
    }
}

/// An answer is reused for five seconds and not longer.
pub proof fn answers_are_reused_for_five_seconds(
    known: Map<Seq<char>, (Seq<char>, u64)>,
    upstream: Seq<char>,
    addr: Seq<char>,
    at: u64,
    now: u64,
)
    requires
        at <= now,
    ensures
        recent(known.insert(upstream, (addr, at)), upstream, now) == (if now - at < 5_000_000_000 {
            Some(addr)
        } else {
            None
        }),
{
}

/// A lookup that gave no address.
pub open spec fn unresolved(upstream: Seq<char>, error: Option<Seq<char>>) -> Seq<char> {
    match error {
        Some(e) => "cannot resolve upstream "@ + upstream + ": "@ + e,
        None => "upstream "@ + upstream + " resolved to no addresses"@,
    }
}

/// What a lookup found, or why it failed.
pub open spec fn lookup_view(lookup: Result<Vec<String>, String>) -> Result<
    Seq<Seq<char>>,
    Seq<char>,
> {
    match lookup {
        Ok(found) => Ok(texts(found@)),
        Err(error) => Err(error@),
    }
}

/// What a lookup came to: its first address, or why there is none.
pub open spec fn answer_in(
    upstream: Seq<char>,
    lookup: Result<Seq<Seq<char>>, Seq<char>>,
) -> Result<Seq<char>, Seq<char>> {
    match lookup {
        Ok(found) => if found.len() > 0 {
            Ok(found[0])
        } else {
            Err(unresolved(upstream, None))
        },
        Err(error) => Err(unresolved(upstream, Some(error))),
    }
}

/// What is known once an answer came: an address is kept, with its time, and a
/// failure leaves what was known.
pub open spec fn learned(
    known: Map<Seq<char>, (Seq<char>, u64)>,
    upstream: Seq<char>,
    answer: Result<Seq<char>, Seq<char>>,
    now: u64,
) -> Map<Seq<char>, (Seq<char>, u64)> {
    match answer {
        Ok(addr) => known.insert(upstream, (addr, now)),
        Err(_) => known,
    }
}

/// What is known, and what `upstream` comes to, once it is resolved at `now`, where
/// `lookup` is what looking it up gives. A recent answer is reused, and no lookup
/// counts.
pub open spec fn resolved(
    known: Map<Seq<char>, (Seq<char>, u64)>,
    upstream: Seq<char>,
    lookup: Result<Seq<Seq<char>>, Seq<char>>,
    now: u64,
) -> (Map<Seq<char>, (Seq<char>, u64)>, Result<Seq<char>, Seq<char>>) {
    match recent(known, upstream, now) {
        Some(addr) => (known, Ok(addr)),
        None => {
            let answer = answer_in(upstream, lookup);
            (learned(known, upstream, answer, now), answer)
        },
    }
}

/// Resolving one upstream leaves what is known of the others, and a lookup that
/// fails leaves all of it.
pub proof fn resolving_touches_its_own_answer_only(
    known: Map<Seq<char>, (Seq<char>, u64)>,
    upstream: Seq<char>,
    lookup: Result<Seq<Seq<char>>, Seq<char>>,
    now: u64,
    other: Seq<char>,
)
    ensures
        ({
            let (after, answer) = resolved(known, upstream, lookup, now);
            &&& answer is Err ==> after == known
            &&& other != upstream ==> after.contains_key(other) == known.contains_key(other)
            &&& other != upstream && known.contains_key(other) ==> after[other] == known[other]
        }),
{
}

/// What a lookup came to: its first address, or why there is none.
pub fn resolution(upstream: &str, lookup: Result<Vec<String>, String>) -> (r: Result<
    String,
    String,
>)
    ensures
        answer_in(upstream@, lookup_view(lookup)) == (match r {
            Ok(addr) => Ok::<Seq<char>, Seq<char>>(addr@),
            Err(e) => Err::<Seq<char>, Seq<char>>(e@),
        }),
{
    match lookup {
        Ok(found) => {
            if found.len() > 0 {
                Ok(found[0].clone())
            } else {
                let mut m = "upstream ".to_owned();
                m.append(upstream);
                m.append(" resolved to no addresses");
                Err(m)
            }
        },
        Err(error) => {
            let mut m = "cannot resolve upstream ".to_owned();
            m.append(upstream);
            m.append(": ");
            m.append(error.as_str());
            Err(m)
        },
    }
}

// ---------------------------------------------------------------------------
// The gateway
// ---------------------------------------------------------------------------

/// A reverse proxy for one port.
#[derive(Debug)]
pub struct Gateway {
    port: u16,
    routes: Vec<Route>,
    resolved: Vec<Resolved>,
}

/// No route is faulty where the first faulty one is none.
proof fn lemma_no_fault(routes: Seq<RouteView>)
    requires
        first_fault(routes) is None,
    ensures
        forall|i: int| 0 <= i < routes.len() ==> route_fault(#[trigger] routes[i]) is None,
    decreases routes.len(),
{
    if routes.len() > 0 {
        lemma_no_fault(routes.skip(1));
        assert forall|i: int| 0 <= i < routes.len() implies route_fault(
            #[trigger] routes[i],
        ) is None by {
            if i > 0 {
                assert(routes[i] == routes.skip(1)[i - 1]);
            }
        }
    }
}

impl Gateway {
    /// The port that is served.
    pub closed spec fn served(self) -> u16 {
        self.port
    }

    /// The route table.
    pub closed spec fn table(self) -> Seq<RouteView> {
        route_rows(self.routes@)
    }

    /// The addresses that were resolved, and when.
    pub closed spec fn known(self) -> Map<Seq<char>, (Seq<char>, u64)> {
        answers(self.resolved@)
    }

    #[verifier::type_invariant]
    spec fn routes_are_valid(self) -> bool {
        forall|i: int|
            0 <= i < self.routes@.len() ==> route_fault(#[trigger] self.routes@[i]@) is None
    }

    /// A gateway for `port`, unless its route table could never serve.
    pub fn build(port: u16, routes: Vec<Route>) -> (r: Result<Self, Report>)
        ensures
            ({
                let fault = backend_fault(
                    BackendView::Http { routes: route_rows(routes@) },
                    port,
                );
                match r {
                    Ok(g) => {
                        &&& fault is None
                        &&& g.served() == port
                        &&& g.table() == route_rows(routes@)
                        &&& g.known() == Map::<Seq<char>, (Seq<char>, u64)>::empty()
                    },
                    Err(e) => fault == Some(e@.message) && e@.kind == ErrorKind::Invalid,
                }
            }),
    {
        let copy = copy_routes(&routes);
        match (BackendSpec::Http { routes: copy }).validate(port) {
            Ok(_) => {},
            Err(e) => {
                return Err(e);
            },
        }
        proof {
            lemma_no_fault(route_rows(routes@));
            assert forall|i: int| 0 <= i < routes@.len() implies route_fault(
                #[trigger] routes@[i]@,
            ) is None by {
                assert(route_rows(routes@)[i] == routes@[i]@);
            }
        }
        Ok(Gateway { port, routes, resolved: Vec::new() })
    }

    /// The first route that takes a request.
    pub fn pick(&self, host: Option<&str>, path: &str) -> (r: Option<usize>)
        ensures
            match r {
                Some(i) => first_match(self.table(), opt_str(host), path@, 0) == Some(i as int) && i
                    < self.table().len(),
                None => first_match(self.table(), opt_str(host), path@, 0) is None,
            },
    {
        let mut i: usize = 0;
        while i < self.routes.len()
            invariant
                i <= self.routes@.len(),
                self.table() == route_rows(self.routes@),
                first_match(self.table(), opt_str(host), path@, 0) == first_match(
                    self.table(),
                    opt_str(host),
                    path@,
                    i as int,
                ),
            decreases self.routes@.len() - i,
        {
            if self.routes[i].matches(host, path) {
                return Some(i);
            }
            i = i + 1;
        }
        None
    }

    /// The route that was picked.
    pub fn route(&self, ctx: &Ctx) -> (r: Option<&Route>)
        requires
            ctx.route matches Some(i) ==> i < self.table().len(),
        ensures
            match ctx.route {
                Some(i) => r matches Some(route) && route@ == self.table()[i as int]
                    && route_fault(route@) is None,
                None => r is None,
            },
    {
        proof {
            use_type_invariant(self);
        }
        match ctx.route {
            Some(i) => Some(&self.routes[i]),
            None => None,
        }
    }

    /// Nothing is picked for a request that just came.
    pub fn new_ctx(&self) -> (r: Ctx)
        ensures
            r.route is None,
    {
        Ctx { route: None }
    }

    /// Picks the route for a request with this Host header and path. A request
    /// that no route takes is answered with a clean 404.
    pub fn request_filter(&self, host: Option<&[u8]>, path: &str, ctx: &mut Ctx) -> (r: Verdict)
        ensures
            ({
                let said = match host {
                    Some(h) => header_text(h@),
                    None => None,
                };
                match first_match(self.table(), said, path@, 0) {
                    Some(i) => {
                        &&& r == Verdict::Forward
                        &&& i < self.table().len()
                        &&& final(ctx).route == Some(i as usize)
                        &&& (i as usize) as int == i
                    },
                    None => {
                        &&& r == Verdict::Respond(404)
                        &&& final(ctx).route == old(ctx).route
                    },
                }
            }),
    {
        let said: Option<String> = match host {
            Some(h) => read_header(h),
            None => None,
        };
        let name: Option<&str> = match &said {
            Some(t) => Some(t.as_str()),
            None => None,
        };
        match self.pick(name, path) {
            Some(index) => {
                ctx.route = Some(index);
                Verdict::Forward
            },
            None => Verdict::Respond(404),
        }
    }

    /// Where a request goes, once its route was picked.
    pub fn upstream_peer(&self, ctx: &Ctx) -> (r: Target)
        requires
            ctx.route matches Some(i) && i < self.table().len(),
        ensures
            r@ == target_of(self.table()[ctx.route->0 as int]),
    {
        proof {
            use_type_invariant(self);
        }
        let route: &Route = &self.routes[ctx.route.unwrap()];
        let sni = match &route.sni {
            Some(sni) => sni.clone(),
            None => route.upstream_host().to_owned(),
        };
        proof {
            assert(route@ == self.table()[ctx.route->0 as int]);
            assert(route_fault(route@) is None);
        }
        match &route.unix {
            Some(path) => Target::Unix { path: path.clone(), tls: route.tls, sni },
            None => Target::Tcp {
                upstream: route.upstream.as_ref().unwrap().clone(),
                tls: route.tls,
                sni,
            },
        }
    }

    /// What is to be changed in a request before it goes out: the path loses
    /// the prefix of its route if the route says so, and the Host header names
    /// the site rather than the tunnel. A target that would be no URI stays as
    /// it was. Nothing is changed where no route was picked.
    pub fn upstream_request_filter(&self, ctx: &Ctx, path: &str, query: Option<&str>) -> (r: Option<
        Edit,
    >)
        requires
            ctx.route matches Some(i) ==> i < self.table().len(),
        ensures
            match ctx.route {
                None => r is None,
                Some(i) => {
                    let route = self.table()[i as int];
                    &&& r matches Some(edit)
                    &&& edit.host@ == sent_host(route)
                    &&& match rewritten(route, path@, opt_str(query)) {
                        Some(target) => if uri_parses(target) {
                            edit.target matches Some(t) && t@ == target
                        } else {
                            edit.target is None
                        },
                        None => edit.target is None,
                    }
                },
            },
    {
        let route: &Route = match self.route(ctx) {
            Some(route) => route,
            None => {
                return None;
            },
        };
        let target = match rewrite(route, path, query) {
            Some(text) => {
                if parses_as_uri(text.as_str()) {
                    Some(text)
                } else {
                    None
                }
            },
            None => None,
        };
        let host = match &route.host_header {
            Some(h) => h.clone(),
            None => route.upstream_host().to_owned(),
        };
        Some(Edit { target, host })
    }

    /// The address for `upstream` that is recent enough to be reused.
    pub fn cached(&self, upstream: &str, now: u64) -> (r: Option<String>)
        ensures
            match r {
                Some(addr) => recent(self.known(), upstream@, now) == Some(addr@),
                None => recent(self.known(), upstream@, now) is None,
            },
    {
        let mut i: usize = self.resolved.len();
        proof {
            assert(self.resolved@.take(i as int) =~= self.resolved@);
        }
        while i > 0
            invariant
                i <= self.resolved@.len(),
                self.known().contains_key(upstream@) <==> answers(
                    self.resolved@.take(i as int),
                ).contains_key(upstream@),
                self.known().contains_key(upstream@) ==> self.known()[upstream@] == answers(
                    self.resolved@.take(i as int),
                )[upstream@],
            decreases i,
        {
            proof {
                assert(self.resolved@.take(i as int).drop_last() =~= self.resolved@.take(i - 1));
            }
            let row: &Resolved = &self.resolved[i - 1];
            if same(row.upstream.as_str(), upstream) {
                if now < row.at || now - row.at < DNS_TTL {
                    return Some(row.addr.clone());
                }
                return None;
            }
            i = i - 1;
        }
        None
    }

    /// Keeps an address that was just resolved, in the place of an older one.
    pub fn remember(&mut self, upstream: &str, addr: String, now: u64)
        ensures
            final(self).known() == old(self).known().insert(upstream@, (addr@, now)),
            final(self).table() == old(self).table(),
            final(self).served() == old(self).served(),
    {
        proof {
            use_type_invariant(&*self);
        }
        let kept = without(&self.resolved, upstream, addr, now);
        self.resolved = kept;
    }

    /// Takes what a lookup of `upstream` came to: the first address is kept, with its
    /// time, and a failure leaves what is known.
    pub fn answered(
        &mut self,
        upstream: &str,
        lookup: Result<Vec<String>, String>,
        now: u64,
    ) -> (r: Result<String, String>)
        ensures
            final(self).table() == old(self).table(),
            final(self).served() == old(self).served(),
            match r {
                Ok(addr) => {
                    &&& lookup matches Ok(found)
                    &&& found@.len() > 0
                    &&& addr@ == found@[0]@
                    &&& final(self).known() == old(self).known().insert(
                        upstream@,
                        (addr@, now),
                    )
                },
                Err(e) => {
                    &&& answer_in(upstream@, lookup_view(lookup)) == Err::<Seq<char>, Seq<char>>(
                        e@,
                    )
                    &&& final(self).known() == old(self).known()
                },
            },
    {
        match resolution(upstream, lookup) {
            Ok(addr) => {
                self.remember(upstream, addr.clone(), now);
                Ok(addr)
            },
            Err(e) => Err(e),
        }
    }

    /// Resolves `upstream` at `now`, where `lookup` is what looking it up gives: a
    /// recent answer is reused, and otherwise the lookup is taken and kept.
    pub fn resolve(
        &mut self,
        upstream: &str,
        lookup: Result<Vec<String>, String>,
        now: u64,
    ) -> (r: Result<String, String>)
        ensures
            final(self).table() == old(self).table(),
            final(self).served() == old(self).served(),
            resolved(old(self).known(), upstream@, lookup_view(lookup), now) == (
                final(self).known(),
                (match r {
                    Ok(addr) => Ok::<Seq<char>, Seq<char>>(addr@),
                    Err(e) => Err::<Seq<char>, Seq<char>>(e@),
                }),
            ),
    {
        match self.cached(upstream, now) {
            Some(addr) => Ok(addr),
            None => self.answered(upstream, lookup, now),
        }
    }
}

/// `rows` with the answer for `upstream` replaced.
fn without(rows: &Vec<Resolved>, upstream: &str, addr: String, now: u64) -> (r: Vec<Resolved>)
    ensures
        answers(r@) == answers(rows@).insert(upstream@, (addr@, now)),
{
    let mut kept: Vec<Resolved> = Vec::new();
    let mut i: usize = 0;
    proof {
        assert(answers(kept@) =~= answers(rows@.take(0)).remove(upstream@));
    }
    while i < rows.len()
        invariant
            i <= rows@.len(),
            answers(kept@) == answers(rows@.take(i as int)).remove(upstream@),
        decreases rows@.len() - i,
    {
        proof {
            assert(rows@.take(i + 1).drop_last() =~= rows@.take(i as int));
        }
        let row: &Resolved = &rows[i];
        if !same(row.upstream.as_str(), upstream) {
            let ghost before = kept@;
            kept.push(
                Resolved {
                    upstream: row.upstream.clone(),
                    addr: row.addr.clone(),
                    at: row.at,
                },
            );
            proof {
                assert(kept@.drop_last() =~= before);
                assert(answers(kept@) =~= answers(rows@.take(i + 1)).remove(upstream@));
            }
        } else {
            proof {
                assert(answers(kept@) =~= answers(rows@.take(i + 1)).remove(upstream@));
            }
        }
        i = i + 1;
    }
    let ghost before = kept@;
    kept.push(Resolved { upstream: upstream.to_owned(), addr, at: now });
    proof {
        assert(kept@.drop_last() =~= before);
        assert(rows@.take(rows@.len() as int) =~= rows@);
        assert(answers(kept@) =~= answers(rows@).insert(upstream@, (addr@, now)));
    }
    kept
}

/// What `route` makes of a request target, if it is to be rewritten.
pub fn rewrite(route: &Route, path: &str, query: Option<&str>) -> (r: Option<String>)
    ensures
        match r {
            Some(t) => rewritten(route@, path@, opt_str(query)) == Some(t@),
            None => rewritten(route@, path@, opt_str(query)) is None,
        },
{
    if !route.strip_prefix {
        return None;
    }
    let prefix: &String = match &route.prefix {
        Some(prefix) => prefix,
        None => {
            return None;
        },
    };
    let v = chars_of(path);
    let skip: usize = if starts_with(path, prefix.as_str()) {
        prefix.as_str().unicode_len()
    } else {
        0
    };
    let mut out = String::new();
    if skip >= v.len() || v[skip] != '/' {
        out.append("/");
    }
    let rest = text_of(&v, skip, v.len());
    out.append(rest.as_str());
    proof {
        assert(v@.skip(0) =~= v@);
        assert(rest@ =~= v@.skip(skip as int));
        assert(out@ =~= stripped(path@, prefix@));
    }
    match query {
        Some(q) => {
            out.append("?");
            out.append(q);
        },
        None => {},
    }
    Some(out)
}

// ---------------------------------------------------------------------------
// What can be relied on
// ---------------------------------------------------------------------------

/// A header reads as text exactly where each of its bytes is visible, and then says what
/// its bytes say, one character each.
pub proof fn a_header_says_what_its_bytes_say(value: Seq<u8>)
    ensures
        header_text(value) is Some <==> forall|i: int|
            0 <= i < value.len() ==> (32 <= #[trigger] value[i] < 127 || value[i] == 9),
        header_text(value) matches Some(t) ==> t.len() == value.len() && forall|i: int|
            0 <= i < value.len() ==> #[trigger] t[i] == value[i] as char,
{
    if header_text(value) is Some {
        assert forall|i: int| 0 <= i < value.len() implies (32 <= #[trigger] value[i] < 127
            || value[i] == 9) by {
            assert(visible(value[i]));
        }
    }
    if forall|i: int|
        0 <= i < value.len() ==> (32 <= #[trigger] value[i] < 127 || value[i] == 9) {
        assert forall|i: int| 0 <= i < value.len() implies visible(#[trigger] value[i]) by {
            assert(32 <= value[i] < 127 || value[i] == 9);
        }
    }
}

/// A request goes to the one place that its route names: to the socket if it names one,
/// and otherwise to the upstream. TLS is spoken where the route says so, and the SNI is
/// the one that the route gives, or else the name its upstream is known by.
pub proof fn a_request_goes_to_the_place_its_route_names(r: RouteView)
    requires
        route_fault(r) is None,
    ensures
        r.unix matches Some(p) ==> (target_of(r) matches TargetView::Unix { path, tls, sni } && path
            == p && tls == r.tls && (r.sni is Some ==> sni == r.sni->0)),
        r.upstream matches Some(u) ==> (target_of(r) matches TargetView::Tcp { upstream, tls, sni }
            && upstream == u && tls == r.tls && (r.sni is Some ==> sni == r.sni->0)),
        r.sni is None && r.unix is None ==> target_of(r)->Tcp_sni == host_of(r),
        r.sni is None && r.unix is Some ==> target_of(r)->Unix_sni == "localhost"@,
{
}

/// The Host header that goes out is the one that the route gives, or else the name that
/// its upstream is known by; what the client sent has no part in it.
pub proof fn the_host_header_names_the_site(r: RouteView, name: Seq<char>, port: Seq<char>)
    requires
        !port.contains(':'),
        !port.contains(']'),
    ensures
        r.host_header matches Some(h) ==> sent_host(r) == h,
        r.host_header is None && r.upstream == Some(name + seq![':'] + port) ==> sent_host(r)
            == name,
        r.host_header is None && r.upstream is None && r.sni is Some ==> sent_host(r) == r.sni->0,
        r.host_header is None && r.upstream is None && r.sni is None ==> sent_host(r)
            == "localhost"@,
{
    an_upstream_is_known_without_its_port(r, name, port);
}

/// What a request target becomes of a path and a query that are to be sent.
pub open spec fn sent_as(path: Seq<char>, query: Option<Seq<char>>) -> Seq<char> {
    match query {
        Some(q) => path.push('?') + q,
        None => path,
    }
}

/// Stripping takes the prefix off and nothing else: of a path that is the prefix and a
/// rest, the whole rest goes on, after a slash if it has none, and the query with it. A
/// path that does not begin with the prefix goes on whole.
pub proof fn stripping_keeps_all_of_the_rest(
    r: RouteView,
    prefix: Seq<char>,
    rest: Seq<char>,
    query: Option<Seq<char>>,
)
    requires
        r.strip_prefix,
        r.prefix == Some(prefix),
    ensures
        rest.len() > 0 && rest[0] == '/' ==> rewritten(r, prefix + rest, query) == Some(
            sent_as(rest, query),
        ),
        !(rest.len() > 0 && rest[0] == '/') ==> rewritten(r, prefix + rest, query) == Some(
            sent_as(seq!['/'] + rest, query),
        ),
        !(prefix.len() <= rest.len() && rest.take(prefix.len() as int) == prefix) && rest.len() > 0
            && rest[0] == '/' ==> rewritten(r, rest, query) == Some(sent_as(rest, query)),
        !(prefix.len() <= rest.len() && rest.take(prefix.len() as int) == prefix) && !(rest.len()
            > 0 && rest[0] == '/') ==> rewritten(r, rest, query) == Some(
            sent_as(seq!['/'] + rest, query),
        ),
{
    reveal_strlit("/");
    reveal_strlit("?");
    let path = prefix + rest;
    assert(path.subrange(0, prefix.len() as int) =~= prefix);
    assert(prefix.is_prefix_of(path));
    assert(path.skip(prefix.len() as int) =~= rest);
    assert("/"@ =~= seq!['/']);
    assert("?"@ =~= seq!['?']);
    if prefix.len() <= rest.len() {
        assert(rest.take(prefix.len() as int) =~= rest.subrange(0, prefix.len() as int));
    }
    if let Some(q) = query {
        assert(rest + "?"@ + q =~= rest.push('?') + q);
        assert("/"@ + rest + "?"@ + q =~= (seq!['/'] + rest).push('?') + q);
    }
}

/// A route that strips nothing rewrites nothing.
pub proof fn a_route_that_strips_nothing_rewrites_nothing(
    r: RouteView,
    path: Seq<char>,
    query: Option<Seq<char>>,
)
    ensures
        !r.strip_prefix || r.prefix is None ==> rewritten(r, path, query) is None,
        r.strip_prefix && r.prefix is Some ==> rewritten(r, path, query) is Some,
{
}

/// An answer is reused only if it was given for that very upstream, and one that seems to
/// come from later counts as just given.
pub proof fn only_an_answer_for_it_is_reused(
    known: Map<Seq<char>, (Seq<char>, u64)>,
    upstream: Seq<char>,
    other: Seq<char>,
    addr: Seq<char>,
    at: u64,
    now: u64,
)
    ensures
        !known.contains_key(upstream) ==> recent(known, upstream, now) is None,
        other != upstream ==> recent(known.insert(other, (addr, at)), upstream, now) == recent(
            known,
            upstream,
            now,
        ),
        now < at ==> recent(known.insert(upstream, (addr, at)), upstream, now) == Some(addr),
{
}

/// A lookup comes to the first address that it found, whatever else it found, and to a
/// failure where it found none.
pub proof fn a_lookup_comes_to_its_first_address(
    upstream: Seq<char>,
    first: Seq<char>,
    others: Seq<Seq<char>>,
    why: Seq<char>,
)
    ensures
        answer_in(upstream, Ok(seq![first] + others)) == Ok::<Seq<char>, Seq<char>>(first),
        answer_in(upstream, Ok(Seq::empty())) is Err,
        answer_in(upstream, Err(why)) matches Err(said) && holds(said, why) && holds(said, upstream),
{
    let said = unresolved(upstream, Some(why));
    assert(said =~= ("cannot resolve upstream "@ + upstream + ": "@) + why + Seq::<char>::empty());
    assert(said =~= "cannot resolve upstream "@ + upstream + (": "@ + why));
}

/// What is resolved at one time is what comes back until five seconds later, whatever a
/// lookup would give by now.
pub proof fn what_was_resolved_comes_back(
    known: Map<Seq<char>, (Seq<char>, u64)>,
    upstream: Seq<char>,
    first: Seq<char>,
    others: Seq<Seq<char>>,
    at: u64,
    now: u64,
    later: Result<Seq<Seq<char>>, Seq<char>>,
)
    requires
        recent(known, upstream, at) is None,
        at <= now < at + 5_000_000_000,
    ensures
        ({
            let (after, answer) = resolved(known, upstream, Ok(seq![first] + others), at);
            &&& answer == Ok::<Seq<char>, Seq<char>>(first)
            &&& resolved(after, upstream, later, now) == (
                after,
                Ok::<Seq<char>, Seq<char>>(first),
            )
        }),
{
}

/// What a target holds is what it was made of.
pub proof fn a_target_holds_what_it_was_made_of(place: String, tls: bool, sni: String)
    ensures
        (Target::Unix { path: place, tls, sni })@ == (TargetView::Unix {
            path: place@,
            tls,
            sni: sni@,
        }),
        (Target::Tcp { upstream: place, tls, sni })@ == (TargetView::Tcp {
            upstream: place@,
            tls,
            sni: sni@,
        }),
{
}

/// What a lookup found is held one for one, and so is why it failed.
pub proof fn a_lookup_holds_what_it_found(found: Vec<String>, why: String)
    ensures
        lookup_view(Ok(found)) matches Ok(list) && list.len() == found@.len() && forall|i: int|
            0 <= i < found@.len() ==> #[trigger] list[i] == found@[i]@,
        lookup_view(Err(why)) == Err::<Seq<Seq<char>>, Seq<char>>(why@),
{
}

}
