//! Requests: what the daemon does for the command line.

use crate::daemon::{Daemon, DaemonView};
use crate::grants::{
    a_grant_adds_the_named, a_revoke_leaves_the_others, exposes, granted, opt_key, revoked,
};
use crate::keys::{
    all_parsed, canonical, endpoint_id_of, key_rows, keys_are_read_one_for_one, parse_key,
    parse_keys, parsed, PeerKey,
};
use crate::protocol::{
    refusal, ErrorKind, FailureView, Report, Request, RequestView, Response, ResponseView,
};
use crate::service::{
    backend_fault, backend_text, opt_backend, serving, serving_text, what_was_declared_serves,
    BackendSpec, BackendView,
};
use crate::state::{State, StateView};
use crate::text::{decimal, push_decimal, texts};
use vstd::prelude::*;

verus! {

// ---------------------------------------------------------------------------
// Requests
// ---------------------------------------------------------------------------

/// A request that was found to be in order: every key was read, every grantee is
/// known, and what is declared could serve.
#[derive(Debug)]
#[allow(inconsistent_fields)]
pub enum Order {
    Connect { ticket: String, id: PeerKey, dry_run: bool },
    Disconnect { ticket: String, id: PeerKey, dry_run: bool },
    Expose { port: u16, to: Vec<PeerKey>, backend: Option<BackendSpec>, dry_run: bool },
    Unexpose { port: u16, to: Option<PeerKey>, dry_run: bool },
    Bind { port: u16, local: Option<u16>, dry_run: bool },
    Pin { key: String, id: PeerKey, label: String, dry_run: bool },
    Show,
    Ticket,
    Mint { label: String },
}

/// What an [`Order`] holds.
#[verifier::ext_equal]
#[allow(inconsistent_fields)]
pub enum OrderView {
    Connect { ticket: Seq<char>, id: Seq<char>, dry_run: bool },
    Disconnect { ticket: Seq<char>, id: Seq<char>, dry_run: bool },
    Expose { port: u16, to: Seq<Seq<char>>, backend: Option<BackendView>, dry_run: bool },
    Unexpose { port: u16, to: Option<Seq<char>>, dry_run: bool },
    Bind { port: u16, local: Option<u16>, dry_run: bool },
    Pin { key: Seq<char>, id: Seq<char>, label: Seq<char>, dry_run: bool },
    Show,
    Ticket,
    Mint { label: Seq<char> },
}

impl View for Order {
    type V = OrderView;

    open spec fn view(&self) -> OrderView {
        match *self {
            Order::Connect { ticket, id, dry_run } => OrderView::Connect {
                ticket: ticket@,
                id: id@,
                dry_run,
            },
            Order::Disconnect { ticket, id, dry_run } => OrderView::Disconnect {
                ticket: ticket@,
                id: id@,
                dry_run,
            },
            Order::Expose { port, to, backend, dry_run } => OrderView::Expose {
                port,
                to: key_rows(to@),
                backend: opt_backend(backend),
                dry_run,
            },
            Order::Unexpose { port, to, dry_run } => OrderView::Unexpose {
                port,
                to: opt_key(to),
                dry_run,
            },
            Order::Bind { port, local, dry_run } => OrderView::Bind { port, local, dry_run },
            Order::Pin { key, id, label, dry_run } => OrderView::Pin {
                key: key@,
                id: id@,
                label: label@,
                dry_run,
            },
            Order::Show => OrderView::Show,
            Order::Ticket => OrderView::Ticket,
            Order::Mint { label } => OrderView::Mint { label: label@ },
        }
    }
}

impl OrderView {
    /// Whether what is declared could serve.
    pub open spec fn servable(self) -> bool {
        match self {
            OrderView::Expose { port, backend: Some(b), .. } => backend_fault(b, port) is None,
            _ => true,
        }
    }
}

/// The refusal to grant a port to no one.
pub open spec fn no_peers() -> FailureView {
    FailureView { kind: ErrorKind::Invalid, message: "no peers to grant to; use --to <key>"@ }
}

/// Whom an expose grants to: those it names, or else every peer that is `known`.
pub open spec fn grantees(to: Seq<Seq<char>>, known: Seq<Seq<char>>) -> Result<
    Seq<Seq<char>>,
    FailureView,
> {
    if to.len() > 0 {
        all_parsed(to)
    } else if known.len() > 0 {
        Ok(known)
    } else {
        Err(no_peers())
    }
}

/// What a request comes to, or how it is refused.
pub open spec fn resolved(request: RequestView, known: Seq<Seq<char>>) -> Result<
    OrderView,
    FailureView,
> {
    match request {
        RequestView::AddPeer { ticket, dry_run } => match parsed(ticket) {
            Ok(id) => Ok(OrderView::Connect { ticket, id, dry_run }),
            Err(f) => Err(f),
        },
        RequestView::RemovePeer { ticket, dry_run } => match parsed(ticket) {
            Ok(id) => Ok(OrderView::Disconnect { ticket, id, dry_run }),
            Err(f) => Err(f),
        },
        RequestView::Expose { port, to, backend, dry_run } => match grantees(to, known) {
            Ok(keys) => match backend {
                Some(b) => match backend_fault(b, port) {
                    Some(fault) => Err(
                        FailureView { kind: ErrorKind::Invalid, message: fault },
                    ),
                    None => Ok(OrderView::Expose { port, to: keys, backend, dry_run }),
                },
                None => Ok(OrderView::Expose { port, to: keys, backend, dry_run }),
            },
            Err(f) => Err(f),
        },
        RequestView::Unexpose { port, to, dry_run } => match to {
            Some(text) => match parsed(text) {
                Ok(id) => Ok(OrderView::Unexpose { port, to: Some(id), dry_run }),
                Err(f) => Err(f),
            },
            None => Ok(OrderView::Unexpose { port, to: None, dry_run }),
        },
        RequestView::Bind { port, local, dry_run } => Ok(
            OrderView::Bind { port, local, dry_run },
        ),
        RequestView::Pin { key, label, dry_run } => match parsed(key) {
            Ok(id) => Ok(OrderView::Pin { key, id, label, dry_run }),
            Err(f) => Err(f),
        },
        RequestView::List | RequestView::ListPeers | RequestView::ListPorts => Ok(OrderView::Show),
        RequestView::Ticket => Ok(OrderView::Ticket),
        RequestView::GrantToken { label } => Ok(OrderView::Mint { label }),
    }
}

/// What other parts are to be told of a change.
#[derive(Debug, Clone, Copy, PartialEq, Eq, Structural)]
pub enum Effect {
    /// Nothing.
    Nothing,
    /// Every peer is to be told anew which ports are granted to it.
    Announce,
    /// A peer's port is to land elsewhere: its listener is torn down and built
    /// anew.
    Rebind { port: u16, local: Option<u16> },
}

/// What is to be done next for a request.
#[derive(Debug)]
#[allow(inconsistent_fields)]
pub enum Step {
    /// Reply with this.
    Reply(Response),
    /// Connect to a peer, and go on with `connected`.
    Connect { ticket: String },
    /// Disconnect from a peer and drop its pin, and go on with
    /// `Daemon::disconnected`.
    Disconnect { ticket: String, id: PeerKey },
    /// Pin a key, and go on with `pinned`.
    Pin { key: String, label: String },
    /// Mint a token, and reply with it.
    Mint { label: String },
    /// Find out about peers and local ports, and reply with `Daemon::list`.
    Show,
    /// Do what follows from a change, write `state` down, and go on with
    /// `committed`.
    Commit { state: State, effect: Effect, detail: String },
}

/// What a [`Step`] holds.
#[verifier::ext_equal]
#[allow(inconsistent_fields)]
pub enum StepView {
    Reply(ResponseView),
    Connect { ticket: Seq<char> },
    Disconnect { ticket: Seq<char>, id: Seq<char> },
    Pin { key: Seq<char>, label: Seq<char> },
    Mint { label: Seq<char> },
    Show,
    Commit { state: StateView, effect: Effect, detail: Seq<char> },
}

impl View for Step {
    type V = StepView;

    open spec fn view(&self) -> StepView {
        match *self {
            Step::Reply(r) => StepView::Reply(r@),
            Step::Connect { ticket } => StepView::Connect { ticket: ticket@ },
            Step::Disconnect { ticket, id } => StepView::Disconnect { ticket: ticket@, id: id@ },
            Step::Pin { key, label } => StepView::Pin { key: key@, label: label@ },
            Step::Mint { label } => StepView::Mint { label: label@ },
            Step::Show => StepView::Show,
            Step::Commit { state, effect, detail } => StepView::Commit {
                state: state@,
                effect,
                detail: detail@,
            },
        }
    }
}

/// What an expose says it does.
pub open spec fn expose_detail(port: u16, count: nat, served: Seq<char>) -> Seq<char> {
    "expose "@ + decimal(port as nat) + " to "@ + decimal(count) + " peer(s), served by "@ + served
}

/// What a revoke says it does.
pub open spec fn unexpose_detail(port: u16, key: Option<Seq<char>>) -> Seq<char> {
    match key {
        Some(k) => "revoke "@ + decimal(port as nat) + " from "@ + k,
        None => "revoke every grant for "@ + decimal(port as nat),
    }
}

/// What a remap says it does.
pub open spec fn bind_detail(port: u16, local: Option<u16>) -> Seq<char> {
    let on = "bind peer port "@ + decimal(port as nat) + " on "@;
    match local {
        Some(l) => if l == 0 {
            on + "a free local port"@
        } else {
            on + "local port "@ + decimal(l as nat)
        },
        None => on + decimal(port as nat) + " again"@,
    }
}

/// What a pin says it does.
pub open spec fn pin_detail(verb: Seq<char>, key: Seq<char>, label: Seq<char>) -> Seq<char> {
    verb + key + " as \""@ + label + "\""@
}

/// What serves a port once it is exposed with `backend`.
pub open spec fn served_by(d: DaemonView, port: u16, backend: Option<BackendView>) -> Seq<char> {
    match backend {
        Some(b) => backend_text(b),
        None => serving_text(d.live.services, d.host, port),
    }
}

/// The reply to something that was, or would be, done.
pub open spec fn done(dry_run: bool, detail: Seq<char>) -> StepView {
    StepView::Reply(ResponseView::Done { dry_run, detail })
}

/// What becomes of the daemon `d`, and what is to be done next, for an order. A
/// dry run stops just short of the change.
pub open spec fn carried(d: DaemonView, order: OrderView) -> (DaemonView, StepView) {
    match order {
        OrderView::Connect { ticket, id, dry_run } => if dry_run {
            (d, done(true, "connect to peer "@ + id))
        } else {
            (d, StepView::Connect { ticket })
        },
        OrderView::Disconnect { ticket, id, dry_run } => if dry_run {
            (d, done(true, "disconnect from peer "@ + id))
        } else {
            (d, StepView::Disconnect { ticket, id })
        },
        OrderView::Expose { port, to, backend, dry_run } => {
            let detail = expose_detail(port, to.len(), served_by(d, port, backend));
            if dry_run {
                (d, done(true, detail))
            } else {
                changed(d.exposed(port, to, backend), Effect::Announce, detail)
            }
        },
        OrderView::Unexpose { port, to, dry_run } => {
            let detail = unexpose_detail(port, to);
            if dry_run {
                (d, done(true, detail))
            } else {
                changed(d.unexposed(port, to), Effect::Announce, detail)
            }
        },
        OrderView::Bind { port, local, dry_run } => {
            let detail = bind_detail(port, local);
            if dry_run {
                (d, done(true, detail))
            } else {
                changed(d.bound(port, local), Effect::Rebind { port, local }, detail)
            }
        },
        OrderView::Pin { key, id, label, dry_run } => if dry_run {
            (d, done(true, pin_detail("pin "@, id, label)))
        } else {
            (d, StepView::Pin { key, label })
        },
        OrderView::Show => (d, StepView::Show),
        OrderView::Ticket => (d, StepView::Reply(ResponseView::Ticket(d.me))),
        OrderView::Mint { label } => (d, StepView::Mint { label }),
    }
}

/// A change, which is to be written down.
pub open spec fn changed(d: DaemonView, effect: Effect, detail: Seq<char>) -> (
    DaemonView,
    StepView,
) {
    (d, StepView::Commit { state: d.told.written(), effect, detail })
}

/// What becomes of the daemon `d`, and what is to be done next, for a request.
pub open spec fn handled(d: DaemonView, request: RequestView, known: Seq<Seq<char>>) -> (
    DaemonView,
    StepView,
) {
    match resolved(request, known) {
        Ok(order) => carried(d, order),
        Err(f) => (d, StepView::Reply(refusal(f))),
    }
}

/// Holds a request against what it needs: keys that can be read, someone to
/// grant to, and a backend that could serve. Grantees come before the backend: a
/// typo in `--to` must not leave a backend declared for a port nobody can reach.
pub fn resolve(request: Request, known: &Vec<PeerKey>) -> (r: Result<Order, Report>)
    ensures
        match r {
            Ok(order) => {
                &&& resolved(request@, key_rows(known@)) == Ok::<OrderView, FailureView>(order@)
                &&& order@.servable()
            },
            Err(e) => resolved(request@, key_rows(known@)) == Err::<OrderView, FailureView>(e@),
        },
{
    match request {
        Request::AddPeer { ticket, dry_run } => match parse_key(ticket.as_str()) {
            Ok(id) => Ok(Order::Connect { ticket, id, dry_run }),
            Err(e) => Err(e),
        },
        Request::RemovePeer { ticket, dry_run } => match parse_key(ticket.as_str()) {
            Ok(id) => Ok(Order::Disconnect { ticket, id, dry_run }),
            Err(e) => Err(e),
        },
        Request::Expose { port, to, backend, dry_run } => {
            let keys = match name_grantees(&to, known) {
                Ok(keys) => keys,
                Err(e) => {
                    return Err(e);
                },
            };
            match &backend {
                Some(spec) => match spec.validate(port) {
                    Ok(_) => {},
                    Err(e) => {
                        return Err(e);
                    },
                },
                None => {},
            }
            Ok(Order::Expose { port, to: keys, backend, dry_run })
        },
        Request::Unexpose { port, to, dry_run } => match to {
            Some(text) => match parse_key(text.as_str()) {
                Ok(id) => Ok(Order::Unexpose { port, to: Some(id), dry_run }),
                Err(e) => Err(e),
            },
            None => Ok(Order::Unexpose { port, to: None, dry_run }),
        },
        Request::Bind { port, local, dry_run } => Ok(Order::Bind { port, local, dry_run }),
        Request::Pin { key, label, dry_run } => match parse_key(key.as_str()) {
            Ok(id) => Ok(Order::Pin { key, id, label, dry_run }),
            Err(e) => Err(e),
        },
        Request::List => Ok(Order::Show),
        Request::ListPeers => Ok(Order::Show),
        Request::ListPorts => Ok(Order::Show),
        Request::Ticket => Ok(Order::Ticket),
        Request::GrantToken { label } => Ok(Order::Mint { label }),
    }
}

/// Whom an expose grants to.
fn name_grantees(to: &Vec<String>, known: &Vec<PeerKey>) -> (r: Result<Vec<PeerKey>, Report>)
    ensures
        match r {
            Ok(keys) => grantees(texts(to@), key_rows(known@)) == Ok::<
                Seq<Seq<char>>,
                FailureView,
            >(key_rows(keys@)),
            Err(e) => grantees(texts(to@), key_rows(known@)) == Err::<Seq<Seq<char>>, FailureView>(
                e@,
            ),
        },
{
    if to.len() > 0 {
        return parse_keys(to);
    }
    if known.len() == 0 {
        return Err(
            Report::failure(ErrorKind::Invalid, "no peers to grant to; use --to <key>".to_owned()),
        );
    }
    let mut keys: Vec<PeerKey> = Vec::new();
    let mut i: usize = 0;
    while i < known.len()
        invariant
            i <= known@.len(),
            key_rows(keys@) =~= key_rows(known@).take(i as int),
        decreases known@.len() - i,
    {
        let ghost before = keys@;
        keys.push(known[i].clone());
        proof {
            assert(key_rows(keys@) =~= key_rows(before).push(known@[i as int]@));
        }
        i = i + 1;
    }
    proof {
        assert(key_rows(known@).take(known@.len() as int) =~= key_rows(known@));
    }
    Ok(keys)
}

impl Daemon {
    /// Handles a request from the command line, where `known` are the peers this
    /// daemon knows.
    ///
    /// Every request is validated fully before anything is changed, so a dry run
    /// reaches the verdict the real run would.
    pub fn handle_request(&mut self, request: Request, known: &Vec<PeerKey>) -> (r: Step)
        requires
            old(self)@.consistent(),
        ensures
            (final(self)@, r@) == handled(old(self)@, request@, key_rows(known@)),
            final(self)@.consistent(),
            r@ matches StepView::Reply(ResponseView::Ticket(ticket)) ==> canonical(ticket),
    {
        match resolve(request, known) {
            Ok(order) => self.carry_out(order),
            Err(e) => Step::Reply(Response::error(e)),
        }
    }

    /// Carries out an order that was found to be in order.
    pub fn carry_out(&mut self, order: Order) -> (r: Step)
        requires
            old(self)@.consistent(),
            order@.servable(),
        ensures
            (final(self)@, r@) == carried(old(self)@, order@),
            final(self)@.consistent(),
            r@ matches StepView::Reply(ResponseView::Ticket(ticket)) ==> canonical(ticket),
    {
        match order {
            Order::Connect { ticket, id, dry_run } => {
                if dry_run {
                    let mut detail = "connect to peer ".to_owned();
                    detail.append(id.text().as_str());
                    return Step::Reply(Response::done(true, detail));
                }
                Step::Connect { ticket }
            },
            Order::Disconnect { ticket, id, dry_run } => {
                if dry_run {
                    let mut detail = "disconnect from peer ".to_owned();
                    detail.append(id.text().as_str());
                    return Step::Reply(Response::done(true, detail));
                }
                Step::Disconnect { ticket, id }
            },
            Order::Expose { port, to, backend, dry_run } => {
                let served = match &backend {
                    Some(spec) => spec.describe(),
                    None => self.describe(port),
                };
                let mut detail = "expose ".to_owned();
                push_decimal(&mut detail, port as u64);
                detail.append(" to ");
                push_decimal(&mut detail, to.len() as u64);
                detail.append(" peer(s), served by ");
                detail.append(served.as_str());
                if dry_run {
                    return Step::Reply(Response::done(true, detail));
                }
                self.expose(port, &to, backend);
                Step::Commit { state: self.snapshot(), effect: Effect::Announce, detail }
            },
            Order::Unexpose { port, to, dry_run } => {
                let mut detail = String::new();
                match &to {
                    Some(key) => {
                        detail.append("revoke ");
                        push_decimal(&mut detail, port as u64);
                        detail.append(" from ");
                        detail.append(key.text().as_str());
                    },
                    None => {
                        detail.append("revoke every grant for ");
                        push_decimal(&mut detail, port as u64);
                    },
                }
                proof {
                    assert(detail@ =~= unexpose_detail(port, opt_key(to)));
                }
                if dry_run {
                    return Step::Reply(Response::done(true, detail));
                }
                self.unexpose(port, &to);
                Step::Commit { state: self.snapshot(), effect: Effect::Announce, detail }
            },
            Order::Bind { port, local, dry_run } => {
                let mut detail = "bind peer port ".to_owned();
                push_decimal(&mut detail, port as u64);
                detail.append(" on ");
                match local {
                    Some(l) => {
                        if l == 0 {
                            detail.append("a free local port");
                        } else {
                            detail.append("local port ");
                            push_decimal(&mut detail, l as u64);
                        }
                    },
                    None => {
                        push_decimal(&mut detail, port as u64);
                        detail.append(" again");
                    },
                }
                if dry_run {
                    return Step::Reply(Response::done(true, detail));
                }
                self.set_bind(port, local);
                Step::Commit {
                    state: self.snapshot(),
                    effect: Effect::Rebind { port, local },
                    detail,
                }
            },
            Order::Pin { key, id, label, dry_run } => {
                if dry_run {
                    let detail = pin_text("pin ", id.text().as_str(), label.as_str());
                    return Step::Reply(Response::done(true, detail));
                }
                Step::Pin { key, label }
            },
            Order::Show => Step::Show,
            Order::Ticket => Step::Reply(Response::Ticket(self.ticket())),
            Order::Mint { label } => Step::Mint { label },
        }
    }

    /// Goes on once a peer was disconnected, or could not be. What was granted to
    /// it is revoked, and what is written down follows, or a restart would hand
    /// it back.
    pub fn disconnected(
        &mut self,
        ticket: &str,
        id: &PeerKey,
        outcome: Result<(), Report>,
    ) -> (r: Step)
        requires
            old(self)@.consistent(),
        ensures
            final(self)@.consistent(),
            match outcome {
                Ok(_) => (final(self)@, r@) == changed(
                    old(self)@.dropped(id@),
                    Effect::Nothing,
                    "removed peer "@ + ticket@,
                ),
                Err(e) => (final(self)@, r@) == (old(self)@, StepView::Reply(refusal(e@))),
            },
    {
        match outcome {
            Ok(_) => {
                self.drop_peer(id);
                let mut detail = "removed peer ".to_owned();
                detail.append(ticket);
                Step::Commit { state: self.snapshot(), effect: Effect::Nothing, detail }
            },
            Err(e) => Step::Reply(Response::error(e)),
        }
    }
}

fn pin_text(verb: &str, key: &str, label: &str) -> (r: String)
    ensures
        r@ == pin_detail(verb@, key@, label@),
{
    let mut out = verb.to_owned();
    out.append(key);
    out.append(" as \"");
    out.append(label);
    out.append("\"");
    out
}

/// The reply once a peer was connected to, or could not be.
pub fn connected(ticket: &str, outcome: Result<(), Report>) -> (r: Response)
    ensures
        match outcome {
            Ok(_) => r@ == (ResponseView::Done {
                dry_run: false,
                detail: "connected to peer "@ + ticket@,
            }),
            Err(e) => r@ == refusal(e@),
        },
{
    match outcome {
        Ok(_) => {
            let mut detail = "connected to peer ".to_owned();
            detail.append(ticket);
            Response::done(false, detail)
        },
        Err(e) => Response::error(e),
    }
}

/// The reply once a key was pinned, or could not be.
pub fn pinned(key: &str, label: &str, outcome: Result<(), Report>) -> (r: Response)
    ensures
        match outcome {
            Ok(_) => r@ == (ResponseView::Done {
                dry_run: false,
                detail: pin_detail("pinned "@, key@, label@),
            }),
            Err(e) => r@ == refusal(e@),
        },
{
    match outcome {
        Ok(_) => Response::done(false, pin_text("pinned ", key, label)),
        Err(e) => Response::error(e),
    }
}

/// The reply once a change was written down, or could not be. The change did
/// take effect, but reporting success for something that will vanish at the next
/// restart would be wrong.
pub fn committed(detail: String, outcome: Result<(), Report>) -> (r: Response)
    ensures
        match outcome {
            Ok(_) => r@ == (ResponseView::Done { dry_run: false, detail: detail@ }),
            Err(e) => r@ == refusal(e@),
        },
{
    match outcome {
        Ok(_) => Response::done(false, detail),
        Err(e) => Response::error(e),
    }
}

// ---------------------------------------------------------------------------
// What can be relied on
// ---------------------------------------------------------------------------

/// The same request, as a dry run or as a real one.
pub open spec fn as_dry(request: RequestView, dry_run: bool) -> RequestView {
    match request {
        RequestView::AddPeer { ticket, .. } => RequestView::AddPeer { ticket, dry_run },
        RequestView::RemovePeer { ticket, .. } => RequestView::RemovePeer { ticket, dry_run },
        RequestView::Expose { port, to, backend, .. } => RequestView::Expose {
            port,
            to,
            backend,
            dry_run,
        },
        RequestView::Unexpose { port, to, .. } => RequestView::Unexpose { port, to, dry_run },
        RequestView::Bind { port, local, .. } => RequestView::Bind { port, local, dry_run },
        RequestView::Pin { key, label, .. } => RequestView::Pin { key, label, dry_run },
        other => other,
    }
}

/// A dry run changes nothing and decides as the real run does: it is refused in
/// the same words where the real one is, says that it would have been done where
/// the real one goes ahead, and says what the real one says of a change.
pub proof fn a_dry_run_changes_nothing_and_decides_alike(
    d: DaemonView,
    request: RequestView,
    known: Seq<Seq<char>>,
)
    ensures
        ({
            let dry = handled(d, as_dry(request, true), known);
            let earnest = handled(d, as_dry(request, false), known);
            &&& dry.0 == d
            &&& forall|kind: ErrorKind, message: Seq<char>|
                dry.1 == StepView::Reply(#[trigger] refusal(FailureView { kind, message }))
                    <==> earnest.1 == StepView::Reply(refusal(FailureView { kind, message }))
            &&& as_dry(request, true) != as_dry(request, false) ==> (dry.1 matches StepView::Reply(
                ResponseView::Done { dry_run: true, .. },
            ) <==> earnest.1 !is Reply)
            &&& earnest.1 matches StepView::Commit { detail, .. } ==> dry.1 == done(true, detail)
        }),
{
}

/// Default deny: whoever is served a port after a request was served it before,
/// or is named as a grantee by that very request, which exposes that very port.
pub proof fn only_an_expose_grants(
    d: DaemonView,
    request: RequestView,
    known: Seq<Seq<char>>,
    port: u16,
    key: Seq<char>,
)
    requires
        handled(d, request, known).0.live.grants.contains((port, key)),
    ensures
        d.live.grants.contains((port, key)) || (request matches RequestView::Expose {
            port: p,
            to,
            dry_run: false,
            ..
        } && p == port && grantees(to, known)->Ok_0.contains(key)),
{
    match resolved(request, known) {
        Ok(OrderView::Expose { port: p, to, .. }) => {
            a_grant_adds_the_named(d.live.grants, p, to);
        },
        Ok(OrderView::Unexpose { port: p, to, .. }) => {
            a_revoke_leaves_the_others(d.live.grants, Some(p), to);
        },
        _ => {},
    }
}

/// An expose that names its grantees grants the port to exactly the peers that it
/// names, in this run and in what is written down, and the peers that are known have no
/// part in it. It is carried out exactly where every name is a key and the backend, if
/// any, could serve.
pub proof fn an_expose_grants_to_exactly_whom_it_names(
    d: DaemonView,
    port: u16,
    to: Seq<Seq<char>>,
    backend: Option<BackendView>,
    known: Seq<Seq<char>>,
    others: Seq<Seq<char>>,
    row: (u16, Seq<char>),
)
    requires
        to.len() > 0,
    ensures
        ({
            let request = RequestView::Expose { port, to, backend, dry_run: false };
            let (after, step) = handled(d, request, known);
            let named = row.0 == port && exists|i: int|
                0 <= i < to.len() && endpoint_id_of(#[trigger] to[i]) == Ok::<Seq<char>, Seq<char>>(
                    row.1,
                );
            &&& handled(d, request, known) == handled(d, request, others)
            &&& step is Commit <==> (forall|i: int|
                0 <= i < to.len() ==> endpoint_id_of(#[trigger] to[i]) is Ok) && (
            backend matches Some(b) ==> backend_fault(b, port) is None)
            &&& step matches StepView::Commit { state, effect, .. } ==> {
                &&& after.live.grants.contains(row) <==> d.live.grants.contains(row) || named
                &&& after.told.grants.contains(row) <==> d.told.grants.contains(row) || named
                &&& state.grants == after.told.grants
                &&& state.services == after.told.services
                &&& state.binds == after.told.binds
                &&& effect == Effect::Announce
            }
        }),
{
    keys_are_read_one_for_one(to);
    if let Ok(keys) = all_parsed(to) {
        a_grant_adds_the_named(d.live.grants, port, keys);
        a_grant_adds_the_named(d.told.grants, port, keys);
        if keys.contains(row.1) {
            let i = choose|i: int| 0 <= i < keys.len() && keys[i] == row.1;
            assert(endpoint_id_of(to[i]) == Ok::<Seq<char>, Seq<char>>(keys[i]));
        }
        if exists|i: int|
            0 <= i < to.len() && endpoint_id_of(#[trigger] to[i]) == Ok::<Seq<char>, Seq<char>>(
                row.1,
            ) {
            let i = choose|i: int|
                0 <= i < to.len() && endpoint_id_of(#[trigger] to[i]) == Ok::<
                    Seq<char>,
                    Seq<char>,
                >(row.1);
            assert(keys[i] == row.1);
        }
    }
}

/// An expose that names no one grants the port to every peer that is known, and to no
/// one else, and is refused where none is known.
pub proof fn an_expose_that_names_no_one_grants_to_the_known(
    d: DaemonView,
    port: u16,
    backend: Option<BackendView>,
    known: Seq<Seq<char>>,
    row: (u16, Seq<char>),
)
    ensures
        ({
            let request = RequestView::Expose { port, to: Seq::empty(), backend, dry_run: false };
            let (after, step) = handled(d, request, known);
            &&& known.len() == 0 ==> after == d && step == StepView::Reply(
                ResponseView::Error {
                    kind: ErrorKind::Invalid,
                    message: "no peers to grant to; use --to <key>"@,
                },
            )
            &&& known.len() > 0 && (backend matches Some(b) ==> backend_fault(b, port) is None)
                ==> step is Commit
            &&& step is Commit ==> (after.live.grants.contains(row) <==> d.live.grants.contains(
                row,
            ) || (row.0 == port && known.contains(row.1)))
            &&& step is Commit ==> (after.told.grants.contains(row) <==> d.told.grants.contains(
                row,
            ) || (row.0 == port && known.contains(row.1)))
        }),
{
    a_grant_adds_the_named(d.live.grants, port, known);
    a_grant_adds_the_named(d.told.grants, port, known);
}

/// What an expose declares serves the port from then on, whatever its kind and whatever
/// was declared before; one that declares nothing leaves what serves it. Other ports
/// are served as they were.
pub proof fn what_an_expose_declares_serves_the_port(
    d: DaemonView,
    port: u16,
    to: Seq<Seq<char>>,
    backend: Option<BackendView>,
    known: Seq<Seq<char>>,
    other: u16,
)
    ensures
        ({
            let request = RequestView::Expose { port, to, backend, dry_run: false };
            let (after, step) = handled(d, request, known);
            step is Commit ==> {
                &&& backend matches Some(b) ==> serving(after.live.services, after.host, port) == b
                    && after.told.services.contains_key(port) && after.told.services[port] == b
                &&& backend is None ==> serving(after.live.services, after.host, port) == serving(
                    d.live.services,
                    d.host,
                    port,
                ) && after.told.services == d.told.services
                &&& other != port ==> serving(after.live.services, after.host, other) == serving(
                    d.live.services,
                    d.host,
                    other,
                )
            }
        }),
{
    if let Some(b) = backend {
        what_was_declared_serves(d.live.services, d.host, port, b, other);
    }
}

/// A revoke takes the port from exactly the peer that it names, or from everyone where
/// it names no one, and takes no other port from anyone. It is carried out wherever the
/// name, if any, is a key.
pub proof fn a_revoke_takes_from_exactly_whom_it_names(
    d: DaemonView,
    port: u16,
    to: Option<Seq<char>>,
    known: Seq<Seq<char>>,
    row: (u16, Seq<char>),
)
    ensures
        ({
            let request = RequestView::Unexpose { port, to, dry_run: false };
            let (after, step) = handled(d, request, known);
            let named = row.0 == port && (to matches Some(text) ==> endpoint_id_of(text) == Ok::<
                Seq<char>,
                Seq<char>,
            >(row.1));
            &&& step is Commit <==> (to matches Some(text) ==> endpoint_id_of(text) is Ok)
            &&& step matches StepView::Commit { state, effect, .. } ==> {
                &&& after.live.grants.contains(row) <==> d.live.grants.contains(row) && !named
                &&& after.told.grants.contains(row) <==> d.told.grants.contains(row) && !named
                &&& state.grants == after.told.grants
                &&& state.services == after.told.services
                &&& state.binds == after.told.binds
                &&& effect == Effect::Announce
            }
        }),
{
    match to {
        Some(text) => {
            if let Ok(key) = endpoint_id_of(text) {
                a_revoke_leaves_the_others(d.live.grants, Some(port), Some(key));
                a_revoke_leaves_the_others(d.told.grants, Some(port), Some(key));
            }
        },
        None => {
            a_revoke_leaves_the_others(d.live.grants, Some(port), None);
            a_revoke_leaves_the_others(d.told.grants, Some(port), None);
        },
    }
}

/// A remap that is asked for is made: the port lands where it says, or on its own
/// number again, it is written down, and the listener is built anew for that port. No
/// other port is touched, and nothing is granted or declared.
pub proof fn a_remap_that_is_asked_for_is_made(
    d: DaemonView,
    port: u16,
    local: Option<u16>,
    known: Seq<Seq<char>>,
    other: u16,
)
    ensures
        ({
            let (after, step) = handled(
                d,
                RequestView::Bind { port, local, dry_run: false },
                known,
            );
            &&& step matches StepView::Commit { state, effect, .. }
            &&& effect == Effect::Rebind { port, local }
            &&& state.binds == after.told.binds
            &&& state.grants == d.told.grants
            &&& state.services == d.told.services
            &&& after.live.binds.contains_key(port) == (local is Some)
            &&& local is Some ==> after.live.binds[port] == local->0
            &&& after.told.binds.contains_key(port) == (local is Some)
            &&& local is Some ==> after.told.binds[port] == local->0
            &&& other != port ==> after.live.binds.contains_key(other)
                == d.live.binds.contains_key(other) && after.live.binds[other]
                == d.live.binds[other]
            &&& after.live.grants == d.live.grants
            &&& after.live.services == d.live.services
        }),
{
}

/// What is asked of a peer is asked of the peer that was named, and changes nothing by
/// itself: a connection, a disconnection of the key that was read, a pin under the
/// label that was given. Each is refused exactly where the name is no key.
pub proof fn a_peer_is_dealt_with_by_the_name_that_was_given(
    d: DaemonView,
    text: Seq<char>,
    label: Seq<char>,
    known: Seq<Seq<char>>,
)
    ensures
        ({
            let add = handled(d, RequestView::AddPeer { ticket: text, dry_run: false }, known);
            let rm = handled(d, RequestView::RemovePeer { ticket: text, dry_run: false }, known);
            let pin = handled(d, RequestView::Pin { key: text, label, dry_run: false }, known);
            &&& add.0 == d && rm.0 == d && pin.0 == d
            &&& endpoint_id_of(text) matches Ok(id) ==> {
                &&& add.1 == StepView::Connect { ticket: text }
                &&& rm.1 == StepView::Disconnect { ticket: text, id }
                &&& pin.1 == StepView::Pin { key: text, label }
            }
            &&& endpoint_id_of(text) matches Err(said) ==> {
                let refused = StepView::Reply(
                    ResponseView::Error {
                        kind: ErrorKind::Invalid,
                        message: "invalid peer key: "@ + said,
                    },
                );
                add.1 == refused && rm.1 == refused && pin.1 == refused
            }
        }),
{
}

/// What only asks changes nothing, and is answered: a listing with the picture, a
/// ticket with this daemon's own key, and a token with one that is minted under the
/// label that was given.
pub proof fn what_only_asks_is_answered(
    d: DaemonView,
    label: Seq<char>,
    known: Seq<Seq<char>>,
)
    ensures
        handled(d, RequestView::List, known) == (d, StepView::Show),
        handled(d, RequestView::ListPeers, known) == (d, StepView::Show),
        handled(d, RequestView::ListPorts, known) == (d, StepView::Show),
        handled(d, RequestView::Ticket, known) == (
            d,
            StepView::Reply(ResponseView::Ticket(d.me)),
        ),
        handled(d, RequestView::GrantToken { label }, known) == (d, StepView::Mint { label }),
{
}

/// A request that is replied to at once changed nothing: a change is only reported once
/// it was written down.
pub proof fn a_change_is_written_down_before_it_is_reported(
    d: DaemonView,
    request: RequestView,
    known: Seq<Seq<char>>,
)
    ensures
        handled(d, request, known).1 !is Commit ==> handled(d, request, known).0 == d,
        handled(d, request, known).1 matches StepView::Commit { state, .. } ==> {
            let told = handled(d, request, known).0.told;
            state.grants == told.grants && state.services == told.services && state.binds
                == told.binds
        },
{
}

/// A change says what it did: which port, to how many peers and what serves it now;
/// from whom; or where it lands.
pub proof fn a_change_says_what_it_did(
    d: DaemonView,
    port: u16,
    keys: Seq<Seq<char>>,
    key: Seq<char>,
    local: u16,
    upstream: Seq<char>,
)
    ensures
        ({
            let expose = OrderView::Expose {
                port,
                to: keys,
                backend: Some(BackendView::Tcp { upstream }),
                dry_run: false,
            };
            &&& carried(d, expose).1->detail == "expose "@ + decimal(port as nat) + " to "@
                + decimal(keys.len()) + " peer(s), served by "@ + ("tcp "@ + upstream)
            &&& carried(
                d,
                OrderView::Expose { port, to: keys, backend: None, dry_run: false },
            ).1->detail == "expose "@ + decimal(port as nat) + " to "@ + decimal(keys.len())
                + " peer(s), served by "@ + serving_text(d.live.services, d.host, port)
            &&& carried(
                d,
                OrderView::Unexpose { port, to: Some(key), dry_run: false },
            ).1->detail == "revoke "@ + decimal(port as nat) + " from "@ + key
            &&& carried(
                d,
                OrderView::Unexpose { port, to: None, dry_run: false },
            ).1->detail == "revoke every grant for "@ + decimal(port as nat)
            &&& local != 0 ==> carried(
                d,
                OrderView::Bind { port, local: Some(local), dry_run: false },
            ).1->detail == "bind peer port "@ + decimal(port as nat) + " on "@ + "local port "@
                + decimal(local as nat)
        }),
{
}

/// What a request holds is what it was made of.
pub proof fn a_request_holds_what_it_was_made_of(
    port: u16,
    to: Vec<String>,
    whom: Option<String>,
    backend: BackendSpec,
    text: String,
    label: String,
    local: Option<u16>,
    dry_run: bool,
)
    ensures
        ({
            let expose = Request::Expose { port, to, backend: Some(backend), dry_run };
            let keep = Request::Expose { port, to, backend: None, dry_run };
            &&& expose@ matches RequestView::Expose { port: p, to: names, backend: b, dry_run: dry }
            &&& p == port && dry == dry_run && b == Some(backend@)
            &&& names.len() == to@.len()
            &&& forall|i: int| 0 <= i < to@.len() ==> #[trigger] names[i] == to@[i]@
            &&& keep@->Expose_backend is None
        }),
        (Request::Unexpose { port, to: whom, dry_run })@ == (RequestView::Unexpose {
            port,
            to: match whom {
                Some(t) => Some(t@),
                None => None,
            },
            dry_run,
        }),
        (Request::Bind { port, local, dry_run })@ == (RequestView::Bind { port, local, dry_run }),
        (Request::AddPeer { ticket: text, dry_run })@ == (RequestView::AddPeer {
            ticket: text@,
            dry_run,
        }),
        (Request::RemovePeer { ticket: text, dry_run })@ == (RequestView::RemovePeer {
            ticket: text@,
            dry_run,
        }),
        (Request::Pin { key: text, label, dry_run })@ == (RequestView::Pin {
            key: text@,
            label: label@,
            dry_run,
        }),
        (Request::GrantToken { label })@ == (RequestView::GrantToken { label: label@ }),
        Request::List@ == RequestView::List,
        Request::ListPeers@ == RequestView::ListPeers,
        Request::ListPorts@ == RequestView::ListPorts,
        Request::Ticket@ == RequestView::Ticket,
{
}

/// What a step holds is what it was made of.
pub proof fn a_step_holds_what_it_was_made_of(
    response: Response,
    text: String,
    label: String,
    id: PeerKey,
    state: State,
    effect: Effect,
)
    ensures
        Step::Reply(response)@ == StepView::Reply(response@),
        (Step::Connect { ticket: text })@ == (StepView::Connect { ticket: text@ }),
        (Step::Disconnect { ticket: text, id })@ == (StepView::Disconnect {
            ticket: text@,
            id: id@,
        }),
        (Step::Pin { key: text, label })@ == (StepView::Pin { key: text@, label: label@ }),
        (Step::Mint { label })@ == (StepView::Mint { label: label@ }),
        Step::Show@ == StepView::Show,
        (Step::Commit { state, effect, detail: text })@ == (StepView::Commit {
            state: state@,
            effect,
            detail: text@,
        }),
{
}

/// What an order holds is what it was made of.
pub proof fn an_order_holds_what_it_was_made_of(
    text: String,
    label: String,
    id: PeerKey,
    port: u16,
    keys: Vec<PeerKey>,
    whom: Option<PeerKey>,
    backend: Option<BackendSpec>,
    local: Option<u16>,
    dry_run: bool,
)
    ensures
        (Order::Connect { ticket: text, id, dry_run })@ == (OrderView::Connect {
            ticket: text@,
            id: id@,
            dry_run,
        }),
        (Order::Disconnect { ticket: text, id, dry_run })@ == (OrderView::Disconnect {
            ticket: text@,
            id: id@,
            dry_run,
        }),
        (Order::Expose { port, to: keys, backend, dry_run })@ == (OrderView::Expose {
            port,
            to: Seq::new(keys@.len(), |i: int| keys@[i]@),
            backend: match backend {
                Some(b) => Some(b@),
                None => None,
            },
            dry_run,
        }),
        (Order::Unexpose { port, to: whom, dry_run })@ == (OrderView::Unexpose {
            port,
            to: match whom {
                Some(k) => Some(k@),
                None => None,
            },
            dry_run,
        }),
        (Order::Bind { port, local, dry_run })@ == (OrderView::Bind { port, local, dry_run }),
        (Order::Pin { key: text, id, label, dry_run })@ == (OrderView::Pin {
            key: text@,
            id: id@,
            label: label@,
            dry_run,
        }),
        Order::Show@ == OrderView::Show,
        Order::Ticket@ == OrderView::Ticket,
        (Order::Mint { label })@ == (OrderView::Mint { label: label@ }),
{
    assert(key_rows(keys@) =~= Seq::new(keys@.len(), |i: int| keys@[i]@));
}

/// A dry run says what it would do, and to whom, by the key that was read.
pub proof fn a_dry_run_names_the_key_that_was_read(
    d: DaemonView,
    text: Seq<char>,
    label: Seq<char>,
    known: Seq<Seq<char>>,
)
    ensures
        endpoint_id_of(text) matches Ok(id) ==> {
            &&& handled(d, RequestView::AddPeer { ticket: text, dry_run: true }, known) == (
                d,
                done(true, "connect to peer "@ + id),
            )
            &&& handled(d, RequestView::RemovePeer { ticket: text, dry_run: true }, known) == (
                d,
                done(true, "disconnect from peer "@ + id),
            )
            &&& handled(d, RequestView::Pin { key: text, label, dry_run: true }, known) == (
                d,
                done(true, "pin "@ + id + " as \""@ + label + "\""@),
            )
        },
{
}

/// What is written down of a change is what the daemon was told, once the change was made.
pub proof fn a_change_writes_down_what_was_told(d: DaemonView, effect: Effect, detail: Seq<char>)
    ensures
        changed(d, effect, detail).0 == d,
        changed(d, effect, detail).1 matches StepView::Commit { state, effect: e, detail: t }
            && state.grants == d.told.grants && state.services == d.told.services && state.binds
            == d.told.binds && e == effect && t == detail,
{
}

}
