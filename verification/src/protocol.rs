//! What travels between the client, the daemon, and the peers.

use crate::service::{opt_backend, BackendSpec, BackendView};
use crate::text::{
    join, joined, joining_splits_anywhere, lemma_joined_front, one_part_is_joined_as_it_is,
    opt_text, texts,
};
use vstd::prelude::*;

verus! {

// ---------------------------------------------------------------------------
// Requests
// ---------------------------------------------------------------------------

/// Request from the command line to the daemon.
#[derive(Debug)]
#[allow(inconsistent_fields)]
pub enum Request {
    /// Connect to a peer.
    AddPeer { ticket: String, dry_run: bool },
    /// Disconnect from a peer and revoke what was granted to it.
    RemovePeer { ticket: String, dry_run: bool },
    /// Grant `port` to `to`; an empty `to` grants to every known peer. `backend`
    /// declares what serves the port; absent keeps what is declared already.
    Expose { port: u16, to: Vec<String>, backend: Option<BackendSpec>, dry_run: bool },
    /// Bind a peer's `port` to another local port. `local` of `None` clears the
    /// override, and 0 asks for any free port.
    Bind { port: u16, local: Option<u16>, dry_run: bool },
    /// Revoke grants for `port`; `to` limits it to one grantee.
    Unexpose { port: u16, to: Option<String>, dry_run: bool },
    /// Everything: peers, exposed ports, bindings.
    List,
    /// Peers only.
    ListPeers,
    /// Exposed ports and their grants only.
    ListPorts,
    /// This daemon's own key.
    Ticket,
    /// Mint a one-time enrollment token.
    GrantToken { label: String },
    /// Pin a peer's key under a label, without a token.
    Pin { key: String, label: String, dry_run: bool },
}

/// What a [`Request`] holds.
#[verifier::ext_equal]
#[allow(inconsistent_fields)]
pub enum RequestView {
    AddPeer { ticket: Seq<char>, dry_run: bool },
    RemovePeer { ticket: Seq<char>, dry_run: bool },
    Expose { port: u16, to: Seq<Seq<char>>, backend: Option<BackendView>, dry_run: bool },
    Bind { port: u16, local: Option<u16>, dry_run: bool },
    Unexpose { port: u16, to: Option<Seq<char>>, dry_run: bool },
    List,
    ListPeers,
    ListPorts,
    Ticket,
    GrantToken { label: Seq<char> },
    Pin { key: Seq<char>, label: Seq<char>, dry_run: bool },
}

impl View for Request {
    type V = RequestView;

    open spec fn view(&self) -> RequestView {
        match *self {
            Request::AddPeer { ticket, dry_run } => RequestView::AddPeer {
                ticket: ticket@,
                dry_run,
            },
            Request::RemovePeer { ticket, dry_run } => RequestView::RemovePeer {
                ticket: ticket@,
                dry_run,
            },
            Request::Expose { port, to, backend, dry_run } => RequestView::Expose {
                port,
                to: texts(to@),
                backend: opt_backend(backend),
                dry_run,
            },
            Request::Bind { port, local, dry_run } => RequestView::Bind { port, local, dry_run },
            Request::Unexpose { port, to, dry_run } => RequestView::Unexpose {
                port,
                to: opt_text(to),
                dry_run,
            },
            Request::List => RequestView::List,
            Request::ListPeers => RequestView::ListPeers,
            Request::ListPorts => RequestView::ListPorts,
            Request::Ticket => RequestView::Ticket,
            Request::GrantToken { label } => RequestView::GrantToken { label: label@ },
            Request::Pin { key, label, dry_run } => RequestView::Pin {
                key: key@,
                label: label@,
                dry_run,
            },
        }
    }
}

// ---------------------------------------------------------------------------
// Failures
// ---------------------------------------------------------------------------

/// Why a request failed, in the terms a caller can act on.
#[derive(Debug, Clone, Copy, PartialEq, Eq, Structural)]
pub enum ErrorKind {
    /// The request was malformed: an unparseable key, a bad backend.
    Invalid,
    /// The thing named does not exist, or could not be reached.
    NotFound,
    /// It already exists, or something else holds it.
    Conflict,
    /// Refused on authorization grounds.
    Denied,
    /// The daemon could not be reached at all.
    Unavailable,
    /// Anything else.
    Internal,
}

impl ErrorKind {
    /// The exit code that stands for this kind.
    pub open spec fn code(self) -> i32 {
        match self {
            ErrorKind::Internal => 1,
            ErrorKind::Invalid => 2,
            ErrorKind::NotFound => 3,
            ErrorKind::Denied => 4,
            ErrorKind::Conflict => 5,
            ErrorKind::Unavailable => 7,
        }
    }

    /// Exit code for this failure. 0-9 are kept portable.
    pub fn exit_code(self) -> (r: i32)
        ensures
            r == self.code(),
    {
        match self {
            ErrorKind::Invalid => 2,
            ErrorKind::NotFound => 3,
            ErrorKind::Denied => 4,
            ErrorKind::Conflict => 5,
            ErrorKind::Unavailable => 7,
            ErrorKind::Internal => 1,
        }
    }

    /// How this kind is written in machine-readable output.
    pub open spec fn word(self) -> Seq<char> {
        match self {
            ErrorKind::Invalid => "invalid"@,
            ErrorKind::NotFound => "not_found"@,
            ErrorKind::Conflict => "conflict"@,
            ErrorKind::Denied => "denied"@,
            ErrorKind::Unavailable => "unavailable"@,
            ErrorKind::Internal => "internal"@,
        }
    }

    /// How this kind is written in machine-readable output.
    pub fn name(self) -> (r: &'static str)
        ensures
            r@ == self.word(),
    {
        match self {
            ErrorKind::Invalid => "invalid",
            ErrorKind::NotFound => "not_found",
            ErrorKind::Conflict => "conflict",
            ErrorKind::Denied => "denied",
            ErrorKind::Unavailable => "unavailable",
            ErrorKind::Internal => "internal",
        }
    }
}

/// The exit code says what happened: no two kinds of failure share one, none is
/// that of success, and all are in the portable range. Nor do two kinds share the
/// word that stands for them, so that it maps onto the code.
pub proof fn exit_codes_tell_kinds_apart(a: ErrorKind, b: ErrorKind)
    ensures
        a.code() == b.code() ==> a == b,
        a.word() == b.word() ==> a == b,
        0 < a.code() < 10,
{
    reveal_strlit("invalid");
    reveal_strlit("not_found");
    reveal_strlit("conflict");
    reveal_strlit("denied");
    reveal_strlit("unavailable");
    reveal_strlit("internal");
    // Where the lengths are the same, the words differ in an early letter.
    assert("invalid"@.len() == 7 && "not_found"@.len() == 9 && "conflict"@.len() == 8);
    assert("denied"@.len() == 6 && "unavailable"@.len() == 11 && "internal"@.len() == 8);
    assert("conflict"@[0] == 'c' && "internal"@[0] == 'i');
}

/// An error carrying its kind, so that it is classified once.
#[derive(Debug)]
pub struct Failure {
    pub kind: ErrorKind,
    pub message: String,
}

/// What a [`Failure`] holds; also what can be told of a [`Report`].
#[verifier::ext_equal]
pub struct FailureView {
    pub kind: ErrorKind,
    pub message: Seq<char>,
}

impl View for Failure {
    type V = FailureView;

    open spec fn view(&self) -> FailureView {
        FailureView { kind: self.kind, message: self.message@ }
    }
}

impl Failure {
    pub fn new(kind: ErrorKind, message: &str) -> (r: Self)
        ensures
            r@ == (FailureView { kind, message: message@ }),
    {
        Failure { kind, message: message.to_owned() }
    }

    /// The kind of an arbitrary error: whatever it was tagged with, or
    /// Internal if it was never classified.
    pub fn kind_of(err: &Report) -> (r: ErrorKind)
        ensures
            r == kind_in(err.links@),
    {
        let mut i: usize = 0;
        proof {
            assert(err.links@.skip(0) =~= err.links@);
        }
        while i < err.links.len()
            invariant
                i <= err.links@.len(),
                kind_in(err.links@) == kind_in(err.links@.skip(i as int)),
            decreases err.links@.len() - i,
        {
            proof {
                assert(err.links@.skip(i as int).skip(1) =~= err.links@.skip(i + 1));
            }
            match &err.links[i] {
                Link::Failure(f) => {
                    return f.kind;
                },
                Link::Context(_) => {},
            }
            i = i + 1;
        }
        ErrorKind::Internal
    }
}

/// One link in a chain of errors.
#[derive(Debug)]
pub enum Link {
    /// A classified failure.
    Failure(Failure),
    /// Anything that was never classified: what was being done, or a cause.
    Context(String),
}

impl Link {
    /// What the link says.
    pub open spec fn says(self) -> Seq<char> {
        match self {
            Link::Failure(f) => f.message@,
            Link::Context(c) => c@,
        }
    }

    fn text(&self) -> (r: String)
        ensures
            r@ == self.says(),
    {
        match self {
            Link::Failure(f) => f.message.clone(),
            Link::Context(c) => c.clone(),
        }
    }
}

/// An error with what led to it, the outermost first.
#[derive(Debug)]
pub struct Report {
    pub links: Vec<Link>,
}

/// The kind that the first classified link names, or Internal.
pub open spec fn kind_in(links: Seq<Link>) -> ErrorKind
    decreases links.len(),
{
    if links.len() == 0 {
        ErrorKind::Internal
    } else {
        match links[0] {
            Link::Failure(f) => f.kind,
            Link::Context(_) => kind_in(links.skip(1)),
        }
    }
}

/// What each link says.
pub open spec fn sayings(links: Seq<Link>) -> Seq<Seq<char>> {
    links.map_values(|l: Link| l.says())
}

/// What the whole chain says, on one line.
pub open spec fn chain_text(links: Seq<Link>) -> Seq<char> {
    joined(sayings(links), ": "@)
}

impl View for Report {
    type V = FailureView;

    open spec fn view(&self) -> FailureView {
        FailureView { kind: kind_in(self.links@), message: chain_text(self.links@) }
    }
}

impl Report {
    /// A classified failure, on its own.
    pub fn failure(kind: ErrorKind, message: String) -> (r: Self)
        ensures
            r@ == (FailureView { kind, message: message@ }),
            r.links@.len() > 0,
    {
        let mut links: Vec<Link> = Vec::new();
        links.push(Link::Failure(Failure { kind, message }));
        proof {
            assert(sayings(links@) =~= seq![message@]);
        }
        Report { links }
    }

    /// An error that was never classified.
    pub fn internal(message: String) -> (r: Self)
        ensures
            r@ == (FailureView { kind: ErrorKind::Internal, message: message@ }),
            r.links@.len() > 0,
    {
        let mut links: Vec<Link> = Vec::new();
        links.push(Link::Context(message));
        proof {
            assert(sayings(links@) =~= seq![message@]);
            assert(kind_in(links@.skip(1)) == ErrorKind::Internal);
        }
        Report { links }
    }

    /// The same error, after what was being done when it came. What it was
    /// classified as stays.
    pub fn context(self, doing: String) -> (r: Self)
        requires
            self.links@.len() > 0,
        ensures
            r@ == (FailureView {
                kind: self@.kind,
                message: doing@ + ": "@ + self@.message,
            }),
            r.links@.len() > 0,
    {
        let mut links: Vec<Link> = Vec::new();
        links.push(Link::Context(doing));
        let mut rest = self.links;
        links.append(&mut rest);
        proof {
            assert(links@.skip(1) =~= self.links@);
            assert(sayings(links@) =~= seq![doing@] + sayings(self.links@));
            lemma_joined_front(doing@, sayings(self.links@), ": "@);
        }
        Report { links }
    }

    /// The whole chain on one line.
    pub fn text(&self) -> (r: String)
        ensures
            r@ == chain_text(self.links@),
    {
        let mut parts: Vec<String> = Vec::new();
        let mut i: usize = 0;
        while i < self.links.len()
            invariant
                i <= self.links@.len(),
                texts(parts@) =~= sayings(self.links@).take(i as int),
            decreases self.links@.len() - i,
        {
            let ghost before = parts@;
            parts.push(self.links[i].text());
            proof {
                assert(texts(parts@) =~= texts(before).push(self.links@[i as int].says()));
            }
            i = i + 1;
        }
        proof {
            assert(sayings(self.links@).take(self.links@.len() as int) =~= sayings(self.links@));
        }
        join(&parts, ": ")
    }
}

// ---------------------------------------------------------------------------
// Responses
// ---------------------------------------------------------------------------

/// Response from the daemon to the command line.
#[derive(Debug)]
pub enum Response {
    /// An action completed (or, with `dry_run`, would have). `detail` is a
    /// one-line human summary; it is not a stable field to parse.
    Done { dry_run: bool, detail: String },
    /// This daemon's own key.
    Ticket(String),
    /// The whole picture.
    List(ListInfo),
    /// A one-time enrollment token.
    Token(String),
    /// The request failed.
    Error { kind: ErrorKind, message: String },
}

/// What a [`Response`] holds.
#[verifier::ext_equal]
pub enum ResponseView {
    Done { dry_run: bool, detail: Seq<char> },
    Ticket(Seq<char>),
    List(ListInfoView),
    Token(Seq<char>),
    Error { kind: ErrorKind, message: Seq<char> },
}

impl View for Response {
    type V = ResponseView;

    open spec fn view(&self) -> ResponseView {
        match *self {
            Response::Done { dry_run, detail } => ResponseView::Done { dry_run, detail: detail@ },
            Response::Ticket(t) => ResponseView::Ticket(t@),
            Response::List(info) => ResponseView::List(info@),
            Response::Token(t) => ResponseView::Token(t@),
            Response::Error { kind, message } => ResponseView::Error { kind, message: message@ },
        }
    }
}

/// The reply that reports the failure `f`.
pub open spec fn refusal(f: FailureView) -> ResponseView {
    ResponseView::Error { kind: f.kind, message: f.message }
}

impl Response {
    /// An action that ran (or would have, under `dry_run`).
    pub fn done(dry_run: bool, detail: String) -> (r: Self)
        ensures
            r@ == (ResponseView::Done { dry_run, detail: detail@ }),
    {
        Response::Done { dry_run, detail }
    }

    /// A failure, with its kind and everything that is known of it.
    pub fn error(err: Report) -> (r: Self)
        ensures
            r@ == refusal(err@),
    {
        let kind = Failure::kind_of(&err);
        Response::Error { kind, message: err.text() }
    }
}

/// Everything the daemon has to show.
#[derive(Debug)]
pub struct ListInfo {
    /// This node's own key (its ticket).
    pub me: String,
    pub peers: Vec<PeerInfo>,
    /// Ports this node exposes, and what each is served by.
    pub i_expose: Vec<ExposedInfo>,
    /// Who each port is granted to, one row per (port, grantee).
    pub grants: Vec<GrantInfo>,
    pub bindings: Vec<BindingInfo>,
    /// Remaps declared by `port bind`, whether or not a peer is currently
    /// offering the port.
    pub remaps: Vec<RemapInfo>,
}

/// What a [`ListInfo`] holds.
#[verifier::ext_equal]
pub struct ListInfoView {
    pub me: Seq<char>,
    pub peers: Seq<PeerInfoView>,
    pub i_expose: Seq<ExposedInfoView>,
    pub grants: Seq<GrantInfoView>,
    pub bindings: Seq<BindingInfoView>,
    pub remaps: Seq<RemapInfo>,
}

impl View for ListInfo {
    type V = ListInfoView;

    open spec fn view(&self) -> ListInfoView {
        ListInfoView {
            me: self.me@,
            peers: peer_rows(self.peers@),
            i_expose: exposed_rows(self.i_expose@),
            grants: grant_rows(self.grants@),
            bindings: binding_rows(self.bindings@),
            remaps: self.remaps@,
        }
    }
}

/// A remap, as `port bind` declared it.
#[derive(Debug, Clone, Copy, PartialEq, Eq, Structural)]
pub struct RemapInfo {
    /// The port as a peer announces it.
    pub port: u16,
    /// Where it is told to land here.
    pub local: u16,
}

/// A port this node exposes.
#[derive(Debug)]
pub struct ExposedInfo {
    pub port: u16,
    /// What serves it: "http (3 routes)", "tcp db.internal:5432",
    /// "unix /run/docker.sock", or "default 127.0.0.1:3002".
    pub backend: String,
}

/// What an [`ExposedInfo`] holds.
#[verifier::ext_equal]
pub struct ExposedInfoView {
    pub port: u16,
    pub backend: Seq<char>,
}

impl View for ExposedInfo {
    type V = ExposedInfoView;

    open spec fn view(&self) -> ExposedInfoView {
        ExposedInfoView { port: self.port, backend: self.backend@ }
    }
}

/// What each row holds.
pub open spec fn exposed_rows(v: Seq<ExposedInfo>) -> Seq<ExposedInfoView> {
    v.map_values(|e: ExposedInfo| e@)
}

/// A grant of a port to a peer.
#[derive(Debug)]
pub struct GrantInfo {
    pub port: u16,
    /// Key of the peer this port is granted to.
    pub to: String,
}

/// What a [`GrantInfo`] holds.
#[verifier::ext_equal]
pub struct GrantInfoView {
    pub port: u16,
    pub to: Seq<char>,
}

impl View for GrantInfo {
    type V = GrantInfoView;

    open spec fn view(&self) -> GrantInfoView {
        GrantInfoView { port: self.port, to: self.to@ }
    }
}

/// What each row holds.
pub open spec fn grant_rows(v: Seq<GrantInfo>) -> Seq<GrantInfoView> {
    v.map_values(|g: GrantInfo| g@)
}

/// A peer, as the daemon knows it.
#[derive(Debug)]
pub struct PeerInfo {
    pub key: String,
    /// Label assigned at enrollment (absent for peers added by ticket).
    pub label: Option<String>,
    pub online: bool,
    /// Ports this peer exposes to us.
    pub they_expose: Vec<u16>,
}

/// What a [`PeerInfo`] holds.
#[verifier::ext_equal]
pub struct PeerInfoView {
    pub key: Seq<char>,
    pub label: Option<Seq<char>>,
    pub online: bool,
    pub they_expose: Seq<u16>,
}

impl View for PeerInfo {
    type V = PeerInfoView;

    open spec fn view(&self) -> PeerInfoView {
        PeerInfoView {
            key: self.key@,
            label: opt_text(self.label),
            online: self.online,
            they_expose: self.they_expose@,
        }
    }
}

/// What each row holds.
pub open spec fn peer_rows(v: Seq<PeerInfo>) -> Seq<PeerInfoView> {
    v.map_values(|p: PeerInfo| p@)
}

/// A local port that tunnels to a peer.
#[derive(Debug)]
pub struct BindingInfo {
    /// The port the peer announced.
    pub port: u16,
    /// The local port it is actually listening on, which differs from `port`
    /// when overridden by `bind` or when the requested port was taken.
    pub local: u16,
    /// Key of the peer this local port tunnels to.
    pub peer: String,
}

/// What a [`BindingInfo`] holds.
#[verifier::ext_equal]
pub struct BindingInfoView {
    pub port: u16,
    pub local: u16,
    pub peer: Seq<char>,
}

impl View for BindingInfo {
    type V = BindingInfoView;

    open spec fn view(&self) -> BindingInfoView {
        BindingInfoView { port: self.port, local: self.local, peer: self.peer@ }
    }
}

/// What each row holds.
pub open spec fn binding_rows(v: Seq<BindingInfo>) -> Seq<BindingInfoView> {
    v.map_values(|b: BindingInfo| b@)
}

// ---------------------------------------------------------------------------
// Peer <-> Peer
// ---------------------------------------------------------------------------

/// Message sent between peers.
#[derive(Debug)]
pub enum PeerMessage {
    /// Announce exposed ports (sent on connect and when ports change).
    ExposedPorts(Vec<u16>),
    /// Request to connect to a specific port.
    Connect { port: u16 },
    /// Present a one-time enrollment token (sent on connect).
    Enroll { token: String },
    /// Error response.
    Error(String),
}

// ---------------------------------------------------------------------------
// What can be relied on
// ---------------------------------------------------------------------------

/// An error is of the kind that its first classified link names, however many stand
/// before it, and internal where none is classified.
pub proof fn an_error_is_of_the_kind_it_was_classified_as(
    before: Seq<Link>,
    f: Failure,
    after: Seq<Link>,
)
    requires
        forall|i: int| 0 <= i < before.len() ==> (#[trigger] before[i]) is Context,
    ensures
        kind_in(before + seq![Link::Failure(f)] + after) == f.kind,
        kind_in(before) == ErrorKind::Internal,
    decreases before.len(),
{
    let all = before + seq![Link::Failure(f)] + after;
    if before.len() == 0 {
        assert(all[0] == Link::Failure(f));
    } else {
        let rest = before.skip(1);
        assert forall|i: int| 0 <= i < rest.len() implies (#[trigger] rest[i]) is Context by {
            assert(rest[i] == before[i + 1]);
        }
        an_error_is_of_the_kind_it_was_classified_as(rest, f, after);
        assert(all[0] == before[0]);
        assert(before[0] is Context);
        assert(all.skip(1) =~= rest + seq![Link::Failure(f)] + after);
    }
}

/// An error says what each of its links says, the outermost first, with a colon between.
pub proof fn an_error_says_what_its_links_say(a: Seq<Link>, b: Seq<Link>, f: Failure, c: String)
    ensures
        a.len() > 0 && b.len() > 0 ==> chain_text(a + b) == chain_text(a) + ": "@ + chain_text(b),
        chain_text(seq![Link::Failure(f)]) == f.message@,
        chain_text(seq![Link::Context(c)]) == c@,
{
    assert(sayings(a + b) =~= sayings(a) + sayings(b));
    if a.len() > 0 && b.len() > 0 {
        joining_splits_anywhere(sayings(a), sayings(b), ": "@);
    }
    assert(sayings(seq![Link::Failure(f)]) =~= seq![f.message@]);
    assert(sayings(seq![Link::Context(c)]) =~= seq![c@]);
    one_part_is_joined_as_it_is(f.message@, ": "@);
    one_part_is_joined_as_it_is(c@, ": "@);
}

/// A failure that is replied with keeps its kind and its words.
pub proof fn a_refusal_keeps_kind_and_words(f: FailureView)
    ensures
        refusal(f) == (ResponseView::Error { kind: f.kind, message: f.message }),
{
}

/// What a picture holds is what its rows hold, one for one and field by field.
pub proof fn a_picture_holds_every_row(info: ListInfo)
    ensures
        info@.me == info.me@,
        info@.peers.len() == info.peers@.len(),
        info@.i_expose.len() == info.i_expose@.len(),
        info@.grants.len() == info.grants@.len(),
        info@.bindings.len() == info.bindings@.len(),
        info@.remaps == info.remaps@,
        forall|i: int|
            0 <= i < info.peers@.len() ==> {
                let (row, p) = (#[trigger] info@.peers[i], info.peers@[i]);
                &&& row.key == p.key@
                &&& row.label is Some == p.label is Some
                &&& p.label is Some ==> row.label->0 == p.label->0@
                &&& row.online == p.online
                &&& row.they_expose == p.they_expose@
            },
        forall|i: int|
            0 <= i < info.i_expose@.len() ==> (#[trigger] info@.i_expose[i]).port
                == info.i_expose@[i].port && info@.i_expose[i].backend
                == info.i_expose@[i].backend@,
        forall|i: int|
            0 <= i < info.grants@.len() ==> (#[trigger] info@.grants[i]).port
                == info.grants@[i].port && info@.grants[i].to == info.grants@[i].to@,
        forall|i: int|
            0 <= i < info.bindings@.len() ==> (#[trigger] info@.bindings[i]).port
                == info.bindings@[i].port && info@.bindings[i].local == info.bindings@[i].local
                && info@.bindings[i].peer == info.bindings@[i].peer@,
{
}

/// What a reply holds is what it was made of.
pub proof fn a_reply_holds_what_it_was_made_of(
    dry_run: bool,
    text: String,
    kind: ErrorKind,
    info: ListInfo,
)
    ensures
        (Response::Done { dry_run, detail: text })@ == (ResponseView::Done {
            dry_run,
            detail: text@,
        }),
        Response::Ticket(text)@ == ResponseView::Ticket(text@),
        Response::Token(text)@ == ResponseView::Token(text@),
        Response::List(info)@ == ResponseView::List(info@),
        (Response::Error { kind, message: text })@ == (ResponseView::Error {
            kind,
            message: text@,
        }),
{
}

}
