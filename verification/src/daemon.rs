//! The daemon: what it was told, what it decides, and what it shows.
//!
//! Two ledgers are kept. `told` is what the control socket said, now or in an
//! earlier run, and is what is written down. `live` is what holds in this run:
//! the same, with what the daemon was started with laid over it.

use crate::grants::{
    a_grant_adds_the_named, a_revoke_leaves_the_others, exposes, granted, granted_all,
    lemma_exposes, opt_key, revoked, row_texts, sound, taken, Grants, Rows,
};
use crate::keys::{
    canonical, endpoint_id_of, key_rows, known_keys, parse_key, readable_keys, PeerKey,
};
use crate::protocol::{
    binding_rows, exposed_rows, peer_rows, BindingInfo, BindingInfoView, ErrorKind,
    ExposedInfo, ExposedInfoView, FailureView, GrantInfo, GrantInfoView, ListInfo,
    ListInfoView, PeerInfo, PeerInfoView, RemapInfo, Report,
};
use crate::service::{
    all_valid, ascending, backend_fault, backend_text, keys_of, opt_backend, serving, serving_text,
    BackendSpec, BackendView, HostView, Services,
};
use crate::state::{State, StateView};
use crate::text::{decimal, texts};
use std::collections::BTreeMap;
use vstd::prelude::*;

verus! {

broadcast use vstd::std_specs::btree::group_btree_axioms;

// ---------------------------------------------------------------------------
// Ledgers
// ---------------------------------------------------------------------------

/// What a ledger holds.
#[verifier::ext_equal]
pub struct LedgerView {
    /// Which port is granted to whom.
    pub grants: Rows,
    /// What each port is backed by, where something was declared.
    pub services: Map<u16, BackendView>,
    /// Announced port -> the local port it is remapped onto.
    pub binds: Map<u16, u16>,
}

/// What a [`Daemon`] holds.
#[verifier::ext_equal]
pub struct DaemonView {
    /// This daemon's own key.
    pub me: Seq<char>,
    /// Where ports without a declared backend go.
    pub host: HostView,
    /// What the control socket said.
    pub told: LedgerView,
    /// What holds in this run.
    pub live: LedgerView,
}

impl LedgerView {
    /// Nothing is granted, declared or remapped.
    pub open spec fn empty() -> LedgerView {
        LedgerView { grants: Rows::empty(), services: Map::empty(), binds: Map::empty() }
    }

    /// With `port` granted to `keys`, and backed by `backend` if one is given.
    pub open spec fn exposed(
        self,
        port: u16,
        keys: Seq<Seq<char>>,
        backend: Option<BackendView>,
    ) -> LedgerView {
        LedgerView {
            grants: granted_all(self.grants, port, keys),
            services: match backend {
                Some(b) => self.services.insert(port, b),
                None => self.services,
            },
            binds: self.binds,
        }
    }

    /// With `port` revoked from `key`, or from everyone. A port whose last
    /// grantee goes away retires its service with it.
    pub open spec fn unexposed(self, port: u16, key: Option<Seq<char>>) -> LedgerView {
        let grants = revoked(self.grants, Some(port), key);
        LedgerView {
            grants,
            services: if exposes(grants, port) {
                self.services
            } else {
                self.services.remove(port)
            },
            binds: self.binds,
        }
    }

    /// With every grant to `key` revoked; the services of the ports that are
    /// `retired` go with them.
    pub open spec fn dropped(self, key: Seq<char>, retired: spec_fn(u16) -> bool) -> LedgerView {
        LedgerView {
            grants: revoked(self.grants, None, Some(key)),
            services: kept(self.services, retired),
            binds: self.binds,
        }
    }

    /// With a peer's `port` landing on `local`, or on its own number again.
    pub open spec fn bound(self, port: u16, local: Option<u16>) -> LedgerView {
        LedgerView {
            binds: match local {
                Some(l) => self.binds.insert(port, l),
                None => self.binds.remove(port),
            },
            ..self
        }
    }

    /// The same, to be written down.
    pub open spec fn written(self) -> StateView {
        StateView {
            version: 0,
            grants: self.grants,
            services: self.services,
            binds: self.binds,
        }
    }
}

/// `services` without those of the `retired` ports.
pub open spec fn kept(services: Map<u16, BackendView>, retired: spec_fn(u16) -> bool) -> Map<
    u16,
    BackendView,
> {
    Map::new(|p: u16| services.contains_key(p) && !retired(p), |p: u16| services[p])
}

/// Whether `port` was granted to someone and is not any more.
pub open spec fn lost(before: Rows, after: Rows, port: u16) -> bool {
    exposes(before, port) && !exposes(after, port)
}

impl DaemonView {
    /// A daemon that was told nothing, with the services it was started with.
    pub open spec fn fresh(
        me: Seq<char>,
        host: HostView,
        services: Map<u16, BackendView>,
    ) -> DaemonView {
        DaemonView {
            me,
            host,
            told: LedgerView::empty(),
            live: LedgerView { services, ..LedgerView::empty() },
        }
    }

    /// What holds at all times: what was told also holds in this run, or is
    /// overlaid, and every declaration could serve.
    pub open spec fn consistent(self) -> bool {
        &&& forall|row: (u16, Seq<char>)| #[trigger]
            self.told.grants.contains(row) ==> self.live.grants.contains(row)
        &&& self.told.services.dom().subset_of(self.live.services.dom())
        &&& all_valid(self.told.services)
        &&& all_valid(self.live.services)
    }

    /// With `port` exposed, on the word of the control socket.
    pub open spec fn exposed(
        self,
        port: u16,
        keys: Seq<Seq<char>>,
        backend: Option<BackendView>,
    ) -> DaemonView {
        DaemonView {
            told: self.told.exposed(port, keys, backend),
            live: self.live.exposed(port, keys, backend),
            ..self
        }
    }

    /// With `port` revoked from `key`, or from everyone.
    pub open spec fn unexposed(self, port: u16, key: Option<Seq<char>>) -> DaemonView {
        DaemonView {
            told: self.told.unexposed(port, key),
            live: self.live.unexposed(port, key),
            ..self
        }
    }

    /// With every grant to `key` revoked. A port whose last grantee goes away
    /// retires its service with it; one that goes in this run is not written down
    /// any more.
    pub open spec fn dropped(self, key: Seq<char>) -> DaemonView {
        let told = revoked(self.told.grants, None, Some(key));
        let live = revoked(self.live.grants, None, Some(key));
        DaemonView {
            told: self.told.dropped(
                key,
                |p: u16| lost(self.told.grants, told, p) || lost(self.live.grants, live, p),
            ),
            live: self.live.dropped(key, |p: u16| lost(self.live.grants, live, p)),
            ..self
        }
    }

    /// With a peer's `port` landing on `local`, or on its own number again.
    pub open spec fn bound(self, port: u16, local: Option<u16>) -> DaemonView {
        DaemonView {
            told: self.told.bound(port, local),
            live: self.live.bound(port, local),
            ..self
        }
    }
}

/// One more is taken.
proof fn lemma_one_more(s: Seq<u16>, i: int)
    requires
        0 <= i < s.len(),
    ensures
        forall|p: u16| #[trigger]
            s.take(i + 1).contains(p) <==> s.take(i).contains(p) || p == s[i],
{
    let few = s.take(i);
    let more = s.take(i + 1);
    assert forall|p: u16| #[trigger]
        more.contains(p) <==> few.contains(p) || p == s[i] by {
        if more.contains(p) {
            let j = choose|j: int| 0 <= j < more.len() && more[j] == p;
            if j < i {
                assert(few[j] == p);
            }
        }
        if few.contains(p) {
            let j = choose|j: int| 0 <= j < few.len() && few[j] == p;
            assert(more[j] == p);
        }
        assert(more[i] == s[i]);
    }
}

/// Of ascending ports, those before one are those below it.
proof fn lemma_taken_below(s: Seq<u16>, i: int, p: u16)
    requires
        ascending(s),
        0 <= i < s.len(),
    ensures
        s.take(i).contains(p) <==> s.contains(p) && p < s[i],
{
    let few = s.take(i);
    if few.contains(p) {
        let j = choose|j: int| 0 <= j < few.len() && few[j] == p;
        assert(s[j] == p);
    }
    if s.contains(p) && p < s[i] {
        let j = choose|j: int| 0 <= j < s.len() && s[j] == p;
        assert(few[j] == p);
    }
}

/// A set of declarations.
#[derive(Debug)]
struct Ledger {
    grants: Grants,
    services: Services,
    binds: BTreeMap<u16, u16>,
}

impl View for Ledger {
    type V = LedgerView;

    closed spec fn view(&self) -> LedgerView {
        LedgerView {
            grants: self.grants@,
            services: self.services.declared(),
            binds: self.binds@,
        }
    }
}

/// Manages what is exposed, to whom, and what serves it.
#[derive(Debug)]
pub struct Daemon {
    me: PeerKey,
    told: Ledger,
    live: Ledger,
}

impl View for Daemon {
    type V = DaemonView;

    closed spec fn view(&self) -> DaemonView {
        DaemonView {
            me: self.me@,
            host: self.live.services.fallback(),
            told: self.told@,
            live: self.live@,
        }
    }
}

impl Ledger {
    fn unexpose(&mut self, port: u16, to: &Option<PeerKey>)
        ensures
            final(self)@ == old(self)@.unexposed(port, opt_key(*to)),
            final(self).services.fallback() == old(self).services.fallback(),
    {
        self.grants.remove(Some(port), to);
        if !self.grants.exposes(port) {
            self.services.remove(port);
        }
        proof {
            assert(self@ =~= old(self)@.unexposed(port, opt_key(*to)));
        }
    }

    fn set_bind(&mut self, port: u16, local: Option<u16>)
        ensures
            final(self)@ == old(self)@.bound(port, local),
            final(self).services == old(self).services,
    {
        match local {
            Some(l) => {
                self.binds.insert(port, l);
            },
            None => {
                self.binds.remove(&port);
            },
        }
        proof {
            assert(self@ =~= old(self)@.bound(port, local));
        }
    }
}

impl Daemon {
    /// A daemon that was told nothing, with the services it was started with.
    pub fn new(me: PeerKey, services: Services) -> (r: Self)
        requires
            all_valid(services.declared()),
        ensures
            r@ == DaemonView::fresh(me@, services.fallback(), services.declared()),
            r@.consistent(),
    {
        let told = Ledger {
            grants: Grants::new(),
            services: services.bare(),
            binds: BTreeMap::new(),
        };
        let live = Ledger { grants: Grants::new(), services, binds: BTreeMap::new() };
        proof {
            assert(told@ =~= LedgerView::empty());
            assert(live@ =~= LedgerView { services: services.declared(), ..LedgerView::empty() });
        }
        Daemon { me, told, live }
    }

    /// This daemon's own key: 64 hexadecimal digits, which read as themselves.
    pub fn ticket(&self) -> (r: String)
        ensures
            r@ == self@.me,
            canonical(r@),
    {
        self.me.text()
    }

    /// Whether `port` is served to `key`: only to the peers that a grant names.
    pub fn allows(&self, port: u16, key: &PeerKey) -> (r: bool)
        ensures
            r == self@.live.grants.contains((port, key@)),
    {
        self.live.grants.allows(port, key)
    }

    /// The ports that `key` is told of, in ascending order: those granted to it.
    pub fn ports_for(&self, key: &PeerKey) -> (r: Vec<u16>)
        ensures
            ascending(r@),
            forall|p: u16| r@.contains(p) <==> self@.live.grants.contains((p, key@)),
    {
        self.live.grants.ports_for(key)
    }

    /// What serves `port`: its declared backend, or the default forward.
    pub fn backend(&self, port: u16) -> (r: BackendSpec)
        ensures
            r@ == serving(self@.live.services, self@.host, port),
            self@.live.services.contains_key(port) ==> r@ == self@.live.services[port],
    {
        self.live.services.backend(port)
    }

    /// What serves `port` to `key`, if it is granted to `key`. The grant check runs
    /// ahead of the dispatch, for every kind of port, so it is the single gate.
    pub fn dispatch(&self, port: u16, key: &PeerKey) -> (r: Option<BackendSpec>)
        ensures
            r is Some <==> self@.live.grants.contains((port, key@)),
            r matches Some(b) ==> b@ == serving(self@.live.services, self@.host, port),
            r is Some && self@.live.services.contains_key(port) ==> r->0@
                == self@.live.services[port],
    {
        if self.allows(port, key) {
            Some(self.backend(port))
        } else {
            None
        }
    }

    /// The local port that a peer's `port` is to land on: where it was remapped to,
    /// or its own number. 0 stands for any free port.
    pub fn landing(&self, port: u16) -> (r: u16)
        ensures
            r == (if self@.live.binds.contains_key(port) {
                self@.live.binds[port]
            } else {
                port
            }),
    {
        match self.live.binds.get(&port) {
            Some(local) => *local,
            None => port,
        }
    }

    /// One line that says what serves `port`.
    pub fn describe(&self, port: u16) -> (r: String)
        ensures
            r@ == serving_text(self@.live.services, self@.host, port),
    {
        self.live.services.describe(port)
    }

    /// Everything that the control socket said, to be written down.
    pub fn snapshot(&self) -> (r: State)
        requires
            self@.consistent(),
        ensures
            r@ == self@.told.written(),
            sound(self@.told.grants),
            DaemonView::fresh(self@.me, self@.host, Map::empty()).restored(r@.stamped()).live
                == self@.told,
    {
        proof {
            use_type_invariant(&self.told.grants);
            a_restart_keeps_what_was_told(self@, Map::empty());
        }
        let r = State {
            version: 0,
            grants: self.told.grants.all(),
            services: self.told.services.snapshot(),
            binds: self.told.binds.clone(),
        };
        proof {
            assert(r@ =~= self@.told.written());
        }
        r
    }

    /// Makes a peer's `port` land on `local`, or on its own number again.
    pub fn set_bind(&mut self, port: u16, local: Option<u16>)
        requires
            old(self)@.consistent(),
        ensures
            final(self)@ == old(self)@.bound(port, local),
            final(self)@.consistent(),
    {
        self.told.set_bind(port, local);
        self.live.set_bind(port, local);
    }

    /// Grants `port` to each peer in `to`, and declares what it is backed by if
    /// `backend` says so.
    pub fn expose(&mut self, port: u16, to: &Vec<PeerKey>, backend: Option<BackendSpec>)
        requires
            old(self)@.consistent(),
            opt_backend(backend) matches Some(b) ==> backend_fault(b, port) is None,
        ensures
            final(self)@ == old(self)@.exposed(port, key_rows(to@), opt_backend(backend)),
            final(self)@.consistent(),
    {
        match backend {
            Some(spec) => {
                let same = spec.clone();
                let _ = self.told.services.register(port, spec);
                let _ = self.live.services.register(port, same);
            },
            None => {},
        }
        self.told.grants.add_all(port, to);
        self.live.grants.add_all(port, to);
        proof {
            let keys = key_rows(to@);
            a_grant_adds_the_named(old(self)@.told.grants, port, keys);
            a_grant_adds_the_named(old(self)@.live.grants, port, keys);
            assert(self@ =~= old(self)@.exposed(port, keys, opt_backend(backend)));
        }
    }

    /// Revokes `port` from `to`, or from everyone.
    ///
    /// A port whose last grantee goes away retires its service with it: the
    /// port is gone, and leaving a backend registered for it would be a
    /// half-deleted thing `list` cannot show. The rule is on the state, not on
    /// the command -- revoking the one remaining grantee by name reaches the
    /// same place as revoking them all, and must land the same way.
    pub fn unexpose(&mut self, port: u16, to: &Option<PeerKey>)
        requires
            old(self)@.consistent(),
        ensures
            final(self)@ == old(self)@.unexposed(port, opt_key(*to)),
            final(self)@.consistent(),
    {
        self.told.unexpose(port, to);
        self.live.unexpose(port, to);
        proof {
            let key = opt_key(*to);
            let told = revoked(old(self)@.told.grants, Some(port), key);
            let live = revoked(old(self)@.live.grants, Some(port), key);
            a_revoke_leaves_the_others(old(self)@.told.grants, Some(port), key);
            a_revoke_leaves_the_others(old(self)@.live.grants, Some(port), key);
            lemma_exposes(told, port);
            lemma_exposes(live, port);
            if exposes(told, port) {
                let k = choose|k: Seq<char>| #[trigger] told.contains((port, k));
                assert(live.contains((port, k)));
            }
            assert(self@ =~= old(self)@.unexposed(port, key));
        }
    }

    /// Revokes everything that was granted to `key`. The ports that no one else
    /// holds retire their services.
    pub fn drop_peer(&mut self, key: &PeerKey)
        requires
            old(self)@.consistent(),
        ensures
            final(self)@ == old(self)@.dropped(key@),
            final(self)@.consistent(),
    {
        let ghost d = self@;
        let ghost told = revoked(d.told.grants, None, Some(key@));
        let ghost live = revoked(d.live.grants, None, Some(key@));
        let told_ports = self.told.grants.ports_for(key);
        let live_ports = self.live.grants.ports_for(key);
        let whom = Some(key.clone());
        self.told.grants.remove(None, &whom);
        self.live.grants.remove(None, &whom);
        let told_gone = unheld(&told_ports, &self.told.grants);
        let live_gone = unheld(&live_ports, &self.live.grants);
        self.told.services.remove_all(&told_gone);
        self.told.services.remove_all(&live_gone);
        self.live.services.remove_all(&live_gone);
        proof {
            a_revoke_leaves_the_others(d.told.grants, None, Some(key@));
            a_revoke_leaves_the_others(d.live.grants, None, Some(key@));
            assert forall|p: u16| told_gone@.contains(p) <==> lost(d.told.grants, told, p) by {
                lemma_lost(d.told.grants, key@, p);
            }
            assert forall|p: u16| live_gone@.contains(p) <==> lost(d.live.grants, live, p) by {
                lemma_lost(d.live.grants, key@, p);
            }
            assert(self@ =~= d.dropped(key@));
        }
    }
}

/// What is lost with a peer is what that peer held and no one holds any more.
proof fn lemma_lost(rows: Rows, key: Seq<char>, port: u16)
    ensures
        lost(rows, revoked(rows, None, Some(key)), port) <==> rows.contains((port, key))
            && !exposes(revoked(rows, None, Some(key)), port),
{
    let after = revoked(rows, None, Some(key));
    a_revoke_leaves_the_others(rows, None, Some(key));
    lemma_exposes(rows, port);
    lemma_exposes(after, port);
    if lost(rows, after, port) {
        let k = choose|k: Seq<char>| #[trigger] rows.contains((port, k));
        assert(!after.contains((port, k)));
    }
}

/// Those of `ports` that no one holds.
fn unheld(ports: &Vec<u16>, grants: &Grants) -> (r: Vec<u16>)
    ensures
        forall|p: u16| r@.contains(p) <==> ports@.contains(p) && !exposes(grants@, p),
{
    let mut r: Vec<u16> = Vec::new();
    let mut i: usize = 0;
    while i < ports.len()
        invariant
            i <= ports@.len(),
            forall|p: u16|
                r@.contains(p) <==> ports@.take(i as int).contains(p) && !exposes(grants@, p),
        decreases ports@.len() - i,
    {
        let port: u16 = ports[i];
        proof {
            lemma_one_more(ports@, i as int);
        }
        if !grants.exposes(port) {
            let ghost before = r@;
            r.push(port);
            proof {
                assert(r@.take(before.len() as int) =~= before);
                assert(r@.take(before.len() as int + 1) =~= r@);
                lemma_one_more(r@, before.len() as int);
            }
        }
        i = i + 1;
    }
    proof {
        assert(ports@.take(ports@.len() as int) =~= ports@);
    }
    r
}

// ---------------------------------------------------------------------------
// Starting
// ---------------------------------------------------------------------------

/// Whether the service that was written down for `port` keeps the daemon from
/// starting: it could never serve, and nothing was declared over it.
pub open spec fn unstartable(
    overlay: Map<u16, BackendView>,
    services: Map<u16, BackendView>,
    port: u16,
) -> bool {
    &&& services.contains_key(port)
    &&& !overlay.contains_key(port)
    &&& backend_fault(services[port], port) is Some
}

/// Those of `services` that could serve.
pub open spec fn servable(services: Map<u16, BackendView>) -> Map<u16, BackendView> {
    Map::new(
        |p: u16| services.contains_key(p) && backend_fault(services[p], p) is None,
        |p: u16| services[p],
    )
}

/// Those of `services` on a port below `port`.
pub open spec fn below(services: Map<u16, BackendView>, port: u16) -> Map<u16, BackendView> {
    Map::new(|p: u16| services.contains_key(p) && p < port, |p: u16| services[p])
}

/// `rows` with the grants of `list` given again. A grant whose key can not be
/// read is dropped.
pub open spec fn regranted(rows: Rows, list: Rows) -> Rows
    decreases list.len(),
{
    if list.len() == 0 {
        rows
    } else {
        let before = regranted(rows, list.drop_last());
        match endpoint_id_of(list.last().1) {
            Ok(key) => granted(before, list.last().0, key),
            Err(_) => before,
        }
    }
}

/// What is granted again is granted in both, and nothing else is added.
proof fn lemma_regranted_alike(a: Rows, b: Rows, list: Rows)
    requires
        forall|row: (u16, Seq<char>)| #[trigger] a.contains(row) ==> b.contains(row),
    ensures
        forall|row: (u16, Seq<char>)| #[trigger]
            regranted(a, list).contains(row) ==> regranted(b, list).contains(row),
    decreases list.len(),
{
    if list.len() > 0 {
        let rest = list.drop_last();
        lemma_regranted_alike(a, b, rest);
        match endpoint_id_of(list.last().1) {
            Ok(key) => {
                let x = regranted(a, rest);
                let y = regranted(b, rest);
                a_grant_adds_the_named(x, list.last().0, seq![key]);
                a_grant_adds_the_named(y, list.last().0, seq![key]);
                lemma_granted_one(x, list.last().0, key);
                lemma_granted_one(y, list.last().0, key);
                assert(regranted(a, list) == granted_all(x, list.last().0, seq![key]));
                assert(regranted(b, list) == granted_all(y, list.last().0, seq![key]));
                assert forall|row: (u16, Seq<char>)| #[trigger]
                    regranted(a, list).contains(row) implies regranted(b, list).contains(row) by {
                    assert(x.contains(row) ==> y.contains(row));
                }
            },
            Err(_) => {
                assert(regranted(a, list) == regranted(a, rest));
                assert(regranted(b, list) == regranted(b, rest));
            },
        }
    } else {
        assert(regranted(a, list) == a);
        assert(regranted(b, list) == b);
    }
}

/// Granting to one peer is granting to a list of one.
proof fn lemma_granted_one(rows: Rows, port: u16, key: Seq<char>)
    ensures
        granted_all(rows, port, seq![key]) == granted(rows, port, key),
{
    assert(seq![key].drop_last() =~= Seq::empty());
    assert(granted_all(rows, port, Seq::empty()) == rows);
}

impl DaemonView {
    /// With the services that were written down, under what was declared already.
    pub open spec fn redeclared(self, services: Map<u16, BackendView>) -> DaemonView {
        DaemonView {
            told: LedgerView {
                services: self.told.services.union_prefer_right(servable(services)),
                ..self.told
            },
            live: LedgerView {
                services: services.union_prefer_right(self.live.services),
                ..self.live
            },
            ..self
        }
    }

    /// With what was written down restored, under what was declared already.
    pub open spec fn restored(self, state: StateView) -> DaemonView {
        DaemonView {
            told: LedgerView {
                grants: regranted(self.told.grants, state.grants),
                services: self.told.services.union_prefer_right(servable(state.services)),
                binds: self.told.binds.union_prefer_right(state.binds),
            },
            live: LedgerView {
                grants: regranted(self.live.grants, state.grants),
                services: state.services.union_prefer_right(self.live.services),
                binds: self.live.binds.union_prefer_right(state.binds),
            },
            ..self
        }
    }

    /// With what the daemon was started with laid over, for this run only:
    /// `ports` granted to `keys`, and the remaps of `binds`.
    pub open spec fn overlaid(
        self,
        binds: Seq<(u16, u16)>,
        ports: Seq<u16>,
        keys: Seq<Seq<char>>,
    ) -> DaemonView {
        DaemonView {
            live: LedgerView {
                grants: granted_ports(self.live.grants, ports, keys),
                services: self.live.services,
                binds: rebound(self.live.binds, binds),
            },
            ..self
        }
    }
}

/// `rows` with each of `ports` granted to each of `keys`.
pub open spec fn granted_ports(rows: Rows, ports: Seq<u16>, keys: Seq<Seq<char>>) -> Rows
    decreases ports.len(),
{
    if ports.len() == 0 {
        rows
    } else {
        granted_all(granted_ports(rows, ports.drop_last(), keys), ports.last(), keys)
    }
}

/// `binds` with each remap of `list` made, in order.
pub open spec fn rebound(binds: Map<u16, u16>, list: Seq<(u16, u16)>) -> Map<u16, u16>
    decreases list.len(),
{
    if list.len() == 0 {
        binds
    } else {
        rebound(binds, list.drop_last()).insert(list.last().0, list.last().1)
    }
}

/// What the daemon was started with came to.
#[derive(Debug)]
pub struct Startup {
    /// The ports that were granted to the peers it was started with.
    pub ports: Vec<u16>,
    /// Whether there are such ports, and no peer to grant them to.
    pub unheard: bool,
}

impl Daemon {
    /// Restores what an earlier run was told. What was declared already stays: a
    /// `--service` file is what the operator just edited, so it wins over what
    /// an earlier run happened to be told.
    ///
    /// Services come back from the lowest port up, and one that could never serve
    /// stops the daemon there, before anything else comes back.
    pub fn restore(&mut self, state: &State) -> (r: Result<(), Report>)
        requires
            old(self)@.consistent(),
        ensures
            final(self)@.consistent(),
            match r {
                Ok(_) => {
                    &&& forall|p: u16| !unstartable(old(self)@.live.services, state@.services, p)
                    &&& final(self)@ == old(self)@.restored(state@)
                },
                Err(e) => exists|p: u16|
                    {
                        &&& #[trigger] unstartable(old(self)@.live.services, state@.services, p)
                        &&& forall|q: u16|
                            q < p ==> !unstartable(old(self)@.live.services, state@.services, q)
                        &&& e@ == (FailureView {
                            kind: ErrorKind::Invalid,
                            message: backend_fault(state@.services[p], p)->0,
                        })
                        &&& final(self)@ == old(self)@.redeclared(below(state@.services, p))
                    },
            },
    {
        match self.restore_services(state) {
            Ok(_) => {},
            Err(e) => {
                return Err(e);
            },
        }
        self.restore_grants(state);
        self.restore_binds(state);
        proof {
            lemma_regranted_alike(
                old(self)@.told.grants,
                old(self)@.live.grants,
                state@.grants,
            );
            assert(self@ =~= old(self)@.restored(state@));
            assert(self@.told.services.dom().subset_of(self@.live.services.dom()));
        }
        Ok(())
    }

    fn restore_services(&mut self, state: &State) -> (r: Result<(), Report>)
        requires
            old(self)@.consistent(),
        ensures
            final(self)@.consistent(),
            match r {
                Ok(_) => {
                    &&& forall|p: u16| !unstartable(old(self)@.live.services, state@.services, p)
                    &&& final(self)@ == old(self)@.redeclared(state@.services)
                },
                Err(e) => exists|p: u16|
                    {
                        &&& #[trigger] unstartable(old(self)@.live.services, state@.services, p)
                        &&& forall|q: u16|
                            q < p ==> !unstartable(old(self)@.live.services, state@.services, q)
                        &&& e@ == (FailureView {
                            kind: ErrorKind::Invalid,
                            message: backend_fault(state@.services[p], p)->0,
                        })
                        &&& final(self)@ == old(self)@.redeclared(below(state@.services, p))
                    },
            },
    {
        let ports = keys_of(&state.services);
        let ghost told = self@.told.services;
        let ghost live = self@.live.services;
        let ghost new = state@.services;
        let mut i: usize = 0;
        while i < ports.len()
            invariant
                i <= ports@.len(),
                old(self)@.consistent(),
                told == old(self)@.told.services,
                live == old(self)@.live.services,
                new == state@.services,
                ascending(ports@),
                forall|p: u16| ports@.contains(p) <==> state.services@.contains_key(p),
                forall|j: int| 0 <= j < i ==> !unstartable(live, new, #[trigger] ports@[j]),
                self@ == (DaemonView {
                    told: LedgerView { services: self@.told.services, ..old(self)@.told },
                    live: LedgerView { services: self@.live.services, ..old(self)@.live },
                    ..old(self)@
                }),
                forall|p: u16| #[trigger]
                    self@.told.services.contains_key(p) <==> told.contains_key(p) || (
                    ports@.take(i as int).contains(p) && backend_fault(new[p], p) is None),
                forall|p: u16| #[trigger]
                    self@.told.services.contains_key(p) ==> self@.told.services[p] == (
                    if ports@.take(i as int).contains(p) && backend_fault(new[p], p) is None {
                        new[p]
                    } else {
                        told[p]
                    }),
                forall|p: u16| #[trigger]
                    self@.live.services.contains_key(p) <==> live.contains_key(p)
                        || ports@.take(i as int).contains(p),
                forall|p: u16| #[trigger]
                    self@.live.services.contains_key(p) ==> self@.live.services[p] == (
                    if live.contains_key(p) {
                        live[p]
                    } else {
                        new[p]
                    }),
                all_valid(self@.told.services),
                all_valid(self@.live.services),
            decreases ports@.len() - i,
        {
            let port: u16 = ports[i];
            proof {
                assert(ports@.contains(port));
                lemma_one_more(ports@, i as int);
                assert forall|p: u16| ports@.take(i as int).contains(p) <==> new.contains_key(p)
                    && p < port by {
                    lemma_taken_below(ports@, i as int, p);
                }
            }
            match state.services.get(&port) {
                Some(spec) => {
                    if !self.live.services.contains(port) {
                        match self.live.services.register(port, spec.clone()) {
                            Ok(_) => {},
                            Err(e) => {
                                proof {
                                    assert(unstartable(live, new, port));
                                    assert forall|q: u16| q < port implies !unstartable(
                                        live,
                                        new,
                                        q,
                                    ) by {
                                        if new.contains_key(q) {
                                            let few = ports@.take(i as int);
                                            assert(few.contains(q));
                                            let j = choose|j: int|
                                                0 <= j < few.len() && few[j] == q;
                                            assert(ports@[j] == q);
                                        }
                                    }
                                    assert(self@ =~= old(self)@.redeclared(below(new, port)));
                                }
                                return Err(e);
                            },
                        }
                    }
                    let _ = self.told.services.register(port, spec.clone());
                },
                None => {},
            }
            i = i + 1;
        }
        proof {
            assert(ports@.take(ports@.len() as int) =~= ports@);
            assert forall|p: u16| !unstartable(live, new, p) by {
                if new.contains_key(p) {
                    assert(ports@.contains(p));
                    let j = choose|j: int| 0 <= j < ports@.len() && ports@[j] == p;
                    assert(!unstartable(live, new, ports@[j]));
                }
            }
            assert(self@ =~= old(self)@.redeclared(new));
        }
        Ok(())
    }

    fn restore_grants(&mut self, state: &State)
        ensures
            final(self)@ == (DaemonView {
                told: LedgerView {
                    grants: regranted(old(self)@.told.grants, state@.grants),
                    ..old(self)@.told
                },
                live: LedgerView {
                    grants: regranted(old(self)@.live.grants, state@.grants),
                    ..old(self)@.live
                },
                ..old(self)@
            }),
    {
        let ghost list = state@.grants;
        let mut i: usize = 0;
        proof {
            assert(list.take(0) =~= Rows::empty());
        }
        while i < state.grants.len()
            invariant
                i <= state.grants@.len(),
                list == row_texts(state.grants@),
                self@ == (DaemonView {
                    told: LedgerView {
                        grants: regranted(old(self)@.told.grants, list.take(i as int)),
                        ..old(self)@.told
                    },
                    live: LedgerView {
                        grants: regranted(old(self)@.live.grants, list.take(i as int)),
                        ..old(self)@.live
                    },
                    ..old(self)@
                }),
            decreases state.grants@.len() - i,
        {
            let port: u16 = state.grants[i].0;
            proof {
                assert(list.take(i + 1).drop_last() =~= list.take(i as int));
                assert(list.take(i + 1).last() == (port, state.grants@[i as int].1@));
            }
            match parse_key(state.grants[i].1.as_str()) {
                Ok(key) => {
                    self.told.grants.add(port, &key);
                    self.live.grants.add(port, &key);
                },
                Err(_) => {},
            }
            i = i + 1;
        }
        proof {
            assert(list.take(list.len() as int) =~= list);
        }
    }

    fn restore_binds(&mut self, state: &State)
        ensures
            final(self)@ == (DaemonView {
                told: LedgerView {
                    binds: old(self)@.told.binds.union_prefer_right(state@.binds),
                    ..old(self)@.told
                },
                live: LedgerView {
                    binds: old(self)@.live.binds.union_prefer_right(state@.binds),
                    ..old(self)@.live
                },
                ..old(self)@
            }),
    {
        let ports = keys_of(&state.binds);
        let ghost told = self@.told.binds;
        let ghost live = self@.live.binds;
        let mut i: usize = 0;
        while i < ports.len()
            invariant
                i <= ports@.len(),
                told == old(self)@.told.binds,
                live == old(self)@.live.binds,
                forall|p: u16| ports@.contains(p) <==> state.binds@.contains_key(p),
                self@ == (DaemonView {
                    told: LedgerView { binds: self@.told.binds, ..old(self)@.told },
                    live: LedgerView { binds: self@.live.binds, ..old(self)@.live },
                    ..old(self)@
                }),
                forall|p: u16| #[trigger]
                    self@.told.binds.contains_key(p) <==> told.contains_key(p)
                        || ports@.take(i as int).contains(p),
                forall|p: u16| #[trigger]
                    self@.told.binds.contains_key(p) ==> self@.told.binds[p] == (
                    if ports@.take(i as int).contains(p) {
                        state@.binds[p]
                    } else {
                        told[p]
                    }),
                forall|p: u16| #[trigger]
                    self@.live.binds.contains_key(p) <==> live.contains_key(p)
                        || ports@.take(i as int).contains(p),
                forall|p: u16| #[trigger]
                    self@.live.binds.contains_key(p) ==> self@.live.binds[p] == (
                    if ports@.take(i as int).contains(p) {
                        state@.binds[p]
                    } else {
                        live[p]
                    }),
            decreases ports@.len() - i,
        {
            let port: u16 = ports[i];
            proof {
                assert(ports@.contains(port));
                lemma_one_more(ports@, i as int);
            }
            match state.binds.get(&port) {
                Some(local) => {
                    self.told.set_bind(port, Some(*local));
                    self.live.set_bind(port, Some(*local));
                },
                None => {},
            }
            i = i + 1;
        }
        proof {
            assert(ports@.take(ports@.len() as int) =~= ports@);
            assert(self@.told.binds =~= told.union_prefer_right(state@.binds));
            assert(self@.live.binds =~= live.union_prefer_right(state@.binds));
        }
    }
}

/// What is granted already stays granted.
proof fn lemma_granted_ports_keep(rows: Rows, ports: Seq<u16>, keys: Seq<Seq<char>>)
    ensures
        forall|row: (u16, Seq<char>)| #[trigger]
            rows.contains(row) ==> granted_ports(rows, ports, keys).contains(row),
    decreases ports.len(),
{
    if ports.len() > 0 {
        lemma_granted_ports_keep(rows, ports.drop_last(), keys);
        a_grant_adds_the_named(
            granted_ports(rows, ports.drop_last(), keys),
            ports.last(),
            keys,
        );
    }
}

impl Daemon {
    /// Lays what the daemon was started with over what was restored, for this
    /// run only. The ports it was told to expose are granted to the peers it was
    /// told to add, and to no one else; so are the ports with a service, since
    /// declaring a service is already a statement that the port should be
    /// served. A peer that can not be read is passed over here.
    pub fn start(
        &mut self,
        binds: &Vec<(u16, u16)>,
        ports: &Vec<u16>,
        peers: &Vec<String>,
    ) -> (r: Startup)
        requires
            old(self)@.consistent(),
        ensures
            ascending(r.ports@),
            forall|p: u16|
                r.ports@.contains(p) <==> ports@.contains(p)
                    || old(self)@.live.services.contains_key(p),
            r.unheard == (r.ports@.len() > 0 && known_keys(texts(peers@)).len() == 0),
            final(self)@ == old(self)@.overlaid(binds@, r.ports@, known_keys(texts(peers@))),
            final(self)@.consistent(),
    {
        let keys = readable_keys(peers);
        self.start_for(binds, ports, &keys)
    }

    /// The same, for peers whose keys were read.
    pub fn start_for(
        &mut self,
        binds: &Vec<(u16, u16)>,
        ports: &Vec<u16>,
        keys: &Vec<PeerKey>,
    ) -> (r: Startup)
        requires
            old(self)@.consistent(),
        ensures
            ascending(r.ports@),
            forall|p: u16|
                r.ports@.contains(p) <==> ports@.contains(p)
                    || old(self)@.live.services.contains_key(p),
            r.unheard == (r.ports@.len() > 0 && keys@.len() == 0),
            final(self)@ == old(self)@.overlaid(binds@, r.ports@, key_rows(keys@)),
            final(self)@.consistent(),
    {
        let mut i: usize = 0;
        proof {
            assert(binds@.take(0) =~= Seq::empty());
        }
        while i < binds.len()
            invariant
                i <= binds@.len(),
                self@ == (DaemonView {
                    live: LedgerView {
                        binds: rebound(old(self)@.live.binds, binds@.take(i as int)),
                        ..old(self)@.live
                    },
                    ..old(self)@
                }),
            decreases binds@.len() - i,
        {
            proof {
                assert(binds@.take(i + 1).drop_last() =~= binds@.take(i as int));
            }
            self.live.set_bind(binds[i].0, Some(binds[i].1));
            i = i + 1;
        }
        proof {
            assert(binds@.take(binds@.len() as int) =~= binds@);
        }
        let all = self.ports_to_serve(ports);
        let mut j: usize = 0;
        proof {
            assert(all@.take(0) =~= Seq::empty());
        }
        while j < all.len()
            invariant
                j <= all@.len(),
                self@ == old(self)@.overlaid(binds@, all@.take(j as int), key_rows(keys@)),
            decreases all@.len() - j,
        {
            proof {
                assert(all@.take(j + 1).drop_last() =~= all@.take(j as int));
            }
            self.live.grants.add_all(all[j], keys);
            j = j + 1;
        }
        proof {
            assert(all@.take(all@.len() as int) =~= all@);
            lemma_granted_ports_keep(old(self)@.live.grants, all@, key_rows(keys@));
        }
        let unheard = all.len() > 0 && keys.len() == 0;
        Startup { ports: all, unheard }
    }

    /// Starts a daemon: what an earlier run was told comes back, and what this run
    /// is started with is laid over it.
    pub fn boot(
        me: PeerKey,
        services: Services,
        state: &State,
        binds: &Vec<(u16, u16)>,
        ports: &Vec<u16>,
        peers: &Vec<String>,
    ) -> (r: Result<(Daemon, Startup), Report>)
        requires
            all_valid(services.declared()),
        ensures
            match r {
                Ok((d, startup)) => {
                    let base = DaemonView::fresh(
                        me@,
                        services.fallback(),
                        services.declared(),
                    ).restored(state@);
                    &&& forall|p: u16| !unstartable(services.declared(), state@.services, p)
                    &&& d@ == base.overlaid(
                        binds@,
                        startup.ports@,
                        known_keys(texts(peers@)),
                    )
                    &&& d@.consistent()
                    &&& ascending(startup.ports@)
                    &&& forall|p: u16|
                        startup.ports@.contains(p) <==> ports@.contains(p)
                            || base.live.services.contains_key(p)
                    &&& startup.unheard == (startup.ports@.len() > 0 && known_keys(
                        texts(peers@),
                    ).len() == 0)
                },
                Err(e) => exists|p: u16|
                    {
                        &&& #[trigger] unstartable(services.declared(), state@.services, p)
                        &&& forall|q: u16|
                            q < p ==> !unstartable(services.declared(), state@.services, q)
                        &&& e@ == (FailureView {
                            kind: ErrorKind::Invalid,
                            message: backend_fault(state@.services[p], p)->0,
                        })
                    },
            },
    {
        let mut daemon = Daemon::new(me, services);
        match daemon.restore(state) {
            Ok(_) => {},
            Err(e) => {
                return Err(e);
            },
        }
        let startup = daemon.start(binds, ports, peers);
        Ok((daemon, startup))
    }

    /// `ports`, and those with a service, in ascending order.
    fn ports_to_serve(&self, ports: &Vec<u16>) -> (r: Vec<u16>)
        ensures
            ascending(r@),
            forall|p: u16|
                r@.contains(p) <==> ports@.contains(p) || self@.live.services.contains_key(p),
    {
        let mut set: BTreeMap<u16, ()> = BTreeMap::new();
        let mut i: usize = 0;
        while i < ports.len()
            invariant
                i <= ports@.len(),
                forall|p: u16| #[trigger]
                    set@.contains_key(p) <==> ports@.take(i as int).contains(p),
            decreases ports@.len() - i,
        {
            proof {
                lemma_one_more(ports@, i as int);
            }
            set.insert(ports[i], ());
            i = i + 1;
        }
        let served = self.live.services.ports();
        let mut j: usize = 0;
        proof {
            assert(ports@.take(ports@.len() as int) =~= ports@);
        }
        while j < served.len()
            invariant
                j <= served@.len(),
                forall|p: u16| #[trigger]
                    set@.contains_key(p) <==> ports@.contains(p) || served@.take(
                        j as int,
                    ).contains(p),
            decreases served@.len() - j,
        {
            proof {
                lemma_one_more(served@, j as int);
            }
            set.insert(served[j], ());
            j = j + 1;
        }
        proof {
            assert(served@.take(served@.len() as int) =~= served@);
        }
        keys_of(&set)
    }
}

// ---------------------------------------------------------------------------
// Showing
// ---------------------------------------------------------------------------

/// The port of each row.
pub open spec fn exposed_ports(v: Seq<ExposedInfoView>) -> Seq<u16> {
    v.map_values(|e: ExposedInfoView| e.port)
}

/// The port of each row.
pub open spec fn remapped_ports(v: Seq<RemapInfo>) -> Seq<u16> {
    v.map_values(|e: RemapInfo| e.port)
}

/// Whether `info` is the picture of `d`, with what is known of the peers and of
/// the local ports. Ports are in ascending order, and each row says what serves
/// the port now.
pub open spec fn pictures(
    info: ListInfoView,
    d: DaemonView,
    peers: Seq<PeerInfoView>,
    bindings: Seq<BindingInfoView>,
) -> bool {
    &&& info.me == d.me
    &&& info.peers == peers
    &&& info.bindings == bindings
    &&& info.grants == d.live.grants.map_values(
        |g: (u16, Seq<char>)| GrantInfoView { port: g.0, to: g.1 },
    )
    &&& ascending(exposed_ports(info.i_expose))
    &&& forall|p: u16|
        exposed_ports(info.i_expose).contains(p) <==> exposes(d.live.grants, p)
    &&& forall|i: int|
        0 <= i < info.i_expose.len() ==> (#[trigger] info.i_expose[i]).backend == serving_text(
            d.live.services,
            d.host,
            info.i_expose[i].port,
        )
    &&& ascending(remapped_ports(info.remaps))
    &&& forall|p: u16| remapped_ports(info.remaps).contains(p) <==> d.live.binds.contains_key(p)
    &&& forall|i: int|
        0 <= i < info.remaps.len() ==> (#[trigger] info.remaps[i]).local
            == d.live.binds[info.remaps[i].port]
}

impl Daemon {
    /// The whole picture, with what is known of the peers and of the local ports.
    pub fn list(&self, peers: Vec<PeerInfo>, bindings: Vec<BindingInfo>) -> (r: ListInfo)
        ensures
            pictures(r@, self@, peer_rows(peers@), binding_rows(bindings@)),
            canonical(r@.me),
            sound(self@.live.grants),
            r@.grants.no_duplicates(),
    {
        let ports = self.live.grants.ports();
        let mut i_expose: Vec<ExposedInfo> = Vec::new();
        let mut i: usize = 0;
        while i < ports.len()
            invariant
                i <= ports@.len(),
                exposed_ports(exposed_rows(i_expose@)) =~= ports@.take(i as int),
                forall|j: int|
                    0 <= j < i_expose@.len() ==> (#[trigger] i_expose@[j]).backend@ == serving_text(
                        self@.live.services,
                        self@.host,
                        i_expose@[j].port,
                    ),
            decreases ports@.len() - i,
        {
            let ghost before = exposed_ports(exposed_rows(i_expose@));
            let port: u16 = ports[i];
            i_expose.push(ExposedInfo { port, backend: self.live.services.describe(port) });
            proof {
                assert(exposed_ports(exposed_rows(i_expose@)) =~= before.push(port));
            }
            i = i + 1;
        }
        let rows = self.live.grants.all();
        let mut grants: Vec<GrantInfo> = Vec::new();
        let mut j: usize = 0;
        while j < rows.len()
            invariant
                j <= rows@.len(),
                row_texts(rows@) == self@.live.grants,
                grants@.len() == j,
                forall|k: int|
                    0 <= k < j ==> (#[trigger] grants@[k])@ == (GrantInfoView {
                        port: rows@[k].0,
                        to: rows@[k].1@,
                    }),
            decreases rows@.len() - j,
        {
            grants.push(GrantInfo { port: rows[j].0, to: rows[j].1.clone() });
            j = j + 1;
        }
        let remapped = keys_of(&self.live.binds);
        let mut remaps: Vec<RemapInfo> = Vec::new();
        let mut k: usize = 0;
        while k < remapped.len()
            invariant
                k <= remapped@.len(),
                forall|p: u16|
                    remapped@.contains(p) <==> self.live.binds@.contains_key(p),
                remapped_ports(remaps@) =~= remapped@.take(k as int),
                forall|n: int|
                    0 <= n < remaps@.len() ==> (#[trigger] remaps@[n]).local
                        == self@.live.binds[remaps@[n].port],
            decreases remapped@.len() - k,
        {
            let port: u16 = remapped[k];
            proof {
                assert(remapped@.contains(port));
            }
            let ghost before = remapped_ports(remaps@);
            match self.live.binds.get(&port) {
                Some(local) => {
                    remaps.push(RemapInfo { port, local: *local });
                    proof {
                        assert(remapped_ports(remaps@) =~= before.push(port));
                    }
                },
                None => {},
            }
            k = k + 1;
        }
        let r = ListInfo { me: self.me.text(), peers, i_expose, grants, bindings, remaps };
        proof {
            assert(ports@.take(ports@.len() as int) =~= ports@);
            assert(remapped@.take(remapped@.len() as int) =~= remapped@);
            assert(r@.grants =~= self@.live.grants.map_values(
                |g: (u16, Seq<char>)| GrantInfoView { port: g.0, to: g.1 },
            ));
            assert forall|m: int, n: int|
                0 <= m < r@.grants.len() && 0 <= n < r@.grants.len() && m != n implies r@.grants[m]
                != r@.grants[n] by {
                assert(self@.live.grants[m] != self@.live.grants[n]);
            }
        }
        r
    }
}

// ---------------------------------------------------------------------------
// What can be relied on
// ---------------------------------------------------------------------------

/// A port whose last grantee is revoked retires its service with it, in this run
/// and in what is written down.
pub proof fn a_port_that_no_one_holds_has_no_service(
    d: DaemonView,
    port: u16,
    key: Option<Seq<char>>,
)
    requires
        d.consistent(),
    ensures
        ({
            let after = d.unexposed(port, key);
            &&& !exposes(after.live.grants, port) ==> {
                &&& !after.live.services.contains_key(port)
                &&& !after.told.services.contains_key(port)
            }
            &&& !exposes(after.told.grants, port) ==> !after.told.services.contains_key(port)
        }),
{
    let after = d.unexposed(port, key);
    a_revoke_leaves_the_others(d.told.grants, Some(port), key);
    a_revoke_leaves_the_others(d.live.grants, Some(port), key);
    lemma_exposes(after.told.grants, port);
    lemma_exposes(after.live.grants, port);
    if exposes(after.told.grants, port) {
        let k = choose|k: Seq<char>| #[trigger] after.told.grants.contains((port, k));
        assert(after.live.grants.contains((port, k)));
    }
}

/// So does a port that was lost because its last grantee was removed.
pub proof fn a_removed_peer_takes_its_services_along(d: DaemonView, key: Seq<char>, port: u16)
    ensures
        ({
            let after = d.dropped(key);
            lost(d.live.grants, after.live.grants, port) ==> {
                &&& !after.live.services.contains_key(port)
                &&& !after.told.services.contains_key(port)
            }
        }),
{
}

/// Whether every service goes with a grant.
pub open spec fn attended(l: LedgerView) -> bool {
    forall|p: u16| #[trigger] l.services.contains_key(p) ==> exposes(l.grants, p)
}

/// What exposes another port does not come or go with a revoke of this one.
proof fn lemma_revoke_elsewhere(rows: Rows, port: u16, key: Option<Seq<char>>, other: u16)
    requires
        other != port,
    ensures
        exposes(revoked(rows, Some(port), key), other) == exposes(rows, other),
{
    let after = revoked(rows, Some(port), key);
    a_revoke_leaves_the_others(rows, Some(port), key);
    lemma_exposes(rows, other);
    lemma_exposes(after, other);
    if exposes(rows, other) {
        let k = choose|k: Seq<char>| #[trigger] rows.contains((other, k));
        assert(after.contains((other, k)));
    }
    if exposes(after, other) {
        let k = choose|k: Seq<char>| #[trigger] after.contains((other, k));
        assert(rows.contains((other, k)));
    }
}

/// Nothing half-deleted is written down: where every service that is written down
/// goes with a grant, so it does after a port is exposed to someone, after a port
/// is revoked, after a peer is removed, and after a remap.
pub proof fn nothing_half_deleted_is_written_down(
    d: DaemonView,
    port: u16,
    keys: Seq<Seq<char>>,
    backend: Option<BackendView>,
    key: Option<Seq<char>>,
    local: Option<u16>,
)
    requires
        attended(d.told),
    ensures
        keys.len() > 0 ==> attended(d.exposed(port, keys, backend).told),
        attended(d.unexposed(port, key).told),
        key matches Some(k) ==> attended(d.dropped(k).told),
        attended(d.bound(port, local).told),
{
    if keys.len() > 0 {
        let after = d.exposed(port, keys, backend).told;
        a_grant_adds_the_named(d.told.grants, port, keys);
        assert forall|p: u16| #[trigger] after.services.contains_key(p) implies exposes(
            after.grants,
            p,
        ) by {
            lemma_exposes(d.told.grants, p);
            lemma_exposes(after.grants, p);
            if p == port {
                assert(keys.contains(keys[0]));
                assert(after.grants.contains((port, keys[0])));
            } else {
                assert(d.told.services.contains_key(p));
                let k = choose|k: Seq<char>| #[trigger] d.told.grants.contains((p, k));
                assert(after.grants.contains((p, k)));
            }
        }
    }
    let after = d.unexposed(port, key).told;
    assert forall|p: u16| #[trigger] after.services.contains_key(p) implies exposes(
        after.grants,
        p,
    ) by {
        assert(d.told.services.contains_key(p));
        if p != port {
            lemma_revoke_elsewhere(d.told.grants, port, key, p);
        }
    }
    match key {
        Some(k) => {
            let after = d.dropped(k).told;
            assert forall|p: u16| #[trigger] after.services.contains_key(p) implies exposes(
                after.grants,
                p,
            ) by {
                assert(d.told.services.contains_key(p));
            }
        },
        None => {},
    }
}

/// A revoke from the only one who can hold a port is a revoke from everyone.
proof fn lemma_revoked_from_the_only_one(rows: Rows, port: u16, key: Seq<char>)
    requires
        forall|row: (u16, Seq<char>)| #[trigger]
            rows.contains(row) && row.0 == port ==> row.1 == key,
    ensures
        revoked(rows, Some(port), Some(key)) == revoked(rows, Some(port), None),
    decreases rows.len(),
{
    if rows.len() > 0 {
        let rest = rows.drop_last();
        assert forall|row: (u16, Seq<char>)| #[trigger]
            rest.contains(row) && row.0 == port implies row.1 == key by {
            let i = choose|i: int| 0 <= i < rest.len() && rest[i] == row;
            assert(rows[i] == row);
            assert(rows.contains(row));
        }
        lemma_revoked_from_the_only_one(rest, port, key);
        assert(rows.contains(rows.last()));
    }
}

/// Revoking the one remaining grantee by name lands where revoking them all does.
pub proof fn a_revoke_lands_the_same_however_it_is_spelled(
    d: DaemonView,
    port: u16,
    key: Seq<char>,
)
    requires
        d.consistent(),
        forall|row: (u16, Seq<char>)| #[trigger]
            d.live.grants.contains(row) && row.0 == port ==> row.1 == key,
    ensures
        d.unexposed(port, Some(key)) == d.unexposed(port, None),
{
    lemma_revoked_from_the_only_one(d.live.grants, port, key);
    lemma_revoked_from_the_only_one(d.told.grants, port, key);
}

/// Granting again what was written as it is held gives back what was held.
proof fn lemma_regranted_from_nothing(rows: Rows)
    requires
        sound(rows),
    ensures
        regranted(Rows::empty(), rows) == rows,
    decreases rows.len(),
{
    if rows.len() > 0 {
        let rest = rows.drop_last();
        assert forall|i: int| 0 <= i < rest.len() implies canonical((#[trigger] rest[i]).1) by {
            assert(rest[i] == rows[i]);
        }
        lemma_regranted_from_nothing(rest);
        assert(canonical(rows[rows.len() - 1].1));
        if rest.contains(rows.last()) {
            let i = choose|i: int| 0 <= i < rest.len() && rest[i] == rows.last();
            assert(rows[i] == rows[rows.len() - 1]);
        }
        assert(rest.push(rows.last()) =~= rows);
    }
}

/// A restart keeps what the control socket said: a daemon that is started anew
/// and finds what was written down is told the same, whatever it is started with,
/// and nothing that was written down stops it. Where it is started with nothing,
/// what holds is what was told.
pub proof fn a_restart_keeps_what_was_told(d: DaemonView, overlay: Map<u16, BackendView>)
    requires
        d.consistent(),
        sound(d.told.grants),
    ensures
        ({
            let again = DaemonView::fresh(d.me, d.host, overlay).restored(
                d.told.written().stamped(),
            );
            &&& again.told == d.told
            &&& overlay == Map::<u16, BackendView>::empty() ==> again.live == d.told
            &&& forall|p: u16| !unstartable(overlay, d.told.services, p)
        }),
{
    lemma_regranted_from_nothing(d.told.grants);
    let again = DaemonView::fresh(d.me, d.host, overlay).restored(d.told.written().stamped());
    assert(servable(d.told.services) =~= d.told.services);
    assert(again.told =~= d.told);
    if overlay == Map::<u16, BackendView>::empty() {
        assert(again.live =~= d.told);
    }
}

/// What a run is started with is an overlay for that run: it is not written down.
pub proof fn what_a_run_is_started_with_is_not_written_down(
    d: DaemonView,
    binds: Seq<(u16, u16)>,
    ports: Seq<u16>,
    keys: Seq<Seq<char>>,
)
    ensures
        d.overlaid(binds, ports, keys).told.written() == d.told.written(),
{
}

/// What was declared at startup wins over what was written down for that port.
pub proof fn a_startup_declaration_wins(d: DaemonView, state: StateView, port: u16)
    requires
        d.live.services.contains_key(port),
    ensures
        d.restored(state).live.services.contains_key(port),
        d.restored(state).live.services[port] == d.live.services[port],
{
}

/// What a run is started with grants its ports to the peers it names, and to no
/// one else.
pub proof fn a_start_grants_to_the_named_only(
    rows: Rows,
    ports: Seq<u16>,
    keys: Seq<Seq<char>>,
    port: u16,
    key: Seq<char>,
)
    ensures
        granted_ports(rows, ports, keys).contains((port, key)) <==> rows.contains((port, key)) || (
        ports.contains(port) && keys.contains(key)),
    decreases ports.len(),
{
    if ports.len() > 0 {
        let rest = ports.drop_last();
        a_start_grants_to_the_named_only(rows, rest, keys, port, key);
        a_grant_adds_the_named(granted_ports(rows, rest, keys), ports.last(), keys);
        assert(rest =~= ports.take(ports.len() - 1));
        assert(ports =~= ports.take(ports.len() as int));
        lemma_one_more(ports, ports.len() - 1);
    }
}

/// What is restored was written down: whoever holds a port after a restore held it
/// before, or is named in a grant of that port that was written down.
pub proof fn a_restore_grants_what_was_written(
    rows: Rows,
    list: Rows,
    port: u16,
    key: Seq<char>,
)
    requires
        regranted(rows, list).contains((port, key)),
    ensures
        rows.contains((port, key)) || exists|i: int|
            0 <= i < list.len() && (#[trigger] list[i]).0 == port && endpoint_id_of(list[i].1)
                == Ok::<Seq<char>, Seq<char>>(key),
    decreases list.len(),
{
    if list.len() > 0 {
        let rest = list.drop_last();
        let before = regranted(rows, rest);
        if before.contains((port, key)) {
            a_restore_grants_what_was_written(rows, rest, port, key);
            if !rows.contains((port, key)) {
                let i = choose|i: int|
                    0 <= i < rest.len() && (#[trigger] rest[i]).0 == port && endpoint_id_of(
                        rest[i].1,
                    ) == Ok::<Seq<char>, Seq<char>>(key);
                assert(list[i] == rest[i]);
            }
        } else {
            match endpoint_id_of(list.last().1) {
                Ok(id) => {
                    lemma_granted_one(before, list.last().0, id);
                    a_grant_adds_the_named(before, list.last().0, seq![id]);
                    assert(regranted(rows, list) == granted_all(
                        before,
                        list.last().0,
                        seq![id],
                    ));
                    assert(list[list.len() - 1].0 == port);
                },
                Err(_) => {
                    assert(regranted(rows, list) == before);
                },
            }
        }
    }
}

/// Granting to those who hold the port already changes nothing.
proof fn lemma_granted_already(rows: Rows, port: u16, keys: Seq<Seq<char>>)
    requires
        forall|i: int| 0 <= i < keys.len() ==> rows.contains((port, #[trigger] keys[i])),
    ensures
        granted_all(rows, port, keys) == rows,
    decreases keys.len(),
{
    if keys.len() > 0 {
        let rest = keys.drop_last();
        assert forall|i: int| 0 <= i < rest.len() implies rows.contains(
            (port, #[trigger] rest[i]),
        ) by {
            assert(rest[i] == keys[i]);
        }
        lemma_granted_already(rows, port, rest);
        assert(rows.contains((port, keys[keys.len() - 1])));
    }
}

/// Exposing a port twice is exposing it once.
pub proof fn exposing_again_changes_nothing(
    d: DaemonView,
    port: u16,
    keys: Seq<Seq<char>>,
    backend: Option<BackendView>,
)
    ensures
        d.exposed(port, keys, backend).exposed(port, keys, backend) == d.exposed(
            port,
            keys,
            backend,
        ),
{
    let once = d.exposed(port, keys, backend);
    a_grant_adds_the_named(d.told.grants, port, keys);
    a_grant_adds_the_named(d.live.grants, port, keys);
    assert forall|i: int| 0 <= i < keys.len() implies once.told.grants.contains(
        (port, #[trigger] keys[i]),
    ) && once.live.grants.contains((port, keys[i])) by {
        assert(keys.contains(keys[i]));
    }
    lemma_granted_already(once.told.grants, port, keys);
    lemma_granted_already(once.live.grants, port, keys);
    assert(once.exposed(port, keys, backend) =~= once);
}

/// Exposing a port with another backend replaces the backend, and leaves the
/// grants as they are.
pub proof fn exposing_with_another_backend_redirects(
    d: DaemonView,
    port: u16,
    keys: Seq<Seq<char>>,
    first: BackendView,
    second: BackendView,
)
    ensures
        d.exposed(port, keys, Some(first)).exposed(port, keys, Some(second)) == d.exposed(
            port,
            keys,
            Some(second),
        ),
{
    exposing_again_changes_nothing(d, port, keys, None);
    let twice = d.exposed(port, keys, Some(first)).exposed(port, keys, Some(second));
    assert(d.exposed(port, keys, None).exposed(port, keys, None).told.grants == d.exposed(
        port,
        keys,
        None,
    ).told.grants);
    assert(d.exposed(port, keys, None).exposed(port, keys, None).live.grants == d.exposed(
        port,
        keys,
        None,
    ).live.grants);
    assert(twice =~= d.exposed(port, keys, Some(second)));
}

/// What a revoke left, the same revoke leaves.
proof fn lemma_revoked_again(rows: Rows, port: Option<u16>, key: Option<Seq<char>>)
    ensures
        revoked(revoked(rows, port, key), port, key) == revoked(rows, port, key),
    decreases rows.len(),
{
    if rows.len() > 0 {
        lemma_revoked_again(rows.drop_last(), port, key);
        let left = revoked(rows.drop_last(), port, key);
        if !taken(rows.last(), port, key) {
            assert(left.push(rows.last()).drop_last() =~= left);
        }
    }
}

/// Revoking twice is revoking once.
pub proof fn unexposing_again_changes_nothing(d: DaemonView, port: u16, key: Option<Seq<char>>)
    ensures
        d.unexposed(port, key).unexposed(port, key) == d.unexposed(port, key),
{
    lemma_revoked_again(d.told.grants, Some(port), key);
    lemma_revoked_again(d.live.grants, Some(port), key);
    assert(d.unexposed(port, key).unexposed(port, key) =~= d.unexposed(port, key));
}

/// Binding to the same local port is a no-op.
pub proof fn binding_again_changes_nothing(d: DaemonView, port: u16, local: Option<u16>)
    ensures
        d.bound(port, local).bound(port, local) == d.bound(port, local),
{
    assert(d.bound(port, local).bound(port, local) =~= d.bound(port, local));
}

/// Exposing a port declares the backend that it names for that port, in this run and in
/// what is written down, and grants the port to the peers that it names. What is
/// declared otherwise stays, and so do the grants of other ports, the remaps, and who
/// this is.
pub proof fn exposing_touches_its_port_only(
    d: DaemonView,
    port: u16,
    keys: Seq<Seq<char>>,
    backend: Option<BackendView>,
    other: u16,
    key: Seq<char>,
)
    ensures
        ({
            let after = d.exposed(port, keys, backend);
            &&& backend matches Some(b) ==> {
                &&& after.live.services.contains_key(port) && after.live.services[port] == b
                &&& after.told.services.contains_key(port) && after.told.services[port] == b
                &&& serving(after.live.services, after.host, port) == b
            }
            &&& backend is None ==> after.live.services == d.live.services && after.told.services
                == d.told.services
            &&& other != port ==> {
                &&& after.live.services.contains_key(other) == d.live.services.contains_key(other)
                &&& after.live.services[other] == d.live.services[other]
                &&& after.told.services.contains_key(other) == d.told.services.contains_key(other)
                &&& after.told.services[other] == d.told.services[other]
                &&& after.live.grants.contains((other, key)) == d.live.grants.contains((other, key))
                &&& after.told.grants.contains((other, key)) == d.told.grants.contains((other, key))
            }
            &&& after.live.grants.contains((port, key)) <==> d.live.grants.contains((port, key))
                || keys.contains(key)
            &&& after.told.grants.contains((port, key)) <==> d.told.grants.contains((port, key))
                || keys.contains(key)
            &&& after.live.binds == d.live.binds
            &&& after.told.binds == d.told.binds
            &&& after.me == d.me
            &&& after.host == d.host
        }),
{
    a_grant_adds_the_named(d.live.grants, port, keys);
    a_grant_adds_the_named(d.told.grants, port, keys);
}

/// Revoking takes the grants of the named port, to the named peer or to everyone, and no
/// other; the service of the port goes only where no one holds the port any more, and no
/// other service goes.
pub proof fn revoking_touches_its_port_only(
    d: DaemonView,
    port: u16,
    whom: Option<Seq<char>>,
    other: u16,
    key: Seq<char>,
)
    ensures
        ({
            let after = d.unexposed(port, whom);
            &&& other != port ==> after.live.grants.contains((other, key)) == d.live.grants.contains(
                (other, key),
            )
            &&& other != port ==> after.told.grants.contains((other, key)) == d.told.grants.contains(
                (other, key),
            )
            &&& whom is None || whom == Some(key) ==> !after.live.grants.contains((port, key))
                && !after.told.grants.contains((port, key))
            &&& whom is Some && whom != Some(key) ==> after.live.grants.contains((port, key))
                == d.live.grants.contains((port, key)) && after.told.grants.contains((port, key))
                == d.told.grants.contains((port, key))
            &&& other != port ==> after.live.services.contains_key(other)
                == d.live.services.contains_key(other) && after.live.services[other]
                == d.live.services[other]
            &&& other != port ==> after.told.services.contains_key(other)
                == d.told.services.contains_key(other) && after.told.services[other]
                == d.told.services[other]
            &&& after.live.grants.contains((port, key)) ==> after.live.services == d.live.services
            &&& after.told.grants.contains((port, key)) ==> after.told.services == d.told.services
            &&& after.live.binds == d.live.binds
            &&& after.told.binds == d.told.binds
            &&& after.me == d.me
            &&& after.host == d.host
        }),
{
    let after = d.unexposed(port, whom);
    a_revoke_leaves_the_others(d.live.grants, Some(port), whom);
    a_revoke_leaves_the_others(d.told.grants, Some(port), whom);
    lemma_exposes(after.live.grants, port);
    lemma_exposes(after.told.grants, port);
}

/// Removing a peer takes every grant to it, and none to anyone else. A service stays as
/// long as someone holds its port, or no one ever did.
pub proof fn removing_a_peer_touches_its_grants_only(
    d: DaemonView,
    key: Seq<char>,
    other: Seq<char>,
    port: u16,
)
    ensures
        ({
            let after = d.dropped(key);
            &&& !after.live.grants.contains((port, key))
            &&& !after.told.grants.contains((port, key))
            &&& other != key ==> after.live.grants.contains((port, other)) == d.live.grants.contains(
                (port, other),
            )
            &&& other != key ==> after.told.grants.contains((port, other)) == d.told.grants.contains(
                (port, other),
            )
            &&& after.live.grants.contains((port, other)) || !d.live.grants.contains((port, key))
                ==> after.live.services.contains_key(port) == d.live.services.contains_key(port)
            &&& after.live.services.contains_key(port) ==> d.live.services.contains_key(port)
                && after.live.services[port] == d.live.services[port]
            &&& after.told.services.contains_key(port) ==> d.told.services.contains_key(port)
                && after.told.services[port] == d.told.services[port]
            &&& after.live.binds == d.live.binds
            &&& after.told.binds == d.told.binds
            &&& after.me == d.me
            &&& after.host == d.host
        }),
{
    let after = d.dropped(key);
    a_revoke_leaves_the_others(d.live.grants, None, Some(key));
    a_revoke_leaves_the_others(d.told.grants, None, Some(key));
    lemma_lost(d.live.grants, key, port);
    lemma_exposes(after.live.grants, port);
}

/// A remap makes the named port land where it says, or on its own number again, in this
/// run and in what is written down, and touches nothing else.
pub proof fn a_remap_touches_its_port_only(
    d: DaemonView,
    port: u16,
    local: Option<u16>,
    other: u16,
)
    ensures
        ({
            let after = d.bound(port, local);
            &&& local matches Some(l) ==> after.live.binds.contains_key(port)
                && after.live.binds[port] == l && after.told.binds.contains_key(port)
                && after.told.binds[port] == l
            &&& local is None ==> !after.live.binds.contains_key(port)
                && !after.told.binds.contains_key(port)
            &&& other != port ==> after.live.binds.contains_key(other)
                == d.live.binds.contains_key(other) && after.told.binds.contains_key(other)
                == d.told.binds.contains_key(other)
            &&& other != port ==> after.live.binds[other] == d.live.binds[other]
                && after.told.binds[other] == d.told.binds[other]
            &&& after.live.grants == d.live.grants && after.told.grants == d.told.grants
            &&& after.live.services == d.live.services && after.told.services == d.told.services
            &&& after.me == d.me && after.host == d.host
        }),
{
}

/// Everything that was written down comes back: each grant whose key can be read, each
/// remap, and each service that could serve, unless something was declared over it;
/// what was there before stays.
pub proof fn everything_that_was_written_comes_back(
    d: DaemonView,
    state: StateView,
    i: int,
    port: u16,
)
    ensures
        ({
            let after = d.restored(state);
            &&& 0 <= i < state.grants.len() ==> (endpoint_id_of(state.grants[i].1) matches Ok(key)
                ==> after.live.grants.contains((state.grants[i].0, key))
                && after.told.grants.contains((state.grants[i].0, key)))
            &&& 0 <= i < d.live.grants.len() ==> after.live.grants.contains(d.live.grants[i])
            &&& state.binds.contains_key(port) ==> after.live.binds.contains_key(port)
                && after.live.binds[port] == state.binds[port] && after.told.binds.contains_key(port)
                && after.told.binds[port] == state.binds[port]
            &&& !state.binds.contains_key(port) ==> after.live.binds.contains_key(port)
                == d.live.binds.contains_key(port)
            &&& state.services.contains_key(port) && !d.live.services.contains_key(port)
                ==> after.live.services.contains_key(port) && after.live.services[port]
                == state.services[port]
            &&& after.live.services.contains_key(port) ==> d.live.services.contains_key(port)
                || state.services.contains_key(port)
            &&& state.services.contains_key(port) && backend_fault(state.services[port], port) is None
                ==> after.told.services.contains_key(port) && after.told.services[port]
                == state.services[port]
            &&& after.me == d.me
            &&& after.host == d.host
        }),
{
    lemma_regranted_holds(d.live.grants, state.grants, i);
    lemma_regranted_holds(d.told.grants, state.grants, i);
}

/// What is granted again is held, and so is what was held.
proof fn lemma_regranted_holds(rows: Rows, list: Rows, i: int)
    ensures
        0 <= i < list.len() ==> (endpoint_id_of(list[i].1) matches Ok(key) ==> regranted(
            rows,
            list,
        ).contains((list[i].0, key))),
        0 <= i < rows.len() ==> regranted(rows, list).contains(rows[i]),
    decreases list.len(),
{
    if list.len() > 0 {
        let rest = list.drop_last();
        let before = regranted(rows, rest);
        lemma_regranted_holds(rows, rest, i);
        match endpoint_id_of(list.last().1) {
            Ok(id) => {
                lemma_granted_one(before, list.last().0, id);
                a_grant_adds_the_named(before, list.last().0, seq![id]);
                assert(seq![id].contains(seq![id][0]));
                assert(regranted(rows, list) == granted_all(before, list.last().0, seq![id]));
                assert(regranted(rows, list).contains((list.last().0, id)));
                if 0 <= i < rest.len() {
                    assert(rest[i] == list[i]);
                }
            },
            Err(_) => {
                assert(regranted(rows, list) == before);
                if 0 <= i < rest.len() {
                    assert(rest[i] == list[i]);
                }
            },
        }
    } else if 0 <= i < rows.len() {
        assert(regranted(rows, list) == rows);
        assert(rows.contains(rows[i]));
    }
}

/// A start lays its remaps over what was restored, the last one for a port winning, and
/// changes no declaration.
pub proof fn the_last_remap_of_a_start_wins(
    d: DaemonView,
    binds: Seq<(u16, u16)>,
    ports: Seq<u16>,
    keys: Seq<Seq<char>>,
    i: int,
)
    requires
        0 <= i < binds.len(),
        forall|j: int| i < j < binds.len() ==> (#[trigger] binds[j]).0 != binds[i].0,
    ensures
        d.overlaid(binds, ports, keys).live.binds.contains_key(binds[i].0),
        d.overlaid(binds, ports, keys).live.binds[binds[i].0] == binds[i].1,
        d.overlaid(binds, ports, keys).live.services == d.live.services,
        d.overlaid(binds, ports, keys).told == d.told,
{
    lemma_rebound(d.live.binds, binds, i);
}

proof fn lemma_rebound(map: Map<u16, u16>, binds: Seq<(u16, u16)>, i: int)
    requires
        0 <= i < binds.len(),
        forall|j: int| i < j < binds.len() ==> (#[trigger] binds[j]).0 != binds[i].0,
    ensures
        rebound(map, binds).contains_key(binds[i].0),
        rebound(map, binds)[binds[i].0] == binds[i].1,
    decreases binds.len(),
{
    let rest = binds.drop_last();
    if i < rest.len() {
        assert forall|j: int| i < j < rest.len() implies (#[trigger] rest[j]).0 != rest[i].0 by {
            assert(rest[j] == binds[j]);
        }
        lemma_rebound(map, rest, i);
        assert(binds[binds.len() - 1].0 != binds[i].0);
    }
}

/// A port that no remap of a start names lands where it did.
pub proof fn a_start_remaps_the_named_ports_only(
    map: Map<u16, u16>,
    binds: Seq<(u16, u16)>,
    port: u16,
)
    requires
        forall|j: int| 0 <= j < binds.len() ==> (#[trigger] binds[j]).0 != port,
    ensures
        rebound(map, binds).contains_key(port) == map.contains_key(port),
        map.contains_key(port) ==> rebound(map, binds)[port] == map[port],
    decreases binds.len(),
{
    if binds.len() > 0 {
        let rest = binds.drop_last();
        assert forall|j: int| 0 <= j < rest.len() implies (#[trigger] rest[j]).0 != port by {
            assert(rest[j] == binds[j]);
        }
        a_start_remaps_the_named_ports_only(map, rest, port);
        assert(binds[binds.len() - 1].0 != port);
    }
}

/// What is written down is what was told, all of it and nothing else.
pub proof fn what_was_told_is_written_whole(l: LedgerView)
    ensures
        l.written().grants == l.grants,
        l.written().services == l.services,
        l.written().binds == l.binds,
{
}

/// Whether one of the rows is for `port`.
pub open spec fn has_row(rows: Seq<ExposedInfoView>, port: u16) -> bool {
    exists|j: int| 0 <= j < rows.len() && (#[trigger] rows[j]).port == port
}

/// Whether one of the grants is of `port`.
pub open spec fn has_grant(grants: Rows, port: u16) -> bool {
    exists|i: int| 0 <= i < grants.len() && (#[trigger] grants[i]).0 == port
}

/// The picture leaves nothing out and adds nothing: it has a row for every grant, in
/// order; a row for every port that is granted to someone, which says what serves it,
/// and for no other; and a row for every remap, which says where it lands, and for no
/// other.
pub proof fn the_picture_is_the_whole_picture(
    info: ListInfoView,
    d: DaemonView,
    peers: Seq<PeerInfoView>,
    bindings: Seq<BindingInfoView>,
)
    requires
        pictures(info, d, peers, bindings),
    ensures
        info.me == d.me,
        info.peers == peers,
        info.bindings == bindings,
        info.grants.len() == d.live.grants.len(),
        forall|i: int|
            0 <= i < d.live.grants.len() ==> (#[trigger] info.grants[i]).port == d.live.grants[i].0
                && info.grants[i].to == d.live.grants[i].1,
        forall|i: int|
            0 <= i < d.live.grants.len() ==> has_row(info.i_expose, (#[trigger] d.live.grants[i]).0),
        forall|j: int|
            0 <= j < info.i_expose.len() ==> has_grant(
                d.live.grants,
                (#[trigger] info.i_expose[j]).port,
            ),
        forall|j: int|
            0 <= j < info.i_expose.len() ==> (#[trigger] info.i_expose[j]).backend == (
            if d.live.services.contains_key(info.i_expose[j].port) {
                backend_text(d.live.services[info.i_expose[j].port])
            } else {
                "default "@ + d.host.text + ":"@ + decimal(info.i_expose[j].port as nat)
            }),
        forall|j: int, k: int|
            0 <= j < k < info.i_expose.len() ==> info.i_expose[j].port < info.i_expose[k].port,
        forall|p: u16| #[trigger]
            d.live.binds.contains_key(p) ==> exists|j: int|
                0 <= j < info.remaps.len() && (#[trigger] info.remaps[j]).port == p
                    && info.remaps[j].local == d.live.binds[p],
        forall|j: int|
            0 <= j < info.remaps.len() ==> d.live.binds.contains_key(
                (#[trigger] info.remaps[j]).port,
            ),
{
    let ports = exposed_ports(info.i_expose);
    assert forall|i: int| 0 <= i < d.live.grants.len() implies has_row(
        info.i_expose,
        (#[trigger] d.live.grants[i]).0,
    ) by {
        let p = d.live.grants[i].0;
        assert(exposes(d.live.grants, p));
        assert(ports.contains(p));
        let j = choose|j: int| 0 <= j < ports.len() && ports[j] == p;
        assert(info.i_expose[j].port == p);
    }
    assert forall|j: int| 0 <= j < info.i_expose.len() implies has_grant(
        d.live.grants,
        (#[trigger] info.i_expose[j]).port,
    ) by {
        assert(ports[j] == info.i_expose[j].port);
        assert(ports.contains(info.i_expose[j].port));
        assert(exposes(d.live.grants, info.i_expose[j].port));
    }
    assert forall|j: int, k: int| 0 <= j < k < info.i_expose.len() implies info.i_expose[j].port
        < info.i_expose[k].port by {
        assert(ports[j] < ports[k]);
    }
    let remapped = remapped_ports(info.remaps);
    assert forall|p: u16| #[trigger] d.live.binds.contains_key(p) implies exists|j: int|
        0 <= j < info.remaps.len() && (#[trigger] info.remaps[j]).port == p && info.remaps[j].local
            == d.live.binds[p] by {
        assert(remapped.contains(p));
        let j = choose|j: int| 0 <= j < remapped.len() && remapped[j] == p;
        assert(info.remaps[j].port == p);
    }
    assert forall|j: int| 0 <= j < info.remaps.len() implies d.live.binds.contains_key(
        (#[trigger] info.remaps[j]).port,
    ) by {
        assert(remapped[j] == info.remaps[j].port);
        assert(remapped.contains(info.remaps[j].port));
    }
}

/// A daemon that was just made was told nothing, grants nothing, and serves what it was
/// started with.
pub proof fn a_fresh_daemon_grants_nothing(
    me: Seq<char>,
    host: HostView,
    services: Map<u16, BackendView>,
    port: u16,
    key: Seq<char>,
)
    ensures
        ({
            let d = DaemonView::fresh(me, host, services);
            &&& d.me == me
            &&& d.host == host
            &&& d.live.services == services
            &&& !d.live.grants.contains((port, key))
            &&& !d.told.grants.contains((port, key))
            &&& !d.live.binds.contains_key(port)
            &&& !d.told.binds.contains_key(port)
            &&& !d.told.services.contains_key(port)
        }),
{
}

/// A service that was written down stops the daemon exactly where it could never serve
/// and nothing was declared over it; and nothing comes back that was not written down.
pub proof fn only_what_was_written_comes_back(
    d: DaemonView,
    state: StateView,
    port: u16,
)
    ensures
        unstartable(d.live.services, state.services, port) <==> state.services.contains_key(port)
            && backend_fault(state.services[port], port) is Some && !d.live.services.contains_key(
            port,
        ),
        d.restored(state).told.services.contains_key(port) ==> d.told.services.contains_key(port) || (
        state.services.contains_key(port) && backend_fault(state.services[port], port) is None),
        d.restored(state).told.binds.contains_key(port) ==> d.told.binds.contains_key(port)
            || state.binds.contains_key(port),
        !state.binds.contains_key(port) && d.live.binds.contains_key(port) ==> d.restored(
            state,
        ).live.binds[port] == d.live.binds[port],
{
}

/// After a start, whoever is served a port was served it before, or is one of the peers
/// that the start names, for one of the ports that it grants; and each of those peers
/// is served each of those ports.
pub proof fn a_start_serves_the_named_only(
    d: DaemonView,
    binds: Seq<(u16, u16)>,
    ports: Seq<u16>,
    keys: Seq<Seq<char>>,
    port: u16,
    key: Seq<char>,
)
    ensures
        d.overlaid(binds, ports, keys).live.grants.contains((port, key))
            <==> d.live.grants.contains((port, key)) || (ports.contains(port) && keys.contains(key)),
        d.overlaid(binds, ports, keys).me == d.me,
        d.overlaid(binds, ports, keys).host == d.host,
        (forall|j: int| 0 <= j < binds.len() ==> (#[trigger] binds[j]).0 != port) ==> d.overlaid(
            binds,
            ports,
            keys,
        ).live.binds.contains_key(port) == d.live.binds.contains_key(port),
{
    a_start_grants_to_the_named_only(d.live.grants, ports, keys, port, key);
    if forall|j: int| 0 <= j < binds.len() ==> (#[trigger] binds[j]).0 != port {
        a_start_remaps_the_named_ports_only(d.live.binds, binds, port);
    }
}

/// After a restore, whoever is served a port was served it before, or is named in a
/// grant of that port that was written down.
pub proof fn a_restore_serves_whom_a_written_grant_names(
    d: DaemonView,
    state: StateView,
    port: u16,
    key: Seq<char>,
)
    ensures
        d.restored(state).live.grants.contains((port, key)) ==> d.live.grants.contains((port, key))
            || exists|i: int|
            0 <= i < state.grants.len() && (#[trigger] state.grants[i]).0 == port && endpoint_id_of(
                state.grants[i].1,
            ) == Ok::<Seq<char>, Seq<char>>(key),
        d.restored(state).told.grants.contains((port, key)) ==> d.told.grants.contains((port, key))
            || exists|i: int|
            0 <= i < state.grants.len() && (#[trigger] state.grants[i]).0 == port && endpoint_id_of(
                state.grants[i].1,
            ) == Ok::<Seq<char>, Seq<char>>(key),
{
    if d.restored(state).live.grants.contains((port, key)) {
        a_restore_grants_what_was_written(d.live.grants, state.grants, port, key);
    }
    if d.restored(state).told.grants.contains((port, key)) {
        a_restore_grants_what_was_written(d.told.grants, state.grants, port, key);
    }
}

}
