//! What a running daemon was told, kept across restarts.
//!
//! The control socket writes down what it is told. Only the control socket does:
//! declarations passed to `ig daemon` are an overlay for that run, applied on
//! top after what was written is restored. Otherwise removing `-e 22` from a
//! unit would leave the port exposed forever, because an earlier boot had
//! recorded it.

use crate::grants::{row_texts, Rows};
use crate::protocol::{ErrorKind, FailureView, Report};
use crate::service::{backend_map, BackendSpec, BackendView};
use crate::text::{decimal, push_decimal};
use std::collections::BTreeMap;
use vstd::prelude::*;

verus! {

broadcast use vstd::std_specs::btree::group_btree_axioms;

/// Bumped when a field changes meaning. A daemon that meets a newer file stops
/// rather than guessing at it and writing the guess back.
pub const VERSION: u32 = 1;

/// Everything a restart would otherwise forget.
#[derive(Debug)]
pub struct State {
    pub version: u32,
    /// `(port, grantee)`, flat rather than keyed by port: one port can be
    /// granted to several peers, and a map would bury that.
    pub grants: Vec<(u16, String)>,
    /// What each exposed port is backed by, when something was declared.
    pub services: BTreeMap<u16, BackendSpec>,
    /// Announced port -> the local port it is remapped onto.
    pub binds: BTreeMap<u16, u16>,
}

/// What a [`State`] holds.
#[verifier::ext_equal]
pub struct StateView {
    pub version: u32,
    pub grants: Rows,
    pub services: Map<u16, BackendView>,
    pub binds: Map<u16, u16>,
}

impl View for State {
    type V = StateView;

    open spec fn view(&self) -> StateView {
        StateView {
            version: self.version,
            grants: row_texts(self.grants@),
            services: backend_map(self.services@),
            binds: self.binds@,
        }
    }
}

impl StateView {
    /// What a daemon that was told nothing knows.
    pub open spec fn empty() -> StateView {
        StateView {
            version: 0,
            grants: Rows::empty(),
            services: Map::empty(),
            binds: Map::empty(),
        }
    }

    /// The same, as a file of this version.
    pub open spec fn stamped(self) -> StateView {
        StateView { version: VERSION, ..self }
    }

    /// Nothing was told.
    pub open spec fn says_nothing(self) -> bool {
        &&& self.grants.len() == 0
        &&& self.services == Map::<u16, BackendView>::empty()
        &&& self.binds == Map::<u16, u16>::empty()
    }
}

impl Default for State {
    fn default() -> (r: Self)
        ensures
            r@ == StateView::empty(),
    {
        let r = State {
            version: 0,
            grants: Vec::new(),
            services: BTreeMap::new(),
            binds: BTreeMap::new(),
        };
        proof {
            assert(r@.grants =~= Rows::empty());
            assert(r@.services =~= Map::<u16, BackendView>::empty());
            assert(r@.binds =~= Map::<u16, u16>::empty());
        }
        r
    }
}

impl State {
    /// Whether there is nothing to restore.
    pub fn is_empty(&self) -> (r: bool)
        ensures
            r == self@.says_nothing(),
    {
        let r = self.grants.len() == 0 && self.services.is_empty() && self.binds.is_empty();
        proof {
            if self.services@.len() == 0 {
                assert(self.services@ =~= Map::<u16, BackendSpec>::empty());
                assert(self@.services =~= Map::<u16, BackendView>::empty());
            } else if self@.services == Map::<u16, BackendView>::empty() {
                assert(self@.services.dom() =~= self.services@.dom());
                assert(self.services@ =~= Map::<u16, BackendSpec>::empty());
            }
            if self.binds@.len() == 0 {
                assert(self.binds@ =~= Map::<u16, u16>::empty());
            }
        }
        r
    }
}

/// Where the state of an identity is kept.
#[derive(Debug)]
pub struct Store {
    path: String,
}

/// Where the state that goes with a key is kept.
pub open spec fn state_path(key_path: Seq<char>) -> Seq<char> {
    key_path + ".state.json"@
}

/// The refusal of a file that a newer build wrote.
pub open spec fn too_new(path: Seq<char>, version: u32) -> FailureView {
    FailureView {
        kind: ErrorKind::Internal,
        message: path + " was written by a newer ig (state version "@ + decimal(version as nat)
            + ", this build understands "@ + decimal(VERSION as nat) + ")"@,
    }
}

/// What came of reading the file.
#[derive(Debug)]
pub enum Found {
    /// There is no file.
    Missing,
    /// It could not be read, and why.
    Unreadable(String),
    /// It was read, and holds no state, and why.
    Garbled(String),
    /// It holds this.
    State(State),
}

/// What a [`Found`] holds.
#[verifier::ext_equal]
pub enum FoundView {
    Missing,
    Unreadable(Seq<char>),
    Garbled(Seq<char>),
    State(StateView),
}

impl View for Found {
    type V = FoundView;

    open spec fn view(&self) -> FoundView {
        match *self {
            Found::Missing => FoundView::Missing,
            Found::Unreadable(why) => FoundView::Unreadable(why@),
            Found::Garbled(why) => FoundView::Garbled(why@),
            Found::State(state) => FoundView::State(state@),
        }
    }
}

/// What a daemon goes on from, given what was found at `path`.
pub open spec fn loaded(path: Seq<char>, found: FoundView) -> Result<StateView, FailureView> {
    match found {
        FoundView::Missing => Ok(StateView::empty()),
        FoundView::Unreadable(why) => Err(
            FailureView {
                kind: ErrorKind::Internal,
                message: "failed to read "@ + path + ": "@ + why,
            },
        ),
        FoundView::Garbled(why) => Err(
            FailureView {
                kind: ErrorKind::Internal,
                message: path + " is not readable state"@ + ": "@ + why,
            },
        ),
        FoundView::State(state) => if state.version > VERSION {
            Err(too_new(path, state.version))
        } else {
            Ok(state)
        },
    }
}

impl Store {
    /// Where this store is.
    pub closed spec fn place(self) -> Seq<char> {
        self.path@
    }

    /// Beside the key, like the pin file. Everything one identity owns sits in
    /// one directory, so pointing `--key` elsewhere carries its state along
    /// rather than silently sharing the last daemon's.
    pub fn new(key_path: &str) -> (r: Self)
        ensures
            r.place() == state_path(key_path@),
    {
        let mut path = key_path.to_owned();
        path.append(".state.json");
        Store { path }
    }

    /// Where the state is kept.
    pub fn path(&self) -> (r: &str)
        ensures
            r@ == self.place(),
    {
        self.path.as_str()
    }

    /// Goes on from what was found. A missing file is empty state, and a newer
    /// one stops the daemon.
    pub fn load(&self, found: Found) -> (r: Result<State, Report>)
        ensures
            match r {
                Ok(state) => loaded(self.place(), found@) == Ok::<StateView, FailureView>(state@),
                Err(e) => loaded(self.place(), found@) == Err::<StateView, FailureView>(e@),
            },
    {
        match found {
            Found::Missing => Ok(State::default()),
            Found::Unreadable(why) => {
                let mut doing = "failed to read ".to_owned();
                doing.append(self.path.as_str());
                Err(Report::internal(why).context(doing))
            },
            Found::Garbled(why) => {
                let mut doing = self.path.clone();
                doing.append(" is not readable state");
                Err(Report::internal(why).context(doing))
            },
            Found::State(state) => {
                if state.version > VERSION {
                    let mut m = self.path.clone();
                    m.append(" was written by a newer ig (state version ");
                    push_decimal(&mut m, state.version as u64);
                    m.append(", this build understands ");
                    push_decimal(&mut m, VERSION as u64);
                    m.append(")");
                    return Err(Report::internal(m));
                }
                Ok(state)
            },
        }
    }

    /// What to write down. The version is stamped here rather than by every
    /// caller, so a snapshot built elsewhere cannot forget it and write a file
    /// that reads as version 0.
    pub fn save(&self, state: &State) -> (r: State)
        ensures
            r@ == state@.stamped(),
    {
        State {
            version: VERSION,
            grants: copy_rows(&state.grants),
            services: state.services.clone(),
            binds: state.binds.clone(),
        }
    }
}

/// A copy of `v`.
fn copy_rows(v: &Vec<(u16, String)>) -> (r: Vec<(u16, String)>)
    ensures
        r@ == v@,
{
    let mut r: Vec<(u16, String)> = Vec::new();
    let mut i: usize = 0;
    while i < v.len()
        invariant
            i <= v@.len(),
            r@ =~= v@.take(i as int),
        decreases v@.len() - i,
    {
        r.push((v[i].0, v[i].1.clone()));
        i = i + 1;
    }
    r
}

/// Where a file is written in full before it takes the place of the one at
/// `path`. It names the process, so that two writers never share one.
pub fn temporary_path(path: &str, pid: u32) -> (r: String)
    ensures
        r@ == path@ + "."@ + decimal(pid as nat) + ".tmp"@,
{
    let mut out = path.to_owned();
    out.append(".");
    push_decimal(&mut out, pid as u64);
    out.append(".tmp");
    out
}

/// What was saved comes back, and a file of this version is always read.
pub proof fn what_is_saved_comes_back(path: Seq<char>, state: StateView)
    ensures
        loaded(path, FoundView::State(state.stamped())) == Ok::<StateView, FailureView>(
            state.stamped(),
        ),
        state.stamped().grants == state.grants,
        state.stamped().services == state.services,
        state.stamped().binds == state.binds,
{
}

/// A file is gone on from exactly where it can be: a missing one as if nothing was
/// told, one of this version or an older one as it is, and none that is newer or could
/// not be read.
pub proof fn a_file_is_read_as_it_is_or_not_at_all(path: Seq<char>, state: StateView, why: Seq<char>)
    ensures
        state.version <= 1 ==> loaded(path, FoundView::State(state)) == Ok::<StateView, FailureView>(
            state,
        ),
        state.version > 1 ==> loaded(path, FoundView::State(state)) is Err,
        loaded(path, FoundView::Unreadable(why)) is Err,
        loaded(path, FoundView::Garbled(why)) is Err,
        loaded(path, FoundView::Missing) matches Ok(nothing) && nothing.grants.len() == 0
            && nothing.services == Map::<u16, BackendView>::empty() && nothing.binds == Map::<
            u16,
            u16,
        >::empty(),
        state.stamped().version == 1,
{
}

/// What a state holds is what it was made of, and it is empty exactly where it holds
/// nothing.
pub proof fn a_state_holds_what_it_was_made_of(s: State)
    ensures
        s@.version == s.version,
        s@.grants.len() == s.grants@.len(),
        forall|i: int| 0 <= i < s.grants@.len() ==> #[trigger] s@.grants[i] == (
            s.grants@[i].0,
            s.grants@[i].1@,
        ),
        forall|p: u16| #[trigger] s@.services.contains_key(p) <==> s.services@.contains_key(p),
        forall|p: u16| #[trigger] s.services@.contains_key(p) ==> s@.services[p] == s.services@[p]@,
        s@.binds == s.binds@,
        s@.says_nothing() <==> s@.grants.len() == 0 && (forall|p: u16|
            !#[trigger] s@.services.contains_key(p)) && (forall|p: u16|
            !#[trigger] s@.binds.contains_key(p)),
{
    if forall|p: u16| !#[trigger] s@.services.contains_key(p) {
        assert(s@.services =~= Map::<u16, BackendView>::empty());
    }
    if forall|p: u16| !#[trigger] s@.binds.contains_key(p) {
        assert(s@.binds =~= Map::<u16, u16>::empty());
    }
}

/// The state of two identities is kept in two places.
pub proof fn every_identity_has_its_own_state(a: Seq<char>, b: Seq<char>)
    ensures
        a.is_prefix_of(state_path(a)),
        state_path(a) == state_path(b) ==> a == b,
{
    reveal_strlit(".state.json");
    assert(state_path(a).subrange(0, a.len() as int) =~= a);
    if state_path(a) == state_path(b) {
        assert(state_path(a).len() == a.len() + ".state.json"@.len());
        assert(state_path(b).len() == b.len() + ".state.json"@.len());
        assert(a =~= state_path(a).take(a.len() as int));
        assert(b =~= state_path(b).take(b.len() as int));
    }
}

}
