//! Directed grants: which port is exposed to which peer.

use crate::keys::{canonical, key_rows, PeerKey};
use crate::service::{ascending, keys_of};
use std::collections::BTreeMap;
use vstd::prelude::*;

verus! {

broadcast use vstd::std_specs::btree::group_btree_axioms;

/// Grants, in the order in which they were given.
pub type Rows = Seq<(u16, Seq<char>)>;

/// `rows` with `port` granted to `key`. Granting twice is granting once.
pub open spec fn granted(rows: Rows, port: u16, key: Seq<char>) -> Rows {
    if rows.contains((port, key)) {
        rows
    } else {
        rows.push((port, key))
    }
}

/// `rows` with `port` granted to each of `keys`.
pub open spec fn granted_all(rows: Rows, port: u16, keys: Seq<Seq<char>>) -> Rows
    decreases keys.len(),
{
    if keys.len() == 0 {
        rows
    } else {
        granted(granted_all(rows, port, keys.drop_last()), port, keys.last())
    }
}

/// Whether a revoke of `port` (any, if none is named) from `key` (any, if none
/// is named) takes this grant away.
pub open spec fn taken(row: (u16, Seq<char>), port: Option<u16>, key: Option<Seq<char>>) -> bool {
    &&& port matches Some(p) ==> row.0 == p
    &&& key matches Some(k) ==> row.1 == k
}

/// What a revoke leaves of `rows`.
pub open spec fn revoked(rows: Rows, port: Option<u16>, key: Option<Seq<char>>) -> Rows
    decreases rows.len(),
{
    if rows.len() == 0 {
        rows
    } else if taken(rows.last(), port, key) {
        revoked(rows.drop_last(), port, key)
    } else {
        revoked(rows.drop_last(), port, key).push(rows.last())
    }
}

/// Whether `port` is granted to anyone.
pub open spec fn exposes(rows: Rows, port: u16) -> bool {
    exists|i: int| 0 <= i < rows.len() && (#[trigger] rows[i]).0 == port
}

/// No grant is held twice, and each names a key as it is written.
pub open spec fn sound(rows: Rows) -> bool {
    &&& rows.no_duplicates()
    &&& forall|i: int| 0 <= i < rows.len() ==> canonical((#[trigger] rows[i]).1)
}

/// What is pushed is there, and so is what was there.
proof fn lemma_pushed(rows: Rows, row: (u16, Seq<char>))
    ensures
        forall|other: (u16, Seq<char>)| #[trigger]
            rows.push(row).contains(other) <==> rows.contains(other) || other == row,
{
    let next = rows.push(row);
    assert forall|other: (u16, Seq<char>)| #[trigger]
        next.contains(other) <==> rows.contains(other) || other == row by {
        if next.contains(other) {
            let i = choose|i: int| 0 <= i < next.len() && next[i] == other;
            if i < rows.len() {
                assert(rows[i] == other);
            }
        }
        if rows.contains(other) {
            let i = choose|i: int| 0 <= i < rows.len() && rows[i] == other;
            assert(next[i] == other);
        }
        assert(next[rows.len() as int] == row);
    }
}

/// Exactly the grants that a revoke does not take away are left.
pub proof fn a_revoke_leaves_the_others(rows: Rows, port: Option<u16>, key: Option<Seq<char>>)
    ensures
        forall|row: (u16, Seq<char>)| #[trigger]
            revoked(rows, port, key).contains(row) <==> rows.contains(row) && !taken(
                row,
                port,
                key,
            ),
    decreases rows.len(),
{
    if rows.len() > 0 {
        let rest = rows.drop_last();
        a_revoke_leaves_the_others(rest, port, key);
        lemma_pushed(rest, rows.last());
        lemma_pushed(revoked(rest, port, key), rows.last());
        assert(rest.push(rows.last()) =~= rows);
    }
}

/// Exactly the named peers are added, for exactly the named port.
pub proof fn a_grant_adds_the_named(rows: Rows, port: u16, keys: Seq<Seq<char>>)
    ensures
        forall|row: (u16, Seq<char>)| #[trigger]
            granted_all(rows, port, keys).contains(row) <==> rows.contains(row) || (row.0 == port
                && keys.contains(row.1)),
    decreases keys.len(),
{
    if keys.len() > 0 {
        let rest = keys.drop_last();
        a_grant_adds_the_named(rows, port, rest);
        let before = granted_all(rows, port, rest);
        lemma_pushed(before, (port, keys.last()));
        assert forall|row: (u16, Seq<char>)| #[trigger]
            granted_all(rows, port, keys).contains(row) <==> rows.contains(row) || (row.0 == port
                && keys.contains(row.1)) by {
            assert(keys.contains(row.1) <==> rest.contains(row.1) || row.1 == keys.last()) by {
                if keys.contains(row.1) {
                    let i = choose|i: int| 0 <= i < keys.len() && keys[i] == row.1;
                    if i < rest.len() {
                        assert(rest[i] == row.1);
                    }
                }
                if rest.contains(row.1) {
                    let i = choose|i: int| 0 <= i < rest.len() && rest[i] == row.1;
                    assert(keys[i] == row.1);
                }
            }
        }
    }
}

/// A port is granted to someone exactly where some grant names it.
pub proof fn lemma_exposes(rows: Rows, port: u16)
    ensures
        exposes(rows, port) <==> exists|key: Seq<char>| #[trigger] rows.contains((port, key)),
{
    if exposes(rows, port) {
        let i = choose|i: int| 0 <= i < rows.len() && (#[trigger] rows[i]).0 == port;
        assert(rows.contains((port, rows[i].1)));
    }
    if exists|key: Seq<char>| #[trigger] rows.contains((port, key)) {
        let key = choose|key: Seq<char>| #[trigger] rows.contains((port, key));
        let i = choose|i: int| 0 <= i < rows.len() && rows[i] == (port, key);
        assert(rows[i].0 == port);
    }
}

/// What a revoke leaves is as sound as what was there.
proof fn lemma_revoked_sound(rows: Rows, port: Option<u16>, key: Option<Seq<char>>)
    requires
        sound(rows),
    ensures
        sound(revoked(rows, port, key)),
    decreases rows.len(),
{
    if rows.len() > 0 {
        let rest = rows.drop_last();
        assert forall|i: int| 0 <= i < rest.len() implies canonical((#[trigger] rest[i]).1) by {
            assert(rest[i] == rows[i]);
        }
        assert(rest.no_duplicates());
        lemma_revoked_sound(rest, port, key);
        a_revoke_leaves_the_others(rest, port, key);
        let left = revoked(rest, port, key);
        if !taken(rows.last(), port, key) {
            assert(!rest.contains(rows.last()));
            assert(!left.contains(rows.last()));
            let next = left.push(rows.last());
            assert forall|i: int, j: int|
                0 <= i < next.len() && 0 <= j < next.len() && i != j implies next[i] != next[j] by {
                if i == left.len() {
                    assert(left[j] != rows.last());
                } else if j == left.len() {
                    assert(left[i] != rows.last());
                }
            }
        }
    }
}

/// A revoke of what is not there takes nothing away.
proof fn lemma_nothing_taken(rows: Rows, port: Option<u16>, key: Option<Seq<char>>)
    requires
        forall|i: int| 0 <= i < rows.len() ==> !taken(#[trigger] rows[i], port, key),
    ensures
        revoked(rows, port, key) == rows,
    decreases rows.len(),
{
    if rows.len() > 0 {
        let rest = rows.drop_last();
        assert forall|i: int| 0 <= i < rest.len() implies !taken(
            #[trigger] rest[i],
            port,
            key,
        ) by {
            assert(rest[i] == rows[i]);
        }
        lemma_nothing_taken(rest, port, key);
        assert(!taken(rows[rows.len() - 1], port, key));
        assert(rest.push(rows.last()) =~= rows);
    }
}

/// A grant to a key as it is written keeps what is held sound.
proof fn lemma_granted_sound(rows: Rows, port: u16, key: Seq<char>)
    requires
        sound(rows),
        canonical(key),
    ensures
        sound(granted(rows, port, key)),
{
    if !rows.contains((port, key)) {
        let next = rows.push((port, key));
        assert forall|i: int, j: int|
            0 <= i < next.len() && 0 <= j < next.len() && i != j implies next[i] != next[j] by {
            if i == rows.len() {
                assert(rows.contains(rows[j]));
            } else if j == rows.len() {
                assert(rows.contains(rows[i]));
            }
        }
    }
}

/// Which port is exposed to which peer.
#[derive(Debug)]
pub struct Grants {
    rows: Vec<(u16, PeerKey)>,
}

/// What each grant holds.
pub open spec fn grant_views(v: Seq<(u16, PeerKey)>) -> Rows {
    v.map_values(|g: (u16, PeerKey)| (g.0, g.1@))
}

impl View for Grants {
    type V = Rows;

    closed spec fn view(&self) -> Rows {
        grant_views(self.rows@)
    }
}

impl Grants {
    /// No grant is held twice, and each names a key as it is written.
    #[verifier::type_invariant]
    pub open spec fn well_formed(self) -> bool {
        sound(self@)
    }

    /// No grants: nothing is exposed to anyone until it is granted.
    pub fn new() -> (r: Self)
        ensures
            r@ == Rows::empty(),
    {
        let rows: Vec<(u16, PeerKey)> = Vec::new();
        proof {
            assert(grant_views(rows@) =~= Rows::empty());
        }
        Grants { rows }
    }

    /// Whether `port` is granted to `key`. Whoever is not named in a grant is
    /// not served.
    pub fn allows(&self, port: u16, key: &PeerKey) -> (r: bool)
        ensures
            r == self@.contains((port, key@)),
    {
        let mut i: usize = 0;
        while i < self.rows.len()
            invariant
                i <= self.rows@.len(),
                self@ == grant_views(self.rows@),
                forall|j: int| 0 <= j < i ==> #[trigger] self@[j] != (port, key@),
            decreases self.rows@.len() - i,
        {
            proof {
                assert(self@[i as int] == (self.rows@[i as int].0, self.rows@[i as int].1@));
            }
            if self.rows[i].0 == port && self.rows[i].1.is(key) {
                return true;
            }
            i = i + 1;
        }
        false
    }

    /// Whether `port` is granted to anyone.
    pub fn exposes(&self, port: u16) -> (r: bool)
        ensures
            r == exposes(self@, port),
    {
        let mut i: usize = 0;
        while i < self.rows.len()
            invariant
                i <= self.rows@.len(),
                self@ == grant_views(self.rows@),
                forall|j: int| 0 <= j < i ==> (#[trigger] self@[j]).0 != port,
            decreases self.rows@.len() - i,
        {
            proof {
                assert(self@[i as int] == (self.rows@[i as int].0, self.rows@[i as int].1@));
            }
            if self.rows[i].0 == port {
                return true;
            }
            i = i + 1;
        }
        false
    }

    /// Grants `port` to `key`.
    pub fn add(&mut self, port: u16, key: &PeerKey)
        ensures
            final(self)@ == granted(old(self)@, port, key@),
    {
        if self.allows(port, key) {
            return;
        }
        let key = key.clone();
        // No row is this one, so every row is left.
        let mut rows = left_of(&self.rows, Some(port), &Some(key.clone()));
        proof {
            use_type_invariant(&*self);
            lemma_nothing_taken(self@, Some(port), Some(key@));
            lemma_granted_sound(self@, port, key@);
            assert(grant_views(rows@.push((port, key))) =~= self@.push((port, key@)));
        }
        rows.push((port, key));
        self.rows = rows;
    }

    /// Grants `port` to each of `keys`.
    pub fn add_all(&mut self, port: u16, keys: &Vec<PeerKey>)
        ensures
            final(self)@ == granted_all(old(self)@, port, key_rows(keys@)),
    {
        let mut i: usize = 0;
        let ghost all = key_rows(keys@);
        while i < keys.len()
            invariant
                i <= keys@.len(),
                all == key_rows(keys@),
                self@ == granted_all(old(self)@, port, all.take(i as int)),
            decreases keys@.len() - i,
        {
            self.add(port, &keys[i]);
            proof {
                assert(all.take(i + 1).drop_last() =~= all.take(i as int));
                assert(all.take(i + 1).last() == keys@[i as int]@);
            }
            i = i + 1;
        }
        proof {
            assert(all.take(keys@.len() as int) =~= all);
        }
    }

    /// Revokes `port` (every port, if none is named) from `key` (from everyone,
    /// if none is named).
    pub fn remove(&mut self, port: Option<u16>, key: &Option<PeerKey>)
        ensures
            final(self)@ == revoked(old(self)@, port, opt_key(*key)),
    {
        proof {
            use_type_invariant(&*self);
        }
        let left = left_of(&self.rows, port, key);
        proof {
            lemma_revoked_sound(self@, port, opt_key(*key));
        }
        self.rows = left;
    }

    /// The ports that are granted to anyone, in ascending order.
    pub fn ports(&self) -> (r: Vec<u16>)
        ensures
            ascending(r@),
            forall|p: u16| r@.contains(p) <==> exposes(self@, p),
    {
        let mut set: BTreeMap<u16, ()> = BTreeMap::new();
        let mut i: usize = 0;
        while i < self.rows.len()
            invariant
                i <= self.rows@.len(),
                self@ == grant_views(self.rows@),
                forall|p: u16| #[trigger]
                    set@.contains_key(p) <==> exists|j: int|
                        0 <= j < i && (#[trigger] self@[j]).0 == p,
            decreases self.rows@.len() - i,
        {
            proof {
                assert(self@[i as int] == (self.rows@[i as int].0, self.rows@[i as int].1@));
            }
            set.insert(self.rows[i].0, ());
            i = i + 1;
        }
        keys_of(&set)
    }

    /// The ports that are granted to `key`, in ascending order. These are what
    /// that peer is told of.
    pub fn ports_for(&self, key: &PeerKey) -> (r: Vec<u16>)
        ensures
            ascending(r@),
            forall|p: u16| r@.contains(p) <==> self@.contains((p, key@)),
    {
        let mut set: BTreeMap<u16, ()> = BTreeMap::new();
        let mut i: usize = 0;
        while i < self.rows.len()
            invariant
                i <= self.rows@.len(),
                self@ == grant_views(self.rows@),
                forall|p: u16| #[trigger]
                    set@.contains_key(p) <==> exists|j: int|
                        0 <= j < i && #[trigger] self@[j] == (p, key@),
            decreases self.rows@.len() - i,
        {
            proof {
                assert(self@[i as int] == (self.rows@[i as int].0, self.rows@[i as int].1@));
            }
            if self.rows[i].1.is(key) {
                set.insert(self.rows[i].0, ());
            }
            i = i + 1;
        }
        keys_of(&set)
    }

    /// Every grant, in the order in which they were given.
    pub fn all(&self) -> (r: Vec<(u16, String)>)
        ensures
            row_texts(r@) == self@,
            sound(self@),
    {
        proof {
            use_type_invariant(self);
        }
        let mut r: Vec<(u16, String)> = Vec::new();
        let mut i: usize = 0;
        while i < self.rows.len()
            invariant
                i <= self.rows@.len(),
                self@ == grant_views(self.rows@),
                row_texts(r@) =~= self@.take(i as int),
            decreases self.rows@.len() - i,
        {
            let ghost before = r@;
            r.push((self.rows[i].0, self.rows[i].1.text()));
            proof {
                assert(row_texts(r@) =~= row_texts(before).push(self@[i as int]));
            }
            i = i + 1;
        }
        proof {
            assert(self@.take(self@.len() as int) =~= self@);
        }
        r
    }
}

/// What a key holds, if it is there.
pub open spec fn opt_key(key: Option<PeerKey>) -> Option<Seq<char>> {
    match key {
        Some(k) => Some(k@),
        None => None,
    }
}

/// What each written grant holds.
pub open spec fn row_texts(v: Seq<(u16, String)>) -> Rows {
    v.map_values(|g: (u16, String)| (g.0, g.1@))
}

/// What a revoke leaves.
fn left_of(rows: &Vec<(u16, PeerKey)>, port: Option<u16>, key: &Option<PeerKey>) -> (r: Vec<
    (u16, PeerKey),
>)
    ensures
        grant_views(r@) == revoked(grant_views(rows@), port, opt_key(*key)),
{
    let ghost all = grant_views(rows@);
    let mut left: Vec<(u16, PeerKey)> = Vec::new();
    let mut i: usize = 0;
    proof {
        assert(grant_views(left@) =~= Rows::empty());
        assert(all.take(0) =~= Rows::empty());
    }
    while i < rows.len()
        invariant
            i <= rows@.len(),
            all == grant_views(rows@),
            grant_views(left@) == revoked(all.take(i as int), port, opt_key(*key)),
        decreases rows@.len() - i,
    {
        proof {
            assert(all.take(i + 1).drop_last() =~= all.take(i as int));
            assert(all.take(i + 1).last() == (rows@[i as int].0, rows@[i as int].1@));
        }
        let in_port = match port {
            Some(p) => rows[i].0 == p,
            None => true,
        };
        let in_key = match key {
            Some(k) => rows[i].1.is(k),
            None => true,
        };
        if !(in_port && in_key) {
            let ghost before = left@;
            left.push((rows[i].0, rows[i].1.clone()));
            proof {
                assert(grant_views(left@) =~= grant_views(before).push(all[i as int]));
            }
        }
        i = i + 1;
    }
    proof {
        assert(all.take(rows@.len() as int) =~= all);
    }
    left
}

// ---------------------------------------------------------------------------
// What can be relied on
// ---------------------------------------------------------------------------

/// What is granted already stays where it is, and granting to one peer and then to others
/// is granting to all of them.
pub proof fn grants_are_added_at_the_end(
    rows: Rows,
    port: u16,
    a: Seq<Seq<char>>,
    b: Seq<Seq<char>>,
    key: Seq<char>,
)
    ensures
        granted_all(rows, port, seq![key]) == (if rows.contains((port, key)) {
            rows
        } else {
            rows.push((port, key))
        }),
        granted_all(rows, port, a + b) == granted_all(granted_all(rows, port, a), port, b),
        rows.is_prefix_of(granted_all(rows, port, a)),
    decreases a.len() + b.len(),
{
    assert(seq![key].drop_last() =~= Seq::empty());
    assert(granted_all(rows, port, seq![key].drop_last()) == rows);
    if b.len() == 0 {
        assert(a + b =~= a);
    } else {
        assert((a + b).drop_last() =~= a + b.drop_last());
        grants_are_added_at_the_end(rows, port, a, b.drop_last(), key);
    }
    if a.len() == 0 {
        assert(rows.subrange(0, rows.len() as int) =~= rows);
    } else if b.len() == 0 {
        grants_are_added_at_the_end(rows, port, a.drop_last(), b, key);
        let before = granted_all(rows, port, a.drop_last());
        let after = granted_all(rows, port, a);
        assert(after.subrange(0, rows.len() as int) =~= before.subrange(0, rows.len() as int));
    }
}

/// A revoke looks at each grant by itself and keeps the order: it takes a grant away
/// exactly where the grant is of the named port, if one is named, and to the named peer, if
/// one is named.
pub proof fn a_revoke_looks_at_each_grant_by_itself(
    a: Rows,
    b: Rows,
    row: (u16, Seq<char>),
    port: Option<u16>,
    key: Option<Seq<char>>,
)
    ensures
        revoked(a + b, port, key) == revoked(a, port, key) + revoked(b, port, key),
        (port is None || port == Some(row.0)) && (key is None || key == Some(row.1)) ==> revoked(
            seq![row],
            port,
            key,
        ) == Rows::empty(),
        (port is Some && port != Some(row.0)) || (key is Some && key != Some(row.1)) ==> revoked(
            seq![row],
            port,
            key,
        ) == seq![row],
    decreases b.len(),
{
    assert(seq![row].drop_last() =~= Rows::empty());
    assert(revoked(seq![row].drop_last(), port, key) =~= Rows::empty());
    assert(Rows::empty().push(row) =~= seq![row]);
    if b.len() == 0 {
        assert(a + b =~= a);
        assert(revoked(a, port, key) + revoked(b, port, key) =~= revoked(a, port, key));
    } else {
        assert((a + b).drop_last() =~= a + b.drop_last());
        a_revoke_looks_at_each_grant_by_itself(a, b.drop_last(), row, port, key);
        assert(revoked(a + b, port, key) =~= revoked(a, port, key) + revoked(b, port, key));
    }
}

/// What is held is what each grant holds, one for one.
pub proof fn every_grant_is_held(v: Seq<(u16, PeerKey)>, w: Seq<(u16, String)>)
    ensures
        grant_views(v).len() == v.len(),
        forall|i: int| 0 <= i < v.len() ==> #[trigger] grant_views(v)[i] == (v[i].0, v[i].1@),
        row_texts(w).len() == w.len(),
        forall|i: int| 0 <= i < w.len() ==> #[trigger] row_texts(w)[i] == (w[i].0, w[i].1@),
{
}

/// A key that may be missing holds what it holds.
pub proof fn an_optional_key_is_held(key: Option<PeerKey>)
    ensures
        opt_key(key) is Some == key is Some,
        key is Some ==> opt_key(key)->0 == key->0@,
{
}

}
