//! Enrollment: how a peer that nobody knows gets in.
//!
//! A connection from an unknown key is refused unless it presents a one-time
//! token. A valid claim pins the key under the token's label, and spends the token.

use crate::keys::{key_rows, PeerKey};
use crate::protocol::{ErrorKind, FailureView, Report};
use crate::text::{hex, hex_text, same};
use vstd::prelude::*;

verus! {

/// How long a token can be claimed, in nanoseconds: five minutes.
pub const TOKEN_LIFE: u64 = 300_000_000_000;

/// A token that was minted and not claimed yet.
#[derive(Debug)]
pub struct Minted {
    pub token: String,
    /// Label to pin the enrolling peer under.
    pub label: String,
    /// When it was minted, in nanoseconds on a clock that never goes back.
    pub at: u64,
}

/// The label of each token, and when it was minted.
pub open spec fn outstanding(rows: Seq<Minted>) -> Map<Seq<char>, (Seq<char>, u64)>
    decreases rows.len(),
{
    if rows.len() == 0 {
        Map::empty()
    } else {
        outstanding(rows.drop_last()).insert(
            rows.last().token@,
            (rows.last().label@, rows.last().at),
        )
    }
}

/// The label that a token gives at `now`, if it is still valid.
pub open spec fn claimed(
    tokens: Map<Seq<char>, (Seq<char>, u64)>,
    token: Seq<char>,
    now: u64,
) -> Option<Seq<char>> {
    if tokens.contains_key(token) && now - tokens[token].1 < TOKEN_LIFE {
        Some(tokens[token].0)
    } else {
        None
    }
}

/// The one-time tokens that are outstanding.
#[derive(Debug)]
pub struct Tokens {
    minted: Vec<Minted>,
}

/// `rows` without `token`, and its label and time if it was there.
fn taken_out(rows: &Vec<Minted>, token: &str) -> (r: (Vec<Minted>, Option<(String, u64)>))
    ensures
        outstanding(r.0@) == outstanding(rows@).remove(token@),
        match r.1 {
            Some((label, at)) => outstanding(rows@).contains_key(token@) && outstanding(
                rows@,
            )[token@] == (label@, at),
            None => !outstanding(rows@).contains_key(token@),
        },
{
    let mut kept: Vec<Minted> = Vec::new();
    let mut found: Option<(String, u64)> = None;
    let mut i: usize = 0;
    proof {
        assert(outstanding(kept@) =~= outstanding(rows@.take(0)).remove(token@));
    }
    while i < rows.len()
        invariant
            i <= rows@.len(),
            outstanding(kept@) == outstanding(rows@.take(i as int)).remove(token@),
            match found {
                Some((label, at)) => outstanding(rows@.take(i as int)).contains_key(token@)
                    && outstanding(rows@.take(i as int))[token@] == (label@, at),
                None => !outstanding(rows@.take(i as int)).contains_key(token@),
            },
        decreases rows@.len() - i,
    {
        proof {
            assert(rows@.take(i + 1).drop_last() =~= rows@.take(i as int));
        }
        let row: &Minted = &rows[i];
        let ghost before = kept@;
        if same(row.token.as_str(), token) {
            found = Some((row.label.clone(), row.at));
        } else {
            kept.push(
                Minted { token: row.token.clone(), label: row.label.clone(), at: row.at },
            );
            proof {
                assert(kept@.drop_last() =~= before);
            }
        }
        proof {
            assert(outstanding(kept@) =~= outstanding(rows@.take(i + 1)).remove(token@));
        }
        i = i + 1;
    }
    proof {
        assert(rows@.take(rows@.len() as int) =~= rows@);
    }
    (kept, found)
}

impl Tokens {
    /// The label of each token that is outstanding, and when it was minted.
    pub closed spec fn known(self) -> Map<Seq<char>, (Seq<char>, u64)> {
        outstanding(self.minted@)
    }

    /// No tokens.
    pub fn new() -> (r: Self)
        ensures
            r.known() == Map::<Seq<char>, (Seq<char>, u64)>::empty(),
    {
        Tokens { minted: Vec::new() }
    }

    /// Mints the token that `random` spells in hexadecimal.
    pub fn mint(&mut self, random: &Vec<u8>, label: String, now: u64) -> (r: String)
        ensures
            r@ == hex(random@),
            final(self).known() == old(self).known().insert(r@, (label@, now)),
    {
        let token = hex_text(random);
        let ghost before = self.minted@;
        self.minted.push(Minted { token: token.clone(), label, at: now });
        proof {
            assert(self.minted@.drop_last() =~= before);
        }
        token
    }

    /// Claims a token: its label, if it is still valid. It is spent either way.
    pub fn claim(&mut self, token: &str, now: u64) -> (r: Option<String>)
        ensures
            final(self).known() == old(self).known().remove(token@),
            match r {
                Some(label) => claimed(old(self).known(), token@, now) == Some(label@),
                None => claimed(old(self).known(), token@, now) is None,
            },
    {
        let (kept, found) = taken_out(&self.minted, token);
        self.minted = kept;
        match found {
            Some((label, at)) => {
                if now < at || now - at < TOKEN_LIFE {
                    Some(label)
                } else {
                    None
                }
            },
            None => None,
        }
    }
}

/// A token can be claimed once: whatever came of it, it is not valid afterwards.
pub proof fn a_token_is_claimed_once(
    tokens: Map<Seq<char>, (Seq<char>, u64)>,
    token: Seq<char>,
    later: u64,
)
    ensures
        claimed(tokens.remove(token), token, later) is None,
{
}

/// A token is valid for five minutes and not longer.
pub proof fn a_token_is_valid_for_five_minutes(
    tokens: Map<Seq<char>, (Seq<char>, u64)>,
    token: Seq<char>,
    label: Seq<char>,
    at: u64,
    now: u64,
)
    requires
        at <= now,
    ensures
        claimed(tokens.insert(token, (label, at)), token, now) == (if now - at
            < 300_000_000_000 {
            Some(label)
        } else {
            None
        }),
{
}

/// What becomes of an incoming connection.
#[derive(Debug)]
pub enum Admission {
    /// The peer is known.
    Known,
    /// The peer is to be pinned under this label.
    Enrolled { label: String },
}

/// Decides on a connection from `key`, where `known` are the peers that were
/// pinned or added, and `presented` is the token it came with, if any.
pub fn receive(
    tokens: &mut Tokens,
    known: &Vec<PeerKey>,
    key: &PeerKey,
    presented: Option<&str>,
    now: u64,
) -> (r: Result<Admission, Report>)
    ensures
        ({
            let label = match presented {
                Some(t) => claimed(old(tokens).known(), t@, now),
                None => None,
            };
            if key_rows(known@).contains(key@) {
                r matches Ok(Admission::Known) && final(tokens).known() == old(tokens).known()
            } else {
                &&& match label {
                    Some(l) => r matches Ok(Admission::Enrolled { label }) && label@ == l,
                    None => r matches Err(e) && e@ == (FailureView {
                        kind: ErrorKind::Denied,
                        message: "unknown peer "@ + key@,
                    }),
                }
                &&& match presented {
                    Some(t) => final(tokens).known() == old(tokens).known().remove(t@),
                    None => final(tokens).known() == old(tokens).known(),
                }
            }
        }),
{
    let mut i: usize = 0;
    while i < known.len()
        invariant
            i <= known@.len(),
            tokens.known() == old(tokens).known(),
            forall|j: int| 0 <= j < i ==> #[trigger] key_rows(known@)[j] != key@,
        decreases known@.len() - i,
    {
        if known[i].is(key) {
            proof {
                assert(key_rows(known@)[i as int] == key@);
            }
            return Ok(Admission::Known);
        }
        i = i + 1;
    }
    let label = match presented {
        Some(t) => tokens.claim(t, now),
        None => None,
    };
    match label {
        Some(label) => Ok(Admission::Enrolled { label }),
        None => {
            let mut m = "unknown peer ".to_owned();
            m.append(key.text().as_str());
            Err(Report::failure(ErrorKind::Denied, m))
        },
    }
}

/// Claiming one token makes no difference to the others, and neither does minting one:
/// each gives its own label, and a token that was never minted gives none.
pub proof fn every_token_gives_its_own_label(
    tokens: Map<Seq<char>, (Seq<char>, u64)>,
    token: Seq<char>,
    other: Seq<char>,
    label: Seq<char>,
    at: u64,
    now: u64,
)
    ensures
        !tokens.contains_key(token) ==> claimed(tokens, token, now) is None,
        token != other ==> claimed(tokens.remove(other), token, now) == claimed(tokens, token, now),
        token != other ==> claimed(tokens.insert(other, (label, at)), token, now) == claimed(
            tokens,
            token,
            now,
        ),
        now < at ==> claimed(tokens.insert(token, (label, at)), token, now) == Some(label),
{
}

}
