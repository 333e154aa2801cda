//! Peer keys: who a peer is.

use crate::protocol::{ErrorKind, FailureView, Report};
use crate::text::{same, texts};
use vstd::prelude::*;

verus! {

/// The endpoint id that iroh reads in a text, in the form in which iroh writes
/// it, or what iroh says of a text that is none.
pub uninterp spec fn endpoint_id_of(text: Seq<char>) -> Result<Seq<char>, Seq<char>>;

/// Whether `c` is a digit of a number in lower-case hexadecimal.
pub open spec fn is_hex(c: char) -> bool {
    '0' <= c <= '9' || 'a' <= c <= 'f'
}

/// `str::parse` into `iroh::EndpointId`, and `to_string` on what comes out. An
/// id is written as 64 hexadecimal digits, and reads as itself. Which texts
/// iroh accepts rests on the text alone, and is not stated.
#[verifier::external_body]
fn read_endpoint_id(text: &str) -> (r: Result<String, String>)
    ensures
        match r {
            Ok(id) => {
                &&& endpoint_id_of(text@) == Ok::<Seq<char>, Seq<char>>(id@)
                &&& endpoint_id_of(id@) == Ok::<Seq<char>, Seq<char>>(id@)
                &&& id@.len() == 64
                &&& forall|i: int| 0 <= i < id@.len() ==> is_hex(#[trigger] id@[i])
            },
            Err(e) => endpoint_id_of(text@) == Err::<Seq<char>, Seq<char>>(e@),
        },
{
    match text.parse::<iroh::EndpointId>() {
        Ok(id) => Ok(id.to_string()),
        Err(e) => Err(e.to_string()),
    }
}

/// Whether a text is an endpoint id as iroh writes it.
pub open spec fn canonical(text: Seq<char>) -> bool {
    &&& endpoint_id_of(text) == Ok::<Seq<char>, Seq<char>>(text)
    &&& text.len() == 64
    &&& forall|i: int| 0 <= i < text.len() ==> is_hex(#[trigger] text[i])
}

/// A peer's key.
#[derive(Debug)]
pub struct PeerKey {
    text: String,
}

impl View for PeerKey {
    type V = Seq<char>;

    closed spec fn view(&self) -> Seq<char> {
        self.text@
    }
}

impl PeerKey {
    #[verifier::type_invariant]
    spec fn is_canonical(self) -> bool {
        canonical(self.text@)
    }

    /// The key as it is written: 64 hexadecimal digits.
    pub fn text(&self) -> (r: String)
        ensures
            r@ == self@,
            canonical(self@),
    {
        proof {
            use_type_invariant(self);
        }
        self.text.clone()
    }

    /// Whether this is the key `other`.
    pub fn is(&self, other: &PeerKey) -> (r: bool)
        ensures
            r == (self@ == other@),
    {
        same(self.text.as_str(), other.text.as_str())
    }
}

impl Clone for PeerKey {
    fn clone(&self) -> (r: Self)
        ensures
            r@ == self@,
            canonical(r@),
    {
        proof {
            use_type_invariant(self);
        }
        PeerKey { text: self.text.clone() }
    }
}

/// What each key holds.
pub open spec fn key_rows(v: Seq<PeerKey>) -> Seq<Seq<char>> {
    v.map_values(|k: PeerKey| k@)
}

/// The refusal of a text that is no key, with what was said of it.
pub open spec fn no_key(said: Seq<char>) -> FailureView {
    FailureView { kind: ErrorKind::Invalid, message: "invalid peer key: "@ + said }
}

/// The refusal of a text that is no key, classified so a typo exits 2 rather
/// than 1.
pub fn refuse_key(said: &str) -> (r: Report)
    ensures
        r@ == no_key(said@),
        r.links@.len() > 0,
{
    let mut m = "invalid peer key: ".to_owned();
    m.append(said);
    Report::failure(ErrorKind::Invalid, m)
}

/// The key that a text names, or how it is refused.
pub open spec fn parsed(text: Seq<char>) -> Result<Seq<char>, FailureView> {
    match endpoint_id_of(text) {
        Ok(id) => Ok(id),
        Err(said) => Err(no_key(said)),
    }
}

/// Reads a key.
pub fn parse_key(text: &str) -> (r: Result<PeerKey, Report>)
    ensures
        match r {
            Ok(key) => parsed(text@) == Ok::<Seq<char>, FailureView>(key@) && canonical(key@),
            Err(e) => parsed(text@) == Err::<Seq<char>, FailureView>(e@) && e.links@.len() > 0,
        },
{
    match read_endpoint_id(text) {
        Ok(text) => Ok(PeerKey { text }),
        Err(said) => Err(refuse_key(said.as_str())),
    }
}

/// The keys that all of `texts` name, or how the first that names none is
/// refused.
pub open spec fn all_parsed(texts: Seq<Seq<char>>) -> Result<Seq<Seq<char>>, FailureView>
    decreases texts.len(),
{
    if texts.len() == 0 {
        Ok(Seq::empty())
    } else {
        match all_parsed(texts.drop_last()) {
            Err(f) => Err(f),
            Ok(keys) => match parsed(texts.last()) {
                Ok(key) => Ok(keys.push(key)),
                Err(f) => Err(f),
            },
        }
    }
}

/// A refusal among the first of `texts` refuses them all.
proof fn lemma_first_refusal(texts: Seq<Seq<char>>, n: int)
    requires
        0 <= n <= texts.len(),
        all_parsed(texts.take(n)) is Err,
    ensures
        all_parsed(texts) == all_parsed(texts.take(n)),
    decreases texts.len() - n,
{
    if n == texts.len() {
        assert(texts.take(n) =~= texts);
    } else {
        assert(texts.take(n + 1).drop_last() =~= texts.take(n));
        lemma_first_refusal(texts, n + 1);
    }
}

/// Reads every key, or stops at the first that is none.
pub fn parse_keys(list: &Vec<String>) -> (r: Result<Vec<PeerKey>, Report>)
    ensures
        match r {
            Ok(keys) => all_parsed(texts(list@)) == Ok::<Seq<Seq<char>>, FailureView>(
                key_rows(keys@),
            ),
            Err(e) => all_parsed(texts(list@)) == Err::<Seq<Seq<char>>, FailureView>(e@)
                && e.links@.len() > 0,
        },
{
    let ghost all = texts(list@);
    let mut keys: Vec<PeerKey> = Vec::new();
    let mut i: usize = 0;
    proof {
        assert(key_rows(keys@) =~= Seq::empty());
    }
    while i < list.len()
        invariant
            i <= list@.len(),
            all == texts(list@),
            all_parsed(all.take(i as int)) == Ok::<Seq<Seq<char>>, FailureView>(key_rows(keys@)),
        decreases list@.len() - i,
    {
        proof {
            assert(all.take(i + 1).drop_last() =~= all.take(i as int));
            assert(all.take(i + 1).last() == list@[i as int]@);
        }
        match parse_key(list[i].as_str()) {
            Ok(key) => {
                let ghost before = keys@;
                keys.push(key);
                proof {
                    assert(key_rows(keys@) =~= key_rows(before).push(key@));
                }
            },
            Err(e) => {
                proof {
                    lemma_first_refusal(all, i + 1);
                }
                return Err(e);
            },
        }
        i = i + 1;
    }
    proof {
        assert(all.take(list@.len() as int) =~= all);
    }
    Ok(keys)
}

/// The keys that some of `texts` name, where the others are passed over.
pub open spec fn known_keys(texts: Seq<Seq<char>>) -> Seq<Seq<char>>
    decreases texts.len(),
{
    if texts.len() == 0 {
        Seq::empty()
    } else {
        match endpoint_id_of(texts.last()) {
            Ok(key) => known_keys(texts.drop_last()).push(key),
            Err(_) => known_keys(texts.drop_last()),
        }
    }
}

/// Reads the keys that can be read.
pub fn readable_keys(list: &Vec<String>) -> (r: Vec<PeerKey>)
    ensures
        key_rows(r@) == known_keys(texts(list@)),
{
    let ghost all = texts(list@);
    let mut keys: Vec<PeerKey> = Vec::new();
    let mut i: usize = 0;
    proof {
        assert(key_rows(keys@) =~= Seq::empty());
    }
    while i < list.len()
        invariant
            i <= list@.len(),
            all == texts(list@),
            key_rows(keys@) == known_keys(all.take(i as int)),
        decreases list@.len() - i,
    {
        proof {
            assert(all.take(i + 1).drop_last() =~= all.take(i as int));
            assert(all.take(i + 1).last() == list@[i as int]@);
        }
        match parse_key(list[i].as_str()) {
            Ok(key) => {
                let ghost before = keys@;
                keys.push(key);
                proof {
                    assert(key_rows(keys@) =~= key_rows(before).push(key@));
                }
            },
            Err(_) => {},
        }
        i = i + 1;
    }
    proof {
        assert(all.take(list@.len() as int) =~= all);
    }
    keys
}

// ---------------------------------------------------------------------------
// What can be relied on
// ---------------------------------------------------------------------------

/// A list of keys holds what each of them holds, one for one.
pub proof fn every_key_is_held(v: Seq<PeerKey>)
    ensures
        key_rows(v).len() == v.len(),
        forall|i: int| 0 <= i < v.len() ==> #[trigger] key_rows(v)[i] == v[i]@,
{
}

/// Keys are all read, one for one and in order, or none is: they are refused exactly
/// where one of the texts is no key, in the words for the first that is none.
pub proof fn keys_are_read_one_for_one(texts: Seq<Seq<char>>)
    ensures
        all_parsed(texts) is Ok <==> forall|i: int|
            0 <= i < texts.len() ==> endpoint_id_of(#[trigger] texts[i]) is Ok,
        all_parsed(texts) matches Ok(keys) ==> keys.len() == texts.len() && forall|i: int|
            0 <= i < texts.len() ==> endpoint_id_of(#[trigger] texts[i]) == Ok::<
                Seq<char>,
                Seq<char>,
            >(keys[i]),
        all_parsed(texts) matches Err(f) ==> exists|i: int|
            {
                &&& 0 <= i < texts.len()
                &&& #[trigger] endpoint_id_of(texts[i]) is Err
                &&& f == (FailureView {
                    kind: ErrorKind::Invalid,
                    message: "invalid peer key: "@ + endpoint_id_of(texts[i])->Err_0,
                })
                &&& forall|j: int| 0 <= j < i ==> endpoint_id_of(#[trigger] texts[j]) is Ok
            },
    decreases texts.len(),
{
    if texts.len() > 0 {
        let rest = texts.drop_last();
        keys_are_read_one_for_one(rest);
        match all_parsed(rest) {
            Err(f) => {
                let i = choose|i: int|
                    {
                        &&& 0 <= i < rest.len()
                        &&& #[trigger] endpoint_id_of(rest[i]) is Err
                        &&& f == (FailureView {
                            kind: ErrorKind::Invalid,
                            message: "invalid peer key: "@ + endpoint_id_of(rest[i])->Err_0,
                        })
                        &&& forall|j: int| 0 <= j < i ==> endpoint_id_of(#[trigger] rest[j]) is Ok
                    };
                assert(texts[i] == rest[i]);
                assert forall|j: int| 0 <= j < i implies endpoint_id_of(
                    #[trigger] texts[j],
                ) is Ok by {
                    assert(texts[j] == rest[j]);
                }
                assert(endpoint_id_of(texts[i]) is Err);
            },
            Ok(keys) => {
                assert forall|j: int| 0 <= j < rest.len() implies endpoint_id_of(
                    #[trigger] texts[j],
                ) == Ok::<Seq<char>, Seq<char>>(keys[j]) by {
                    assert(texts[j] == rest[j]);
                }
                let last = texts[texts.len() - 1];
                if endpoint_id_of(last) is Err {
                    assert(endpoint_id_of(texts[texts.len() - 1]) is Err);
                }
            },
        }
    }
}

/// The keys that can be read are those that can be read in the parts of a list, one part
/// after the other: a text that is a key gives that key, and any other gives none.
pub proof fn readable_keys_are_kept_in_order(a: Seq<Seq<char>>, b: Seq<Seq<char>>, text: Seq<char>)
    ensures
        known_keys(a + b) == known_keys(a) + known_keys(b),
        known_keys(seq![text]) == (match endpoint_id_of(text) {
            Ok(key) => seq![key],
            Err(_) => Seq::empty(),
        }),
    decreases b.len(),
{
    assert(seq![text].drop_last() =~= Seq::empty());
    assert(known_keys(seq![text].drop_last()) =~= Seq::<Seq<char>>::empty());
    match endpoint_id_of(text) {
        Ok(key) => {
            assert(known_keys(seq![text]) =~= seq![key]);
        },
        Err(_) => {},
    }
    if b.len() == 0 {
        assert(a + b =~= a);
        assert(known_keys(a) + known_keys(b) =~= known_keys(a));
    } else {
        assert((a + b).drop_last() =~= a + b.drop_last());
        readable_keys_are_kept_in_order(a, b.drop_last(), text);
        assert(known_keys(a + b) =~= known_keys(a) + known_keys(b));
    }
}

/// A text names the key that iroh reads in it, and is refused as an invalid request, with
/// what iroh says, where iroh reads none.
pub proof fn a_text_names_the_key_that_is_read_in_it(text: Seq<char>)
    ensures
        endpoint_id_of(text) matches Ok(key) ==> parsed(text) == Ok::<Seq<char>, FailureView>(key),
        endpoint_id_of(text) matches Err(said) ==> parsed(text) == Err::<Seq<char>, FailureView>(
            FailureView { kind: ErrorKind::Invalid, message: "invalid peer key: "@ + said },
        ),
{
}

}
