//! The event data model: one immutable capture of an HTTP request.

use vstd::prelude::*;
use crate::text::pair_views;
use crate::urls::lookup_param;

verus! {

/// Mathematical model of an [`Event`]: every field as a plain
/// mathematical value. Contracts throughout the crate speak of this
/// model rather than of the executable representation.
#[verifier::ext_equal]
pub ghost struct EventModel {
    pub id: int,
    pub relative_uri: Seq<char>,
    pub method: Seq<char>,
    pub headers: Seq<(Seq<char>, Seq<char>)>,
    pub body_base64: Seq<char>,
    pub created_at: int,
}

/// One captured HTTP request.
///
/// `id` and `created_at` are assigned by the store at append time.
/// `relative_uri` is the path and query of the original request with
/// the capture prefix stripped. `headers` maps header names to values,
/// one value per name: the capture path collapses duplicate names to
/// their last occurrence (see [`collapsed`]), names compared as
/// received. `body_base64` is the text-safe encoding of the raw body
/// bytes. `created_at` counts seconds since the Unix epoch, UTC.
#[derive(Debug)]
pub struct Event {
    pub id: u32,
    pub relative_uri: String,
    pub method: String,
    pub headers: Vec<(String, String)>,
    pub body_base64: String,
    pub created_at: i64,
}

impl View for Event {
    type V = EventModel;

    open spec fn view(&self) -> EventModel {
        EventModel {
            id: self.id as int,
            relative_uri: self.relative_uri@,
            method: self.method@,
            headers: pair_views(self.headers@),
            body_base64: self.body_base64@,
            created_at: self.created_at as int,
        }
    }
}

/// The models of a sequence of events, in order.
pub open spec fn event_models(s: Seq<Event>) -> Seq<EventModel> {
    Seq::new(s.len(), |i: int| s[i]@)
}

/// Some pair of `h` is named `name`.
pub open spec fn has_name(h: Seq<(Seq<char>, Seq<char>)>, name: Seq<char>) -> bool {
    exists|j: int| 0 <= j < h.len() && h[j].0 == name
}

/// A header list collapsed to one value per name: of several pairs
/// sharing a name, the last occurrence survives, standing where it
/// stood; names are compared exactly, as received. This is the
/// mapping an event stores.
pub open spec fn collapsed(h: Seq<(Seq<char>, Seq<char>)>) -> Seq<(Seq<char>, Seq<char>)>
    decreases h.len(),
{
    if h.len() == 0 {
        Seq::empty()
    } else if has_name(h.drop_first(), h.first().0) {
        collapsed(h.drop_first())
    } else {
        seq![h.first()] + collapsed(h.drop_first())
    }
}

/// Collapsing keeps exactly the names of the input: every pair of a
/// collapsed list came from the input, and no name is lost.
proof fn lemma_collapsed_same_names(h: Seq<(Seq<char>, Seq<char>)>, name: Seq<char>)
    ensures
        has_name(collapsed(h), name) <==> has_name(h, name),
    decreases h.len(),
{
    if h.len() > 0 {
        let rest = h.drop_first();
        lemma_collapsed_same_names(rest, name);
        if has_name(collapsed(h), name) {
            if !has_name(rest, h.first().0) {
                let c = collapsed(h);
                let k = choose|k: int| 0 <= k < c.len() && c[k].0 == name;
                if k == 0 {
                    assert(h[0].0 == name);
                } else {
                    assert(c[k] == collapsed(rest)[k - 1]);
                    assert(has_name(collapsed(rest), name));
                }
            }
            if has_name(rest, name) {
                let j = choose|j: int| 0 <= j < rest.len() && rest[j].0 == name;
                assert(h[j + 1].0 == name);
            }
        }
        if has_name(h, name) {
            let j = choose|j: int| 0 <= j < h.len() && h[j].0 == name;
            if j > 0 {
                assert(rest[j - 1].0 == name);
                assert(has_name(rest, name));
            }
            if has_name(rest, h.first().0) {
                if j == 0 {
                    assert(has_name(rest, name));
                }
                assert(has_name(collapsed(rest), name));
            } else {
                let c = collapsed(h);
                if j == 0 {
                    assert(c[0] == h.first());
                    assert(has_name(c, name));
                } else {
                    let t = choose|t: int|
                        0 <= t < collapsed(rest).len() && collapsed(rest)[t].0 == name;
                    assert(c[t + 1] == collapsed(rest)[t]);
                    assert(has_name(c, name));
                }
            }
        }
    }
}

/// Collapsing law: the collapsed list holds each name at most once.
pub proof fn lemma_collapsed_names_unique(h: Seq<(Seq<char>, Seq<char>)>)
    ensures
        forall|i: int, j: int|
            0 <= i < j < collapsed(h).len() ==> collapsed(h)[i].0 != collapsed(h)[j].0,
    decreases h.len(),
{
    if h.len() > 0 {
        lemma_collapsed_names_unique(h.drop_first());
        if !has_name(h.drop_first(), h.first().0) {
            let c = collapsed(h);
            let rest = collapsed(h.drop_first());
            assert forall|i: int, j: int| 0 <= i < j < c.len() implies c[i].0 != c[j].0 by {
                if i == 0 {
                    assert(c[j] == rest[j - 1]);
                    if c[0].0 == c[j].0 {
                        assert(has_name(rest, h.first().0));
                        lemma_collapsed_same_names(h.drop_first(), h.first().0);
                    }
                } else {
                    assert(c[i] == rest[i - 1]);
                    assert(c[j] == rest[j - 1]);
                }
            }
        }
    }
}

/// A name the lookup finds is a name the list holds.
proof fn lemma_lookup_some_has_name(s: Seq<(Seq<char>, Seq<char>)>, name: Seq<char>)
    ensures
        lookup_param(s, name) is Some ==> has_name(s, name),
    decreases s.len(),
{
    if s.len() > 0 {
        if s.last().0 == name {
            assert(s[s.len() - 1].0 == name);
            assert(has_name(s, name));
        } else {
            lemma_lookup_some_has_name(s.drop_last(), name);
            if lookup_param(s, name) is Some {
                let j = choose|j: int|
                    0 <= j < s.drop_last().len() && s.drop_last()[j].0 == name;
                assert(s[j].0 == name);
                assert(has_name(s, name));
            }
        }
    }
}

/// The last pair of a name wins over everything before it: looking a
/// name up in a concatenation reads the right-hand part first.
proof fn lemma_lookup_concat(
    a: Seq<(Seq<char>, Seq<char>)>,
    b: Seq<(Seq<char>, Seq<char>)>,
    name: Seq<char>,
)
    ensures
        lookup_param(a + b, name) == if has_name(b, name) {
            lookup_param(b, name)
        } else {
            lookup_param(a, name)
        },
    decreases b.len(),
{
    if b.len() == 0 {
        assert(a + b =~= a);
        assert(!has_name(b, name));
    } else {
        let ab = a + b;
        assert(ab.last() == b.last());
        if b.last().0 == name {
            assert(b[b.len() - 1].0 == name);
            assert(has_name(b, name));
        } else {
            assert(ab.drop_last() =~= a + b.drop_last());
            lemma_lookup_concat(a, b.drop_last(), name);
            if has_name(b, name) {
                let j = choose|j: int| 0 <= j < b.len() && b[j].0 == name;
                assert(j < b.len() - 1);
                assert(b.drop_last()[j] == b[j]);
                assert(has_name(b.drop_last(), name));
            }
            if has_name(b.drop_last(), name) {
                let j = choose|j: int|
                    0 <= j < b.drop_last().len() && b.drop_last()[j].0 == name;
                assert(b[j].0 == name);
                assert(has_name(b, name));
            }
        }
    }
}

/// Last-occurrence law: collapsing changes no lookup — for every
/// name, the collapsed list holds exactly the value of the name's
/// last occurrence in the original list.
pub proof fn lemma_collapsed_last_wins(h: Seq<(Seq<char>, Seq<char>)>, name: Seq<char>)
    ensures
        lookup_param(collapsed(h), name) == lookup_param(h, name),
    decreases h.len(),
{
    if h.len() > 0 {
        let f = h.first();
        let rest = h.drop_first();
        lemma_collapsed_last_wins(rest, name);
        lemma_collapsed_same_names(rest, name);
        assert(h =~= seq![f] + rest);
        lemma_lookup_concat(seq![f], rest, name);
        assert(seq![f].drop_last() =~= Seq::<(Seq<char>, Seq<char>)>::empty());
        assert(lookup_param(Seq::<(Seq<char>, Seq<char>)>::empty(), name) is None);
        assert(seq![f].last() == f);
        if has_name(rest, f.0) {
            assert(collapsed(h) == collapsed(rest));
            if has_name(rest, name) {
                assert(lookup_param(h, name) == lookup_param(rest, name));
            } else {
                lemma_lookup_some_has_name(rest, name);
                assert(f.0 != name);
                assert(lookup_param(seq![f], name) is None);
                assert(lookup_param(h, name) is None);
                assert(lookup_param(rest, name) is None);
            }
        } else {
            assert(collapsed(h) == seq![f] + collapsed(rest));
            lemma_lookup_concat(seq![f], collapsed(rest), name);
            if has_name(rest, name) {
                assert(has_name(collapsed(rest), name));
                assert(lookup_param(collapsed(h), name) == lookup_param(collapsed(rest), name));
                assert(lookup_param(h, name) == lookup_param(rest, name));
            } else {
                assert(!has_name(collapsed(rest), name));
                assert(lookup_param(collapsed(h), name) == lookup_param(seq![f], name));
                assert(lookup_param(h, name) == lookup_param(seq![f], name));
            }
        }
    }
}

/// True when some pair of `h` at or past `from` is named `name`.
fn name_again(h: &Vec<(String, String)>, from: usize, name: &str) -> (r: bool)
    requires
        from <= h@.len(),
    ensures
        r == has_name(pair_views(h@).skip(from as int), name@),
{
    let ghost s = pair_views(h@).skip(from as int);
    let mut j: usize = from;
    while j < h.len()
        invariant
            from <= j <= h@.len(),
            s == pair_views(h@).skip(from as int),
            forall|t: int| from <= t < j ==> pair_views(h@)[t].0 != name@,
        decreases h@.len() - j,
    {
        if crate::text::str_eq(h[j].0.as_str(), name) {
            proof {
                assert(s[j - from] == pair_views(h@)[j as int]);
                assert(s[j - from].0 == name@);
                assert(has_name(s, name@));
            }
            return true;
        }
        j = j + 1;
    }
    proof {
        assert forall|t: int| 0 <= t < s.len() implies s[t].0 != name@ by {
            assert(s[t] == pair_views(h@)[t + from]);
        }
    }
    false
}

fn collapse_suffix(h: &Vec<(String, String)>, i: usize) -> (r: Vec<(String, String)>)
    requires
        i <= h@.len(),
    ensures
        pair_views(r@) == collapsed(pair_views(h@).skip(i as int)),
    decreases h@.len() - i,
{
    let ghost s = pair_views(h@).skip(i as int);
    if i == h.len() {
        let r: Vec<(String, String)> = Vec::new();
        proof {
            assert(s =~= Seq::<(Seq<char>, Seq<char>)>::empty());
            assert(pair_views(r@) =~= collapsed(s));
        }
        r
    } else {
        proof {
            assert(s.len() > 0);
            assert(s.drop_first() =~= pair_views(h@).skip(i + 1));
            assert(s.first() == pair_views(h@)[i as int]);
        }
        let dup = name_again(h, i + 1, h[i].0.as_str());
        let mut rest = collapse_suffix(h, i + 1);
        if dup {
            rest
        } else {
            let k = h[i].0.clone();
            let v = h[i].1.clone();
            rest.insert(0, (k, v));
            proof {
                assert(pair_views(rest@) =~= seq![s.first()] + collapsed(s.drop_first()));
            }
            rest
        }
    }
}

/// Collapse a header list to one value per name, the last occurrence
/// of each name winning.
pub fn collapse_headers(h: &Vec<(String, String)>) -> (r: Vec<(String, String)>)
    ensures
        pair_views(r@) == collapsed(pair_views(h@)),
{
    let r = collapse_suffix(h, 0);
    proof {
        assert(pair_views(h@).skip(0) =~= pair_views(h@));
    }
    r
}

/// Copy a header list. The copy's view is exactly the original's.
pub fn clone_headers(h: &Vec<(String, String)>) -> (r: Vec<(String, String)>)
    ensures
        r@ == h@,
{
    let mut out: Vec<(String, String)> = Vec::new();
    let mut i: usize = 0;
    while i < h.len()
        invariant
            0 <= i <= h@.len(),
            out@ =~= h@.take(i as int),
        decreases h@.len() - i,
    {
        let k = h[i].0.clone();
        let v = h[i].1.clone();
        out.push((k, v));
        proof {
            assert(out@ =~= h@.take(i + 1));
        }
        i = i + 1;
    }
    proof {
        assert(out@ =~= h@);
    }
    out
}

impl Clone for Event {
    /// The copy has the same model as the original.
    fn clone(&self) -> (r: Self)
        ensures
            r@ == self@,
    {
        let r = Event {
            id: self.id,
            relative_uri: self.relative_uri.clone(),
            method: self.method.clone(),
            headers: clone_headers(&self.headers),
            body_base64: self.body_base64.clone(),
            created_at: self.created_at,
        };
        proof {
            assert(r@ =~= self@);
        }
        r
    }
}

} // verus!
