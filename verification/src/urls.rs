//! URL handling done by the `url` crate: splitting a query string
//! into pairs, and resolving an event's relative URI against the
//! destination base.

use vstd::prelude::*;
use crate::text::pair_views;

verus! {

/// The name/value pairs of a query string in the
/// `application/x-www-form-urlencoded` syntax, percent-decoded, in
/// order of appearance.
pub uninterp spec fn form_decoded(q: Seq<char>) -> Seq<(Seq<char>, Seq<char>)>;

/// Relies on `url::form_urlencoded::parse`: splitting a query string
/// into percent-decoded name/value pairs depends on the characters
/// alone.
#[verifier::external_body]
pub(crate) fn parse_query_pairs(q: &str) -> (r: Vec<(String, String)>)
    ensures
        pair_views(r@) == form_decoded(q@),
{
    url::form_urlencoded::parse(q.as_bytes()).into_owned().collect()
}

/// The value of the last pair named `key`, or `None` when no pair is.
/// Reading the last occurrence matches collecting the pairs into a
/// map where later duplicates overwrite earlier ones.
pub open spec fn lookup_param(pairs: Seq<(Seq<char>, Seq<char>)>, key: Seq<char>) -> Option<
    Seq<char>,
>
    decreases pairs.len(),
{
    if pairs.len() == 0 {
        None
    } else if pairs.last().0 == key {
        Some(pairs.last().1)
    } else {
        lookup_param(pairs.drop_last(), key)
    }
}

/// Find the last value given for `key` among the decoded pairs.
pub fn find_param(pairs: &Vec<(String, String)>, key: &str) -> (r: Option<String>)
    ensures
        r is Some <==> lookup_param(pair_views(pairs@), key@) is Some,
        r is Some ==> r->Some_0@ == lookup_param(pair_views(pairs@), key@)->Some_0,
{
    proof {
        assert(pair_views(pairs@).take(pairs@.len() as int) =~= pair_views(pairs@));
    }
    let mut i: usize = pairs.len();
    while i > 0
        invariant
            0 <= i <= pairs@.len(),
            lookup_param(pair_views(pairs@), key@) == lookup_param(
                pair_views(pairs@).take(i as int),
                key@,
            ),
        decreases i,
    {
        i = i - 1;
        proof {
            let pv = pair_views(pairs@);
            assert(pv.take(i + 1).drop_last() =~= pv.take(i as int));
            assert(pv.take(i + 1).last() == pv[i as int]);
        }
        if crate::text::str_eq(pairs[i].0.as_str(), key) {
            return Some(pairs[i].1.clone());
        }
    }
    proof {
        assert(pair_views(pairs@).take(0) =~= Seq::<(Seq<char>, Seq<char>)>::empty());
    }
    None
}

/// What resolving `rel` against the absolute URL `base` yields:
/// `None` when `base` does not parse as a URL or `rel` cannot be
/// joined to it.
pub uninterp spec fn joined_url(base: Seq<char>, rel: Seq<char>) -> Option<Seq<char>>;

/// Relies on `url::Url::parse` and `url::Url::join`: resolving a
/// relative reference against an absolute base URL depends on the two
/// strings alone.
#[verifier::external_body]
pub(crate) fn join_url(base: &str, rel: &str) -> (r: Option<String>)
    ensures
        r is Some <==> joined_url(base@, rel@) is Some,
        r is Some ==> r->Some_0@ == joined_url(base@, rel@)->Some_0,
{
    match url::Url::parse(base) {
        Ok(u) => match u.join(rel) {
            Ok(j) => Some(String::from(j)),
            Err(_) => None,
        },
        Err(_) => None,
    }
}

} // verus!
