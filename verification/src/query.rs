//! Decoding a query string into a name-to-value mapping.

use vstd::prelude::*;
use crate::fields::{last_wins, text_pairs, written_in_turn, FieldMap};

verus! {

/// The (name, value) pairs that form-urlencoded decoding reads from a query
/// string, in the order in which they stand in it.
pub uninterp spec fn form_pairs(query: Seq<char>) -> Seq<(Seq<char>, Seq<char>)>;

/// The mapping recorded for the query part of a request target: empty where
/// the target has no query part, otherwise the decoded pairs written in
/// order.
pub open spec fn query_fields(query: Option<Seq<char>>) -> Map<Seq<char>, Seq<char>> {
    match query {
        Some(q) => last_wins(form_pairs(q)),
        None => Map::empty(),
    }
}

/// The entries stored for the query part of a request target, in order:
/// none where the target has no query part, otherwise the decoded pairs
/// written in turn.
pub open spec fn query_order(query: Option<Seq<char>>) -> Seq<(Seq<char>, Seq<char>)> {
    match query {
        Some(q) => written_in_turn(form_pairs(q)),
        None => Seq::empty(),
    }
}

/// Calls `form_urlencoded::parse` of the `url` crate on the bytes of the
/// query string and collects the owned pairs that its iterator yields.
/// Trusted: the pairs are a function of the query string alone, which
/// `form_pairs` names.
#[verifier::external_body]
fn decode_pairs(query: &str) -> (r: Vec<(String, String)>)
    ensures
        text_pairs(r@) == form_pairs(query@),
{
    url::form_urlencoded::parse(query.as_bytes()).into_owned().collect()
}

/// Writes decoded pairs into a mapping, in order; of a repeated name the
/// last value stays.
pub fn collect_pairs(pairs: &Vec<(String, String)>) -> (r: FieldMap)
    ensures
        r.wf(),
        r@ == last_wins(text_pairs(pairs@)),
        r.order() == written_in_turn(text_pairs(pairs@)),
{
    let mut map = FieldMap::new();
    let mut i: usize = 0;
    while i < pairs.len()
        invariant
            i <= pairs@.len(),
            map.wf(),
            map@ == last_wins(text_pairs(pairs@).take(i as int)),
            map.order() == written_in_turn(text_pairs(pairs@).take(i as int)),
        decreases pairs@.len() - i,
    {
        let name = pairs[i].0.clone();
        let value = pairs[i].1.clone();
        map.insert(name, value);
        proof {
            let all = text_pairs(pairs@);
            assert(all.take(i + 1).drop_last() =~= all.take(i as int));
            assert(all.take(i + 1).last() == all[i as int]);
        }
        i += 1;
    }
    proof {
        assert(text_pairs(pairs@).take(i as int) =~= text_pairs(pairs@));
    }
    map
}

/// The query parameters of a request, given the query part of its target if
/// it has one.
pub fn parse_query(query: Option<&String>) -> (r: FieldMap)
    ensures
        r.wf(),
        r@ == query_fields(
            match query {
                Some(q) => Some(q@),
                None => None,
            },
        ),
        r.order() == query_order(
            match query {
                Some(q) => Some(q@),
                None => None,
            },
        ),
{
    match query {
        Some(q) => {
            let pairs = decode_pairs(q.as_str());
            collect_pairs(&pairs)
        },
        None => FieldMap::new(),
    }
}

} // verus!
