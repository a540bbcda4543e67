//! The parameters of a query string.

use crate::text::{carries, pairs_view, TextPair};
use vstd::prelude::*;

verus! {

/// The mapping that a list of pairs stands for: each key maps to the value
/// of its last pair.
pub open spec fn last_wins(pairs: Seq<TextPair>) -> Map<Seq<char>, Seq<char>>
    decreases pairs.len(),
{
    if pairs.len() == 0 {
        Map::empty()
    } else {
        last_wins(pairs.drop_last()).insert(pairs.last().0, pairs.last().1)
    }
}

/// A key is mapped exactly when some pair carries it.
pub proof fn lemma_last_wins_domain(pairs: Seq<TextPair>, key: Seq<char>)
    ensures
        last_wins(pairs).contains_key(key) <==> carries(pairs, key),
    decreases pairs.len(),
{
    if pairs.len() > 0 {
        let front = pairs.drop_last();
        lemma_last_wins_domain(front, key);
        if carries(pairs, key) {
            let i = choose|i: int| 0 <= i < pairs.len() && (#[trigger] pairs[i]).0 == key;
            if i < front.len() {
                assert(front[i].0 == key);
            }
        }
    }
}

/// A key maps to the value of the pair at `i` when no later pair carries it.
pub proof fn lemma_last_wins_value(pairs: Seq<TextPair>, i: int)
    requires
        0 <= i < pairs.len(),
        forall|j: int| i < j < pairs.len() ==> (#[trigger] pairs[j]).0 != pairs[i].0,
    ensures
        last_wins(pairs).contains_key(pairs[i].0),
        last_wins(pairs)[pairs[i].0] == pairs[i].1,
    decreases pairs.len(),
{
    if i < pairs.len() - 1 {
        let front = pairs.drop_last();
        assert forall|j: int| i < j < front.len() implies (#[trigger] front[j]).0
            != front[i].0 by {}
        lemma_last_wins_value(front, i);
    }
}

/// The pairs of a query string in the form that HTML forms send: the
/// pieces between `&`, empty ones left out, each split at its first `=`,
/// with `+` read as a blank and both sides percent-decoded and read as
/// UTF-8, a replacement character standing for what is none.
pub uninterp spec fn form_pairs(raw: Seq<char>) -> Seq<(Seq<char>, Seq<char>)>;

/// Calls `form_urlencoded::parse` and collects the pairs it yields, in
/// order. The contract names the result: the same query string always
/// gives the same pairs.
#[verifier::external_body]
fn parse_form(raw: &str) -> (pairs: Vec<(String, String)>)
    ensures
        pairs_view(pairs@) == form_pairs(raw@),
{
    form_urlencoded::parse(raw.as_bytes()).into_owned().collect()
}

/// The parameters of a query string: a mapping from key to value. Where a
/// key was given more than once, the last value stands.
#[derive(Clone, Debug)]
pub struct Query {
    pairs: Vec<(String, String)>,
}

impl View for Query {
    type V = Map<Seq<char>, Seq<char>>;

    closed spec fn view(&self) -> Map<Seq<char>, Seq<char>> {
        last_wins(pairs_view(self.pairs@))
    }
}

impl Query {
    /// The empty mapping.
    pub fn new() -> (query: Query)
        ensures
            query@ == Map::<Seq<char>, Seq<char>>::empty(),
    {
        Query { pairs: Vec::new() }
    }

    /// The mapping that a list of pairs stands for, the last pair of a key
    /// deciding its value.
    pub fn from_pairs(pairs: Vec<(String, String)>) -> (query: Query)
        ensures
            query@ == last_wins(pairs_view(pairs@)),
    {
        Query { pairs }
    }

    /// Maps `key` to `value`, whatever it was mapped to before.
    pub fn insert(&mut self, key: &str, value: &str)
        ensures
            final(self)@ == old(self)@.insert(key@, value@),
    {
        self.pairs.push((key.to_owned(), value.to_owned()));
        proof {
            let now = pairs_view(self.pairs@);
            assert(now.drop_last() =~= pairs_view(old(self).pairs@));
        }
    }

    /// The value of `key`, if it has one.
    pub fn get(&self, key: &str) -> (value: Option<&str>)
        ensures
            value is Some <==> self@.contains_key(key@),
            value is Some ==> value->0@ == self@[key@],
    {
        let wanted = key.to_owned();
        let ghost all = pairs_view(self.pairs@);
        let mut i: usize = self.pairs.len();
        while i > 0
            invariant
                i <= self.pairs@.len(),
                wanted@ == key@,
                all == pairs_view(self.pairs@),
                forall|j: int| i <= j < all.len() ==> (#[trigger] all[j]).0 != key@,
            decreases i,
        {
            i = i - 1;
            if self.pairs[i].0 == wanted {
                proof {
                    lemma_last_wins_value(all, i as int);
                }
                return Some(self.pairs[i].1.as_str());
            }
        }
        proof {
            lemma_last_wins_domain(all, key@);
        }
        None
    }

    /// Reads the parameters of a query string, such as `query=Q&page=2`.
    pub fn parse(raw: &str) -> (query: Query)
        ensures
            query@ == last_wins(form_pairs(raw@)),
    {
        Query::from_pairs(parse_form(raw))
    }
}

} // verus!
