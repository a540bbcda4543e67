//! Lists of strings and of string pairs, as contracts speak of them.

use vstd::prelude::*;

verus! {

/// A pair of texts, as contracts speak of it.
pub type TextPair = (Seq<char>, Seq<char>);

/// The texts of a list of strings, in order.
pub open spec fn texts(strings: Seq<String>) -> Seq<Seq<char>> {
    Seq::new(strings.len(), |i: int| strings[i]@)
}

/// The texts of a list of string pairs, in order.
pub open spec fn pairs_view(pairs: Seq<(String, String)>) -> Seq<TextPair> {
    Seq::new(pairs.len(), |i: int| (pairs[i].0@, pairs[i].1@))
}

/// Whether some entry carries `name`.
pub open spec fn carries(entries: Seq<TextPair>, name: Seq<char>) -> bool {
    exists|i: int| 0 <= i < entries.len() && (#[trigger] entries[i]).0 == name
}

} // verus!
