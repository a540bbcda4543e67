//! Header lines.

use crate::text::{carries, pairs_view, texts, TextPair};
use vstd::prelude::*;

verus! {

/// The values that `entries` gives for `name`, in the order of the entries.
pub open spec fn values_of(entries: Seq<TextPair>, name: Seq<char>) -> Seq<Seq<char>>
    decreases entries.len(),
{
    if entries.len() == 0 {
        Seq::empty()
    } else {
        let before = values_of(entries.drop_last(), name);
        if entries.last().0 == name {
            before.push(entries.last().1)
        } else {
            before
        }
    }
}

/// An ordered list of header lines. A name may occur more than once; its
/// values keep the order in which they were appended. Names are compared
/// as they stand.
#[derive(Clone, Debug, PartialEq, Eq)]
pub struct Headers {
    entries: Vec<(String, String)>,
}

impl View for Headers {
    type V = Seq<TextPair>;

    closed spec fn view(&self) -> Seq<TextPair> {
        pairs_view(self.entries@)
    }
}

impl Headers {
    /// An empty list.
    pub fn new() -> (headers: Headers)
        ensures
            headers@ == Seq::<TextPair>::empty(),
    {
        Headers { entries: Vec::new() }
    }

    /// Adds one line behind those that are there.
    pub fn append(&mut self, name: &str, value: &str)
        ensures
            final(self)@ == old(self)@.push((name@, value@)),
    {
        self.entries.push((name.to_owned(), value.to_owned()));
    }

    /// The number of lines.
    pub fn len(&self) -> (n: usize)
        ensures
            n == self@.len(),
    {
        self.entries.len()
    }

    /// A list with the same lines.
    pub fn duplicate(&self) -> (copy: Headers)
        ensures
            copy@ == self@,
    {
        let mut entries: Vec<(String, String)> = Vec::new();
        let mut i: usize = 0;
        while i < self.entries.len()
            invariant
                i <= self.entries@.len(),
                pairs_view(entries@) == self@.subrange(0, i as int),
            decreases self.entries@.len() - i,
        {
            let ghost before = pairs_view(entries@);
            let name = self.entries[i].0.clone();
            let value = self.entries[i].1.clone();
            entries.push((name, value));
            assert(pairs_view(entries@) =~= before.push(self@[i as int]));
            i = i + 1;
        }
        Headers { entries }
    }

    /// The name and the value of line `i`, if there is such a line.
    pub fn entry(&self, i: usize) -> (line: Option<(&str, &str)>)
        ensures
            line is Some <==> i < self@.len(),
            line is Some ==> ((line->0).0@, (line->0).1@) == self@[i as int],
    {
        if i < self.entries.len() {
            let pair = &self.entries[i];
            Some((pair.0.as_str(), pair.1.as_str()))
        } else {
            None
        }
    }

    /// Whether a line carries `name`.
    pub fn contains(&self, name: &str) -> (found: bool)
        ensures
            found == carries(self@, name@),
    {
        let wanted = name.to_owned();
        let mut i: usize = 0;
        while i < self.entries.len()
            invariant
                i <= self.entries@.len(),
                wanted@ == name@,
                forall|j: int| 0 <= j < i ==> (#[trigger] self@[j]).0 != name@,
            decreases self.entries@.len() - i,
        {
            if self.entries[i].0 == wanted {
                assert(self@[i as int].0 == name@);
                return true;
            }
            i = i + 1;
        }
        false
    }

    /// The values of the lines that carry `name`, in order.
    pub fn values(&self, name: &str) -> (found: Vec<String>)
        ensures
            texts(found@) == values_of(self@, name@),
    {
        let wanted = name.to_owned();
        let mut found: Vec<String> = Vec::new();
        let mut i: usize = 0;
        while i < self.entries.len()
            invariant
                i <= self.entries@.len(),
                wanted@ == name@,
                texts(found@) == values_of(self@.subrange(0, i as int), name@),
            decreases self.entries@.len() - i,
        {
            proof {
                let longer = self@.subrange(0, i + 1);
                assert(longer.drop_last() =~= self@.subrange(0, i as int));
            }
            if self.entries[i].0 == wanted {
                found.push(self.entries[i].1.clone());
            }
            i = i + 1;
        }
        assert(self@.subrange(0, i as int) =~= self@);
        found
    }
}

} // verus!
