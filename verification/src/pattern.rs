//! Path patterns: sequences of literal and variable segments.

use crate::path::{components, split_path};
use crate::text::{pairs_view, texts, TextPair};
use vstd::prelude::*;

verus! {

/// One segment of a pattern.
#[derive(Clone, Debug, PartialEq, Eq)]
pub enum Segment {
    /// Matches the component that equals it, letter for letter.
    Literal(String),
    /// Matches any component and binds it to its name.
    Variable(String),
}

/// A segment, as contracts speak of it.
pub enum SegmentView {
    Literal(Seq<char>),
    Variable(Seq<char>),
}

impl View for Segment {
    type V = SegmentView;

    open spec fn view(&self) -> SegmentView {
        match self {
            Segment::Literal(text) => SegmentView::Literal(text@),
            Segment::Variable(name) => SegmentView::Variable(name@),
        }
    }
}

/// The segment that a component of a pattern's text stands for: a variable
/// where it begins with a colon, named by what follows; else a literal.
pub open spec fn segment_of(component: Seq<char>) -> SegmentView {
    if component.len() > 0 && component[0] == ':' {
        SegmentView::Variable(component.drop_first())
    } else {
        SegmentView::Literal(component)
    }
}

/// The pattern that a text such as `/sample/:path` stands for.
pub open spec fn pattern_of(text: Seq<char>) -> Seq<SegmentView> {
    components(text).map_values(|component: Seq<char>| segment_of(component))
}

/// Whether a segment matches a component.
pub open spec fn segment_accepts(segment: SegmentView, component: Seq<char>) -> bool {
    match segment {
        SegmentView::Literal(text) => text == component,
        SegmentView::Variable(_) => true,
    }
}

/// Whether a pattern matches a list of components: segment by segment,
/// with none left over on either side.
pub open spec fn pattern_matches(pattern: Seq<SegmentView>, parts: Seq<Seq<char>>) -> bool {
    &&& pattern.len() == parts.len()
    &&& forall|i: int| 0 <= i < pattern.len() ==> segment_accepts(#[trigger] pattern[i], parts[i])
}

/// The name and the component of each variable of `pattern`, in order.
pub open spec fn bindings(pattern: Seq<SegmentView>, parts: Seq<Seq<char>>) -> Seq<TextPair>
    decreases pattern.len(),
{
    if pattern.len() == 0 || parts.len() == 0 {
        Seq::empty()
    } else {
        let before = bindings(pattern.drop_last(), parts.drop_last());
        match pattern.last() {
            SegmentView::Variable(name) => before.push((name, parts.last())),
            SegmentView::Literal(_) => before,
        }
    }
}

/// Whether some component is matched by both segments.
pub open spec fn segments_overlap(a: SegmentView, b: SegmentView) -> bool {
    match (a, b) {
        (SegmentView::Literal(x), SegmentView::Literal(y)) => x == y,
        _ => true,
    }
}

/// Whether two patterns have the same length and overlap segment by
/// segment.
pub open spec fn patterns_overlap(p: Seq<SegmentView>, q: Seq<SegmentView>) -> bool {
    &&& p.len() == q.len()
    &&& forall|i: int| 0 <= i < p.len() ==> segments_overlap(#[trigger] p[i], q[i])
}

/// An ordered sequence of literal and variable segments.
#[derive(Clone, Debug, PartialEq, Eq)]
pub struct PathPattern {
    segments: Vec<Segment>,
}

impl View for PathPattern {
    type V = Seq<SegmentView>;

    closed spec fn view(&self) -> Seq<SegmentView> {
        Seq::new(self.segments@.len(), |i: int| self.segments@[i]@)
    }
}

/// Reads one segment of a pattern.
fn read_segment(component: &str) -> (segment: Segment)
    ensures
        segment@ == segment_of(component@),
{
    let n: usize = component.unicode_len();
    if n > 0 && component.get_char(0) == ':' {
        Segment::Variable(component.substring_char(1, n).to_owned())
    } else {
        Segment::Literal(component.to_owned())
    }
}

/// Whether two segments are the same.
fn same_segment(a: &Segment, b: &Segment) -> (same: bool)
    ensures
        same == (a@ == b@),
{
    match a {
        Segment::Literal(x) => match b {
            Segment::Literal(y) => *x == *y,
            Segment::Variable(_) => false,
        },
        Segment::Variable(x) => match b {
            Segment::Literal(_) => false,
            Segment::Variable(y) => *x == *y,
        },
    }
}

/// Whether some component is matched by both segments.
fn overlapping(a: &Segment, b: &Segment) -> (overlap: bool)
    ensures
        overlap == segments_overlap(a@, b@),
{
    match a {
        Segment::Literal(x) => match b {
            Segment::Literal(y) => *x == *y,
            Segment::Variable(_) => true,
        },
        Segment::Variable(_) => true,
    }
}

impl PathPattern {
    /// The pattern with the given segments.
    pub fn from_segments(segments: Vec<Segment>) -> (pattern: PathPattern)
        ensures
            pattern@.len() == segments@.len(),
            forall|i: int| 0 <= i < segments@.len() ==> pattern@[i] == (#[trigger] segments@[i])@,
    {
        PathPattern { segments }
    }

    /// The segments of the pattern.
    pub fn segments(&self) -> (segments: &Vec<Segment>)
        ensures
            segments@.len() == self@.len(),
            forall|i: int| 0 <= i < segments@.len() ==> (#[trigger] segments@[i])@ == self@[i],
    {
        &self.segments
    }

    /// Reads a pattern from its text, such as `/sample/:path`.
    pub fn parse(text: &str) -> (pattern: PathPattern)
        ensures
            pattern@ == pattern_of(text@),
    {
        let parts = split_path(text);
        let mut segments: Vec<Segment> = Vec::new();
        let mut i: usize = 0;
        while i < parts.len()
            invariant
                i <= parts@.len(),
                texts(parts@) == components(text@),
                segments@.len() == i,
                forall|j: int| 0 <= j < i ==> (#[trigger] segments@[j])@ == segment_of(parts@[j]@),
            decreases parts@.len() - i,
        {
            segments.push(read_segment(parts[i].as_str()));
            i = i + 1;
        }
        let pattern = PathPattern { segments };
        assert(pattern@ =~= pattern_of(text@));
        pattern
    }

    /// The number of segments.
    pub fn len(&self) -> (n: usize)
        ensures
            n == self@.len(),
    {
        self.segments.len()
    }

    /// Whether the two patterns are the same, segment by segment, the
    /// names of the variables included.
    pub fn same_as(&self, other: &PathPattern) -> (same: bool)
        ensures
            same == (self@ == other@),
    {
        if self.segments.len() != other.segments.len() {
            assert(self@.len() != other@.len());
            return false;
        }
        let mut i: usize = 0;
        while i < self.segments.len()
            invariant
                i <= self.segments@.len(),
                self.segments@.len() == other.segments@.len(),
                forall|j: int| 0 <= j < i ==> (#[trigger] self@[j]) == other@[j],
            decreases self.segments@.len() - i,
        {
            if !same_segment(&self.segments[i], &other.segments[i]) {
                assert(self@[i as int] != other@[i as int]);
                return false;
            }
            i = i + 1;
        }
        assert(self@ =~= other@);
        true
    }

    /// Whether the two patterns overlap: they do exactly when some list of
    /// components is matched by both.
    pub fn overlaps(&self, other: &PathPattern) -> (overlap: bool)
        ensures
            overlap == patterns_overlap(self@, other@),
    {
        if self.segments.len() != other.segments.len() {
            return false;
        }
        let mut i: usize = 0;
        while i < self.segments.len()
            invariant
                i <= self.segments@.len(),
                self.segments@.len() == other.segments@.len(),
                forall|j: int| 0 <= j < i ==> segments_overlap(#[trigger] self@[j], other@[j]),
            decreases self.segments@.len() - i,
        {
            if !overlapping(&self.segments[i], &other.segments[i]) {
                assert(!segments_overlap(self@[i as int], other@[i as int]));
                return false;
            }
            i = i + 1;
        }
        true
    }

    /// Matches a list of components against the pattern. Where it matches,
    /// gives the name and the component of each variable, in order.
    pub fn capture(&self, parts: &Vec<String>) -> (bound: Option<Vec<(String, String)>>)
        ensures
            bound is Some <==> pattern_matches(self@, texts(parts@)),
            bound is Some ==> pairs_view(bound->0@) == bindings(self@, texts(parts@)),
    {
        if self.segments.len() != parts.len() {
            return None;
        }
        let ghost wanted = texts(parts@);
        let mut bound: Vec<(String, String)> = Vec::new();
        let mut i: usize = 0;
        while i < self.segments.len()
            invariant
                i <= self.segments@.len(),
                self.segments@.len() == parts@.len(),
                wanted == texts(parts@),
                forall|j: int| 0 <= j < i ==> segment_accepts(#[trigger] self@[j], wanted[j]),
                pairs_view(bound@) == bindings(
                    self@.subrange(0, i as int),
                    wanted.subrange(0, i as int),
                ),
            decreases self.segments@.len() - i,
        {
            proof {
                let p = self@.subrange(0, i + 1);
                let w = wanted.subrange(0, i + 1);
                assert(p.drop_last() =~= self@.subrange(0, i as int));
                assert(w.drop_last() =~= wanted.subrange(0, i as int));
                assert(p.last() == self@[i as int]);
            }
            match &self.segments[i] {
                Segment::Literal(text) => {
                    if !(*text == parts[i]) {
                        return None;
                    }
                },
                Segment::Variable(name) => {
                    bound.push((name.clone(), parts[i].clone()));
                },
            }
            i = i + 1;
        }
        assert(self@.subrange(0, i as int) =~= self@);
        assert(wanted.subrange(0, i as int) =~= wanted);
        Some(bound)
    }
}

} // verus!
