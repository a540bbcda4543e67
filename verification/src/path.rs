//! Request paths and their components.

use crate::text::texts;
use vstd::prelude::*;

verus! {

/// The length of the longest prefix of `s` that holds no slash.
pub open spec fn first_slash(s: Seq<char>) -> nat
    decreases s.len(),
{
    if s.len() == 0 || s[0] == '/' {
        0
    } else {
        1 + first_slash(s.drop_first())
    }
}

/// The pieces of `s` between its slashes: what stands before the first
/// slash, then the pieces of what follows it. A piece may be empty.
pub open spec fn pieces(s: Seq<char>) -> Seq<Seq<char>>
    decreases s.len(),
{
    let k = first_slash(s);
    if k >= s.len() {
        seq![s]
    } else {
        seq![s.subrange(0, k as int)] + pieces(s.subrange(k as int + 1, s.len() as int))
    }
}

/// The components of a path: its pieces, without the empty piece before a
/// leading slash and without the empty piece behind a trailing slash. So
/// `/x` and `/x/` have the same components.
pub open spec fn components(path: Seq<char>) -> Seq<Seq<char>> {
    let all = pieces(path);
    let tail = if all.first().len() == 0 {
        all.drop_first()
    } else {
        all
    };
    if tail.len() > 0 && tail.last().len() == 0 {
        tail.drop_last()
    } else {
        tail
    }
}

/// `first_slash` is the position of the first slash, or the length where
/// there is none.
pub proof fn lemma_first_slash(s: Seq<char>, k: int)
    requires
        0 <= k <= s.len(),
        forall|i: int| 0 <= i < k ==> s[i] != '/',
        k < s.len() ==> s[k] == '/',
    ensures
        first_slash(s) == k,
    decreases s.len(),
{
    if k > 0 {
        let rest = s.drop_first();
        assert forall|i: int| 0 <= i < k - 1 implies rest[i] != '/' by {}
        lemma_first_slash(rest, k - 1);
    }
}

/// A text without a slash is one piece.
pub proof fn lemma_pieces_whole(s: Seq<char>)
    requires
        forall|i: int| 0 <= i < s.len() ==> s[i] != '/',
    ensures
        pieces(s) == seq![s],
{
    lemma_first_slash(s, s.len() as int);
}

/// A text with its first slash at `k` is the piece before the slash and
/// the pieces of what follows it.
pub proof fn lemma_pieces_split(s: Seq<char>, k: int)
    requires
        0 <= k < s.len(),
        forall|i: int| 0 <= i < k ==> s[i] != '/',
        s[k] == '/',
    ensures
        pieces(s) == seq![s.subrange(0, k)] + pieces(s.subrange(k + 1, s.len() as int)),
{
    lemma_first_slash(s, k);
}

/// The components of a slash followed by one component.
pub proof fn lemma_one_component(path: Seq<char>, part: Seq<char>)
    requires
        path == seq!['/'] + part,
        part.len() > 0,
        forall|i: int| 0 <= i < part.len() ==> part[i] != '/',
    ensures
        components(path) == seq![part],
{
    lemma_pieces_split(path, 0);
    assert(path.subrange(1, path.len() as int) =~= part);
    lemma_pieces_whole(part);
}

/// The components of a slash, a component, a slash and a second component.
pub proof fn lemma_two_components(path: Seq<char>, first: Seq<char>, second: Seq<char>)
    requires
        path == seq!['/'] + first + seq!['/'] + second,
        second.len() > 0,
        forall|i: int| 0 <= i < first.len() ==> first[i] != '/',
        forall|i: int| 0 <= i < second.len() ==> second[i] != '/',
    ensures
        components(path) == seq![first, second],
{
    let rest = first + seq!['/'] + second;
    lemma_pieces_split(path, 0);
    assert(path.subrange(1, path.len() as int) =~= rest);
    lemma_pieces_split(rest, first.len() as int);
    assert(rest.subrange(0, first.len() as int) =~= first);
    assert(rest.subrange(first.len() as int + 1, rest.len() as int) =~= second);
    lemma_pieces_whole(second);
}

/// The path `/` has no components.
pub proof fn lemma_root_components()
    ensures
        components("/"@) == Seq::<Seq<char>>::empty(),
{
    reveal_strlit("/");
    lemma_pieces_split("/"@, 0);
    lemma_pieces_whole(Seq::<char>::empty());
}

/// What `first_slash` gives: a position that no slash stands before, and
/// that holds a slash unless it is the length.
pub proof fn lemma_first_slash_is_first(s: Seq<char>)
    ensures
        first_slash(s) <= s.len(),
        forall|i: int| 0 <= i < first_slash(s) ==> s[i] != '/',
        first_slash(s) < s.len() ==> s[first_slash(s) as int] == '/',
    decreases s.len(),
{
    if s.len() > 0 && s[0] != '/' {
        let rest = s.drop_first();
        lemma_first_slash_is_first(rest);
        assert forall|i: int| 0 <= i < first_slash(s) implies s[i] != '/' by {
            if i > 0 {
                assert(s[i] == rest[i - 1]);
            }
        }
    }
}

/// There is always a piece, and the last one is empty exactly where the
/// text is empty or ends in a slash.
pub proof fn lemma_last_piece(s: Seq<char>)
    ensures
        pieces(s).len() >= 1,
        pieces(s).last().len() == 0 <==> (s.len() == 0 || s.last() == '/'),
    decreases s.len(),
{
    let k = first_slash(s) as int;
    lemma_first_slash_is_first(s);
    if k < s.len() {
        let rest = s.subrange(k + 1, s.len() as int);
        lemma_last_piece(rest);
    }
}

/// A slash appended to a text appends an empty piece.
pub proof fn lemma_pieces_with_slash(s: Seq<char>)
    ensures
        pieces(s.push('/')) == pieces(s).push(Seq::empty()),
    decreases s.len(),
{
    let longer = s.push('/');
    let k = first_slash(s) as int;
    lemma_first_slash_is_first(s);
    lemma_first_slash(longer, k);
    if k < s.len() {
        let rest = s.subrange(k + 1, s.len() as int);
        lemma_pieces_with_slash(rest);
        assert(longer.subrange(k + 1, longer.len() as int) =~= rest.push('/'));
        assert(longer.subrange(0, k) =~= s.subrange(0, k));
    } else {
        assert(longer.subrange(0, k) =~= s);
        assert(longer.subrange(k + 1, longer.len() as int) =~= Seq::<char>::empty());
        lemma_pieces_whole(Seq::<char>::empty());
    }
}

/// One slash at the end of a path changes nothing: `/x` and `/x/` have the
/// same components.
pub proof fn lemma_trailing_slash_is_ignored(path: Seq<char>)
    requires
        path.len() == 0 || path.last() != '/',
    ensures
        components(path.push('/')) == components(path),
{
    lemma_pieces_with_slash(path);
    lemma_last_piece(path);
}

/// Splits a text at its slashes.
fn split_pieces(path: &str) -> (parts: Vec<String>)
    ensures
        texts(parts@) == pieces(path@),
{
    let n: usize = path.unicode_len();
    let mut parts: Vec<String> = Vec::new();
    let mut start: usize = 0;
    let mut j: usize = 0;
    assert(path@.subrange(0, n as int) =~= path@);
    while j < n
        invariant
            start <= j <= n,
            n == path@.len(),
            forall|k: int| start <= k < j ==> path@[k] != '/',
            pieces(path@) == texts(parts@) + pieces(path@.subrange(start as int, n as int)),
        decreases n - j,
    {
        if path.get_char(j) == '/' {
            proof {
                let rest = path@.subrange(start as int, n as int);
                lemma_first_slash(rest, j - start);
                assert(rest.subrange(0, j - start) =~= path@.subrange(start as int, j as int));
                assert(rest.subrange(j - start + 1, rest.len() as int) =~= path@.subrange(
                    j + 1,
                    n as int,
                ));
            }
            parts.push(path.substring_char(start, j).to_owned());
            start = j + 1;
        }
        j = j + 1;
    }
    proof {
        lemma_first_slash(path@.subrange(start as int, n as int), n - start);
    }
    parts.push(path.substring_char(start, n).to_owned());
    parts
}

/// Splits a path into its components.
pub fn split_path(path: &str) -> (parts: Vec<String>)
    ensures
        texts(parts@) == components(path@),
{
    let mut parts = split_pieces(path);
    proof {
        lemma_last_piece(path@);
    }
    if parts[0].as_str().is_empty() {
        parts.remove(0);
    }
    let count: usize = parts.len();
    if count > 0 && parts[count - 1].as_str().is_empty() {
        parts.pop();
    }
    parts
}

} // verus!
