//! Searching and splitting text.

use vstd::prelude::*;

verus! {

/// Whether `d` stands in `s` at position `i`.
pub open spec fn occurs_at(s: Seq<char>, d: Seq<char>, i: int) -> bool {
    0 <= i <= s.len() - d.len() && s.subrange(i, i + d.len()) == d
}

/// Whether `d` stands somewhere in `s`.
pub open spec fn occurs_in(d: Seq<char>, s: Seq<char>) -> bool {
    exists|i: int| occurs_at(s, d, i)
}

/// Whether `i` is the first position at which `d` stands in `s`.
pub open spec fn is_first_occurrence(s: Seq<char>, d: Seq<char>, i: int) -> bool {
    occurs_at(s, d, i) && forall|j: int| 0 <= j < i ==> !occurs_at(s, d, j)
}

/// What stands before and behind the first occurrence of `d` in `s`, if `d`
/// occurs in `s`.
pub open spec fn split_at_first(s: Seq<char>, d: Seq<char>) -> Option<(Seq<char>, Seq<char>)> {
    if exists|i: int| is_first_occurrence(s, d, i) {
        let i = choose|i: int| is_first_occurrence(s, d, i);
        Some((s.subrange(0, i), s.subrange(i + d.len(), s.len() as int)))
    } else {
        None
    }
}

/// `str::contains`, with a string as the pattern: whether the pattern
/// matches a sub-slice of the text.
#[verifier::external_body]
pub(crate) fn str_contains(hay: &str, needle: &str) -> (r: bool)
    ensures
        r == occurs_in(needle@, hay@),
{
    hay.contains(needle)
}

/// `str::split_once`, with a string as the delimiter: the text before and
/// the text behind the first occurrence of the delimiter, or nothing where
/// the delimiter does not occur.
#[verifier::external_body]
pub(crate) fn str_split_once<'a>(s: &'a str, delimiter: &str) -> (r: Option<(&'a str, &'a str)>)
    ensures
        match r {
            Some(parts) => split_at_first(s@, delimiter@) == Some((parts.0@, parts.1@)),
            None => split_at_first(s@, delimiter@) is None,
        },
{
    s.split_once(delimiter)
}

/// Where `d` stands in `s` at all, it has a first occurrence, at or before
/// any position where it stands.
pub proof fn lemma_first_occurrence_exists(s: Seq<char>, d: Seq<char>, i: int)
    requires
        occurs_at(s, d, i),
    ensures
        exists|k: int| 0 <= k <= i && is_first_occurrence(s, d, k),
    decreases i,
{
    if forall|j: int| 0 <= j < i ==> !occurs_at(s, d, j) {
        assert(is_first_occurrence(s, d, i));
    } else {
        let j = choose|j: int| 0 <= j < i && occurs_at(s, d, j);
        lemma_first_occurrence_exists(s, d, j);
    }
}

/// A text has at most one first occurrence of `d`, and the split is taken
/// there.
pub proof fn lemma_split_at(s: Seq<char>, d: Seq<char>, i: int)
    requires
        is_first_occurrence(s, d, i),
    ensures
        split_at_first(s, d) == Some((s.subrange(0, i), s.subrange(i + d.len(), s.len() as int))),
{
    let k = choose|k: int| is_first_occurrence(s, d, k);
    assert(is_first_occurrence(s, d, k));
    if k < i {
        assert(!occurs_at(s, d, k));
    } else if i < k {
        assert(!occurs_at(s, d, i));
    }
}

/// A text in which `d` does not occur has no split.
pub proof fn lemma_no_split(s: Seq<char>, d: Seq<char>)
    ensures
        split_at_first(s, d) is None <==> !occurs_in(d, s),
{
    if occurs_in(d, s) {
        let i = choose|i: int| occurs_at(s, d, i);
        lemma_first_occurrence_exists(s, d, i);
    }
}

} // verus!
