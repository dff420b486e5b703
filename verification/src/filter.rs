//! The path filter: a pure suffix predicate applied to every changed path
//! before it is reported.  The default accepts paths ending in `.md`.

use vstd::prelude::*;

verus! {

/// `suffix` is a suffix of `s`, compared character by character.
pub open spec fn is_suffix_of(suffix: Seq<char>, s: Seq<char>) -> bool {
    suffix.len() <= s.len() && s.subrange(s.len() - suffix.len(), s.len() as int) == suffix
}

/// Character-wise suffix test on string slices.
pub fn str_ends_with(s: &str, suffix: &str) -> (r: bool)
    ensures
        r == is_suffix_of(suffix@, s@),
{
    let n: usize = s.unicode_len();
    let m: usize = suffix.unicode_len();
    if m > n {
        return false;
    }
    let start: usize = n - m;
    let mut i: usize = 0;
    while i < m
        invariant
            m <= n,
            n == s@.len(),
            m == suffix@.len(),
            start == n - m,
            i <= m,
            forall|j: int| 0 <= j < i ==> s@[start + j] == suffix@[j],
        decreases m - i,
    {
        if s.get_char(start + i) != suffix.get_char(i) {
            proof {
                assert(s@.subrange(start as int, n as int)[i as int] == s@[start + i]);
            }
            return false;
        }
        i += 1;
    }
    proof {
        assert(s@.subrange(start as int, n as int) =~= suffix@);
    }
    true
}

/// The predicate applied to each distinct changed path at flush time:
/// a path is reported only when it ends in `suffix`.
pub struct PathFilter {
    pub suffix: String,
}

impl PathFilter {
    /// What the filter accepts, as a predicate on the path's characters.
    pub open spec fn accepts(self, path: Seq<char>) -> bool {
        is_suffix_of(self.suffix@, path)
    }

    pub fn new(suffix: String) -> (f: PathFilter)
        ensures
            f.suffix@ == suffix@,
    {
        PathFilter { suffix }
    }

    /// The default filter: paths ending in `.md`.
    pub fn markdown() -> (f: PathFilter)
        ensures
            f.suffix@ == ".md"@,
    {
        PathFilter { suffix: String::from_str(".md") }
    }

    pub fn matches(&self, path: &str) -> (r: bool)
        ensures
            r == self.accepts(path@),
    {
        str_ends_with(path, self.suffix.as_str())
    }
}

/// A directory entry name denotes a markdown file.
pub fn is_markdown_name(name: &str) -> (r: bool)
    ensures
        r == is_suffix_of(".md"@, name@),
{
    str_ends_with(name, ".md")
}

/// The views of a sequence of strings.
pub open spec fn views_of(v: Seq<String>) -> Seq<Seq<char>> {
    v.map_values(|s: String| s@)
}

/// Linear membership test on a vector of strings, by character content.
pub fn contains_string(v: &Vec<String>, x: &String) -> (r: bool)
    ensures
        r == views_of(v@).contains(x@),
{
    let n = v.len();
    let mut i: usize = 0;
    while i < n
        invariant
            n == v@.len(),
            i <= n,
            forall|j: int| 0 <= j < i ==> views_of(v@)[j] != x@,
        decreases n - i,
    {
        if v[i].eq(x) {
            proof {
                assert(views_of(v@)[i as int] == x@);
            }
            return true;
        }
        i += 1;
    }
    false
}

/// `s.push(x)` filters to `s.filter(pred)`, extended by `x` when `pred(x)`.
pub proof fn lemma_filter_push(s: Seq<Seq<char>>, pred: spec_fn(Seq<char>) -> bool, x: Seq<char>)
    ensures
        s.push(x).filter(pred) == if pred(x) {
            s.filter(pred).push(x)
        } else {
            s.filter(pred)
        },
{
    assert(s.push(x).drop_last() =~= s);
    assert(s.push(x).last() == x);
    reveal(Seq::filter);
}

} // verus!
