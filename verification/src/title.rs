//! The title filter: a case-sensitive substring predicate over record
//! text, with the explicit convention that an empty query matches
//! everything.

use vstd::prelude::*;

verus! {

/// Whether `p` occurs in `s` as a contiguous subsequence.
pub open spec fn spec_contains(s: Seq<char>, p: Seq<char>) -> bool {
    exists|i: int| 0 <= i <= s.len() - p.len() && #[trigger] s.subrange(i, i + p.len()) == p
}

/// Relies on `str::contains` from std: true exactly when the pattern
/// string occurs as a literal substring.
#[verifier::external_body]
fn contains_str(s: &str, p: &str) -> (r: bool)
    ensures
        r == spec_contains(s@, p@),
{
    s.contains(p)
}

/// Whether `text` satisfies the title query `terms`: vacuously when
/// `terms` is empty, otherwise when every term is a literal substring
/// of `text`.
pub open spec fn spec_matches_title(text: Seq<char>, terms: Seq<Seq<char>>) -> bool {
    forall|i: int| 0 <= i < terms.len() ==> spec_contains(text, #[trigger] terms[i])
}

/// The title predicate: true iff every term of `substrings` is a
/// literal substring of `s`; an empty query matches every text.
pub fn matches_all_strings(s: &str, substrings: &Vec<String>) -> (r: bool)
    ensures
        r == spec_matches_title(s@, substrings.deep_view()),
{
    let n = substrings.len();
    let mut i: usize = 0;
    while i < n
        invariant
            i <= n,
            n == substrings@.len(),
            forall|k: int| 0 <= k < i ==> spec_contains(s@, #[trigger] substrings.deep_view()[k]),
        decreases n - i,
    {
        if !contains_str(s, substrings[i].as_str()) {
            proof {
                assert(substrings.deep_view()[i as int] == substrings@[i as int]@);
            }
            return false;
        }
        proof {
            assert(substrings.deep_view()[i as int] == substrings@[i as int]@);
        }
        i = i + 1;
    }
    true
}

/// The empty title query matches every candidate text, empty or not:
/// title filtering never defaults to "match nothing".
pub proof fn lemma_empty_title_query_matches(text: Seq<char>)
    ensures
        spec_matches_title(text, Seq::empty()),
{
}

} // verus!
