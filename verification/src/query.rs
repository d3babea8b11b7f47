//! The tag query composer and result set builder.
//!
//! The boolean tag evaluation belongs to the external matcher, which
//! reads the records from disk itself and therefore runs at the
//! caller's I/O edge; its outcome is handed in here.  This module
//! narrows that outcome by the title filter while preserving the
//! enumeration order, and exposes the "tags related to a query"
//! reduction.  A failure of the external matcher arrives as `None` and
//! degrades to an empty result, never to an error of this library.

use vstd::prelude::*;
use vstd::string::StringExecFns;

use crate::subseq::{is_subseq, lemma_filter_is_subseq, lemma_subseq_trans};
use crate::title::{matches_all_strings, spec_matches_title};

verus! {

broadcast use vstd::seq_lib::group_filter_ensures;

/// One record available at query time: its stable identifier (the
/// store path) and its raw text.  The caller enumerates and reads the
/// store; a record whose text cannot be read is skipped before it gets
/// here.
pub struct Candidate {
    pub id: String,
    pub text: String,
}

/// The identifiers of a candidate enumeration, in order.
pub open spec fn ids_of(cands: Seq<Candidate>) -> Seq<Seq<char>> {
    cands.map_values(|c: Candidate| c.id@)
}

/// The text of the first candidate carrying the given identifier.
pub open spec fn text_of(cands: Seq<Candidate>, id: Seq<char>) -> Option<Seq<char>>
    decreases cands.len(),
{
    if cands.len() == 0 {
        None
    } else if cands[0].id@ == id {
        Some(cands[0].text@)
    } else {
        text_of(cands.drop_first(), id)
    }
}

/// The title predicate over one record identifier: the record's text
/// must satisfy every term.  An identifier naming no candidate has no
/// text to match.
pub open spec fn title_pred(cands: Seq<Candidate>, terms: Seq<Seq<char>>) -> spec_fn(
    Seq<char>,
) -> bool {
    |id: Seq<char>|
        match text_of(cands, id) {
            Some(t) => spec_matches_title(t, terms),
            None => false,
        }
}

/// Looks up the text of the first candidate carrying `id`.
pub fn lookup_text(cands: &Vec<Candidate>, id: &String) -> (r: Option<String>)
    ensures
        match r {
            Some(t) => text_of(cands@, id@) == Some(t@),
            None => text_of(cands@, id@) is None,
        },
{
    let n = cands.len();
    let mut i: usize = 0;
    proof {
        assert(cands@.skip(0) =~= cands@);
    }
    while i < n
        invariant
            i <= n,
            n == cands@.len(),
            text_of(cands@, id@) == text_of(cands@.skip(i as int), id@),
        decreases n - i,
    {
        proof {
            assert(cands@.skip(i as int)[0] == cands@[i as int]);
            assert(cands@.skip(i as int).drop_first() =~= cands@.skip(i + 1));
        }
        if cands[i].id.eq(id) {
            return Some(cands[i].text.clone());
        }
        i = i + 1;
    }
    None
}

/// The identifiers of the candidates, in enumeration order.
pub fn candidate_ids(cands: &Vec<Candidate>) -> (r: Vec<String>)
    ensures
        r.deep_view() == ids_of(cands@),
{
    let n = cands.len();
    let mut out: Vec<String> = Vec::new();
    let mut i: usize = 0;
    while i < n
        invariant
            i <= n,
            n == cands@.len(),
            out.deep_view() == ids_of(cands@.take(i as int)),
        decreases n - i,
    {
        let ghost prev = out.deep_view();
        out.push(cands[i].id.clone());
        proof {
            assert(out.deep_view() =~= prev.push(cands@[i as int].id@));
            assert(ids_of(cands@.take(i + 1)) =~= ids_of(cands@.take(i as int)).push(
                cands@[i as int].id@,
            ));
        }
        i = i + 1;
    }
    proof {
        assert(cands@.take(n as int) =~= cands@);
        assert(out.deep_view() =~= ids_of(cands@));
    }
    out
}

/// Membership of one term in a fixed sequence of terms, negated; what
/// the related-tags reduction filters out.
pub open spec fn outside_query_pred(terms: Seq<Seq<char>>) -> spec_fn(Seq<char>) -> bool {
    |t: Seq<char>| !terms.contains(t)
}

/// Narrows tag-matched records by the title query, keeping exactly the
/// records whose raw text satisfies every term, in their given order,
/// duplicates included.
pub fn build_result_set(
    tag_matches: &Vec<String>,
    candidates: &Vec<Candidate>,
    title_query: &Vec<String>,
) -> (r: Vec<String>)
    ensures
        r.deep_view() == tag_matches.deep_view().filter(
            title_pred(candidates@, title_query.deep_view()),
        ),
{
    let ghost pred = title_pred(candidates@, title_query.deep_view());
    let ghost s = tag_matches.deep_view();
    let n = tag_matches.len();
    let mut out: Vec<String> = Vec::new();
    let mut i: usize = 0;
    proof {
        reveal(Seq::filter);
        assert(s.take(0) =~= Seq::<Seq<char>>::empty());
    }
    while i < n
        invariant
            i <= n,
            n == tag_matches@.len(),
            s == tag_matches.deep_view(),
            pred == title_pred(candidates@, title_query.deep_view()),
            out.deep_view() == s.take(i as int).filter(pred),
        decreases n - i,
    {
        let ghost prev = out.deep_view();
        let keep = match lookup_text(candidates, &tag_matches[i]) {
            Some(text) => matches_all_strings(text.as_str(), title_query),
            None => false,
        };
        proof {
            assert(s[i as int] == tag_matches@[i as int]@);
            assert(keep == pred(s[i as int]));
        }
        if keep {
            out.push(tag_matches[i].clone());
            proof {
                assert(out.deep_view() =~= prev.push(s[i as int]));
            }
        }
        proof {
            reveal(Seq::filter);
            assert(s.take(i + 1).drop_last() =~= s.take(i as int));
            assert(s.take(i + 1).last() == s[i as int]);
        }
        i = i + 1;
    }
    proof {
        assert(s.take(n as int) =~= s);
    }
    out
}

/// Filters the candidate enumeration down to the records that satisfy
/// the tag query and whose text satisfies the title query.
/// `tag_matches` is the external matcher's outcome for the candidates'
/// identifiers, obtained at the caller's I/O edge: the matcher returns
/// the matching identifiers as an ordered subset of what it was given
/// — which the caller checks before handing them in — and `None`
/// stands for any failure of it, which degrades to the empty result.
/// The result is a subsequence of the candidates' identifiers in their
/// enumeration order: no reordering, and no duplicates beyond those
/// already enumerated.
pub fn find(
    candidates: &Vec<Candidate>,
    tag_matches: &Option<Vec<String>>,
    title_query: &Vec<String>,
) -> (r: Vec<String>)
    requires
        tag_matches matches Some(v) ==> is_subseq(v.deep_view(), ids_of(candidates@)),
    ensures
        r.deep_view() == (match tag_matches {
            Some(v) => v.deep_view().filter(title_pred(candidates@, title_query.deep_view())),
            None => Seq::<Seq<char>>::empty(),
        }),
        is_subseq(r.deep_view(), ids_of(candidates@)),
        forall|i: int|
            0 <= i < r.deep_view().len() ==> title_pred(candidates@, title_query.deep_view())(
                #[trigger] r.deep_view()[i],
            ),
{
    match tag_matches {
        Some(v) => {
            let out = build_result_set(v, candidates, title_query);
            proof {
                lemma_filter_is_subseq(
                    v.deep_view(),
                    title_pred(candidates@, title_query.deep_view()),
                );
                lemma_subseq_trans(out.deep_view(), v.deep_view(), ids_of(candidates@));
            }
            out
        },
        None => Vec::new(),
    }
}

/// Whether some element of `v` has the same characters as `s`.
pub fn contains_string(v: &Vec<String>, s: &String) -> (r: bool)
    ensures
        r == v.deep_view().contains(s@),
{
    let n = v.len();
    let mut i: usize = 0;
    while i < n
        invariant
            i <= n,
            n == v@.len(),
            forall|k: int| 0 <= k < i ==> v.deep_view()[k] != s@,
        decreases n - i,
    {
        if v[i].eq(s) {
            proof {
                assert(v.deep_view()[i as int] == s@);
            }
            return true;
        }
        i = i + 1;
    }
    proof {
        assert(forall|k: int| 0 <= k < v.deep_view().len() ==> v.deep_view()[k] != s@);
    }
    false
}

/// Keeps, in order, the tags that are not themselves terms of the
/// query.
pub fn remove_query_terms(tags: &Vec<String>, query: &Vec<String>) -> (r: Vec<String>)
    ensures
        r.deep_view() == tags.deep_view().filter(outside_query_pred(query.deep_view())),
{
    let ghost pred = outside_query_pred(query.deep_view());
    let ghost s = tags.deep_view();
    let n = tags.len();
    let mut out: Vec<String> = Vec::new();
    let mut i: usize = 0;
    proof {
        reveal(Seq::filter);
        assert(s.take(0) =~= Seq::<Seq<char>>::empty());
    }
    while i < n
        invariant
            i <= n,
            n == tags@.len(),
            s == tags.deep_view(),
            pred == outside_query_pred(query.deep_view()),
            out.deep_view() == s.take(i as int).filter(pred),
        decreases n - i,
    {
        let ghost prev = out.deep_view();
        if !contains_string(query, &tags[i]) {
            out.push(tags[i].clone());
            proof {
                assert(out.deep_view() =~= prev.push(s[i as int]));
            }
        }
        proof {
            reveal(Seq::filter);
            assert(s.take(i + 1).drop_last() =~= s.take(i as int));
            assert(s.take(i + 1).last() == s[i as int]);
        }
        i = i + 1;
    }
    proof {
        assert(s.take(n as int) =~= s);
    }
    out
}

/// The tags related to a query, given the external matcher's outcome
/// for the files that satisfied it, obtained at the caller's I/O edge:
/// the query's own terms are removed, so "related" never echoes a
/// query term back, whatever the matcher returned.  `None` stands for
/// any failure of the matcher and degrades to the empty set; whether a
/// failure is also reported silently is the caller's business.
pub fn related_tags(tags: &Option<Vec<String>>, query: &Vec<String>) -> (r: Vec<String>)
    ensures
        r.deep_view() == (match tags {
            Some(v) => v.deep_view().filter(outside_query_pred(query.deep_view())),
            None => Seq::<Seq<char>>::empty(),
        }),
        forall|i: int|
            0 <= i < r.deep_view().len() ==> !query.deep_view().contains(
                #[trigger] r.deep_view()[i],
            ),
{
    match tags {
        Some(v) => remove_query_terms(v, query),
        None => Vec::new(),
    }
}

/// Renders a result set as an indexed listing: the displayed index of
/// a record is exactly its position in the set, so two renderings of
/// the same set always assign the same index to the same record.
pub fn indexed_entries(results: &Vec<String>) -> (r: Vec<(usize, String)>)
    ensures
        r@.len() == results@.len(),
        forall|i: int|
            0 <= i < r@.len() ==> (#[trigger] r@[i]).0 == i && r@[i].1@
                == results.deep_view()[i],
{
    let n = results.len();
    let mut out: Vec<(usize, String)> = Vec::new();
    let mut i: usize = 0;
    while i < n
        invariant
            i <= n,
            n == results@.len(),
            out@.len() == i,
            forall|k: int|
                0 <= k < i ==> (#[trigger] out@[k]).0 == k && out@[k].1@
                    == results.deep_view()[k],
        decreases n - i,
    {
        out.push((i, results[i].clone()));
        i = i + 1;
    }
    out
}

/// The status line reported when a query matches no bookmark.
pub fn no_bookmarks_message() -> (r: String)
    ensures
        r@ == "No bookmarks matching query."@,
{
    String::from_str("No bookmarks matching query.")
}

/// The status line reported when a query matches no file to act on.
pub fn no_files_message() -> (r: String)
    ensures
        r@ == "No files matching query."@,
{
    String::from_str("No files matching query.")
}

} // verus!
