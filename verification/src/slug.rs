//! The slug generator: a deterministic, filesystem-safe identifier
//! derived from a human title.
//!
//! Every alphanumeric character keeps its place, mapped to its
//! lowercase form; every maximal run of other characters becomes a
//! single `-`; trailing separators are stripped.  The mapping is a pure
//! function of the title, so the same title always yields the same
//! identifier.

use vstd::prelude::*;

use crate::chars::{build_string, str_chars};

verus! {

/// Whether `c` counts as alphanumeric for slug purposes.
///
/// This names the result of `char::is_alphanumeric`, which depends on
/// the character alone; its full Unicode definition is not restated
/// here.
pub uninterp spec fn is_alphanum(c: char) -> bool;

/// Relies on `char::is_alphanumeric` from std: a pure classification of
/// the character, named by `is_alphanum`.
#[verifier::external_body]
fn alphanumeric(c: char) -> (r: bool)
    ensures
        r == is_alphanum(c),
{
    c.is_alphanumeric()
}

/// The lowercase form of `c`.
///
/// This names the result of `char::to_lowercase`, which depends on the
/// character alone; the full Unicode mapping (one to three characters)
/// is not restated here.
pub uninterp spec fn lower_of(c: char) -> Seq<char>;

/// Relies on `char::to_lowercase` from std: the Unicode lowercase
/// mapping of one character, a pure function of it, named by
/// `lower_of`.
#[verifier::external_body]
fn lower_char(c: char) -> (r: Vec<char>)
    ensures
        r@ == lower_of(c),
{
    c.to_lowercase().collect()
}

/// The slug characters before trailing separators are stripped:
/// alphanumerics are lowered and kept, and each maximal run of other
/// characters becomes one `-`.  `prev_dash` says whether the previous
/// emitted character was a separator.
pub open spec fn slug_raw(t: Seq<char>, prev_dash: bool) -> Seq<char>
    decreases t.len(),
{
    if t.len() == 0 {
        Seq::empty()
    } else if is_alphanum(t[0]) {
        lower_of(t[0]) + slug_raw(t.drop_first(), false)
    } else if !prev_dash {
        seq!['-'] + slug_raw(t.drop_first(), true)
    } else {
        slug_raw(t.drop_first(), prev_dash)
    }
}

/// `s` with every trailing `-` removed.
pub open spec fn strip_trailing_dashes(s: Seq<char>) -> Seq<char>
    decreases s.len(),
{
    if s.len() > 0 && s.last() == '-' {
        strip_trailing_dashes(s.drop_last())
    } else {
        s
    }
}

/// The slug of a title.
pub open spec fn spec_slug(t: Seq<char>) -> Seq<char> {
    strip_trailing_dashes(slug_raw(t, false))
}

/// Maps a title to its slug, the durable identifier of the record
/// created under that title.
pub fn title_to_filename(t: &str) -> (r: String)
    ensures
        r@ == spec_slug(t@),
{
    let chars = str_chars(t);
    let n = chars.len();
    let mut out: Vec<char> = Vec::new();
    let mut prev_dash = false;
    let mut i: usize = 0;
    proof {
        assert(chars@.skip(0) =~= chars@);
    }
    while i < n
        invariant
            i <= n,
            n == chars@.len(),
            slug_raw(chars@, false) == out@ + slug_raw(chars@.skip(i as int), prev_dash),
        decreases n - i,
    {
        let c = chars[i];
        proof {
            assert(chars@.skip(i as int)[0] == chars@[i as int]);
            assert(chars@.skip(i as int).drop_first() =~= chars@.skip(i + 1));
        }
        if alphanumeric(c) {
            let low = lower_char(c);
            let ghost base = out@;
            let m = low.len();
            let mut j: usize = 0;
            proof {
                assert(low@.subrange(0, 0) =~= Seq::<char>::empty());
                assert(out@ =~= base + low@.subrange(0, 0));
            }
            while j < m
                invariant
                    j <= m,
                    m == low@.len(),
                    out@ == base + low@.subrange(0, j as int),
                decreases m - j,
            {
                out.push(low[j]);
                j = j + 1;
                proof {
                    assert(out@ =~= base + low@.subrange(0, j as int));
                }
            }
            prev_dash = false;
            proof {
                assert(low@.subrange(0, m as int) =~= low@);
                assert(out@ =~= base + lower_of(c));
                assert(slug_raw(chars@, false) =~= out@ + slug_raw(
                    chars@.skip(i + 1),
                    false,
                ));
            }
        } else if !prev_dash {
            out.push('-');
            prev_dash = true;
            proof {
                assert(slug_raw(chars@, false) =~= out@ + slug_raw(chars@.skip(i + 1), true));
            }
        } else {
            proof {
                assert(slug_raw(chars@, false) =~= out@ + slug_raw(
                    chars@.skip(i + 1),
                    prev_dash,
                ));
            }
        }
        i = i + 1;
    }
    proof {
        assert(chars@.skip(n as int) =~= Seq::<char>::empty());
        assert(slug_raw(chars@, false) =~= out@);
    }
    let mut end = out.len();
    proof {
        assert(out@.subrange(0, out@.len() as int) =~= out@);
    }
    while end > 0 && out[end - 1] == '-'
        invariant
            end <= out@.len(),
            strip_trailing_dashes(out@) == strip_trailing_dashes(out@.subrange(0, end as int)),
        decreases end,
    {
        proof {
            assert(out@.subrange(0, end as int).drop_last() =~= out@.subrange(0, end - 1));
        }
        end = end - 1;
    }
    proof {
        if end > 0 {
            assert(strip_trailing_dashes(out@.subrange(0, end as int)) == out@.subrange(
                0,
                end as int,
            ));
        } else {
            assert(out@.subrange(0, 0) =~= Seq::<char>::empty());
        }
    }
    build_string(&out, 0, end)
}

/// The slug is a pure function of the title: equal titles always map to
/// equal slugs, which is what makes the slug usable as a durable
/// identifier.
pub proof fn lemma_slug_deterministic(t1: Seq<char>, t2: Seq<char>)
    requires
        t1 == t2,
    ensures
        spec_slug(t1) == spec_slug(t2),
{
}

} // verus!
