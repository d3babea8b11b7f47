//! The record composer: a new record's identifier and textual body,
//! synthesized from structured fields.
//!
//! The body layout is the on-disk contract the external tag matcher and
//! the url extraction depend on: four fixed lines (`title:`, `url:`,
//! `date:`, blank), then the tag line of space-separated `@tag` tokens.

use vstd::prelude::*;
use vstd::string::StringExecFns;

use crate::slug::{spec_slug, title_to_filename};

verus! {

/// The structured fields a new record is created from.  The date is
/// already rendered as `YYYY-MM-DD`; the clock is the caller's
/// business.
pub struct NewRecord {
    pub title: String,
    pub url: String,
    pub tags: Vec<String>,
    pub date: String,
}

/// The tag line: each tag prefixed with `@`, tokens joined by a single
/// space.
pub open spec fn tags_line(tags: Seq<Seq<char>>) -> Seq<char>
    decreases tags.len(),
{
    if tags.len() == 0 {
        Seq::empty()
    } else if tags.len() == 1 {
        "@"@ + tags[0]
    } else {
        tags_line(tags.drop_last()) + " @"@ + tags.last()
    }
}

/// The full record body for the given fields.
pub open spec fn spec_body(
    title: Seq<char>,
    url: Seq<char>,
    date: Seq<char>,
    tags: Seq<Seq<char>>,
) -> Seq<char> {
    "title: "@ + title + "\n"@ + "url: "@ + url + "\n"@ + "date: "@ + date + "\n\n"@ + tags_line(
        tags,
    ) + "\n"@
}

/// Renders the tag line for the given tags.
pub fn render_tags_line(tags: &Vec<String>) -> (r: String)
    ensures
        r@ == tags_line(tags.deep_view()),
{
    let ghost dv = tags.deep_view();
    let n = tags.len();
    let mut out = String::new();
    let mut i: usize = 0;
    proof {
        assert(dv.take(0) =~= Seq::<Seq<char>>::empty());
    }
    while i < n
        invariant
            i <= n,
            n == tags@.len(),
            dv == tags.deep_view(),
            out@ == tags_line(dv.take(i as int)),
        decreases n - i,
    {
        if i == 0 {
            out.append("@");
        } else {
            out.append(" @");
        }
        out.append(tags[i].as_str());
        proof {
            assert(dv.take(i + 1).drop_last() =~= dv.take(i as int));
            assert(dv.take(i + 1).last() == dv[i as int]);
            assert(out@ =~= tags_line(dv.take(i + 1)));
        }
        i = i + 1;
    }
    proof {
        assert(dv.take(n as int) =~= dv);
    }
    out
}

/// Composes a new record: the identifier is the slug of the title, and
/// the body is the fixed four-line layout followed by the tag line.
pub fn compose_record(rec: &NewRecord) -> (r: (String, String))
    ensures
        r.0@ == spec_slug(rec.title@),
        r.1@ == spec_body(rec.title@, rec.url@, rec.date@, rec.tags.deep_view()),
{
    let id = title_to_filename(rec.title.as_str());
    let tag_line = render_tags_line(&rec.tags);
    let mut body = String::new();
    body.append("title: ");
    body.append(rec.title.as_str());
    body.append("\n");
    body.append("url: ");
    body.append(rec.url.as_str());
    body.append("\n");
    body.append("date: ");
    body.append(rec.date.as_str());
    body.append("\n\n");
    body.append(tag_line.as_str());
    body.append("\n");
    proof {
        assert(body@ =~= spec_body(rec.title@, rec.url@, rec.date@, rec.tags.deep_view()));
    }
    (id, body)
}

} // verus!
