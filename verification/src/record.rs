//! Reading the URL back out of a record body.
//!
//! By the on-disk contract a record holds a line beginning with the
//! literal `url`, a single space, and the URL token.  The extractor
//! scans the lines in order and returns the token of the first such
//! line: the characters between the line's first space and its next
//! space or end.  A `url` line without a space is passed over rather
//! than an error.

use vstd::prelude::*;

use crate::chars::{build_string, index_of, str_chars};

verus! {

/// The characters of `s` before the first occurrence of `c`; all of
/// `s` when `c` does not occur.
pub open spec fn upto_char(s: Seq<char>, c: char) -> Seq<char>
    decreases s.len(),
{
    if s.len() == 0 {
        s
    } else if s[0] == c {
        Seq::empty()
    } else {
        seq![s[0]] + upto_char(s.drop_first(), c)
    }
}

/// The characters of `s` after the first occurrence of `c`; nothing
/// when `c` does not occur.
pub open spec fn after_char(s: Seq<char>, c: char) -> Option<Seq<char>>
    decreases s.len(),
{
    if s.len() == 0 {
        None
    } else if s[0] == c {
        Some(s.drop_first())
    } else {
        after_char(s.drop_first(), c)
    }
}

/// What remains after the first occurrence of `c` is shorter than the
/// whole.
pub proof fn lemma_after_char_shorter(s: Seq<char>, c: char)
    ensures
        after_char(s, c) matches Some(r) ==> r.len() < s.len(),
    decreases s.len(),
{
    if s.len() > 0 && s[0] != c {
        lemma_after_char_shorter(s.drop_first(), c);
    }
}

/// Whether a line begins with the literal `url`.
pub open spec fn has_url_prefix(l: Seq<char>) -> bool {
    l.len() >= 3 && l[0] == 'u' && l[1] == 'r' && l[2] == 'l'
}

/// The URL token a single line yields: for a line with the `url`
/// prefix and a space, the characters between the first space and the
/// next space or the end of the line.
pub open spec fn line_url(l: Seq<char>) -> Option<Seq<char>> {
    if !has_url_prefix(l) {
        None
    } else {
        match after_char(l, ' ') {
            None => None,
            Some(t) => Some(upto_char(t, ' ')),
        }
    }
}

/// The URL of the first line of `s` that yields one.
pub open spec fn find_url(s: Seq<char>) -> Option<Seq<char>>
    decreases s.len(),
    via find_url_decreases
{
    if line_url(upto_char(s, '\n')) is Some {
        line_url(upto_char(s, '\n'))
    } else {
        match after_char(s, '\n') {
            None => None,
            Some(rest) => find_url(rest),
        }
    }
}

#[via_fn]
proof fn find_url_decreases(s: Seq<char>) {
    lemma_after_char_shorter(s, '\n');
}

/// Connects a first-occurrence index to the prefix and suffix spec
/// functions: if `c` does not occur in `s[i..j)` and `j` is either an
/// occurrence or the end, then the prefix before `c` in `s[i..]` is
/// `s[i..j)` and the suffix after it starts at `j + 1`.
proof fn lemma_scan(s: Seq<char>, i: int, j: int, c: char)
    requires
        0 <= i <= j <= s.len(),
        forall|k: int| i <= k < j ==> s[k] != c,
        j < s.len() ==> s[j] == c,
    ensures
        upto_char(s.skip(i), c) == s.subrange(i, j),
        after_char(s.skip(i), c) == (if j < s.len() {
            Some(s.skip(j + 1))
        } else {
            None::<Seq<char>>
        }),
    decreases j - i,
{
    if i == j {
        if j < s.len() {
            assert(s.skip(i)[0] == s[i]);
            assert(upto_char(s.skip(i), c) =~= s.subrange(i, j));
            assert(s.skip(i).drop_first() =~= s.skip(j + 1));
        } else {
            assert(s.skip(i) =~= Seq::<char>::empty());
            assert(upto_char(s.skip(i), c) =~= s.subrange(i, j));
        }
    } else {
        assert(s.skip(i)[0] == s[i]);
        assert(s.skip(i).drop_first() =~= s.skip(i + 1));
        lemma_scan(s, i + 1, j, c);
        assert(seq![s[i]] + s.subrange(i + 1, j) =~= s.subrange(i, j));
    }
}

/// Extracts the URL of a record body: the token after the single space
/// on the first line beginning with the literal `url`, or nothing when
/// no line yields one.
pub fn extract_url(contents: &str) -> (r: Option<String>)
    ensures
        r.deep_view() == find_url(contents@),
{
    let chars = str_chars(contents);
    let ghost s = contents@;
    let n = chars.len();
    let mut start: usize = 0;
    proof {
        assert(s.skip(0) =~= s);
    }
    loop
        invariant
            start <= n,
            n == s.len(),
            s == contents@,
            chars@ == s,
            find_url(s) == find_url(s.skip(start as int)),
        decreases n - start,
    {
        let nl = index_of(&chars, start, '\n');
        let ghost line = s.subrange(start as int, nl as int);
        proof {
            lemma_scan(s, start as int, nl as int, '\n');
        }
        if nl - start >= 3 && chars[start] == 'u' && chars[start + 1] == 'r' && chars[start + 2]
            == 'l' {
            proof {
                assert(line[0] == s[start as int]);
                assert(line[1] == s[start as int + 1]);
                assert(line[2] == s[start as int + 2]);
                assert(has_url_prefix(line));
            }
            let sp = index_of(&chars, start, ' ');
            if sp < nl {
                let next_sp = index_of(&chars, sp + 1, ' ');
                let tok_end = if next_sp < nl {
                    next_sp
                } else {
                    nl
                };
                proof {
                    assert(forall|k: int| 0 <= k < sp - start ==> line[k] == s[start + k]);
                    lemma_scan(line, 0, sp - start, ' ');
                    assert(line.skip(0) =~= line);
                    let t = line.skip(sp - start + 1);
                    assert(t =~= s.subrange(sp + 1, nl as int));
                    assert(forall|k: int| 0 <= k < tok_end - sp - 1 ==> t[k] == s[sp + 1 + k]);
                    lemma_scan(t, 0, tok_end - sp - 1, ' ');
                    assert(t.skip(0) =~= t);
                    assert(t.subrange(0, tok_end - sp - 1) =~= s.subrange(sp + 1, tok_end as int));
                    assert(line_url(line) == Some(s.subrange(sp + 1, tok_end as int)));
                }
                let token = build_string(&chars, sp + 1, tok_end);
                proof {
                    assert(find_url(s.skip(start as int)) == Some(token@));
                }
                return Some(token);
            }
            proof {
                assert(forall|k: int| 0 <= k < line.len() ==> line[k] == s[start + k]);
                lemma_scan(line, 0, line.len() as int, ' ');
                assert(line.skip(0) =~= line);
                assert(line_url(line) is None);
            }
        } else {
            proof {
                assert(line_url(line) is None);
            }
        }
        if nl >= n {
            proof {
                assert(find_url(s.skip(start as int)) is None);
            }
            return None;
        }
        start = nl + 1;
    }
}

} // verus!
