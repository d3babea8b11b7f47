//! The selection parser: free-text numeric input, possibly containing
//! separators and noise, becomes a sequence of indices into the
//! last-built result set.
//!
//! Scanning runs left to right; consecutive digits accumulate into one
//! number and any other character ends the current run and is otherwise
//! ignored.  A run too large for `usize` is a fatal parse error; an
//! in-range index that exceeds the result set's length is silently
//! dropped, never an error.

use vstd::prelude::*;

verus! {

/// A numeric run in the selection input exceeded the representable
/// range.  This is fatal for the command: it indicates an index far
/// larger than any realistic result count.
#[derive(Debug, PartialEq, Eq, Structural)]
pub struct ParseError;

/// Whether `c` is a decimal digit.
pub open spec fn is_digit(c: char) -> bool {
    48 <= c as u32 && c as u32 <= 57
}

/// The numeric value of a decimal digit.
pub open spec fn digit_val(c: char) -> nat {
    (c as u32 - 48) as nat
}

/// The numbers denoted by the digit runs of `s` from position `i` on,
/// where `cur` is the value accumulated so far for a run still open to
/// the left.  Values are unbounded naturals: representability is a
/// separate concern.
pub open spec fn runs_from(s: Seq<char>, i: int, cur: Option<nat>) -> Seq<nat>
    decreases s.len() - i,
{
    if i < 0 || i >= s.len() {
        match cur {
            Some(n) => seq![n],
            None => Seq::empty(),
        }
    } else if is_digit(s[i]) {
        let acc = match cur {
            Some(n) => n,
            None => 0,
        };
        runs_from(s, i + 1, Some(acc * 10 + digit_val(s[i])))
    } else {
        match cur {
            Some(n) => seq![n] + runs_from(s, i + 1, None),
            None => runs_from(s, i + 1, None),
        }
    }
}

/// The numbers denoted by the maximal digit runs of `s`, left to right.
pub open spec fn parse_runs(s: Seq<char>) -> Seq<nat> {
    runs_from(s, 0, None)
}

/// A run that is open with accumulated value `c` closes at a value at
/// least `c`: appending digits never shrinks a number.
proof fn lemma_open_run_grows(s: Seq<char>, i: int, c: nat)
    ensures
        runs_from(s, i, Some(c)).len() >= 1,
        runs_from(s, i, Some(c))[0] >= c,
    decreases s.len() - i,
{
    if 0 <= i < s.len() {
        if is_digit(s[i]) {
            lemma_open_run_grows(s, i + 1, c * 10 + digit_val(s[i]));
        }
    }
}

/// Parses every digit run of `raw` into a `usize`, left to right.
/// Succeeds exactly when every run fits into `usize`; the fatal
/// error reports a run beyond that range.  Input without digits — empty
/// or all noise — is an empty selection, not a failure.
pub fn parse_selection(raw: &str) -> (r: Result<Vec<usize>, ParseError>)
    ensures
        r matches Ok(v) ==> v@.map_values(|x: usize| x as nat) == parse_runs(raw@),
        (r is Err) <==> (exists|j: int|
            0 <= j < parse_runs(raw@).len() && parse_runs(raw@)[j] > usize::MAX),
{
    let chars = crate::chars::str_chars(raw);
    let ghost s = raw@;
    let n = chars.len();
    let mut nums: Vec<usize> = Vec::new();
    let mut cur: usize = 0;
    let mut in_run = false;
    let mut i: usize = 0;
    while i < n
        invariant
            i <= n,
            n == s.len(),
            s == raw@,
            chars@ == s,
            parse_runs(s) == nums@.map_values(|x: usize| x as nat) + runs_from(
                s,
                i as int,
                if in_run {
                    Some(cur as nat)
                } else {
                    None
                },
            ),
        decreases n - i,
    {
        let c = chars[i];
        let cu = c as u32;
        if 48 <= cu && cu <= 57 {
            let d = (cu - 48) as usize;
            proof {
                assert(is_digit(s[i as int]));
                assert(digit_val(s[i as int]) == d as nat);
            }
            let acc: usize = if in_run {
                cur
            } else {
                0
            };
            if acc > (usize::MAX - d) / 10 {
                proof {
                    let run = acc as nat * 10 + digit_val(s[i as int]);
                    assert(run > usize::MAX) by (nonlinear_arith)
                        requires
                            acc > (usize::MAX - d) / 10,
                            d <= 9,
                            run == acc as nat * 10 + d as nat,
                    ;
                    lemma_open_run_grows(s, i + 1, run);
                    let done = nums@.map_values(|x: usize| x as nat);
                    let tail = runs_from(
                        s,
                        i as int,
                        if in_run {
                            Some(cur as nat)
                        } else {
                            None
                        },
                    );
                    assert(tail == runs_from(s, i + 1, Some(run)));
                    assert(parse_runs(raw@)[done.len() as int] == tail[0] > usize::MAX);
                    assert(0 <= done.len() < parse_runs(raw@).len());
                }
                return Err(ParseError);
            }
            proof {
                assert(acc * 10 + d <= usize::MAX) by (nonlinear_arith)
                    requires
                        acc <= (usize::MAX - d) / 10,
                        d <= 9,
                ;
            }
            cur = acc * 10 + d;
            in_run = true;
        } else {
            proof {
                assert(!is_digit(s[i as int]));
            }
            if in_run {
                let ghost done = nums@.map_values(|x: usize| x as nat);
                nums.push(cur);
                proof {
                    assert(nums@.map_values(|x: usize| x as nat) =~= done.push(cur as nat));
                    assert(done.push(cur as nat) =~= done + seq![cur as nat]);
                }
                in_run = false;
            }
        }
        i = i + 1;
    }
    if in_run {
        let ghost done = nums@.map_values(|x: usize| x as nat);
        nums.push(cur);
        proof {
            assert(nums@.map_values(|x: usize| x as nat) =~= done.push(cur as nat));
            assert(done.push(cur as nat) =~= done + seq![cur as nat]);
        }
    }
    proof {
        assert(parse_runs(s) =~= nums@.map_values(|x: usize| x as nat));
        assert(forall|j: int|
            0 <= j < parse_runs(s).len() ==> parse_runs(s)[j] <= usize::MAX);
    }
    Ok(nums)
}

/// The predicate keeping the indices that fall inside a result set of
/// the given length.
pub open spec fn within_len(len: int) -> spec_fn(usize) -> bool {
    |n: usize| n < len
}

/// The map from an index to its record in the given result sequence.
pub open spec fn record_at(records: Seq<Seq<char>>) -> spec_fn(usize) -> Seq<char> {
    |n: usize| records[n as int]
}

/// Applies a parsed selection to a result set: indices are taken in the
/// order they appeared in the input, duplicates yield duplicates, and
/// indices at or beyond the set's length are silently dropped.
pub fn apply_selection(sel: &Vec<usize>, results: &Vec<String>) -> (r: Vec<String>)
    ensures
        r.deep_view() == sel@.filter(within_len(results@.len() as int)).map_values(
            record_at(results.deep_view()),
        ),
{
    let ghost pred = within_len(results@.len() as int);
    let ghost f = record_at(results.deep_view());
    let k = sel.len();
    let mut out: Vec<String> = Vec::new();
    let mut i: usize = 0;
    proof {
        reveal(Seq::filter);
        assert(sel@.take(0) =~= Seq::<usize>::empty());
        assert(sel@.take(0).filter(pred).map_values(f) =~= Seq::<Seq<char>>::empty());
    }
    while i < k
        invariant
            i <= k,
            k == sel@.len(),
            pred == within_len(results@.len() as int),
            f == record_at(results.deep_view()),
            out.deep_view() == sel@.take(i as int).filter(pred).map_values(f),
        decreases k - i,
    {
        let ghost prev = out.deep_view();
        let idx = sel[i];
        if idx < results.len() {
            out.push(results[idx].clone());
            proof {
                assert(out.deep_view() =~= prev.push(results.deep_view()[idx as int]));
            }
        }
        proof {
            reveal(Seq::filter);
            assert(sel@.take(i + 1).drop_last() =~= sel@.take(i as int));
            assert(sel@.take(i + 1).last() == sel@[i as int]);
            assert(sel@.take(i + 1).filter(pred).map_values(f) =~= out.deep_view());
        }
        i = i + 1;
    }
    proof {
        assert(sel@.take(k as int) =~= sel@);
    }
    out
}

/// Single-choice selection: one unified policy is used for every
/// selection, the lenient left-to-right parser, and single-choice mode
/// takes the first parsed index.  An in-range first index picks its
/// record; an out-of-range first index, or a selection without any
/// number, is "no selection", not an error.
pub fn first_selection(sel: &Vec<usize>, results: &Vec<String>) -> (r: Option<String>)
    ensures
        match r {
            Some(s) => sel@.len() > 0 && (sel@[0] as int) < results@.len() && s@
                == results.deep_view()[sel@[0] as int],
            None => sel@.len() == 0 || (sel@[0] as int) >= results@.len(),
        },
{
    if sel.len() > 0 && sel[0] < results.len() {
        Some(results[sel[0]].clone())
    } else {
        None
    }
}

} // verus!
