//! Command-line argument splitting: the first argument names the
//! command, and the rest form the tag query until a `--title` / `-t`
//! flag switches the remainder into the title query.

use vstd::prelude::*;
use vstd::string::StringExecFns;

verus! {

/// A parsed command line.
pub struct BMArgs {
    pub cmd: String,
    pub tag_query: Vec<String>,
    pub title_query: Vec<String>,
}

/// Whether an argument is the flag that starts the title query.
pub open spec fn is_title_flag(a: Seq<char>) -> bool {
    a == "--title"@ || a == "-t"@
}

/// Splits the arguments after the command into the tag query and the
/// title query.  `titles` says whether the title flag has already been
/// seen.
pub open spec fn split_queries(rest: Seq<Seq<char>>, titles: bool) -> (Seq<Seq<char>>, Seq<
    Seq<char>,
>)
    decreases rest.len(),
{
    if rest.len() == 0 {
        (Seq::empty(), Seq::empty())
    } else if is_title_flag(rest[0]) {
        split_queries(rest.drop_first(), true)
    } else {
        let r = split_queries(rest.drop_first(), titles);
        if titles {
            (r.0, seq![rest[0]] + r.1)
        } else {
            (seq![rest[0]] + r.0, r.1)
        }
    }
}

/// The command, tag query and title query denoted by a full argument
/// list (the program name already removed).
pub open spec fn spec_parse_args(args: Seq<Seq<char>>) -> (Seq<char>, Seq<Seq<char>>, Seq<
    Seq<char>,
>) {
    if args.len() == 0 {
        (Seq::empty(), Seq::empty(), Seq::empty())
    } else {
        let q = split_queries(args.drop_first(), false);
        (args[0], q.0, q.1)
    }
}

/// Parses the argument list: the first argument is the command (empty
/// when there is none), the rest fill the tag query until `--title` or
/// `-t`, after which they fill the title query.
pub fn parse_args(args: &Vec<String>) -> (r: BMArgs)
    ensures
        (r.cmd@, r.tag_query.deep_view(), r.title_query.deep_view()) == spec_parse_args(
            args.deep_view(),
        ),
{
    let ghost dv = args.deep_view();
    if args.len() == 0 {
        let r = BMArgs { cmd: String::new(), tag_query: Vec::new(), title_query: Vec::new() };
        proof {
            assert(r.tag_query.deep_view() =~= Seq::<Seq<char>>::empty());
            assert(r.title_query.deep_view() =~= Seq::<Seq<char>>::empty());
        }
        return r;
    }
    let cmd = args[0].clone();
    let long_flag = String::from_str("--title");
    let short_flag = String::from_str("-t");
    let ghost rest = dv.drop_first();
    let n = args.len();
    let mut tag_query: Vec<String> = Vec::new();
    let mut title_query: Vec<String> = Vec::new();
    let mut titles_now = false;
    let mut i: usize = 1;
    proof {
        assert(rest.skip(0) =~= rest);
    }
    while i < n
        invariant
            1 <= i <= n,
            n == args@.len(),
            dv == args.deep_view(),
            rest == dv.drop_first(),
            long_flag@ == "--title"@,
            short_flag@ == "-t"@,
            split_queries(rest, false).0 == tag_query.deep_view() + split_queries(
                rest.skip(i - 1),
                titles_now,
            ).0,
            split_queries(rest, false).1 == title_query.deep_view() + split_queries(
                rest.skip(i - 1),
                titles_now,
            ).1,
        decreases n - i,
    {
        proof {
            assert(rest.skip(i - 1)[0] == dv[i as int]);
            assert(rest.skip(i - 1).drop_first() =~= rest.skip(i as int));
        }
        if args[i].eq(&long_flag) || args[i].eq(&short_flag) {
            titles_now = true;
        } else if titles_now {
            let ghost prev = title_query.deep_view();
            title_query.push(args[i].clone());
            proof {
                assert(title_query.deep_view() =~= prev.push(dv[i as int]));
                assert(prev.push(dv[i as int]) + split_queries(rest.skip(i as int), true).1
                    =~= prev + (seq![dv[i as int]] + split_queries(rest.skip(i as int), true).1));
            }
        } else {
            let ghost prev = tag_query.deep_view();
            tag_query.push(args[i].clone());
            proof {
                assert(tag_query.deep_view() =~= prev.push(dv[i as int]));
                assert(prev.push(dv[i as int]) + split_queries(rest.skip(i as int), false).0
                    =~= prev + (seq![dv[i as int]] + split_queries(rest.skip(i as int), false).0));
            }
        }
        i = i + 1;
    }
    proof {
        assert(rest.skip(n - 1) =~= Seq::<Seq<char>>::empty());
        assert(tag_query.deep_view() + Seq::<Seq<char>>::empty() =~= tag_query.deep_view());
        assert(title_query.deep_view() + Seq::<Seq<char>>::empty() =~= title_query.deep_view());
    }
    BMArgs { cmd, tag_query, title_query }
}

} // verus!
