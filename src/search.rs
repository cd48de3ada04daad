//! Selecting the lines of a text that contain a query, exactly or with case folded.
use vstd::prelude::*;

use crate::config::Config;
use crate::text::{chars_of, has_substring, has_substring_chars, lines, split_lines, views};

verus! {

/// The lowercase form of a string, as Unicode defines it for `str::to_lowercase`.
pub uninterp spec fn lower_of(s: Seq<char>) -> Seq<char>;

/// A line is kept when it holds the query as it is.
pub open spec fn exact_match(query: Seq<char>) -> spec_fn(Seq<char>) -> bool {
    |line: Seq<char>| has_substring(line, query)
}

/// A line is kept when its lowercase form holds the lowercase form of the query.
pub open spec fn folded_match(query: Seq<char>) -> spec_fn(Seq<char>) -> bool {
    |line: Seq<char>| has_substring(lower_of(line), lower_of(query))
}

/// The lines of `contents` that hold `query`, in their order.
pub open spec fn exact_matches(query: Seq<char>, contents: Seq<char>) -> Seq<Seq<char>> {
    lines(contents).filter(exact_match(query))
}

/// The lines of `contents` that hold `query` once both are lowercased, in their order.
pub open spec fn folded_matches(query: Seq<char>, contents: Seq<char>) -> Seq<Seq<char>> {
    lines(contents).filter(folded_match(query))
}

/// Relies on `str::to_lowercase`: its result depends on the characters of its argument alone.
#[verifier::external_body]
fn lowercase(s: &str) -> (r: String)
    ensures
        r@ == lower_of(s@),
{
    s.to_lowercase()
}

/// The lines of `contents` that contain `query` exactly, in order, borrowed from `contents`.
/// An empty query keeps every line.
pub fn search<'a>(query: &str, contents: &'a str) -> (r: Vec<&'a str>)
    ensures
        views(r@) == exact_matches(query@, contents@),
{
    let ls = split_lines(contents);
    let q = chars_of(query);
    let mut r: Vec<&'a str> = Vec::new();
    for i in 0..ls.len()
        invariant
            views(ls@) == lines(contents@),
            q@ == query@,
            views(r@) == views(ls@).take(i as int).filter(exact_match(query@)),
    {
        let line = ls[i];
        let lc = chars_of(line);
        let keep = has_substring_chars(&lc, &q);
        proof {
            reveal(Seq::filter);
            let p = exact_match(query@);
            assert(views(ls@).take(i + 1).drop_last() =~= views(ls@).take(i as int));
            assert(views(ls@).take(i + 1).last() == line@);
            assert(p(line@) == keep);
            assert(views(r@.push(line)) =~= views(r@).push(line@));
        }
        if keep {
            r.push(line);
        }
    }
    assert(views(ls@).take(ls@.len() as int) =~= views(ls@));
    r
}

/// The lines of `contents` whose lowercase form contains the lowercase form of `query`, in
/// order, with their original text.
pub fn search_case_insensitive<'a>(query: &str, contents: &'a str) -> (r: Vec<&'a str>)
    ensures
        views(r@) == folded_matches(query@, contents@),
{
    let ls = split_lines(contents);
    let lq = lowercase(query);
    let q = chars_of(lq.as_str());
    let mut r: Vec<&'a str> = Vec::new();
    for i in 0..ls.len()
        invariant
            views(ls@) == lines(contents@),
            q@ == lower_of(query@),
            views(r@) == views(ls@).take(i as int).filter(folded_match(query@)),
    {
        let line = ls[i];
        let ll = lowercase(line);
        let lc = chars_of(ll.as_str());
        let keep = has_substring_chars(&lc, &q);
        proof {
            reveal(Seq::filter);
            let p = folded_match(query@);
            assert(views(ls@).take(i + 1).drop_last() =~= views(ls@).take(i as int));
            assert(views(ls@).take(i + 1).last() == line@);
            assert(p(line@) == keep);
            assert(views(r@.push(line)) =~= views(r@).push(line@));
        }
        if keep {
            r.push(line);
        }
    }
    assert(views(ls@).take(ls@.len() as int) =~= views(ls@));
    r
}

/// The lines that the search described by `config` selects from `contents`: case-insensitive
/// when `config.ignore_case` holds, exact otherwise.
pub fn matching_lines<'a>(config: &Config, contents: &'a str) -> (r: Vec<&'a str>)
    ensures
        views(r@) == (if config.ignore_case {
            folded_matches(config.query@, contents@)
        } else {
            exact_matches(config.query@, contents@)
        }),
{
    if config.ignore_case {
        search_case_insensitive(config.query.as_str(), contents)
    } else {
        search(config.query.as_str(), contents)
    }
}

/// Every line that an exact search returns is a line of the contents that holds the query,
/// and every line of the contents that holds the query is returned.
pub proof fn lemma_exact_matches_sound_complete(query: Seq<char>, contents: Seq<char>)
    ensures
        forall|i: int|
            0 <= i < exact_matches(query, contents).len() ==> {
                let l = #[trigger] exact_matches(query, contents)[i];
                has_substring(l, query) && lines(contents).contains(l)
            },
        forall|l: Seq<char>|
            #[trigger] lines(contents).contains(l) && has_substring(l, query)
                ==> exact_matches(query, contents).contains(l),
{
    broadcast use Seq::lemma_filter_pred;

    let ls = lines(contents);
    let p = exact_match(query);
    assert forall|i: int| 0 <= i < ls.filter(p).len() implies #[trigger] ls.contains(
        ls.filter(p)[i],
    ) by {
        assert(ls.filter(p).contains(ls.filter(p)[i]));
        ls.lemma_filter_contains_rev(p, ls.filter(p)[i]);
    }
    assert forall|l: Seq<char>| #[trigger] ls.contains(l) && has_substring(l, query) implies ls.filter(
        p,
    ).contains(l) by {
        let k = choose|k: int| 0 <= k < ls.len() && ls[k] == l;
        ls.lemma_filter_contains(p, k);
    }
}

/// Every line that a case-insensitive search returns is a line of the contents whose
/// lowercase form holds the lowercase query, and every such line is returned.
pub proof fn lemma_folded_matches_sound_complete(query: Seq<char>, contents: Seq<char>)
    ensures
        forall|i: int|
            0 <= i < folded_matches(query, contents).len() ==> {
                let l = #[trigger] folded_matches(query, contents)[i];
                has_substring(lower_of(l), lower_of(query)) && lines(contents).contains(l)
            },
        forall|l: Seq<char>|
            #[trigger] lines(contents).contains(l) && has_substring(lower_of(l), lower_of(query))
                ==> folded_matches(query, contents).contains(l),
{
    broadcast use Seq::lemma_filter_pred;

    let ls = lines(contents);
    let p = folded_match(query);
    assert forall|i: int| 0 <= i < ls.filter(p).len() implies #[trigger] ls.contains(
        ls.filter(p)[i],
    ) by {
        assert(ls.filter(p).contains(ls.filter(p)[i]));
        ls.lemma_filter_contains_rev(p, ls.filter(p)[i]);
    }
    assert forall|l: Seq<char>|
        #[trigger] ls.contains(l) && has_substring(lower_of(l), lower_of(query)) implies ls.filter(
        p,
    ).contains(l) by {
        let k = choose|k: int| 0 <= k < ls.len() && ls[k] == l;
        ls.lemma_filter_contains(p, k);
    }
}

/// Searching changes nothing that a later search reads: two searches of the same kind with
/// the same query and contents return the same lines.
pub proof fn lemma_search_repeatable(
    query: Seq<char>,
    contents: Seq<char>,
    ignore_case: bool,
    first: Seq<Seq<char>>,
    second: Seq<Seq<char>>,
)
    requires
        first == (if ignore_case {
            folded_matches(query, contents)
        } else {
            exact_matches(query, contents)
        }),
        second == (if ignore_case {
            folded_matches(query, contents)
        } else {
            exact_matches(query, contents)
        }),
    ensures
        first == second,
{
}

} // verus!
