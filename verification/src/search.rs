//! The search engine: returns the lines of the contents that contain the
//! query, comparing either exactly or after lowercasing both sides.

use vstd::prelude::*;
use crate::config::Config;
use crate::lines::spec_lines;
use crate::lines::split_lines;
use crate::text::chars_of;
use crate::text::contains_chars;
use crate::text::lemma_empty_needle;
use crate::text::spec_contains;

verus! {

/// The lowercase form of a character sequence, as `str::to_lowercase`
/// computes it.
pub uninterp spec fn lower_of(s: Seq<char>) -> Seq<char>;

/// Relies on `str::to_lowercase`: the result depends on the characters of
/// `s` alone, and an empty string stays empty.
pub assume_specification[ str::to_lowercase ](s: &str) -> (r: String)
    ensures
        r@ == lower_of(s@),
        s@.len() == 0 ==> r@.len() == 0,
;

/// The lines that an exact-case search for `query` keeps.
pub open spec fn line_matches(query: Seq<char>) -> spec_fn(Seq<char>) -> bool {
    |line: Seq<char>| spec_contains(line, query)
}

/// The lines that a lowercasing search for `query` keeps.
pub open spec fn line_matches_lowered(query: Seq<char>) -> spec_fn(Seq<char>) -> bool {
    |line: Seq<char>| spec_contains(lower_of(line), lower_of(query))
}

/// The lines of `contents`, in order, whose exact text contains `query`.
pub open spec fn sensitive_matches(query: Seq<char>, contents: Seq<char>) -> Seq<Seq<char>> {
    spec_lines(contents).filter(line_matches(query))
}

/// The lines of `contents`, in order, whose lowercased text contains the
/// lowercased `query`; the lines keep their original casing.
pub open spec fn insensitive_matches(query: Seq<char>, contents: Seq<char>) -> Seq<Seq<char>> {
    spec_lines(contents).filter(line_matches_lowered(query))
}

/// Filtering a one-longer prefix keeps the old result and appends the next
/// element exactly when the predicate holds of it.
proof fn lemma_filter_take_step<A>(s: Seq<A>, pred: spec_fn(A) -> bool, i: int)
    requires
        0 <= i < s.len(),
    ensures
        pred(s[i]) ==> s.take(i + 1).filter(pred) == s.take(i).filter(pred).push(s[i]),
        !pred(s[i]) ==> s.take(i + 1).filter(pred) == s.take(i).filter(pred),
{
    reveal(Seq::filter);
    assert(s.take(i + 1).drop_last() =~= s.take(i));
    assert(s.take(i + 1).last() == s[i]);
}

/// A filter whose predicate holds of every element keeps the sequence whole.
proof fn lemma_filter_all_true<A>(s: Seq<A>, pred: spec_fn(A) -> bool)
    requires
        forall|i: int| 0 <= i < s.len() ==> #[trigger] pred(s[i]),
    ensures
        s.filter(pred) == s,
    decreases s.len(),
{
    reveal(Seq::filter);
    if s.len() > 0 {
        lemma_filter_all_true(s.drop_last(), pred);
        assert(s.drop_last().filter(pred).push(s.last()) =~= s);
    }
}

/// Returns the lines of `contents` whose exact text contains `query` as a
/// contiguous substring, in the order they appear in `contents`.
pub fn search_case_sensitive(query: &str, contents: &str) -> (r: Vec<String>)
    ensures
        r.deep_view() == sensitive_matches(query@, contents@),
        query@.len() == 0 ==> r.deep_view() == spec_lines(contents@),
        contents@.len() == 0 ==> r@.len() == 0,
{
    let lines = split_lines(contents);
    let q = chars_of(query);
    let ghost ls = spec_lines(contents@);
    let ghost pred = line_matches(query@);
    let n = lines.len();
    let mut r: Vec<String> = Vec::new();
    let mut i: usize = 0;
    while i < n
        invariant
            n == lines@.len(),
            lines.deep_view() == ls,
            ls == spec_lines(contents@),
            q@ == query@,
            pred == line_matches(query@),
            i <= n,
            r.deep_view() == ls.take(i as int).filter(pred),
        decreases n - i,
    {
        let line = chars_of(lines[i].as_str());
        assert(line@ == ls[i as int]);
        proof {
            lemma_filter_take_step(ls, pred, i as int);
        }
        if contains_chars(&line, &q) {
            let ghost old_r = r.deep_view();
            r.push(lines[i].clone());
            proof {
                assert(r.deep_view() =~~= old_r.push(ls[i as int]));
            }
        }
        i += 1;
    }
    proof {
        assert(ls.take(n as int) =~= ls);
        if query@.len() == 0 {
            assert forall|j: int| 0 <= j < ls.len() implies #[trigger] pred(ls[j]) by {
                assert(query@ =~= Seq::<char>::empty());
                lemma_empty_needle(ls[j]);
            }
            lemma_filter_all_true(ls, pred);
        }
    }
    r
}

/// Returns the lines of `contents` whose lowercased text contains the
/// lowercased `query` as a contiguous substring, in the order they appear in
/// `contents`; the returned lines keep their original casing.
pub fn search_case_insensitive(query: &str, contents: &str) -> (r: Vec<String>)
    ensures
        r.deep_view() == insensitive_matches(query@, contents@),
        query@.len() == 0 ==> r.deep_view() == spec_lines(contents@),
        contents@.len() == 0 ==> r@.len() == 0,
{
    let lines = split_lines(contents);
    let lowered_query = query.to_lowercase();
    let q = chars_of(lowered_query.as_str());
    let ghost ls = spec_lines(contents@);
    let ghost pred = line_matches_lowered(query@);
    let n = lines.len();
    let mut r: Vec<String> = Vec::new();
    let mut i: usize = 0;
    while i < n
        invariant
            n == lines@.len(),
            lines.deep_view() == ls,
            ls == spec_lines(contents@),
            q@ == lower_of(query@),
            pred == line_matches_lowered(query@),
            i <= n,
            r.deep_view() == ls.take(i as int).filter(pred),
        decreases n - i,
    {
        let lowered_line = lines[i].as_str().to_lowercase();
        let line = chars_of(lowered_line.as_str());
        assert(line@ == lower_of(ls[i as int]));
        proof {
            lemma_filter_take_step(ls, pred, i as int);
        }
        if contains_chars(&line, &q) {
            let ghost old_r = r.deep_view();
            r.push(lines[i].clone());
            proof {
                assert(r.deep_view() =~~= old_r.push(ls[i as int]));
            }
        }
        i += 1;
    }
    proof {
        assert(ls.take(n as int) =~= ls);
        if query@.len() == 0 {
            assert(lower_of(query@) =~= Seq::<char>::empty());
            assert forall|j: int| 0 <= j < ls.len() implies #[trigger] pred(ls[j]) by {
                lemma_empty_needle(lower_of(ls[j]));
            }
            lemma_filter_all_true(ls, pred);
        }
    }
    r
}

/// Law: the case-sensitive search's result is a function of the query and
/// the contents alone, so running it twice on the same inputs yields
/// identical results.
pub proof fn lemma_sensitive_search_deterministic(
    query: Seq<char>,
    contents: Seq<char>,
    r1: Seq<Seq<char>>,
    r2: Seq<Seq<char>>,
)
    requires
        r1 == sensitive_matches(query, contents),
        r2 == sensitive_matches(query, contents),
    ensures
        r1 == r2,
{
}

/// Law: the case-insensitive search's result is a function of the query and
/// the contents alone, so running it twice on the same inputs yields
/// identical results.
pub proof fn lemma_insensitive_search_deterministic(
    query: Seq<char>,
    contents: Seq<char>,
    r1: Seq<Seq<char>>,
    r2: Seq<Seq<char>>,
)
    requires
        r1 == insensitive_matches(query, contents),
        r2 == insensitive_matches(query, contents),
    ensures
        r1 == r2,
{
}

/// Law: a case-sensitive search for the empty query keeps every line.
pub proof fn lemma_empty_query_matches_every_line(contents: Seq<char>)
    ensures
        sensitive_matches(Seq::<char>::empty(), contents) == spec_lines(contents),
{
    let ls = spec_lines(contents);
    let pred = line_matches(Seq::<char>::empty());
    assert forall|j: int| 0 <= j < ls.len() implies #[trigger] pred(ls[j]) by {
        lemma_empty_needle(ls[j]);
    }
    lemma_filter_all_true(ls, pred);
}

/// The lines a run with a given configuration prints: the matches of the
/// query against the contents, lowercased or exact as `ignore_case` says.
pub open spec fn config_matches(
    ignore_case: bool,
    query: Seq<char>,
    contents: Seq<char>,
) -> Seq<Seq<char>> {
    if ignore_case {
        insensitive_matches(query, contents)
    } else {
        sensitive_matches(query, contents)
    }
}

/// Runs the search that the configuration selects.
pub fn matching_lines(config: &Config, contents: &str) -> (r: Vec<String>)
    ensures
        r.deep_view() == config_matches(config.ignore_case, config.query@, contents@),
{
    if config.ignore_case {
        search_case_insensitive(config.query.as_str(), contents)
    } else {
        search_case_sensitive(config.query.as_str(), contents)
    }
}

/// Law: empty contents have no lines, so either search returns nothing.
pub proof fn lemma_empty_contents_yield_nothing(query: Seq<char>)
    ensures
        sensitive_matches(query, Seq::<char>::empty()) == Seq::<Seq<char>>::empty(),
        insensitive_matches(query, Seq::<char>::empty()) == Seq::<Seq<char>>::empty(),
{
}

} // verus!
