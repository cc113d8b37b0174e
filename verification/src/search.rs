//! The two searches: the lines of a text that contain a query, exactly or
//! ignoring case.

use crate::selection::{lemma_filter_selects, selects};
use crate::strings::{contains, lowercase, split_lines};
use crate::text::{is_substring, line_views, lines_of};
use vstd::prelude::*;

verus! {

/// The test a line passes under the exact policy: it contains `query`.
pub open spec fn matches_exactly(query: Seq<char>) -> spec_fn(Seq<char>) -> bool {
    |line: Seq<char>| is_substring(query, line)
}

/// The test a line passes under the case-insensitive policy: its lowercase
/// form contains the lowercase form of `query`.
pub open spec fn matches_ignoring_case(query: Seq<char>) -> spec_fn(Seq<char>) -> bool {
    |line: Seq<char>| is_substring(lowercase(query), lowercase(line))
}

/// What [`search`] finds: the lines of `contents` that contain `query`, in
/// the order in which they stand in `contents`.
pub open spec fn found(query: Seq<char>, contents: Seq<char>) -> Seq<Seq<char>> {
    lines_of(contents).filter(matches_exactly(query))
}

/// What [`search_case_insensitive`] finds: the lines of `contents` whose
/// lowercase form contains the lowercase form of `query`, each as it stands
/// in `contents`, in order.
pub open spec fn found_ignoring_case(query: Seq<char>, contents: Seq<char>) -> Seq<Seq<char>> {
    lines_of(contents).filter(matches_ignoring_case(query))
}

/// Appends `line` to `matches` if `key` contains `needle`, and leaves
/// `matches` as it is otherwise.
///
/// `key` is the text a line is judged by: the line itself under the exact
/// policy, its lowercase form under the case-insensitive one.
pub fn keep_if_match<'a>(matches: &mut Vec<&'a str>, line: &'a str, key: &str, needle: &str)
    ensures
        final(matches)@ == (if is_substring(needle@, key@) {
            old(matches)@.push(line)
        } else {
            old(matches)@
        }),
{
    if contains(key, needle) {
        matches.push(line);
    }
}

/// Returns the lines of `contents` that contain `query`, in the order in
/// which they stand in `contents`. The comparison is exact and
/// case-sensitive. An empty `query` is contained in every line, and an empty
/// text has no lines.
pub fn search<'a>(query: &str, contents: &'a str) -> (result: Vec<&'a str>)
    ensures
        line_views(result@) == found(query@, contents@),
        selects(line_views(result@), lines_of(contents@), matches_exactly(query@)),
{
    let lines = split_lines(contents);
    let mut result: Vec<&'a str> = Vec::new();
    let mut i: usize = 0;
    while i < lines.len()
        invariant
            i <= lines.len(),
            line_views(lines@) == lines_of(contents@),
            line_views(result@) == line_views(lines@).take(i as int).filter(
                matches_exactly(query@),
            ),
        decreases lines.len() - i,
    {
        let line = lines[i];
        proof {
            let seen = line_views(lines@).take(i as int);
            line_views(lines@).lemma_take_succ_push(i as int);
            seen.lemma_filter_push(line@, matches_exactly(query@));
        }
        keep_if_match(&mut result, line, line, query);
        i += 1;
    }
    proof {
        line_views(lines@).lemma_take_len();
        lemma_filter_selects(lines_of(contents@), matches_exactly(query@));
    }
    result
}

/// Returns the lines of `contents` whose lowercase form contains the
/// lowercase form of `query`, in the order in which they stand in
/// `contents`. The lines come back as they stand there, not lowercased.
pub fn search_case_insensitive<'a>(query: &str, contents: &'a str) -> (result: Vec<&'a str>)
    ensures
        line_views(result@) == found_ignoring_case(query@, contents@),
        selects(line_views(result@), lines_of(contents@), matches_ignoring_case(query@)),
{
    let needle = query.to_lowercase();
    let lines = split_lines(contents);
    let mut result: Vec<&'a str> = Vec::new();
    let mut i: usize = 0;
    while i < lines.len()
        invariant
            i <= lines.len(),
            needle@ == lowercase(query@),
            line_views(lines@) == lines_of(contents@),
            line_views(result@) == line_views(lines@).take(i as int).filter(
                matches_ignoring_case(query@),
            ),
        decreases lines.len() - i,
    {
        let line = lines[i];
        let key = line.to_lowercase();
        proof {
            let seen = line_views(lines@).take(i as int);
            line_views(lines@).lemma_take_succ_push(i as int);
            seen.lemma_filter_push(line@, matches_ignoring_case(query@));
        }
        keep_if_match(&mut result, line, key.as_str(), needle.as_str());
        i += 1;
    }
    proof {
        line_views(lines@).lemma_take_len();
        lemma_filter_selects(lines_of(contents@), matches_ignoring_case(query@));
    }
    result
}

} // verus!
