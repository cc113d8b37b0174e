//! What holds of the searches for every query and every text.

use crate::search::{found, found_ignoring_case, matches_exactly, matches_ignoring_case};
use crate::selection::{
    lemma_filter_by_stronger_test, lemma_filter_keeps_all, lemma_filter_selects,
    lemma_filtered_are_members, selects,
};
use crate::strings::lowercase;
use crate::text::{
    is_substring, lemma_empty_is_substring, lemma_final_newline_is_optional,
    lemma_lines_hold_no_newline, lemma_lines_stand_in_text,
    lemma_substring_holds_no_other_character, line_views, lines_of,
};
use vstd::prelude::*;

verus! {

/// The exact search finds the matching lines and nothing else: every line
/// found contains the query, every line of the text that is not among the
/// lines found does not contain it, and the lines found are selected from
/// the lines of the text in their order, one for each position at which a
/// line contains the query.
pub proof fn search_finds_the_matching_lines(query: Seq<char>, contents: Seq<char>)
    ensures
        forall|k: int|
            0 <= k < found(query, contents).len() ==> is_substring(
                query,
                #[trigger] found(query, contents)[k],
            ),
        forall|i: int|
            0 <= i < lines_of(contents).len() && !found(query, contents).contains(
                #[trigger] lines_of(contents)[i],
            ) ==> !is_substring(query, lines_of(contents)[i]),
        selects(found(query, contents), lines_of(contents), matches_exactly(query)),
{
    lemma_filter_selects(lines_of(contents), matches_exactly(query));
}

/// The case-insensitive search finds exactly the lines whose lowercase form
/// contains the lowercase query: every line found is such a line, every
/// line of the text that is not among the lines found is not, and the lines
/// found are selected from the lines of the text in their order, one for
/// each position of such a line.
pub proof fn case_insensitive_search_finds_the_matching_lines(
    query: Seq<char>,
    contents: Seq<char>,
)
    ensures
        forall|k: int|
            0 <= k < found_ignoring_case(query, contents).len() ==> is_substring(
                lowercase(query),
                lowercase(#[trigger] found_ignoring_case(query, contents)[k]),
            ),
        forall|i: int|
            0 <= i < lines_of(contents).len() && !found_ignoring_case(query, contents).contains(
                #[trigger] lines_of(contents)[i],
            ) ==> !is_substring(lowercase(query), lowercase(lines_of(contents)[i])),
        selects(
            found_ignoring_case(query, contents),
            lines_of(contents),
            matches_ignoring_case(query),
        ),
{
    lemma_filter_selects(lines_of(contents), matches_ignoring_case(query));
}

/// Whether lowercasing keeps every match of `query` in `contents`: each line
/// that contains the query still contains it once both are lowercased.
///
/// This holds of most texts but not of all: the lowercase form of a
/// character can depend on its neighbours, so a query can occur in a line
/// while its lowercase form does not occur in the line's lowercase form.
pub open spec fn lowercasing_keeps_matches(query: Seq<char>, contents: Seq<char>) -> bool {
    forall|i: int|
        0 <= i < lines_of(contents).len() && is_substring(query, #[trigger] lines_of(contents)[i])
            ==> is_substring(lowercase(query), lowercase(lines_of(contents)[i]))
}

/// Where lowercasing keeps every match, the case-insensitive search finds
/// every line that the exact search finds: the lines of the exact search
/// are among those of the case-insensitive search, and are in fact the ones
/// among them that contain the query as it stands.
pub proof fn case_insensitive_search_finds_no_less(query: Seq<char>, contents: Seq<char>)
    requires
        lowercasing_keeps_matches(query, contents),
    ensures
        forall|line: Seq<char>|
            found(query, contents).contains(line) ==> found_ignoring_case(
                query,
                contents,
            ).contains(line),
        found(query, contents) == found_ignoring_case(query, contents).filter(
            matches_exactly(query),
        ),
{
    let lines = lines_of(contents);
    lemma_filter_by_stronger_test(lines, matches_ignoring_case(query), matches_exactly(query));
    assert forall|line: Seq<char>| found(query, contents).contains(line) implies found_ignoring_case(
        query,
        contents,
    ).contains(line) by {
        found_ignoring_case(query, contents).lemma_filter_contains_rev(matches_exactly(query), line);
    }
}

/// Two runs of the exact search on the same query and the same text return
/// the same lines: as many, and the same text at each place.
pub proof fn search_is_repeatable(
    query: Seq<char>,
    contents: Seq<char>,
    first: Seq<&str>,
    second: Seq<&str>,
)
    requires
        line_views(first) == found(query, contents),
        line_views(second) == found(query, contents),
    ensures
        first.len() == second.len(),
        forall|k: int| 0 <= k < first.len() ==> first[k]@ == second[k]@,
{
    assert(line_views(first).len() == first.len());
    assert(line_views(second).len() == second.len());
    assert forall|k: int| 0 <= k < first.len() implies first[k]@ == second[k]@ by {
        assert(line_views(first)[k] == first[k]@);
        assert(line_views(second)[k] == second[k]@);
    }
}

/// Searching the lines that a search found finds all of them again: if the
/// lines of `again` are the lines found in `contents`, the same search in
/// `again` finds the lines found in `contents`.
pub proof fn search_of_the_lines_found_finds_them_all(
    query: Seq<char>,
    contents: Seq<char>,
    again: Seq<char>,
)
    requires
        lines_of(again) == found(query, contents),
    ensures
        found(query, again) == found(query, contents),
{
    let lines = lines_of(contents);
    let test = matches_exactly(query);
    lemma_filter_by_stronger_test(lines, test, test);
}

/// What the searches find are pieces of the text: every line found, by
/// either search, is a contiguous run of the characters of `contents`.
pub proof fn lines_found_stand_in_the_contents(query: Seq<char>, contents: Seq<char>)
    ensures
        forall|k: int|
            0 <= k < found(query, contents).len() ==> is_substring(
                #[trigger] found(query, contents)[k],
                contents,
            ),
        forall|k: int|
            0 <= k < found_ignoring_case(query, contents).len() ==> is_substring(
                #[trigger] found_ignoring_case(query, contents)[k],
                contents,
            ),
{
    lemma_lines_stand_in_text(contents);
    lemma_filtered_are_members(lines_of(contents), matches_exactly(query));
    lemma_filtered_are_members(lines_of(contents), matches_ignoring_case(query));
}

/// The empty query is contained in every line, so the exact search for it
/// finds every line of the text.
pub proof fn empty_query_finds_every_line(contents: Seq<char>)
    ensures
        found(Seq::<char>::empty(), contents) == lines_of(contents),
{
    let lines = lines_of(contents);
    let test = matches_exactly(Seq::<char>::empty());
    assert forall|i: int| 0 <= i < lines.len() implies test(#[trigger] lines[i]) by {
        lemma_empty_is_substring(lines[i]);
    }
    lemma_filter_keeps_all(lines, test);
}

/// A query whose lowercase form is empty is found in every line by the
/// case-insensitive search.
pub proof fn query_with_empty_lowercase_finds_every_line(query: Seq<char>, contents: Seq<char>)
    requires
        lowercase(query).len() == 0,
    ensures
        found_ignoring_case(query, contents) == lines_of(contents),
{
    let lines = lines_of(contents);
    let test = matches_ignoring_case(query);
    assert forall|i: int| 0 <= i < lines.len() implies test(#[trigger] lines[i]) by {
        assert(lowercase(query) == Seq::<char>::empty());
        lemma_empty_is_substring(lowercase(lines[i]));
    }
    lemma_filter_keeps_all(lines, test);
}

/// A query that holds a `'\n'` is found in no line, since no line holds one.
pub proof fn query_across_lines_finds_nothing(query: Seq<char>, contents: Seq<char>)
    requires
        query.contains('\n'),
    ensures
        found(query, contents) == Seq::<Seq<char>>::empty(),
{
    let lines = lines_of(contents);
    let test = matches_exactly(query);
    lemma_lines_hold_no_newline(contents);
    assert forall|i: int| 0 <= i < lines.len() implies !test(#[trigger] lines[i]) by {
        lemma_substring_holds_no_other_character(query, lines[i], '\n');
    }
    lines.lemma_all_neg_filter_empty(test);
}

/// A final newline opens no further line: behind a text that ends in
/// neither `'\n'` nor `'\r'`, it changes nothing of what either search
/// finds.
pub proof fn final_newline_changes_no_result(query: Seq<char>, contents: Seq<char>)
    requires
        contents.len() > 0,
        contents.last() != '\n',
        contents.last() != '\r',
    ensures
        found(query, contents.push('\n')) == found(query, contents),
        found_ignoring_case(query, contents.push('\n')) == found_ignoring_case(query, contents),
{
    lemma_final_newline_is_optional(contents);
}

/// An empty text has no lines, so neither search finds anything in it.
pub proof fn empty_contents_hold_no_match(query: Seq<char>)
    ensures
        found(query, Seq::<char>::empty()) == Seq::<Seq<char>>::empty(),
        found_ignoring_case(query, Seq::<char>::empty()) == Seq::<Seq<char>>::empty(),
{
    reveal(Seq::filter);
}

} // verus!
