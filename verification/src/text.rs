//! The mathematical model of text: a text is a sequence of characters, it
//! falls into lines at its line terminators, and one text occurs in another
//! where it stands there character for character.

use vstd::prelude::*;

verus! {

/// The number of characters of `text` that come before its first `'\n'`,
/// or the length of `text` when it holds none.
pub open spec fn line_end(text: Seq<char>) -> nat
    decreases text.len(),
{
    if text.len() == 0 || text[0] == '\n' {
        0
    } else {
        1 + line_end(text.skip(1))
    }
}

/// `line` without one trailing `'\r'`, if it has one.
pub open spec fn strip_cr(line: Seq<char>) -> Seq<char> {
    if line.len() > 0 && line.last() == '\r' {
        line.drop_last()
    } else {
        line
    }
}

/// The lines of `text`, in order.
///
/// A line ends at `"\n"` or `"\r\n"`; the terminator is not part of the
/// line. The last line needs no terminator, and a terminator at the very end
/// of the text opens no further line. A `'\r'` that no `'\n'` follows is an
/// ordinary character.
pub open spec fn lines_of(text: Seq<char>) -> Seq<Seq<char>>
    decreases text.len(),
{
    if text.len() == 0 {
        Seq::empty()
    } else {
        let end = line_end(text) as int;
        if end >= text.len() {
            seq![text]
        } else {
            seq![strip_cr(text.take(end))] + lines_of(text.skip(end + 1))
        }
    }
}

/// Whether `needle` stands in `text` at offset `at`, character for character.
pub open spec fn occurs_at(needle: Seq<char>, text: Seq<char>, at: int) -> bool {
    &&& 0 <= at
    &&& at + needle.len() <= text.len()
    &&& text.subrange(at, at + needle.len()) == needle
}

/// Whether `needle` occurs somewhere in `text` as a contiguous run of
/// characters. The comparison is exact: no character is normalised.
pub open spec fn is_substring(needle: Seq<char>, text: Seq<char>) -> bool {
    exists|at: int| occurs_at(needle, text, at)
}

/// The character sequences of a list of string slices.
pub open spec fn line_views(lines: Seq<&str>) -> Seq<Seq<char>> {
    lines.map_values(|line: &str| line@)
}

/// `line_end` is the position of the first `'\n'`: it lies within the text,
/// no `'\n'` comes before it, and unless it is the end of the text a `'\n'`
/// stands at it.
pub proof fn lemma_line_end(text: Seq<char>)
    ensures
        line_end(text) <= text.len(),
        forall|j: int| 0 <= j < line_end(text) ==> text[j] != '\n',
        line_end(text) < text.len() ==> text[line_end(text) as int] == '\n',
    decreases text.len(),
{
    if text.len() > 0 && text[0] != '\n' {
        let rest = text.skip(1);
        lemma_line_end(rest);
        assert forall|j: int| 0 <= j < line_end(text) implies text[j] != '\n' by {
            if j > 0 {
                assert(text[j] == rest[j - 1]);
            }
        }
    }
}

/// No line holds a `'\n'`.
pub proof fn lemma_lines_hold_no_newline(text: Seq<char>)
    ensures
        forall|i: int, j: int|
            0 <= i < lines_of(text).len() && 0 <= j < lines_of(text)[i].len() ==> #[trigger] lines_of(
                text,
            )[i][j] != '\n',
    decreases text.len(),
{
    if text.len() > 0 {
        let end = line_end(text) as int;
        lemma_line_end(text);
        if end < text.len() {
            let head = strip_cr(text.take(end));
            let tail = lines_of(text.skip(end + 1));
            lemma_lines_hold_no_newline(text.skip(end + 1));
            assert forall|i: int, j: int|
                0 <= i < lines_of(text).len() && 0 <= j < lines_of(text)[i].len() implies #[trigger] lines_of(
                text,
            )[i][j] != '\n' by {
                if i == 0 {
                    assert(head[j] == text[j]);
                } else {
                    assert(lines_of(text)[i] == tail[i - 1]);
                }
            }
        }
    }
}

/// Every line of a text stands in the text: it is a contiguous run of the
/// text's characters.
pub proof fn lemma_lines_stand_in_text(text: Seq<char>)
    ensures
        forall|i: int|
            0 <= i < lines_of(text).len() ==> is_substring(#[trigger] lines_of(text)[i], text),
    decreases text.len(),
{
    if text.len() > 0 {
        let end = line_end(text) as int;
        lemma_line_end(text);
        if end >= text.len() {
            assert(text.subrange(0, text.len() as int) == text);
            assert(occurs_at(text, text, 0));
        } else {
            let head = strip_cr(text.take(end));
            let rest = text.skip(end + 1);
            lemma_lines_stand_in_text(rest);
            assert forall|i: int| 0 <= i < lines_of(text).len() implies is_substring(
                #[trigger] lines_of(text)[i],
                text,
            ) by {
                if i == 0 {
                    assert(text.subrange(0, head.len() as int) == head);
                    assert(occurs_at(head, text, 0));
                } else {
                    let line = lines_of(rest)[i - 1];
                    assert(lines_of(text)[i] == line);
                    let at = choose|at: int| occurs_at(line, rest, at);
                    assert(text.subrange(end + 1 + at, end + 1 + at + line.len()) == rest.subrange(
                        at,
                        at + line.len(),
                    ));
                    assert(occurs_at(line, text, end + 1 + at));
                }
            }
        }
    }
}

/// Appending a character to a text leaves its first `'\n'` in place, and
/// appending a `'\n'` to a text that holds none puts the first one at the
/// end.
pub proof fn lemma_line_end_push(text: Seq<char>, c: char)
    ensures
        line_end(text) < text.len() ==> line_end(text.push(c)) == line_end(text),
        line_end(text) >= text.len() && c == '\n' ==> line_end(text.push(c)) == text.len(),
    decreases text.len(),
{
    if text.len() > 0 && text[0] != '\n' {
        lemma_line_end_push(text.skip(1), c);
        assert(text.push(c).skip(1) == text.skip(1).push(c));
    }
}

/// A final `"\n"` is optional: behind a text that ends in neither `'\n'`
/// nor `'\r'`, it opens no further line and changes no line.
pub proof fn lemma_final_newline_is_optional(text: Seq<char>)
    requires
        text.len() > 0,
        text.last() != '\n',
        text.last() != '\r',
    ensures
        lines_of(text.push('\n')) == lines_of(text),
    decreases text.len(),
{
    let longer = text.push('\n');
    let end = line_end(text) as int;
    lemma_line_end(text);
    lemma_line_end_push(text, '\n');
    if end >= text.len() {
        assert(strip_cr(longer.take(end)) == text);
        assert(lines_of(longer.skip(end + 1)) == Seq::<Seq<char>>::empty());
    } else {
        let rest = text.skip(end + 1);
        assert(longer.take(end) == text.take(end));
        assert(longer.skip(end + 1) == rest.push('\n'));
        lemma_final_newline_is_optional(rest);
    }
}

/// The empty text occurs in every text.
pub proof fn lemma_empty_is_substring(text: Seq<char>)
    ensures
        is_substring(Seq::<char>::empty(), text),
{
    assert(text.subrange(0, 0) == Seq::<char>::empty());
    assert(occurs_at(Seq::<char>::empty(), text, 0));
}

/// A text that holds a character which `text` does not hold does not occur
/// in `text`.
pub proof fn lemma_substring_holds_no_other_character(needle: Seq<char>, text: Seq<char>, c: char)
    requires
        needle.contains(c),
        !text.contains(c),
    ensures
        !is_substring(needle, text),
{
    if is_substring(needle, text) {
        let at = choose|at: int| occurs_at(needle, text, at);
        let k = choose|k: int| 0 <= k < needle.len() && needle[k] == c;
        assert(text[at + k] == text.subrange(at, at + needle.len())[k]);
    }
}

} // verus!
