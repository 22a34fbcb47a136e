//! The grammar of the change list: a status letter and a path on each line,
//! under an optional header, or the sentence that reports no changes.
use vstd::prelude::*;
use crate::error::{reports, Expected, Outcome, ParseError};
use crate::model::{
    changes_wf, is_relative_path, FileStatus, WorkingCopyChange, WorkingCopyChangeView,
};
use crate::text::{has_literal_at, lemma_span_end, span_end, spec_run, CharClass, Source};

verus! {

/// The sentence that stands in place of the change list where nothing changed.
pub const NO_CHANGES_SENTENCE: &'static str = "The working copy has no changes.";

/// The line that may stand above the change list.
pub const CHANGES_HEADER: &'static str = "Working copy changes:\n";

/// A status letter at `pos`: `A`, `R` or `M`.
pub open spec fn spec_file_status(s: Seq<char>, pos: int) -> Outcome<FileStatus> {
    if 0 <= pos < s.len() && s[pos] == 'A' {
        Outcome::Accept { value: FileStatus::Added, end: pos + 1 }
    } else if 0 <= pos < s.len() && s[pos] == 'R' {
        Outcome::Accept { value: FileStatus::Removed, end: pos + 1 }
    } else if 0 <= pos < s.len() && s[pos] == 'M' {
        Outcome::Accept { value: FileStatus::Modified, end: pos + 1 }
    } else {
        Outcome::Reject { offset: pos, expected: Expected::StatusLetter }
    }
}

/// A path segment at `pos`: a non-empty run of characters other than `/` and
/// line feed.
pub open spec fn spec_part(s: Seq<char>, pos: int) -> Outcome<Seq<char>> {
    spec_run(s, pos, CharClass::PathSegment, Expected::PathSegment)
}

/// Where a path ends of which a segment ends at `end`: behind the last of the
/// segments that follow, each after a `/`. A `/` that no segment follows is
/// not part of the path.
pub open spec fn path_end(s: Seq<char>, end: int) -> int
    decreases s.len() - end,
{
    let next = span_end(s, end + 1, CharClass::PathSegment);
    if 0 <= end < s.len() && s[end] == '/' && end + 1 < next <= s.len() {
        path_end(s, next)
    } else {
        end
    }
}

/// A path at `pos`: one or more segments joined by `/`. Its value is the text
/// of the path.
pub open spec fn spec_path(s: Seq<char>, pos: int) -> Outcome<Seq<char>> {
    let first = spec_part(s, pos);
    if first is Reject {
        first.rejection()
    } else {
        let end = path_end(s, first->end);
        Outcome::Accept { value: s.subrange(pos, end), end }
    }
}

/// One line of the change list at `pos`: a status letter, blanks, a path.
pub open spec fn spec_file_change(s: Seq<char>, pos: int) -> Outcome<WorkingCopyChangeView> {
    let status = spec_file_status(s, pos);
    if status is Reject {
        status.rejection()
    } else {
        let path_start = span_end(s, status->end, CharClass::Blank);
        let path = spec_path(s, path_start);
        if path_start == status->end {
            Outcome::Reject { offset: status->end, expected: Expected::Whitespace }
        } else if path is Reject {
            path.rejection()
        } else {
            Outcome::Accept {
                value: WorkingCopyChangeView { status: status->value, path: path->value },
                end: path->end,
            }
        }
    }
}

/// The changes that follow a change which ends at `end`, each on a line of its
/// own, and the position behind the last of them. A line feed that no change
/// follows is not consumed.
pub open spec fn more_changes(s: Seq<char>, end: int) -> (Seq<WorkingCopyChangeView>, int)
    decreases s.len() - end,
{
    let next = spec_file_change(s, end + 1);
    if 0 <= end < s.len() && s[end] == '\n' && next is Accept && end < next->end <= s.len() {
        let (rest, last) = more_changes(s, next->end);
        (seq![next->value] + rest, last)
    } else {
        (Seq::empty(), end)
    }
}

/// Zero or more changes at `pos`, separated by line feeds.
pub open spec fn spec_change_list(s: Seq<char>, pos: int) -> (Seq<WorkingCopyChangeView>, int) {
    let first = spec_file_change(s, pos);
    if first is Accept {
        let (rest, last) = more_changes(s, first->end);
        (seq![first->value] + rest, last)
    } else {
        (Seq::empty(), pos)
    }
}

/// The change list at `pos`: nothing behind the sentence that reports no
/// changes; else the changes that follow the header, if the header is there.
/// This rule accepts every text.
pub open spec fn spec_file_changes(s: Seq<char>, pos: int) -> (Seq<WorkingCopyChangeView>, int) {
    if has_literal_at(s, pos, NO_CHANGES_SENTENCE@) {
        (Seq::empty(), pos + NO_CHANGES_SENTENCE@.len())
    } else if has_literal_at(s, pos, CHANGES_HEADER@) {
        spec_change_list(s, pos + CHANGES_HEADER@.len())
    } else {
        spec_change_list(s, pos)
    }
}

/// From the end of a segment on, a path runs over non-empty segments on one
/// line, and ends behind a segment.
proof fn lemma_path_end(s: Seq<char>, end: int)
    requires
        0 < end <= s.len(),
        CharClass::PathSegment.contains(s[end - 1]),
    ensures
        end <= path_end(s, end) <= s.len(),
        CharClass::PathSegment.contains(s[path_end(s, end) - 1]),
        forall|i: int| end <= i < path_end(s, end) ==> #[trigger] s[i] != '\n',
        forall|i: int|
            end <= i < path_end(s, end) && #[trigger] s[i] == '/' ==> i + 1 < path_end(s, end)
                && s[i + 1] != '/',
    decreases s.len() - end,
{
    let next = span_end(s, end + 1, CharClass::PathSegment);
    if end < s.len() && s[end] == '/' && end + 1 < next <= s.len() {
        lemma_span_end(s, end + 1, CharClass::PathSegment);
        let segment = s.subrange(end + 1, next);
        assert forall|i: int| end + 1 <= i < next implies CharClass::PathSegment.contains(
            s[i],
        ) by {
            assert(s[i] == segment[i - (end + 1)]);
        }
        lemma_path_end(s, next);
    }
}

/// An accepted path that does not start on a blank is a relative path.
pub proof fn lemma_path(s: Seq<char>, pos: int)
    requires
        0 <= pos <= s.len(),
        pos < s.len() ==> !CharClass::Blank.contains(s[pos]),
    ensures
        spec_path(s, pos) matches Outcome::Accept { value, end } ==> {
            &&& is_relative_path(value)
            &&& pos < end <= s.len()
        },
{
    let first = spec_part(s, pos);
    if first is Accept {
        lemma_span_end(s, pos, CharClass::PathSegment);
        let first_end = first->end;
        let segment = s.subrange(pos, first_end);
        assert forall|i: int| pos <= i < first_end implies CharClass::PathSegment.contains(
            s[i],
        ) by {
            assert(s[i] == segment[i - pos]);
        }
        lemma_path_end(s, first_end);
    }
}

/// An accepted change is well formed.
pub proof fn lemma_file_change(s: Seq<char>, pos: int)
    requires
        0 <= pos <= s.len(),
    ensures
        spec_file_change(s, pos) matches Outcome::Accept { value, end } ==> {
            &&& value.wf()
            &&& pos < end <= s.len()
        },
{
    let status = spec_file_status(s, pos);
    if status is Accept {
        lemma_span_end(s, status->end, CharClass::Blank);
        lemma_path(s, span_end(s, status->end, CharClass::Blank));
    }
}

/// The changes that follow a change are well formed and lie in the text.
proof fn lemma_more_changes(s: Seq<char>, end: int)
    requires
        0 <= end <= s.len(),
    ensures
        changes_wf(more_changes(s, end).0),
        end <= more_changes(s, end).1 <= s.len(),
    decreases s.len() - end,
{
    let next = spec_file_change(s, end + 1);
    if end < s.len() && s[end] == '\n' && next is Accept && end < next->end <= s.len() {
        lemma_file_change(s, end + 1);
        lemma_more_changes(s, next->end);
    }
}

/// Whatever the change list is read as is a list of well-formed changes.
pub proof fn lemma_file_changes(s: Seq<char>, pos: int)
    requires
        0 <= pos <= s.len(),
    ensures
        changes_wf(spec_file_changes(s, pos).0),
        pos <= spec_file_changes(s, pos).1 <= s.len(),
{
    if has_literal_at(s, pos, NO_CHANGES_SENTENCE@) {
    } else if has_literal_at(s, pos, CHANGES_HEADER@) {
        lemma_change_list(s, pos + CHANGES_HEADER@.len());
    } else {
        lemma_change_list(s, pos);
    }
}

/// Whatever a list of changes is read as is a list of well-formed changes.
proof fn lemma_change_list(s: Seq<char>, pos: int)
    requires
        0 <= pos <= s.len(),
    ensures
        changes_wf(spec_change_list(s, pos).0),
        pos <= spec_change_list(s, pos).1 <= s.len(),
{
    let first = spec_file_change(s, pos);
    if first is Accept {
        lemma_file_change(s, pos);
        lemma_more_changes(s, first->end);
    }
}

/// Where the sentence that reports no changes stands at `pos`, the change
/// list is empty and ends just behind the sentence.
pub proof fn lemma_no_changes(s: Seq<char>, pos: int)
    requires
        has_literal_at(s, pos, NO_CHANGES_SENTENCE@),
    ensures
        spec_file_changes(s, pos) == (
            Seq::<WorkingCopyChangeView>::empty(),
            pos + NO_CHANGES_SENTENCE@.len(),
        ),
{
}

/// Parses a status letter at `pos`.
pub fn file_status_at(src: &Source, pos: usize) -> (r: Result<(FileStatus, usize), ParseError>)
    requires
        pos <= src@.len(),
    ensures
        reports(r, spec_file_status(src@, pos as int)),
        r matches Ok((_, end)) ==> end == pos + 1 && end <= src@.len(),
{
    if src.is_char_at(pos, 'A') {
        Ok((FileStatus::Added, pos + 1))
    } else if src.is_char_at(pos, 'R') {
        Ok((FileStatus::Removed, pos + 1))
    } else if src.is_char_at(pos, 'M') {
        Ok((FileStatus::Modified, pos + 1))
    } else {
        Err(ParseError { offset: pos, expected: Expected::StatusLetter })
    }
}

/// Parses a path segment at `pos`.
pub fn part_at(src: &Source, pos: usize) -> (r: Result<(String, usize), ParseError>)
    requires
        pos <= src@.len(),
    ensures
        reports(r, spec_part(src@, pos as int)),
        r matches Ok((_, end)) ==> pos < end <= src@.len(),
{
    src.run(pos, CharClass::PathSegment, Expected::PathSegment)
}

/// Parses a path at `pos`.
pub fn path_at(src: &Source, pos: usize) -> (r: Result<(String, usize), ParseError>)
    requires
        pos <= src@.len(),
    ensures
        reports(r, spec_path(src@, pos as int)),
        r matches Ok((_, end)) ==> pos < end <= src@.len(),
{
    let mut end = src.span(pos, CharClass::PathSegment);
    if end == pos {
        return Err(ParseError { offset: pos, expected: Expected::PathSegment });
    }
    let ghost first_end = end;
    loop
        invariant
            pos < first_end <= end <= src@.len(),
            first_end == span_end(src@, pos as int, CharClass::PathSegment),
            path_end(src@, first_end as int) == path_end(src@, end as int),
        decreases src@.len() - end,
    {
        if !src.is_char_at(end, '/') {
            return Ok((src.copy_range(pos, end), end));
        }
        let next = src.span(end + 1, CharClass::PathSegment);
        if next == end + 1 {
            return Ok((src.copy_range(pos, end), end));
        }
        end = next;
    }
}

/// Parses one line of the change list at `pos`.
pub fn file_change_at(src: &Source, pos: usize) -> (r: Result<
    (WorkingCopyChange, usize),
    ParseError,
>)
    requires
        pos <= src@.len(),
    ensures
        reports(r, spec_file_change(src@, pos as int)),
        r matches Ok((change, end)) ==> change@.wf() && pos < end <= src@.len(),
{
    proof {
        lemma_file_change(src@, pos as int);
    }
    let (status, status_end) = file_status_at(src, pos)?;
    let path_start = src.blanks(status_end)?;
    let (path, end) = path_at(src, path_start)?;
    Ok((WorkingCopyChange::new(status, path), end))
}

/// Parses the change list at `pos`. This never fails: where neither the
/// sentence that reports no changes, nor the header, nor a change stands at
/// `pos`, the list is empty and ends at `pos`.
pub fn file_changes_at(src: &Source, pos: usize) -> (r: (Vec<WorkingCopyChange>, usize))
    requires
        pos <= src@.len(),
    ensures
        r.0.deep_view() == spec_file_changes(src@, pos as int).0,
        r.1 == spec_file_changes(src@, pos as int).1,
        changes_wf(r.0.deep_view()),
        pos <= r.1 <= src@.len(),
{
    let mut changes: Vec<WorkingCopyChange> = Vec::new();
    if let Some(end) = src.after_literal(pos, NO_CHANGES_SENTENCE) {
        return (changes, end);
    }
    let start = match src.after_literal(pos, CHANGES_HEADER) {
        Some(end) => end,
        None => pos,
    };
    let mut end = match file_change_at(src, start) {
        Ok((change, end)) => {
            changes.push(change);
            end
        },
        Err(_) => {
            return (changes, start);
        },
    };
    loop
        invariant
            pos <= start < end <= src@.len(),
            spec_file_changes(src@, pos as int) == spec_change_list(src@, start as int),
            changes_wf(changes.deep_view()),
            changes.deep_view() + more_changes(src@, end as int).0 == spec_change_list(
                src@,
                start as int,
            ).0,
            more_changes(src@, end as int).1 == spec_change_list(src@, start as int).1,
        decreases src@.len() - end,
    {
        if !src.is_char_at(end, '\n') {
            return (changes, end);
        }
        let ghost before = changes.deep_view();
        match file_change_at(src, end + 1) {
            Ok((change, next)) => {
                changes.push(change);
                proof {
                    let found = spec_file_change(src@, end + 1)->value;
                    assert(changes.deep_view() =~= before.push(found));
                    assert(before.push(found) + more_changes(src@, next as int).0 =~= before + (
                    seq![found] + more_changes(src@, next as int).0));
                }
                end = next;
            },
            Err(_) => {
                return (changes, end);
            },
        }
    }
}

} // verus!
