//! The grammar of a commit line: change id, commit id, emptiness marker,
//! optional bookmark, description, and the two labels that give a commit its
//! role.
use vstd::prelude::*;
use crate::error::{reports, Expected, Outcome, ParseError};
use crate::model::{
    delimiter_at, has_delimiter, is_bookmark, is_description, Commit, CommitDetails,
    CommitDetailsView, CommitView, BOOKMARK_SEPARATOR, EMPTY_MARKER, NO_DESCRIPTION,
};
use crate::text::{all_in, has_literal_at, lemma_span_end, span_end, spec_run, CharClass, Source};

verus! {

/// The label of the working-copy commit, up to the colon.
pub const WORKING_COPY_LABEL: &'static str = "Working copy";

/// The label of the parent commit, colon included.
pub const PARENT_COMMIT_LABEL: &'static str = "Parent commit:";

/// A change id at `pos`: a non-empty run of letters `k` to `z`.
pub open spec fn spec_change_id(s: Seq<char>, pos: int) -> Outcome<Seq<char>> {
    spec_run(s, pos, CharClass::ChangeId, Expected::ChangeId)
}

/// A commit id at `pos`: a non-empty run of digits and letters `a` to `f`.
pub open spec fn spec_commit_id(s: Seq<char>, pos: int) -> Outcome<Seq<char>> {
    spec_run(s, pos, CharClass::CommitId, Expected::CommitId)
}

/// The emptiness marker at `pos`: whether it stands there, and the position
/// behind it if it does, `pos` if it does not.
pub open spec fn spec_empty(s: Seq<char>, pos: int) -> (bool, int) {
    if has_literal_at(s, pos, EMPTY_MARKER@) {
        (true, pos + EMPTY_MARKER@.len())
    } else {
        (false, pos)
    }
}

/// The position of the first bookmark delimiter at or behind `pos` on the line
/// that `pos` is on, if the line has one.
pub open spec fn delimiter_on_line(s: Seq<char>, pos: int) -> Option<int>
    decreases s.len() - pos,
{
    if pos < 0 || pos >= s.len() || s[pos] == '\n' {
        None
    } else if delimiter_at(s, pos) {
        Some(pos)
    } else {
        delimiter_on_line(s, pos + 1)
    }
}

/// A bookmark at `pos`: the non-empty text up to the first delimiter on the
/// line, and the position behind the delimiter.
pub open spec fn spec_bookmark(s: Seq<char>, pos: int) -> Outcome<Seq<char>> {
    match delimiter_on_line(s, pos) {
        Some(at) if at > pos => Outcome::Accept { value: s.subrange(pos, at), end: at + 2 },
        _ => Outcome::Reject { offset: pos, expected: Expected::BookmarkDelimiter },
    }
}

/// A description at `pos`: none where the text that stands for an absent
/// description is found; else the rest of the line, which may be empty.
pub open spec fn spec_description(s: Seq<char>, pos: int) -> (Option<Seq<char>>, int) {
    if has_literal_at(s, pos, NO_DESCRIPTION@) {
        (None, pos + NO_DESCRIPTION@.len())
    } else {
        let end = span_end(s, pos, CharClass::LineText);
        (Some(s.subrange(pos, end)), end)
    }
}

/// What stands behind the ids of a commit, read from `pos`: whether the
/// emptiness marker is there, then, each after optional blanks, the bookmark if
/// there is one and the description; and the position behind the description.
/// None of this can fail.
pub open spec fn spec_commit_rest(s: Seq<char>, pos: int) -> (
    bool,
    Option<Seq<char>>,
    Option<Seq<char>>,
    int,
) {
    let (empty, marker_end) = spec_empty(s, pos);
    let bookmark_start = span_end(s, marker_end, CharClass::Blank);
    let bookmark = spec_bookmark(s, bookmark_start);
    let description_start = span_end(
        s,
        if bookmark is Accept {
            bookmark->end
        } else {
            bookmark_start
        },
        CharClass::Blank,
    );
    let (description, end) = spec_description(s, description_start);
    (
        empty,
        if bookmark is Accept {
            Some(bookmark->value)
        } else {
            None
        },
        description,
        end,
    )
}

/// The details of a commit at `pos`: change id, blanks, commit id, blanks, and
/// what `spec_commit_rest` reads behind them.
pub open spec fn spec_commit_details(s: Seq<char>, pos: int) -> Outcome<CommitDetailsView> {
    let change = spec_change_id(s, pos);
    if change is Reject {
        change.rejection()
    } else {
        let commit_start = span_end(s, change->end, CharClass::Blank);
        let commit = spec_commit_id(s, commit_start);
        if commit_start == change->end {
            Outcome::Reject { offset: change->end, expected: Expected::Whitespace }
        } else if commit is Reject {
            commit.rejection()
        } else {
            let rest_start = span_end(s, commit->end, CharClass::Blank);
            let (empty, bookmark, description, end) = spec_commit_rest(s, rest_start);
            if rest_start == commit->end {
                Outcome::Reject { offset: commit->end, expected: Expected::Whitespace }
            } else {
                Outcome::Accept {
                    value: CommitDetailsView {
                        change_id: change->value,
                        commit_id: commit->value,
                        empty,
                        bookmark,
                        description,
                    },
                    end,
                }
            }
        }
    }
}

/// The working-copy commit at `pos`: the label, blanks, a colon, blanks, and
/// the details.
pub open spec fn spec_working_copy(s: Seq<char>, pos: int) -> Outcome<CommitView> {
    let label_end = pos + WORKING_COPY_LABEL@.len();
    let colon = span_end(s, label_end, CharClass::Blank);
    let details_start = span_end(s, colon + 1, CharClass::Blank);
    let details = spec_commit_details(s, details_start);
    if !has_literal_at(s, pos, WORKING_COPY_LABEL@) {
        Outcome::Reject { offset: pos, expected: Expected::WorkingCopyLabel }
    } else if colon == label_end {
        Outcome::Reject { offset: label_end, expected: Expected::Whitespace }
    } else if !(colon < s.len() && s[colon] == ':') {
        Outcome::Reject { offset: colon, expected: Expected::Colon }
    } else if details_start == colon + 1 {
        Outcome::Reject { offset: colon + 1, expected: Expected::Whitespace }
    } else if details is Reject {
        details.rejection()
    } else {
        Outcome::Accept { value: CommitView::WorkingCopy(details->value), end: details->end }
    }
}

/// The parent commit at `pos`: the label, blanks, and the details.
pub open spec fn spec_parent_commit(s: Seq<char>, pos: int) -> Outcome<CommitView> {
    let label_end = pos + PARENT_COMMIT_LABEL@.len();
    let details_start = span_end(s, label_end, CharClass::Blank);
    let details = spec_commit_details(s, details_start);
    if !has_literal_at(s, pos, PARENT_COMMIT_LABEL@) {
        Outcome::Reject { offset: pos, expected: Expected::ParentCommitLabel }
    } else if details_start == label_end {
        Outcome::Reject { offset: label_end, expected: Expected::Whitespace }
    } else if details is Reject {
        details.rejection()
    } else {
        Outcome::Accept { value: CommitView::ParentCommit(details->value), end: details->end }
    }
}

/// What the search for a delimiter finds: a delimiter on the line of `pos`
/// with none before it, or none up to the end of the line.
pub proof fn lemma_delimiter_on_line(s: Seq<char>, pos: int)
    requires
        0 <= pos <= s.len(),
    ensures
        match delimiter_on_line(s, pos) {
            Some(at) => {
                &&& pos <= at < span_end(s, pos, CharClass::LineText)
                &&& delimiter_at(s, at)
                &&& forall|j: int| pos <= j < at ==> !delimiter_at(s, j)
            },
            None => forall|j: int|
                pos <= j < span_end(s, pos, CharClass::LineText) ==> !delimiter_at(s, j),
        },
    decreases s.len() - pos,
{
    lemma_span_end(s, pos, CharClass::LineText);
    if pos < s.len() && s[pos] != '\n' && !delimiter_at(s, pos) {
        lemma_delimiter_on_line(s, pos + 1);
    }
}

/// An accepted run is non-empty, lies in the text, holds only characters of
/// its class, and is followed by none of them.
pub proof fn lemma_run(s: Seq<char>, pos: int, class: CharClass, missing: Expected)
    requires
        0 <= pos <= s.len(),
    ensures
        spec_run(s, pos, class, missing) matches Outcome::Accept { value, end } ==> {
            &&& pos < end <= s.len()
            &&& value.len() == end - pos
            &&& all_in(value, class)
            &&& end < s.len() ==> !class.contains(s[end])
        },
{
    lemma_span_end(s, pos, class);
}

/// An accepted bookmark that does not start on a blank is such as the data
/// model asks for, and is followed by the delimiter.
pub proof fn lemma_bookmark(s: Seq<char>, pos: int)
    requires
        0 <= pos <= s.len(),
        pos < s.len() ==> !CharClass::Blank.contains(s[pos]),
    ensures
        match spec_bookmark(s, pos) {
            Outcome::Accept { value, end } => {
                &&& is_bookmark(value)
                &&& end == pos + value.len() + 2
                &&& end <= s.len()
                &&& delimiter_at(s, end - 2)
            },
            Outcome::Reject { .. } => forall|j: int|
                pos <= j < span_end(s, pos, CharClass::LineText) ==> !delimiter_at(s, j),
        },
{
    lemma_delimiter_on_line(s, pos);
    lemma_span_end(s, pos, CharClass::LineText);
    match delimiter_on_line(s, pos) {
        Some(at) => {
            let b = s.subrange(pos, at);
            assert(all_in(b, CharClass::LineText));
            assert forall|i: int| !delimiter_at(b, i) by {
                if delimiter_at(b, i) {
                    assert(delimiter_at(s, pos + i));
                }
            }
        },
        None => {},
    }
}

/// A stored description that does not start on a blank is such as the data
/// model asks for.
pub proof fn lemma_description(s: Seq<char>, pos: int)
    requires
        0 <= pos <= s.len(),
        pos < s.len() ==> !CharClass::Blank.contains(s[pos]),
    ensures
        pos <= spec_description(s, pos).1 <= s.len(),
        spec_description(s, pos).0 matches Some(d) ==> {
            &&& is_description(d)
            &&& d == s.subrange(pos, span_end(s, pos, CharClass::LineText))
        },
{
    lemma_span_end(s, pos, CharClass::LineText);
    if !has_literal_at(s, pos, NO_DESCRIPTION@) {
        let end = span_end(s, pos, CharClass::LineText);
        if has_literal_at(s.subrange(pos, end), 0, NO_DESCRIPTION@) {
            lemma_literal_in_subrange(s, pos, end, NO_DESCRIPTION@);
        }
    }
}

/// A literal at the front of a part of the text stands in the text itself.
proof fn lemma_literal_in_subrange(s: Seq<char>, pos: int, end: int, lit: Seq<char>)
    requires
        0 <= pos <= end <= s.len(),
        has_literal_at(s.subrange(pos, end), 0, lit),
    ensures
        has_literal_at(s, pos, lit),
{
    assert(s.subrange(pos, pos + lit.len()) =~= s.subrange(pos, end).subrange(0, lit.len() as int));
}

/// Neither the emptiness marker nor the text for an absent description holds
/// a `|` or a line feed, and the two differ from their second character on.
pub(crate) proof fn lemma_literals()
    ensures
        EMPTY_MARKER@.len() == 8,
        NO_DESCRIPTION@.len() == 20,
        forall|i: int| 0 <= i < 8 ==> (#[trigger] EMPTY_MARKER@[i]) != '|' && EMPTY_MARKER@[i] != '\n',
        forall|i: int|
            0 <= i < 20 ==> (#[trigger] NO_DESCRIPTION@[i]) != '|' && NO_DESCRIPTION@[i] != '\n',
        EMPTY_MARKER@[0] == '(',
        EMPTY_MARKER@[1] == 'e',
        NO_DESCRIPTION@[0] == '(',
        NO_DESCRIPTION@[1] == 'n',
        BOOKMARK_SEPARATOR@ == seq![' ', '|', ' '],
{
    reveal_strlit("(empty) ");
    reveal_strlit("(no description set)");
    reveal_strlit(" | ");
}

/// Whatever a parse accepts as the details of a commit is well formed.
pub proof fn lemma_commit_details(s: Seq<char>, pos: int)
    requires
        0 <= pos <= s.len(),
    ensures
        spec_commit_details(s, pos) matches Outcome::Accept { value, end } ==> {
            &&& value.wf()
            &&& pos < end <= s.len()
        },
{
    lemma_run(s, pos, CharClass::ChangeId, Expected::ChangeId);
    let change = spec_change_id(s, pos);
    if change is Accept {
        lemma_span_end(s, change->end, CharClass::Blank);
        let commit_start = span_end(s, change->end, CharClass::Blank);
        lemma_run(s, commit_start, CharClass::CommitId, Expected::CommitId);
        let commit = spec_commit_id(s, commit_start);
        if commit_start > change->end && commit is Accept {
            lemma_span_end(s, commit->end, CharClass::Blank);
            let rest_start = span_end(s, commit->end, CharClass::Blank);
            if rest_start > commit->end {
                lemma_commit_rest(s, rest_start);
            }
        }
    }
}

/// What is read behind the ids from a position that is not on a blank is such
/// as the data model asks for: bookmark and description are valid, without a
/// bookmark the description holds no delimiter, and where no emptiness marker
/// is read, the rendered rest does not begin with one.
proof fn lemma_commit_rest(s: Seq<char>, start: int)
    requires
        0 <= start <= s.len(),
        start < s.len() ==> !CharClass::Blank.contains(s[start]),
    ensures
        ({
            let (empty, bookmark, description, end) = spec_commit_rest(s, start);
            let details = CommitDetailsView {
                change_id: Seq::<char>::empty(),
                commit_id: Seq::<char>::empty(),
                empty,
                bookmark,
                description,
            };
            &&& start <= end <= s.len()
            &&& bookmark matches Some(b) ==> is_bookmark(b)
            &&& description matches Some(d) ==> is_description(d)
            &&& bookmark is None ==> !has_delimiter(details.description_text())
            &&& !empty ==> !has_literal_at(details.tail(), 0, EMPTY_MARKER@)
        }),
{
    lemma_literals();
    let (empty, marker_end) = spec_empty(s, start);
    lemma_span_end(s, marker_end, CharClass::Blank);
    let bookmark_start = span_end(s, marker_end, CharClass::Blank);
    lemma_bookmark(s, bookmark_start);
    let bookmark = spec_bookmark(s, bookmark_start);
    let bookmark_end = if bookmark is Accept {
        bookmark->end
    } else {
        bookmark_start
    };
    lemma_span_end(s, bookmark_end, CharClass::Blank);
    let description_start = span_end(s, bookmark_end, CharClass::Blank);
    lemma_description(s, description_start);
    let (description, end) = spec_description(s, description_start);
    let details = CommitDetailsView {
        change_id: Seq::<char>::empty(),
        commit_id: Seq::<char>::empty(),
        empty,
        bookmark: if bookmark is Accept {
            Some(bookmark->value)
        } else {
            None
        },
        description,
    };
    if bookmark is Reject {
        if let Some(d) = description {
            assert forall|i: int| !delimiter_at(d, i) by {
                if delimiter_at(d, i) {
                    assert(delimiter_at(s, description_start + i));
                }
            }
        }
    }
    if !empty && has_literal_at(details.tail(), 0, EMPTY_MARKER@) {
        let tail = details.tail();
        let marker = EMPTY_MARKER@;
        match details.bookmark {
            Some(b) => {
                if b.len() + 2 >= 8 {
                    // The marker would stand in the text, where none was read.
                    assert(s.subrange(start, start + 8) =~= marker);
                } else {
                    // The marker would hold the `|` of the delimiter.
                    let k = (b.len() + 1) as int;
                    assert(tail.subrange(0, 8)[k] == tail[k]);
                }
            },
            None => {
                if description is Some {
                    lemma_literal_in_subrange(
                        s,
                        start,
                        span_end(s, start, CharClass::LineText),
                        marker,
                    );
                }
            },
        }
    }
}

/// Whatever a parse accepts as the working-copy commit stands in that role
/// and is well formed.
pub proof fn lemma_working_copy(s: Seq<char>, pos: int)
    requires
        0 <= pos <= s.len(),
    ensures
        spec_working_copy(s, pos) matches Outcome::Accept { value, end } ==> {
            &&& value is WorkingCopy
            &&& value.wf()
            &&& pos < end <= s.len()
        },
{
    if has_literal_at(s, pos, WORKING_COPY_LABEL@) {
        let label_end = pos + WORKING_COPY_LABEL@.len();
        lemma_span_end(s, label_end, CharClass::Blank);
        let colon = span_end(s, label_end, CharClass::Blank);
        if colon < s.len() {
            lemma_span_end(s, colon + 1, CharClass::Blank);
            lemma_commit_details(s, span_end(s, colon + 1, CharClass::Blank));
        }
    }
}

/// Whatever a parse accepts as the parent commit stands in that role and is
/// well formed.
pub proof fn lemma_parent_commit(s: Seq<char>, pos: int)
    requires
        0 <= pos <= s.len(),
    ensures
        spec_parent_commit(s, pos) matches Outcome::Accept { value, end } ==> {
            &&& value is ParentCommit
            &&& value.wf()
            &&& pos < end <= s.len()
        },
{
    if has_literal_at(s, pos, PARENT_COMMIT_LABEL@) {
        let label_end = pos + PARENT_COMMIT_LABEL@.len();
        lemma_span_end(s, label_end, CharClass::Blank);
        lemma_commit_details(s, span_end(s, label_end, CharClass::Blank));
    }
}

/// A text is accepted as a change id from its first character to its last
/// exactly if it is not empty and holds only letters `k` to `z`; the empty
/// text is rejected.
pub proof fn lemma_change_id_alphabet(s: Seq<char>)
    ensures
        spec_change_id(s, 0) == (Outcome::Accept { value: s, end: s.len() as int }) <==> s.len()
            > 0 && all_in(s, CharClass::ChangeId),
        s.len() == 0 ==> spec_change_id(s, 0) is Reject,
        spec_change_id(s, 0) matches Outcome::Accept { value, .. } ==> value.len() > 0 && all_in(
            value,
            CharClass::ChangeId,
        ),
{
    lemma_run_alphabet(s, CharClass::ChangeId, Expected::ChangeId);
}

/// A text is accepted as a commit id from its first character to its last
/// exactly if it is not empty and holds only digits and letters `a` to `f`;
/// the empty text is rejected.
pub proof fn lemma_commit_id_alphabet(s: Seq<char>)
    ensures
        spec_commit_id(s, 0) == (Outcome::Accept { value: s, end: s.len() as int }) <==> s.len()
            > 0 && all_in(s, CharClass::CommitId),
        s.len() == 0 ==> spec_commit_id(s, 0) is Reject,
        spec_commit_id(s, 0) matches Outcome::Accept { value, .. } ==> value.len() > 0 && all_in(
            value,
            CharClass::CommitId,
        ),
{
    lemma_run_alphabet(s, CharClass::CommitId, Expected::CommitId);
}

/// A text is accepted as a run from its first character to its last exactly
/// if it is not empty and holds only characters of the class.
pub proof fn lemma_run_alphabet(s: Seq<char>, class: CharClass, missing: Expected)
    ensures
        spec_run(s, 0, class, missing) == (Outcome::Accept { value: s, end: s.len() as int })
            <==> s.len() > 0 && all_in(s, class),
        s.len() == 0 ==> spec_run(s, 0, class, missing) is Reject,
        spec_run(s, 0, class, missing) matches Outcome::Accept { value, .. } ==> value.len() > 0
            && all_in(value, class),
{
    lemma_span_end(s, 0, class);
    if s.len() > 0 && all_in(s, class) {
        assert(s.subrange(0, s.len() as int) =~= s);
    }
}

/// No bookmark is read across a line feed: where a line feed stands at or
/// behind `pos` and no delimiter starts between `pos` and the line feed, the
/// bookmark rule fails at `pos`.
pub proof fn lemma_bookmark_stays_on_line(s: Seq<char>, pos: int, feed: int)
    requires
        0 <= pos <= feed < s.len(),
        s[feed] == '\n',
        forall|j: int| pos <= j < feed ==> !delimiter_at(s, j),
    ensures
        delimiter_on_line(s, pos) is None,
        spec_bookmark(s, pos) is Reject,
    decreases feed - pos,
{
    if pos < feed && s[pos] != '\n' {
        lemma_bookmark_stays_on_line(s, pos + 1, feed);
    }
}

/// A run of characters of a class that holds no line feed does not reach
/// past a line feed.
proof fn lemma_span_stays_on_line(s: Seq<char>, pos: int, feed: int, class: CharClass)
    requires
        0 <= pos <= feed < s.len(),
        s[feed] == '\n',
        !class.contains('\n'),
    ensures
        pos <= span_end(s, pos, class) <= feed,
    decreases feed - pos,
{
    if pos < feed && class.contains(s[pos]) {
        lemma_span_stays_on_line(s, pos + 1, feed, class);
    }
}

/// The details of a commit hold no bookmark where the first delimiter behind
/// their start stands behind a line feed: where a line feed stands at or
/// behind `pos` and no delimiter starts between `pos` and the line feed.
pub proof fn lemma_details_bookmark_stays_on_line(s: Seq<char>, pos: int, feed: int)
    requires
        0 <= pos <= feed < s.len(),
        s[feed] == '\n',
        forall|j: int| pos <= j < feed ==> !delimiter_at(s, j),
    ensures
        spec_commit_details(s, pos) matches Outcome::Accept { value, .. }
            ==> value.bookmark is None,
{
    lemma_literals();
    let change = spec_change_id(s, pos);
    lemma_span_stays_on_line(s, pos, feed, CharClass::ChangeId);
    if change is Accept {
        lemma_span_stays_on_line(s, change->end, feed, CharClass::Blank);
        let commit_start = span_end(s, change->end, CharClass::Blank);
        lemma_span_stays_on_line(s, commit_start, feed, CharClass::CommitId);
        let commit = spec_commit_id(s, commit_start);
        if commit is Accept {
            lemma_span_stays_on_line(s, commit->end, feed, CharClass::Blank);
            let rest_start = span_end(s, commit->end, CharClass::Blank);
            let (empty, marker_end) = spec_empty(s, rest_start);
            if empty && marker_end > feed {
                // The marker would hold the line feed.
                assert(s.subrange(rest_start, rest_start + 8)[feed - rest_start] == s[feed]);
            }
            lemma_span_stays_on_line(s, marker_end, feed, CharClass::Blank);
            lemma_bookmark_stays_on_line(s, span_end(s, marker_end, CharClass::Blank), feed);
        }
    }
}

/// Parses a change id at `pos`.
pub fn change_id_at(src: &Source, pos: usize) -> (r: Result<(String, usize), ParseError>)
    requires
        pos <= src@.len(),
    ensures
        reports(r, spec_change_id(src@, pos as int)),
        r matches Ok((_, end)) ==> pos < end <= src@.len(),
{
    src.run(pos, CharClass::ChangeId, Expected::ChangeId)
}

/// Parses a commit id at `pos`.
pub fn commit_id_at(src: &Source, pos: usize) -> (r: Result<(String, usize), ParseError>)
    requires
        pos <= src@.len(),
    ensures
        reports(r, spec_commit_id(src@, pos as int)),
        r matches Ok((_, end)) ==> pos < end <= src@.len(),
{
    src.run(pos, CharClass::CommitId, Expected::CommitId)
}

/// Reads the emptiness marker at `pos`, if it stands there.
pub fn empty_at(src: &Source, pos: usize) -> (r: (bool, usize))
    requires
        pos <= src@.len(),
    ensures
        r.0 == spec_empty(src@, pos as int).0,
        r.1 == spec_empty(src@, pos as int).1,
        pos <= r.1 <= src@.len(),
{
    match src.after_literal(pos, EMPTY_MARKER) {
        Some(end) => (true, end),
        None => (false, pos),
    }
}

/// Parses a bookmark at `pos`: looks along the line for the delimiter, and
/// gives up at the end of the line.
pub fn bookmark_at(src: &Source, pos: usize) -> (r: Result<(String, usize), ParseError>)
    requires
        pos <= src@.len(),
    ensures
        reports(r, spec_bookmark(src@, pos as int)),
        r matches Ok((_, end)) ==> pos + 2 < end <= src@.len(),
{
    let n = src.len();
    let mut at: usize = pos;
    while at < n && !src.is_char_at(at, '\n')
        invariant
            pos <= at <= n,
            n == src@.len(),
            delimiter_on_line(src@, pos as int) == delimiter_on_line(src@, at as int),
        decreases n - at,
    {
        if src.is_char_at(at, ' ') && src.is_char_at(at + 1, '|') {
            if at == pos {
                return Err(ParseError { offset: pos, expected: Expected::BookmarkDelimiter });
            }
            return Ok((src.copy_range(pos, at), at + 2));
        }
        at += 1;
    }
    Err(ParseError { offset: pos, expected: Expected::BookmarkDelimiter })
}

/// Parses a description at `pos`.
pub fn description_at(src: &Source, pos: usize) -> (r: (Option<String>, usize))
    requires
        pos <= src@.len(),
    ensures
        r.0.deep_view() == spec_description(src@, pos as int).0,
        r.1 == spec_description(src@, pos as int).1,
        pos <= r.1 <= src@.len(),
{
    match src.after_literal(pos, NO_DESCRIPTION) {
        Some(end) => (None, end),
        None => {
            let end = src.span(pos, CharClass::LineText);
            (Some(src.copy_range(pos, end)), end)
        },
    }
}

/// Parses the details of a commit at `pos`.
pub fn commit_details_at(src: &Source, pos: usize) -> (r: Result<
    (CommitDetails, usize),
    ParseError,
>)
    requires
        pos <= src@.len(),
    ensures
        reports(r, spec_commit_details(src@, pos as int)),
        r matches Ok((details, end)) ==> details@.wf() && pos < end <= src@.len(),
{
    proof {
        lemma_commit_details(src@, pos as int);
    }
    let (change_id, change_end) = change_id_at(src, pos)?;
    let commit_start = src.blanks(change_end)?;
    let (commit_id, commit_end) = commit_id_at(src, commit_start)?;
    let marker_start = src.blanks(commit_end)?;
    let (empty, marker_end) = empty_at(src, marker_start);
    let bookmark_start = src.span(marker_end, CharClass::Blank);
    let (bookmark, bookmark_end) = match bookmark_at(src, bookmark_start) {
        Ok((bookmark, end)) => (Some(bookmark), end),
        Err(_) => (None, bookmark_start),
    };
    let description_start = src.span(bookmark_end, CharClass::Blank);
    let (description, end) = description_at(src, description_start);
    Ok((CommitDetails::new(change_id, commit_id, empty, bookmark, description), end))
}

/// Parses the working-copy commit at `pos`.
pub fn working_copy_at(src: &Source, pos: usize) -> (r: Result<(Commit, usize), ParseError>)
    requires
        pos <= src@.len(),
    ensures
        reports(r, spec_working_copy(src@, pos as int)),
        r matches Ok((commit, end)) ==> {
            &&& commit@ is WorkingCopy
            &&& commit@.wf()
            &&& pos < end <= src@.len()
        },
{
    let label_end = match src.after_literal(pos, WORKING_COPY_LABEL) {
        Some(end) => end,
        None => {
            return Err(ParseError { offset: pos, expected: Expected::WorkingCopyLabel });
        },
    };
    let colon = src.blanks(label_end)?;
    if !src.is_char_at(colon, ':') {
        return Err(ParseError { offset: colon, expected: Expected::Colon });
    }
    let details_start = src.blanks(colon + 1)?;
    let (details, end) = commit_details_at(src, details_start)?;
    Ok((Commit::WorkingCopy(details), end))
}

/// Parses the parent commit at `pos`.
pub fn parent_commit_at(src: &Source, pos: usize) -> (r: Result<(Commit, usize), ParseError>)
    requires
        pos <= src@.len(),
    ensures
        reports(r, spec_parent_commit(src@, pos as int)),
        r matches Ok((commit, end)) ==> {
            &&& commit@ is ParentCommit
            &&& commit@.wf()
            &&& pos < end <= src@.len()
        },
{
    let label_end = match src.after_literal(pos, PARENT_COMMIT_LABEL) {
        Some(end) => end,
        None => {
            return Err(ParseError { offset: pos, expected: Expected::ParentCommitLabel });
        },
    };
    let details_start = src.blanks(label_end)?;
    let (details, end) = commit_details_at(src, details_start)?;
    Ok((Commit::ParentCommit(details), end))
}

} // verus!
