//! Rendering and parsing agree: a well-formed report is what its rendering
//! parses to.
use vstd::prelude::*;
use crate::changes::{
    more_changes, path_end, spec_change_list, spec_file_change, spec_file_changes, spec_path,
    CHANGES_HEADER, NO_CHANGES_SENTENCE,
};
use crate::commit::{
    delimiter_on_line, lemma_literals, spec_bookmark, spec_commit_details, spec_commit_rest,
    spec_description, spec_parent_commit, spec_working_copy, PARENT_COMMIT_LABEL,
    WORKING_COPY_LABEL,
};
use crate::error::{Expected, Outcome};
use crate::model::{
    changes_wf, delimiter_at, is_description, is_relative_path, render_changes,
    CommitDetailsView, CommitView, StatusView, WorkingCopyChangeView, BOOKMARK_SEPARATOR,
    EMPTY_MARKER, NO_DESCRIPTION, PARENT_COMMIT_PREFIX, WORKING_COPY_PREFIX,
};
use crate::status::{lemma_parse, spec_parse, spec_status};
use crate::text::{
    all_in, has_literal_at, lemma_span_end_is, span_end, spec_run, CharClass,
};

verus! {

/// A line ends at `pos`: the text ends there, or a line feed stands there.
pub open spec fn line_ends_at(s: Seq<char>, pos: int) -> bool {
    0 <= pos <= s.len() && (pos < s.len() ==> s[pos] == '\n')
}

/// Where `a + b` stands at `pos`, `a` stands at `pos` and `b` behind it.
proof fn lemma_literal_split(s: Seq<char>, pos: int, a: Seq<char>, b: Seq<char>)
    requires
        has_literal_at(s, pos, a + b),
    ensures
        has_literal_at(s, pos, a),
        has_literal_at(s, pos + a.len(), b),
{
    let whole = s.subrange(pos, pos + (a + b).len());
    assert(s.subrange(pos, pos + a.len()) =~= whole.subrange(0, a.len() as int));
    assert((a + b).subrange(0, a.len() as int) =~= a);
    assert(s.subrange(pos + a.len(), pos + a.len() + b.len()) =~= whole.subrange(
        a.len() as int,
        (a + b).len() as int,
    ));
    assert((a + b).subrange(a.len() as int, (a + b).len() as int) =~= b);
}

/// A literal without a line feed that does not begin `t` does not stand where
/// `t` stands and the line ends behind `t`.
proof fn lemma_literal_stays_out(s: Seq<char>, pos: int, t: Seq<char>, lit: Seq<char>)
    requires
        has_literal_at(s, pos, t),
        line_ends_at(s, pos + t.len()),
        !has_literal_at(t, 0, lit),
        forall|i: int| 0 <= i < lit.len() ==> #[trigger] lit[i] != '\n',
    ensures
        !has_literal_at(s, pos, lit),
{
    if has_literal_at(s, pos, lit) {
        if lit.len() <= t.len() {
            assert(t.subrange(0, lit.len() as int) =~= lit);
        } else {
            assert(s[pos + t.len()] == lit[t.len() as int]);
        }
    }
}

/// A non-empty word over a class that stands at `pos`, with no character of
/// the class behind it, is the run that is read at `pos`.
proof fn lemma_run_reads(
    s: Seq<char>,
    pos: int,
    word: Seq<char>,
    class: CharClass,
    missing: Expected,
)
    requires
        has_literal_at(s, pos, word),
        word.len() > 0,
        all_in(word, class),
        pos + word.len() < s.len() ==> !class.contains(s[pos + word.len()]),
    ensures
        spec_run(s, pos, class, missing) == (Outcome::Accept {
            value: word,
            end: pos + word.len(),
        }),
{
    assert forall|i: int| pos <= i < pos + word.len() implies class.contains(#[trigger] s[i]) by {
        assert(s[i] == word[i - pos]);
    }
    lemma_span_end_is(s, pos, pos + word.len(), class);
}

/// One space with no blank behind it is the whole run of blanks.
proof fn lemma_one_blank(s: Seq<char>, pos: int)
    requires
        0 <= pos < s.len(),
        s[pos] == ' ',
        pos + 1 < s.len() ==> !CharClass::Blank.contains(s[pos + 1]),
    ensures
        span_end(s, pos, CharClass::Blank) == pos + 1,
{
    lemma_span_end_is(s, pos, pos + 1, CharClass::Blank);
}

/// A delimiter that no delimiter and no line feed precedes from `pos` on is
/// the one that the search finds.
proof fn lemma_delimiter_found(s: Seq<char>, pos: int, at: int)
    requires
        0 <= pos <= at,
        delimiter_at(s, at),
        forall|j: int| pos <= j < at ==> #[trigger] s[j] != '\n' && !delimiter_at(s, j),
    ensures
        delimiter_on_line(s, pos) == Some(at),
    decreases at - pos,
{
    if pos < at {
        lemma_delimiter_found(s, pos + 1, at);
    }
}

/// On a line that holds no delimiter from `pos` on, the search finds none.
proof fn lemma_delimiter_absent(s: Seq<char>, pos: int, end: int)
    requires
        0 <= pos <= end,
        line_ends_at(s, end),
        forall|j: int| pos <= j < end ==> #[trigger] s[j] != '\n' && !delimiter_at(s, j),
    ensures
        delimiter_on_line(s, pos) is None,
    decreases end - pos,
{
    if pos < end {
        lemma_delimiter_absent(s, pos + 1, end);
    }
}

/// A description as it is shown, standing at `pos` at the end of a line, is
/// read back as it is stored.
proof fn lemma_description_reads(s: Seq<char>, pos: int, d: CommitDetailsView)
    requires
        d.description matches Some(t) ==> is_description(t),
        has_literal_at(s, pos, d.description_text()),
        line_ends_at(s, pos + d.description_text().len()),
    ensures
        spec_description(s, pos) == (d.description, pos + d.description_text().len()),
{
    lemma_literals();
    match d.description {
        Some(t) => {
            lemma_literal_stays_out(s, pos, t, NO_DESCRIPTION@);
            assert forall|i: int| pos <= i < pos + t.len() implies CharClass::LineText.contains(
                #[trigger] s[i],
            ) by {
                assert(s[i] == t[i - pos]);
            }
            lemma_span_end_is(s, pos, pos + t.len(), CharClass::LineText);
        },
        None => {},
    }
}

/// The tail of a well-formed commit does not begin with a blank.
proof fn lemma_tail_start(d: CommitDetailsView)
    requires
        d.wf(),
    ensures
        d.tail().len() > 0 ==> !CharClass::Blank.contains(d.tail()[0]),
        d.rest().len() > 0 ==> !CharClass::Blank.contains(d.rest()[0]),
        d.bookmark is Some ==> d.tail().len() > 0,
{
    lemma_literals();
}

/// What a well-formed commit shows behind its ids, standing at `pos` at the
/// end of a line, is read back as the commit's marker, bookmark and
/// description.
proof fn lemma_rest_reads(s: Seq<char>, pos: int, d: CommitDetailsView)
    requires
        d.wf(),
        has_literal_at(s, pos, d.rest()),
        line_ends_at(s, pos + d.rest().len()),
    ensures
        spec_commit_rest(s, pos) == (d.empty, d.bookmark, d.description, pos + d.rest().len()),
{
    lemma_literals();
    let tail = d.tail();
    let text = d.description_text();
    // The emptiness marker is read exactly where the commit is empty.
    let tail_start = if d.empty {
        pos + EMPTY_MARKER@.len()
    } else {
        pos
    };
    if d.empty {
        lemma_literal_split(s, pos, EMPTY_MARKER@, tail);
    } else {
        lemma_literal_stays_out(s, pos, tail, EMPTY_MARKER@);
    }
    let line_end = tail_start + tail.len();
    match d.bookmark {
        Some(b) => {
            let sep = BOOKMARK_SEPARATOR@;
            lemma_literal_split(s, tail_start, b + sep, text);
            lemma_literal_split(s, tail_start, b, sep);
            let at = tail_start + b.len();
            assert forall|j: int| tail_start <= j < at implies #[trigger] s[j] != '\n'
                && !delimiter_at(s, j) by {
                assert(s[j] == b[j - tail_start]);
                if delimiter_at(s, j) && j + 1 < at {
                    assert(delimiter_at(b, j - tail_start));
                }
            }
            lemma_delimiter_found(s, tail_start, at);
            assert(spec_bookmark(s, tail_start) == (Outcome::Accept {
                value: s.subrange(tail_start, at),
                end: at + 2,
            }));
            lemma_one_blank(s, at + 2);
            lemma_description_reads(s, at + 3, d);
        },
        None => {
            assert forall|j: int| tail_start <= j < line_end implies #[trigger] s[j] != '\n'
                && !delimiter_at(s, j) by {
                assert(s[j] == text[j - tail_start]);
                if delimiter_at(s, j) && j + 1 < line_end {
                    assert(delimiter_at(text, j - tail_start));
                }
            }
            lemma_delimiter_absent(s, tail_start, line_end);
            lemma_description_reads(s, tail_start, d);
        },
    }
}

/// The rendering of well-formed details, standing at `pos` at the end of a
/// line, is read back as those details.
pub proof fn lemma_details_read(s: Seq<char>, pos: int, d: CommitDetailsView)
    requires
        d.wf(),
        has_literal_at(s, pos, d.render()),
        line_ends_at(s, pos + d.render().len()),
    ensures
        spec_commit_details(s, pos) == (Outcome::Accept {
            value: d,
            end: pos + d.render().len(),
        }),
{
    reveal_strlit(" ");
    lemma_tail_start(d);
    let space = " "@;
    let rest = d.rest();
    lemma_literal_split(s, pos, d.change_id + space + d.commit_id + space, rest);
    lemma_literal_split(s, pos, d.change_id + space + d.commit_id, space);
    lemma_literal_split(s, pos, d.change_id + space, d.commit_id);
    lemma_literal_split(s, pos, d.change_id, space);
    let change_end = pos + d.change_id.len();
    let commit_start = change_end + 1;
    let commit_end = commit_start + d.commit_id.len();
    let rest_start = commit_end + 1;
    assert(s[change_end] == space[0]);
    assert(s[commit_start] == d.commit_id[0]);
    lemma_run_reads(s, pos, d.change_id, CharClass::ChangeId, Expected::ChangeId);
    lemma_one_blank(s, change_end);
    lemma_run_reads(s, commit_start, d.commit_id, CharClass::CommitId, Expected::CommitId);
    lemma_one_blank(s, commit_end);
    lemma_rest_reads(s, rest_start, d);
}

/// The labelled line of a well-formed working-copy commit, standing at `pos`
/// at the end of a line, is read back as that commit.
pub proof fn lemma_working_copy_reads(s: Seq<char>, pos: int, d: CommitDetailsView)
    requires
        d.wf(),
        has_literal_at(s, pos, WORKING_COPY_PREFIX@ + d.render()),
        line_ends_at(s, pos + WORKING_COPY_PREFIX@.len() + d.render().len()),
    ensures
        spec_working_copy(s, pos) == (Outcome::Accept {
            value: CommitView::WorkingCopy(d),
            end: pos + WORKING_COPY_PREFIX@.len() + d.render().len(),
        }),
{
    reveal_strlit("Working copy : ");
    reveal_strlit("Working copy");
    let prefix = WORKING_COPY_PREFIX@;
    let label = WORKING_COPY_LABEL@;
    lemma_literal_split(s, pos, prefix, d.render());
    assert(s.subrange(pos, pos + label.len()) =~= label) by {
        assert forall|k: int| 0 <= k < label.len() implies s[pos + k] == label[k] by {
            assert(s[pos + k] == prefix[k]);
        }
    }
    assert(s[pos + 12] == prefix[12]);
    assert(s[pos + 13] == prefix[13]);
    assert(s[pos + 14] == prefix[14]);
    assert(s[pos + 15] == d.render()[0]);
    lemma_one_blank(s, pos + 12);
    lemma_one_blank(s, pos + 14);
    lemma_details_read(s, pos + 15, d);
}

/// The labelled line of a well-formed parent commit, standing at `pos` at the
/// end of a line, is read back as that commit.
pub proof fn lemma_parent_commit_reads(s: Seq<char>, pos: int, d: CommitDetailsView)
    requires
        d.wf(),
        has_literal_at(s, pos, PARENT_COMMIT_PREFIX@ + d.render()),
        line_ends_at(s, pos + PARENT_COMMIT_PREFIX@.len() + d.render().len()),
    ensures
        spec_parent_commit(s, pos) == (Outcome::Accept {
            value: CommitView::ParentCommit(d),
            end: pos + PARENT_COMMIT_PREFIX@.len() + d.render().len(),
        }),
{
    reveal_strlit("Parent commit: ");
    reveal_strlit("Parent commit:");
    let prefix = PARENT_COMMIT_PREFIX@;
    let label = PARENT_COMMIT_LABEL@;
    lemma_literal_split(s, pos, prefix, d.render());
    assert(s.subrange(pos, pos + label.len()) =~= label) by {
        assert forall|k: int| 0 <= k < label.len() implies s[pos + k] == label[k] by {
            assert(s[pos + k] == prefix[k]);
        }
    }
    assert(s[pos + 14] == prefix[14]);
    assert(s[pos + 15] == d.render()[0]);
    lemma_one_blank(s, pos + 14);
    lemma_details_read(s, pos + 15, d);
}

/// From a segment's end on, a path that runs over non-empty segments up to
/// the end of the line ends there.
proof fn lemma_path_end_is(s: Seq<char>, end: int, last: int)
    requires
        0 <= end <= last,
        line_ends_at(s, last),
        end < last ==> s[end] == '/',
        forall|i: int| end <= i < last ==> #[trigger] s[i] != '\n',
        forall|i: int| end <= i < last && #[trigger] s[i] == '/' ==> i + 1 < last && s[i + 1] != '/',
    ensures
        path_end(s, end) == last,
    decreases last - end,
{
    if end < last {
        let next = span_end(s, end + 1, CharClass::PathSegment);
        lemma_segment_end(s, end + 1, last);
        lemma_path_end_is(s, next, last);
    }
}

/// A segment that starts inside a line ends at the next `/` or at the end of
/// the line.
proof fn lemma_segment_end(s: Seq<char>, start: int, last: int)
    requires
        0 <= start <= last,
        line_ends_at(s, last),
        forall|i: int| start <= i < last ==> #[trigger] s[i] != '\n',
    ensures
        start <= span_end(s, start, CharClass::PathSegment) <= last,
        span_end(s, start, CharClass::PathSegment) < last ==> s[span_end(
            s,
            start,
            CharClass::PathSegment,
        )] == '/',
        start < last && s[start] != '/' ==> start < span_end(s, start, CharClass::PathSegment),
    decreases last - start,
{
    if start < last && s[start] != '/' {
        lemma_segment_end(s, start + 1, last);
    }
}

/// A relative path that stands at `pos` at the end of a line is read back as
/// it is.
pub proof fn lemma_path_reads(s: Seq<char>, pos: int, path: Seq<char>)
    requires
        is_relative_path(path),
        has_literal_at(s, pos, path),
        line_ends_at(s, pos + path.len()),
    ensures
        spec_path(s, pos) == (Outcome::Accept { value: path, end: pos + path.len() }),
{
    let last = pos + path.len();
    assert forall|i: int| pos <= i < last implies #[trigger] s[i] != '\n' by {
        assert(s[i] == path[i - pos]);
    }
    assert forall|i: int| pos <= i < last && #[trigger] s[i] == '/' implies i + 1 < last && s[i
        + 1] != '/' by {
        assert(s[i] == path[i - pos]);
    }
    lemma_segment_end(s, pos, last);
    let first_end = span_end(s, pos, CharClass::PathSegment);
    lemma_path_end_is(s, first_end, last);
}

/// The line of a well-formed change, standing at `pos` at the end of a line,
/// is read back as that change.
pub proof fn lemma_file_change_reads(s: Seq<char>, pos: int, change: WorkingCopyChangeView)
    requires
        change.wf(),
        has_literal_at(s, pos, change.render()),
        line_ends_at(s, pos + change.render().len()),
    ensures
        spec_file_change(s, pos) == (Outcome::Accept {
            value: change,
            end: pos + change.render().len(),
        }),
{
    reveal_strlit(" ");
    let letter = seq![change.status.symbol()];
    let space = " "@;
    lemma_literal_split(s, pos, letter + space, change.path);
    lemma_literal_split(s, pos, letter, space);
    assert(s[pos] == letter[0]);
    assert(s[pos + 1] == space[0]);
    lemma_one_blank(s, pos + 1);
    lemma_path_reads(s, pos + 2, change.path);
}

/// The lines of well-formed changes, standing behind the line feed at `end`
/// and followed by something that is no change, are read back as those
/// changes; the line feed behind the last of them is left.
proof fn lemma_more_changes_read(
    s: Seq<char>,
    end: int,
    changes: Seq<WorkingCopyChangeView>,
)
    requires
        changes_wf(changes),
        has_literal_at(s, end, "\n"@ + render_changes(changes)),
        spec_file_change(s, end + 1 + render_changes(changes).len()) is Reject,
    ensures
        more_changes(s, end) == (changes, end + render_changes(changes).len()),
    decreases changes.len(),
{
    reveal_strlit("\n");
    let feed = "\n"@;
    lemma_literal_split(s, end, feed, render_changes(changes));
    assert(s[end] == feed[0]);
    if changes.len() > 0 {
        let first = changes[0];
        let others = changes.skip(1);
        assert(changes_wf(others));
        lemma_literal_split(s, end + 1, first.render() + feed, render_changes(others));
        lemma_literal_split(s, end + 1, first.render(), feed);
        let next = end + 1 + first.render().len();
        lemma_file_change_reads(s, end + 1, first);
        assert(s.subrange(next, next + (feed + render_changes(others)).len()) =~= feed
            + render_changes(others));
        lemma_more_changes_read(s, next, others);
    }
}

/// The lines of well-formed changes, standing at `pos` and followed by
/// something that is no change, are read back as those changes.
proof fn lemma_change_list_reads(s: Seq<char>, pos: int, changes: Seq<WorkingCopyChangeView>)
    requires
        changes_wf(changes),
        has_literal_at(s, pos, render_changes(changes)),
        spec_file_change(s, pos + render_changes(changes).len()) is Reject,
    ensures
        spec_change_list(s, pos) == (
            changes,
            if changes.len() == 0 {
                pos
            } else {
                pos + render_changes(changes).len() - 1
            },
        ),
{
    reveal_strlit("\n");
    let feed = "\n"@;
    if changes.len() > 0 {
        let first = changes[0];
        let others = changes.skip(1);
        lemma_literal_split(s, pos, first.render() + feed, render_changes(others));
        lemma_literal_split(s, pos, first.render(), feed);
        let next = pos + first.render().len();
        assert(s[next] == feed[0]);
        lemma_file_change_reads(s, pos, first);
        assert(changes_wf(others));
        assert(s.subrange(next, next + (feed + render_changes(others)).len()) =~= feed
            + render_changes(others));
        lemma_more_changes_read(s, next, others);
    }
}

/// In `a + t + b`, `t` stands behind `a`.
proof fn lemma_stands_in(a: Seq<char>, t: Seq<char>, b: Seq<char>)
    ensures
        has_literal_at(a + t + b, a.len() as int, t),
        (a + t + b).len() == a.len() + t.len() + b.len(),
{
    assert((a + t + b).subrange(a.len() as int, (a.len() + t.len()) as int) =~= t);
}

/// Where the working-copy line starts in the rendering of `v`.
spec fn working_line_start(v: StatusView) -> int {
    render_changes(v.file_changes).len() as int
}

/// Where the working-copy line ends in the rendering of `v`.
spec fn working_line_end(v: StatusView) -> int {
    working_line_start(v) + WORKING_COPY_PREFIX@.len() + v.working_copy.details().render().len()
}

/// The parts of the rendering of `v` stand in `s` one behind the other: the
/// lines of the changes, the working-copy line, a line feed, and the parent
/// line, with which `s` ends.
spec fn laid_out(v: StatusView, s: Seq<char>) -> bool {
    &&& has_literal_at(s, 0, render_changes(v.file_changes))
    &&& has_literal_at(
        s,
        working_line_start(v),
        WORKING_COPY_PREFIX@ + v.working_copy.details().render(),
    )
    &&& 0 <= working_line_end(v) < s.len()
    &&& s[working_line_end(v)] == '\n'
    &&& has_literal_at(
        s,
        working_line_end(v) + 1,
        PARENT_COMMIT_PREFIX@ + v.parent_commit.details().render(),
    )
    &&& s.len() == working_line_end(v) + 1 + PARENT_COMMIT_PREFIX@.len()
        + v.parent_commit.details().render().len()
}

/// A rendered report holds its parts one behind the other.
proof fn lemma_render_layout(v: StatusView)
    ensures
        laid_out(v, v.render()),
{
    reveal_strlit("\n");
    let s = v.render();
    let lines = render_changes(v.file_changes);
    let working_line = WORKING_COPY_PREFIX@ + v.working_copy.details().render();
    let parent_line = PARENT_COMMIT_PREFIX@ + v.parent_commit.details().render();
    let feed = "\n"@;
    let empty = Seq::<char>::empty();
    assert(s =~= lines + working_line + (feed + parent_line));
    assert(s =~= (lines + working_line + feed) + parent_line + empty);
    assert(s =~= empty + lines + (working_line + feed + parent_line));
    lemma_stands_in(lines, working_line, feed + parent_line);
    lemma_stands_in(lines + working_line + feed, parent_line, empty);
    lemma_stands_in(empty, lines, working_line + feed + parent_line);
    assert(working_line.len() == WORKING_COPY_PREFIX@.len()
        + v.working_copy.details().render().len());
    assert(parent_line.len() == PARENT_COMMIT_PREFIX@.len()
        + v.parent_commit.details().render().len());
}

/// The lines of a non-empty change list start with a status letter and end
/// in a line feed.
proof fn lemma_lines_ends(changes: Seq<WorkingCopyChangeView>)
    requires
        changes.len() > 0,
    ensures
        render_changes(changes).len() > 0,
        render_changes(changes)[0] == changes[0].status.symbol(),
        render_changes(changes)[render_changes(changes).len() - 1] == '\n',
    decreases changes.len(),
{
    reveal_strlit("\n");
    let others = changes.skip(1);
    let head = changes[0].render() + "\n"@;
    let lines = render_changes(changes);
    assert(lines == head + render_changes(others));
    if others.len() > 0 {
        lemma_lines_ends(others);
    }
}

/// A rendered report starts with a status letter or with the working-copy
/// label: with neither the sentence for no changes nor the header. Where the
/// working-copy line starts, no change can be read.
proof fn lemma_report_start(v: StatusView, s: Seq<char>)
    requires
        laid_out(v, s),
    ensures
        !has_literal_at(s, 0, NO_CHANGES_SENTENCE@),
        !has_literal_at(s, 0, CHANGES_HEADER@),
        spec_file_change(s, render_changes(v.file_changes).len() as int) is Reject,
        v.file_changes.len() > 0 ==> s[render_changes(v.file_changes).len() - 1] == '\n',
        v.file_changes.len() == 0 ==> render_changes(v.file_changes).len() == 0,
        s[render_changes(v.file_changes).len() as int] != '\n',
{
    reveal_strlit("Working copy : ");
    reveal_strlit("The working copy has no changes.");
    reveal_strlit("Working copy changes:\n");
    let working_line = WORKING_COPY_PREFIX@ + v.working_copy.details().render();
    let working_start = working_line_start(v);
    assert(s[working_start] == working_line[0]);
    assert(s[working_start + 13] == working_line[13]);
    if v.file_changes.len() > 0 {
        lemma_lines_ends(v.file_changes);
    }
}

/// In the rendering of a well-formed report the change list is read back,
/// and the working-copy line starts behind it.
proof fn lemma_report_changes_read(v: StatusView)
    requires
        v.wf(),
    ensures
        spec_file_changes(v.render(), 0).0 == v.file_changes,
        working_line_start(v) == ({
            let s = v.render();
            let list_end = spec_file_changes(s, 0).1;
            if 0 <= list_end < s.len() && s[list_end] == '\n' {
                list_end + 1
            } else {
                list_end
            }
        }),
{
    let s = v.render();
    lemma_render_layout(v);
    lemma_report_start(v, s);
    lemma_change_list_reads(s, 0, v.file_changes);
}

/// In the rendering of a well-formed report the working-copy commit is read
/// back from its line.
proof fn lemma_report_working_copy_reads(v: StatusView)
    requires
        v.wf(),
    ensures
        spec_working_copy(v.render(), working_line_start(v)) == (Outcome::Accept {
            value: v.working_copy,
            end: working_line_end(v),
        }),
        0 <= working_line_end(v) < v.render().len(),
        v.render()[working_line_end(v)] == '\n',
{
    lemma_render_layout(v);
    lemma_working_copy_reads(v.render(), working_line_start(v), v.working_copy.details());
}

/// In the rendering of a well-formed report the parent commit is read back
/// from its line, the last.
proof fn lemma_report_parent_commit_reads(v: StatusView)
    requires
        v.wf(),
    ensures
        spec_parent_commit(v.render(), working_line_end(v) + 1) == (Outcome::Accept {
            value: v.parent_commit,
            end: v.render().len() as int,
        }),
{
    lemma_render_layout(v);
    lemma_parent_commit_reads(v.render(), working_line_end(v) + 1, v.parent_commit.details());
}

/// The rendering of a well-formed report is read, from its first character
/// to its last, as that report.
pub proof fn lemma_status_reads(v: StatusView)
    requires
        v.wf(),
    ensures
        spec_status(v.render(), 0) == (Outcome::Accept { value: v, end: v.render().len() as int }),
{
    lemma_report_changes_read(v);
    lemma_report_working_copy_reads(v);
    lemma_report_parent_commit_reads(v);
}

/// Parsing gives back what was rendered: the rendering of a well-formed
/// report parses, as a whole text, to that report.
pub proof fn lemma_parse_render(v: StatusView)
    requires
        v.wf(),
    ensures
        spec_parse(v.render()) == (Outcome::Accept { value: v, end: v.render().len() as int }),
{
    lemma_status_reads(v);
}

/// Parsing is idempotent on its own canonical output: whatever report a text
/// parses to, the rendering of that report parses to the same report.
pub proof fn lemma_parse_canonical(s: Seq<char>)
    requires
        spec_parse(s) is Accept,
    ensures
        spec_parse(spec_parse(s)->value.render()) == (Outcome::Accept {
            value: spec_parse(s)->value,
            end: spec_parse(s)->value.render().len() as int,
        }),
{
    lemma_parse(s);
    lemma_parse_render(spec_parse(s)->value);
}

} // verus!
