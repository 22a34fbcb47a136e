//! The grammar of a whole report: the change list, the working-copy commit
//! and the parent commit, each on its line.
use vstd::prelude::*;
use crate::changes::{file_changes_at, lemma_file_changes, spec_file_changes};
use crate::commit::{
    lemma_parent_commit, lemma_working_copy, parent_commit_at, spec_parent_commit,
    spec_working_copy, working_copy_at,
};
use crate::error::{reports, reports_whole, Expected, Outcome, ParseError};
use crate::model::{Status, StatusView};
use crate::text::Source;

verus! {

/// A report at `pos`: the change list, a line feed if one stands there, the
/// working-copy commit, a line feed, the parent commit.
pub open spec fn spec_status(s: Seq<char>, pos: int) -> Outcome<StatusView> {
    let (file_changes, list_end) = spec_file_changes(s, pos);
    let working_start = if 0 <= list_end < s.len() && s[list_end] == '\n' {
        list_end + 1
    } else {
        list_end
    };
    let working = spec_working_copy(s, working_start);
    let parent = spec_parent_commit(s, working->end + 1);
    if working is Reject {
        working.rejection()
    } else if !(0 <= working->end < s.len() && s[working->end] == '\n') {
        Outcome::Reject { offset: working->end, expected: Expected::Newline }
    } else if parent is Reject {
        parent.rejection()
    } else {
        Outcome::Accept {
            value: StatusView {
                file_changes,
                working_copy: working->value,
                parent_commit: parent->value,
            },
            end: parent->end,
        }
    }
}

/// A text that is a report from its first character to its last: what is
/// left behind the parent commit is a failure.
pub open spec fn spec_parse(s: Seq<char>) -> Outcome<StatusView> {
    let status = spec_status(s, 0);
    if status is Accept && status->end != s.len() {
        Outcome::Reject { offset: status->end, expected: Expected::EndOfInput }
    } else {
        status
    }
}

/// Whatever a parse accepts as a report is well formed.
pub proof fn lemma_status(s: Seq<char>, pos: int)
    requires
        0 <= pos <= s.len(),
    ensures
        spec_status(s, pos) matches Outcome::Accept { value, end } ==> {
            &&& value.wf()
            &&& pos < end <= s.len()
        },
{
    lemma_file_changes(s, pos);
    let list_end = spec_file_changes(s, pos).1;
    let working_start = if list_end < s.len() && s[list_end] == '\n' {
        list_end + 1
    } else {
        list_end
    };
    lemma_working_copy(s, working_start);
    let working = spec_working_copy(s, working_start);
    if working is Accept && working->end < s.len() {
        lemma_parent_commit(s, working->end + 1);
    }
}

/// Whatever a whole text parses to is well formed.
pub proof fn lemma_parse(s: Seq<char>)
    ensures
        spec_parse(s) matches Outcome::Accept { value, end } ==> value.wf() && end == s.len(),
{
    lemma_status(s, 0);
}

/// Parses a report at `pos`.
pub fn status_at(src: &Source, pos: usize) -> (r: Result<(Status, usize), ParseError>)
    requires
        pos <= src@.len(),
    ensures
        reports(r, spec_status(src@, pos as int)),
        r matches Ok((status, end)) ==> status@.wf() && pos < end <= src@.len(),
{
    let (file_changes, list_end) = file_changes_at(src, pos);
    let working_start = if src.is_char_at(list_end, '\n') {
        list_end + 1
    } else {
        list_end
    };
    let (working_copy, working_end) = working_copy_at(src, working_start)?;
    if !src.is_char_at(working_end, '\n') {
        return Err(ParseError { offset: working_end, expected: Expected::Newline });
    }
    let (parent_commit, end) = parent_commit_at(src, working_end + 1)?;
    Ok((Status::new(file_changes, working_copy, parent_commit), end))
}

impl Status {
    /// Parses `text` as a report. The whole of `text` must be the report: the
    /// result is the report that `spec_parse` accepts, or the failure that it
    /// names, with its offset in characters.
    pub fn parse(text: &str) -> (r: Result<Status, ParseError>)
        ensures
            reports_whole(r, spec_parse(text@)),
            r matches Ok(status) ==> status@.wf(),
    {
        let src = Source::new(text);
        let (status, end) = status_at(&src, 0)?;
        if end != src.len() {
            return Err(ParseError { offset: end, expected: Expected::EndOfInput });
        }
        Ok(status)
    }
}

impl std::str::FromStr for Status {
    type Err = ParseError;

    /// Parses `text` as a report, as [`Status::parse`] does.
    fn from_str(text: &str) -> (r: Result<Status, ParseError>)
        ensures
            reports_whole(r, spec_parse(text@)),
            r matches Ok(status) ==> status@.wf(),
    {
        Status::parse(text)
    }
}

} // verus!
