//! The grammar rules applied to the front of a string slice: on success the
//! slice is advanced past what was recognised, on failure it is left as it
//! was. Offsets of failures count characters from the front of the slice.
use vstd::prelude::*;
use crate::changes::{
    file_change_at, file_changes_at, file_status_at, part_at, path_at, spec_file_change,
    spec_file_changes, spec_file_status, spec_part, spec_path,
};
use crate::commit::{
    bookmark_at, change_id_at, commit_details_at, commit_id_at, description_at, empty_at,
    parent_commit_at, spec_bookmark, spec_change_id, spec_commit_details, spec_commit_id,
    spec_description, spec_empty, spec_parent_commit, spec_working_copy, working_copy_at,
};
use crate::error::{reports_front, ParseError};
use crate::model::{changes_wf, Commit, CommitDetails, FileStatus, Status, WorkingCopyChange};
use crate::status::{spec_status, status_at};
use crate::text::Source;

verus! {

/// Parses a status letter at the front of `s`.
pub fn file_status<'a>(s: &mut &'a str) -> (r: Result<FileStatus, ParseError>)
    ensures
        reports_front(r, old(s)@, final(s)@, spec_file_status(old(s)@, 0)),
{
    let src = Source::new(*s);
    let (status, end) = file_status_at(&src, 0)?;
    *s = src.remainder(end);
    Ok(status)
}

/// Parses a path segment at the front of `s`.
pub fn part<'a>(s: &mut &'a str) -> (r: Result<String, ParseError>)
    ensures
        reports_front(r, old(s)@, final(s)@, spec_part(old(s)@, 0)),
{
    let src = Source::new(*s);
    let (segment, end) = part_at(&src, 0)?;
    *s = src.remainder(end);
    Ok(segment)
}

/// Parses a path at the front of `s`.
pub fn path<'a>(s: &mut &'a str) -> (r: Result<String, ParseError>)
    ensures
        reports_front(r, old(s)@, final(s)@, spec_path(old(s)@, 0)),
{
    let src = Source::new(*s);
    let (path, end) = path_at(&src, 0)?;
    *s = src.remainder(end);
    Ok(path)
}

/// Parses one line of the change list at the front of `s`.
pub fn file_change<'a>(s: &mut &'a str) -> (r: Result<WorkingCopyChange, ParseError>)
    ensures
        reports_front(r, old(s)@, final(s)@, spec_file_change(old(s)@, 0)),
        r matches Ok(change) ==> change@.wf(),
{
    let src = Source::new(*s);
    let (change, end) = file_change_at(&src, 0)?;
    *s = src.remainder(end);
    Ok(change)
}

/// Parses the change list at the front of `s`. This never fails: where
/// neither the sentence that reports no changes, nor the header, nor a change
/// stands there, the list is empty and `s` is left as it was.
pub fn file_changes<'a>(s: &mut &'a str) -> (r: Result<Vec<WorkingCopyChange>, ParseError>)
    ensures
        r matches Ok(changes) && changes.deep_view() == spec_file_changes(old(s)@, 0).0
            && changes_wf(changes.deep_view()),
        final(s)@ == old(s)@.skip(spec_file_changes(old(s)@, 0).1),
{
    let src = Source::new(*s);
    let (changes, end) = file_changes_at(&src, 0);
    *s = src.remainder(end);
    Ok(changes)
}

/// Parses a change id at the front of `s`.
pub fn change_id<'a>(s: &mut &'a str) -> (r: Result<String, ParseError>)
    ensures
        reports_front(r, old(s)@, final(s)@, spec_change_id(old(s)@, 0)),
{
    let src = Source::new(*s);
    let (id, end) = change_id_at(&src, 0)?;
    *s = src.remainder(end);
    Ok(id)
}

/// Parses a commit id at the front of `s`.
pub fn commit_id<'a>(s: &mut &'a str) -> (r: Result<String, ParseError>)
    ensures
        reports_front(r, old(s)@, final(s)@, spec_commit_id(old(s)@, 0)),
{
    let src = Source::new(*s);
    let (id, end) = commit_id_at(&src, 0)?;
    *s = src.remainder(end);
    Ok(id)
}

/// Reads the emptiness marker at the front of `s`, if it stands there. This
/// never fails.
pub fn empty<'a>(s: &mut &'a str) -> (r: Result<bool, ParseError>)
    ensures
        r matches Ok(empty) && empty == spec_empty(old(s)@, 0).0,
        final(s)@ == old(s)@.skip(spec_empty(old(s)@, 0).1),
{
    let src = Source::new(*s);
    let (empty, end) = empty_at(&src, 0);
    *s = src.remainder(end);
    Ok(empty)
}

/// Parses a bookmark and its delimiter at the front of `s`.
pub fn bookmark<'a>(s: &mut &'a str) -> (r: Result<String, ParseError>)
    ensures
        reports_front(r, old(s)@, final(s)@, spec_bookmark(old(s)@, 0)),
{
    let src = Source::new(*s);
    let (bookmark, end) = bookmark_at(&src, 0)?;
    *s = src.remainder(end);
    Ok(bookmark)
}

/// Parses a description at the front of `s`. This never fails.
pub fn description<'a>(s: &mut &'a str) -> (r: Result<Option<String>, ParseError>)
    ensures
        r matches Ok(description) && description.deep_view() == spec_description(old(s)@, 0).0,
        final(s)@ == old(s)@.skip(spec_description(old(s)@, 0).1),
{
    let src = Source::new(*s);
    let (description, end) = description_at(&src, 0);
    *s = src.remainder(end);
    Ok(description)
}

/// Parses the details of a commit at the front of `s`.
pub fn commit_details<'a>(s: &mut &'a str) -> (r: Result<CommitDetails, ParseError>)
    ensures
        reports_front(r, old(s)@, final(s)@, spec_commit_details(old(s)@, 0)),
        r matches Ok(details) ==> details@.wf(),
{
    let src = Source::new(*s);
    let (details, end) = commit_details_at(&src, 0)?;
    *s = src.remainder(end);
    Ok(details)
}

/// Parses the working-copy commit at the front of `s`.
pub fn working_copy<'a>(s: &mut &'a str) -> (r: Result<Commit, ParseError>)
    ensures
        reports_front(r, old(s)@, final(s)@, spec_working_copy(old(s)@, 0)),
        r matches Ok(commit) ==> commit@ is WorkingCopy && commit@.wf(),
{
    let src = Source::new(*s);
    let (commit, end) = working_copy_at(&src, 0)?;
    *s = src.remainder(end);
    Ok(commit)
}

/// Parses the parent commit at the front of `s`.
pub fn parent_commit<'a>(s: &mut &'a str) -> (r: Result<Commit, ParseError>)
    ensures
        reports_front(r, old(s)@, final(s)@, spec_parent_commit(old(s)@, 0)),
        r matches Ok(commit) ==> commit@ is ParentCommit && commit@.wf(),
{
    let src = Source::new(*s);
    let (commit, end) = parent_commit_at(&src, 0)?;
    *s = src.remainder(end);
    Ok(commit)
}

/// Parses a report at the front of `s`; what follows the parent commit is
/// left in `s`.
pub fn status<'a>(s: &mut &'a str) -> (r: Result<Status, ParseError>)
    ensures
        reports_front(r, old(s)@, final(s)@, spec_status(old(s)@, 0)),
        r matches Ok(status) ==> status@.wf(),
{
    let src = Source::new(*s);
    let (status, end) = status_at(&src, 0)?;
    *s = src.remainder(end);
    Ok(status)
}

} // verus!
