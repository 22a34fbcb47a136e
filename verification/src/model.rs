//! The data model of a status report, its mathematical views, and its
//! human-readable rendering.
use vstd::prelude::*;
use vstd::string::*;
use crate::text::{all_in, has_literal_at, CharClass};

verus! {

/// The marker that follows the ids of a commit without content changes.
pub const EMPTY_MARKER: &'static str = "(empty) ";

/// The text that stands for an absent description.
pub const NO_DESCRIPTION: &'static str = "(no description set)";

/// What separates a bookmark from the description in a rendered commit.
pub const BOOKMARK_SEPARATOR: &'static str = " | ";

/// The label in front of the working-copy commit in a rendered report.
pub const WORKING_COPY_PREFIX: &'static str = "Working copy : ";

/// The label in front of the parent commit in a rendered report.
pub const PARENT_COMMIT_PREFIX: &'static str = "Parent commit: ";

/// The two characters ` |` stand in `s` at `i`: the delimiter that closes a
/// bookmark.
pub open spec fn delimiter_at(s: Seq<char>, i: int) -> bool {
    &&& 0 <= i
    &&& i + 1 < s.len()
    &&& s[i] == ' '
    &&& s[i + 1] == '|'
}

/// The bookmark delimiter occurs somewhere in `s`.
pub open spec fn has_delimiter(s: Seq<char>) -> bool {
    exists|i: int| delimiter_at(s, i)
}

/// `p` is one or more non-empty segments joined by `/`, on one line, and does
/// not begin with a blank.
pub open spec fn is_relative_path(p: Seq<char>) -> bool {
    &&& p.len() > 0
    &&& !CharClass::Blank.contains(p[0])
    &&& p[0] != '/'
    &&& p[p.len() - 1] != '/'
    &&& all_in(p, CharClass::LineText)
    &&& forall|i: int| 0 <= i < p.len() - 1 && #[trigger] p[i] == '/' ==> p[i + 1] != '/'
}

/// `b` can be a bookmark: non-empty, on one line, free of the delimiter, and
/// not beginning with a blank.
pub open spec fn is_bookmark(b: Seq<char>) -> bool {
    &&& b.len() > 0
    &&& !CharClass::Blank.contains(b[0])
    &&& all_in(b, CharClass::LineText)
    &&& !has_delimiter(b)
}

/// `d` can be a stored description: on one line, not beginning with a blank,
/// and not beginning with the text that stands for an absent description.
pub open spec fn is_description(d: Seq<char>) -> bool {
    &&& all_in(d, CharClass::LineText)
    &&& d.len() > 0 ==> !CharClass::Blank.contains(d[0])
    &&& !has_literal_at(d, 0, NO_DESCRIPTION@)
}

/// How a file differs from the parent commit.
#[derive(Debug, Clone, Copy, PartialEq, Eq)]
pub enum FileStatus {
    Added,
    Modified,
    Removed,
}

impl View for FileStatus {
    type V = FileStatus;

    open spec fn view(&self) -> FileStatus {
        *self
    }
}

impl DeepView for FileStatus {
    type V = FileStatus;

    open spec fn deep_view(&self) -> FileStatus {
        *self
    }
}

impl FileStatus {
    /// The letter that stands for the status in a report.
    pub open spec fn symbol(self) -> char {
        match self {
            FileStatus::Added => 'A',
            FileStatus::Modified => 'M',
            FileStatus::Removed => 'R',
        }
    }

    /// Returns the letter that stands for the status in a report.
    pub fn letter(&self) -> (c: char)
        ensures
            c == self.symbol(),
    {
        match self {
            FileStatus::Added => 'A',
            FileStatus::Modified => 'M',
            FileStatus::Removed => 'R',
        }
    }

    /// Renders the status as its letter.
    pub fn render(&self) -> (out: String)
        ensures
            out@ == seq![self.symbol()],
    {
        proof {
            reveal_strlit("A");
            reveal_strlit("M");
            reveal_strlit("R");
        }
        match self {
            FileStatus::Added => String::from_str("A"),
            FileStatus::Modified => String::from_str("M"),
            FileStatus::Removed => String::from_str("R"),
        }
    }
}

/// One line of the change list, as a mathematical value.
pub struct WorkingCopyChangeView {
    pub status: FileStatus,
    pub path: Seq<char>,
}

impl WorkingCopyChangeView {
    /// The path is a relative path of non-empty segments.
    pub open spec fn wf(self) -> bool {
        is_relative_path(self.path)
    }

    /// The line of a report that states this change.
    pub open spec fn render(self) -> Seq<char> {
        seq![self.status.symbol()] + " "@ + self.path
    }
}

/// One line of the change list: a status and the path of the file, its
/// segments joined by `/`.
#[derive(Debug, PartialEq, Eq)]
pub struct WorkingCopyChange {
    status: FileStatus,
    path: String,
}

impl View for WorkingCopyChange {
    type V = WorkingCopyChangeView;

    closed spec fn view(&self) -> WorkingCopyChangeView {
        WorkingCopyChangeView { status: self.status, path: self.path@ }
    }
}

impl DeepView for WorkingCopyChange {
    type V = WorkingCopyChangeView;

    open spec fn deep_view(&self) -> WorkingCopyChangeView {
        self@
    }
}

impl WorkingCopyChange {
    /// A change of `status` to the file at `path`.
    pub fn new(status: FileStatus, path: String) -> (change: Self)
        requires
            is_relative_path(path@),
        ensures
            change@ == (WorkingCopyChangeView { status, path: path@ }),
            change@.wf(),
    {
        WorkingCopyChange { status, path }
    }

    /// The status of the file.
    pub fn status(&self) -> (status: FileStatus)
        ensures
            status == self@.status,
    {
        self.status
    }

    /// The path of the file.
    pub fn path(&self) -> (path: &str)
        ensures
            path@ == self@.path,
    {
        self.path.as_str()
    }

    /// Renders the change as the line of a report: the letter of the status,
    /// a space, the path.
    pub fn render(&self) -> (out: String)
        ensures
            out@ == self@.render(),
    {
        let mut out = self.status.render();
        out.append(" ");
        out.append(self.path.as_str());
        out
    }
}

/// The metadata of one commit, as a mathematical value.
pub struct CommitDetailsView {
    pub change_id: Seq<char>,
    pub commit_id: Seq<char>,
    pub empty: bool,
    pub bookmark: Option<Seq<char>>,
    pub description: Option<Seq<char>>,
}

impl CommitDetailsView {
    /// The description as it is shown: the stored text, or the text that
    /// stands for an absent description.
    pub open spec fn description_text(self) -> Seq<char> {
        match self.description {
            Some(d) => d,
            None => NO_DESCRIPTION@,
        }
    }

    /// What a rendered commit shows behind the ids and the emptiness marker:
    /// the bookmark with its separator, if there is one, then the description.
    pub open spec fn tail(self) -> Seq<char> {
        match self.bookmark {
            Some(b) => b + BOOKMARK_SEPARATOR@ + self.description_text(),
            None => self.description_text(),
        }
    }

    /// What a rendered commit shows behind the ids: the emptiness marker, if
    /// the commit is empty, then the tail.
    pub open spec fn rest(self) -> Seq<char> {
        if self.empty {
            EMPTY_MARKER@ + self.tail()
        } else {
            self.tail()
        }
    }

    /// The line that states this commit, without a label:
    /// `<change id> <commit id> [(empty) ][<bookmark> | ]<description>`.
    pub open spec fn render(self) -> Seq<char> {
        self.change_id + " "@ + self.commit_id + " "@ + self.rest()
    }

    /// The ids are non-empty and over their alphabets; the bookmark and the
    /// description are such as a parse can yield; without a bookmark the
    /// description holds no delimiter; and a commit that is not marked empty
    /// does not read as if it were.
    pub open spec fn wf(self) -> bool {
        &&& self.change_id.len() > 0
        &&& all_in(self.change_id, CharClass::ChangeId)
        &&& self.commit_id.len() > 0
        &&& all_in(self.commit_id, CharClass::CommitId)
        &&& self.bookmark matches Some(b) ==> is_bookmark(b)
        &&& self.description matches Some(d) ==> is_description(d)
        &&& self.bookmark is None ==> !has_delimiter(self.description_text())
        &&& !self.empty ==> !has_literal_at(self.tail(), 0, EMPTY_MARKER@)
    }
}

/// The metadata of one commit: change id, commit id, whether the commit is
/// empty, its bookmark and its description, each of the last two if any.
#[derive(Debug, PartialEq, Eq)]
pub struct CommitDetails {
    change_id: String,
    commit_id: String,
    empty: bool,
    bookmark: Option<String>,
    description: Option<String>,
}

impl View for CommitDetails {
    type V = CommitDetailsView;

    closed spec fn view(&self) -> CommitDetailsView {
        CommitDetailsView {
            change_id: self.change_id@,
            commit_id: self.commit_id@,
            empty: self.empty,
            bookmark: self.bookmark.deep_view(),
            description: self.description.deep_view(),
        }
    }
}

impl DeepView for CommitDetails {
    type V = CommitDetailsView;

    open spec fn deep_view(&self) -> CommitDetailsView {
        self@
    }
}

impl CommitDetails {
    /// The details of a commit from their parts.
    pub fn new(
        change_id: String,
        commit_id: String,
        empty: bool,
        bookmark: Option<String>,
        description: Option<String>,
    ) -> (details: Self)
        requires
            (CommitDetailsView {
                change_id: change_id@,
                commit_id: commit_id@,
                empty,
                bookmark: bookmark.deep_view(),
                description: description.deep_view(),
            }).wf(),
        ensures
            details@ == (CommitDetailsView {
                change_id: change_id@,
                commit_id: commit_id@,
                empty,
                bookmark: bookmark.deep_view(),
                description: description.deep_view(),
            }),
            details@.wf(),
    {
        CommitDetails { change_id, commit_id, empty, bookmark, description }
    }

    /// The change id.
    pub fn change_id(&self) -> (id: &str)
        ensures
            id@ == self@.change_id,
    {
        self.change_id.as_str()
    }

    /// The commit id.
    pub fn commit_id(&self) -> (id: &str)
        ensures
            id@ == self@.commit_id,
    {
        self.commit_id.as_str()
    }

    /// Whether the commit is marked empty.
    pub fn empty(&self) -> (empty: bool)
        ensures
            empty == self@.empty,
    {
        self.empty
    }

    /// The bookmark, if the commit has one.
    pub fn bookmark(&self) -> (bookmark: Option<&String>)
        ensures
            bookmark.deep_view() == self@.bookmark,
    {
        self.bookmark.as_ref()
    }

    /// The description as it is shown: the stored text, or
    /// `(no description set)` where the commit has none.
    pub fn description(&self) -> (text: &str)
        ensures
            text@ == self@.description_text(),
    {
        match &self.description {
            Some(description) => description.as_str(),
            None => NO_DESCRIPTION,
        }
    }

    /// The stored description, if the commit has one.
    pub fn stored_description(&self) -> (description: Option<&String>)
        ensures
            description.deep_view() == self@.description,
    {
        self.description.as_ref()
    }

    /// Renders the commit as `<change id> <commit id> [(empty) ][<bookmark> | ]<description>`.
    pub fn render(&self) -> (out: String)
        ensures
            out@ == self@.render(),
    {
        let mut out = String::from_str(self.change_id.as_str());
        out.append(" ");
        out.append(self.commit_id.as_str());
        out.append(" ");
        if self.empty {
            out.append(EMPTY_MARKER);
        }
        match &self.bookmark {
            Some(bookmark) => {
                out.append(bookmark.as_str());
                out.append(BOOKMARK_SEPARATOR);
            },
            None => {},
        }
        out.append(self.description());
        out
    }
}

/// A commit in its role, as a mathematical value.
pub enum CommitView {
    WorkingCopy(CommitDetailsView),
    ParentCommit(CommitDetailsView),
}

impl CommitView {
    /// The details, whatever the role.
    pub open spec fn details(self) -> CommitDetailsView {
        match self {
            CommitView::WorkingCopy(details) => details,
            CommitView::ParentCommit(details) => details,
        }
    }

    /// The line that states this commit, without a label.
    pub open spec fn render(self) -> Seq<char> {
        self.details().render()
    }

    /// The details are well formed.
    pub open spec fn wf(self) -> bool {
        self.details().wf()
    }
}

/// A commit in its role: the working copy, or its parent.
#[derive(Debug, PartialEq, Eq)]
pub enum Commit {
    WorkingCopy(CommitDetails),
    ParentCommit(CommitDetails),
}

impl View for Commit {
    type V = CommitView;

    open spec fn view(&self) -> CommitView {
        match self {
            Commit::WorkingCopy(details) => CommitView::WorkingCopy(details@),
            Commit::ParentCommit(details) => CommitView::ParentCommit(details@),
        }
    }
}

impl DeepView for Commit {
    type V = CommitView;

    open spec fn deep_view(&self) -> CommitView {
        self@
    }
}

impl Commit {
    /// The details, whatever the role.
    pub fn details(&self) -> (details: &CommitDetails)
        ensures
            details@ == self@.details(),
    {
        match self {
            Commit::WorkingCopy(details) => details,
            Commit::ParentCommit(details) => details,
        }
    }

    /// The change id.
    pub fn change_id(&self) -> (id: &str)
        ensures
            id@ == self@.details().change_id,
    {
        self.details().change_id()
    }

    /// The commit id.
    pub fn commit_id(&self) -> (id: &str)
        ensures
            id@ == self@.details().commit_id,
    {
        self.details().commit_id()
    }

    /// Whether the commit is marked empty.
    pub fn empty(&self) -> (empty: bool)
        ensures
            empty == self@.details().empty,
    {
        self.details().empty()
    }

    /// The bookmark, if the commit has one.
    pub fn bookmark(&self) -> (bookmark: Option<&String>)
        ensures
            bookmark.deep_view() == self@.details().bookmark,
    {
        self.details().bookmark()
    }

    /// The description as it is shown: the stored text, or
    /// `(no description set)` where the commit has none.
    pub fn description(&self) -> (text: &str)
        ensures
            text@ == self@.details().description_text(),
    {
        self.details().description()
    }

    /// Renders the commit as its details, without a label.
    pub fn render(&self) -> (out: String)
        ensures
            out@ == self@.render(),
    {
        self.details().render()
    }
}

/// The lines of a report that state `changes`, each closed by a line feed.
pub open spec fn render_changes(changes: Seq<WorkingCopyChangeView>) -> Seq<char>
    decreases changes.len(),
{
    if changes.len() == 0 {
        Seq::<char>::empty()
    } else {
        changes[0].render() + "\n"@ + render_changes(changes.skip(1))
    }
}

/// Every change of `changes` is well formed.
pub open spec fn changes_wf(changes: Seq<WorkingCopyChangeView>) -> bool {
    forall|i: int| 0 <= i < changes.len() ==> (#[trigger] changes[i]).wf()
}

/// Rendering a list with one more change at its end adds that change's line.
pub proof fn lemma_render_changes_push(
    changes: Seq<WorkingCopyChangeView>,
    change: WorkingCopyChangeView,
)
    ensures
        render_changes(changes.push(change)) == render_changes(changes) + change.render() + "\n"@,
    decreases changes.len(),
{
    let longer = changes.push(change);
    if changes.len() == 0 {
        assert(render_changes(longer.skip(1)) =~= Seq::<char>::empty());
    } else {
        assert(longer.skip(1) =~= changes.skip(1).push(change));
        lemma_render_changes_push(changes.skip(1), change);
    }
}

/// A status report, as a mathematical value.
pub struct StatusView {
    pub file_changes: Seq<WorkingCopyChangeView>,
    pub working_copy: CommitView,
    pub parent_commit: CommitView,
}

impl StatusView {
    /// The report: one line for each change, then the labelled line of the
    /// working copy and the labelled line of its parent.
    pub open spec fn render(self) -> Seq<char> {
        render_changes(self.file_changes) + WORKING_COPY_PREFIX@ + self.working_copy.render()
            + "\n"@ + PARENT_COMMIT_PREFIX@ + self.parent_commit.render()
    }

    /// Every change is well formed, and the two commits are well formed and
    /// stand in their roles.
    pub open spec fn wf(self) -> bool {
        &&& changes_wf(self.file_changes)
        &&& self.working_copy is WorkingCopy
        &&& self.working_copy.wf()
        &&& self.parent_commit is ParentCommit
        &&& self.parent_commit.wf()
    }
}

/// A status report: the changed files, the working-copy commit and its parent.
#[derive(Debug, PartialEq, Eq)]
pub struct Status {
    file_changes: Vec<WorkingCopyChange>,
    working_copy: Commit,
    parent_commit: Commit,
}

impl View for Status {
    type V = StatusView;

    closed spec fn view(&self) -> StatusView {
        StatusView {
            file_changes: self.file_changes.deep_view(),
            working_copy: self.working_copy@,
            parent_commit: self.parent_commit@,
        }
    }
}

impl DeepView for Status {
    type V = StatusView;

    open spec fn deep_view(&self) -> StatusView {
        self@
    }
}

impl Status {
    /// A report from its parts.
    pub fn new(
        file_changes: Vec<WorkingCopyChange>,
        working_copy: Commit,
        parent_commit: Commit,
    ) -> (status: Self)
        requires
            (StatusView {
                file_changes: file_changes.deep_view(),
                working_copy: working_copy@,
                parent_commit: parent_commit@,
            }).wf(),
        ensures
            status@ == (StatusView {
                file_changes: file_changes.deep_view(),
                working_copy: working_copy@,
                parent_commit: parent_commit@,
            }),
            status@.wf(),
    {
        Status { file_changes, working_copy, parent_commit }
    }

    /// The changed files, in the order of the report.
    pub fn file_changes(&self) -> (changes: &[WorkingCopyChange])
        ensures
            changes.deep_view() == self@.file_changes,
    {
        self.file_changes.as_slice()
    }

    /// The working-copy commit.
    pub fn working_copy(&self) -> (commit: &Commit)
        ensures
            commit@ == self@.working_copy,
    {
        &self.working_copy
    }

    /// The parent commit.
    pub fn parent_commit(&self) -> (commit: &Commit)
        ensures
            commit@ == self@.parent_commit,
    {
        &self.parent_commit
    }

    /// Renders the report: one line for each change, then
    /// `Working copy : <commit>` and `Parent commit: <commit>`, the lines
    /// separated by line feeds.
    pub fn render(&self) -> (out: String)
        ensures
            out@ == self@.render(),
    {
        let mut out = String::new();
        let n = self.file_changes.len();
        let mut i: usize = 0;
        while i < n
            invariant
                i <= n,
                n == self.file_changes@.len(),
                out@ == render_changes(self.file_changes.deep_view().take(i as int)),
            decreases n - i,
        {
            let line = self.file_changes[i].render();
            out.append(line.as_str());
            out.append("\n");
            proof {
                let all = self.file_changes.deep_view();
                assert(all.take(i + 1) =~= all.take(i as int).push(all[i as int]));
                lemma_render_changes_push(all.take(i as int), all[i as int]);
            }
            i += 1;
        }
        assert(self.file_changes.deep_view().take(n as int) =~= self.file_changes.deep_view());
        out.append(WORKING_COPY_PREFIX);
        let line = self.working_copy.render();
        out.append(line.as_str());
        out.append("\n");
        out.append(PARENT_COMMIT_PREFIX);
        let line = self.parent_commit.render();
        out.append(line.as_str());
        out
    }
}

} // verus!
