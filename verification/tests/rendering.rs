use jj_status_parser::{Commit, CommitDetails, FileStatus, Status, WorkingCopyChange};

fn text(value: &str) -> String {
    String::from(value)
}

fn details_with_bookmark() -> CommitDetails {
    CommitDetails::new(
        text("qnxonnkx"),
        text("60be3879"),
        false,
        Some(text("main")),
        None,
    )
}

fn details_of_empty_commit() -> CommitDetails {
    CommitDetails::new(text("zzzzzzzz"), text("00000000"), true, None, None)
}

#[test]
fn file_status_renders_as_its_letter() {
    assert_eq!("A", FileStatus::Added.render());
    assert_eq!("M", FileStatus::Modified.render());
    assert_eq!("R", FileStatus::Removed.render());
    assert_eq!('A', FileStatus::Added.letter());
    assert_eq!('M', FileStatus::Modified.letter());
    assert_eq!('R', FileStatus::Removed.letter());
}

#[test]
fn change_renders_as_letter_space_path() {
    let change = WorkingCopyChange::new(FileStatus::Added, text("src/lib.rs"));
    assert_eq!("A src/lib.rs", change.render());
    let change = WorkingCopyChange::new(FileStatus::Removed, text("docs/old notes.md"));
    assert_eq!("R docs/old notes.md", change.render());
}

#[test]
fn change_gives_its_parts() {
    let change = WorkingCopyChange::new(FileStatus::Modified, text("a/b/c"));
    assert_eq!(FileStatus::Modified, change.status());
    assert_eq!("a/b/c", change.path());
}

#[test]
fn details_render_without_bookmark_or_description() {
    let details = CommitDetails::new(text("oonwmqxn"), text("a3d80cec"), false, None, None);
    assert_eq!("oonwmqxn a3d80cec (no description set)", details.render());
}

#[test]
fn details_render_with_emptiness_marker() {
    assert_eq!(
        "zzzzzzzz 00000000 (empty) (no description set)",
        details_of_empty_commit().render()
    );
}

#[test]
fn details_render_with_bookmark() {
    assert_eq!(
        "qnxonnkx 60be3879 main | (no description set)",
        details_with_bookmark().render()
    );
}

#[test]
fn details_render_with_everything() {
    let details = CommitDetails::new(
        text("xtryyrqp"),
        text("75d612e0"),
        true,
        Some(text("main@origin")),
        Some(text("main branch")),
    );
    assert_eq!(
        "xtryyrqp 75d612e0 (empty) main@origin | main branch",
        details.render()
    );
}

#[test]
fn details_render_an_empty_description_as_nothing() {
    let details = CommitDetails::new(text("kk"), text("00"), false, None, Some(text("")));
    assert_eq!("kk 00 ", details.render());
}

#[test]
fn commit_renders_as_its_details_without_a_label() {
    let working = Commit::WorkingCopy(details_with_bookmark());
    let parent = Commit::ParentCommit(details_with_bookmark());
    assert_eq!("qnxonnkx 60be3879 main | (no description set)", working.render());
    assert_eq!(working.render(), parent.render());
}

#[test]
fn status_renders_one_line_for_each_part() {
    let status = Status::new(
        vec![
            WorkingCopyChange::new(FileStatus::Added, text("src/lib.rs")),
            WorkingCopyChange::new(FileStatus::Modified, text("src/main.rs")),
        ],
        Commit::WorkingCopy(details_with_bookmark()),
        Commit::ParentCommit(details_of_empty_commit()),
    );
    assert_eq!(
        "A src/lib.rs\nM src/main.rs\n\
         Working copy : qnxonnkx 60be3879 main | (no description set)\n\
         Parent commit: zzzzzzzz 00000000 (empty) (no description set)",
        status.render()
    );
}

#[test]
fn status_without_changes_renders_the_two_commits() {
    let status = Status::new(
        Vec::new(),
        Commit::WorkingCopy(details_with_bookmark()),
        Commit::ParentCommit(details_of_empty_commit()),
    );
    assert_eq!(
        "Working copy : qnxonnkx 60be3879 main | (no description set)\n\
         Parent commit: zzzzzzzz 00000000 (empty) (no description set)",
        status.render()
    );
}

#[test]
fn details_give_their_parts() {
    let details = CommitDetails::new(
        text("xtryyrqp"),
        text("75d612e0"),
        false,
        Some(text("main@origin")),
        Some(text("main branch")),
    );
    assert_eq!("xtryyrqp", details.change_id());
    assert_eq!("75d612e0", details.commit_id());
    assert!(!details.empty());
    assert_eq!(Some(&text("main@origin")), details.bookmark());
    assert_eq!("main branch", details.description());
    assert_eq!(Some(&text("main branch")), details.stored_description());
}

#[test]
fn absent_description_is_shown_as_the_default_text() {
    let details = details_of_empty_commit();
    assert!(details.empty());
    assert_eq!(None, details.bookmark());
    assert_eq!("(no description set)", details.description());
    assert_eq!(None, details.stored_description());
}

#[test]
fn empty_description_is_not_an_absent_one() {
    let details = CommitDetails::new(text("kk"), text("00"), false, None, Some(text("")));
    assert_eq!("", details.description());
    assert_eq!(Some(&text("")), details.stored_description());
}

#[test]
fn commit_gives_the_parts_of_its_details_in_either_role() {
    let working = Commit::WorkingCopy(details_with_bookmark());
    assert_eq!("qnxonnkx", working.change_id());
    assert_eq!("60be3879", working.commit_id());
    assert!(!working.empty());
    assert_eq!(Some(&text("main")), working.bookmark());
    assert_eq!("(no description set)", working.description());
    assert_eq!(&details_with_bookmark(), working.details());

    let parent = Commit::ParentCommit(details_of_empty_commit());
    assert_eq!("zzzzzzzz", parent.change_id());
    assert_eq!("00000000", parent.commit_id());
    assert!(parent.empty());
    assert_eq!(None, parent.bookmark());
    assert_eq!("(no description set)", parent.description());
    assert_eq!(&details_of_empty_commit(), parent.details());
}

#[test]
fn status_gives_its_parts() {
    let status = Status::new(
        vec![WorkingCopyChange::new(FileStatus::Added, text("src/lib.rs"))],
        Commit::WorkingCopy(details_with_bookmark()),
        Commit::ParentCommit(details_of_empty_commit()),
    );
    assert_eq!(
        &[WorkingCopyChange::new(FileStatus::Added, text("src/lib.rs"))][..],
        status.file_changes()
    );
    assert_eq!(&Commit::WorkingCopy(details_with_bookmark()), status.working_copy());
    assert_eq!(&Commit::ParentCommit(details_of_empty_commit()), status.parent_commit());
}

#[test]
fn roles_tell_commits_apart() {
    assert_ne!(
        Commit::WorkingCopy(details_with_bookmark()),
        Commit::ParentCommit(details_with_bookmark())
    );
}
