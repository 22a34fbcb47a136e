use jj_status_parser::{
    change_id, commit_details, commit_id, description, file_change, file_changes, parent_commit,
    working_copy, Commit, CommitDetails, FileStatus, Status, WorkingCopyChange,
};
use std::str::FromStr;
use winnow::ascii::newline;
use winnow::error::ContextError;
use winnow::Parser;

const HEADER: &str = "Working copy changes:";
const FILE1: &str = "A src/lib.rs";
const FILE2: &str = "A src/main.rs";
const WORKING: &str = "Working copy : qnxonnkx 60be3879 main | (no description set)";
const PARENT: &str = "Parent commit: zzzzzzzz 00000000 (empty) (no description set)";

fn s(text: &str) -> String {
    String::from(text)
}

fn working_main() -> Commit {
    Commit::WorkingCopy(CommitDetails::new(
        s("qnxonnkx"),
        s("60be3879"),
        false,
        Some(s("main")),
        None,
    ))
}

fn parent_root() -> Commit {
    Commit::ParentCommit(CommitDetails::new(
        s("zzzzzzzz"),
        s("00000000"),
        true,
        None,
        None,
    ))
}

#[test]
fn test_parse_change_id() {
    let mut input = "qnxonnkx";
    let expected = String::from("qnxonnkx");
    let actual = change_id(&mut input);
    assert_eq!(Ok(expected), actual);
    assert_eq!("", input);
}

#[test]
fn test_parse_commit_id() {
    let mut input = "60be3879";
    let expected = String::from("60be3879");
    let actual = commit_id(&mut input);
    assert_eq!(Ok(expected), actual);
    assert_eq!("", input);
}

#[test]
fn test_parse_file_change() {
    let mut input = FILE1;
    let expected = WorkingCopyChange::new(FileStatus::Added, s("src/lib.rs"));
    let actual = file_change(&mut input);
    assert_eq!(Ok(expected), actual);
    assert_eq!("", input);
}

#[test]
fn test_parse_file_changes() {
    let input = [HEADER, FILE1, FILE2].join("\n");
    let mut input = input.as_str();

    let expected = vec![
        WorkingCopyChange::new(FileStatus::Added, s("src/lib.rs")),
        WorkingCopyChange::new(FileStatus::Added, s("src/main.rs")),
    ];
    let actual = file_changes(&mut input);
    assert_eq!(Ok(expected), actual);
    assert_eq!("", input);
}

#[test]
fn test_parse_details_1() {
    let mut input = "qnxonnkx 60be3879 main | (no description set)";
    let expected = CommitDetails::new(
        String::from("qnxonnkx"),
        String::from("60be3879"),
        false,
        Some(String::from("main")),
        None,
    );
    let actual = commit_details(&mut input);
    assert_eq!(Ok(expected), actual)
}

#[test]
fn test_parse_details_2() {
    let mut input = "zzzzzzzz 00000000 (empty) (no description set)";
    let expected = CommitDetails::new(s("zzzzzzzz"), s("00000000"), true, None, None);
    let actual = commit_details(&mut input);
    assert_eq!(Ok(expected), actual)
}

#[test]
fn test_parse_working_copy() {
    let mut input = WORKING;
    let expected = Commit::WorkingCopy(CommitDetails::new(
        s("qnxonnkx"),
        s("60be3879"),
        false,
        Some(String::from("main")),
        None,
    ));
    let actual = working_copy(&mut input);
    assert_eq!(Ok(expected), actual);
    assert_eq!("", input);
}

#[test]
fn test_parse_empty_description() {
    let mut input = "(no description set)";
    let expected = None;
    let actual = description(&mut input);
    assert_eq!(Ok(expected), actual);
    assert_eq!("", input);
}

#[test]
fn test_parse_parent_commit() {
    let mut input = PARENT;
    let expected = Commit::ParentCommit(CommitDetails::new(
        s("zzzzzzzz"),
        s("00000000"),
        true,
        None,
        None,
    ));
    let actual = parent_commit(&mut input);
    assert_eq!(Ok(expected), actual);
    assert_eq!("", input);
}

#[test]
fn test_status_from_str() {
    let input = [HEADER, FILE1, FILE2, WORKING, PARENT].join("\n");

    let expected = Status::new(
        vec![
            WorkingCopyChange::new(FileStatus::Added, s("src/lib.rs")),
            WorkingCopyChange::new(FileStatus::Added, s("src/main.rs")),
        ],
        working_main(),
        parent_root(),
    );
    let actual = Status::from_str(&input);
    assert_eq!(Ok(expected), actual);
}

#[test]
fn test_no_changes_status_from_str() {
    let input = ["The working copy has no changes.", WORKING, PARENT].join("\n");

    let expected = Status::new(Vec::new(), working_main(), parent_root());
    let actual = Status::from_str(&input);
    assert_eq!(Ok(expected), actual);
}

#[test]
fn test_parse_working_copy_2() {
    let mut input = "Working copy : oonwmqxn a3d80cec (no description set)";
    let expected = Commit::WorkingCopy(CommitDetails::new(
        s("oonwmqxn"),
        s("a3d80cec"),
        false,
        None,
        None,
    ));
    let actual = working_copy(&mut input);
    assert_eq!(Ok(expected), actual);
    assert_eq!("", input);
}

#[test]
fn test_parse_parent_commit_2() {
    let mut input = "Parent commit: xtryyrqp 75d612e0 main@origin | main branch";
    let expected = Commit::ParentCommit(CommitDetails::new(
        s("xtryyrqp"),
        s("75d612e0"),
        false,
        Some(s("main@origin")),
        Some(s("main branch")),
    ));
    let actual = parent_commit(&mut input);
    assert_eq!(Ok(expected), actual);
    assert_eq!("", input);
}

#[test]
fn test_status_from_str_2() {
    let mut input = r#"Working copy changes:
M src/lib.rs
Working copy : oonwmqxn a3d80cec (no description set)
Parent commit: xtryyrqp 75d612e0 main@origin | main branch"#;

    let _ = file_changes(&mut input).unwrap();
    assert_eq!(
        r#"
Working copy : oonwmqxn a3d80cec (no description set)
Parent commit: xtryyrqp 75d612e0 main@origin | main branch"#,
        input
    );

    let _ = newline::<&str, ContextError>
        .parse_next(&mut input)
        .unwrap();
    assert_eq!(
        r#"Working copy : oonwmqxn a3d80cec (no description set)
Parent commit: xtryyrqp 75d612e0 main@origin | main branch"#,
        input
    );

    let foo = working_copy(&mut input).unwrap();
    assert_eq!(
        Commit::WorkingCopy(CommitDetails::new(
            s("oonwmqxn"),
            s("a3d80cec"),
            false,
            None,
            None
        )),
        foo
    );
    assert_eq!(
        r#"
Parent commit: xtryyrqp 75d612e0 main@origin | main branch"#,
        input
    );

    let _ = newline::<&str, ContextError>
        .parse_next(&mut input)
        .unwrap();
    assert_eq!(
        "Parent commit: xtryyrqp 75d612e0 main@origin | main branch",
        input
    );

    let _ = parent_commit(&mut input).unwrap();
    assert_eq!("", input);

    let input = r#"Working copy changes:
M src/lib.rs
Working copy : oonwmqxn a3d80cec (no description set)
Parent commit: xtryyrqp 75d612e0 main@origin | main branch"#;

    let expected = Status::new(
        vec![WorkingCopyChange::new(FileStatus::Modified, s("src/lib.rs"))],
        Commit::WorkingCopy(CommitDetails::new(
            s("oonwmqxn"),
            s("a3d80cec"),
            false,
            None,
            None,
        )),
        Commit::ParentCommit(CommitDetails::new(
            s("xtryyrqp"),
            s("75d612e0"),
            false,
            Some(s("main@origin")),
            Some(s("main branch")),
        )),
    );
    let actual = Status::from_str(&input);
    assert_eq!(Ok(expected), actual);
}

#[test]
fn test_status_no_changes() {
    let input = [WORKING, PARENT].join("\n");
    let expected = Status::new(Vec::new(), working_main(), parent_root());
    let actual = Status::from_str(&input);
    assert_eq!(Ok(expected), actual);
}
