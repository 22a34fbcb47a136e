use jj_status_parser::{
    commit_details, file_change, Commit, CommitDetails, FileStatus, Status, WorkingCopyChange,
};

fn text(value: &str) -> String {
    String::from(value)
}

fn reports() -> Vec<Status> {
    vec![
        Status::new(
            Vec::new(),
            Commit::WorkingCopy(CommitDetails::new(text("k"), text("0"), false, None, None)),
            Commit::ParentCommit(CommitDetails::new(text("z"), text("f"), true, None, None)),
        ),
        Status::new(
            vec![WorkingCopyChange::new(FileStatus::Added, text("src/lib.rs"))],
            Commit::WorkingCopy(CommitDetails::new(
                text("qnxonnkx"),
                text("60be3879"),
                false,
                Some(text("main")),
                None,
            )),
            Commit::ParentCommit(CommitDetails::new(
                text("zzzzzzzz"),
                text("00000000"),
                true,
                None,
                None,
            )),
        ),
        Status::new(
            vec![
                WorkingCopyChange::new(FileStatus::Modified, text("a")),
                WorkingCopyChange::new(FileStatus::Removed, text("b/c d/e")),
                WorkingCopyChange::new(FileStatus::Added, text("Working copy : x")),
            ],
            Commit::WorkingCopy(CommitDetails::new(
                text("oonwmqxn"),
                text("a3d80cec"),
                true,
                Some(text("(empty) feature x ")),
                Some(text("one | two | three")),
            )),
            Commit::ParentCommit(CommitDetails::new(
                text("xtryyrqp"),
                text("75d612e0"),
                false,
                Some(text("main@origin")),
                Some(text("")),
            )),
        ),
        Status::new(
            Vec::new(),
            Commit::WorkingCopy(CommitDetails::new(
                text("kk"),
                text("00"),
                false,
                None,
                Some(text("")),
            )),
            Commit::ParentCommit(CommitDetails::new(
                text("zz"),
                text("ff"),
                true,
                None,
                Some(text("(empty) again")),
            )),
        ),
    ]
}

#[test]
fn rendering_parses_to_the_report_that_was_rendered() {
    for report in reports() {
        let rendered = report.render();
        assert_eq!(Ok(report), Status::parse(&rendered));
    }
}

#[test]
fn parsing_is_idempotent_on_rendered_output() {
    let inputs = [
        "Working copy changes:\nM src/lib.rs\nWorking copy : oonwmqxn a3d80cec (no description set)\nParent commit: xtryyrqp 75d612e0 main@origin | main branch",
        "The working copy has no changes.\nWorking copy : qnxonnkx 60be3879 main | (no description set)\nParent commit: zzzzzzzz 00000000 (empty) (no description set)",
        "A  a/b\nR\tc\nWorking copy \t:\tqnx  12   (empty)   mark |text | more\nParent commit:  zz\t00 \nnot reached",
        "Working copy : qnx 12 \nParent commit: zz 00 x |",
    ];
    let mut parsed = 0;
    for input in inputs {
        if let Ok(report) = Status::parse(input) {
            parsed += 1;
            let rendered = report.render();
            assert_eq!(Ok(report), Status::parse(&rendered));
            let again = Status::parse(&rendered).unwrap();
            assert_eq!(rendered, again.render());
        }
    }
    assert_eq!(3, parsed);
}

#[test]
fn rendering_keeps_the_fields_of_a_parsed_report() {
    let input = "Working copy changes:\nM  src/lib.rs\nWorking copy :  oonwmqxn   a3d80cec   (no description set)\nParent commit:\txtryyrqp 75d612e0 main@origin |main branch";
    let report = Status::parse(input).unwrap();
    let rendered = report.render();
    assert_eq!(
        "M src/lib.rs\nWorking copy : oonwmqxn a3d80cec (no description set)\nParent commit: xtryyrqp 75d612e0 main@origin | main branch",
        rendered
    );
    let again = Status::parse(&rendered).unwrap();
    assert_eq!(report.file_changes(), again.file_changes());
    for (first, second) in [
        (report.working_copy(), again.working_copy()),
        (report.parent_commit(), again.parent_commit()),
    ] {
        assert_eq!(first.change_id(), second.change_id());
        assert_eq!(first.commit_id(), second.commit_id());
        assert_eq!(first.empty(), second.empty());
        assert_eq!(first.bookmark(), second.bookmark());
        assert_eq!(
            first.details().stored_description(),
            second.details().stored_description()
        );
    }
}

#[test]
fn rendered_details_parse_to_the_details() {
    let details = CommitDetails::new(
        text("xtryyrqp"),
        text("75d612e0"),
        true,
        Some(text("main@origin")),
        Some(text("main branch")),
    );
    let rendered = details.render();
    let mut input = rendered.as_str();
    assert_eq!(Ok(details), commit_details(&mut input));
    assert_eq!("", input);
}

#[test]
fn rendered_change_parses_to_the_change() {
    let change = WorkingCopyChange::new(FileStatus::Removed, text("a/b c/d.txt"));
    let rendered = change.render();
    let mut input = rendered.as_str();
    assert_eq!(Ok(change), file_change(&mut input));
    assert_eq!("", input);
}
