use jj_status_parser::{bookmark, change_id, commit_id, empty, path};
use winnow::combinator::{opt, separated};
use winnow::error::ContextError;
use winnow::token::{take_till, take_until, take_while};
use winnow::Parser;

const SAMPLES: [&str; 24] = [
    "",
    "qnxonnkx",
    "qnxonnkx 60be3879",
    "60be3879 main",
    "kzj",
    "jkz",
    "abcdefg",
    "0123456789abcdefg",
    "zzzz\nkkkk",
    "main | (no description set)",
    "main@origin | main branch",
    " | x",
    " |",
    "a |",
    "a b  | c | d",
    "first line\nsecond | line",
    "no delimiter",
    "src/lib.rs",
    "src/lib.rs\nWorking copy",
    "src//lib.rs",
    "src/",
    "/src",
    "(empty) (no description set)",
    "(empty)",
];

fn run_of_change_letters<'a>(input: &mut &'a str) -> Result<&'a str, ContextError> {
    take_while(1.., 'k'..='z').parse_next(input)
}

fn run_of_commit_digits<'a>(input: &mut &'a str) -> Result<&'a str, ContextError> {
    take_while(1.., ('0'..='9', 'a'..='f')).parse_next(input)
}

fn segment<'a>(input: &mut &'a str) -> Result<&'a str, ContextError> {
    take_till(1.., ['/', '\n']).parse_next(input)
}

fn segments<'a>(input: &mut &'a str) -> Result<Vec<&'a str>, ContextError> {
    separated(1.., segment, "/").parse_next(input)
}

fn text_up_to_delimiter<'a>(input: &mut &'a str) -> Result<&'a str, ContextError> {
    take_until(1.., " |").parse_next(input)
}

fn delimiter<'a>(input: &mut &'a str) -> Result<&'a str, ContextError> {
    " |".parse_next(input)
}

fn marker<'a>(input: &mut &'a str) -> Result<Option<&'a str>, ContextError> {
    opt("(empty) ").parse_next(input)
}

#[test]
fn change_id_agrees_with_a_run_of_its_letters() {
    for sample in SAMPLES {
        let mut ours = sample;
        let mut theirs = sample;
        let expected = run_of_change_letters(&mut theirs).ok().map(String::from);
        assert_eq!(expected, change_id(&mut ours).ok());
        assert_eq!(theirs, ours);
    }
}

#[test]
fn commit_id_agrees_with_a_run_of_its_digits() {
    for sample in SAMPLES {
        let mut ours = sample;
        let mut theirs = sample;
        let expected = run_of_commit_digits(&mut theirs).ok().map(String::from);
        assert_eq!(expected, commit_id(&mut ours).ok());
        assert_eq!(theirs, ours);
    }
}

#[test]
fn path_agrees_with_segments_separated_by_slashes() {
    for sample in SAMPLES {
        let mut ours = sample;
        let mut theirs = sample;
        let expected = segments(&mut theirs).ok().map(|parts| parts.join("/"));
        assert_eq!(expected, path(&mut ours).ok());
        assert_eq!(theirs, ours);
    }
}

#[test]
fn bookmark_agrees_with_the_text_up_to_the_first_delimiter_on_the_line() {
    for sample in SAMPLES {
        let mut ours = sample;
        let mut theirs = sample;
        let expected = match text_up_to_delimiter(&mut theirs) {
            Ok(found) if !found.contains('\n') => {
                delimiter(&mut theirs).unwrap();
                Some(String::from(found))
            }
            _ => {
                theirs = sample;
                None
            }
        };
        assert_eq!(expected, bookmark(&mut ours).ok());
        assert_eq!(theirs, ours);
    }
}

#[test]
fn emptiness_marker_agrees_with_an_optional_literal() {
    for sample in SAMPLES {
        let mut ours = sample;
        let mut theirs = sample;
        let expected = marker(&mut theirs).unwrap().is_some();
        assert_eq!(Ok(expected), empty(&mut ours));
        assert_eq!(theirs, ours);
    }
}
