//! Positional parse failures and the mathematical outcome of a grammar rule.
use vstd::prelude::*;

verus! {

/// The grammar element that a rule needed at the position where it gave up.
#[derive(Debug, Clone, Copy, PartialEq, Eq)]
pub enum Expected {
    /// One of the letters `A`, `R`, `M`.
    StatusLetter,
    /// A non-empty path segment.
    PathSegment,
    /// At least one space or tab.
    Whitespace,
    /// A non-empty run of letters `k` to `z`.
    ChangeId,
    /// A non-empty run of digits `0` to `9` and letters `a` to `f`.
    CommitId,
    /// A non-empty bookmark closed by ` |` before the line ends.
    BookmarkDelimiter,
    /// The label `Working copy`.
    WorkingCopyLabel,
    /// The colon that ends the working-copy label.
    Colon,
    /// The label `Parent commit:`.
    ParentCommitLabel,
    /// A line feed.
    Newline,
    /// The end of the text.
    EndOfInput,
}

/// A failed parse: what was expected, and the offset (counted in characters
/// from the start of the text) at which it was missing.
#[derive(Debug, Clone, Copy, PartialEq, Eq)]
pub struct ParseError {
    pub offset: usize,
    pub expected: Expected,
}

/// What a grammar rule yields at a position of a text, as a mathematical value:
/// either the value it recognises together with the position just behind it,
/// or the position and kind of the failure.
pub enum Outcome<T> {
    Accept { value: T, end: int },
    Reject { offset: int, expected: Expected },
}

impl<T> Outcome<T> {
    /// The same failure, as the outcome of a rule that yields another type.
    pub open spec fn rejection<U>(self) -> Outcome<U> {
        Outcome::Reject { offset: self->offset, expected: self->expected }
    }
}

/// The result of an executable rule applied at a position agrees with `outcome`.
pub open spec fn reports<T: DeepView>(
    result: Result<(T, usize), ParseError>,
    outcome: Outcome<T::V>,
) -> bool {
    match outcome {
        Outcome::Accept { value, end } => {
            &&& result matches Ok((v, e))
            &&& v.deep_view() == value
            &&& e as int == end
        },
        Outcome::Reject { offset, expected } => {
            &&& result matches Err(failure)
            &&& failure.offset as int == offset
            &&& failure.expected == expected
        },
    }
}

/// The result of parsing a whole text agrees with `outcome`.
pub open spec fn reports_whole<T: DeepView>(
    result: Result<T, ParseError>,
    outcome: Outcome<T::V>,
) -> bool {
    match outcome {
        Outcome::Accept { value, .. } => result matches Ok(v) && v.deep_view() == value,
        Outcome::Reject { offset, expected } => {
            &&& result matches Err(failure)
            &&& failure.offset as int == offset
            &&& failure.expected == expected
        },
    }
}

/// The result of an executable rule applied to the front of `input`, which
/// leaves `rest`, agrees with `outcome`: on success the recognised characters
/// are gone from the front, on failure nothing is consumed.
pub open spec fn reports_front<T: DeepView>(
    result: Result<T, ParseError>,
    input: Seq<char>,
    rest: Seq<char>,
    outcome: Outcome<T::V>,
) -> bool {
    match outcome {
        Outcome::Accept { value, end } => {
            &&& result matches Ok(v)
            &&& v.deep_view() == value
            &&& rest == input.skip(end)
        },
        Outcome::Reject { offset, expected } => {
            &&& result matches Err(failure)
            &&& failure.offset as int == offset
            &&& failure.expected == expected
            &&& rest == input
        },
    }
}

impl Expected {
    /// The name of the grammar element, for messages.
    pub open spec fn name(self) -> Seq<char> {
        match self {
            Expected::StatusLetter => "status letter"@,
            Expected::PathSegment => "path segment"@,
            Expected::Whitespace => "whitespace"@,
            Expected::ChangeId => "change id"@,
            Expected::CommitId => "commit id"@,
            Expected::BookmarkDelimiter => "bookmark delimiter"@,
            Expected::WorkingCopyLabel => "working-copy label"@,
            Expected::Colon => "colon"@,
            Expected::ParentCommitLabel => "parent-commit label"@,
            Expected::Newline => "newline"@,
            Expected::EndOfInput => "end of input"@,
        }
    }

    /// Returns the name of the grammar element.
    pub fn describe(&self) -> (text: &'static str)
        ensures
            text@ == self.name(),
    {
        match self {
            Expected::StatusLetter => "status letter",
            Expected::PathSegment => "path segment",
            Expected::Whitespace => "whitespace",
            Expected::ChangeId => "change id",
            Expected::CommitId => "commit id",
            Expected::BookmarkDelimiter => "bookmark delimiter",
            Expected::WorkingCopyLabel => "working-copy label",
            Expected::Colon => "colon",
            Expected::ParentCommitLabel => "parent-commit label",
            Expected::Newline => "newline",
            Expected::EndOfInput => "end of input",
        }
    }
}

} // verus!
