//! Parser for the textual report that a version-control tool prints for its
//! "status" command: the list of changed files, the working-copy commit and
//! its parent commit.
//!
//! The grammar is stated as mathematical functions on sequences of characters
//! (the `spec_*` functions), and every executable rule is proved to compute
//! exactly what the corresponding function says, failures included.
//!
//! - [`text`]: character classes, runs, literals, and a text held for parsing.
//! - [`changes`], [`commit`], [`status`]: the grammar, each rule applied at a
//!   position of a text.
//! - [`stream`]: the same rules applied to the front of a string slice.
//! - [`model`]: the parsed values, their accessors and their rendering.
//! - [`roundtrip`]: rendering a report and parsing it gives the report back.
//! - [`error`]: positional failures.
pub mod changes;
pub mod commit;
pub mod error;
pub mod model;
pub mod roundtrip;
pub mod status;
pub mod stream;
pub mod text;

pub use error::{Expected, ParseError};
pub use model::{Commit, CommitDetails, FileStatus, Status, WorkingCopyChange};
pub use stream::{
    bookmark, change_id, commit_details, commit_id, description, empty, file_change,
    file_changes, file_status, parent_commit, part, path, status, working_copy,
};
