//! The errors of the library.

use crate::text;
use crate::time;
use crate::time::Duration;
use vstd::prelude::*;

verus! {

/// Errors returned by the public functions.
#[derive(Debug)]
pub enum Error {
    InvalidDimensions { cols: u16, rows: u16 },
    ScreenTooLarge { cols: u16, rows: u16, max_cells: usize },
    InvalidTimeout { field: &'static str },
    InvalidKey(String),
    UnsupportedKey(String, String),
    OutOfBounds { col: u16, row: u16, cols: u16, rows: u16 },
    StrictLocator { count: usize, locations: String },
    Timeout { timeout: Duration, context: String },
    ProcessExited(String),
    ProcessClosed,
    Launch { command: String, source: String },
    Io(String),
    Config { path: String, message: String },
    SnapshotMissing { name: String, path: String },
    SnapshotMismatch { name: String, diff: String },
    Runner(String),
}

/// What the functions of the library return.
pub type Result<T> = std::result::Result<T, Error>;

impl Error {
    /// The message of the error.
    pub open spec fn describe(self) -> Seq<char> {
        match self {
            Error::InvalidDimensions { cols, rows } => "invalid terminal dimensions "@
                + text::decimal(cols as nat) + "x"@ + text::decimal(rows as nat)
                + "; both values must be greater than zero"@,
            Error::ScreenTooLarge { cols, rows, max_cells } => "terminal dimensions "@
                + text::decimal(cols as nat) + "x"@ + text::decimal(rows as nat)
                + " exceed the limit of "@ + text::decimal(max_cells as nat) + " cells"@,
            Error::InvalidTimeout { field } => "invalid "@ + field@
                + "; timeout must be greater than zero and at most 24 hours"@,
            Error::InvalidKey(key) => "invalid key expression `"@ + key@ + "`"@,
            Error::UnsupportedKey(key, reason) => "unsupported key combination `"@ + key@ + "`: "@
                + reason@,
            Error::OutOfBounds { col, row, cols, rows } => "terminal coordinate ("@
                + text::decimal(col as nat) + ", "@ + text::decimal(row as nat)
                + ") is outside the "@ + text::decimal(cols as nat) + "x"@
                + text::decimal(rows as nat) + " screen"@,
            Error::StrictLocator { count, locations } => "strict locator matched "@
                + text::decimal(count as nat) + " locations: "@ + locations@,
            Error::Timeout { timeout, context } => "operation timed out after "@
                + timeout.described() + ": "@ + context@,
            Error::ProcessExited(status) => "process exited while waiting: "@ + status@,
            Error::ProcessClosed => "process is already closed"@,
            Error::Launch { command, source } => "failed to launch `"@ + command@ + "`: "@
                + source@,
            Error::Io(message) => "I/O error: "@ + message@,
            Error::Config { path, message } => "invalid configuration in "@ + path@ + ": "@
                + message@,
            Error::SnapshotMissing { name, path } => "snapshot `"@ + name@ + "` is missing at "@
                + path@ + "; rerun with update mode enabled"@,
            Error::SnapshotMismatch { name, diff } => "snapshot `"@ + name@
                + "` does not match\n"@ + diff@,
            Error::Runner(message) => "runner error: "@ + message@,
        }
    }

    /// The message of the error.
    pub fn message(&self) -> (message: String)
        ensures
            message@ == self.describe(),
    {
        match self {
            Error::InvalidDimensions { cols, rows } => "invalid terminal dimensions ".to_owned()
                .concat(text::decimal_text(*cols as u64).as_str()).concat("x").concat(
                text::decimal_text(*rows as u64).as_str(),
            ).concat("; both values must be greater than zero"),
            Error::ScreenTooLarge { cols, rows, max_cells } => "terminal dimensions ".to_owned()
                .concat(text::decimal_text(*cols as u64).as_str()).concat("x").concat(
                text::decimal_text(*rows as u64).as_str(),
            ).concat(" exceed the limit of ").concat(
                text::decimal_text(*max_cells as u64).as_str(),
            ).concat(" cells"),
            Error::InvalidTimeout { field } => "invalid ".to_owned().concat(field).concat(
                "; timeout must be greater than zero and at most 24 hours",
            ),
            Error::InvalidKey(key) => "invalid key expression `".to_owned().concat(
                key.as_str(),
            ).concat("`"),
            Error::UnsupportedKey(key, reason) => "unsupported key combination `".to_owned()
                .concat(key.as_str()).concat("`: ").concat(reason.as_str()),
            Error::OutOfBounds { col, row, cols, rows } => "terminal coordinate (".to_owned()
                .concat(text::decimal_text(*col as u64).as_str()).concat(", ").concat(
                text::decimal_text(*row as u64).as_str(),
            ).concat(") is outside the ").concat(
                text::decimal_text(*cols as u64).as_str(),
            ).concat("x").concat(text::decimal_text(*rows as u64).as_str()).concat(" screen"),
            Error::StrictLocator { count, locations } => "strict locator matched ".to_owned()
                .concat(text::decimal_text(*count as u64).as_str()).concat(" locations: ").concat(
                locations.as_str(),
            ),
            Error::Timeout { timeout, context } => "operation timed out after ".to_owned().concat(
                timeout.text().as_str(),
            ).concat(": ").concat(context.as_str()),
            Error::ProcessExited(status) => "process exited while waiting: ".to_owned().concat(
                status.as_str(),
            ),
            Error::ProcessClosed => "process is already closed".to_owned(),
            Error::Launch { command, source } => "failed to launch `".to_owned().concat(
                command.as_str(),
            ).concat("`: ").concat(source.as_str()),
            Error::Io(message) => "I/O error: ".to_owned().concat(message.as_str()),
            Error::Config { path, message } => "invalid configuration in ".to_owned().concat(
                path.as_str(),
            ).concat(": ").concat(message.as_str()),
            Error::SnapshotMissing { name, path } => "snapshot `".to_owned().concat(
                name.as_str(),
            ).concat("` is missing at ").concat(path.as_str()).concat(
                "; rerun with update mode enabled",
            ),
            Error::SnapshotMismatch { name, diff } => "snapshot `".to_owned().concat(
                name.as_str(),
            ).concat("` does not match\n").concat(diff.as_str()),
            Error::Runner(message) => "runner error: ".to_owned().concat(message.as_str()),
        }
    }
}

/// Refuses a timeout that is zero or longer than a day.
pub fn validate_timeout(timeout: Duration, field: &'static str) -> (result: Result<()>)
    ensures
        result == if time::is_timeout(timeout) {
            Ok(())
        } else {
            Err::<(), Error>(Error::InvalidTimeout { field })
        },
{
    let day = Duration::from_secs(86_400);
    if timeout.is_zero() || !day.at_least(timeout) {
        Err(Error::InvalidTimeout { field })
    } else {
        Ok(())
    }
}

} // verus!
