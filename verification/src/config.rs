//! The configuration of a suite of tests.

use crate::error::{Error, Result};
use crate::model;
use crate::path;
use crate::report::Reporter;
use crate::screen::validate_dimensions;
use crate::text;
use vstd::prelude::*;

verus! {

/// Longest timeout that a configuration may ask for, in milliseconds.
pub const MAX_TIMEOUT_MS: u64 = 86_400_000;

/// A test of a configuration.
#[derive(Debug)]
pub struct ConfiguredTest {
    pub name: String,
    pub group: Option<String>,
    pub command: String,
    pub args: Vec<String>,
    pub cwd: Option<Vec<u8>>,
    pub cols: Option<u16>,
    pub rows: Option<u16>,
    pub input: Option<String>,
    pub expect_text: Option<String>,
    /// Opts out of the assertion that the process ends with success. It must
    /// stay alive instead until a short time is over.
    pub allow_running: bool,
    /// How long the process must stay alive; 50 milliseconds if not given.
    pub allow_running_grace_ms: Option<u64>,
    /// Waits for any end of the process.
    pub expect_exit: bool,
    /// Waits for the end of the process with this code.
    pub expect_exit_code: Option<i32>,
    pub skip: bool,
    pub focus: bool,
    pub timeout_ms: Option<u64>,
    /// How long closing may take; 600 milliseconds if not given.
    pub shutdown_timeout_ms: Option<u64>,
}

impl Default for ConfiguredTest {
    fn default() -> (test: ConfiguredTest)
        ensures
            test.name@ == Seq::<char>::empty(),
            test.group is None,
            test.command@ == Seq::<char>::empty(),
            test.args@ == Seq::<String>::empty(),
            test.cwd is None,
            test.cols is None,
            test.rows is None,
            test.input is None,
            test.expect_text is None,
            !test.allow_running,
            test.allow_running_grace_ms is None,
            !test.expect_exit,
            test.expect_exit_code is None,
            !test.skip,
            !test.focus,
            test.timeout_ms is None,
            test.shutdown_timeout_ms is None,
    {
        ConfiguredTest {
            name: String::new(),
            group: None,
            command: String::new(),
            args: Vec::new(),
            cwd: None,
            cols: None,
            rows: None,
            input: None,
            expect_text: None,
            allow_running: false,
            allow_running_grace_ms: None,
            expect_exit: false,
            expect_exit_code: None,
            skip: false,
            focus: false,
            timeout_ms: None,
            shutdown_timeout_ms: None,
        }
    }
}

/// A configuration.
#[derive(Debug)]
pub struct Config {
    pub timeout_ms: u64,
    pub reporter: Reporter,
    pub tests: Vec<ConfiguredTest>,
}

impl Default for Config {
    fn default() -> (config: Config)
        ensures
            config.timeout_ms == 5_000,
            config.reporter == Reporter::List,
            config.tests@ == Seq::<ConfiguredTest>::empty(),
    {
        Config { timeout_ms: 5_000, reporter: Reporter::List, tests: Vec::new() }
    }
}

/// True for a number of milliseconds that is accepted.
pub open spec fn is_timeout_ms(value: u64) -> bool {
    1 <= value <= MAX_TIMEOUT_MS
}

pub open spec fn is_bad_timeout(value: Option<u64>) -> bool {
    value matches Some(value) && !is_timeout_ms(value)
}

fn bad_timeout(value: Option<u64>) -> (result: bool)
    ensures
        result == is_bad_timeout(value),
{
    match value {
        Some(value) => value < 1 || value > MAX_TIMEOUT_MS,
        None => false,
    }
}

/// The text of a bad timeout.
pub open spec fn bad_timeout_text(what: Seq<char>) -> Seq<char> {
    what + " must be greater than zero and at most "@ + text::decimal(MAX_TIMEOUT_MS as nat)
}

fn bad_timeout_message(what: String) -> (message: String)
    ensures
        message@ == bad_timeout_text(what@),
{
    what.concat(" must be greater than zero and at most ").concat(
        text::decimal_text(MAX_TIMEOUT_MS).as_str(),
    )
}

/// The columns and rows of a test.
pub open spec fn size_of(test: ConfiguredTest) -> (u16, u16) {
    (
        match test.cols {
            Some(cols) => cols,
            None => 80,
        },
        match test.rows {
            Some(rows) => rows,
            None => 24,
        },
    )
}

/// The error that the dimensions of a test get.
pub open spec fn size_error(cols: u16, rows: u16) -> Error {
    if cols == 0 || rows == 0 {
        Error::InvalidDimensions { cols, rows }
    } else {
        Error::ScreenTooLarge { cols, rows, max_cells: model::MAX_SCREEN_CELLS }
    }
}

/// What is wrong with a test, if anything is. Of several things the first one is
/// reported.
pub open spec fn fault_of(test: ConfiguredTest) -> Option<Seq<char>> {
    let (cols, rows) = size_of(test);
    if text::trimmed(test.name@).len() == 0 || text::trimmed(test.command@).len() == 0 {
        Some("every [[tests]] entry requires non-empty name and command"@)
    } else if is_bad_timeout(test.timeout_ms) {
        Some(bad_timeout_text("timeout_ms for test `"@ + test.name@ + "`"@))
    } else if !model::valid_dimensions(cols as int, rows as int) {
        Some(
            "invalid dimensions for test `"@ + test.name@ + "`: "@ + size_error(
                cols,
                rows,
            ).describe(),
        )
    } else if test.expect_text matches Some(text) && text@.len() == 0 {
        Some("expect_text for test `"@ + test.name@ + "` must not be empty"@)
    } else if test.allow_running && (test.expect_exit || test.expect_exit_code is Some) {
        Some(
            "allow_running cannot be combined with expect_exit or expect_exit_code for test `"@
                + test.name@ + "`"@,
        )
    } else if is_bad_timeout(test.allow_running_grace_ms) {
        Some(bad_timeout_text("allow_running_grace_ms for test `"@ + test.name@ + "`"@))
    } else if is_bad_timeout(test.shutdown_timeout_ms) {
        Some(bad_timeout_text("shutdown_timeout_ms for test `"@ + test.name@ + "`"@))
    } else {
        None
    }
}

/// Tells what is wrong with a test.
fn find_fault(test: &ConfiguredTest) -> (fault: Option<String>)
    ensures
        match fault {
            Some(message) => fault_of(*test) == Some(message@),
            None => fault_of(*test) is None,
        },
{
    if text::trim(test.name.as_str()).as_str().is_empty() || text::trim(
        test.command.as_str(),
    ).as_str().is_empty() {
        return Some("every [[tests]] entry requires non-empty name and command".to_owned());
    }
    if bad_timeout(test.timeout_ms) {
        return Some(
            bad_timeout_message(
                "timeout_ms for test `".to_owned().concat(test.name.as_str()).concat("`"),
            ),
        );
    }
    let cols: u16 = match test.cols {
        Some(cols) => cols,
        None => 80,
    };
    let rows: u16 = match test.rows {
        Some(rows) => rows,
        None => 24,
    };
    if let Err(error) = validate_dimensions(cols, rows) {
        return Some(
            "invalid dimensions for test `".to_owned().concat(test.name.as_str()).concat(
                "`: ",
            ).concat(error.message().as_str()),
        );
    }
    if let Some(text) = &test.expect_text {
        if text.as_str().is_empty() {
            return Some(
                "expect_text for test `".to_owned().concat(test.name.as_str()).concat(
                    "` must not be empty",
                ),
            );
        }
    }
    if test.allow_running && (test.expect_exit || test.expect_exit_code.is_some()) {
        return Some(
            "allow_running cannot be combined with expect_exit or expect_exit_code for test `"
                .to_owned().concat(test.name.as_str()).concat("`"),
        );
    }
    if bad_timeout(test.allow_running_grace_ms) {
        return Some(
            bad_timeout_message(
                "allow_running_grace_ms for test `".to_owned().concat(test.name.as_str()).concat(
                    "`",
                ),
            ),
        );
    }
    if bad_timeout(test.shutdown_timeout_ms) {
        return Some(
            bad_timeout_message(
                "shutdown_timeout_ms for test `".to_owned().concat(test.name.as_str()).concat("`"),
            ),
        );
    }
    None
}

/// The directory of a configuration file, seen from the current directory.
pub open spec fn directory_of(file: Seq<u8>, current: Seq<u8>) -> Seq<u8> {
    match path::parent_of(path::joined(current, file)) {
        Some(directory) => directory,
        None => seq![0x2eu8],
    }
}

/// The directory in which a test starts: its own one, seen from that of the
/// configuration file.
pub open spec fn resolved_cwd(test: ConfiguredTest, directory: Seq<u8>) -> Seq<u8> {
    match test.cwd {
        Some(cwd) => path::joined(directory, cwd@),
        None => directory,
    }
}

/// What is wrong with a configuration: with its timeout, or with the first of its
/// tests with which something is wrong.
pub open spec fn fault_in(config: Config, message: Seq<char>) -> bool {
    if !is_timeout_ms(config.timeout_ms) {
        message == bad_timeout_text("timeout_ms"@)
    } else {
        exists|i: int|
            {
                &&& 0 <= i < config.tests@.len()
                &&& fault_of(#[trigger] config.tests@[i]) == Some(message)
                &&& forall|k: int| 0 <= k < i ==> fault_of(#[trigger] config.tests@[k]) is None
            }
    }
}

/// Whether nothing is wrong with a configuration.
pub open spec fn is_sound(config: Config) -> bool {
    &&& is_timeout_ms(config.timeout_ms)
    &&& forall|i: int| 0 <= i < config.tests@.len() ==> fault_of(#[trigger] config.tests@[i]) is None
}

/// The error of a configuration file.
pub fn config_error(file: &Vec<u8>, message: String) -> (error: Error)
    ensures
        error matches Error::Config { path, message: text } && path@ == text::lossy(file@)
            && text == message,
{
    Error::Config { path: text::lossy_text(file), message }
}

impl Config {
    /// Checks a configuration that was read from `file`, and finds the starting
    /// directories of its tests. `current` is the current directory, or why it
    /// is not known.
    pub fn load(
        self,
        file: &Vec<u8>,
        current: std::result::Result<Vec<u8>, String>,
    ) -> (result: Result<Config>)
        ensures
            match result {
                Ok(config) => {
                    &&& is_sound(self)
                    &&& path::absolute(file@) || current is Ok
                    &&& config.timeout_ms == self.timeout_ms
                    &&& config.reporter == self.reporter
                    &&& config.tests@.len() == self.tests@.len()
                    &&& forall|i: int|
                        0 <= i < self.tests@.len() ==> is_resolved(
                            #[trigger] config.tests@[i],
                            self.tests@[i],
                            directory_of(
                                file@,
                                match current {
                                    Ok(directory) => directory@,
                                    Err(_) => seq![],
                                },
                            ),
                        )
                },
                Err(error) => {
                    &&& error matches Error::Config { path, message } && path@ == text::lossy(
                        file@,
                    ) && if !path::absolute(file@) && current is Err {
                        message == current->Err_0
                    } else {
                        fault_in(self, message@)
                    }
                },
            },
    {
        let absolute: Vec<u8> = if path::is_absolute(file) {
            let none: Vec<u8> = Vec::new();
            path::join(&none, file)
        } else {
            match &current {
                Ok(directory) => path::join(directory, file),
                Err(reason) => {
                    return Err(config_error(file, reason.clone()));
                },
            }
        };
        let directory: Vec<u8> = match path::parent(&absolute) {
            Some(directory) => directory,
            None => {
                let here: Vec<u8> = vec![0x2e];
                assert(here@ =~= seq![0x2eu8]);
                here
            },
        };
        if self.timeout_ms < 1 || self.timeout_ms > MAX_TIMEOUT_MS {
            return Err(config_error(file, bad_timeout_message("timeout_ms".to_owned())));
        }
        let mut i: usize = 0;
        while i < self.tests.len()
            invariant
                i <= self.tests.len(),
                is_timeout_ms(self.timeout_ms),
                path::absolute(file@) || current is Ok,
                forall|k: int| 0 <= k < i ==> fault_of(#[trigger] self.tests@[k]) is None,
            decreases self.tests.len() - i,
        {
            if let Some(message) = find_fault(&self.tests[i]) {
                assert(fault_of(self.tests@[i as int]) == Some(message@));
                return Err(config_error(file, message));
            }
            i = i + 1;
        }
        let mut tests = self.tests;
        resolve_all(&mut tests, &directory);
        Ok(Config { timeout_ms: self.timeout_ms, reporter: self.reporter, tests })
    }
}

/// Gives every test its starting directory.
fn resolve_all(tests: &mut Vec<ConfiguredTest>, directory: &Vec<u8>)
    ensures
        final(tests)@.len() == old(tests)@.len(),
        forall|i: int|
            0 <= i < old(tests)@.len() ==> is_resolved(
                #[trigger] final(tests)@[i],
                old(tests)@[i],
                directory@,
            ),
{
    let mut i: usize = 0;
    while i < tests.len()
        invariant
            i <= tests.len(),
            tests@.len() == old(tests)@.len(),
            forall|k: int|
                0 <= k < i ==> is_resolved(#[trigger] tests@[k], old(tests)@[k], directory@),
            forall|k: int| i <= k < tests@.len() ==> #[trigger] tests@[k] == old(tests)@[k],
        decreases tests.len() - i,
    {
        let cwd: Vec<u8> = match &tests[i].cwd {
            Some(cwd) => path::join(directory, cwd),
            None => {
                let mut copy: Vec<u8> = Vec::new();
                copy.extend_from_slice(directory.as_slice());
                assert(copy@ =~= directory@);
                copy
            },
        };
        tests[i].cwd = Some(cwd);
        i = i + 1;
    }
}

/// A test is another one with its starting directory found.
pub open spec fn is_resolved(
    resolved: ConfiguredTest,
    test: ConfiguredTest,
    directory: Seq<u8>,
) -> bool {
    &&& resolved == (ConfiguredTest { cwd: resolved.cwd, ..test })
    &&& resolved.cwd matches Some(cwd) && cwd@ == resolved_cwd(test, directory)
}

} // verus!
