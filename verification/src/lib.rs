//! End-to-end testing primitives for terminal user interfaces.
//!
//! A terminal turns the bytes that a program writes into a screen. Locators find
//! text on it, assertions decide whether to wait on, snapshots compare it with a
//! file, and a runner goes through a suite of tests. None of this touches the
//! outside world: what was read, how long it took and what the process did are
//! arguments, and what has to be done next is a result.

pub mod buffer;
pub mod config;
pub mod configured;
pub mod configured_laws;
pub mod cursor_laws;
pub mod difference;
pub mod drawing_laws;
pub mod environment;
pub mod error;
pub mod event;
pub mod expect;
pub mod glyphs;
pub mod keyboard;
pub mod keyboard_laws;
pub mod locator;
pub mod locator_laws;
pub mod message_laws;
pub mod model;
pub mod parser;
pub mod path;
pub mod path_laws;
pub mod pattern;
pub mod process;
pub mod region_laws;
pub mod report;
pub mod resize_laws;
pub mod run_laws;
pub mod runner;
pub mod screen;
pub mod screen_laws;
pub mod session;
pub mod snapshot;
pub mod style_laws;
pub mod terminal;
pub mod text;
pub mod text_laws;
pub mod time;
pub mod upkeep;
pub mod waiting_laws;
pub mod width;

pub use buffer::Cell;
pub use config::{Config, ConfiguredTest, MAX_TIMEOUT_MS};
pub use configured::{run_config, RunOptions};
pub use error::{Error, Result};
pub use expect::{expect, Expect, ExpectOptions, ProcessExpect, ScreenExpect};
pub use keyboard::{Key, Keyboard};
pub use locator::{BoundingBox, Locator, TextMatcher};
pub use model::{Color, Rect, Style, MAX_SCREEN_CELLS};
pub use process::{ExitStatus, ProcessState, PtyOptions};
pub use report::{Reporter, RunReport, TestResult, TestStatus};
pub use runner::{Runner, TestCase, TestContext};
pub use screen::{Region, Screen};
pub use session::{launch, LaunchOptions, TuiSession};
pub use snapshot::{SnapshotOptions, SnapshotResult, SnapshotStore};
pub use terminal::Terminal;
pub use time::Duration;
