//! Driving the external splitter: what it is called with, and what its
//! diagnostics say it wrote.

pub mod command;
pub mod diagnostics;
pub mod files;
pub mod model;
pub mod orchestrator;

pub use command::{CueEntry, SplitCommand};
pub use files::CueSheet;
pub use orchestrator::{record_outputs, record_tracks, split, SplitError};
