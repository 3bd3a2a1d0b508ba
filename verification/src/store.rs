//! The persistent hierarchy of downloads, cue files and tracks.

pub mod entities;
pub mod error;
pub mod identity;
pub mod ids;
pub mod journal;
pub mod laws;
pub mod load;
pub mod model;
pub mod ops;
pub mod rows;
mod scan;
pub mod seqs;
pub mod table;

pub use entities::{CueFile, Download};
pub use error::StoreError;
pub use rows::Track;
pub use table::Store;
