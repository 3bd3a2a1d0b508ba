//! Tracks which downloads, cue sheets and split tracks have been processed,
//! and decides what each polling cycle has to do.

pub mod engine;
pub mod lidarr;
pub mod settings;
pub mod shnsplit;
pub mod store;
