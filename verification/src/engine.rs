//! The reconciliation engine: what one polling cycle decides.

pub mod cycle;
pub mod error;
pub mod laws;
pub mod model;
pub mod work;

pub use cycle::{reconcile, Cycle};
pub use error::ReconcileError;
pub use work::{clean_up, finish, is_cue_sheet, track_files};
