//! Verified core of a downloads-folder organizer.
//!
//! The library is the decision engine: it classifies files by extension,
//! judges when a growing file has settled, plans moves into category
//! folders, and plans the periodic sweep that archives stale files.
//! All filesystem access, watching, and notification delivery live in the
//! surrounding application, which feeds this engine plain values and
//! carries out the renames it plans.

pub mod category;
pub mod events;
pub mod mover;
pub mod path;
pub mod report;
pub mod stability;
pub mod sweep;
pub mod week;

pub use category::Category;
pub use mover::MovePlan;
pub use path::FilePath;
