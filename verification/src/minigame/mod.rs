pub mod commit_tracker;
pub mod arc;
pub mod cube;
pub mod grid;
