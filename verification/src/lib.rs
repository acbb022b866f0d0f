//! Planning for a one-shot file organiser: which directories of a tree are
//! scanned, which of their files are selected by a substring pattern, and
//! where each selected file is moved.

pub mod collect;
pub mod config;
pub mod guarantees;
pub mod model;
pub mod path;
pub mod plan;
pub mod run;
pub mod text;
