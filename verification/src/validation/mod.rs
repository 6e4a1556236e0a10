//! Checks of what requests name.
pub mod path;

pub use path::{validate_path, PathContext, PathFacts, PathPolicy};
