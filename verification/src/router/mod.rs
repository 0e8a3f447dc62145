//! Path patterns and their matching against request paths.
pub mod pattern;

pub use pattern::{Param, PatternError, ResourceDef, Segment};
