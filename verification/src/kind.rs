//! Type names of the Activity Vocabulary.
pub mod actor;
pub mod collection;
