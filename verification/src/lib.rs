//! Builder generation for record types: from the field schema of a record to
//! the declarations of its companion builder, their source text, and an
//! executable model of what a builder instance does.

pub mod generator;
pub mod laws;
pub mod render;
pub mod runtime;
pub mod schema;
