//! Turns a description of a database catalog (tables, columns and
//! enumerated types, grouped by schema) into a tree of Rust source files.

pub mod casing;
pub mod codegen;
pub mod emit;
pub mod file_writer;
pub mod order;
pub mod schema;
pub mod types;
