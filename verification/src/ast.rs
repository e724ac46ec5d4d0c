//! The parts of the typed syntax tree that code generation reads and marks.

pub mod arg;
pub mod enum_variant;
pub mod type_;
pub mod value;
