//! Code generation for a block-based visual-programming runtime: the
//! procedure-signature metadata ("mutation") attached to custom blocks, the
//! graph of compiled nodes, the usage pass over arguments and enum variants,
//! and the separator discipline shared by everything that writes a list.

pub mod ast;
pub mod codegen;
pub mod misc;
pub mod text;
pub mod usage;
