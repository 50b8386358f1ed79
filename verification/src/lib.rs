//! Struct "inheritance" for Rust source text: a child struct takes over the
//! fields, derives and inherent impl of a parent struct that lives in another
//! source file, named by a path such as `krate::module::Parent@struct`.
//!
//! Every step that decides or computes stands here, verified: the attribute
//! arguments, the file path of the parent, the scanner that finds struct and
//! impl items in source text, the merge of the derive lists, the field
//! summaries and the generated code. Reading files and the process' working
//! directory is left to the caller.
pub mod text;
pub mod derive;
pub mod attr;
pub mod path;
pub mod grammar;
pub mod tokens;
pub mod fields;
pub mod extends;
pub mod struct_extends;
pub mod laws;
pub mod laws_derive;
pub mod laws_child;
pub mod laws_scan;
