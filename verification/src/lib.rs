//! Compiled representation of a grammar: the normalized intermediate form
//! that normalization passes build up incrementally and that the table
//! construction and code generation stages read back out.
//!
//! The crate is organized leaves-first: interned names, the small shared
//! syntax-tree concepts (spans, paths, type parameters), an insertion-ordered
//! map keyed by interned names, the type algebra, the type registry, and
//! finally the grammar aggregate itself.

pub mod intern;
pub mod text;
pub mod parse_tree;
pub mod intern_map;
pub mod type_repr;
pub mod types;
pub mod grammar;
