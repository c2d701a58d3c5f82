//! A nested outline of named, navigable regions ("symbols") extracted from
//! the parsed syntax tree of a markup-plus-code document.
//!
//! The tree itself comes from an external parser; [`syntax`] models what the
//! analysis reads of it. One depth-first traversal, [`worker`], classifies
//! each node under a caller-chosen [`symbols::LexicalScopeKind`] and groups
//! the classified entries into a forest, handling heading nesting by numeric
//! level, anonymous grouping blocks, comment-run merging, and the
//! context-dependent naming of identifiers. The traversal's meaning is
//! stated once, as the recursive definition in [`semantics`], and the
//! executable walk is verified against it; [`laws`] proves the properties
//! that hold of every result.

pub mod laws;
pub mod semantics;
pub mod symbols;
pub mod syntax;
pub mod worker;
