//! Semantic-analysis core of a contract-oriented smart-contract compiler.
//!
//! The crate turns a parsed, untyped tree into a fully typed program:
//! typed declarations whose equality, hashing, ordering and generic
//! substitution are defined relative to a shared type-interning engine,
//! a two-pass (analysis, then finalization) walk with per-node error
//! isolation, and synthesis of the compiler-generated entry functions
//! that implement the calling convention for scripts and contracts.

pub mod span;
pub mod handler;
pub mod type_system;
pub mod language;
pub mod parse_tree;
pub mod declaration;
pub mod engines;
pub mod type_ops;
pub mod hashing;
pub mod decl_ops;
pub mod subst;
pub mod typed_tree;
pub mod dep_order;
pub mod entry_synth;
pub mod module_check;
pub mod program;
pub mod source_map;
