//! A build-time source transform that rewrites embedded GraphQL tagged-template
//! call sites into references to pre-generated document artifacts, and injects
//! the matching import statements.
//!
//! The crate works on an abstract syntax tree of the host source file
//! (module body, variable declarations, call expressions, template literals)
//! and is a pure function from (tree, configuration) to
//! (mutated tree, diagnostics): it performs no I/O of its own.

pub mod ast;
pub mod gql;
pub mod laws;
pub mod paths;
pub mod strutil;
pub mod visitor;
