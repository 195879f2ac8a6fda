//! A lint rule core that audits the ordering of import statements and of the
//! bound names inside multi-name import statements, reporting a diagnostic for
//! each ordering violation.
//!
//! The crate works on plain statement descriptors: a host that owns a parser
//! converts its syntax tree into [`types::ImportDecl`] values, feeds them to
//! [`checker::SortImportsVisitor`] in source order, and collects the resulting
//! [`types::Diagnostic`] records.

pub mod compare;
pub mod checker;
pub mod config;
pub mod laws;
pub mod types;
