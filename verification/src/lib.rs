//! Scaffolding core for a web-service project generator.
//!
//! The library covers the text-level engine of the tool: placeholder
//! substitution over template content, marker-anchored injection of route
//! registrations into generated files, idempotent module-list registration,
//! and timestamped migration pair naming.  File system access and external
//! process invocation stay outside; every function here is pure text logic
//! with a proved contract.

pub mod inject;
pub mod migrate;
pub mod orchestrate;
pub mod subst;
pub mod templates;
pub mod text;
pub mod tree;
