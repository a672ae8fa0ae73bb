//! Merges a multi-file program (a binary unit plus a library unit spread over
//! many module files) into one self-contained source document.
//!
//! The syntax of a unit is modelled as plain data: a document is a sequence of
//! declarations, a declaration is a module stub, a module with a body, an
//! import, a unit-reference marker, or an opaque item carrying its qualified
//! references.  The engine resolves module stubs against an in-memory file
//! table, inlines the referenced library unit, rewrites qualified references
//! and import declarations, and optionally prunes library modules that no
//! import mentions.

pub mod model;
pub mod paths;
pub mod imports;
pub mod strutil;
pub mod allowlist;
pub mod fsmodel;
pub mod expand;
pub mod laws;
pub mod debug_fmt;
