//! Code-generation engine for enumerated types.
//!
//! Given a declarative schema (naming format rules attached to an enumeration
//! and per-variant overrides) this library computes, for every variant and
//! every declared format key, a single resolved display string, and models the
//! auxiliary definitions a host emits from it: name accessors, pluralizer
//! dispatch, per-variant predicates, and variant-enumeration utilities.

pub mod errors;
pub mod format;
pub mod parse;
pub mod predicates;
pub mod resolve;
pub mod schema;
pub mod strutil;
pub mod variants;
