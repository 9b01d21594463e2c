//! Diagnostics for schema validation and enumerator-shape checks.

use vstd::prelude::*;

verus! {

/// Where an unknown-key reference was found: in a pluralizer pairing of the
/// enumeration-level attribute, or in a variant-level override.
#[derive(Clone, Copy, Debug, PartialEq, Eq, Structural)]
pub enum Site {
    Pluralizer,
    Override,
}

/// A violation of the schema grammar or of its validation rules.
#[derive(Clone, Debug, PartialEq, Eq)]
pub enum SchemaError {
    /// The attribute text does not match the attribute grammar.
    Malformed,
    /// A format literal is not one of the recognized rule names.
    InvalidFormatLiteral { literal: String },
    /// An extra key is named `base`, which is reserved.
    ReservedKeyName,
    /// No `base` rule was declared.
    MissingBase,
    /// An override or pluralizer references an undeclared key.
    UnknownKey { key: String, site: Site },
}

/// Specification-level value of a [`SchemaError`].
pub enum SchemaErrorV {
    Malformed,
    InvalidFormatLiteral { literal: Seq<char> },
    ReservedKeyName,
    MissingBase,
    UnknownKey { key: Seq<char>, site: Site },
}

impl View for SchemaError {
    type V = SchemaErrorV;

    open spec fn view(&self) -> SchemaErrorV {
        match self {
            SchemaError::Malformed => SchemaErrorV::Malformed,
            SchemaError::InvalidFormatLiteral { literal } => SchemaErrorV::InvalidFormatLiteral {
                literal: literal@,
            },
            SchemaError::ReservedKeyName => SchemaErrorV::ReservedKeyName,
            SchemaError::MissingBase => SchemaErrorV::MissingBase,
            SchemaError::UnknownKey { key, site } => SchemaErrorV::UnknownKey {
                key: key@,
                site: *site,
            },
        }
    }
}

/// A violation of the variant-enumerator precondition.
#[derive(Clone, Debug, PartialEq, Eq)]
pub enum ShapeError {
    /// The enumeration has no variants.
    Empty,
    /// A variant carries a payload; the enumerator requires unit variants.
    NonUnitVariant { variant: String },
}

/// Specification-level value of a [`ShapeError`].
pub enum ShapeErrorV {
    Empty,
    NonUnitVariant { variant: Seq<char> },
}

impl View for ShapeError {
    type V = ShapeErrorV;

    open spec fn view(&self) -> ShapeErrorV {
        match self {
            ShapeError::Empty => ShapeErrorV::Empty,
            ShapeError::NonUnitVariant { variant } => ShapeErrorV::NonUnitVariant {
                variant: variant@,
            },
        }
    }
}

} // verus!
