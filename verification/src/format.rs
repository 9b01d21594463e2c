//! The format transform engine: pure string transforms selected by a rule.

use vstd::prelude::*;
use vstd::string::*;
use crate::errors::SchemaError;
use crate::strutil::str_eq;

verus! {

/// A naming format rule. Title-casing splits the raw identifier on case and
/// underscore boundaries and capitalizes each word; the `lower` axis forces
/// the whole result to lowercase afterwards; the `plural` axis appends a
/// literal `s` to the final string.
#[derive(Clone, Copy, Debug, PartialEq, Eq, Structural)]
pub enum Format {
    TitleCase { lower: bool, plural: bool },
}

/// The title-cased form of a character sequence, as the title-case conversion
/// of the `heck` crate computes it.
pub uninterp spec fn title_of(s: Seq<char>) -> Seq<char>;

/// The Unicode-lowercased form of a character sequence, as `str::to_lowercase`
/// computes it.
pub uninterp spec fn lower_of(s: Seq<char>) -> Seq<char>;

/// Relies on `heck::ToTitleCase::to_title_case`: splits the input on case and
/// underscore word boundaries and capitalizes each word, joined by spaces.
/// The result depends on the input characters alone.
#[verifier::external_body]
fn title_case(s: &str) -> (r: String)
    ensures
        r@ == title_of(s@),
{
    heck::ToTitleCase::to_title_case(s)
}

/// Relies on `str::to_lowercase`: the Unicode lowercase mapping of the input,
/// independent of any locale. The result depends on the input characters
/// alone.
#[verifier::external_body]
fn to_lower(s: &str) -> (r: String)
    ensures
        r@ == lower_of(s@),
{
    s.to_lowercase()
}

/// What a format rule turns a raw identifier into: title-case the input,
/// lowercase the whole result if the rule asks for it, then append a literal
/// `s` if the rule is plural.
pub open spec fn spec_transform(f: Format, s: Seq<char>) -> Seq<char> {
    match f {
        Format::TitleCase { lower, plural } => {
            let cased = if lower {
                lower_of(title_of(s))
            } else {
                title_of(s)
            };
            if plural {
                cased.push('s')
            } else {
                cased
            }
        },
    }
}

/// The format rule a literal denotes, if it is one of the four recognized
/// literals.
pub open spec fn spec_format_of_literal(s: Seq<char>) -> Option<Format> {
    if s == "title case"@ {
        Some(Format::TitleCase { lower: false, plural: false })
    } else if s == "title case lower"@ {
        Some(Format::TitleCase { lower: true, plural: false })
    } else if s == "title case plural"@ {
        Some(Format::TitleCase { lower: false, plural: true })
    } else if s == "title case lower plural"@ {
        Some(Format::TitleCase { lower: true, plural: true })
    } else {
        None
    }
}

impl Format {
    /// Parse a format literal; any other literal is rejected.
    pub fn parse_str(s: &str) -> (r: Result<Format, SchemaError>)
        ensures
            match r {
                Ok(f) => spec_format_of_literal(s@) == Some(f),
                Err(e) => spec_format_of_literal(s@) is None && e@
                    == crate::errors::SchemaErrorV::InvalidFormatLiteral { literal: s@ },
            },
    {
        if str_eq(s, "title case") {
            Ok(Format::TitleCase { lower: false, plural: false })
        } else if str_eq(s, "title case lower") {
            Ok(Format::TitleCase { lower: true, plural: false })
        } else if str_eq(s, "title case plural") {
            Ok(Format::TitleCase { lower: false, plural: true })
        } else if str_eq(s, "title case lower plural") {
            Ok(Format::TitleCase { lower: true, plural: true })
        } else {
            Err(SchemaError::InvalidFormatLiteral { literal: s.to_owned() })
        }
    }

    /// Apply this rule to a raw identifier string. The result is a function
    /// of the rule and of the characters of `s` alone, so identical inputs
    /// always yield the identical string.
    pub fn transform(&self, s: &str) -> (r: String)
        ensures
            r@ == spec_transform(*self, s@),
    {
        let cased = title_case(s);
        match *self {
            Format::TitleCase { lower, plural } => {
                let mut out = if lower {
                    to_lower(cased.as_str())
                } else {
                    cased
                };
                if plural {
                    let ghost before = out@;
                    out.append("s");
                    proof {
                        reveal_strlit("s");
                        assert(out@ =~= before.push('s'));
                    }
                }
                out
            },
        }
    }
}

} // verus!
