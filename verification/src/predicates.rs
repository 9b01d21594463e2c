//! The predicate generator: per-variant boolean tag tests and their names.

use vstd::prelude::*;
use vstd::string::*;
use crate::schema::VariantDecl;

verus! {

/// The snake-cased form of a character sequence, as the snake-case
/// conversion of the `heck` crate computes it.
pub uninterp spec fn snake_of(s: Seq<char>) -> Seq<char>;

/// Relies on `heck::ToSnakeCase::to_snake_case`: splits the input on case
/// and underscore word boundaries, lowercases the words and joins them with
/// `_`. The result depends on the input characters alone.
#[verifier::external_body]
fn snake_case(s: &str) -> (r: String)
    ensures
        r@ == snake_of(s@),
{
    heck::ToSnakeCase::to_snake_case(s)
}

/// The name of the predicate generated for a variant: `is_` followed by the
/// snake-cased variant identifier.
pub open spec fn spec_predicate_name(ident: Seq<char>) -> Seq<char> {
    "is_"@ + snake_of(ident)
}

pub fn predicate_name(ident: &str) -> (r: String)
    ensures
        r@ == spec_predicate_name(ident@),
{
    let mut s = "is_".to_owned();
    let sn = snake_case(ident);
    s.append(sn.as_str());
    s
}

/// The predicate method names for every variant, in declaration order.
pub fn predicates_gen(variants: &Vec<VariantDecl>) -> (r: Vec<String>)
    ensures
        r@.len() == variants@.len(),
        forall|i: int|
            0 <= i < r@.len() ==> (#[trigger] r@[i])@ == spec_predicate_name(
                variants@[i].ident@,
            ),
{
    let mut out: Vec<String> = Vec::new();
    let mut i: usize = 0;
    while i < variants.len()
        invariant
            i <= variants@.len(),
            out@.len() == i,
            forall|k: int|
                0 <= k < i ==> (#[trigger] out@[k])@ == spec_predicate_name(
                    variants@[k].ident@,
                ),
        decreases variants@.len() - i,
    {
        out.push(predicate_name(variants[i].ident.as_str()));
        i += 1;
    }
    out
}

/// A value of the enumeration reduced to what predicates inspect: the tag
/// that names which variant it is, beside whatever payload it carries.
pub struct TaggedValue<P> {
    pub tag: usize,
    pub payload: P,
}

/// What the generated predicate for variant `i` tests: the value's tag
/// equals `i`, independent of the payload.
pub open spec fn spec_is_variant<P>(v: TaggedValue<P>, i: int) -> bool {
    v.tag == i
}

pub fn is_variant<P>(v: &TaggedValue<P>, i: usize) -> (r: bool)
    ensures
        r == spec_is_variant(*v, i as int),
{
    v.tag == i
}

/// Predicate exhaustiveness: of the predicates generated for an enumeration
/// of `n` variants, the one whose index is the value's tag holds, and no two
/// distinct predicates hold of the same value, whatever payload it carries.
pub proof fn lemma_predicate_exhaustive<P>(v: TaggedValue<P>, n: int)
    requires
        0 <= v.tag < n,
    ensures
        spec_is_variant(v, v.tag as int),
        forall|i: int, j: int|
            0 <= i < n && 0 <= j < n && spec_is_variant(v, i) && spec_is_variant(v, j) ==> i
                == j,
{
}

} // verus!
