//! The variant enumerator: count, ordered successor table, and the
//! restartable sequence producer over variant tags.

use vstd::prelude::*;
use vstd::string::*;
use crate::errors::{ShapeError, ShapeErrorV};
use crate::schema::{decls_view, VariantDecl, VariantDeclV};

verus! {

pub open spec fn opt_str_view(o: Option<String>) -> Option<Seq<char>> {
    match o {
        Some(s) => Some(s@),
        None => None,
    }
}

/// The identifier of the first variant that carries a payload, if any.
pub open spec fn spec_first_non_unit(vars: Seq<VariantDeclV>) -> Option<Seq<char>>
    decreases vars.len(),
{
    if vars.len() == 0 {
        None
    } else if !vars[0].unit {
        Some(vars[0].ident)
    } else {
        spec_first_non_unit(vars.drop_first())
    }
}

/// The enumerator model for one enumeration: the variant count, the first
/// variant, and each variant's identifier beside its successor's (`None` for
/// the last).
#[derive(Debug)]
pub struct EnumeratorDef {
    pub count: usize,
    pub first: String,
    pub successors: Vec<(String, Option<String>)>,
}

/// Build the enumerator model. The enumeration must be non-empty and every
/// variant must be a unit variant; the first offender is the error.
#[verifier::loop_isolation(false)]
pub fn variants_gen(variants: &Vec<VariantDecl>) -> (r: Result<EnumeratorDef, ShapeError>)
    ensures
        match r {
            Ok(d) => {
                &&& variants@.len() > 0
                &&& spec_first_non_unit(decls_view(variants@)) is None
                &&& d.count == variants@.len()
                &&& d.first@ == variants@[0].ident@
                &&& d.successors@.len() == variants@.len()
                &&& forall|i: int|
                    0 <= i < d.successors@.len() ==> {
                        let p = #[trigger] d.successors@[i];
                        &&& p.0@ == variants@[i].ident@
                        &&& opt_str_view(p.1) == (if i + 1 < variants@.len() {
                            Some(variants@[i + 1].ident@)
                        } else {
                            None::<Seq<char>>
                        })
                    }
            },
            Err(e) => match e@ {
                ShapeErrorV::Empty => variants@.len() == 0,
                ShapeErrorV::NonUnitVariant { variant } => spec_first_non_unit(
                    decls_view(variants@),
                ) == Some(variant),
            },
        },
{
    let ghost varsv = decls_view(variants@);
    if variants.len() == 0 {
        return Err(ShapeError::Empty);
    }
    proof {
        assert(varsv.skip(0) =~= varsv);
        assert(forall|k: int| 0 <= k < variants@.len() ==> varsv[k] == (#[trigger] variants@[k])@);
    }
    let mut i: usize = 0;
    while i < variants.len()
        invariant
            i <= variants@.len(),
            spec_first_non_unit(varsv) == spec_first_non_unit(varsv.skip(i as int)),
        decreases variants@.len() - i,
    {
        proof {
            assert(varsv.skip(i as int)[0] == varsv[i as int]);
        }
        if !variants[i].unit {
            return Err(ShapeError::NonUnitVariant { variant: variants[i].ident.clone() });
        }
        proof {
            assert(varsv.skip(i as int).drop_first() =~= varsv.skip(i as int + 1));
        }
        i += 1;
    }
    proof {
        assert(varsv.skip(variants@.len() as int) =~= Seq::<VariantDeclV>::empty());
    }
    let mut successors: Vec<(String, Option<String>)> = Vec::new();
    let mut j: usize = 0;
    while j < variants.len()
        invariant
            j <= variants@.len(),
            successors@.len() == j,
            forall|k: int|
                0 <= k < j ==> {
                    let p = #[trigger] successors@[k];
                    &&& p.0@ == variants@[k].ident@
                    &&& opt_str_view(p.1) == (if k + 1 < variants@.len() {
                        Some(variants@[k + 1].ident@)
                    } else {
                        None::<Seq<char>>
                    })
                },
        decreases variants@.len() - j,
    {
        let nxt: Option<String> = if j + 1 < variants.len() {
            Some(variants[j + 1].ident.clone())
        } else {
            None
        };
        successors.push((variants[j].ident.clone(), nxt));
        j += 1;
    }
    Ok(
        EnumeratorDef {
            count: variants.len(),
            first: variants[0].ident.clone(),
            successors,
        },
    )
}

// ------------------------------------------------------------------
// The sequence producer
// ------------------------------------------------------------------

/// The restartable sequence producer over variant tags `0 .. count`: it
/// holds the next tag to yield, or nothing once exhausted — the terminal,
/// absorbing state.
pub struct VariantCursor {
    pub count: usize,
    pub state: Option<usize>,
}

/// A fresh producer over `n` variants: holding the first tag, or already
/// exhausted if there are none.
pub open spec fn spec_fresh(n: usize) -> VariantCursor {
    VariantCursor {
        count: n,
        state: if n > 0 {
            Some(0usize)
        } else {
            None
        },
    }
}

/// The transition of the producer state machine: yield the held tag and
/// advance, exhausting past the last tag; the exhausted state is absorbing
/// and yields nothing.
pub open spec fn spec_step(c: VariantCursor) -> (VariantCursor, Option<usize>) {
    match c.state {
        Some(i) => (
            VariantCursor {
                count: c.count,
                state: if i + 1 < c.count {
                    Some((i + 1) as usize)
                } else {
                    None
                },
            },
            Some(i),
        ),
        None => (c, None),
    }
}

/// The cursor after `k` steps from `c`.
pub open spec fn spec_run(c: VariantCursor, k: nat) -> VariantCursor
    decreases k,
{
    if k == 0 {
        c
    } else {
        spec_step(spec_run(c, (k - 1) as nat)).0
    }
}

/// What the `k`-th step (counting from zero) from `c` yields.
pub open spec fn spec_output_at(c: VariantCursor, k: nat) -> Option<usize> {
    spec_step(spec_run(c, k)).1
}

impl VariantCursor {
    pub open spec fn wf(self) -> bool {
        match self.state {
            Some(i) => i < self.count,
            None => true,
        }
    }

    /// A fresh producer, holding the first variant tag (or already exhausted
    /// if there are no variants). Constructing a fresh producer is how the
    /// sequence restarts.
    pub fn new(count: usize) -> (r: VariantCursor)
        ensures
            r.wf(),
            r == spec_fresh(count),
    {
        VariantCursor { count, state: if count > 0 { Some(0) } else { None } }
    }

    /// Yield the held tag and advance, exactly as [`spec_step`] describes:
    /// past the last tag the cursor becomes exhausted; once exhausted it
    /// stays exhausted and yields nothing.
    pub fn step(&mut self) -> (r: Option<usize>)
        requires
            old(self).wf(),
        ensures
            final(self).wf(),
            *final(self) == spec_step(*old(self)).0,
            r == spec_step(*old(self)).1,
    {
        match self.state {
            Some(i) => {
                if i + 1 < self.count {
                    self.state = Some(i + 1);
                } else {
                    self.state = None;
                }
                Some(i)
            },
            None => None,
        }
    }

    /// Exactly how many tags remain to be yielded.
    pub fn remaining(&self) -> (r: usize)
        requires
            self.wf(),
        ensures
            r == match self.state {
                Some(i) => self.count - i,
                None => 0int,
            },
    {
        match self.state {
            Some(i) => self.count - i,
            None => 0,
        }
    }
}

/// A fresh producer over `n` variants yields each tag exactly once and in
/// order — the `k`-th step yields tag `k` for every `k < n` — and after the
/// `n`-th step it is exhausted, stays exhausted, and yields nothing.
pub proof fn lemma_producer_run(n: usize, k: nat)
    ensures
        spec_run(spec_fresh(n), k).count == n,
        spec_run(spec_fresh(n), k).state == (if k < n {
            Some(k as usize)
        } else {
            None::<usize>
        }),
        spec_output_at(spec_fresh(n), k) == (if k < n {
            Some(k as usize)
        } else {
            None::<usize>
        }),
    decreases k,
{
    if k > 0 {
        lemma_producer_run(n, (k - 1) as nat);
    }
}

} // verus!
