//! The resolution engine: computes the resolved value for every variant and
//! format key, and the accessor and pluralizer definitions emitted from it.

use vstd::prelude::*;
use vstd::string::*;
use crate::errors::{SchemaError, SchemaErrorV};
use crate::format::{spec_transform, Format};
use crate::schema::{assoc_get, decls_view, fmt_assoc_view, lemma_assoc_get_of_elem, spec_formats_new,
    spec_overrides_new, strs_view, unique_keys, Formats, FormatsV, Overrides, VariantDecl,
    VariantDeclV};
use crate::strutil::str_eq;

verus! {

// ------------------------------------------------------------------
// Resolution
// ------------------------------------------------------------------

/// The resolved value for a variant and a declared key, by precedence:
/// an explicit override for the key; else, for a non-base key, the key's
/// rule applied to an explicit base override; else the key's rule applied to
/// the variant's raw identifier.
pub open spec fn spec_resolve(
    fv: FormatsV,
    ov: Seq<(Seq<char>, Seq<char>)>,
    raw: Seq<char>,
    key: Seq<char>,
) -> Seq<char>
    recommends
        fv.spec_has(key),
{
    if assoc_get(ov, key) is Some {
        assoc_get(ov, key)->Some_0
    } else {
        let rule = fv.spec_rule_of(key)->Some_0;
        if key != "base"@ && assoc_get(ov, "base"@) is Some {
            spec_transform(rule, assoc_get(ov, "base"@)->Some_0)
        } else {
            spec_transform(rule, raw)
        }
    }
}

/// Resolve one (variant, key) pair.
pub fn resolve(formats: &Formats, ovs: &Overrides, raw: &str, key: &str) -> (r: String)
    requires
        formats@.spec_has(key@),
    ensures
        r@ == spec_resolve(formats@, ovs@, raw@, key@),
{
    match ovs.get(key) {
        Some(v) => v.clone(),
        None => {
            let rule = formats.get(key);
            if !str_eq(key, "base") {
                match ovs.get("base") {
                    Some(b) => rule.transform(b.as_str()),
                    None => rule.transform(raw),
                }
            } else {
                rule.transform(raw)
            }
        },
    }
}

/// Override precedence: a variant that overrides only the base key has every
/// other key's value re-derived from that override string, not from the raw
/// identifier.
pub proof fn lemma_base_override_cascades(
    fv: FormatsV,
    ov: Seq<(Seq<char>, Seq<char>)>,
    raw: Seq<char>,
    key: Seq<char>,
    b: Seq<char>,
)
    requires
        fv.spec_has(key),
        key != "base"@,
        assoc_get(ov, key) is None,
        assoc_get(ov, "base"@) == Some(b),
    ensures
        spec_resolve(fv, ov, raw, key) == spec_transform(fv.spec_rule_of(key)->Some_0, b),
{
}

// ------------------------------------------------------------------
// Accessor names
// ------------------------------------------------------------------

/// The name of the accessor generated for a key: `name` for the base key,
/// `name_<key>` otherwise.
pub open spec fn spec_method_name(key: Seq<char>) -> Seq<char> {
    if key == "base"@ {
        "name"@
    } else {
        "name_"@ + key
    }
}

pub fn method_name_for_key(key: &str) -> (r: String)
    ensures
        r@ == spec_method_name(key@),
{
    if str_eq(key, "base") {
        "name".to_owned()
    } else {
        let mut s = "name_".to_owned();
        s.append(key);
        s
    }
}

/// The name of the count-dispatch accessor generated for a pluralizer
/// pairing, from its singular key: `name_pluralized` for the base key,
/// `name_<key>_pluralized` otherwise.
pub open spec fn spec_pluralizer_method_name(key: Seq<char>) -> Seq<char> {
    if key == "base"@ {
        "name_pluralized"@
    } else {
        "name_"@ + key + "_pluralized"@
    }
}

pub fn pluralizer_method_name_for_key(key: &str) -> (r: String)
    ensures
        r@ == spec_pluralizer_method_name(key@),
{
    if str_eq(key, "base") {
        "name_pluralized".to_owned()
    } else {
        let mut s = "name_".to_owned();
        s.append(key);
        s.append("_pluralized");
        s
    }
}

// ------------------------------------------------------------------
// Pluralizer dispatch
// ------------------------------------------------------------------

/// Count dispatch for a pluralizer pairing: the singular value exactly when
/// the count is 1, the plural value for every other count, zero and negative
/// counts included. The count never reaches the returned string.
pub fn pluralized_value<'a>(n: i64, singular: &'a String, plural: &'a String) -> (r: &'a String)
    ensures
        n == 1 ==> r == singular,
        n != 1 ==> r == plural,
{
    if n == 1 {
        singular
    } else {
        plural
    }
}

// ------------------------------------------------------------------
// Generated definitions
// ------------------------------------------------------------------

/// One generated accessor: its method name and the resolved value for each
/// variant, in declaration order.
pub struct AccessorDef {
    pub method_name: String,
    pub key: String,
    pub values: Vec<String>,
}

/// One generated count-dispatch accessor, naming the singular and plural
/// keys whose accessors it selects between.
pub struct PluralizerDef {
    pub method_name: String,
    pub singular: String,
    pub plural: String,
}

/// Everything the name generator emits for one enumeration.
pub struct NameDefs {
    pub accessors: Vec<AccessorDef>,
    pub pluralizers: Vec<PluralizerDef>,
}

/// All declared keys with their rules: the base key first, then the extra
/// keys in declaration order.
pub open spec fn spec_keys_of(fv: FormatsV) -> Seq<(Seq<char>, Format)> {
    seq![("base"@, fv.base)] + fv.extras
}

/// The first variant whose overrides fail validation, if any.
pub open spec fn spec_variant_err(fv: FormatsV, vars: Seq<VariantDeclV>) -> Option<SchemaErrorV>
    decreases vars.len(),
{
    if vars.len() == 0 {
        None
    } else {
        match spec_overrides_new(fv, vars[0].attrs) {
            Err(e) => Some(e),
            Ok(_) => spec_variant_err(fv, vars.drop_first()),
        }
    }
}

/// Build every accessor and pluralizer definition for one enumeration, or
/// the first schema violation: first the enumeration-level schema, then each
/// variant's overrides in declaration order.
#[verifier::loop_isolation(false)]
pub fn name_defs(enum_attrs: &Vec<String>, variants: &Vec<VariantDecl>) -> (r: Result<
    NameDefs,
    SchemaError,
>)
    ensures
        match r {
            Err(e) => match spec_formats_new(strs_view(enum_attrs@)) {
                Err(e0) => e@ == e0,
                Ok(fv) => spec_variant_err(fv, decls_view(variants@)) == Some(e@),
            },
            Ok(defs) => match spec_formats_new(strs_view(enum_attrs@)) {
                Err(_) => false,
                Ok(fv) => {
                    &&& spec_variant_err(fv, decls_view(variants@)) is None
                    &&& defs.accessors@.len() == spec_keys_of(fv).len()
                    &&& forall|ki: int|
                        0 <= ki < defs.accessors@.len() ==> {
                            let acc = #[trigger] defs.accessors@[ki];
                            &&& acc.key@ == spec_keys_of(fv)[ki].0
                            &&& acc.method_name@ == spec_method_name(spec_keys_of(fv)[ki].0)
                            &&& acc.values@.len() == variants@.len()
                            &&& forall|vi: int|
                                0 <= vi < acc.values@.len() ==> (#[trigger] acc.values@[vi])@
                                    == spec_resolve(
                                    fv,
                                    spec_overrides_new(fv, decls_view(variants@)[vi].attrs)->Ok_0,
                                    decls_view(variants@)[vi].ident,
                                    spec_keys_of(fv)[ki].0,
                                )
                        }
                    &&& defs.pluralizers@.len() == fv.pluralizers.len()
                    &&& forall|pi: int|
                        0 <= pi < defs.pluralizers@.len() ==> {
                            let pd = #[trigger] defs.pluralizers@[pi];
                            &&& pd.singular@ == fv.pluralizers[pi].0
                            &&& pd.plural@ == fv.pluralizers[pi].1
                            &&& pd.method_name@ == spec_pluralizer_method_name(
                                fv.pluralizers[pi].0,
                            )
                        }
                },
            },
        },
{
    let formats = match Formats::new(enum_attrs) {
        Ok(f) => f,
        Err(e) => {
            return Err(e);
        },
    };
    let ghost fv = formats@;
    let ghost varsv = decls_view(variants@);
    proof {
        assert(varsv.skip(0) =~= varsv);
        assert(forall|k: int| 0 <= k < variants@.len() ==> varsv[k] == (#[trigger] variants@[k])@);
    }
    let mut ovs_list: Vec<Overrides> = Vec::new();
    let mut vi: usize = 0;
    while vi < variants.len()
        invariant
            vi <= variants@.len(),
            ovs_list@.len() == vi,
            spec_variant_err(fv, varsv) == spec_variant_err(fv, varsv.skip(vi as int)),
            forall|k: int|
                0 <= k < vi ==> spec_overrides_new(fv, varsv[k].attrs) == Ok::<
                    Seq<(Seq<char>, Seq<char>)>,
                    SchemaErrorV,
                >((#[trigger] ovs_list@[k])@),
        decreases variants@.len() - vi,
    {
        proof {
            assert(varsv.skip(vi as int)[0] == varsv[vi as int]);
        }
        let ovs = match Overrides::new(&formats, &variants[vi].attrs) {
            Ok(o) => o,
            Err(e) => {
                return Err(e);
            },
        };
        ovs_list.push(ovs);
        proof {
            assert(varsv.skip(vi as int).drop_first() =~= varsv.skip(vi as int + 1));
        }
        vi += 1;
    }
    proof {
        assert(varsv.skip(variants@.len() as int) =~= Seq::<VariantDeclV>::empty());
    }
    let pairs = formats.iter();
    let ghost keysv = spec_keys_of(fv);
    let mut accessors: Vec<AccessorDef> = Vec::new();
    let mut ki: usize = 0;
    while ki < pairs.len()
        invariant
            ki <= pairs@.len(),
            accessors@.len() == ki,
            forall|k: int|
                0 <= k < ki ==> {
                    let acc = #[trigger] accessors@[k];
                    &&& acc.key@ == keysv[k].0
                    &&& acc.method_name@ == spec_method_name(keysv[k].0)
                    &&& acc.values@.len() == variants@.len()
                    &&& forall|v: int|
                        0 <= v < acc.values@.len() ==> (#[trigger] acc.values@[v])@
                            == spec_resolve(fv, ovs_list@[v]@, varsv[v].ident, keysv[k].0)
                },
        decreases pairs@.len() - ki,
    {
        let key = &pairs[ki].0;
        proof {
            assert(fmt_assoc_view(pairs@).len() == pairs@.len());
            assert(fmt_assoc_view(pairs@)[ki as int] == (pairs@[ki as int].0@, pairs@[
                ki as int
            ].1));
            assert(key@ == keysv[ki as int].0);
            if ki > 0 {
                lemma_assoc_get_of_elem(fv.extras, ki as int - 1);
            }
            assert(fv.spec_has(key@));
        }
        let method_name = method_name_for_key(key.as_str());
        let mut values: Vec<String> = Vec::new();
        let mut vj: usize = 0;
        while vj < variants.len()
            invariant
                vj <= variants@.len(),
                values@.len() == vj,
                forall|v: int|
                    0 <= v < vj ==> (#[trigger] values@[v])@ == spec_resolve(
                        fv,
                        ovs_list@[v]@,
                        varsv[v].ident,
                        keysv[ki as int].0,
                    ),
            decreases variants@.len() - vj,
        {
            let val = resolve(&formats, &ovs_list[vj], variants[vj].ident.as_str(), key.as_str());
            values.push(val);
            vj += 1;
        }
        accessors.push(AccessorDef { method_name, key: key.clone(), values });
        ki += 1;
    }
    let ppairs = formats.pluralizer_pairs();
    let mut pluralizers: Vec<PluralizerDef> = Vec::new();
    let mut pi: usize = 0;
    while pi < ppairs.len()
        invariant
            pi <= ppairs@.len(),
            pluralizers@.len() == pi,
            forall|k: int|
                0 <= k < pi ==> {
                    let pd = #[trigger] pluralizers@[k];
                    &&& pd.singular@ == fv.pluralizers[k].0
                    &&& pd.plural@ == fv.pluralizers[k].1
                    &&& pd.method_name@ == spec_pluralizer_method_name(fv.pluralizers[k].0)
                },
        decreases ppairs@.len() - pi,
    {
        let method_name = pluralizer_method_name_for_key(ppairs[pi].0.as_str());
        pluralizers.push(
            PluralizerDef {
                method_name,
                singular: ppairs[pi].0.clone(),
                plural: ppairs[pi].1.clone(),
            },
        );
        pi += 1;
    }
    Ok(NameDefs { accessors, pluralizers })
}

} // verus!
