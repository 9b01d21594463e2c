//! The validated schema: format rules, pluralizer pairings and per-variant
//! overrides, built by folding parsed attribute items.

use vstd::prelude::*;
use vstd::string::*;
use crate::errors::{SchemaError, SchemaErrorV, Site};
use crate::format::{spec_format_of_literal, Format};
use crate::parse::{items_view, kvs_view, parse_enum_attr, parse_variant_attr, spec_enum_attr,
    spec_variant_attr, EnumItem, EnumItemV};
use crate::strutil::str_eq;

verus! {

// ------------------------------------------------------------------
// Association lists with unique keys
// ------------------------------------------------------------------

/// First-match lookup in an association list.
pub open spec fn assoc_get<V>(m: Seq<(Seq<char>, V)>, k: Seq<char>) -> Option<V>
    decreases m.len(),
{
    if m.len() == 0 {
        None
    } else if m[0].0 == k {
        Some(m[0].1)
    } else {
        assoc_get(m.drop_first(), k)
    }
}

/// Insert-or-overwrite: an existing key keeps its position and gets the new
/// value; a new key is appended.
pub open spec fn assoc_put<V>(m: Seq<(Seq<char>, V)>, k: Seq<char>, v: V) -> Seq<
    (Seq<char>, V),
>
    decreases m.len(),
{
    if m.len() == 0 {
        seq![(k, v)]
    } else if m[0].0 == k {
        seq![(k, v)] + m.drop_first()
    } else {
        seq![m[0]] + assoc_put(m.drop_first(), k, v)
    }
}

/// No key occurs twice.
pub open spec fn unique_keys<V>(m: Seq<(Seq<char>, V)>) -> bool {
    forall|i: int, j: int| 0 <= i < j < m.len() ==> m[i].0 != m[j].0
}

pub proof fn lemma_assoc_put_found<V>(m: Seq<(Seq<char>, V)>, k: Seq<char>, v: V, idx: int)
    requires
        0 <= idx < m.len(),
        m[idx].0 == k,
        forall|j: int| 0 <= j < idx ==> m[j].0 != k,
    ensures
        assoc_put(m, k, v) == m.update(idx, (k, v)),
    decreases m.len(),
{
    if idx == 0 {
        assert(seq![(k, v)] + m.drop_first() =~= m.update(0, (k, v)));
    } else {
        lemma_assoc_put_found(m.drop_first(), k, v, idx - 1);
        assert(seq![m[0]] + m.drop_first().update(idx - 1, (k, v)) =~= m.update(idx, (k, v)));
    }
}

pub proof fn lemma_assoc_put_missing<V>(m: Seq<(Seq<char>, V)>, k: Seq<char>, v: V)
    requires
        forall|j: int| 0 <= j < m.len() ==> m[j].0 != k,
    ensures
        assoc_put(m, k, v) == m.push((k, v)),
    decreases m.len(),
{
    if m.len() == 0 {
        assert(seq![(k, v)] =~= m.push((k, v)));
    } else {
        lemma_assoc_put_missing(m.drop_first(), k, v);
        assert(seq![m[0]] + m.drop_first().push((k, v)) =~= m.push((k, v)));
    }
}

pub proof fn lemma_assoc_put_unique<V>(m: Seq<(Seq<char>, V)>, k: Seq<char>, v: V)
    requires
        unique_keys(m),
    ensures
        unique_keys(assoc_put(m, k, v)),
        assoc_put(m, k, v).len() <= m.len() + 1,
    decreases m.len(),
{
    if m.len() == 0 {
    } else if m[0].0 == k {
        let r = seq![(k, v)] + m.drop_first();
        assert forall|i: int, j: int| 0 <= i < j < r.len() implies r[i].0 != r[j].0 by {
            if i == 0 {
                assert(m[j].0 != m[0].0);
            } else {
                assert(m[i].0 != m[j].0);
            }
        }
    } else {
        assert(unique_keys(m.drop_first())) by {
            assert(forall|i: int, j: int|
                0 <= i < j < m.drop_first().len() ==> m.drop_first()[i].0 != m.drop_first()[j].0);
        }
        lemma_assoc_put_unique(m.drop_first(), k, v);
        let pr = assoc_put(m.drop_first(), k, v);
        let r = seq![m[0]] + pr;
        assert forall|i: int, j: int| 0 <= i < j < r.len() implies r[i].0 != r[j].0 by {
            if i == 0 {
                assert(pr[j - 1].0 != m[0].0) by {
                    lemma_assoc_put_keys(m.drop_first(), k, v, j - 1);
                }
            }
        }
    }
}

/// Every key of `assoc_put(m, k, v)` is `k` or a key of `m`.
pub proof fn lemma_assoc_put_keys<V>(m: Seq<(Seq<char>, V)>, k: Seq<char>, v: V, i: int)
    requires
        0 <= i < assoc_put(m, k, v).len(),
    ensures
        assoc_put(m, k, v)[i].0 == k || exists|j: int|
            0 <= j < m.len() && m[j].0 == assoc_put(m, k, v)[i].0,
    decreases m.len(),
{
    if m.len() == 0 {
    } else if m[0].0 == k {
        if i > 0 {
            assert(m[i].0 == assoc_put(m, k, v)[i].0);
        }
    } else {
        if i == 0 {
            assert(m[0].0 == assoc_put(m, k, v)[0].0);
        } else {
            lemma_assoc_put_keys(m.drop_first(), k, v, i - 1);
            if assoc_put(m.drop_first(), k, v)[i - 1].0 != k {
                let j0 = choose|j: int|
                    0 <= j < m.drop_first().len() && m.drop_first()[j].0 == assoc_put(
                        m.drop_first(),
                        k,
                        v,
                    )[i - 1].0;
                assert(m[j0 + 1].0 == assoc_put(m, k, v)[i].0);
            }
        }
    }
}

/// With unique keys, lookup of the key at index `i` yields that entry's value.
pub proof fn lemma_assoc_get_of_elem<V>(m: Seq<(Seq<char>, V)>, i: int)
    requires
        unique_keys(m),
        0 <= i < m.len(),
    ensures
        assoc_get(m, m[i].0) == Some(m[i].1),
    decreases m.len(),
{
    if i > 0 {
        assert(m[0].0 != m[i].0);
        assert(unique_keys(m.drop_first())) by {
            assert(forall|a: int, b: int|
                0 <= a < b < m.drop_first().len() ==> m.drop_first()[a].0 != m.drop_first()[b].0);
        }
        lemma_assoc_get_of_elem(m.drop_first(), i - 1);
    }
}

// ------------------------------------------------------------------
// Executable association-list operations
// ------------------------------------------------------------------

pub open spec fn fmt_assoc_view(m: Seq<(String, Format)>) -> Seq<(Seq<char>, Format)> {
    m.map_values(|p: (String, Format)| (p.0@, p.1))
}

pub open spec fn strs_view(s: Seq<String>) -> Seq<Seq<char>> {
    s.map_values(|x: String| x@)
}

fn assoc_find_format(m: &Vec<(String, Format)>, key: &str) -> (r: Option<Format>)
    ensures
        r == assoc_get(fmt_assoc_view(m@), key@),
{
    let ghost mv = fmt_assoc_view(m@);
    let mut i: usize = 0;
    proof {
        assert(mv.skip(0) =~= mv);
    }
    while i < m.len()
        invariant
            i <= m@.len(),
            mv == fmt_assoc_view(m@),
            assoc_get(mv, key@) == assoc_get(mv.skip(i as int), key@),
        decreases m@.len() - i,
    {
        if str_eq(m[i].0.as_str(), key) {
            proof {
                assert(mv.skip(i as int)[0] == mv[i as int]);
            }
            return Some(m[i].1);
        }
        proof {
            assert(mv.skip(i as int).drop_first() =~= mv.skip(i as int + 1));
        }
        i += 1;
    }
    None
}

fn assoc_find_string<'a>(m: &'a Vec<(String, String)>, key: &str) -> (r: Option<&'a String>)
    ensures
        match r {
            Some(v) => assoc_get(kvs_view(m@), key@) == Some(v@),
            None => assoc_get(kvs_view(m@), key@) is None,
        },
{
    let ghost mv = kvs_view(m@);
    let mut i: usize = 0;
    proof {
        assert(mv.skip(0) =~= mv);
    }
    while i < m.len()
        invariant
            i <= m@.len(),
            mv == kvs_view(m@),
            assoc_get(mv, key@) == assoc_get(mv.skip(i as int), key@),
        decreases m@.len() - i,
    {
        if str_eq(m[i].0.as_str(), key) {
            proof {
                assert(mv.skip(i as int)[0] == mv[i as int]);
            }
            return Some(&m[i].1);
        }
        proof {
            assert(mv.skip(i as int).drop_first() =~= mv.skip(i as int + 1));
        }
        i += 1;
    }
    None
}

fn assoc_put_format(m: &mut Vec<(String, Format)>, key: String, f: Format)
    ensures
        fmt_assoc_view(final(m)@) == assoc_put(fmt_assoc_view(old(m)@), key@, f),
{
    let ghost mv = fmt_assoc_view(m@);
    let mut i: usize = 0;
    while i < m.len()
        invariant
            i <= m@.len(),
            m@ == old(m)@,
            mv == fmt_assoc_view(old(m)@),
            mv == fmt_assoc_view(m@),
            forall|j: int| 0 <= j < i ==> mv[j].0 != key@,
        decreases m@.len() - i,
    {
        if str_eq(m[i].0.as_str(), key.as_str()) {
            let _ = m.remove(i);
            m.insert(i, (key, f));
            proof {
                lemma_assoc_put_found(mv, key@, f, i as int);
                assert(fmt_assoc_view(m@) =~= mv.update(i as int, (key@, f)));
            }
            return ;
        }
        i += 1;
    }
    m.push((key, f));
    proof {
        lemma_assoc_put_missing(mv, key@, f);
        assert(fmt_assoc_view(m@) =~= mv.push((key@, f)));
    }
}

fn assoc_put_string(m: &mut Vec<(String, String)>, key: String, v: String)
    ensures
        kvs_view(final(m)@) == assoc_put(kvs_view(old(m)@), key@, v@),
{
    let ghost mv = kvs_view(m@);
    let ghost vv = v@;
    let mut i: usize = 0;
    while i < m.len()
        invariant
            i <= m@.len(),
            m@ == old(m)@,
            vv == v@,
            mv == kvs_view(old(m)@),
            mv == kvs_view(m@),
            forall|j: int| 0 <= j < i ==> mv[j].0 != key@,
        decreases m@.len() - i,
    {
        if str_eq(m[i].0.as_str(), key.as_str()) {
            let _ = m.remove(i);
            m.insert(i, (key, v));
            proof {
                lemma_assoc_put_found(mv, key@, vv, i as int);
                assert(kvs_view(m@) =~= mv.update(i as int, (key@, vv)));
            }
            return ;
        }
        i += 1;
    }
    m.push((key, v));
    proof {
        lemma_assoc_put_missing(mv, key@, vv);
        assert(kvs_view(m@) =~= mv.push((key@, vv)));
    }
}

// ------------------------------------------------------------------
// Folding enumeration-level items into a schema
// ------------------------------------------------------------------

/// The partial schema while enumeration-level attribute items are folded.
/// Later occurrences of a sub-form overwrite earlier ones; pluralizer
/// pairings accumulate in order.
pub struct SchemaStateV {
    pub base: Option<Format>,
    pub extras: Seq<(Seq<char>, Format)>,
    pub plurs: Seq<(Seq<char>, Seq<char>)>,
}

pub open spec fn spec_empty_state() -> SchemaStateV {
    SchemaStateV { base: None, extras: Seq::empty(), plurs: Seq::empty() }
}

pub open spec fn stv(
    base: Option<Format>,
    extras: Seq<(String, Format)>,
    plurs: Seq<(String, String)>,
) -> SchemaStateV {
    SchemaStateV { base, extras: fmt_assoc_view(extras), plurs: kvs_view(plurs) }
}

/// Fold the entries of one `extra(...)` item: a key named `base` is
/// reserved, a literal must be a recognized rule name, and a repeated key is
/// overwritten.
pub open spec fn spec_apply_extra_kvs(
    extras: Seq<(Seq<char>, Format)>,
    kvs: Seq<(Seq<char>, Seq<char>)>,
) -> Result<Seq<(Seq<char>, Format)>, SchemaErrorV>
    decreases kvs.len(),
{
    if kvs.len() == 0 {
        Ok(extras)
    } else {
        let k = kvs[0].0;
        let lit = kvs[0].1;
        if k == "base"@ {
            Err(SchemaErrorV::ReservedKeyName)
        } else {
            match spec_format_of_literal(lit) {
                Some(f) => spec_apply_extra_kvs(assoc_put(extras, k, f), kvs.drop_first()),
                None => Err(SchemaErrorV::InvalidFormatLiteral { literal: lit }),
            }
        }
    }
}

pub open spec fn spec_apply_item(st: SchemaStateV, item: EnumItemV) -> Result<
    SchemaStateV,
    SchemaErrorV,
> {
    match item {
        EnumItemV::BaseRule(lit) => match spec_format_of_literal(lit) {
            Some(f) => Ok(SchemaStateV { base: Some(f), extras: st.extras, plurs: st.plurs }),
            None => Err(SchemaErrorV::InvalidFormatLiteral { literal: lit }),
        },
        EnumItemV::ExtraRules(kvs) => match spec_apply_extra_kvs(st.extras, kvs) {
            Ok(ex) => Ok(SchemaStateV { base: st.base, extras: ex, plurs: st.plurs }),
            Err(e) => Err(e),
        },
        EnumItemV::PluralizerPair(a, b) => Ok(
            SchemaStateV { base: st.base, extras: st.extras, plurs: st.plurs.push((a, b)) },
        ),
    }
}

pub open spec fn spec_apply_items(st: SchemaStateV, items: Seq<EnumItemV>) -> Result<
    SchemaStateV,
    SchemaErrorV,
>
    decreases items.len(),
{
    if items.len() == 0 {
        Ok(st)
    } else {
        match spec_apply_item(st, items[0]) {
            Ok(st2) => spec_apply_items(st2, items.drop_first()),
            Err(e) => Err(e),
        }
    }
}

pub open spec fn spec_apply_attr(st: SchemaStateV, s: Seq<char>) -> Result<
    SchemaStateV,
    SchemaErrorV,
> {
    match spec_enum_attr(s) {
        Some(items) => spec_apply_items(st, items),
        None => Err(SchemaErrorV::Malformed),
    }
}

pub open spec fn spec_apply_attrs(st: SchemaStateV, attrs: Seq<Seq<char>>) -> Result<
    SchemaStateV,
    SchemaErrorV,
>
    decreases attrs.len(),
{
    if attrs.len() == 0 {
        Ok(st)
    } else {
        match spec_apply_attr(st, attrs[0]) {
            Ok(st2) => spec_apply_attrs(st2, attrs.drop_first()),
            Err(e) => Err(e),
        }
    }
}

/// Check each pluralizer pairing in order: both keys must be `base` or a
/// declared extra key; the first undeclared key is the error.
pub open spec fn spec_validate_plurs(
    extras: Seq<(Seq<char>, Format)>,
    plurs: Seq<(Seq<char>, Seq<char>)>,
) -> Option<SchemaErrorV>
    decreases plurs.len(),
{
    if plurs.len() == 0 {
        None
    } else {
        let a = plurs[0].0;
        let b = plurs[0].1;
        if a != "base"@ && assoc_get(extras, a) is None {
            Some(SchemaErrorV::UnknownKey { key: a, site: Site::Pluralizer })
        } else if b != "base"@ && assoc_get(extras, b) is None {
            Some(SchemaErrorV::UnknownKey { key: b, site: Site::Pluralizer })
        } else {
            spec_validate_plurs(extras, plurs.drop_first())
        }
    }
}

/// What building a schema from the enumeration-level attribute texts yields:
/// the folded rule set, or the first violation.
pub open spec fn spec_formats_new(attrs: Seq<Seq<char>>) -> Result<FormatsV, SchemaErrorV> {
    match spec_apply_attrs(spec_empty_state(), attrs) {
        Err(e) => Err(e),
        Ok(st) => match st.base {
            None => Err(SchemaErrorV::MissingBase),
            Some(b) => match spec_validate_plurs(st.extras, st.plurs) {
                Some(e) => Err(e),
                None => Ok(FormatsV { base: b, extras: st.extras, pluralizers: st.plurs }),
            },
        },
    }
}

// ------------------------------------------------------------------
// The validated format-rule set
// ------------------------------------------------------------------

/// Specification-level value of [`Formats`].
pub struct FormatsV {
    pub base: Format,
    pub extras: Seq<(Seq<char>, Format)>,
    pub pluralizers: Seq<(Seq<char>, Seq<char>)>,
}

impl FormatsV {
    /// The key is declared: `base`, or one of the extra keys.
    pub open spec fn spec_has(self, k: Seq<char>) -> bool {
        k == "base"@ || assoc_get(self.extras, k) is Some
    }

    /// The rule a declared key maps to.
    pub open spec fn spec_rule_of(self, k: Seq<char>) -> Option<Format> {
        if k == "base"@ {
            Some(self.base)
        } else {
            assoc_get(self.extras, k)
        }
    }

    /// Extra keys are unique and every pluralizer key is declared.
    pub open spec fn wf(self) -> bool {
        unique_keys(self.extras) && forall|i: int|
            0 <= i < self.pluralizers.len() ==> self.spec_has(
                (#[trigger] self.pluralizers[i]).0,
            ) && self.spec_has(self.pluralizers[i].1)
    }
}

/// The format rules of one enumeration: the required base rule, the named
/// extra rules in declaration order, and the declared pluralizer pairings.
#[derive(Debug)]
pub struct Formats {
    pub base: Format,
    pub extras: Vec<(String, Format)>,
    pub pluralizers: Vec<(String, String)>,
}

impl View for Formats {
    type V = FormatsV;

    open spec fn view(&self) -> FormatsV {
        FormatsV {
            base: self.base,
            extras: fmt_assoc_view(self.extras@),
            pluralizers: kvs_view(self.pluralizers@),
        }
    }
}

impl Formats {
    /// Build the rule set from the enumeration-level attribute texts,
    /// validating eagerly: the first violation is the result.
    #[verifier::loop_isolation(false)]
    pub fn new(attrs: &Vec<String>) -> (r: Result<Formats, SchemaError>)
        ensures
            match r {
                Ok(f) => f@.wf() && spec_formats_new(strs_view(attrs@)) == Ok::<
                    FormatsV,
                    SchemaErrorV,
                >(f@),
                Err(e) => spec_formats_new(strs_view(attrs@)) == Err::<FormatsV, SchemaErrorV>(
                    e@,
                ),
            },
    {
        let ghost attrsv = strs_view(attrs@);
        let mut base: Option<Format> = None;
        let mut extras: Vec<(String, Format)> = Vec::new();
        let mut plurs: Vec<(String, String)> = Vec::new();
        let mut ai: usize = 0;
        proof {
            assert(attrsv.skip(0) =~= attrsv);
            assert(fmt_assoc_view(extras@) =~= Seq::<(Seq<char>, Format)>::empty());
            assert(kvs_view(plurs@) =~= Seq::<(Seq<char>, Seq<char>)>::empty());
            assert(forall|k: int| 0 <= k < attrs@.len() ==> attrsv[k] == (#[trigger] attrs@[k])@);
        }
        while ai < attrs.len()
            invariant
                ai <= attrs@.len(),
                attrsv == strs_view(attrs@),
                forall|k: int| 0 <= k < attrs@.len() ==> attrsv[k] == (#[trigger] attrs@[k])@,
                unique_keys(fmt_assoc_view(extras@)),
                spec_apply_attrs(spec_empty_state(), attrsv) == spec_apply_attrs(
                    stv(base, extras@, plurs@),
                    attrsv.skip(ai as int),
                ),
            decreases attrs@.len() - ai,
        {
            let ghost st_attr = stv(base, extras@, plurs@);
            proof {
                assert(attrsv.skip(ai as int)[0] == attrsv[ai as int]);
            }
            let items = match parse_enum_attr(attrs[ai].as_str()) {
                Some(it) => it,
                None => {
                    return Err(SchemaError::Malformed);
                },
            };
            let ghost itemsv = items_view(items@);
            proof {
                assert(forall|k: int|
                    0 <= k < items@.len() ==> itemsv[k] == (#[trigger] items@[k])@);
                assert(itemsv.skip(0) =~= itemsv);
            }
            let mut ii: usize = 0;
            while ii < items.len()
                invariant
                    ii <= items@.len(),
                    ai < attrs@.len(),
                    itemsv == items_view(items@),
                    forall|k: int| 0 <= k < items@.len() ==> itemsv[k] == (#[trigger] items@[k])@,
                    unique_keys(fmt_assoc_view(extras@)),
                    spec_apply_attrs(spec_empty_state(), attrsv) == spec_apply_attrs(
                        st_attr,
                        attrsv.skip(ai as int),
                    ),
                    spec_enum_attr(attrsv[ai as int]) == Some(itemsv),
                    spec_apply_items(st_attr, itemsv) == spec_apply_items(
                        stv(base, extras@, plurs@),
                        itemsv.skip(ii as int),
                    ),
                decreases items@.len() - ii,
            {
                let ghost st_item = stv(base, extras@, plurs@);
                proof {
                    assert(itemsv.skip(ii as int)[0] == itemsv[ii as int]);
                }
                match &items[ii] {
                    EnumItem::BaseRule(lit) => {
                        match Format::parse_str(lit.as_str()) {
                            Ok(f) => {
                                base = Some(f);
                            },
                            Err(e) => {
                                return Err(e);
                            },
                        }
                    },
                    EnumItem::ExtraRules(kvs) => {
                        let ghost kvsv = kvs_view(kvs@);
                        let ghost extras_entry = fmt_assoc_view(extras@);
                        proof {
                            assert(kvsv.skip(0) =~= kvsv);
                        }
                        let mut ki: usize = 0;
                        while ki < kvs.len()
                            invariant
                                ki <= kvs@.len(),
                                ai < attrs@.len(),
                                ii < items@.len(),
                                kvsv == kvs_view(kvs@),
                                itemsv == items_view(items@),
                                itemsv[ii as int] == EnumItemV::ExtraRules(kvsv),
                                st_item.base == base,
                                st_item.extras == extras_entry,
                                st_item.plurs == kvs_view(plurs@),
                                unique_keys(fmt_assoc_view(extras@)),
                                spec_apply_attrs(spec_empty_state(), attrsv)
                                    == spec_apply_attrs(st_attr, attrsv.skip(ai as int)),
                                spec_enum_attr(attrsv[ai as int]) == Some(itemsv),
                                spec_apply_items(st_attr, itemsv) == spec_apply_items(
                                    st_item,
                                    itemsv.skip(ii as int),
                                ),
                                spec_apply_extra_kvs(extras_entry, kvsv)
                                    == spec_apply_extra_kvs(
                                    fmt_assoc_view(extras@),
                                    kvsv.skip(ki as int),
                                ),
                            decreases kvs@.len() - ki,
                        {
                            proof {
                                assert(kvsv.skip(ki as int)[0] == kvsv[ki as int]);
                            }
                            let key = &kvs[ki].0;
                            let lit = &kvs[ki].1;
                            if str_eq(key.as_str(), "base") {
                                return Err(SchemaError::ReservedKeyName);
                            }
                            match Format::parse_str(lit.as_str()) {
                                Ok(f) => {
                                    proof {
                                        lemma_assoc_put_unique(fmt_assoc_view(extras@), key@, f);
                                    }
                                    assoc_put_format(&mut extras, key.clone(), f);
                                    proof {
                                        assert(kvsv.skip(ki as int).drop_first() =~= kvsv.skip(
                                            ki as int + 1,
                                        ));
                                    }
                                },
                                Err(e) => {
                                    return Err(e);
                                },
                            }
                            ki += 1;
                        }
                        proof {
                            assert(kvsv.skip(kvs@.len() as int) =~= Seq::<
                                (Seq<char>, Seq<char>),
                            >::empty());
                        }
                    },
                    EnumItem::PluralizerPair(a, b) => {
                        let ghost plurs_entry = kvs_view(plurs@);
                        plurs.push((a.clone(), b.clone()));
                        proof {
                            assert(kvs_view(plurs@) =~= plurs_entry.push((a@, b@)));
                        }
                    },
                }
                proof {
                    assert(itemsv.skip(ii as int).drop_first() =~= itemsv.skip(ii as int + 1));
                }
                ii += 1;
            }
            proof {
                assert(itemsv.skip(items@.len() as int) =~= Seq::<EnumItemV>::empty());
                assert(attrsv.skip(ai as int).drop_first() =~= attrsv.skip(ai as int + 1));
            }
            ai += 1;
        }
        proof {
            assert(attrsv.skip(attrs@.len() as int) =~= Seq::<Seq<char>>::empty());
        }
        let b = match base {
            Some(x) => x,
            None => {
                return Err(SchemaError::MissingBase);
            },
        };
        let ghost exv = fmt_assoc_view(extras@);
        let ghost plv = kvs_view(plurs@);
        proof {
            assert(plv.skip(0) =~= plv);
        }
        let mut pi: usize = 0;
        while pi < plurs.len()
            invariant
                pi <= plurs@.len(),
                exv == fmt_assoc_view(extras@),
                plv == kvs_view(plurs@),
                spec_validate_plurs(exv, plv) == spec_validate_plurs(exv, plv.skip(pi as int)),
                forall|j: int|
                    0 <= j < pi ==> ((#[trigger] plv[j]).0 == "base"@ || assoc_get(exv, plv[j].0)
                        is Some) && (plv[j].1 == "base"@ || assoc_get(exv, plv[j].1) is Some),
            decreases plurs@.len() - pi,
        {
            proof {
                assert(plv.skip(pi as int)[0] == plv[pi as int]);
            }
            let ka = &plurs[pi].0;
            let kb = &plurs[pi].1;
            if !str_eq(ka.as_str(), "base") {
                match assoc_find_format(&extras, ka.as_str()) {
                    Some(_) => {},
                    None => {
                        return Err(
                            SchemaError::UnknownKey { key: ka.clone(), site: Site::Pluralizer },
                        );
                    },
                }
            }
            if !str_eq(kb.as_str(), "base") {
                match assoc_find_format(&extras, kb.as_str()) {
                    Some(_) => {},
                    None => {
                        return Err(
                            SchemaError::UnknownKey { key: kb.clone(), site: Site::Pluralizer },
                        );
                    },
                }
            }
            proof {
                assert(plv.skip(pi as int).drop_first() =~= plv.skip(pi as int + 1));
            }
            pi += 1;
        }
        proof {
            assert(plv.skip(plurs@.len() as int) =~= Seq::<(Seq<char>, Seq<char>)>::empty());
        }
        let f = Formats { base: b, extras, pluralizers: plurs };
        Ok(f)
    }

    /// The key is declared: `base`, or one of the extra keys.
    pub fn has(&self, key: &str) -> (r: bool)
        ensures
            r == self@.spec_has(key@),
    {
        if str_eq(key, "base") {
            true
        } else {
            match assoc_find_format(&self.extras, key) {
                Some(_) => true,
                None => false,
            }
        }
    }

    /// The rule a declared key maps to.
    pub fn get(&self, key: &str) -> (r: Format)
        requires
            self@.spec_has(key@),
        ensures
            self@.spec_rule_of(key@) == Some(r),
    {
        if str_eq(key, "base") {
            self.base
        } else {
            match assoc_find_format(&self.extras, key) {
                Some(f) => f,
                None => {
                    proof {
                        assert(false);
                    }
                    self.base
                },
            }
        }
    }

    /// All declared keys with their rules: `base` first, then the extra keys
    /// in declaration order.
    pub fn iter(&self) -> (r: Vec<(String, Format)>)
        ensures
            fmt_assoc_view(r@) == seq![("base"@, self@.base)] + self@.extras,
    {
        let mut out: Vec<(String, Format)> = Vec::new();
        out.push(("base".to_owned(), self.base));
        proof {
            assert(fmt_assoc_view(out@) =~= seq![("base"@, self@.base)] + self@.extras.take(0));
        }
        let mut i: usize = 0;
        while i < self.extras.len()
            invariant
                i <= self.extras@.len(),
                fmt_assoc_view(out@) == seq![("base"@, self@.base)] + self@.extras.take(i as int),
            decreases self.extras@.len() - i,
        {
            let ghost before = fmt_assoc_view(out@);
            out.push((self.extras[i].0.clone(), self.extras[i].1));
            proof {
                assert(fmt_assoc_view(out@) =~= before.push(
                    (self.extras@[i as int].0@, self.extras@[i as int].1),
                ));
                assert(fmt_assoc_view(out@) =~= seq![("base"@, self@.base)] + self@.extras.take(
                    i as int + 1,
                ));
            }
            i += 1;
        }
        proof {
            assert(self@.extras.take(self.extras@.len() as int) =~= self@.extras);
        }
        out
    }

    /// The declared pluralizer pairings, in declaration order.
    pub fn pluralizer_pairs(&self) -> (r: &Vec<(String, String)>)
        ensures
            kvs_view(r@) == self@.pluralizers,
    {
        &self.pluralizers
    }
}

// ------------------------------------------------------------------
// Per-variant overrides
// ------------------------------------------------------------------

/// Fold the entries of one variant-level attribute into the override map:
/// every key must be declared; a repeated key is overwritten.
pub open spec fn spec_apply_override_kvs(
    fv: FormatsV,
    m: Seq<(Seq<char>, Seq<char>)>,
    kvs: Seq<(Seq<char>, Seq<char>)>,
) -> Result<Seq<(Seq<char>, Seq<char>)>, SchemaErrorV>
    decreases kvs.len(),
{
    if kvs.len() == 0 {
        Ok(m)
    } else {
        let k = kvs[0].0;
        let v = kvs[0].1;
        if !fv.spec_has(k) {
            Err(SchemaErrorV::UnknownKey { key: k, site: Site::Override })
        } else {
            spec_apply_override_kvs(fv, assoc_put(m, k, v), kvs.drop_first())
        }
    }
}

pub open spec fn spec_overrides_attrs(
    fv: FormatsV,
    m: Seq<(Seq<char>, Seq<char>)>,
    attrs: Seq<Seq<char>>,
) -> Result<Seq<(Seq<char>, Seq<char>)>, SchemaErrorV>
    decreases attrs.len(),
{
    if attrs.len() == 0 {
        Ok(m)
    } else {
        match spec_variant_attr(attrs[0]) {
            None => Err(SchemaErrorV::Malformed),
            Some(kvs) => match spec_apply_override_kvs(fv, m, kvs) {
                Ok(m2) => spec_overrides_attrs(fv, m2, attrs.drop_first()),
                Err(e) => Err(e),
            },
        }
    }
}

/// What building a variant's override map from its attribute texts yields.
pub open spec fn spec_overrides_new(fv: FormatsV, attrs: Seq<Seq<char>>) -> Result<
    Seq<(Seq<char>, Seq<char>)>,
    SchemaErrorV,
> {
    spec_overrides_attrs(fv, Seq::empty(), attrs)
}

/// One variant's override map: declared keys to replacement strings.
#[derive(Debug)]
pub struct Overrides {
    pub map: Vec<(String, String)>,
}

impl View for Overrides {
    type V = Seq<(Seq<char>, Seq<char>)>;

    open spec fn view(&self) -> Seq<(Seq<char>, Seq<char>)> {
        kvs_view(self.map@)
    }
}

impl Overrides {
    /// Build a variant's override map from its attribute texts, validating
    /// every referenced key against the declared rule set.
    #[verifier::loop_isolation(false)]
    pub fn new(formats: &Formats, attrs: &Vec<String>) -> (r: Result<Overrides, SchemaError>)
        ensures
            match r {
                Ok(o) => unique_keys(o@) && spec_overrides_new(formats@, strs_view(attrs@))
                    == Ok::<Seq<(Seq<char>, Seq<char>)>, SchemaErrorV>(o@),
                Err(e) => spec_overrides_new(formats@, strs_view(attrs@)) == Err::<
                    Seq<(Seq<char>, Seq<char>)>,
                    SchemaErrorV,
                >(e@),
            },
    {
        let ghost attrsv = strs_view(attrs@);
        let ghost fv = formats@;
        let mut map: Vec<(String, String)> = Vec::new();
        let mut ai: usize = 0;
        proof {
            assert(attrsv.skip(0) =~= attrsv);
            assert(kvs_view(map@) =~= Seq::<(Seq<char>, Seq<char>)>::empty());
            assert(forall|k: int| 0 <= k < attrs@.len() ==> attrsv[k] == (#[trigger] attrs@[k])@);
        }
        while ai < attrs.len()
            invariant
                ai <= attrs@.len(),
                fv == formats@,
                attrsv == strs_view(attrs@),
                forall|k: int| 0 <= k < attrs@.len() ==> attrsv[k] == (#[trigger] attrs@[k])@,
                unique_keys(kvs_view(map@)),
                spec_overrides_attrs(fv, Seq::empty(), attrsv) == spec_overrides_attrs(
                    fv,
                    kvs_view(map@),
                    attrsv.skip(ai as int),
                ),
            decreases attrs@.len() - ai,
        {
            let ghost m_attr = kvs_view(map@);
            proof {
                assert(attrsv.skip(ai as int)[0] == attrsv[ai as int]);
            }
            let kvs = match parse_variant_attr(attrs[ai].as_str()) {
                Some(k) => k,
                None => {
                    return Err(SchemaError::Malformed);
                },
            };
            let ghost kvsv = kvs_view(kvs@);
            proof {
                assert(kvsv.skip(0) =~= kvsv);
            }
            let mut ki: usize = 0;
            while ki < kvs.len()
                invariant
                    ki <= kvs@.len(),
                    ai < attrs@.len(),
                    fv == formats@,
                    attrsv == strs_view(attrs@),
                    kvsv == kvs_view(kvs@),
                    unique_keys(kvs_view(map@)),
                    spec_overrides_attrs(fv, Seq::empty(), attrsv) == spec_overrides_attrs(
                        fv,
                        m_attr,
                        attrsv.skip(ai as int),
                    ),
                    spec_variant_attr(attrsv[ai as int]) == Some(kvsv),
                    spec_apply_override_kvs(fv, m_attr, kvsv) == spec_apply_override_kvs(
                        fv,
                        kvs_view(map@),
                        kvsv.skip(ki as int),
                    ),
                decreases kvs@.len() - ki,
            {
                proof {
                    assert(kvsv.skip(ki as int)[0] == kvsv[ki as int]);
                }
                let key = &kvs[ki].0;
                let val = &kvs[ki].1;
                if !formats.has(key.as_str()) {
                    proof {
                        assert(attrsv.skip(ai as int)[0] == attrsv[ai as int]);
                    }
                    return Err(SchemaError::UnknownKey { key: key.clone(), site: Site::Override });
                }
                proof {
                    lemma_assoc_put_unique(kvs_view(map@), key@, val@);
                }
                assoc_put_string(&mut map, key.clone(), val.clone());
                proof {
                    assert(kvsv.skip(ki as int).drop_first() =~= kvsv.skip(ki as int + 1));
                }
                ki += 1;
            }
            proof {
                assert(kvsv.skip(kvs@.len() as int) =~= Seq::<(Seq<char>, Seq<char>)>::empty());
                assert(attrsv.skip(ai as int).drop_first() =~= attrsv.skip(ai as int + 1));
            }
            ai += 1;
        }
        proof {
            assert(attrsv.skip(attrs@.len() as int) =~= Seq::<Seq<char>>::empty());
        }
        Ok(Overrides { map })
    }

    /// The override for a key, if the variant declares one.
    pub fn get<'a>(&'a self, key: &str) -> (r: Option<&'a String>)
        ensures
            match r {
                Some(v) => assoc_get(self@, key@) == Some(v@),
                None => assoc_get(self@, key@) is None,
            },
    {
        assoc_find_string(&self.map, key)
    }
}

// ------------------------------------------------------------------
// Variant declarations
// ------------------------------------------------------------------

/// One variant of the enumeration declaration: its identifier, its
/// variant-level attribute texts, and whether it is a unit variant (carries
/// no payload).
#[derive(Debug)]
pub struct VariantDecl {
    pub ident: String,
    pub attrs: Vec<String>,
    pub unit: bool,
}

/// Specification-level value of a [`VariantDecl`].
pub struct VariantDeclV {
    pub ident: Seq<char>,
    pub attrs: Seq<Seq<char>>,
    pub unit: bool,
}

impl View for VariantDecl {
    type V = VariantDeclV;

    open spec fn view(&self) -> VariantDeclV {
        VariantDeclV { ident: self.ident@, attrs: strs_view(self.attrs@), unit: self.unit }
    }
}

pub open spec fn decls_view(vs: Seq<VariantDecl>) -> Seq<VariantDeclV> {
    vs.map_values(|v: VariantDecl| v@)
}

} // verus!
