//! Parser for the attribute grammar: tokenizer and item-level parsers for the
//! enumeration-level and variant-level attribute text.

use vstd::prelude::*;
use vstd::string::*;
use crate::strutil::str_eq;

verus! {

// ------------------------------------------------------------------
// Character classes
// ------------------------------------------------------------------

pub open spec fn is_ws_char(c: char) -> bool {
    c == ' ' || c == '\t' || c == '\n' || c == '\r'
}

pub open spec fn is_ident_start_char(c: char) -> bool {
    ('a' as u32 <= c as u32 && c as u32 <= 'z' as u32) || ('A' as u32 <= c as u32 && c as u32
        <= 'Z' as u32) || c == '_'
}

pub open spec fn is_ident_char(c: char) -> bool {
    is_ident_start_char(c) || ('0' as u32 <= c as u32 && c as u32 <= '9' as u32)
}

fn ws_char(c: char) -> (r: bool)
    ensures
        r == is_ws_char(c),
{
    c == ' ' || c == '\t' || c == '\n' || c == '\r'
}

fn ident_start_char(c: char) -> (r: bool)
    ensures
        r == is_ident_start_char(c),
{
    ('a' as u32 <= c as u32 && c as u32 <= 'z' as u32) || ('A' as u32 <= c as u32 && c as u32
        <= 'Z' as u32) || c == '_'
}

fn ident_char(c: char) -> (r: bool)
    ensures
        r == is_ident_char(c),
{
    ident_start_char(c) || ('0' as u32 <= c as u32 && c as u32 <= '9' as u32)
}

// ------------------------------------------------------------------
// Tokens
// ------------------------------------------------------------------

/// A token of the attribute grammar.
pub enum Tok {
    Ident(String),
    StrLit(String),
    Equals,
    Comma,
    OpenParen,
    CloseParen,
}

/// Specification-level value of a [`Tok`].
pub enum TokV {
    Ident(Seq<char>),
    StrLit(Seq<char>),
    Equals,
    Comma,
    OpenParen,
    CloseParen,
}

impl View for Tok {
    type V = TokV;

    open spec fn view(&self) -> TokV {
        match self {
            Tok::Ident(s) => TokV::Ident(s@),
            Tok::StrLit(s) => TokV::StrLit(s@),
            Tok::Equals => TokV::Equals,
            Tok::Comma => TokV::Comma,
            Tok::OpenParen => TokV::OpenParen,
            Tok::CloseParen => TokV::CloseParen,
        }
    }
}

pub open spec fn toks_view(ts: Seq<Tok>) -> Seq<TokV> {
    ts.map_values(|t: Tok| t@)
}

// ------------------------------------------------------------------
// Tokenizer, specification level
// ------------------------------------------------------------------

/// The index just past the run of identifier characters starting at `i`.
pub open spec fn ident_end(s: Seq<char>, i: nat) -> nat
    decreases s.len() - i,
        when i <= s.len()
{
    if i < s.len() && is_ident_char(s[i as int]) {
        ident_end(s, i + 1)
    } else {
        i
    }
}

/// The index of the first `"` at or after `i`, if any.
pub open spec fn quote_end(s: Seq<char>, i: nat) -> Option<nat>
    decreases s.len() - i,
        when i <= s.len()
{
    if i >= s.len() {
        None
    } else if s[i as int] == '"' {
        Some(i)
    } else {
        quote_end(s, i + 1)
    }
}

pub proof fn lemma_ident_end_bounds(s: Seq<char>, i: nat)
    requires
        i <= s.len(),
    ensures
        i <= ident_end(s, i) <= s.len(),
    decreases s.len() - i,
{
    if i < s.len() && is_ident_char(s[i as int]) {
        lemma_ident_end_bounds(s, i + 1);
    }
}

pub proof fn lemma_quote_end_bounds(s: Seq<char>, i: nat)
    requires
        i <= s.len(),
    ensures
        match quote_end(s, i) {
            Some(j) => i <= j < s.len(),
            None => true,
        },
    decreases s.len() - i,
{
    if i < s.len() && s[i as int] != '"' {
        lemma_quote_end_bounds(s, i + 1);
    }
}

/// The token sequence of the attribute text from index `i` on, or `None` if a
/// character fits no token.
pub open spec fn spec_tokenize_from(s: Seq<char>, i: nat) -> Option<Seq<TokV>>
    decreases s.len() - i,
        when i <= s.len()
        via spec_tokenize_from_decreases
{
    if i >= s.len() {
        Some(Seq::empty())
    } else if is_ws_char(s[i as int]) {
        spec_tokenize_from(s, i + 1)
    } else if is_ident_start_char(s[i as int]) {
        let j = ident_end(s, i + 1);
        match spec_tokenize_from(s, j) {
            Some(rest) => Some(seq![TokV::Ident(s.subrange(i as int, j as int))] + rest),
            None => None,
        }
    } else if s[i as int] == '"' {
        match quote_end(s, i + 1) {
            Some(j) => match spec_tokenize_from(s, j + 1) {
                Some(rest) => Some(
                    seq![TokV::StrLit(s.subrange((i + 1) as int, j as int))] + rest,
                ),
                None => None,
            },
            None => None,
        }
    } else if s[i as int] == '=' {
        match spec_tokenize_from(s, i + 1) {
            Some(rest) => Some(seq![TokV::Equals] + rest),
            None => None,
        }
    } else if s[i as int] == ',' {
        match spec_tokenize_from(s, i + 1) {
            Some(rest) => Some(seq![TokV::Comma] + rest),
            None => None,
        }
    } else if s[i as int] == '(' {
        match spec_tokenize_from(s, i + 1) {
            Some(rest) => Some(seq![TokV::OpenParen] + rest),
            None => None,
        }
    } else if s[i as int] == ')' {
        match spec_tokenize_from(s, i + 1) {
            Some(rest) => Some(seq![TokV::CloseParen] + rest),
            None => None,
        }
    } else {
        None
    }
}

#[via_fn]
proof fn spec_tokenize_from_decreases(s: Seq<char>, i: nat) {
    if i < s.len() {
        lemma_ident_end_bounds(s, i + 1);
        lemma_quote_end_bounds(s, i + 1);
    }
}

// ------------------------------------------------------------------
// Tokenizer, executable
// ------------------------------------------------------------------

/// The tokens already produced together with the tokens of the rest of the
/// input make up the tokens of the whole input.
pub open spec fn tok_prefix_ok(s: Seq<char>, i: nat, done: Seq<TokV>) -> bool {
    spec_tokenize_from(s, 0) == match spec_tokenize_from(s, i) {
        Some(rest) => Some(done + rest),
        None => None::<Seq<TokV>>,
    }
}

/// Split the attribute text into tokens; `None` if some character fits no
/// token or a string literal is unterminated.
pub fn tokenize(s: &str) -> (r: Option<Vec<Tok>>)
    ensures
        match r {
            Some(ts) => spec_tokenize_from(s@, 0) == Some(toks_view(ts@)),
            None => spec_tokenize_from(s@, 0) is None,
        },
{
    let len = s.unicode_len();
    let mut toks: Vec<Tok> = Vec::new();
    let mut i: usize = 0;
    proof {
        assert(toks_view(toks@) + spec_tokenize_from(s@, 0)->Some_0 =~= spec_tokenize_from(
            s@,
            0,
        )->Some_0);
    }
    while i < len
        invariant
            len == s@.len(),
            i <= len,
            tok_prefix_ok(s@, i as nat, toks_view(toks@)),
        decreases len - i,
    {
        let ghost done = toks_view(toks@);
        let c = s.get_char(i);
        if ws_char(c) {
            i += 1;
        } else if ident_start_char(c) {
            let start = i;
            let mut j = i + 1;
            while j < len && ident_char(s.get_char(j))
                invariant
                    len == s@.len(),
                    start < j <= len,
                    ident_end(s@, (start + 1) as nat) == ident_end(s@, j as nat),
                decreases len - j,
            {
                j += 1;
            }
            proof {
                assert(ident_end(s@, j as nat) == j);
            }
            let text = s.substring_char(start, j).to_owned();
            let ghost tv = TokV::Ident(s@.subrange(start as int, j as int));
            toks.push(Tok::Ident(text));
            proof {
                assert(toks_view(toks@) =~= done.push(tv));
                if spec_tokenize_from(s@, j as nat) is Some {
                    let rest = spec_tokenize_from(s@, j as nat)->Some_0;
                    assert(done + (seq![tv] + rest) =~= done.push(tv) + rest);
                }
            }
            i = j;
        } else if c == '"' {
            let mut j = i + 1;
            let mut found = false;
            while j < len && !found
                invariant
                    len == s@.len(),
                    i < j <= len,
                    !found ==> quote_end(s@, (i + 1) as nat) == quote_end(s@, j as nat),
                    found ==> j < len && quote_end(s@, (i + 1) as nat) == Some(j as nat),
                decreases len - j, (if found { 0int } else { 1int }),
            {
                if s.get_char(j) == '"' {
                    found = true;
                } else {
                    j += 1;
                }
            }
            if !found {
                proof {
                    assert(quote_end(s@, (i + 1) as nat) is None);
                }
                return None;
            }
            let text = s.substring_char(i + 1, j).to_owned();
            let ghost tv = TokV::StrLit(s@.subrange((i + 1) as int, j as int));
            toks.push(Tok::StrLit(text));
            proof {
                assert(toks_view(toks@) =~= done.push(tv));
                if spec_tokenize_from(s@, (j + 1) as nat) is Some {
                    let rest = spec_tokenize_from(s@, (j + 1) as nat)->Some_0;
                    assert(done + (seq![tv] + rest) =~= done.push(tv) + rest);
                }
            }
            i = j + 1;
        } else if c == '=' || c == ',' || c == '(' || c == ')' {
            let tok = if c == '=' {
                Tok::Equals
            } else if c == ',' {
                Tok::Comma
            } else if c == '(' {
                Tok::OpenParen
            } else {
                Tok::CloseParen
            };
            let ghost tv = tok@;
            toks.push(tok);
            proof {
                assert(toks_view(toks@) =~= done.push(tv));
                if spec_tokenize_from(s@, (i + 1) as nat) is Some {
                    let rest = spec_tokenize_from(s@, (i + 1) as nat)->Some_0;
                    assert(done + (seq![tv] + rest) =~= done.push(tv) + rest);
                }
            }
            i += 1;
        } else {
            return None;
        }
    }
    proof {
        assert(spec_tokenize_from(s@, i as nat) == Some(Seq::<TokV>::empty()));
        assert(toks_view(toks@) + Seq::<TokV>::empty() =~= toks_view(toks@));
    }
    Some(toks)
}

// ------------------------------------------------------------------
// Attribute items
// ------------------------------------------------------------------

/// One enumeration-level attribute item.
pub enum EnumItem {
    /// `base = "<format-literal>"`, with the raw literal.
    BaseRule(String),
    /// `extra(<key> = "<format-literal>", ...)`, keys with raw literals.
    ExtraRules(Vec<(String, String)>),
    /// `pluralizer(<key>, <key>)`.
    PluralizerPair(String, String),
}

/// Specification-level value of an [`EnumItem`].
pub enum EnumItemV {
    BaseRule(Seq<char>),
    ExtraRules(Seq<(Seq<char>, Seq<char>)>),
    PluralizerPair(Seq<char>, Seq<char>),
}

pub open spec fn kvs_view(kvs: Seq<(String, String)>) -> Seq<(Seq<char>, Seq<char>)> {
    kvs.map_values(|p: (String, String)| (p.0@, p.1@))
}

impl View for EnumItem {
    type V = EnumItemV;

    open spec fn view(&self) -> EnumItemV {
        match self {
            EnumItem::BaseRule(lit) => EnumItemV::BaseRule(lit@),
            EnumItem::ExtraRules(kvs) => EnumItemV::ExtraRules(kvs_view(kvs@)),
            EnumItem::PluralizerPair(a, b) => EnumItemV::PluralizerPair(a@, b@),
        }
    }
}

pub open spec fn items_view(items: Seq<EnumItem>) -> Seq<EnumItemV> {
    items.map_values(|it: EnumItem| it@)
}

// ------------------------------------------------------------------
// Item grammar, specification level
// ------------------------------------------------------------------

/// Parse `<key> = "<lit>"` pairs separated by commas, with an optional
/// trailing comma, stopping at (and not consuming) a closing parenthesis.
/// Yields the pairs and the index of the closing parenthesis.
pub open spec fn spec_kvs(ts: Seq<TokV>, i: nat) -> Option<(Seq<(Seq<char>, Seq<char>)>, nat)>
    decreases ts.len() - i,
        when i <= ts.len()
{
    if i >= ts.len() {
        None
    } else if ts[i as int] == TokV::CloseParen {
        Some((Seq::empty(), i))
    } else {
        match ts[i as int] {
            TokV::Ident(key) => {
                if i + 2 < ts.len() && ts[(i + 1) as int] == TokV::Equals {
                    match ts[(i + 2) as int] {
                        TokV::StrLit(val) => {
                            let j = i + 3;
                            if j >= ts.len() {
                                None
                            } else if ts[j as int] == TokV::Comma {
                                match spec_kvs(ts, (j + 1) as nat) {
                                    Some((rest, k)) => Some((seq![(key, val)] + rest, k)),
                                    None => None,
                                }
                            } else if ts[j as int] == TokV::CloseParen {
                                Some((seq![(key, val)], j as nat))
                            } else {
                                None
                            }
                        },
                        _ => None,
                    }
                } else {
                    None
                }
            },
            _ => None,
        }
    }
}

pub proof fn lemma_spec_kvs_bounds(ts: Seq<TokV>, i: nat)
    requires
        i <= ts.len(),
    ensures
        match spec_kvs(ts, i) {
            Some((kvs, j)) => i <= j < ts.len() && ts[j as int] == TokV::CloseParen,
            None => true,
        },
    decreases ts.len() - i,
{
    if i + 4 <= ts.len() {
        lemma_spec_kvs_bounds(ts, (i + 4) as nat);
    }
}

/// Parse one enumeration-level item starting at `i`; yields the item and the
/// index just past it.
pub open spec fn spec_item(ts: Seq<TokV>, i: nat) -> Option<(EnumItemV, nat)>
    recommends
        i < ts.len(),
{
    match ts[i as int] {
        TokV::Ident(name) => {
            if name == "base"@ {
                if i + 2 < ts.len() && ts[(i + 1) as int] == TokV::Equals {
                    match ts[(i + 2) as int] {
                        TokV::StrLit(lit) => Some((EnumItemV::BaseRule(lit), (i + 3) as nat)),
                        _ => None,
                    }
                } else {
                    None
                }
            } else if name == "extra"@ {
                if i + 1 < ts.len() && ts[(i + 1) as int] == TokV::OpenParen {
                    match spec_kvs(ts, (i + 2) as nat) {
                        Some((kvs, j)) => Some((EnumItemV::ExtraRules(kvs), (j + 1) as nat)),
                        None => None,
                    }
                } else {
                    None
                }
            } else if name == "pluralizer"@ {
                if i + 5 < ts.len() && ts[(i + 1) as int] == TokV::OpenParen && ts[(i + 3) as int]
                    == TokV::Comma && ts[(i + 5) as int] == TokV::CloseParen {
                    match (ts[(i + 2) as int], ts[(i + 4) as int]) {
                        (TokV::Ident(a), TokV::Ident(b)) => Some(
                            (EnumItemV::PluralizerPair(a, b), (i + 6) as nat),
                        ),
                        _ => None,
                    }
                } else {
                    None
                }
            } else {
                None
            }
        },
        _ => None,
    }
}

pub proof fn lemma_spec_item_bounds(ts: Seq<TokV>, i: nat)
    requires
        i < ts.len(),
    ensures
        match spec_item(ts, i) {
            Some((item, j)) => i < j <= ts.len(),
            None => true,
        },
{
    match ts[i as int] {
        TokV::Ident(name) => {
            if name == "extra"@ && i + 1 < ts.len() && ts[(i + 1) as int] == TokV::OpenParen {
                lemma_spec_kvs_bounds(ts, (i + 2) as nat);
            }
        },
        _ => {},
    }
}

/// Parse the whole item list of an enumeration-level attribute: items
/// separated by commas, optional trailing comma, possibly empty.
pub open spec fn spec_items(ts: Seq<TokV>, i: nat) -> Option<Seq<EnumItemV>>
    decreases ts.len() - i,
        when i <= ts.len()
        via spec_items_decreases
{
    if i >= ts.len() {
        Some(Seq::empty())
    } else {
        match spec_item(ts, i) {
            Some((item, j)) => {
                if j == ts.len() {
                    Some(seq![item])
                } else if j < ts.len() && ts[j as int] == TokV::Comma {
                    match spec_items(ts, (j + 1) as nat) {
                        Some(rest) => Some(seq![item] + rest),
                        None => None,
                    }
                } else {
                    None
                }
            },
            None => None,
        }
    }
}

#[via_fn]
proof fn spec_items_decreases(ts: Seq<TokV>, i: nat) {
    if i < ts.len() {
        lemma_spec_item_bounds(ts, i);
    }
}

/// Parse a variant-level attribute's token list: either `= "<lit>"`, a
/// shorthand override for the `base` key, or a nonempty parenthesized
/// key-override list.
pub open spec fn spec_variant_items(ts: Seq<TokV>) -> Option<Seq<(Seq<char>, Seq<char>)>> {
    if ts.len() == 2 && ts[0] == TokV::Equals {
        match ts[1] {
            TokV::StrLit(lit) => Some(seq![("base"@, lit)]),
            _ => None,
        }
    } else if ts.len() >= 1 && ts[0] == TokV::OpenParen {
        match spec_kvs(ts, 1) {
            Some((kvs, j)) => {
                if j + 1 == ts.len() && kvs.len() > 0 {
                    Some(kvs)
                } else {
                    None
                }
            },
            None => None,
        }
    } else {
        None
    }
}

/// The items of an enumeration-level attribute's text, or `None` if the text
/// does not match the grammar.
pub open spec fn spec_enum_attr(s: Seq<char>) -> Option<Seq<EnumItemV>> {
    match spec_tokenize_from(s, 0) {
        Some(ts) => spec_items(ts, 0),
        None => None,
    }
}

/// The override pairs of a variant-level attribute's text, or `None` if the
/// text does not match the grammar.
pub open spec fn spec_variant_attr(s: Seq<char>) -> Option<Seq<(Seq<char>, Seq<char>)>> {
    match spec_tokenize_from(s, 0) {
        Some(ts) => spec_variant_items(ts),
        None => None,
    }
}

// ------------------------------------------------------------------
// Item grammar, executable
// ------------------------------------------------------------------

fn parse_kvs(toks: &Vec<Tok>, start: usize) -> (r: Option<(Vec<(String, String)>, usize)>)
    requires
        start <= toks@.len(),
    ensures
        match r {
            Some((kvs, j)) => spec_kvs(toks_view(toks@), start as nat) == Some(
                (kvs_view(kvs@), j as nat),
            ) && start <= j < toks@.len(),
            None => spec_kvs(toks_view(toks@), start as nat) is None,
        },
{
    let ghost ts = toks_view(toks@);
    let mut kvs: Vec<(String, String)> = Vec::new();
    let mut i: usize = start;
    proof {
        if spec_kvs(ts, i as nat) is Some {
            let (rest, k) = spec_kvs(ts, i as nat)->Some_0;
            assert(kvs_view(kvs@) + rest =~= rest);
        }
    }
    loop
        invariant
            ts == toks_view(toks@),
            start <= i <= toks@.len(),
            spec_kvs(ts, start as nat) == match spec_kvs(ts, i as nat) {
                Some((rest, k)) => Some((kvs_view(kvs@) + rest, k)),
                None => None::<(Seq<(Seq<char>, Seq<char>)>, nat)>,
            },
        decreases toks@.len() - i,
    {
        proof {
            lemma_spec_kvs_bounds(ts, i as nat);
        }
        if i >= toks.len() {
            return None;
        }
        let ghost done = kvs_view(kvs@);
        match &toks[i] {
            Tok::CloseParen => {
                proof {
                    assert(done + Seq::<(Seq<char>, Seq<char>)>::empty() =~= done);
                }
                return Some((kvs, i));
            },
            Tok::Ident(key) => {
                if toks.len() - i > 2 {
                    match &toks[i + 1] {
                        Tok::Equals => {},
                        _ => {
                            return None;
                        },
                    }
                    match &toks[i + 2] {
                        Tok::StrLit(val) => {
                            let j = i + 3;
                            let ghost kv = (key@, val@);
                            kvs.push((key.clone(), val.clone()));
                            proof {
                                assert(kvs_view(kvs@) =~= done.push(kv));
                            }
                            if j >= toks.len() {
                                return None;
                            }
                            match &toks[j] {
                                Tok::Comma => {
                                    proof {
                                        if spec_kvs(ts, (j + 1) as nat) is Some {
                                            let (rest, k) = spec_kvs(ts, (j + 1) as nat)->Some_0;
                                            assert(done + (seq![kv] + rest) =~= done.push(kv)
                                                + rest);
                                        }
                                    }
                                    i = j + 1;
                                },
                                Tok::CloseParen => {
                                    proof {
                                        assert(done + seq![kv] =~= done.push(kv));
                                    }
                                    return Some((kvs, j));
                                },
                                _ => {
                                    return None;
                                },
                            }
                        },
                        _ => {
                            return None;
                        },
                    }
                } else {
                    return None;
                }
            },
            _ => {
                return None;
            },
        }
    }
}

fn parse_item(toks: &Vec<Tok>, i: usize) -> (r: Option<(EnumItem, usize)>)
    requires
        i < toks@.len(),
    ensures
        match r {
            Some((item, j)) => spec_item(toks_view(toks@), i as nat) == Some((item@, j as nat))
                && i < j <= toks@.len(),
            None => spec_item(toks_view(toks@), i as nat) is None,
        },
{
    let ghost ts = toks_view(toks@);
    proof {
        assert(forall|k: int| 0 <= k < toks@.len() ==> ts[k] == #[trigger] toks@[k]@);
    }
    match &toks[i] {
        Tok::Ident(name) => {
            if str_eq(name.as_str(), "base") {
                if toks.len() - i > 2 {
                    match &toks[i + 1] {
                        Tok::Equals => {},
                        _ => {
                            return None;
                        },
                    }
                    match &toks[i + 2] {
                        Tok::StrLit(lit) => Some((EnumItem::BaseRule(lit.clone()), i + 3)),
                        _ => None,
                    }
                } else {
                    None
                }
            } else if str_eq(name.as_str(), "extra") {
                if toks.len() - i > 1 {
                    match &toks[i + 1] {
                        Tok::OpenParen => {},
                        _ => {
                            return None;
                        },
                    }
                    match parse_kvs(toks, i + 2) {
                        Some((kvs, j)) => Some((EnumItem::ExtraRules(kvs), j + 1)),
                        None => None,
                    }
                } else {
                    None
                }
            } else if str_eq(name.as_str(), "pluralizer") {
                if toks.len() - i > 5 {
                    match (&toks[i + 1], &toks[i + 3], &toks[i + 5]) {
                        (Tok::OpenParen, Tok::Comma, Tok::CloseParen) => {},
                        _ => {
                            return None;
                        },
                    }
                    match (&toks[i + 2], &toks[i + 4]) {
                        (Tok::Ident(a), Tok::Ident(b)) => Some(
                            (EnumItem::PluralizerPair(a.clone(), b.clone()), i + 6),
                        ),
                        _ => None,
                    }
                } else {
                    None
                }
            } else {
                None
            }
        },
        _ => None,
    }
}

/// Parse the text of one enumeration-level attribute into its items.
pub fn parse_enum_attr(s: &str) -> (r: Option<Vec<EnumItem>>)
    ensures
        match r {
            Some(items) => spec_enum_attr(s@) == Some(items_view(items@)),
            None => spec_enum_attr(s@) is None,
        },
{
    let toks = match tokenize(s) {
        Some(t) => t,
        None => {
            return None;
        },
    };
    let ghost ts = toks_view(toks@);
    let mut items: Vec<EnumItem> = Vec::new();
    let mut i: usize = 0;
    proof {
        if spec_items(ts, 0) is Some {
            let rest = spec_items(ts, 0)->Some_0;
            assert(items_view(items@) + rest =~= rest);
        }
    }
    loop
        invariant
            ts == toks_view(toks@),
            i <= toks@.len(),
            spec_tokenize_from(s@, 0) == Some(ts),
            spec_items(ts, 0) == match spec_items(ts, i as nat) {
                Some(rest) => Some(items_view(items@) + rest),
                None => None::<Seq<EnumItemV>>,
            },
        decreases toks@.len() - i,
    {
        if i == toks.len() {
            proof {
                assert(spec_items(ts, i as nat) == Some(Seq::<EnumItemV>::empty()));
                assert(items_view(items@) + Seq::<EnumItemV>::empty() =~= items_view(items@));
            }
            return Some(items);
        }
        let ghost done = items_view(items@);
        let (item, j) = match parse_item(&toks, i) {
            Some(p) => p,
            None => {
                return None;
            },
        };
        let ghost itemv = item@;
        items.push(item);
        proof {
            assert(items_view(items@) =~= done.push(itemv));
        }
        if j == toks.len() {
            proof {
                assert(done + seq![itemv] =~= done.push(itemv));
            }
            return Some(items);
        }
        match &toks[j] {
            Tok::Comma => {
                proof {
                    if spec_items(ts, (j + 1) as nat) is Some {
                        let rest = spec_items(ts, (j + 1) as nat)->Some_0;
                        assert(done + (seq![itemv] + rest) =~= done.push(itemv) + rest);
                    }
                }
                i = j + 1;
            },
            _ => {
                return None;
            },
        }
    }
}

/// Parse the text of one variant-level attribute into its override pairs.
pub fn parse_variant_attr(s: &str) -> (r: Option<Vec<(String, String)>>)
    ensures
        match r {
            Some(kvs) => spec_variant_attr(s@) == Some(kvs_view(kvs@)),
            None => spec_variant_attr(s@) is None,
        },
{
    let toks = match tokenize(s) {
        Some(t) => t,
        None => {
            return None;
        },
    };
    let ghost ts = toks_view(toks@);
    if toks.len() == 2 && matches!(&toks[0], Tok::Equals) {
        match &toks[1] {
            Tok::StrLit(lit) => {
                let mut kvs: Vec<(String, String)> = Vec::new();
                kvs.push(("base".to_owned(), lit.clone()));
                proof {
                    assert(kvs_view(kvs@) =~= seq![("base"@, lit@)]);
                }
                Some(kvs)
            },
            _ => None,
        }
    } else if toks.len() >= 1 && matches!(&toks[0], Tok::OpenParen) {
        match parse_kvs(&toks, 1) {
            Some((kvs, j)) => {
                if j + 1 == toks.len() && kvs.len() > 0 {
                    Some(kvs)
                } else {
                    None
                }
            },
            None => None,
        }
    } else {
        None
    }
}

} // verus!
