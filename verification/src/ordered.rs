//! Insertion-ordered maps from `indexmap`, keyed by strings.
//!
//! The contents of each map are named by an uninterpreted spec function: the
//! entries in iteration (insertion) order, each key taken as its characters.
//! The trusted wrappers state what `IndexMap`'s own documentation gives: an
//! insert of a present key replaces the value in place, a new key goes last,
//! `shift_remove` keeps the order of the others, and a lookup finds the
//! entry with that key.
use vstd::prelude::*;

use indexmap::IndexMap;

use crate::config::TomlValue;
use crate::models::{FrontSpec, FrontValue, TypeSpec};

verus! {

#[verifier::external_type_specification]
#[verifier::external_body]
#[verifier::reject_recursive_types(K)]
#[verifier::reject_recursive_types(V)]
#[verifier::reject_recursive_types(S)]
pub struct ExIndexMap<K, V, S>(IndexMap<K, V, S>);

/// `IndexMap`'s `Clone`, which the derived `Clone` of `Brand` and `Draft`
/// calls. Nothing is stated of the copy.
pub assume_specification<K, V, S>[ <IndexMap<K, V, S> as Clone>::clone ](
    m: &IndexMap<K, V, S>,
) -> IndexMap<K, V, S> where K: Clone, V: Clone, S: Clone;

/// The entries of a brand's type map, in order.
pub uninterp spec fn type_entries(m: IndexMap<String, TypeSpec>) -> Seq<(Seq<char>, TypeSpec)>;

/// The entries of a draft's front matter, in order.
pub uninterp spec fn front_entries(m: IndexMap<String, FrontValue>) -> Seq<(Seq<char>, FrontValue)>;

/// The entries of a TOML config table, in order.
pub uninterp spec fn toml_entries(m: IndexMap<String, TomlValue>) -> Seq<(Seq<char>, TomlValue)>;

/// The first index of an entry with key `k`.
pub open spec fn key_index_from<V>(e: Seq<(Seq<char>, V)>, k: Seq<char>, i: int) -> Option<int>
    decreases e.len() - i,
{
    if i < 0 || i >= e.len() {
        None
    } else if e[i].0 == k {
        Some(i)
    } else {
        key_index_from(e, k, i + 1)
    }
}

pub open spec fn key_index<V>(e: Seq<(Seq<char>, V)>, k: Seq<char>) -> Option<int> {
    key_index_from(e, k, 0)
}

pub open spec fn entry_get<V>(e: Seq<(Seq<char>, V)>, k: Seq<char>) -> Option<V> {
    match key_index(e, k) {
        Some(i) => Some(e[i].1),
        None => None,
    }
}

pub open spec fn entry_insert<V>(e: Seq<(Seq<char>, V)>, k: Seq<char>, v: V) -> Seq<
    (Seq<char>, V),
> {
    match key_index(e, k) {
        Some(i) => e.update(i, (k, v)),
        None => e.push((k, v)),
    }
}

pub open spec fn entry_remove<V>(e: Seq<(Seq<char>, V)>, k: Seq<char>) -> Seq<(Seq<char>, V)> {
    match key_index(e, k) {
        Some(i) => e.remove(i),
        None => e,
    }
}

/// The entries with each value taken by its view.
pub open spec fn front_views(e: Seq<(Seq<char>, FrontValue)>) -> Seq<(Seq<char>, FrontSpec)> {
    e.map_values(|p: (Seq<char>, FrontValue)| (p.0, p.1@))
}

pub open spec fn entry_keys<V>(e: Seq<(Seq<char>, V)>) -> Seq<Seq<char>> {
    e.map_values(|p: (Seq<char>, V)| p.0)
}

pub proof fn lemma_key_index_from<V>(e: Seq<(Seq<char>, V)>, k: Seq<char>, i: int)
    requires
        0 <= i,
    ensures
        match key_index_from(e, k, i) {
            Some(j) => i <= j < e.len() && e[j].0 == k && forall|m: int| i <= m < j ==> e[m].0 != k,
            None => forall|m: int| i <= m < e.len() ==> e[m].0 != k,
        },
    decreases e.len() - i,
{
    if i < e.len() && e[i].0 != k {
        lemma_key_index_from(e, k, i + 1);
    }
}

proof fn lemma_front_key_index(e: Seq<(Seq<char>, FrontValue)>, k: Seq<char>, i: int)
    ensures
        key_index_from(e, k, i) == key_index_from(front_views(e), k, i),
    decreases e.len() - i,
{
    if 0 <= i < e.len() {
        lemma_front_key_index(e, k, i + 1);
    }
}

/// Inserting commutes with taking the values' views.
pub proof fn lemma_front_insert(e: Seq<(Seq<char>, FrontValue)>, k: Seq<char>, v: FrontValue)
    ensures
        front_views(entry_insert(e, k, v)) == entry_insert(front_views(e), k, v@),
{
    lemma_front_key_index(e, k, 0);
    match key_index(e, k) {
        Some(i) => {
            lemma_key_index_from(e, k, 0);
            assert(front_views(e.update(i, (k, v))) =~= front_views(e).update(i, (k, v@)));
        },
        None => {
            assert(front_views(e.push((k, v))) =~= front_views(e).push((k, v@)));
        },
    }
}

/// Removing commutes with taking the values' views.
pub proof fn lemma_front_remove(e: Seq<(Seq<char>, FrontValue)>, k: Seq<char>)
    ensures
        front_views(entry_remove(e, k)) == entry_remove(front_views(e), k),
        entry_get(front_views(e), k) == match entry_get(e, k) {
            Some(v) => Some(v@),
            None => None::<FrontSpec>,
        },
{
    lemma_front_key_index(e, k, 0);
    match key_index(e, k) {
        Some(i) => {
            lemma_key_index_from(e, k, 0);
            assert(front_views(e.remove(i)) =~= front_views(e).remove(i));
        },
        None => {},
    }
}

// ---------------------------------------------------------------------------
// Type maps
// ---------------------------------------------------------------------------

/// Calls `IndexMap::get`: the value of the entry with key `key`.
#[verifier::external_body]
pub(crate) fn type_get<'a>(m: &'a IndexMap<String, TypeSpec>, key: &str) -> (r: Option<&'a TypeSpec>)
    ensures
        match entry_get(type_entries(*m), key@) {
            Some(v) => r matches Some(x) && *x == v,
            None => r is None,
        },
{
    m.get(key)
}

/// Calls `IndexMap::keys`: the keys in order, copied.
#[verifier::external_body]
pub(crate) fn type_keys(m: &IndexMap<String, TypeSpec>) -> (r: Vec<String>)
    ensures
        r@.map_values(|s: String| s@) == entry_keys(type_entries(*m)),
{
    m.keys().cloned().collect()
}

/// Calls `IndexMap::len`.
#[verifier::external_body]
pub(crate) fn type_count(m: &IndexMap<String, TypeSpec>) -> (r: usize)
    ensures
        r == type_entries(*m).len(),
{
    m.len()
}

// ---------------------------------------------------------------------------
// Front-matter maps
// ---------------------------------------------------------------------------

/// Calls `IndexMap::new`: no entries.
#[verifier::external_body]
pub(crate) fn front_new() -> (r: IndexMap<String, FrontValue>)
    ensures
        front_entries(r) == Seq::<(Seq<char>, FrontValue)>::empty(),
{
    IndexMap::new()
}

/// Calls `IndexMap::get`: the value of the entry with key `key`.
#[verifier::external_body]
pub(crate) fn front_get<'a>(m: &'a IndexMap<String, FrontValue>, key: &str) -> (r: Option<&'a FrontValue>)
    ensures
        match entry_get(front_entries(*m), key@) {
            Some(v) => r matches Some(x) && *x == v,
            None => r is None,
        },
{
    m.get(key)
}

/// Calls `IndexMap::insert`: a present key keeps its place and takes the new
/// value; a new key goes last.
#[verifier::external_body]
pub(crate) fn front_insert(m: &mut IndexMap<String, FrontValue>, key: String, value: FrontValue)
    ensures
        front_entries(*final(m)) == entry_insert(front_entries(*old(m)), key@, value),
{
    m.insert(key, value);
}

/// Calls `IndexMap::shift_remove`: the entry with key `key` is removed, the
/// others keep their order.
#[verifier::external_body]
pub(crate) fn front_remove(m: &mut IndexMap<String, FrontValue>, key: &str)
    ensures
        front_entries(*final(m)) == entry_remove(front_entries(*old(m)), key@),
{
    m.shift_remove(key);
}

/// Calls `IndexMap::iter`: the entries in order, copied.
#[verifier::external_body]
pub(crate) fn front_pairs(m: &IndexMap<String, FrontValue>) -> (r: Vec<(String, FrontValue)>)
    ensures
        r@.map_values(|p: (String, FrontValue)| (p.0@, p.1@)) == front_views(front_entries(*m)),
{
    m.iter().map(|(k, v)| (k.clone(), v.clone())).collect()
}

// ---------------------------------------------------------------------------
// Config tables
// ---------------------------------------------------------------------------

/// Calls `IndexMap::new`: no entries.
#[verifier::external_body]
pub(crate) fn toml_new() -> (r: IndexMap<String, TomlValue>)
    ensures
        toml_entries(r) == Seq::<(Seq<char>, TomlValue)>::empty(),
{
    IndexMap::new()
}

/// Calls `IndexMap::contains_key`.
#[verifier::external_body]
pub(crate) fn toml_has(m: &IndexMap<String, TomlValue>, key: &str) -> (r: bool)
    ensures
        r == key_index(toml_entries(*m), key@) is Some,
{
    m.contains_key(key)
}

/// Calls `IndexMap::insert`: a present key keeps its place and takes the new
/// value; a new key goes last.
#[verifier::external_body]
pub(crate) fn toml_insert(m: &mut IndexMap<String, TomlValue>, key: String, value: TomlValue)
    ensures
        toml_entries(*final(m)) == entry_insert(toml_entries(*old(m)), key@, value),
{
    m.insert(key, value);
}

/// Calls `IndexMap::iter`: the entries in order, as references.
#[verifier::external_body]
pub(crate) fn toml_pairs(m: &IndexMap<String, TomlValue>) -> (r: Vec<(&String, &TomlValue)>)
    ensures
        r@.map_values(|p: (&String, &TomlValue)| (p.0@, *p.1)) == toml_entries(*m),
{
    m.iter().collect()
}

} // verus!
