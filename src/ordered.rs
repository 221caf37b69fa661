//! The insertion-ordered maps and sets of `indexmap` that the analysis
//! keeps its symbol table and its address hints in, with the contracts that
//! the analysis relies on.
use crate::symbol::{Symbol, SymbolView};
use indexmap::{IndexMap, IndexSet};
use vstd::prelude::*;

verus! {

#[verifier::external_type_specification]
#[verifier::external_body]
#[verifier::reject_recursive_types(K)]
#[verifier::reject_recursive_types(V)]
#[verifier::reject_recursive_types(S)]
pub struct ExIndexMap<K, V, S>(IndexMap<K, V, S>);

#[verifier::external_type_specification]
#[verifier::external_body]
#[verifier::reject_recursive_types(T)]
#[verifier::reject_recursive_types(S)]
pub struct ExIndexSet<T, S>(IndexSet<T, S>);

/// The entries of a map of address hints, in insertion order, keyed by the
/// text of each name.
pub uninterp spec fn hint_entries(m: IndexMap<String, usize>) -> Seq<(Seq<char>, usize)>;

/// The entries of a symbol table, in insertion order, keyed by the text of
/// each name.
pub uninterp spec fn symbol_entries(m: IndexMap<String, Symbol>) -> Seq<(Seq<char>, SymbolView)>;

/// The addresses held by a set of addresses.
pub uninterp spec fn address_items(s: IndexSet<usize>) -> Set<usize>;

/// No key occurs twice.
pub open spec fn unique_keys<V>(e: Seq<(Seq<char>, V)>) -> bool {
    forall|i: int, j: int| 0 <= i < j < e.len() ==> (#[trigger] e[i]).0 != (#[trigger] e[j]).0
}

pub open spec fn has_key<V>(e: Seq<(Seq<char>, V)>, k: Seq<char>) -> bool {
    exists|i: int| 0 <= i < e.len() && (#[trigger] e[i]).0 == k
}

/// The position of key `k`, where it occurs.
pub open spec fn key_index<V>(e: Seq<(Seq<char>, V)>, k: Seq<char>) -> int {
    choose|i: int| 0 <= i < e.len() && (#[trigger] e[i]).0 == k
}

/// The value under key `k`, if there is one.
pub open spec fn lookup<V>(e: Seq<(Seq<char>, V)>, k: Seq<char>) -> Option<V> {
    if has_key(e, k) {
        Some(e[key_index(e, k)].1)
    } else {
        None
    }
}

/// `e` with the value under `k` set to `v`: in place where `k` occurs,
/// appended last where it does not.
pub open spec fn upsert<V>(e: Seq<(Seq<char>, V)>, k: Seq<char>, v: V) -> Seq<(Seq<char>, V)> {
    if has_key(e, k) {
        e.update(key_index(e, k), (k, v))
    } else {
        e.push((k, v))
    }
}

/// `e` without key `k`, the others keeping their order.
pub open spec fn remove_key<V>(e: Seq<(Seq<char>, V)>, k: Seq<char>) -> Seq<(Seq<char>, V)> {
    if has_key(e, k) {
        e.remove(key_index(e, k))
    } else {
        e
    }
}

/// In a map without repeated keys, the entry at `j` is the one found
/// under its key.
pub proof fn lemma_lookup_at<V>(e: Seq<(Seq<char>, V)>, j: int)
    requires
        unique_keys(e),
        0 <= j < e.len(),
    ensures
        has_key(e, e[j].0),
        key_index(e, e[j].0) == j,
        lookup(e, e[j].0) == Some(e[j].1),
{
    assert(has_key(e, e[j].0));
}

/// Removing a key takes out that key's entry and leaves every other one.
pub proof fn lemma_remove_key<V>(e: Seq<(Seq<char>, V)>, k: Seq<char>, k2: Seq<char>)
    requires
        unique_keys(e),
    ensures
        unique_keys(remove_key(e, k)),
        lookup(remove_key(e, k), k2) == if k2 == k {
            None
        } else {
            lookup(e, k2)
        },
{
    let f = remove_key(e, k);
    if has_key(e, k) {
        let i = key_index(e, k);
        assert forall|a: int, b: int| 0 <= a < b < f.len() implies (#[trigger] f[a]).0 != (
        #[trigger] f[b]).0 by {
            let a0 = if a < i { a } else { a + 1 };
            let b0 = if b < i { b } else { b + 1 };
            assert(f[a] == e[a0] && f[b] == e[b0]);
        }
        if has_key(e, k2) && k2 != k {
            let j = key_index(e, k2);
            let j2 = if j < i { j } else { j - 1 };
            assert(f[j2] == e[j]);
            lemma_lookup_at(f, j2);
        }
        if has_key(f, k2) {
            let j2 = key_index(f, k2);
            let j = if j2 < i { j2 } else { j2 + 1 };
            assert(f[j2] == e[j]);
            lemma_lookup_at(e, j);
        }
    }
}

/// Keys listed without repeats belong to a map without repeated keys.
pub proof fn lemma_unique_from_keys<V>(e: Seq<(Seq<char>, V)>, keys: Seq<Seq<char>>)
    requires
        keys == e.map_values(|x: (Seq<char>, V)| x.0),
        keys.no_duplicates(),
    ensures
        unique_keys(e),
{
    assert forall|i: int, j: int| 0 <= i < j < e.len() implies (#[trigger] e[i]).0 != (
    #[trigger] e[j]).0 by {
        assert(keys[i] == e[i].0 && keys[j] == e[j].0);
    }
}

/// Relies on `IndexMap::new`: a map with no entries.
#[verifier::external_body]
pub(crate) fn new_symbol_table() -> (r: IndexMap<String, Symbol>)
    ensures
        symbol_entries(r) == Seq::<(Seq<char>, SymbolView)>::empty(),
{
    IndexMap::new()
}

/// Relies on `IndexMap::get`: the value under the key, if there is one.
#[verifier::external_body]
pub(crate) fn symbol_get<'a>(m: &'a IndexMap<String, Symbol>, k: &String) -> (r: Option<&'a Symbol>)
    ensures
        r is Some <==> has_key(symbol_entries(*m), k@),
        r matches Some(s) ==> lookup(symbol_entries(*m), k@) == Some(s@),
{
    m.get(k)
}

/// Relies on `IndexMap::contains_key`: whether the key occurs.
#[verifier::external_body]
pub(crate) fn symbol_contains(m: &IndexMap<String, Symbol>, k: &String) -> (r: bool)
    ensures
        r == has_key(symbol_entries(*m), k@),
{
    m.contains_key(k)
}

/// Relies on `IndexMap::insert`: an existing key keeps its place and takes
/// the new value, a new key goes last.
#[verifier::external_body]
pub(crate) fn symbol_insert(m: &mut IndexMap<String, Symbol>, k: String, v: Symbol)
    ensures
        symbol_entries(*final(m)) == upsert(symbol_entries(*old(m)), k@, v@),
        unique_keys(symbol_entries(*old(m))) ==> unique_keys(symbol_entries(*final(m))),
{
    m.insert(k, v);
}

/// Relies on `IndexMap::into_values`: the values in entry order.
#[verifier::external_body]
pub(crate) fn symbol_values(m: IndexMap<String, Symbol>) -> (r: Vec<Symbol>)
    ensures
        r@.map_values(|s: Symbol| s@) == symbol_entries(m).map_values(|e: (Seq<char>, SymbolView)| e.1),
{
    m.into_values().collect()
}

/// Relies on `IndexMap::get`: the value under the key, if there is one.
#[verifier::external_body]
pub(crate) fn hint_get(m: &IndexMap<String, usize>, k: &String) -> (r: Option<usize>)
    ensures
        r == lookup(hint_entries(*m), k@),
{
    m.get(k).copied()
}

/// Relies on `IndexMap::insert`: an existing key keeps its place and takes
/// the new value, a new key goes last.
#[verifier::external_body]
pub(crate) fn hint_insert(m: &mut IndexMap<String, usize>, k: String, v: usize)
    ensures
        hint_entries(*final(m)) == upsert(hint_entries(*old(m)), k@, v),
        unique_keys(hint_entries(*old(m))) ==> unique_keys(hint_entries(*final(m))),
{
    m.insert(k, v);
}

/// Relies on `IndexMap::shift_remove`: the key's entry leaves, the others
/// keep their order.
#[verifier::external_body]
pub(crate) fn hint_remove(m: &mut IndexMap<String, usize>, k: &String)
    ensures
        hint_entries(*final(m)) == remove_key(hint_entries(*old(m)), k@),
        unique_keys(hint_entries(*old(m))) ==> unique_keys(hint_entries(*final(m))),
{
    m.shift_remove(k);
}

/// Relies on `IndexMap::keys`: the keys in entry order, none twice.
#[verifier::external_body]
pub(crate) fn hint_keys(m: &IndexMap<String, usize>) -> (r: Vec<String>)
    ensures
        r@.map_values(|s: String| s@) == hint_entries(*m).map_values(|e: (Seq<char>, usize)| e.0),
        r@.map_values(|s: String| s@).no_duplicates(),
{
    m.keys().cloned().collect()
}

/// Relies on `IndexSet::new`: an empty set.
#[verifier::external_body]
pub(crate) fn new_address_set() -> (r: IndexSet<usize>)
    ensures
        address_items(r) == Set::<usize>::empty(),
{
    IndexSet::new()
}

/// Relies on `IndexSet::contains`: whether the address is in the set.
#[verifier::external_body]
pub(crate) fn address_seen(s: &IndexSet<usize>, a: usize) -> (r: bool)
    ensures
        r == address_items(*s).contains(a),
{
    s.contains(&a)
}

/// Relies on `IndexSet::insert`: the address is in the set afterwards.
#[verifier::external_body]
pub(crate) fn address_insert(s: &mut IndexSet<usize>, a: usize)
    ensures
        address_items(*final(s)) == address_items(*old(s)).insert(a),
{
    s.insert(a);
}

} // verus!
