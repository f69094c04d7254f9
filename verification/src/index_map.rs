//! The ordered maps of the `indexmap` crate that the macOS generator fills,
//! and what this library relies on of them.
//!
//! `IndexMap::insert` keeps an existing key in its place and replaces its
//! value, or appends a new key last; `get` and `contains_key` look a key up;
//! `get_index` gives the entry at a position in that order; `clone` copies
//! the entries in their order.

use indexmap::IndexMap;
use vstd::prelude::*;

use crate::layout::MacOsKbdLayer;
use crate::macos::{DeadKeyOutput, DeadKeyOutputView, KeyTransition, KeyTransitionView};
use crate::pbx_project::{SettingValue, SettingView};

verus! {

#[verifier::external_type_specification]
#[verifier::external_body]
#[verifier::reject_recursive_types(K)]
#[verifier::reject_recursive_types(V)]
#[verifier::reject_recursive_types(S)]
pub struct ExIndexMap<K, V, S>(IndexMap<K, V, S>);

/// The index of the last entry whose key is `key`. An `IndexMap` holds each
/// key once, so this is the index of its entry.
pub open spec fn entry_index<K, V>(entries: Seq<(K, V)>, key: K) -> Option<int>
    decreases entries.len(),
{
    if entries.len() == 0 {
        None
    } else if entries.last().0 == key {
        Some(entries.len() - 1)
    } else {
        entry_index(entries.drop_last(), key)
    }
}

/// The value under `key`, if any.
pub open spec fn entry_get<K, V>(entries: Seq<(K, V)>, key: K) -> Option<V> {
    match entry_index(entries, key) {
        Some(i) => Some(entries[i].1),
        None => None,
    }
}

/// What `IndexMap::insert` makes of the entries: the value of an existing key
/// is replaced in place, a new key is appended.
pub open spec fn entry_insert<K, V>(entries: Seq<(K, V)>, key: K, value: V) -> Seq<(K, V)> {
    match entry_index(entries, key) {
        Some(i) => entries.update(i, (key, value)),
        None => entries.push((key, value)),
    }
}


/// Where `entry_index` finds a key, the entry there holds it.
pub proof fn lemma_entry_index_bounds<K, V>(entries: Seq<(K, V)>, key: K)
    ensures
        entry_index(entries, key) matches Some(i) ==> 0 <= i < entries.len() && entries[i].0
            == key,
        entry_index(entries, key) is None ==> forall|j: int|
            0 <= j < entries.len() ==> entries[j].0 != key,
    decreases entries.len(),
{
    if entries.len() > 0 {
        lemma_entry_index_bounds(entries.drop_last(), key);
        if entries.last().0 != key {
            assert forall|j: int| 0 <= j < entries.len() - 1 implies entries[j]
                == entries.drop_last()[j] by {}
        }
    }
}

proof fn lemma_entry_index_update<K, V>(entries: Seq<(K, V)>, i: int, key: K, value: V, q: K)
    requires
        entry_index(entries, key) == Some(i),
    ensures
        entry_index(entries.update(i, (key, value)), q) == entry_index(entries, q),
    decreases entries.len(),
{
    lemma_entry_index_bounds(entries, key);
    let u = entries.update(i, (key, value));
    if i == entries.len() - 1 {
        assert(u.drop_last() =~= entries.drop_last());
    } else {
        assert(entries.last().0 != key);
        assert(u.drop_last() =~= entries.drop_last().update(i, (key, value)));
        if entries.last().0 != q {
            lemma_entry_index_update(entries.drop_last(), i, key, value, q);
        }
    }
}

/// What an insert does to the lookup of any key.
pub proof fn lemma_entry_insert<K, V>(entries: Seq<(K, V)>, key: K, value: V, q: K)
    ensures
        entry_get(entry_insert(entries, key, value), q) == (if q == key {
            Some(value)
        } else {
            entry_get(entries, q)
        }),
        (entry_index(entry_insert(entries, key, value), q) is Some) == (q == key || entry_index(
            entries,
            q,
        ) is Some),
        entry_insert(entries, key, value).len() == entries.len() + (if entry_index(
            entries,
            key,
        ) is Some {
            0int
        } else {
            1int
        }),
        entry_index(entries, key) matches Some(i) ==> entry_index(
            entry_insert(entries, key, value),
            q,
        ) == entry_index(entries, q),
{
    lemma_entry_index_bounds(entries, key);
    match entry_index(entries, key) {
        Some(i) => {
            lemma_entry_index_update(entries, i, key, value, q);
            lemma_entry_index_update(entries, i, key, value, key);
            lemma_entry_index_bounds(entries, q);
        },
        None => {
            let p = entries.push((key, value));
            assert(p.drop_last() =~= entries);
            lemma_entry_index_bounds(entries, q);
        },
    }
}


/// Inserting twice under one key is inserting the second value.
pub proof fn lemma_entry_insert_twice<K, V>(entries: Seq<(K, V)>, key: K, first: V, second: V)
    ensures
        entry_insert(entry_insert(entries, key, first), key, second) == entry_insert(
            entries,
            key,
            second,
        ),
{
    lemma_entry_index_bounds(entries, key);
    match entry_index(entries, key) {
        Some(i) => {
            lemma_entry_index_update(entries, i, key, first, key);
            assert(entries.update(i, (key, first)).update(i, (key, second)) =~= entries.update(
                i,
                (key, second),
            ));
        },
        None => {
            let p = entries.push((key, first));
            assert(entry_index(p, key) == Some(entries.len() as int));
            assert(p.update(entries.len() as int, (key, second)) =~= entries.push((key, second)));
        },
    }
}


/// Each entry after an insert is the inserted one or an entry from before.
pub proof fn lemma_entry_insert_elements<K, V>(entries: Seq<(K, V)>, key: K, value: V)
    ensures
        forall|j: int|
            0 <= j < entry_insert(entries, key, value).len() ==> (#[trigger] entry_insert(
                entries,
                key,
                value,
            )[j] == (key, value) || (j < entries.len() && entry_insert(entries, key, value)[j]
                == entries[j])),
{
    lemma_entry_index_bounds(entries, key);
}

/// The entries of a key transition map, in order, keys and values by view.
pub uninterp spec fn transition_entries(m: IndexMap<String, KeyTransition>) -> Seq<
    (Seq<char>, KeyTransitionView),
>;

/// The entries of a dead-key map, in order, keys and values by view.
pub uninterp spec fn dead_key_entries(m: IndexMap<String, DeadKeyOutput>) -> Seq<
    (Seq<char>, DeadKeyOutputView),
>;

/// The entries of a layered key transition map, in order, each layer's map
/// by its entries.
pub uninterp spec fn layer_entries(m: IndexMap<MacOsKbdLayer, IndexMap<String, KeyTransition>>) -> Seq<
    (MacOsKbdLayer, Seq<(Seq<char>, KeyTransitionView)>),
>;

/// `IndexMap::new` for a key transition map: no entries.
#[verifier::external_body]
pub(crate) fn transitions_new() -> (res: IndexMap<String, KeyTransition>)
    ensures
        transition_entries(res) == Seq::<(Seq<char>, KeyTransitionView)>::empty(),
{
    IndexMap::new()
}

/// `IndexMap::insert` on a key transition map.
#[verifier::external_body]
pub(crate) fn transitions_insert(m: &mut IndexMap<String, KeyTransition>, key: String, value: KeyTransition)
    ensures
        transition_entries(*final(m)) == entry_insert(transition_entries(*old(m)), key@, value@),
{
    m.insert(key, value);
}

/// `IndexMap::get` on a key transition map.
#[verifier::external_body]
pub(crate) fn transitions_get<'a>(m: &'a IndexMap<String, KeyTransition>, key: &str) -> (res: Option<
    &'a KeyTransition,
>)
    ensures
        match entry_get(transition_entries(*m), key@) {
            Some(v) => res matches Some(r) && r@ == v,
            None => res is None,
        },
{
    m.get(key)
}

/// `IndexMap::len` on a key transition map.
#[verifier::external_body]
pub(crate) fn transitions_len(m: &IndexMap<String, KeyTransition>) -> (res: usize)
    ensures
        res == transition_entries(*m).len(),
{
    m.len()
}

/// `IndexMap::get_index` on a key transition map, at an index below its length.
#[verifier::external_body]
pub(crate) fn transitions_get_index<'a>(m: &'a IndexMap<String, KeyTransition>, i: usize) -> (res: (
    &'a String,
    &'a KeyTransition,
))
    requires
        i < transition_entries(*m).len(),
    ensures
        res.0@ == transition_entries(*m)[i as int].0,
        res.1@ == transition_entries(*m)[i as int].1,
{
    m.get_index(i).unwrap()
}

/// `IndexMap::new` for a dead-key map: no entries.
#[verifier::external_body]
pub(crate) fn dead_keys_new() -> (res: IndexMap<String, DeadKeyOutput>)
    ensures
        dead_key_entries(res) == Seq::<(Seq<char>, DeadKeyOutputView)>::empty(),
{
    IndexMap::new()
}

/// `IndexMap::insert` on a dead-key map.
#[verifier::external_body]
pub(crate) fn dead_keys_insert(m: &mut IndexMap<String, DeadKeyOutput>, key: String, value: DeadKeyOutput)
    ensures
        dead_key_entries(*final(m)) == entry_insert(dead_key_entries(*old(m)), key@, value@),
{
    m.insert(key, value);
}

/// `IndexMap::get` on a dead-key map.
#[verifier::external_body]
pub(crate) fn dead_keys_get<'a>(m: &'a IndexMap<String, DeadKeyOutput>, key: &str) -> (res: Option<
    &'a DeadKeyOutput,
>)
    ensures
        match entry_get(dead_key_entries(*m), key@) {
            Some(v) => res matches Some(r) && r@ == v,
            None => res is None,
        },
{
    m.get(key)
}

/// `IndexMap::len` on a dead-key map.
#[verifier::external_body]
pub(crate) fn dead_keys_len(m: &IndexMap<String, DeadKeyOutput>) -> (res: usize)
    ensures
        res == dead_key_entries(*m).len(),
{
    m.len()
}

/// `IndexMap::get_index` on a dead-key map, at an index below its length.
#[verifier::external_body]
pub(crate) fn dead_keys_get_index<'a>(m: &'a IndexMap<String, DeadKeyOutput>, i: usize) -> (res: (
    &'a String,
    &'a DeadKeyOutput,
))
    requires
        i < dead_key_entries(*m).len(),
    ensures
        res.0@ == dead_key_entries(*m)[i as int].0,
        res.1@ == dead_key_entries(*m)[i as int].1,
{
    m.get_index(i).unwrap()
}

/// `IndexMap::new` for a layered key transition map: no entries.
#[verifier::external_body]
pub(crate) fn layers_new() -> (res: IndexMap<MacOsKbdLayer, IndexMap<String, KeyTransition>>)
    ensures
        layer_entries(res) == Seq::<(MacOsKbdLayer, Seq<(Seq<char>, KeyTransitionView)>)>::empty(),
{
    IndexMap::new()
}

/// `IndexMap::insert` on a layered key transition map; it hands back the map
/// that the layer held before, if it held one.
#[verifier::external_body]
pub(crate) fn layers_insert(
    m: &mut IndexMap<MacOsKbdLayer, IndexMap<String, KeyTransition>>,
    key: MacOsKbdLayer,
    value: IndexMap<String, KeyTransition>,
) -> (res: Option<IndexMap<String, KeyTransition>>)
    ensures
        layer_entries(*final(m)) == entry_insert(
            layer_entries(*old(m)),
            key,
            transition_entries(value),
        ),
        match entry_get(layer_entries(*old(m)), key) {
            Some(v) => res matches Some(r) && transition_entries(r) == v,
            None => res is None,
        },
{
    m.insert(key, value)
}

/// `IndexMap::get` on a layered key transition map.
#[verifier::external_body]
pub(crate) fn layers_get<'a>(
    m: &'a IndexMap<MacOsKbdLayer, IndexMap<String, KeyTransition>>,
    key: MacOsKbdLayer,
) -> (res: Option<&'a IndexMap<String, KeyTransition>>)
    ensures
        match entry_get(layer_entries(*m), key) {
            Some(v) => res matches Some(r) && transition_entries(*r) == v,
            None => res is None,
        },
{
    m.get(&key)
}

/// The entries of a configuration's build settings, in order, keys and
/// values by view.
pub uninterp spec fn setting_entries(m: IndexMap<String, SettingValue>) -> Seq<(Seq<char>, SettingView)>;

/// `IndexMap::insert` on build settings.
#[verifier::external_body]
pub(crate) fn settings_insert(m: &mut IndexMap<String, SettingValue>, key: String, value: SettingValue)
    ensures
        setting_entries(*final(m)) == entry_insert(setting_entries(*old(m)), key@, value@),
{
    m.insert(key, value);
}

/// `IndexMap::len` on build settings.
#[verifier::external_body]
pub(crate) fn settings_len(m: &IndexMap<String, SettingValue>) -> (res: usize)
    ensures
        res == setting_entries(*m).len(),
{
    m.len()
}

/// `IndexMap::get_index` on build settings, at an index below their length.
#[verifier::external_body]
pub(crate) fn settings_get_index<'a>(m: &'a IndexMap<String, SettingValue>, i: usize) -> (res: (
    &'a String,
    &'a SettingValue,
))
    requires
        i < setting_entries(*m).len(),
    ensures
        res.0@ == setting_entries(*m)[i as int].0,
        res.1@ == setting_entries(*m)[i as int].1,
{
    m.get_index(i).unwrap()
}

/// `IndexMap::clone` on build settings: the same entries in the same order.
#[verifier::external_body]
pub(crate) fn settings_clone(m: &IndexMap<String, SettingValue>) -> (res: IndexMap<String, SettingValue>)
    ensures
        setting_entries(res) == setting_entries(*m),
{
    m.clone()
}

} // verus!
