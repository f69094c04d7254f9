//! Lists of entries keyed by text, kept as an ordered map keeps them: an
//! insert under a key that is there replaces that entry's value in place, an
//! insert under a new key appends the entry.

use vstd::prelude::*;

use crate::index_map::{entry_index, entry_insert, lemma_entry_index_bounds};
use crate::text::str_eq;

verus! {

/// The keys of `entries` by view, each with nothing beside it.
pub open spec fn key_list<T>(entries: Seq<(String, T)>) -> Seq<(Seq<char>, ())> {
    entries.map_values(|e: (String, T)| (e.0@, ()))
}

/// Where the entry under `key` stands.
pub open spec fn key_index<T>(entries: Seq<(String, T)>, key: Seq<char>) -> Option<int> {
    entry_index(key_list(entries), key)
}

/// The entries after an insert of `value` under `key`.
pub open spec fn keyed_insert<T>(entries: Seq<(String, T)>, key: String, value: T) -> Seq<(String, T)> {
    match key_index(entries, key@) {
        Some(i) => entries.update(i, (key, value)),
        None => entries.push((key, value)),
    }
}

/// The entries with keys and values by view, the value by `f`.
pub open spec fn entries_by<T, V>(entries: Seq<(String, T)>, f: spec_fn(T) -> V) -> Seq<(Seq<char>, V)> {
    entries.map_values(|e: (String, T)| (e.0@, f(e.1)))
}

/// Whether no key occurs twice.
pub open spec fn keys_distinct<K, V>(entries: Seq<(K, V)>) -> bool {
    forall|i: int, j: int| 0 <= i < j < entries.len() ==> entries[i].0 != entries[j].0
}

/// Two lists with the same keys in the same places find a key in the same
/// place.
pub proof fn lemma_entry_index_same_keys<K, V, W>(a: Seq<(K, V)>, b: Seq<(K, W)>, key: K)
    requires
        a.len() == b.len(),
        forall|i: int| 0 <= i < a.len() ==> #[trigger] a[i].0 == b[i].0,
    ensures
        entry_index(a, key) == entry_index(b, key),
    decreases a.len(),
{
    if a.len() > 0 {
        let (da, db) = (a.drop_last(), b.drop_last());
        assert forall|i: int| 0 <= i < da.len() implies #[trigger] da[i].0 == db[i].0 by {
            assert(da[i] == a[i] && db[i] == b[i]);
        }
        lemma_entry_index_same_keys(da, db, key);
    }
}

/// The entry at `k` holds `key` and none after it does: `k` is where the key
/// is found.
pub proof fn lemma_entry_index_at<K, V>(entries: Seq<(K, V)>, key: K, k: int)
    requires
        0 <= k < entries.len(),
        entries[k].0 == key,
        forall|j: int| k < j < entries.len() ==> #[trigger] entries[j].0 != key,
    ensures
        entry_index(entries, key) == Some(k),
    decreases entries.len(),
{
    if k < entries.len() - 1 {
        let d = entries.drop_last();
        assert(entries[entries.len() - 1].0 != key);
        assert forall|j: int| k < j < d.len() implies #[trigger] d[j].0 != key by {
            assert(d[j] == entries[j]);
        }
        lemma_entry_index_at(d, key, k);
    }
}

/// Seen through any view of its values, an insert into a keyed list is the
/// ordered map's insert.
pub proof fn lemma_keyed_insert_by<T, V>(entries: Seq<(String, T)>, key: String, value: T, f: spec_fn(T) -> V)
    ensures
        entries_by(keyed_insert(entries, key, value), f) == entry_insert(entries_by(entries, f), key@, f(value)),
{
    let by = entries_by(entries, f);
    lemma_entry_index_same_keys(key_list(entries), by, key@);
    match key_index(entries, key@) {
        Some(i) => {
            lemma_entry_index_bounds(key_list(entries), key@);
            assert(entries_by(keyed_insert(entries, key, value), f) =~= by.update(i, (key@, f(value))));
        },
        None => {
            assert(entries_by(keyed_insert(entries, key, value), f) =~= by.push((key@, f(value))));
        },
    }
}

/// An ordered map's insert keeps its keys distinct.
pub proof fn lemma_entry_insert_distinct<K, V>(entries: Seq<(K, V)>, key: K, value: V)
    requires
        keys_distinct(entries),
    ensures
        keys_distinct(entry_insert(entries, key, value)),
{
    lemma_entry_index_bounds(entries, key);
}

/// Where the entry under `key` stands, if one does.
pub fn find_key<T>(entries: &Vec<(String, T)>, key: &str) -> (res: Option<usize>)
    ensures
        match res {
            Some(i) => key_index(entries@, key@) == Some(i as int),
            None => key_index(entries@, key@) is None,
        },
{
    let ghost keys = key_list(entries@);
    let mut i: usize = entries.len();
    while i > 0
        invariant
            i <= entries.len(),
            keys == key_list(entries@),
            forall|j: int| i <= j < entries.len() ==> #[trigger] keys[j].0 != key@,
        decreases i,
    {
        if str_eq(entries[i - 1].0.as_str(), key) {
            proof {
                lemma_entry_index_at(keys, key@, (i - 1) as int);
            }
            return Some(i - 1);
        }
        i = i - 1;
    }
    proof {
        lemma_entry_index_bounds(keys, key@);
    }
    None
}

/// Inserts `value` under `key`: in place of the value there, or last.
pub fn insert_keyed<T>(entries: &mut Vec<(String, T)>, key: String, value: T)
    ensures
        final(entries)@ == keyed_insert(old(entries)@, key, value),
{
    match find_key(entries, key.as_str()) {
        Some(i) => {
            proof {
                lemma_entry_index_bounds(key_list(entries@), key@);
            }
            entries.set(i, (key, value));
        },
        None => {
            entries.push((key, value));
        },
    }
}

} // verus!
