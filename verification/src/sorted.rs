//! Strings in the order of `str`'s `Ord`, and the sorted sets and maps of
//! strings that the project file keeps its identifiers in.
//!
//! A set is a `Vec<String>` and a map a `Vec<(String, V)>`, both kept in
//! strictly increasing order of their strings, as a `BTreeSet` and a
//! `BTreeMap` walk them.

use vstd::prelude::*;

use crate::text::{chars_of, str_eq};

verus! {

/// `a` sorts before `b`: compared character by character by code point, a
/// proper prefix first (the order of `str`, which compares UTF-8 bytes).
pub open spec fn text_lt(a: Seq<char>, b: Seq<char>) -> bool
    decreases a.len(),
{
    if a.len() == 0 {
        b.len() > 0
    } else if b.len() == 0 {
        false
    } else if a[0] < b[0] {
        true
    } else if a[0] == b[0] {
        text_lt(a.drop_first(), b.drop_first())
    } else {
        false
    }
}

/// No text sorts before itself.
pub proof fn lemma_text_lt_irreflexive(a: Seq<char>)
    ensures
        !text_lt(a, a),
    decreases a.len(),
{
    if a.len() > 0 {
        lemma_text_lt_irreflexive(a.drop_first());
    }
}

/// The order is transitive.
pub proof fn lemma_text_lt_transitive(a: Seq<char>, b: Seq<char>, c: Seq<char>)
    requires
        text_lt(a, b),
        text_lt(b, c),
    ensures
        text_lt(a, c),
    decreases a.len(),
{
    if a.len() > 0 && b.len() > 0 && c.len() > 0 {
        if a[0] == b[0] && b[0] == c[0] {
            lemma_text_lt_transitive(a.drop_first(), b.drop_first(), c.drop_first());
        }
    }
}

/// Of two different texts, one sorts before the other.
pub proof fn lemma_text_lt_total(a: Seq<char>, b: Seq<char>)
    requires
        a != b,
    ensures
        text_lt(a, b) || text_lt(b, a),
    decreases a.len(),
{
    if a.len() == 0 && b.len() == 0 {
        assert(a =~= b);
    } else if a.len() > 0 && b.len() > 0 && a[0] == b[0] {
        if a.drop_first() == b.drop_first() {
            assert(a =~= seq![a[0]] + a.drop_first());
            assert(b =~= seq![b[0]] + b.drop_first());
        }
        lemma_text_lt_total(a.drop_first(), b.drop_first());
    }
}

/// The order is asymmetric.
pub proof fn lemma_text_lt_asymmetric(a: Seq<char>, b: Seq<char>)
    requires
        text_lt(a, b),
    ensures
        !text_lt(b, a),
{
    if text_lt(b, a) {
        lemma_text_lt_transitive(a, b, a);
        lemma_text_lt_irreflexive(a);
    }
}

/// Whether `a` sorts before `b`, as `a < b` on strings.
pub fn text_less(a: &str, b: &str) -> (res: bool)
    ensures
        res == text_lt(a@, b@),
{
    let x = chars_of(a);
    let y = chars_of(b);
    let mut i: usize = 0;
    assert(a@.skip(0) =~= a@);
    assert(b@.skip(0) =~= b@);
    while i < x.len() && i < y.len()
        invariant
            i <= x.len(),
            i <= y.len(),
            x@ == a@,
            y@ == b@,
            text_lt(a@, b@) == text_lt(a@.skip(i as int), b@.skip(i as int)),
        decreases x.len() - i,
    {
        let cx = x[i];
        let cy = y[i];
        assert(a@.skip(i as int)[0] == cx && b@.skip(i as int)[0] == cy);
        if cx < cy {
            return true;
        }
        if cx != cy {
            return false;
        }
        assert(a@.skip(i as int).drop_first() =~= a@.skip(i + 1));
        assert(b@.skip(i as int).drop_first() =~= b@.skip(i + 1));
        i = i + 1;
    }
    i == x.len() && i < y.len()
}

/// The texts are in order, equal ones side by side.
pub open spec fn sorted_texts(s: Seq<Seq<char>>) -> bool {
    forall|i: int, j: int| 0 <= i < j < s.len() ==> !text_lt(#[trigger] s[j], #[trigger] s[i])
}

/// The strings of `v` in order, as `slice::sort` leaves them: the same
/// strings, each as often, none sorting before one ahead of it.
pub fn sort_strings(v: Vec<String>) -> (res: Vec<String>)
    ensures
        sorted_texts(crate::text::texts(res@)),
        crate::text::texts(res@).to_multiset() == crate::text::texts(v@).to_multiset(),
{
    broadcast use vstd::seq_lib::group_to_multiset_ensures;

    let mut out: Vec<String> = Vec::new();
    let mut i: usize = 0;
    assert(crate::text::texts(out@) =~= Seq::<Seq<char>>::empty());
    assert(crate::text::texts(v@).take(0) =~= Seq::<Seq<char>>::empty());
    while i < v.len()
        invariant
            i <= v.len(),
            sorted_texts(crate::text::texts(out@)),
            crate::text::texts(out@).to_multiset() == crate::text::texts(v@).take(i as int).to_multiset(),
        decreases v.len() - i,
    {
        let x = &v[i];
        let ghost before = crate::text::texts(out@);
        let mut p: usize = 0;
        while p < out.len() && !text_less(x.as_str(), out[p].as_str())
            invariant
                p <= out.len(),
                before == crate::text::texts(out@),
                forall|k: int| 0 <= k < p ==> !text_lt(x@, #[trigger] before[k]),
            decreases out.len() - p,
        {
            p = p + 1;
        }
        proof {
            if p < out.len() {
                assert(text_lt(x@, before[p as int]));
            }
        }
        out.insert(p, x.clone());
        proof {
            let after = crate::text::texts(out@);
            assert(after =~= before.insert(p as int, after[p as int]));
            assert(after[p as int] == x@);
            assert forall|a: int, b: int| 0 <= a < b < after.len() implies !text_lt(#[trigger] after[b], #[trigger] after[a]) by {
                if b == p {
                    assert(after[a] == before[a]);
                } else if a == p {
                    assert(after[b] == before[b - 1]);
                    if text_lt(after[b], x@) {
                        if b - 1 == p {
                            lemma_text_lt_transitive(after[b], x@, before[p as int]);
                            lemma_text_lt_irreflexive(after[b]);
                        } else {
                            lemma_text_lt_transitive(after[b], x@, before[p as int]);
                        }
                    }
                } else {
                    let a0 = if a < p { a } else { a - 1 };
                    let b0 = if b < p { b } else { b - 1 };
                    assert(after[a] == before[a0] && after[b] == before[b0]);
                }
            }
            vstd::seq_lib::to_multiset_insert(before, p as int, x@);
            let t = crate::text::texts(v@).take(i + 1);
            assert(t =~= crate::text::texts(v@).take(i as int).push(x@));
            vstd::seq_lib::to_multiset_build(crate::text::texts(v@).take(i as int), x@);
        }
        i = i + 1;
    }
    assert(crate::text::texts(v@).take(i as int) =~= crate::text::texts(v@));
    out
}

/// The strings of a sequence, each taken as its text, are in strictly
/// increasing order.
pub open spec fn strictly_sorted(s: Seq<Seq<char>>) -> bool {
    forall|i: int, j: int| 0 <= i < j < s.len() ==> text_lt(#[trigger] s[i], #[trigger] s[j])
}

/// The texts of a sequence of strings.
pub open spec fn text_seq(s: Seq<String>) -> Seq<Seq<char>> {
    s.map_values(|x: String| x@)
}

/// The index of the first string at or after `i` that does not sort before
/// `x`, or the length where there is none: where `x` belongs in a sorted
/// sequence.
pub open spec fn lower_bound_from(s: Seq<Seq<char>>, x: Seq<char>, i: int) -> int
    decreases s.len() - i,
{
    if i < 0 || i >= s.len() {
        s.len() as int
    } else if !text_lt(s[i], x) {
        i
    } else {
        lower_bound_from(s, x, i + 1)
    }
}

/// Where `x` belongs in a sorted sequence of texts.
pub open spec fn lower_bound(s: Seq<Seq<char>>, x: Seq<char>) -> int {
    lower_bound_from(s, x, 0)
}

/// `lower_bound_from` lies between its start and the length, and every text
/// it passes sorts before `x`.
pub proof fn lemma_lower_bound_from(s: Seq<Seq<char>>, x: Seq<char>, i: int)
    requires
        0 <= i <= s.len(),
    ensures
        i <= lower_bound_from(s, x, i) <= s.len(),
        forall|k: int| i <= k < lower_bound_from(s, x, i) ==> text_lt(#[trigger] s[k], x),
        lower_bound_from(s, x, i) < s.len() ==> !text_lt(s[lower_bound_from(s, x, i)], x),
    decreases s.len() - i,
{
    if i < s.len() && text_lt(s[i], x) {
        lemma_lower_bound_from(s, x, i + 1);
    }
}

/// In a sorted sequence, the texts from the lower bound on do not sort before
/// `x`.
pub proof fn lemma_lower_bound_sorted(s: Seq<Seq<char>>, x: Seq<char>)
    requires
        strictly_sorted(s),
    ensures
        0 <= lower_bound(s, x) <= s.len(),
        forall|k: int| 0 <= k < lower_bound(s, x) ==> text_lt(#[trigger] s[k], x),
        forall|k: int| lower_bound(s, x) <= k < s.len() ==> !text_lt(#[trigger] s[k], x),
{
    lemma_lower_bound_from(s, x, 0);
    let p = lower_bound(s, x);
    assert forall|k: int| p <= k < s.len() implies !text_lt(#[trigger] s[k], x) by {
        if k > p && text_lt(s[k], x) {
            lemma_text_lt_transitive(s[p], s[k], x);
        }
    }
}

/// The first index at or after `i` whose text is `x`.
pub open spec fn index_from(s: Seq<Seq<char>>, x: Seq<char>, i: int) -> Option<int>
    decreases s.len() - i,
{
    if i < 0 || i >= s.len() {
        None
    } else if s[i] == x {
        Some(i)
    } else {
        index_from(s, x, i + 1)
    }
}

/// The first index whose text is `x`.
pub open spec fn index_of_text(s: Seq<Seq<char>>, x: Seq<char>) -> Option<int> {
    index_from(s, x, 0)
}

/// `index_from` finds `x`, and nothing before it from `i` on is `x`.
pub proof fn lemma_index_from(s: Seq<Seq<char>>, x: Seq<char>, i: int)
    requires
        0 <= i <= s.len(),
    ensures
        index_from(s, x, i) matches Some(k) ==> i <= k < s.len() && s[k] == x && forall|j: int|
            i <= j < k ==> s[j] != x,
        index_from(s, x, i) is None ==> forall|j: int| i <= j < s.len() ==> s[j] != x,
    decreases s.len() - i,
{
    if i < s.len() && s[i] != x {
        lemma_index_from(s, x, i + 1);
    }
}

/// What inserting `x` into a set does: a set that holds `x` stays as it is;
/// otherwise `x` goes where it belongs in the order.
pub open spec fn set_inserted(s: Seq<String>, x: String) -> Seq<String> {
    let p = lower_bound(text_seq(s), x@);
    if p < s.len() && s[p]@ == x@ {
        s
    } else {
        s.take(p).push(x) + s.skip(p)
    }
}

/// What removing `x` from a set does: the first string equal to it leaves.
pub open spec fn set_removed(s: Seq<String>, x: Seq<char>) -> Seq<String> {
    match index_of_text(text_seq(s), x) {
        Some(k) => s.remove(k),
        None => s,
    }
}

/// The index of the first string at or after `i` that does not sort before
/// `x`, found by a walk from `i`.
fn lower_bound_exec(v: &Vec<String>, x: &str) -> (res: usize)
    ensures
        res == lower_bound(text_seq(v@), x@),
{
    let ghost s = text_seq(v@);
    let mut i: usize = 0;
    while i < v.len()
        invariant
            i <= v.len(),
            s == text_seq(v@),
            lower_bound_from(s, x@, i as int) == lower_bound(s, x@),
        decreases v.len() - i,
    {
        if !text_less(v[i].as_str(), x) {
            return i;
        }
        i = i + 1;
    }
    i
}

/// Inserts `x` into the set `v`, as `BTreeSet::insert` does on a set kept in
/// order.
pub fn set_insert(v: &mut Vec<String>, x: String)
    ensures
        final(v)@ == set_inserted(old(v)@, x),
{
    let p = lower_bound_exec(v, x.as_str());
    proof {
        lemma_lower_bound_from(text_seq(old(v)@), x@, 0);
    }
    if p < v.len() && v[p] == x {
        return;
    }
    v.insert(p, x);
    proof {
        assert(final(v)@ =~= old(v)@.take(p as int).push(x) + old(v)@.skip(p as int));
    }
}

/// Removes `x` from the set `v`, as `BTreeSet::remove` does.
pub fn set_remove(v: &mut Vec<String>, x: &str)
    ensures
        final(v)@ == set_removed(old(v)@, x@),
{
    let ghost s = text_seq(v@);
    let mut i: usize = 0;
    while i < v.len()
        invariant
            i <= v.len(),
            v@ == old(v)@,
            s == text_seq(v@),
            index_from(s, x@, i as int) == index_of_text(s, x@),
        decreases v.len() - i,
    {
        if str_eq(v[i].as_str(), x) {
            v.remove(i);
            return;
        }
        i = i + 1;
    }
}

/// Whether the set `v` holds `x`.
pub fn set_contains(v: &Vec<String>, x: &str) -> (res: bool)
    ensures
        res == (index_of_text(text_seq(v@), x@) is Some),
{
    let ghost s = text_seq(v@);
    let mut i: usize = 0;
    while i < v.len()
        invariant
            i <= v.len(),
            s == text_seq(v@),
            index_from(s, x@, i as int) == index_of_text(s, x@),
        decreases v.len() - i,
    {
        if str_eq(v[i].as_str(), x) {
            return true;
        }
        i = i + 1;
    }
    false
}

/// Inserting into a sorted set keeps it sorted, and it then holds exactly
/// what it held and `x`.
pub proof fn lemma_set_insert_sorted(s: Seq<String>, x: String)
    requires
        strictly_sorted(text_seq(s)),
    ensures
        strictly_sorted(text_seq(set_inserted(s, x))),
        forall|y: Seq<char>|
            text_seq(set_inserted(s, x)).contains(y) <==> (text_seq(s).contains(y) || y == x@),
{
    let t = text_seq(s);
    lemma_lower_bound_sorted(t, x@);
    let p = lower_bound(t, x@);
    let r = set_inserted(s, x);
    let u = text_seq(r);
    if p < s.len() && s[p]@ == x@ {
        assert forall|y: Seq<char>| u.contains(y) <==> (t.contains(y) || y == x@) by {
            if y == x@ {
                assert(t[p] == y);
            }
        }
    } else {
        assert(u =~= t.take(p).push(x@) + t.skip(p));
        assert forall|i: int, j: int| 0 <= i < j < u.len() implies text_lt(
            #[trigger] u[i],
            #[trigger] u[j],
        ) by {
            if i < p && j == p {
            } else if i == p {
                assert(u[j] == t[j - 1]);
                assert(t[p] != x@);
                lemma_text_lt_total(t[p], x@);
                if j - 1 > p {
                    lemma_text_lt_transitive(x@, t[p], t[j - 1]);
                }
            } else if i < p && j > p {
                assert(u[j] == t[j - 1]);
            } else if i > p {
                assert(u[i] == t[i - 1] && u[j] == t[j - 1]);
            }
        }
        assert forall|y: Seq<char>| u.contains(y) <==> (t.contains(y) || y == x@) by {
            if u.contains(y) {
                let k = choose|k: int| 0 <= k < u.len() && u[k] == y;
                if k < p {
                    assert(t[k] == y);
                } else if k > p {
                    assert(t[k - 1] == y);
                }
            }
            if t.contains(y) {
                let k = choose|k: int| 0 <= k < t.len() && t[k] == y;
                if k < p {
                    assert(u[k] == y);
                } else {
                    assert(u[k + 1] == y);
                }
            }
            if y == x@ {
                assert(u[p] == y);
            }
        }
    }
}

/// Removing from a sorted set keeps it sorted, and it then holds what it held
/// but `x`.
pub proof fn lemma_set_remove_sorted(s: Seq<String>, x: Seq<char>)
    requires
        strictly_sorted(text_seq(s)),
    ensures
        strictly_sorted(text_seq(set_removed(s, x))),
        forall|y: Seq<char>|
            text_seq(set_removed(s, x)).contains(y) <==> (text_seq(s).contains(y) && y != x),
{
    let t = text_seq(s);
    lemma_index_from(t, x, 0);
    match index_of_text(t, x) {
        Some(k) => {
            let u = text_seq(s.remove(k));
            assert(u =~= t.remove(k));
            assert forall|i: int, j: int| 0 <= i < j < u.len() implies text_lt(
                #[trigger] u[i],
                #[trigger] u[j],
            ) by {
                if i < k && j >= k {
                    assert(u[j] == t[j + 1]);
                } else if i >= k {
                    assert(u[i] == t[i + 1] && u[j] == t[j + 1]);
                }
            }
            assert forall|y: Seq<char>| u.contains(y) <==> (t.contains(y) && y != x) by {
                if u.contains(y) {
                    let m = choose|m: int| 0 <= m < u.len() && u[m] == y;
                    if m < k {
                        assert(t[m] == y);
                        lemma_text_lt_irreflexive(y);
                    } else {
                        assert(t[m + 1] == y);
                        lemma_text_lt_irreflexive(y);
                    }
                }
                if t.contains(y) && y != x {
                    let m = choose|m: int| 0 <= m < t.len() && t[m] == y;
                    if m < k {
                        assert(u[m] == y);
                    } else {
                        assert(m != k);
                        assert(u[m - 1] == y);
                    }
                }
            }
        },
        None => {},
    }
}

/// The keys of a map's entries, each taken as its text.
pub open spec fn key_seq<V>(s: Seq<(String, V)>) -> Seq<Seq<char>> {
    s.map_values(|e: (String, V)| e.0@)
}

/// The value under `k`: that of the first entry whose key is `k`.
pub open spec fn map_get<V>(s: Seq<(String, V)>, k: Seq<char>) -> Option<V> {
    match index_of_text(key_seq(s), k) {
        Some(i) => Some(s[i].1),
        None => None,
    }
}

/// What inserting `value` under `key` does: the entry of a key that is there
/// gets the new value, a new key goes where it belongs in the order.
pub open spec fn map_inserted<V>(s: Seq<(String, V)>, key: String, value: V) -> Seq<(String, V)> {
    let p = lower_bound(key_seq(s), key@);
    if p < s.len() && s[p].0@ == key@ {
        s.update(p, (s[p].0, value))
    } else {
        s.take(p).push((key, value)) + s.skip(p)
    }
}

/// What removing `key` does: the first entry under it leaves.
pub open spec fn map_removed<V>(s: Seq<(String, V)>, key: Seq<char>) -> Seq<(String, V)> {
    match index_of_text(key_seq(s), key) {
        Some(i) => s.remove(i),
        None => s,
    }
}

/// The index of the first entry whose key is `key`.
pub fn map_index<V>(v: &Vec<(String, V)>, key: &str) -> (res: Option<usize>)
    ensures
        res matches Some(j) ==> index_of_text(key_seq(v@), key@) == Some(j as int) && j < v.len(),
        res is None ==> index_of_text(key_seq(v@), key@) is None,
{
    let ghost s = key_seq(v@);
    let mut i: usize = 0;
    while i < v.len()
        invariant
            i <= v.len(),
            s == key_seq(v@),
            index_from(s, key@, i as int) == index_of_text(s, key@),
        decreases v.len() - i,
    {
        if str_eq(v[i].0.as_str(), key) {
            return Some(i);
        }
        i = i + 1;
    }
    None
}

/// Whether the keys of a map are in strictly increasing order, computed.
pub fn keys_sorted<V>(v: &Vec<(String, V)>) -> (res: bool)
    ensures
        res == strictly_sorted(key_seq(v@)),
{
    let ghost s = key_seq(v@);
    if v.len() == 0 {
        return true;
    }
    let mut i: usize = 1;
    while i < v.len()
        invariant
            1 <= i <= v.len(),
            s == key_seq(v@),
            forall|a: int, b: int| 0 <= a < b < i ==> text_lt(#[trigger] s[a], #[trigger] s[b]),
        decreases v.len() - i,
    {
        if !text_less(v[i - 1].0.as_str(), v[i].0.as_str()) {
            assert(!text_lt(s[i - 1], s[i as int]));
            return false;
        }
        assert forall|a: int, b: int| 0 <= a < b < i + 1 implies text_lt(#[trigger] s[a], #[trigger] s[b]) by {
            if b == i && a < i - 1 {
                lemma_text_lt_transitive(s[a], s[i - 1], s[b]);
            }
        }
        i = i + 1;
    }
    true
}

/// Where `key` belongs among the keys of a map.
fn key_lower_bound<V>(v: &Vec<(String, V)>, key: &str) -> (res: usize)
    ensures
        res == lower_bound(key_seq(v@), key@),
{
    let ghost s = key_seq(v@);
    let mut i: usize = 0;
    while i < v.len()
        invariant
            i <= v.len(),
            s == key_seq(v@),
            lower_bound_from(s, key@, i as int) == lower_bound(s, key@),
        decreases v.len() - i,
    {
        if !text_less(v[i].0.as_str(), key) {
            return i;
        }
        i = i + 1;
    }
    i
}

/// Inserts `value` under `key`, as `BTreeMap::insert` does on entries kept
/// in key order.
pub fn map_insert<V>(v: &mut Vec<(String, V)>, key: String, value: V)
    ensures
        final(v)@ == map_inserted(old(v)@, key, value),
{
    let ghost s = key_seq(v@);
    let i = key_lower_bound(v, key.as_str());
    proof {
        lemma_lower_bound_from(s, key@, 0);
    }
    if i < v.len() && str_eq(v[i].0.as_str(), key.as_str()) {
        let k = v.remove(i);
        v.insert(i, (k.0, value));
        proof {
            assert(final(v)@ =~= old(v)@.update(i as int, (old(v)@[i as int].0, value)));
        }
    } else {
        v.insert(i, (key, value));
        proof {
            assert(final(v)@ =~= old(v)@.take(i as int).push((key, value)) + old(v)@.skip(i as int));
        }
    }
}

/// Removes the entry under `key`, as `BTreeMap::remove` does.
pub fn map_remove<V>(v: &mut Vec<(String, V)>, key: &str)
    ensures
        final(v)@ == map_removed(old(v)@, key@),
{
    proof {
        lemma_index_from(key_seq(v@), key@, 0);
    }
    match map_index(v, key) {
        Some(i) => {
            v.remove(i);
        },
        None => {},
    }
}

/// After an insert, the inserted key reads the inserted value and every
/// other key reads what it read before.
pub proof fn lemma_map_insert_get<V>(s: Seq<(String, V)>, key: String, value: V, q: Seq<char>)
    ensures
        map_get(map_inserted(s, key, value), q) == (if q == key@ {
            Some(value)
        } else {
            map_get(s, q)
        }),
{
    let t = key_seq(s);
    let r = map_inserted(s, key, value);
    let u = key_seq(r);
    lemma_lower_bound_from(t, key@, 0);
    let p = lower_bound(t, key@);
    lemma_index_from(t, q, 0);
    lemma_index_from(u, q, 0);
    if p < s.len() && s[p].0@ == key@ {
        assert(u =~= t);
        if q == key@ {
            assert(t[p] == q);
            match index_of_text(t, q) {
                Some(k) => {
                    if k < p {
                        assert(text_lt(t[k], key@));
                        lemma_text_lt_irreflexive(q);
                    }
                },
                None => {},
            }
        }
    } else {
        assert(u =~= t.take(p).push(key@) + t.skip(p));
        if q == key@ {
            assert(u[p] == q);
            match index_of_text(u, q) {
                Some(k) => {
                    if k < p {
                        assert(u[k] == t[k]);
                        lemma_text_lt_irreflexive(q);
                    }
                },
                None => {},
            }
        } else {
            match index_of_text(t, q) {
                Some(k) => {
                    if k < p {
                        assert(u[k] == t[k]);
                    } else {
                        assert(u[k + 1] == t[k]);
                        assert forall|j: int| 0 <= j < k + 1 implies u[j] != q by {
                            if j < p {
                                assert(u[j] == t[j]);
                            } else if j > p {
                                assert(u[j] == t[j - 1]);
                            }
                        }
                    }
                },
                None => {
                    assert forall|j: int| 0 <= j < u.len() implies u[j] != q by {
                        if j < p {
                            assert(u[j] == t[j]);
                        } else if j > p {
                            assert(u[j] == t[j - 1]);
                        }
                    }
                },
            }
        }
    }
}

/// Inserting into a map kept in key order keeps it in key order.
pub proof fn lemma_map_insert_sorted<V>(s: Seq<(String, V)>, key: String, value: V)
    requires
        strictly_sorted(key_seq(s)),
    ensures
        strictly_sorted(key_seq(map_inserted(s, key, value))),
{
    let t = key_seq(s);
    lemma_lower_bound_sorted(t, key@);
    let p = lower_bound(t, key@);
    let u = key_seq(map_inserted(s, key, value));
    if p < s.len() && s[p].0@ == key@ {
        assert(u =~= t);
    } else {
        assert(u =~= t.take(p).push(key@) + t.skip(p));
        assert forall|i: int, j: int| 0 <= i < j < u.len() implies text_lt(
            #[trigger] u[i],
            #[trigger] u[j],
        ) by {
            if i < p && j == p {
            } else if i == p {
                assert(u[j] == t[j - 1]);
                assert(t[p] != key@);
                lemma_text_lt_total(t[p], key@);
                if j - 1 > p {
                    lemma_text_lt_transitive(key@, t[p], t[j - 1]);
                }
            } else if i < p && j > p {
                assert(u[j] == t[j - 1]);
            } else if i > p {
                assert(u[i] == t[i - 1] && u[j] == t[j - 1]);
            }
        }
    }
}

/// Removing from a map kept in key order keeps it in key order, and the key
/// then reads nothing while every other key reads what it read before.
pub proof fn lemma_map_remove_get<V>(s: Seq<(String, V)>, key: Seq<char>, q: Seq<char>)
    requires
        strictly_sorted(key_seq(s)),
    ensures
        strictly_sorted(key_seq(map_removed(s, key))),
        map_get(map_removed(s, key), q) == (if q == key {
            None
        } else {
            map_get(s, q)
        }),
{
    let t = key_seq(s);
    lemma_index_from(t, key, 0);
    lemma_index_from(t, q, 0);
    match index_of_text(t, key) {
        Some(i) => {
            let u = key_seq(s.remove(i));
            assert(u =~= t.remove(i));
            lemma_index_from(u, q, 0);
            assert forall|a: int, b: int| 0 <= a < b < u.len() implies text_lt(
                #[trigger] u[a],
                #[trigger] u[b],
            ) by {
                if a < i && b >= i {
                    assert(u[b] == t[b + 1]);
                } else if a >= i {
                    assert(u[a] == t[a + 1] && u[b] == t[b + 1]);
                }
            }
            if q == key {
                match index_of_text(u, q) {
                    Some(k) => {
                        if k < i {
                            assert(u[k] == t[k]);
                        } else {
                            assert(u[k] == t[k + 1]);
                            assert(text_lt(t[i], t[k + 1]));
                            lemma_text_lt_irreflexive(q);
                        }
                    },
                    None => {},
                }
            } else {
                match index_of_text(t, q) {
                    Some(k) => {
                        if k < i {
                            assert(u[k] == t[k]);
                        } else {
                            assert(k != i);
                            assert(u[k - 1] == t[k]);
                            assert forall|j: int| 0 <= j < k - 1 implies u[j] != q by {
                                if j < i {
                                    assert(u[j] == t[j]);
                                } else {
                                    assert(u[j] == t[j + 1]);
                                }
                            }
                        }
                    },
                    None => {
                        assert forall|j: int| 0 <= j < u.len() implies u[j] != q by {
                            if j < i {
                                assert(u[j] == t[j]);
                            } else {
                                assert(u[j] == t[j + 1]);
                            }
                        }
                    },
                }
            }
        },
        None => {},
    }
}

/// The keys after inserting `k`: as they were if `k` is there, else with
/// `k` where it belongs.
pub open spec fn keys_inserted(keys: Seq<Seq<char>>, k: Seq<char>) -> Seq<Seq<char>> {
    let p = lower_bound(keys, k);
    if p < keys.len() && keys[p] == k {
        keys
    } else {
        keys.take(p).push(k) + keys.skip(p)
    }
}

/// An insert changes the keys as `keys_inserted` says, whatever the value.
pub proof fn lemma_map_insert_keys<V>(s: Seq<(String, V)>, key: String, value: V)
    ensures
        key_seq(map_inserted(s, key, value)) == keys_inserted(key_seq(s), key@),
{
    let t = key_seq(s);
    let p = lower_bound(t, key@);
    lemma_lower_bound_from(t, key@, 0);
    if p < s.len() && s[p].0@ == key@ {
        assert(key_seq(map_inserted(s, key, value)) =~= t);
    } else {
        assert(key_seq(map_inserted(s, key, value)) =~= t.take(p).push(key@) + t.skip(p));
    }
}

} // verus!
