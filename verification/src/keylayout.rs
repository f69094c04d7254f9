//! A whole macOS `.keylayout`: the layers, their key maps, the dead-key
//! actions and the terminators, computed from a layout's description.

use indexmap::IndexMap;
use vstd::prelude::*;

use crate::index_map::{
    dead_keys_new, layers_new, lemma_entry_insert_elements, dead_key_entries, entry_get, entry_index, entry_insert, layer_entries, lemma_entry_index_bounds,
    lemma_entry_insert,
};
use crate::layout::{
    MacOsKbdLayer, Transform, find_key, find_mac_layer, first_key_index, first_layer_index,
    lemma_first_key_index, lemma_first_layer_index,
};
use crate::macos::{
    ActionElement, KeyMapElement, TransformIdManager, WhenElement, action_element_views,
    compute_keyboard_id, compute_language_name, create_dead_key_actions, initialize_key_transition_map,
    key_map_element_views, keyboard_number, keys_ready, layer_attributes, layer_key_map,
    layer_modifiers, all_layer_actions, process_transforms, terminator_whens, transform_applies,
    when_element_views, write_key_transition_map, write_terminators,
    DeadKeyOutputView, KeyTransitionView, LayerTransformState, MACOS_KEY_COUNT, TransformState,
    dead_key_next_step, dead_key_transform_step, escape_output, is_dead_key_layer, key_with_transform,
    layer_dead_key_actions, layer_key_transitions, layer_transforms, layers_with_dead_key_actions,
    layers_with_transforms, next_key_stop, none_state, output_transition, transition_decodes,
    word_transforms, initialized_layers, target_layer_dead_keys, has_escape,
};
use crate::text::{
    decimal, escapes_are_scalar, escapes_decode, split_keys, str_eq, string_views, without_char, words,
};

verus! {

/// Whether every transition of a layer's map has texts that decode.
pub open spec fn keys_decode(keys: Seq<(Seq<char>, KeyTransitionView)>) -> bool {
    forall|j: int| 0 <= j < keys.len() ==> transition_decodes(#[trigger] keys[j].1)
}

/// Whether every layer's map has texts that decode.
pub open spec fn layered_decodes(layered: Seq<(MacOsKbdLayer, Seq<(Seq<char>, KeyTransitionView)>)>) -> bool {
    forall|i: int| 0 <= i < layered.len() ==> keys_decode(#[trigger] layered[i].1)
}

/// Whether every dead-key state's text decodes.
pub open spec fn dead_keys_decode(dead_keys: Seq<(Seq<char>, DeadKeyOutputView)>) -> bool {
    forall|j: int| 0 <= j < dead_keys.len() ==> escapes_are_scalar(#[trigger] dead_keys[j].1.output)
}

/// Whether the texts that a transform gives at the key `word` decode: its
/// escape text and the text of the entry where its scan for `word` stops.
pub open spec fn transform_texts_decode(value: Transform, word: Seq<char>) -> bool {
    value matches Transform::More(map) ==> {
        &&& escapes_are_scalar(escape_output(map@))
        &&& next_key_stop(map@, word, 0) matches Some(j) ==> (map@[j].1 matches Transform::End(
            t,
        ) ==> escapes_are_scalar(t@))
    }
}

proof fn lemma_insert_keys_decode(
    keys: Seq<(Seq<char>, KeyTransitionView)>,
    key: Seq<char>,
    value: KeyTransitionView,
)
    requires
        keys_decode(keys),
        transition_decodes(value),
    ensures
        keys_decode(entry_insert(keys, key, value)),
{
    lemma_entry_insert_elements(keys, key, value);
}

proof fn lemma_insert_layered_decodes(
    layered: Seq<(MacOsKbdLayer, Seq<(Seq<char>, KeyTransitionView)>)>,
    layer: MacOsKbdLayer,
    keys: Seq<(Seq<char>, KeyTransitionView)>,
)
    requires
        layered_decodes(layered),
        keys_decode(keys),
    ensures
        layered_decodes(entry_insert(layered, layer, keys)),
{
    lemma_entry_insert_elements(layered, layer, keys);
    let r = entry_insert(layered, layer, keys);
    assert forall|i: int| 0 <= i < r.len() implies keys_decode(#[trigger] r[i].1) by {
        if r[i] != (layer, keys) {
            assert(layered_decodes(layered));
            assert(keys_decode(layered[i].1));
        }
    }
}

proof fn lemma_insert_dead_keys_decode(
    dead_keys: Seq<(Seq<char>, DeadKeyOutputView)>,
    key: Seq<char>,
    value: DeadKeyOutputView,
)
    requires
        dead_keys_decode(dead_keys),
        escapes_are_scalar(value.output),
    ensures
        dead_keys_decode(entry_insert(dead_keys, key, value)),
{
    lemma_entry_insert_elements(dead_keys, key, value);
}

proof fn lemma_key_with_transform_decodes(
    keys: Seq<(Seq<char>, KeyTransitionView)>,
    key: Seq<char>,
    transform: DeadKeyOutputView,
    count: nat,
)
    requires
        keys_decode(keys),
        escapes_are_scalar(transform.output),
    ensures
        keys_decode(key_with_transform(keys, key, transform, count).0),
{
    lemma_entry_index_bounds(keys, key);
    match entry_get(keys, key) {
        Some(KeyTransitionView::Output(o)) => {
            let i = entry_index(keys, key)->0;
            assert(transition_decodes(keys[i].1));
            let v = KeyTransitionView::Action(
                crate::macos::DeadKeyActionView {
                    id: crate::macos::action_id(count),
                    code: o.code,
                    states: seq![DeadKeyOutputView { id: none_state(), output: o.output }, transform],
                },
            );
            assert(transition_decodes(v));
            lemma_insert_keys_decode(keys, key, v);
        },
        Some(KeyTransitionView::Action(a)) => {
            let i = entry_index(keys, key)->0;
            assert(transition_decodes(keys[i].1));
            let v = KeyTransitionView::Action(
                crate::macos::DeadKeyActionView {
                    id: a.id,
                    code: a.code,
                    states: a.states.push(transform),
                },
            );
            assert(transition_decodes(v));
            lemma_insert_keys_decode(keys, key, v);
        },
        _ => {},
    }
}

/// What one dead-key step keeps: texts that decode, the dead keys already
/// seen, and counters that grow by at most one each.
proof fn lemma_step_frame(s: LayerTransformState, dead_key: Seq<char>, value: Transform, word: Seq<char>)
    requires
        keys_decode(s.keys),
        dead_keys_decode(s.dead_keys),
        transform_texts_decode(value, word),
    ensures
        ({
            let r = dead_key_transform_step(s, dead_key, value, word);
            &&& keys_decode(r.keys)
            &&& dead_keys_decode(r.dead_keys)
            &&& s.dead_key_count <= r.dead_key_count <= s.dead_key_count + 1
            &&& s.action_count <= r.action_count <= s.action_count + 1
            &&& forall|q: Seq<char>| entry_index(s.dead_keys, q) is Some ==> (#[trigger] entry_index(r.dead_keys, q)) is Some
            &&& (value is More ==> entry_index(r.dead_keys, dead_key) is Some)
        }),
{
    match value {
        Transform::End(_) => {},
        Transform::More(map) => {
            let s1 = if entry_index(s.dead_keys, dead_key) is Some {
                s
            } else {
                let v = DeadKeyOutputView {
                    id: crate::macos::dead_key_id(s.dead_key_count),
                    output: escape_output(map@),
                };
                lemma_insert_dead_keys_decode(s.dead_keys, dead_key, v);
                assert forall|q: Seq<char>| entry_index(s.dead_keys, q) is Some implies (#[trigger] entry_index(
                    entry_insert(s.dead_keys, dead_key, v),
                    q,
                )) is Some by {
                    lemma_entry_insert(s.dead_keys, dead_key, v, q);
                }
                lemma_entry_insert(s.dead_keys, dead_key, v, dead_key);
                LayerTransformState {
                    keys: s.keys,
                    dead_keys: entry_insert(s.dead_keys, dead_key, v),
                    dead_key_count: s.dead_key_count + 1,
                    action_count: s.action_count,
                }
            };
            let id = match entry_get(s1.dead_keys, dead_key) {
                Some(d) => d.id,
                None => seq![],
            };
            match next_key_stop(map@, word, 0) {
                Some(j) => match map@[j].1 {
                    Transform::End(out) => {
                        lemma_key_with_transform_decodes(
                            s1.keys,
                            map@[j].0@,
                            DeadKeyOutputView { id: id, output: out@ },
                            s1.action_count,
                        );
                        crate::macos::lemma_key_with_transform_counts(
                            s1.keys,
                            map@[j].0@,
                            DeadKeyOutputView { id: id, output: out@ },
                            s1.action_count,
                        );
                    },
                    Transform::More(_) => {},
                },
                None => {},
            }
        },
    }
}


proof fn lemma_word_transforms_frame(s: LayerTransformState, ts: Seq<(String, Transform)>, word: Seq<char>)
    requires
        keys_decode(s.keys),
        dead_keys_decode(s.dead_keys),
        forall|t: int| 0 <= t < ts.len() ==> transform_texts_decode(#[trigger] ts[t].1, word),
    ensures
        ({
            let r = word_transforms(s, ts, word);
            &&& keys_decode(r.keys)
            &&& dead_keys_decode(r.dead_keys)
            &&& s.dead_key_count <= r.dead_key_count <= s.dead_key_count + ts.len()
            &&& s.action_count <= r.action_count <= s.action_count + ts.len()
            &&& forall|q: Seq<char>| entry_index(s.dead_keys, q) is Some ==> (#[trigger] entry_index(r.dead_keys, q)) is Some
            &&& forall|t: int| 0 <= t < ts.len() && (#[trigger] ts[t].1) is More ==> entry_index(r.dead_keys, ts[t].0@) is Some
        }),
    decreases ts.len(),
{
    if ts.len() > 0 {
        let prev = word_transforms(s, ts.drop_last(), word);
        assert forall|t: int| 0 <= t < ts.drop_last().len() implies transform_texts_decode(
            #[trigger] ts.drop_last()[t].1,
            word,
        ) by {
            assert(ts.drop_last()[t] == ts[t]);
        }
        lemma_word_transforms_frame(s, ts.drop_last(), word);
        assert(transform_texts_decode(ts[ts.len() - 1].1, word));
        lemma_step_frame(prev, ts.last().0@, ts.last().1, word);
        let r = word_transforms(s, ts, word);
        assert forall|t: int| 0 <= t < ts.len() && (#[trigger] ts[t].1) is More implies entry_index(
            r.dead_keys,
            ts[t].0@,
        ) is Some by {
            if t < ts.len() - 1 {
                assert(ts.drop_last()[t] == ts[t]);
                assert(entry_index(prev.dead_keys, ts[t].0@) is Some);
            }
        }
    }
}

proof fn lemma_count_step(n: int, t: int)
    by (nonlinear_arith)
    requires
        n >= 1,
        t >= 0,
    ensures
        (n - 1) * t + t == n * t,
        0 <= (n - 1) * t,
{
}

proof fn lemma_layer_transforms_frame(
    s: LayerTransformState,
    ts: Seq<(String, Transform)>,
    ws: Seq<Seq<char>>,
    n: nat,
)
    requires
        keys_decode(s.keys),
        dead_keys_decode(s.dead_keys),
        forall|c: int, t: int|
            0 <= c < n && 0 <= t < ts.len() ==> transform_texts_decode(#[trigger] ts[t].1, #[trigger] ws[c]),
    ensures
        ({
            let r = layer_transforms(s, ts, ws, n);
            &&& keys_decode(r.keys)
            &&& dead_keys_decode(r.dead_keys)
            &&& s.dead_key_count <= r.dead_key_count <= s.dead_key_count + n * ts.len()
            &&& s.action_count <= r.action_count <= s.action_count + n * ts.len()
            &&& forall|q: Seq<char>| entry_index(s.dead_keys, q) is Some ==> (#[trigger] entry_index(r.dead_keys, q)) is Some
            &&& n >= 1 ==> forall|t: int| 0 <= t < ts.len() && (#[trigger] ts[t].1) is More ==> entry_index(r.dead_keys, ts[t].0@) is Some
        }),
    decreases n,
{
    if n > 0 {
        let prev = layer_transforms(s, ts, ws, (n - 1) as nat);
        lemma_layer_transforms_frame(s, ts, ws, (n - 1) as nat);
        assert forall|t: int| 0 <= t < ts.len() implies transform_texts_decode(#[trigger] ts[t].1, ws[n - 1]) by {}
        lemma_word_transforms_frame(prev, ts, ws[n - 1]);
        lemma_count_step(n as int, ts.len() as int);
    }
}

proof fn lemma_layered_entry_decodes(
    layered: Seq<(MacOsKbdLayer, Seq<(Seq<char>, KeyTransitionView)>)>,
    layer: MacOsKbdLayer,
)
    requires
        layered_decodes(layered),
    ensures
        entry_get(layered, layer) matches Some(k) ==> keys_decode(k),
{
    lemma_entry_index_bounds(layered, layer);
    if let Some(i) = entry_index(layered, layer) {
        assert(keys_decode(layered[i].1));
    }
}

/// Whether the texts of every transform decode at every key of every layer
/// with dead keys.
pub open spec fn transforms_decode(
    layers: Seq<(MacOsKbdLayer, String)>,
    ts: Seq<(String, Transform)>,
    target: Seq<(MacOsKbdLayer, Vec<String>)>,
) -> bool {
    forall|i: int, c: int, t: int|
        0 <= i < layers.len() && is_dead_key_layer(target, layers[i].0) && 0 <= c < MACOS_KEY_COUNT && 0
            <= t < ts.len() ==> transform_texts_decode(#[trigger] ts[t].1, #[trigger] words(layers[i].1@)[c])
}

/// What entering the transforms keeps: texts that decode, the layers and dead
/// keys that were there, room in the counters; and, once a layer with dead keys
/// was processed, a dead-key state for every transform with next keys.
proof fn lemma_layers_with_transforms_frame(
    st: TransformState,
    layers: Seq<(MacOsKbdLayer, String)>,
    ts: Seq<(String, Transform)>,
    target: Seq<(MacOsKbdLayer, Vec<String>)>,
)
    requires
        layered_decodes(st.layered),
        dead_keys_decode(st.dead_keys),
        transforms_decode(layers, ts, target),
    ensures
        ({
            let r = layers_with_transforms(st, layers, ts, target);
            &&& layered_decodes(r.layered)
            &&& dead_keys_decode(r.dead_keys)
            &&& st.dead_key_count <= r.dead_key_count <= st.dead_key_count + layers.len() * MACOS_KEY_COUNT * ts.len()
            &&& st.action_count <= r.action_count <= st.action_count + layers.len() * MACOS_KEY_COUNT * ts.len()
            &&& forall|q: MacOsKbdLayer| entry_index(st.layered, q) is Some ==> (#[trigger] entry_index(r.layered, q)) is Some
            &&& forall|q: Seq<char>| entry_index(st.dead_keys, q) is Some ==> (#[trigger] entry_index(r.dead_keys, q)) is Some
            &&& (exists|i: int| 0 <= i < layers.len() && #[trigger] is_dead_key_layer(target, layers[i].0))
                ==> forall|t: int| 0 <= t < ts.len() && (#[trigger] ts[t].1) is More ==> entry_index(r.dead_keys, ts[t].0@) is Some
        }),
    decreases layers.len(),
{
    if layers.len() > 0 {
        let dl = layers.drop_last();
        assert forall|i: int, c: int, t: int|
            0 <= i < dl.len() && is_dead_key_layer(target, dl[i].0) && 0 <= c < MACOS_KEY_COUNT && 0
                <= t < ts.len() implies transform_texts_decode(#[trigger] ts[t].1, #[trigger] words(dl[i].1@)[c]) by {
            assert(dl[i] == layers[i]);
        }
        lemma_layers_with_transforms_frame(st, dl, ts, target);
        let prev = layers_with_transforms(st, dl, ts, target);
        let layer = layers.last().0;
        let r = layers_with_transforms(st, layers, ts, target);
        let i_last = layers.len() - 1;
        if is_dead_key_layer(target, layer) {
            let keys = match entry_get(prev.layered, layer) {
                Some(k) => k,
                None => seq![],
            };
            lemma_layered_entry_decodes(prev.layered, layer);
            let ls0 = LayerTransformState {
                keys,
                dead_keys: prev.dead_keys,
                dead_key_count: prev.dead_key_count,
                action_count: prev.action_count,
            };
            let ws = words(layers.last().1@);
            assert forall|c: int, t: int|
                0 <= c < MACOS_KEY_COUNT && 0 <= t < ts.len() implies transform_texts_decode(
                    #[trigger] ts[t].1,
                    #[trigger] ws[c],
                ) by {
                assert(transform_texts_decode(ts[t].1, words(layers[i_last].1@)[c]));
            }
            lemma_layer_transforms_frame(ls0, ts, ws, MACOS_KEY_COUNT as nat);
            let ls = layer_transforms(ls0, ts, ws, MACOS_KEY_COUNT as nat);
            lemma_insert_layered_decodes(prev.layered, layer, ls.keys);
            assert forall|q: MacOsKbdLayer| entry_index(st.layered, q) is Some implies (#[trigger] entry_index(
                r.layered,
                q,
            )) is Some by {
                lemma_entry_insert(prev.layered, layer, ls.keys, q);
            }
            lemma_count_step(layers.len() as int, MACOS_KEY_COUNT * ts.len());
            assert((layers.len() - 1) * MACOS_KEY_COUNT * ts.len() + MACOS_KEY_COUNT * ts.len()
                == layers.len() * MACOS_KEY_COUNT * ts.len()) by (nonlinear_arith);
            assert(0 <= (layers.len() - 1) * MACOS_KEY_COUNT * ts.len()) by (nonlinear_arith)
                requires layers.len() >= 1;
        } else {
            assert((layers.len() - 1) * MACOS_KEY_COUNT * ts.len() + MACOS_KEY_COUNT * ts.len()
                == layers.len() * MACOS_KEY_COUNT * ts.len()) by (nonlinear_arith);
            assert(0 <= MACOS_KEY_COUNT * ts.len()) by (nonlinear_arith);
            if exists|i: int| 0 <= i < layers.len() && #[trigger] is_dead_key_layer(target, layers[i].0) {
                let i = choose|i: int| 0 <= i < layers.len() && #[trigger] is_dead_key_layer(target, layers[i].0);
                assert(i < dl.len());
                assert(dl[i] == layers[i]);
                assert(is_dead_key_layer(target, dl[i].0));
            }
        }
    }
}


proof fn lemma_layer_dead_key_actions_frame(
    keys: Seq<(Seq<char>, KeyTransitionView)>,
    count: nat,
    layer_dead_keys: Seq<Seq<char>>,
    dead_keys: Seq<(Seq<char>, DeadKeyOutputView)>,
    ws: Seq<Seq<char>>,
    n: nat,
)
    requires
        keys_decode(keys),
    ensures
        ({
            let r = layer_dead_key_actions(keys, count, layer_dead_keys, dead_keys, ws, n);
            &&& keys_decode(r.0)
            &&& count <= r.1 <= count + n
        }),
    decreases n,
{
    if n > 0 {
        lemma_layer_dead_key_actions_frame(keys, count, layer_dead_keys, dead_keys, ws, (n - 1) as nat);
        let prev = layer_dead_key_actions(keys, count, layer_dead_keys, dead_keys, ws, (n - 1) as nat);
        if layer_dead_keys.contains(ws[n - 1]) {
            if let Some(d) = entry_get(dead_keys, ws[n - 1]) {
                let v = KeyTransitionView::Next(
                    crate::macos::DeadKeyNextActionView {
                        id: crate::macos::action_id(prev.1),
                        code: crate::macos::macos_key_code((n - 1) as usize),
                        states: seq![crate::macos::DeadKeyNextView { next: d.id }],
                    },
                );
                lemma_insert_keys_decode(prev.0, ws[n - 1], v);
            }
        }
    }
}

/// What making the dead-key actions keeps: texts that decode, the layers that
/// were there, and at most one more action for each key.
proof fn lemma_layers_with_dead_key_actions_frame(
    layered: Seq<(MacOsKbdLayer, Seq<(Seq<char>, KeyTransitionView)>)>,
    count: nat,
    layers: Seq<(MacOsKbdLayer, String)>,
    target: Seq<(MacOsKbdLayer, Vec<String>)>,
    dead_keys: Seq<(Seq<char>, DeadKeyOutputView)>,
)
    requires
        layered_decodes(layered),
    ensures
        ({
            let r = layers_with_dead_key_actions(layered, count, layers, target, dead_keys);
            &&& layered_decodes(r.0)
            &&& count <= r.1 <= count + layers.len() * MACOS_KEY_COUNT
            &&& forall|q: MacOsKbdLayer| entry_index(layered, q) is Some ==> (#[trigger] entry_index(r.0, q)) is Some
        }),
    decreases layers.len(),
{
    if layers.len() > 0 {
        lemma_layers_with_dead_key_actions_frame(layered, count, layers.drop_last(), target, dead_keys);
        let prev = layers_with_dead_key_actions(layered, count, layers.drop_last(), target, dead_keys);
        let layer = layers.last().0;
        if is_dead_key_layer(target, layer) {
            let keys = match entry_get(prev.0, layer) {
                Some(k) => k,
                None => seq![],
            };
            lemma_layered_entry_decodes(prev.0, layer);
            let ws = words(layers.last().1@);
            let tl = target_layer_dead_keys(target, layer);
            lemma_layer_dead_key_actions_frame(keys, prev.1, tl, dead_keys, ws, MACOS_KEY_COUNT as nat);
            let r = layer_dead_key_actions(keys, prev.1, tl, dead_keys, ws, MACOS_KEY_COUNT as nat);
            lemma_insert_layered_decodes(prev.0, layer, r.0);
            assert forall|q: MacOsKbdLayer| entry_index(layered, q) is Some implies (#[trigger] entry_index(
                entry_insert(prev.0, layer, r.0),
                q,
            )) is Some by {
                lemma_entry_insert(prev.0, layer, r.0, q);
            }
        }
    }
}

/// Whether no two entries name the same layer.
pub open spec fn layers_distinct(layers: Seq<(MacOsKbdLayer, String)>) -> bool {
    forall|i: int, j: int| 0 <= i < j < layers.len() ==> layers[i].0 != layers[j].0
}

/// Whether each of the first `n` keys of a layer types text that decodes.
pub open spec fn layer_words_decode(ws: Seq<Seq<char>>) -> bool {
    forall|c: int| 0 <= c < MACOS_KEY_COUNT ==> escapes_are_scalar(#[trigger] ws[c])
}

proof fn lemma_layer_key_transitions(ws: Seq<Seq<char>>, n: nat)
    requires
        n <= MACOS_KEY_COUNT,
        ws.len() >= n,
        layer_words_decode(ws),
    ensures
        ({
            let keys = layer_key_transitions(ws, n);
            &&& forall|c: int| 0 <= c < n ==> (#[trigger] entry_index(keys, ws[c])) is Some
            &&& forall|j: int| 0 <= j < keys.len() ==> (#[trigger] keys[j].1) is Output
            &&& keys_decode(keys)
        }),
    decreases n,
{
    if n > 0 {
        lemma_layer_key_transitions(ws, (n - 1) as nat);
        let prev = layer_key_transitions(ws, (n - 1) as nat);
        let v = output_transition(crate::macos::macos_key_code((n - 1) as usize), ws[n - 1]);
        let name = crate::macos::position_name(prev, ws[n - 1], (n - 1) as nat);
        lemma_entry_insert_elements(prev, name, v);
        assert(escapes_are_scalar(ws[n - 1]));
        lemma_insert_keys_decode(prev, name, v);
        let keys = layer_key_transitions(ws, n);
        assert(keys == entry_insert(prev, name, v));
        assert forall|c: int| 0 <= c < n implies (#[trigger] entry_index(keys, ws[c])) is Some by {
            lemma_entry_insert(prev, name, v, ws[c]);
            if c == n - 1 && name != ws[n - 1] {
                lemma_entry_insert(prev, name, v, ws[n - 1]);
            }
        }
        assert forall|j: int| 0 <= j < keys.len() implies (#[trigger] keys[j].1) is Output by {
            if keys[j] != (name, v) {
                assert(keys[j] == prev[j]);
            }
        }
    }
}

/// Where the layers are distinct, each layer's map after initialization holds
/// the transitions of its own keys.
proof fn lemma_initialized_lookup(layers: Seq<(MacOsKbdLayer, String)>, i: int)
    requires
        layers_distinct(layers),
        0 <= i < layers.len(),
    ensures
        entry_get(
            initialized_layers(Seq::empty(), layers),
            layers[i].0,
        ) == Some(layer_key_transitions(words(layers[i].1@), MACOS_KEY_COUNT as nat)),
    decreases layers.len(),
{
    let dl = layers.drop_last();
    let v = layer_key_transitions(words(layers.last().1@), MACOS_KEY_COUNT as nat);
    lemma_entry_insert(initialized_layers(Seq::empty(), dl), layers.last().0, v, layers[i].0);
    if i < layers.len() - 1 {
        assert(dl[i] == layers[i]);
        assert forall|a: int, b: int| 0 <= a < b < dl.len() implies dl[a].0 != dl[b].0 by {
            assert(dl[a] == layers[a] && dl[b] == layers[b]);
        }
        lemma_initialized_lookup(dl, i);
    }
}

proof fn lemma_initialized_decodes(layers: Seq<(MacOsKbdLayer, String)>)
    requires
        forall|i: int| 0 <= i < layers.len() ==> words(#[trigger] layers[i].1@).len() >= MACOS_KEY_COUNT
            && layer_words_decode(words(layers[i].1@)),
    ensures
        layered_decodes(initialized_layers(Seq::empty(), layers)),
    decreases layers.len(),
{
    if layers.len() > 0 {
        let dl = layers.drop_last();
        assert forall|i: int| 0 <= i < dl.len() implies words(#[trigger] dl[i].1@).len() >= MACOS_KEY_COUNT
            && layer_words_decode(words(dl[i].1@)) by {
            assert(dl[i] == layers[i]);
        }
        lemma_initialized_decodes(dl);
        let ws = words(layers[layers.len() - 1].1@);
        lemma_layer_key_transitions(ws, MACOS_KEY_COUNT as nat);
        lemma_insert_layered_decodes(
            initialized_layers(Seq::empty(), dl),
            layers.last().0,
            layer_key_transitions(ws, MACOS_KEY_COUNT as nat),
        );
    }
}


/// The macOS generator: it computes one `.keylayout` for each layout that
/// has a macOS target.
pub struct GenerateMacOs;

/// The contents of a `.keylayout` document: the keyboard's name and id, the
/// modifiers that select each key map, the key maps, the actions and the
/// terminators.
pub struct KeyLayout {
    pub name: String,
    pub id: String,
    pub modifiers: Vec<(usize, String)>,
    pub key_maps: Vec<KeyMapElement>,
    pub actions: Vec<ActionElement>,
    pub terminators: Vec<WhenElement>,
}

/// The layered transition map and the dead-key states of a finished layout:
/// the layers' own keys, then, where the layout has transforms and the target
/// has dead keys, the transforms entered and the dead keys made actions.
pub open spec fn finished_maps(
    layers: Seq<(MacOsKbdLayer, String)>,
    transforms: Option<Vec<(String, Transform)>>,
    target_dead_keys: Option<Vec<(MacOsKbdLayer, Vec<String>)>>,
) -> (Seq<(MacOsKbdLayer, Seq<(Seq<char>, KeyTransitionView)>)>, Seq<(Seq<char>, DeadKeyOutputView)>) {
    let init = initialized_layers(Seq::empty(), layers);
    match (transforms, target_dead_keys) {
        (Some(ts), Some(tg)) => {
            let p = layers_with_transforms(
                TransformState { layered: init, dead_keys: Seq::empty(), dead_key_count: 0, action_count: 0 },
                layers,
                ts@,
                tg@,
            );
            let c = layers_with_dead_key_actions(p.layered, p.action_count, layers, tg@, p.dead_keys);
            (c.0, p.dead_keys)
        },
        _ => (init, Seq::empty()),
    }
}

/// The text of the keypad decimal key: the layout's, or `.`.
pub open spec fn decimal_text(decimal: Option<String>) -> Seq<char> {
    match decimal {
        Some(d) => d@,
        None => "."@,
    }
}

/// Whether every key that a layer lists as a dead key is the name of a
/// transform with next keys.
pub open spec fn dead_keys_have_transforms(
    layers: Seq<(MacOsKbdLayer, String)>,
    ts: Seq<(String, Transform)>,
    tg: Seq<(MacOsKbdLayer, Vec<String>)>,
) -> bool {
    forall|i: int, c: int|
        0 <= i < layers.len() && is_dead_key_layer(tg, layers[i].0) && 0 <= c < MACOS_KEY_COUNT
            && target_layer_dead_keys(tg, layers[i].0).contains(#[trigger] words(layers[i].1@)[c])
            ==> exists|t: int| 0 <= t < ts.len() && #[trigger] ts[t].0@ == words(layers[i].1@)[c] && ts[t].1 is More
}

/// Whether a key layout can be computed without failing: the layers are
/// distinct, each has a modifier set and a key for each position whose text
/// decodes, the decimal text decodes, and, where there are transforms and dead
/// keys, every transform applies and has texts that decode at each key, every
/// listed dead key has a transform, and the counters have room.
pub open spec fn key_layout_can_be_generated(
    layers: Seq<(MacOsKbdLayer, String)>,
    transforms: Option<Vec<(String, Transform)>>,
    target_dead_keys: Option<Vec<(MacOsKbdLayer, Vec<String>)>>,
    decimal: Option<String>,
) -> bool {
    &&& layers_distinct(layers)
    &&& forall|i: int| 0 <= i < layers.len() ==> {
        &&& words(#[trigger] layers[i].1@).len() >= MACOS_KEY_COUNT
        &&& layer_words_decode(words(layers[i].1@))
        &&& !(layers[i].0 is CapsAndShift)
    }
    &&& escapes_are_scalar(decimal_text(decimal))
    &&& match (transforms, target_dead_keys) {
        (Some(ts), Some(tg)) => {
            &&& forall|i: int, c: int, t: int|
                0 <= i < layers.len() && is_dead_key_layer(tg@, layers[i].0) && 0 <= c < MACOS_KEY_COUNT
                    && 0 <= t < ts@.len() ==> transform_applies(#[trigger] ts@[t].1, #[trigger] words(layers[i].1@)[c])
            &&& transforms_decode(layers, ts@, tg@)
            &&& dead_keys_have_transforms(layers, ts@, tg@)
            &&& layers.len() * MACOS_KEY_COUNT * ts@.len() + layers.len() * MACOS_KEY_COUNT <= usize::MAX
        },
        _ => true,
    }
}

/// Where the scan of a transform's entries for `word` stops, computed.
fn find_next_key_stop(map: &Vec<(String, Transform)>, word: &str) -> (res: Option<usize>)
    ensures
        match res {
            Some(j) => next_key_stop(map@, word@, 0) == Some(j as int) && j < map.len(),
            None => next_key_stop(map@, word@, 0) is None,
        },
{
    let mut i: usize = 0;
    while i < map.len()
        invariant
            i <= map.len(),
            next_key_stop(map@, word@, 0) == next_key_stop(map@, word@, i as int),
        decreases map.len() - i,
    {
        match &map[i].1 {
            Transform::More(_) => {
                return Some(i);
            },
            Transform::End(_) => {
                if !str_eq(map[i].0.as_str(), " ") && str_eq(map[i].0.as_str(), word) {
                    return Some(i);
                }
            },
        }
        i = i + 1;
    }
    None
}

/// Whether a transform applies at the key `word` and its texts there decode,
/// computed.
fn transform_fits(value: &Transform, word: &str) -> (res: bool)
    ensures
        res == (transform_applies(*value, word@) && transform_texts_decode(*value, word@)),
{
    match value {
        Transform::End(_) => true,
        Transform::More(map) => {
            proof {
                lemma_first_key_index(map@, " "@);
            }
            let n = map.len();
            match find_key(map, " ") {
                None => false,
                Some(e) => match &map[e].1 {
                    Transform::More(_) => false,
                    Transform::End(t) => {
                        assert(has_escape(map@));
                        assert(escape_output(map@) == t@);
                        if !escapes_decode(t.as_str()) {
                            return false;
                        }
                        match find_next_key_stop(map, word) {
                            None => true,
                            Some(j) => match &map[j].1 {
                                Transform::End(t2) => {
                                    assert(map@[j as int].1 == Transform::End(*t2));
                                    escapes_decode(t2.as_str())
                                },
                                Transform::More(_) => false,
                            },
                        }
                    },
                },
            }
        },
    }
}

/// Whether the layers, in order, are each listed once.
fn mac_layers_are_distinct(layers: &Vec<(MacOsKbdLayer, String)>) -> (res: bool)
    ensures
        res == layers_distinct(layers@),
{
    let mut l: usize = 0;
    while l < layers.len()
        invariant
            l <= layers.len(),
            forall|i: int, j: int| 0 <= i < j < l ==> layers@[i].0 != layers@[j].0,
        decreases layers.len() - l,
    {
        let mut i: usize = 0;
        while i < l
            invariant
                i <= l,
                l < layers.len(),
                forall|m: int| 0 <= m < i ==> layers@[m].0 != layers@[l as int].0,
            decreases l - i,
        {
            if layers[i].0 == layers[l].0 {
                return false;
            }
            i = i + 1;
        }
        l = l + 1;
    }
    true
}

/// Whether a layer has a key for each position whose text decodes, and a
/// modifier set.
fn mac_layer_is_complete(layer: &(MacOsKbdLayer, String)) -> (res: bool)
    ensures
        res == (words(layer.1@).len() >= MACOS_KEY_COUNT && layer_words_decode(words(layer.1@))
            && !(layer.0 is CapsAndShift)),
{
    if let MacOsKbdLayer::CapsAndShift = layer.0 {
        return false;
    }
    let keys = split_keys(layer.1.as_str());
    if keys.len() < MACOS_KEY_COUNT {
        return false;
    }
    let mut c: usize = 0;
    while c < MACOS_KEY_COUNT
        invariant
            c <= MACOS_KEY_COUNT,
            keys.len() >= MACOS_KEY_COUNT,
            string_views(keys@) == words(layer.1@),
            forall|k: int| 0 <= k < c ==> escapes_are_scalar(#[trigger] words(layer.1@)[k]),
        decreases MACOS_KEY_COUNT - c,
    {
        assert(keys@[c as int]@ == words(layer.1@)[c as int]);
        if !escapes_decode(keys[c].as_str()) {
            return false;
        }
        c = c + 1;
    }
    true
}

/// Whether a dead-key layer's keys fit every transform and each key the
/// layer lists as dead names a transform with next keys.
fn dead_key_layer_fits(
    layer: &(MacOsKbdLayer, String),
    dead: &Vec<String>,
    ts: &Vec<(String, Transform)>,
) -> (res: bool)
    requires
        words(layer.1@).len() >= MACOS_KEY_COUNT,
    ensures
        res == ((forall|c: int, t: int|
            0 <= c < MACOS_KEY_COUNT && 0 <= t < ts@.len() ==> transform_applies(
                #[trigger] ts@[t].1,
                #[trigger] words(layer.1@)[c],
            ) && transform_texts_decode(ts@[t].1, words(layer.1@)[c])) && (forall|c: int|
            0 <= c < MACOS_KEY_COUNT && string_views(dead@).contains(#[trigger] words(layer.1@)[c])
                ==> exists|t: int| 0 <= t < ts.len() && #[trigger] ts@[t].0@ == words(layer.1@)[c] && ts@[t].1 is More)),
{
    let keys = split_keys(layer.1.as_str());
    let mut c: usize = 0;
    while c < MACOS_KEY_COUNT
        invariant
            c <= MACOS_KEY_COUNT,
            keys.len() >= MACOS_KEY_COUNT,
            string_views(keys@) == words(layer.1@),
            forall|k: int, t: int|
                0 <= k < c && 0 <= t < ts@.len() ==> transform_applies(
                    #[trigger] ts@[t].1,
                    #[trigger] words(layer.1@)[k],
                ) && transform_texts_decode(ts@[t].1, words(layer.1@)[k]),
            forall|k: int|
                0 <= k < c && string_views(dead@).contains(#[trigger] words(layer.1@)[k]) ==> exists|t: int|
                    0 <= t < ts.len() && #[trigger] ts@[t].0@ == words(layer.1@)[k] && ts@[t].1 is More,
        decreases MACOS_KEY_COUNT - c,
    {
        let word = keys[c].as_str();
        assert(word@ == words(layer.1@)[c as int]);
        let mut t: usize = 0;
        while t < ts.len()
            invariant
                c < MACOS_KEY_COUNT,
                t <= ts.len(),
                word@ == words(layer.1@)[c as int],
                forall|u: int|
                    0 <= u < t ==> transform_applies(#[trigger] ts@[u].1, word@) && transform_texts_decode(
                        ts@[u].1,
                        word@,
                    ),
            decreases ts.len() - t,
        {
            if !transform_fits(&ts[t].1, word) {
                return false;
            }
            t = t + 1;
        }
        let mut listed = false;
        let mut d: usize = 0;
        while d < dead.len()
            invariant
                d <= dead.len(),
                listed == exists|e: int| 0 <= e < d && #[trigger] dead@[e]@ == word@,
            decreases dead.len() - d,
        {
            if str_eq(dead[d].as_str(), word) {
                listed = true;
            }
            d = d + 1;
        }
        assert(listed == string_views(dead@).contains(word@)) by {
            if string_views(dead@).contains(word@) {
                let e = choose|e: int| 0 <= e < string_views(dead@).len() && string_views(dead@)[e] == word@;
                assert(dead@[e]@ == word@);
            }
            if listed {
                let e = choose|e: int| 0 <= e < d && #[trigger] dead@[e]@ == word@;
                assert(string_views(dead@)[e] == word@);
            }
        }
        if listed {
            let mut found = false;
            let mut t: usize = 0;
            while t < ts.len()
                invariant
                    t <= ts.len(),
                    found == exists|u: int| 0 <= u < t && #[trigger] ts@[u].0@ == word@ && ts@[u].1 is More,
                decreases ts.len() - t,
            {
                if str_eq(ts[t].0.as_str(), word) {
                    if let Transform::More(_) = &ts[t].1 {
                        found = true;
                    }
                }
                t = t + 1;
            }
            if !found {
                return false;
            }
        }
        c = c + 1;
    }
    true
}

/// Whether a key layout can be computed from these inputs, computed.
pub fn key_layout_is_possible(
    layers: &Vec<(MacOsKbdLayer, String)>,
    transforms: &Option<Vec<(String, Transform)>>,
    target_dead_keys: &Option<Vec<(MacOsKbdLayer, Vec<String>)>>,
    decimal: &Option<String>,
) -> (res: bool)
    ensures
        res == key_layout_can_be_generated(layers@, *transforms, *target_dead_keys, *decimal),
{
    if !mac_layers_are_distinct(layers) {
        return false;
    }
    let mut l: usize = 0;
    while l < layers.len()
        invariant
            l <= layers.len(),
            forall|i: int| 0 <= i < l ==> {
                &&& words(#[trigger] layers@[i].1@).len() >= MACOS_KEY_COUNT
                &&& layer_words_decode(words(layers@[i].1@))
                &&& !(layers@[i].0 is CapsAndShift)
            },
        decreases layers.len() - l,
    {
        if !mac_layer_is_complete(&layers[l]) {
            return false;
        }
        l = l + 1;
    }
    let decimal_ok = match decimal {
        Some(d) => escapes_decode(d.as_str()),
        None => escapes_decode("."),
    };
    if !decimal_ok {
        return false;
    }
    let (ts, tg) = match (transforms, target_dead_keys) {
        (Some(ts), Some(tg)) => (ts, tg),
        _ => {
            return true;
        },
    };
    let room = match layers.len().checked_mul(MACOS_KEY_COUNT) {
        Some(m) => match m.checked_mul(ts.len()) {
            Some(p) => p.checked_add(m).is_some(),
            None => false,
        },
        None => false,
    };
    if !room {
        return false;
    }
    let mut l: usize = 0;
    while l < layers.len()
        invariant
            l <= layers.len(),
            *transforms == Some(*ts),
            *target_dead_keys == Some(*tg),
            forall|i: int| 0 <= i < layers.len() ==> words(#[trigger] layers@[i].1@).len() >= MACOS_KEY_COUNT,
            forall|i: int, c: int, t: int|
                0 <= i < l && is_dead_key_layer(tg@, layers@[i].0) && 0 <= c < MACOS_KEY_COUNT && 0 <= t
                    < ts@.len() ==> transform_applies(#[trigger] ts@[t].1, #[trigger] words(layers@[i].1@)[c])
                    && transform_texts_decode(ts@[t].1, words(layers@[i].1@)[c]),
            forall|i: int, c: int|
                0 <= i < l && is_dead_key_layer(tg@, layers@[i].0) && 0 <= c < MACOS_KEY_COUNT
                    && target_layer_dead_keys(tg@, layers@[i].0).contains(#[trigger] words(layers@[i].1@)[c])
                    ==> exists|t: int| 0 <= t < ts.len() && #[trigger] ts@[t].0@ == words(layers@[i].1@)[c] && ts@[t].1 is More,
        decreases layers.len() - l,
    {
        let n = tg.len();
        proof {
            lemma_first_layer_index(tg@, layers@[l as int].0);
        }
        match find_mac_layer(tg, layers[l].0) {
            Some(g) => {
                assert(words(layers@[l as int].1@).len() >= MACOS_KEY_COUNT);
                if !dead_key_layer_fits(&layers[l], &tg[g].1, ts) {
                    return false;
                }
            },
            None => {},
        }
        l = l + 1;
    }
    true
}

impl GenerateMacOs {
    /// Computes the `.keylayout` of a layout: its name is the language tag
    /// without `-` and `_`, its id comes from that name, key map `i` is selected
    /// by the modifiers of layer `i`; the key maps, actions and terminators are
    /// those of the finished maps.
    pub fn generate_key_layout(
        language_tag: &str,
        layers: &Vec<(MacOsKbdLayer, String)>,
        transforms: &Option<Vec<(String, Transform)>>,
        target_dead_keys: &Option<Vec<(MacOsKbdLayer, Vec<String>)>>,
        decimal: &Option<String>,
    ) -> (res: KeyLayout)
        requires
            key_layout_can_be_generated(layers@, *transforms, *target_dead_keys, *decimal),
        ensures
            res.name@ == without_char(without_char(language_tag@, '-'), '_'),
            res.id@ == "-"@ + crate::text::decimal(keyboard_number(res.name@)),
            res.modifiers@.len() == layers@.len(),
            forall|i: int| 0 <= i < layers@.len() ==> (#[trigger] res.modifiers@[i]).0 == i && res.modifiers@[i].1@
                == layer_modifiers(layers@[i].0),
            key_map_element_views(res.key_maps@) == Seq::new(
                layers@.len(),
                |i: int| layer_key_map(finished_maps(layers@, *transforms, *target_dead_keys).0, layers@, decimal_text(*decimal), i),
            ),
            action_element_views(res.actions@) == all_layer_actions(
                finished_maps(layers@, *transforms, *target_dead_keys).0,
                layers@,
                layers@.len(),
            ),
            when_element_views(res.terminators@) == terminator_whens(
                finished_maps(layers@, *transforms, *target_dead_keys).1,
            ),
    {
        let name = compute_language_name(language_tag);
        let id = compute_keyboard_id(name.as_str());
        let mut modifiers: Vec<(usize, String)> = Vec::new();
        proof {
            assert forall|k: int| 0 <= k < layers@.len() implies !(#[trigger] layers@[k].0 is CapsAndShift) by {
                assert(words(layers@[k].1@).len() >= MACOS_KEY_COUNT);
            }
        }
        let mut i: usize = 0;
        while i < layers.len()
            invariant
                i <= layers.len(),
                forall|k: int| 0 <= k < layers@.len() ==> !(#[trigger] layers@[k].0 is CapsAndShift),
                modifiers.len() == i,
                forall|k: int| 0 <= k < i ==> (#[trigger] modifiers@[k]).0 == k && modifiers@[k].1@
                    == layer_modifiers(layers@[k].0),
            decreases layers.len() - i,
        {
            modifiers.push((i, layer_attributes(&layers[i].0)));
            i = i + 1;
        }
        let mut layered = layers_new();
        proof {
            assert forall|k: int| 0 <= k < layers@.len() implies words(#[trigger] layers@[k].1@).len() >= MACOS_KEY_COUNT by {}
        }
        initialize_key_transition_map(language_tag, layers, &mut layered);
        let ghost init = layer_entries(layered);
        proof {
            lemma_initialized_decodes(layers@);
        }
        let mut dead_keys = dead_keys_new();
        let mut id_manager = TransformIdManager::new();
        match (transforms, target_dead_keys) {
            (Some(ts), Some(tg)) => {
                proof {
                    assert forall|k: int|
                        0 <= k < layers@.len() && #[trigger] is_dead_key_layer(tg@, layers@[k].0) implies {
                            &&& words(layers@[k].1@).len() >= MACOS_KEY_COUNT
                            &&& entry_get(init, layers@[k].0) matches Some(keys) && keys_ready(
                                keys,
                                words(layers@[k].1@).take(MACOS_KEY_COUNT as int),
                            )
                            &&& forall|c: int, t: int|
                                0 <= c < MACOS_KEY_COUNT && 0 <= t < ts@.len() ==> transform_applies(
                                    #[trigger] ts@[t].1,
                                    #[trigger] words(layers@[k].1@)[c],
                                )
                        } by {
                        let ws = words(layers@[k].1@);
                        lemma_initialized_lookup(layers@, k);
                        lemma_layer_key_transitions(ws, MACOS_KEY_COUNT as nat);
                        let keys = layer_key_transitions(ws, MACOS_KEY_COUNT as nat);
                        assert forall|c: int| 0 <= c < ws.take(MACOS_KEY_COUNT as int).len() implies
                            (#[trigger] entry_index(keys, ws.take(MACOS_KEY_COUNT as int)[c])) is Some by {
                            assert(ws.take(MACOS_KEY_COUNT as int)[c] == ws[c]);
                        }
                        assert forall|j: int| 0 <= j < keys.len() implies !(#[trigger] keys[j].1 is Next) by {
                            assert(keys[j].1 is Output);
                        }
                    }
                    assert(0 <= layers@.len() * MACOS_KEY_COUNT * ts@.len()) by (nonlinear_arith);
                }
                process_transforms(layers, ts, tg, &mut dead_keys, &mut layered, &mut id_manager);
                let ghost p = layers_with_transforms(
                    TransformState { layered: init, dead_keys: Seq::empty(), dead_key_count: 0, action_count: 0 },
                    layers@,
                    ts@,
                    tg@,
                );
                proof {
                    assert(dead_keys_decode(Seq::<(Seq<char>, DeadKeyOutputView)>::empty()));
                    lemma_layers_with_transforms_frame(
                        TransformState { layered: init, dead_keys: Seq::empty(), dead_key_count: 0, action_count: 0 },
                        layers@,
                        ts@,
                        tg@,
                    );
                    assert forall|k: int|
                        0 <= k < layers@.len() && #[trigger] is_dead_key_layer(tg@, layers@[k].0) implies {
                            &&& words(layers@[k].1@).len() >= MACOS_KEY_COUNT
                            &&& entry_index(p.layered, layers@[k].0) is Some
                            &&& forall|c: int|
                                0 <= c < MACOS_KEY_COUNT && target_layer_dead_keys(tg@, layers@[k].0).contains(
                                    #[trigger] words(layers@[k].1@)[c],
                                ) ==> entry_index(p.dead_keys, words(layers@[k].1@)[c]) is Some
                        } by {
                        lemma_initialized_lookup(layers@, k);
                        lemma_entry_index_bounds(init, layers@[k].0);
                        assert(entry_index(init, layers@[k].0) is Some);
                        assert forall|c: int|
                            0 <= c < MACOS_KEY_COUNT && target_layer_dead_keys(tg@, layers@[k].0).contains(
                                #[trigger] words(layers@[k].1@)[c],
                            ) implies entry_index(p.dead_keys, words(layers@[k].1@)[c]) is Some by {
                            let t = choose|t: int| 0 <= t < ts@.len() && #[trigger] ts@[t].0@ == words(layers@[k].1@)[c] && ts@[t].1 is More;
                            assert(ts@[t].1 is More);
                        }
                    }
                }
                create_dead_key_actions(layers, &mut layered, tg, &dead_keys, &mut id_manager);
                proof {
                    lemma_layers_with_dead_key_actions_frame(p.layered, p.action_count, layers@, tg@, p.dead_keys);
                }
            },
            _ => {
                proof {
                    assert(dead_keys_decode(dead_key_entries(dead_keys)));
                }
            },
        }
        let ghost fin = finished_maps(layers@, *transforms, *target_dead_keys);
        assert(layer_entries(layered) == fin.0);
        assert(dead_key_entries(dead_keys) == fin.1);
        proof {
            assert forall|k: int| 0 <= k < layers@.len() implies (#[trigger] entry_get(fin.0, layers@[k].0) matches Some(e)
                && forall|j: int| 0 <= j < e.len() ==> transition_decodes(#[trigger] e[j].1)) by {
                lemma_initialized_lookup(layers@, k);
                lemma_entry_index_bounds(init, layers@[k].0);
                lemma_entry_index_bounds(fin.0, layers@[k].0);
                lemma_layered_entry_decodes(fin.0, layers@[k].0);
            }
        }
        let decimal_str: &str = match decimal {
            Some(d) => d.as_str(),
            None => ".",
        };
        let (key_maps, actions) = write_key_transition_map(layers, &layered, decimal_str);
        let terminators = write_terminators(&dead_keys);
        KeyLayout { name, id, modifiers, key_maps, actions, terminators }
    }
}

} // verus!
