//! The macOS `.keylayout` generator: the key transition table of each layer,
//! the dead-key states and the actions that switch between them.

use indexmap::IndexMap;
use crate::iso_keys::{mac_key_code, macos_position_key};
use vstd::prelude::*;

use crate::index_map::{
    dead_key_entries, dead_keys_get, dead_keys_get_index, dead_keys_insert, dead_keys_len, dead_keys_new,
    entry_get, entry_index, entry_insert, lemma_entry_index_bounds, lemma_entry_insert, lemma_entry_insert_twice, layer_entries, layers_get, layers_insert, layers_new,
    transition_entries, transitions_get, transitions_get_index, transitions_insert, transitions_len,
    transitions_new,
};
use crate::layout::{MacOsKbdLayer, Transform, first_key_index, lemma_first_key_index, lemma_first_layer_index, first_layer_index, find_key, find_mac_layer};
use crate::text::{
    decimal, decode_escapes, push_char, str_eq, decode_unicode_escapes, escapes_are_scalar, remove_char, split_keys,
    string_views, u64_to_decimal, u64_to_padded_decimal, without_char, words, zero_pad, is_key_text,
    is_white_space,
};

verus! {

/// A key that types its output directly.
#[derive(Debug, Clone)]
pub struct KeyOutput {
    pub code: usize,
    pub output: String,
}

/// The output of a key in a dead-key state.
#[derive(Debug, Clone)]
pub struct DeadKeyOutput {
    pub id: String,
    pub output: String,
}

/// A key whose output depends on the dead-key state.
#[derive(Debug, Clone)]
pub struct DeadKeyAction {
    pub id: String,
    pub code: usize,
    pub states: Vec<DeadKeyOutput>,
}

/// The state that a dead key switches to.
#[derive(Debug, Clone)]
pub struct DeadKeyNext {
    pub next: String,
}

/// A dead key: an action that switches state.
#[derive(Debug, Clone)]
pub struct DeadKeyNextAction {
    pub id: String,
    pub code: usize,
    pub states: Vec<DeadKeyNext>,
}

/// What pressing a key does.
#[derive(Debug)]
pub enum KeyTransition {
    Output(KeyOutput),
    Action(DeadKeyAction),
    Next(DeadKeyNextAction),
}

/// A key output by value.
pub struct KeyOutputView {
    pub code: usize,
    pub output: Seq<char>,
}

/// A dead-key state output by value.
pub struct DeadKeyOutputView {
    pub id: Seq<char>,
    pub output: Seq<char>,
}

/// A dead-key action by value.
pub struct DeadKeyActionView {
    pub id: Seq<char>,
    pub code: usize,
    pub states: Seq<DeadKeyOutputView>,
}

/// A dead-key state switch by value.
pub struct DeadKeyNextView {
    pub next: Seq<char>,
}

/// A dead key by value.
pub struct DeadKeyNextActionView {
    pub id: Seq<char>,
    pub code: usize,
    pub states: Seq<DeadKeyNextView>,
}

/// A key transition by value.
pub enum KeyTransitionView {
    Output(KeyOutputView),
    Action(DeadKeyActionView),
    Next(DeadKeyNextActionView),
}

impl View for KeyOutput {
    type V = KeyOutputView;

    open spec fn view(&self) -> KeyOutputView {
        KeyOutputView { code: self.code, output: self.output@ }
    }
}

impl View for DeadKeyOutput {
    type V = DeadKeyOutputView;

    open spec fn view(&self) -> DeadKeyOutputView {
        DeadKeyOutputView { id: self.id@, output: self.output@ }
    }
}

/// The views of dead-key state outputs.
pub open spec fn state_views(v: Seq<DeadKeyOutput>) -> Seq<DeadKeyOutputView> {
    v.map_values(|s: DeadKeyOutput| s@)
}

/// The views of dead-key state switches.
pub open spec fn next_views(v: Seq<DeadKeyNext>) -> Seq<DeadKeyNextView> {
    v.map_values(|s: DeadKeyNext| s@)
}

impl View for DeadKeyAction {
    type V = DeadKeyActionView;

    open spec fn view(&self) -> DeadKeyActionView {
        DeadKeyActionView { id: self.id@, code: self.code, states: state_views(self.states@) }
    }
}

impl View for DeadKeyNext {
    type V = DeadKeyNextView;

    open spec fn view(&self) -> DeadKeyNextView {
        DeadKeyNextView { next: self.next@ }
    }
}

impl View for DeadKeyNextAction {
    type V = DeadKeyNextActionView;

    open spec fn view(&self) -> DeadKeyNextActionView {
        DeadKeyNextActionView { id: self.id@, code: self.code, states: next_views(self.states@) }
    }
}

impl View for KeyTransition {
    type V = KeyTransitionView;

    open spec fn view(&self) -> KeyTransitionView {
        match self {
            KeyTransition::Output(o) => KeyTransitionView::Output(o@),
            KeyTransition::Action(a) => KeyTransitionView::Action(a@),
            KeyTransition::Next(n) => KeyTransitionView::Next(n@),
        }
    }
}

fn copy_string(s: &String) -> (res: String)
    ensures
        res@ == s@,
{
    s.clone()
}

fn copy_states(v: &Vec<DeadKeyOutput>) -> (res: Vec<DeadKeyOutput>)
    ensures
        state_views(res@) == state_views(v@),
{
    let mut out: Vec<DeadKeyOutput> = Vec::new();
    let mut i: usize = 0;
    while i < v.len()
        invariant
            i <= v.len(),
            out.len() == i,
            forall|j: int| 0 <= j < i ==> out@[j]@ == v@[j]@,
        decreases v.len() - i,
    {
        let s = DeadKeyOutput { id: copy_string(&v[i].id), output: copy_string(&v[i].output) };
        out.push(s);
        i = i + 1;
    }
    assert(state_views(out@) =~= state_views(v@));
    out
}

/// The identifier of the `n`th dead-key state: `dead_key` and `n` in at least
/// three digits.
pub open spec fn dead_key_id(n: nat) -> Seq<char> {
    "dead_key"@ + zero_pad(decimal(n), 3)
}

/// The identifier of the `n`th action: `action` and `n` in at least three
/// digits.
pub open spec fn action_id(n: nat) -> Seq<char> {
    "action"@ + zero_pad(decimal(n), 3)
}

/// Hands out the identifiers of dead-key states and actions, each counter
/// counting up from zero.
pub struct TransformIdManager {
    pub dead_key_counter: usize,
    pub action_counter: usize,
}

impl TransformIdManager {
    /// A manager whose counters both start at zero.
    pub fn new() -> (res: Self)
        ensures
            res.dead_key_counter == 0,
            res.action_counter == 0,
    {
        TransformIdManager { dead_key_counter: 0, action_counter: 0 }
    }

    /// The next dead-key state identifier.
    pub fn next_dead_key(&mut self) -> (res: String)
        requires
            old(self).dead_key_counter < usize::MAX,
        ensures
            res@ == dead_key_id(old(self).dead_key_counter as nat),
            final(self).dead_key_counter == old(self).dead_key_counter + 1,
            final(self).action_counter == old(self).action_counter,
    {
        let old_counter = self.dead_key_counter;
        self.dead_key_counter = self.dead_key_counter + 1;
        let mut id = "dead_key".to_owned();
        let digits = u64_to_padded_decimal(old_counter as u64, 3);
        id.append(digits.as_str());
        id
    }

    /// The next action identifier.
    pub fn next_action(&mut self) -> (res: String)
        requires
            old(self).action_counter < usize::MAX,
        ensures
            res@ == action_id(old(self).action_counter as nat),
            final(self).action_counter == old(self).action_counter + 1,
            final(self).dead_key_counter == old(self).dead_key_counter,
    {
        let old_counter = self.action_counter;
        self.action_counter = self.action_counter + 1;
        let mut id = "action".to_owned();
        let digits = u64_to_padded_decimal(old_counter as u64, 3);
        id.append(digits.as_str());
        id
    }
}

/// One step of the CRC-CCITT (XModem) checksum over a single bit.
pub open spec fn crc_bit_step(crc: u16) -> u16 {
    if crc & 0x8000 != 0 {
        (crc << 1u16) ^ 0x1021u16
    } else {
        crc << 1u16
    }
}

/// `k` bit steps of the checksum.
pub open spec fn crc_bits(crc: u16, k: nat) -> u16
    decreases k,
{
    if k == 0 {
        crc
    } else {
        crc_bits(crc_bit_step(crc), (k - 1) as nat)
    }
}

/// The checksum after one more byte.
pub open spec fn crc_byte(crc: u16, byte: u8) -> u16 {
    crc_bits(crc ^ ((byte as u16) << 8u16), 8)
}

/// The CRC-CCITT (XModem) checksum of `bytes` from a start value, as Python's
/// `binascii.crc_hqx` computes it.
pub open spec fn crc_hqx(bytes: Seq<u8>, crc: u16) -> u16
    decreases bytes.len(),
{
    if bytes.len() == 0 {
        crc
    } else {
        crc_byte(crc_hqx(bytes.drop_last(), crc), bytes.last())
    }
}

/// Computes the CRC-CCITT (XModem) checksum of `bytes` from the start value
/// `crc`.
pub fn crc_hqx_bytes(bytes: &[u8], crc: u16) -> (res: u16)
    ensures
        res == crc_hqx(bytes@, crc),
{
    let mut value = crc;
    let mut i: usize = 0;
    while i < bytes.len()
        invariant
            i <= bytes.len(),
            value == crc_hqx(bytes@.take(i as int), crc),
        decreases bytes.len() - i,
    {
        let mut c: u16 = value ^ ((bytes[i] as u16) << 8u16);
        let ghost start = c;
        let mut k: u32 = 0;
        while k < 8
            invariant
                k <= 8,
                crc_bits(start, 8) == crc_bits(c, (8 - k) as nat),
            decreases 8 - k,
        {
            if c & 0x8000 != 0 {
                c = (c << 1u16) ^ 0x1021u16;
            } else {
                c = c << 1u16;
            }
            k = k + 1;
        }
        assert(bytes@.take(i + 1).drop_last() =~= bytes@.take(i as int));
        value = c;
        i = i + 1;
    }
    assert(bytes@.take(i as int) =~= bytes@);
    value
}

/// The number in a keyboard's identifier: half the checksum of its name's
/// UTF-8 bytes, at least one and at most 32768.
pub open spec fn keyboard_number(name: Seq<char>) -> nat {
    let half = crc_hqx(vstd::utf8::encode_utf8(name), 0) / 2;
    let low = if half < 1 {
        1nat
    } else {
        half as nat
    };
    if low > 32768 {
        32768
    } else {
        low
    }
}

/// The `id` of a keyboard layout: a minus sign and the number derived from its
/// name.
pub fn compute_keyboard_id(language_name: &str) -> (res: String)
    ensures
        res@ == "-"@ + decimal(keyboard_number(language_name@)),
{
    let crc = crc_hqx_bytes(language_name.as_bytes(), 0) / 2;
    let crc = if crc < 1 {
        1
    } else {
        crc
    };
    let crc = if crc > 32768 {
        32768
    } else {
        crc
    };
    let mut id = "-".to_owned();
    let digits = u64_to_decimal(crc as u64);
    id.append(digits.as_str());
    id
}

/// The name of a keyboard layout: its language tag without `-` and `_`.
pub fn compute_language_name(tag: &str) -> (res: String)
    ensures
        res@ == without_char(without_char(tag@, '-'), '_'),
{
    let without_hyphens = remove_char(tag, '-');
    remove_char(without_hyphens.as_str(), '_')
}

/// The modifier keys that select a layer, in the `keys` attribute of a
/// `modifier` element.
pub open spec fn layer_modifiers(layer: MacOsKbdLayer) -> Seq<char> {
    match layer {
        MacOsKbdLayer::Default => "command?"@,
        MacOsKbdLayer::Shift => "anyShift caps? command?"@,
        MacOsKbdLayer::Caps => "caps"@,
        MacOsKbdLayer::CapsAndShift => Seq::empty(),
        MacOsKbdLayer::Alt => "anyOption command?"@,
        MacOsKbdLayer::AltAndShift => "anyOption anyShift caps? command?"@,
        MacOsKbdLayer::AltAndCaps => "caps anyOption command?"@,
        MacOsKbdLayer::Ctrl => "anyShift? caps? anyOption? anyControl"@,
        MacOsKbdLayer::Cmd => "command"@,
        MacOsKbdLayer::CmdAndShift => "command anyShift"@,
        MacOsKbdLayer::CmdAndAlt => "command anyOption"@,
        MacOsKbdLayer::CmdAndAltAndShift => "command anyOption anyShift"@,
    }
}

/// The modifier keys of a layer. No modifier set is defined for the
/// `caps+shift` layer.
pub fn layer_attributes(layer: &MacOsKbdLayer) -> (res: String)
    requires
        !(*layer is CapsAndShift),
    ensures
        res@ == layer_modifiers(*layer),
{
    match layer {
        MacOsKbdLayer::Default => "command?".to_owned(),
        MacOsKbdLayer::Shift => "anyShift caps? command?".to_owned(),
        MacOsKbdLayer::Caps => "caps".to_owned(),
        MacOsKbdLayer::CapsAndShift => String::new(),
        MacOsKbdLayer::Alt => "anyOption command?".to_owned(),
        MacOsKbdLayer::AltAndShift => "anyOption anyShift caps? command?".to_owned(),
        MacOsKbdLayer::AltAndCaps => "caps anyOption command?".to_owned(),
        MacOsKbdLayer::Ctrl => "anyShift? caps? anyOption? anyControl".to_owned(),
        MacOsKbdLayer::Cmd => "command".to_owned(),
        MacOsKbdLayer::CmdAndShift => "command anyShift".to_owned(),
        MacOsKbdLayer::CmdAndAlt => "command anyOption".to_owned(),
        MacOsKbdLayer::CmdAndAltAndShift => "command anyOption anyShift".to_owned(),
    }
}


/// The number of character keys of a macOS layer, one for each of the 48
/// character positions of the ISO keyboard.
pub const MACOS_KEY_COUNT: usize = 48;

/// The macOS virtual key code of the key at position `i` of a layer, in the
/// order in which a macOS layer lists its keys: the top letter row
/// `D01`..`D12`, the home row `C01`..`C11`, the bottom row `B01`..`B10`, the
/// key `C12` beside the home row, the number row `E00`..`E12`, and last the
/// key `B00` beside the left shift key.
pub open spec fn macos_key_code(i: usize) -> usize {
    match i {
        0 => 12,
        1 => 13,
        2 => 14,
        3 => 15,
        4 => 17,
        5 => 16,
        6 => 32,
        7 => 34,
        8 => 31,
        9 => 35,
        10 => 33,
        11 => 30,
        12 => 0,
        13 => 1,
        14 => 2,
        15 => 3,
        16 => 5,
        17 => 4,
        18 => 38,
        19 => 40,
        20 => 37,
        21 => 41,
        22 => 39,
        23 => 6,
        24 => 7,
        25 => 8,
        26 => 9,
        27 => 11,
        28 => 45,
        29 => 46,
        30 => 43,
        31 => 47,
        32 => 44,
        33 => 42,
        34 => 10,
        35 => 18,
        36 => 19,
        37 => 20,
        38 => 21,
        39 => 23,
        40 => 22,
        41 => 26,
        42 => 28,
        43 => 25,
        44 => 29,
        45 => 27,
        46 => 24,
        47 => 50,
        _ => 0,
    }
}

/// The macOS virtual key code of the key at position `i` of a layer.
pub fn macos_key_code_at(i: usize) -> (res: usize)
    requires
        i < MACOS_KEY_COUNT,
    ensures
        res == macos_key_code(i),
        res == mac_key_code(macos_position_key(i as int)),
{
    proof {
        lemma_macos_key_codes_follow_iso_keys(i as int);
    }
    match i {
        0 => 12,
        1 => 13,
        2 => 14,
        3 => 15,
        4 => 17,
        5 => 16,
        6 => 32,
        7 => 34,
        8 => 31,
        9 => 35,
        10 => 33,
        11 => 30,
        12 => 0,
        13 => 1,
        14 => 2,
        15 => 3,
        16 => 5,
        17 => 4,
        18 => 38,
        19 => 40,
        20 => 37,
        21 => 41,
        22 => 39,
        23 => 6,
        24 => 7,
        25 => 8,
        26 => 9,
        27 => 11,
        28 => 45,
        29 => 46,
        30 => 43,
        31 => 47,
        32 => 44,
        33 => 42,
        34 => 10,
        35 => 18,
        36 => 19,
        37 => 20,
        38 => 21,
        39 => 23,
        40 => 22,
        41 => 26,
        42 => 28,
        43 => 25,
        44 => 29,
        45 => 27,
        46 => 24,
        47 => 50,
        _ => 0,
    }
}

/// Each position of a macOS layer gets the virtual key code of its ISO key:
/// the key that types `q` in a QWERTY layout gets `q`'s code, and so on for
/// all 48 positions.
pub proof fn lemma_macos_key_codes_follow_iso_keys(i: int)
    requires
        0 <= i < MACOS_KEY_COUNT,
    ensures
        macos_key_code(i as usize) == mac_key_code(macos_position_key(i)),
{
}

/// The transition of a key that types its own text.
pub open spec fn output_transition(code: usize, key: Seq<char>) -> KeyTransitionView {
    KeyTransitionView::Output(KeyOutputView { code, output: key })
}

/// The name under which a key whose text an earlier position of its layer
/// already has is kept: one blank for each position up to its own. No key
/// text is blank, so it names no other key.
pub open spec fn blank_key(position: nat) -> Seq<char> {
    Seq::new(position + 1, |j: int| ' ')
}

/// The name of the key at position `n` in the map of the positions before
/// it: its text, or a blank name where that text is taken.
pub open spec fn position_name(prev: Seq<(Seq<char>, KeyTransitionView)>, key: Seq<char>, n: nat) -> Seq<char> {
    if entry_index(prev, key) is Some {
        blank_key(n)
    } else {
        key
    }
}

/// The transition map of one layer after its first `n` keys were entered, each
/// typing its own text at its position's key code. Every position keeps its
/// transition: a key whose text an earlier position already has is kept under
/// a blank name (see `blank_key`).
pub open spec fn layer_key_transitions(keys: Seq<Seq<char>>, n: nat) -> Seq<
    (Seq<char>, KeyTransitionView),
>
    decreases n,
{
    if n == 0 {
        seq![]
    } else {
        let prev = layer_key_transitions(keys, (n - 1) as nat);
        entry_insert(
            prev,
            position_name(prev, keys[n - 1], (n - 1) as nat),
            output_transition(macos_key_code((n - 1) as usize), keys[n - 1]),
        )
    }
}

/// A layer's map keeps one entry for each of its first `n` keys, in order:
/// the entry of position `c` types the key's text at that position's code,
/// under the key's text or, where an earlier position has that text, under
/// the position's blank name.
pub proof fn lemma_every_position_keeps_its_transition(keys: Seq<Seq<char>>, n: nat)
    requires
        n <= keys.len(),
        forall|i: int| 0 <= i < n ==> is_key_text(#[trigger] keys[i]),
    ensures
        layer_key_transitions(keys, n).len() == n,
        forall|c: int|
            0 <= c < n ==> (#[trigger] layer_key_transitions(keys, n)[c]).1 == output_transition(
                macos_key_code(c as usize),
                keys[c],
            ) && (layer_key_transitions(keys, n)[c].0 == keys[c] || layer_key_transitions(keys, n)[c].0
                == blank_key(c as nat)),
    decreases n,
{
    if n > 0 {
        let m = (n - 1) as nat;
        lemma_every_position_keeps_its_transition(keys, m);
        let prev = layer_key_transitions(keys, m);
        let name = position_name(prev, keys[m as int], m);
        lemma_entry_index_bounds(prev, name);
        if let Some(i) = entry_index(prev, name) {
            assert(prev[i].0 == name);
            if entry_index(prev, keys[m as int]) is Some {
                assert(name == blank_key(m));
                if prev[i].0 == keys[i] {
                    assert(is_key_text(keys[i]));
                    assert(keys[i][0] == blank_key(m)[0]);
                    assert(is_white_space(' '));
                } else {
                    assert(prev[i].0 == blank_key(i as nat));
                    assert(blank_key(i as nat).len() != blank_key(m).len());
                }
            }
            assert(false);
        }
        let all = layer_key_transitions(keys, n);
        assert(all == prev.push((name, output_transition(macos_key_code(m as usize), keys[m as int]))));
    }
}

/// The layered map after each layer was given the transitions of its keys.
pub open spec fn initialized_layers(
    layered: Seq<(MacOsKbdLayer, Seq<(Seq<char>, KeyTransitionView)>)>,
    layers: Seq<(MacOsKbdLayer, String)>,
) -> Seq<(MacOsKbdLayer, Seq<(Seq<char>, KeyTransitionView)>)>
    decreases layers.len(),
{
    if layers.len() == 0 {
        layered
    } else {
        entry_insert(
            initialized_layers(layered, layers.drop_last()),
            layers.last().0,
            layer_key_transitions(words(layers.last().1@), MACOS_KEY_COUNT as nat),
        )
    }
}

/// Whether every layer has a key for each position.
pub open spec fn layers_are_complete(layers: Seq<(MacOsKbdLayer, String)>) -> bool {
    forall|i: int| 0 <= i < layers.len() ==> words(#[trigger] layers[i].1@).len() >= MACOS_KEY_COUNT
}

/// The blank name of position `position`.
fn blank_name(position: usize) -> (res: String)
    requires
        position < usize::MAX,
    ensures
        res@ == blank_key(position as nat),
{
    let mut s = String::new();
    let mut i: usize = 0;
    while i <= position
        invariant
            position < usize::MAX,
            i <= position + 1,
            s@ == Seq::new(i as nat, |j: int| ' '),
        decreases position + 1 - i,
    {
        push_char(&mut s, ' ');
        assert(s@ =~= Seq::new((i + 1) as nat, |j: int| ' '));
        i = i + 1;
    }
    assert(s@ =~= blank_key(position as nat));
    s
}

fn layer_transition_map(key_map: &str) -> (res: IndexMap<String, KeyTransition>)
    requires
        words(key_map@).len() >= MACOS_KEY_COUNT,
    ensures
        transition_entries(res) == layer_key_transitions(words(key_map@), MACOS_KEY_COUNT as nat),
{
    let keys = split_keys(key_map);
    let mut map = transitions_new();
    let mut cursor: usize = 0;
    while cursor < MACOS_KEY_COUNT
        invariant
            cursor <= MACOS_KEY_COUNT,
            string_views(keys@) == words(key_map@),
            keys.len() >= MACOS_KEY_COUNT,
            transition_entries(map) == layer_key_transitions(words(key_map@), cursor as nat),
        decreases MACOS_KEY_COUNT - cursor,
    {
        let key = &keys[cursor];
        assert(key@ == words(key_map@)[cursor as int]);
        let transition = KeyTransition::Output(
            KeyOutput { code: macos_key_code_at(cursor), output: copy_string(key) },
        );
        let name = if transitions_get(&map, key.as_str()).is_some() {
            blank_name(cursor)
        } else {
            copy_string(key)
        };
        assert(name@ == position_name(transition_entries(map), key@, cursor as nat));
        transitions_insert(&mut map, name, transition);
        cursor = cursor + 1;
    }
    map
}

/// Gives each layer the transition map of its keys: each key of the layer, at
/// its position's key code, types its own text, one entry for each position
/// (a key whose text an earlier position has is kept under its position's
/// blank name). A layer must have a key for each of the positions.
pub fn initialize_key_transition_map(
    language_tag: &str,
    layers: &Vec<(MacOsKbdLayer, String)>,
    layered_key_transition_map: &mut IndexMap<MacOsKbdLayer, IndexMap<String, KeyTransition>>,
)
    requires
        layers_are_complete(layers@),
    ensures
        layer_entries(*final(layered_key_transition_map)) == initialized_layers(
            layer_entries(*old(layered_key_transition_map)),
            layers@,
        ),
{
    let mut i: usize = 0;
    while i < layers.len()
        invariant
            i <= layers.len(),
            layers_are_complete(layers@),
            layer_entries(*layered_key_transition_map) == initialized_layers(
                layer_entries(*old(layered_key_transition_map)),
                layers@.take(i as int),
            ),
        decreases layers.len() - i,
    {
        assert(words(layers@[i as int].1@).len() >= MACOS_KEY_COUNT);
        let map = layer_transition_map(layers[i].1.as_str());
        layers_insert(layered_key_transition_map, layers[i].0, map);
        assert(layers@.take(i + 1).drop_last() =~= layers@.take(i as int));
        i = i + 1;
    }
    assert(layers@.take(i as int) =~= layers@);
}


/// The state name of a key's own output in a dead-key action.
pub open spec fn none_state() -> Seq<char> {
    "none"@
}

/// Whether `key` has a transition in `keys` that a dead-key output can be
/// added to: an output or an action.
pub open spec fn accepts_transform(keys: Seq<(Seq<char>, KeyTransitionView)>, key: Seq<char>) -> bool {
    entry_get(keys, key) matches Some(t) && !(t is Next)
}

/// The transition map, and the action count, after the key `key` was given the
/// output `transform` in a dead-key state: a key that typed its text becomes
/// the next action, with the state `none` typing that text and then
/// `transform`; an action gains `transform` as its last state.
pub open spec fn key_with_transform(
    keys: Seq<(Seq<char>, KeyTransitionView)>,
    key: Seq<char>,
    transform: DeadKeyOutputView,
    action_count: nat,
) -> (Seq<(Seq<char>, KeyTransitionView)>, nat) {
    match entry_get(keys, key) {
        Some(KeyTransitionView::Output(o)) => (
            entry_insert(
                keys,
                key,
                KeyTransitionView::Action(
                    DeadKeyActionView {
                        id: action_id(action_count),
                        code: o.code,
                        states: seq![DeadKeyOutputView { id: none_state(), output: o.output }, transform],
                    },
                ),
            ),
            action_count + 1,
        ),
        Some(KeyTransitionView::Action(a)) => (
            entry_insert(
                keys,
                key,
                KeyTransitionView::Action(
                    DeadKeyActionView { id: a.id, code: a.code, states: a.states.push(transform) },
                ),
            ),
            action_count,
        ),
        _ => (keys, action_count),
    }
}

/// Adds a dead-key state output to the transition of `key`, which must be an
/// output or an action.
pub fn update_key_transition_map_with_transform(
    key_transition_map: &mut IndexMap<String, KeyTransition>,
    key: &str,
    transform: DeadKeyOutput,
    id_manager: &mut TransformIdManager,
)
    requires
        accepts_transform(transition_entries(*old(key_transition_map)), key@),
        old(id_manager).action_counter < usize::MAX,
    ensures
        (transition_entries(*final(key_transition_map)), final(id_manager).action_counter as nat)
            == key_with_transform(
            transition_entries(*old(key_transition_map)),
            key@,
            transform@,
            old(id_manager).action_counter as nat,
        ),
        final(id_manager).dead_key_counter == old(id_manager).dead_key_counter,
{
    let ghost keys = transition_entries(*key_transition_map);
    let updated = match transitions_get(key_transition_map, key) {
        Some(KeyTransition::Output(output)) => {
            let none = DeadKeyOutput { id: "none".to_owned(), output: copy_string(&output.output) };
            let mut states: Vec<DeadKeyOutput> = Vec::new();
            states.push(none);
            states.push(transform);
            let action = DeadKeyAction { id: id_manager.next_action(), code: output.code, states };
            proof {
                assert(state_views(action.states@) =~= seq![
                    DeadKeyOutputView { id: none_state(), output: output.output@ },
                    transform@,
                ]);
            }
            KeyTransition::Action(action)
        },
        Some(KeyTransition::Action(action)) => {
            let mut states = copy_states(&action.states);
            let ghost before = states@;
            states.push(transform);
            proof {
                assert(state_views(states@) =~= state_views(before).push(transform@));
            }
            KeyTransition::Action(
                DeadKeyAction { id: copy_string(&action.id), code: action.code, states },
            )
        },
        _ => {
            proof {
                assert(false);
            }
            return ;
        },
    };
    transitions_insert(key_transition_map, key.to_owned(), updated);
}


/// The state of one layer while the dead-key transforms are entered into it:
/// its transition map, the dead-key states so far and the two counters.
pub struct LayerTransformState {
    pub keys: Seq<(Seq<char>, KeyTransitionView)>,
    pub dead_keys: Seq<(Seq<char>, DeadKeyOutputView)>,
    pub dead_key_count: nat,
    pub action_count: nat,
}

/// Where the scan of a transform's next keys for the key `word` stops: at the
/// first nested transform, or at the first entry, other than the escape
/// `" "`, for `word` that ends in text.
pub open spec fn next_key_stop(map: Seq<(String, Transform)>, word: Seq<char>, i: int) -> Option<
    int,
>
    decreases map.len() - i,
{
    if i < 0 || i >= map.len() {
        None
    } else {
        match map[i].1 {
            Transform::More(_) => Some(i),
            Transform::End(_) => if map[i].0@ != " "@ && map[i].0@ == word {
                Some(i)
            } else {
                next_key_stop(map, word, i + 1)
            },
        }
    }
}

/// The text that the escape entry `" "` of a transform ends in.
pub open spec fn escape_output(map: Seq<(String, Transform)>) -> Seq<char> {
    match first_key_index(map, " "@) {
        Some(e) => match map[e].1 {
            Transform::End(t) => t@,
            Transform::More(_) => seq![],
        },
        None => seq![],
    }
}

/// Whether a transform with next keys has an escape entry `" "` that ends in
/// text.
pub open spec fn has_escape(map: Seq<(String, Transform)>) -> bool {
    first_key_index(map, " "@) matches Some(e) && map[e].1 is End
}

/// What the dead key `dead_key` with the transform `value` does at the key
/// `word`: a dead key seen for the first time becomes the next dead-key state,
/// typing its escape text; then the first entry for `word` gives `word` the
/// output of that entry in this state.
pub open spec fn dead_key_transform_step(
    s: LayerTransformState,
    dead_key: Seq<char>,
    value: Transform,
    word: Seq<char>,
) -> LayerTransformState {
    match value {
        Transform::End(_) => s,
        Transform::More(map) => {
            let s1 = if entry_index(s.dead_keys, dead_key) is Some {
                s
            } else {
                LayerTransformState {
                    keys: s.keys,
                    dead_keys: entry_insert(
                        s.dead_keys,
                        dead_key,
                        DeadKeyOutputView {
                            id: dead_key_id(s.dead_key_count),
                            output: escape_output(map@),
                        },
                    ),
                    dead_key_count: s.dead_key_count + 1,
                    action_count: s.action_count,
                }
            };
            let id = match entry_get(s1.dead_keys, dead_key) {
                Some(d) => d.id,
                None => seq![],
            };
            match next_key_stop(map@, word, 0) {
                Some(j) => match map@[j].1 {
                    Transform::End(out) => {
                        let r = key_with_transform(
                            s1.keys,
                            map@[j].0@,
                            DeadKeyOutputView { id: id, output: out@ },
                            s1.action_count,
                        );
                        LayerTransformState {
                            keys: r.0,
                            dead_keys: s1.dead_keys,
                            dead_key_count: s1.dead_key_count,
                            action_count: r.1,
                        }
                    },
                    Transform::More(_) => s1,
                },
                None => s1,
            }
        },
    }
}

/// The layer state after each of `transforms`, in order, was applied at the key
/// `word`.
pub open spec fn word_transforms(
    s: LayerTransformState,
    transforms: Seq<(String, Transform)>,
    word: Seq<char>,
) -> LayerTransformState
    decreases transforms.len(),
{
    if transforms.len() == 0 {
        s
    } else {
        dead_key_transform_step(
            word_transforms(s, transforms.drop_last(), word),
            transforms.last().0@,
            transforms.last().1,
            word,
        )
    }
}

/// The layer state after the transforms were applied at each of the first `n`
/// keys.
pub open spec fn layer_transforms(
    s: LayerTransformState,
    transforms: Seq<(String, Transform)>,
    keys: Seq<Seq<char>>,
    n: nat,
) -> LayerTransformState
    decreases n,
{
    if n == 0 {
        s
    } else {
        word_transforms(layer_transforms(s, transforms, keys, (n - 1) as nat), transforms, keys[n - 1])
    }
}

/// Whether `keys` has a transition for each of `words` and no dead key yet.
pub open spec fn keys_ready(keys: Seq<(Seq<char>, KeyTransitionView)>, words: Seq<Seq<char>>) -> bool {
    &&& forall|c: int| 0 <= c < words.len() ==> (#[trigger] entry_index(keys, words[c])) is Some
    &&& forall|j: int| 0 <= j < keys.len() ==> !(#[trigger] keys[j].1 is Next)
}

/// Whether every key of `old_keys` is still in `keys`, and `keys` holds no dead
/// key.
pub open spec fn keys_kept(
    old_keys: Seq<(Seq<char>, KeyTransitionView)>,
    keys: Seq<(Seq<char>, KeyTransitionView)>,
) -> bool {
    &&& forall|q: Seq<char>| (#[trigger] entry_index(old_keys, q)) is Some ==> entry_index(keys, q) is Some
    &&& forall|j: int| 0 <= j < keys.len() ==> !(#[trigger] keys[j].1 is Next)
}

proof fn lemma_key_with_transform_keeps(
    keys: Seq<(Seq<char>, KeyTransitionView)>,
    key: Seq<char>,
    transform: DeadKeyOutputView,
    count: nat,
)
    requires
        forall|j: int| 0 <= j < keys.len() ==> !(#[trigger] keys[j].1 is Next),
    ensures
        keys_kept(keys, key_with_transform(keys, key, transform, count).0),
        key_with_transform(keys, key, transform, count).1 <= count + 1,
{
    let r = key_with_transform(keys, key, transform, count).0;
    lemma_entry_index_bounds(keys, key);
    match entry_get(keys, key) {
        Some(KeyTransitionView::Output(o)) => {
            let v = KeyTransitionView::Action(
                DeadKeyActionView {
                    id: action_id(count),
                    code: o.code,
                    states: seq![DeadKeyOutputView { id: none_state(), output: o.output }, transform],
                },
            );
            assert forall|q: Seq<char>| (#[trigger] entry_index(keys, q)) is Some implies entry_index(
                r,
                q,
            ) is Some by {
                lemma_entry_insert(keys, key, v, q);
            }
        },
        Some(KeyTransitionView::Action(a)) => {
            let v = KeyTransitionView::Action(
                DeadKeyActionView { id: a.id, code: a.code, states: a.states.push(transform) },
            );
            assert forall|q: Seq<char>| (#[trigger] entry_index(keys, q)) is Some implies entry_index(
                r,
                q,
            ) is Some by {
                lemma_entry_insert(keys, key, v, q);
            }
        },
        _ => {},
    }
}


/// The layer state that the maps and the identifier manager hold.
pub open spec fn layer_state(
    keys: IndexMap<String, KeyTransition>,
    dead_keys: IndexMap<String, DeadKeyOutput>,
    id_manager: TransformIdManager,
) -> LayerTransformState {
    LayerTransformState {
        keys: transition_entries(keys),
        dead_keys: dead_key_entries(dead_keys),
        dead_key_count: id_manager.dead_key_counter as nat,
        action_count: id_manager.action_counter as nat,
    }
}

/// Whether the dead key with the transform `value` can be applied at `word`
/// without failing: a transform with next keys has an escape that ends in
/// text, and its scan for `word` does not stop at a nested transform.
pub open spec fn transform_applies(value: Transform, word: Seq<char>) -> bool {
    value matches Transform::More(map) ==> {
        &&& has_escape(map@)
        &&& next_key_stop(map@, word, 0) matches Some(j) ==> map@[j].1 is End
    }
}

proof fn lemma_next_key_stop_step(map: Seq<(String, Transform)>, word: Seq<char>, j: int)
    requires
        0 <= j < map.len(),
        map[j].1 is End,
        !(map[j].0@ != " "@ && map[j].0@ == word),
    ensures
        next_key_stop(map, word, j) == next_key_stop(map, word, j + 1),
{
}

fn apply_dead_key_transform(
    dead_key: &String,
    value: &Transform,
    word: &String,
    key_transition_map: &mut IndexMap<String, KeyTransition>,
    dead_keys: &mut IndexMap<String, DeadKeyOutput>,
    id_manager: &mut TransformIdManager,
)
    requires
        transform_applies(*value, word@),
        accepts_transform(transition_entries(*old(key_transition_map)), word@),
        old(id_manager).dead_key_counter < usize::MAX,
        old(id_manager).action_counter < usize::MAX,
    ensures
        layer_state(*final(key_transition_map), *final(dead_keys), *final(id_manager))
            == dead_key_transform_step(
            layer_state(*old(key_transition_map), *old(dead_keys), *old(id_manager)),
            dead_key@,
            *value,
            word@,
        ),
{
    match value {
        Transform::End(_) => {},
        Transform::More(map) => {
            assert(has_escape(map@));
            assert(*value == Transform::More(*map));
            let ghost s0 = layer_state(*key_transition_map, *dead_keys, *id_manager);
            let e = find_key(map, " ");
            proof {
                lemma_first_key_index(map@, " "@);
            }
            let map_len = map.len();
            let e = e.unwrap();
            let escape = match &map[e].1 {
                Transform::End(text) => text,
                Transform::More(_) => {
                    proof {
                        assert(false);
                    }
                    return ;
                },
            };
            if dead_keys_get(dead_keys, dead_key.as_str()).is_none() {
                let id = id_manager.next_dead_key();
                dead_keys_insert(
                    dead_keys,
                    copy_string(dead_key),
                    DeadKeyOutput { id, output: copy_string(escape) },
                );
            }
            let ghost s1 = layer_state(*key_transition_map, *dead_keys, *id_manager);
            assert(escape@ == escape_output(map@));
            assert(s1 == (if entry_index(s0.dead_keys, dead_key@) is Some {
                s0
            } else {
                LayerTransformState {
                    keys: s0.keys,
                    dead_keys: entry_insert(
                        s0.dead_keys,
                        dead_key@,
                        DeadKeyOutputView {
                            id: dead_key_id(s0.dead_key_count),
                            output: escape_output(map@),
                        },
                    ),
                    dead_key_count: s0.dead_key_count + 1,
                    action_count: s0.action_count,
                }
            }));
            proof {
                lemma_entry_insert(
                    dead_key_entries(*old(dead_keys)),
                    dead_key@,
                    DeadKeyOutputView {
                        id: dead_key_id(old(id_manager).dead_key_counter as nat),
                        output: escape_output(map@),
                    },
                    dead_key@,
                );
            }
            let id = match dead_keys_get(dead_keys, dead_key.as_str()) {
                Some(d) => copy_string(&d.id),
                None => {
                    proof {
                        assert(false);
                    }
                    return ;
                },
            };
            let mut j: usize = 0;
            while j < map.len()
                invariant
                    j <= map.len(),
                    next_key_stop(map@, word@, 0) == next_key_stop(map@, word@, j as int),
                    next_key_stop(map@, word@, 0) matches Some(k) ==> map@[k].1 is End,
                    layer_state(*key_transition_map, *dead_keys, *id_manager) == s1,
                    accepts_transform(s1.keys, word@),
                    id_manager.action_counter < usize::MAX,
                    entry_get(s1.dead_keys, dead_key@) matches Some(d) && d.id == id@,
                    *value == Transform::More(*map),
                    s0 == layer_state(*old(key_transition_map), *old(dead_keys), *old(id_manager)),
                    s1 == (if entry_index(s0.dead_keys, dead_key@) is Some {
                        s0
                    } else {
                        LayerTransformState {
                            keys: s0.keys,
                            dead_keys: entry_insert(
                                s0.dead_keys,
                                dead_key@,
                                DeadKeyOutputView {
                                    id: dead_key_id(s0.dead_key_count),
                                    output: escape_output(map@),
                                },
                            ),
                            dead_key_count: s0.dead_key_count + 1,
                            action_count: s0.action_count,
                        }
                    }),
                decreases map.len() - j,
            {
                match &map[j].1 {
                    Transform::More(_) => {
                        proof {
                            assert(false);
                        }
                        return ;
                    },
                    Transform::End(out) => {
                        if !str_eq(map[j].0.as_str(), " ") && str_eq(map[j].0.as_str(), word.as_str()) {
                            assert(next_key_stop(map@, word@, j as int) == Some(j as int));
                            let transform = DeadKeyOutput { id: copy_string(&id), output: copy_string(out) };
                            assert(map@[j as int].1 == Transform::End(*out));
                            update_key_transition_map_with_transform(
                                key_transition_map,
                                map[j].0.as_str(),
                                transform,
                                id_manager,
                            );
                            proof {
                                let r = key_with_transform(
                                    s1.keys,
                                    map@[j as int].0@,
                                    DeadKeyOutputView { id: id@, output: out@ },
                                    s1.action_count,
                                );
                                assert(transition_entries(*key_transition_map) == r.0);
                                assert(id_manager.action_counter == r.1);
                                assert(next_key_stop(map@, word@, 0) == Some(j as int));
                                assert(dead_key_transform_step(s0, dead_key@, *value, word@)
                                    == LayerTransformState {
                                    keys: r.0,
                                    dead_keys: s1.dead_keys,
                                    dead_key_count: s1.dead_key_count,
                                    action_count: r.1,
                                });
                                assert(layer_state(*key_transition_map, *dead_keys, *id_manager)
                                    == LayerTransformState {
                                    keys: r.0,
                                    dead_keys: s1.dead_keys,
                                    dead_key_count: s1.dead_key_count,
                                    action_count: r.1,
                                });
                            }
                            return ;
                        }
                        proof {
                            lemma_next_key_stop_step(map@, word@, j as int);
                        }
                    },
                }
                j = j + 1;
            }
        },
    }
}


/// The maps and counters while dead-key transforms are entered into a
/// layered key transition map.
pub struct TransformState {
    pub layered: Seq<(MacOsKbdLayer, Seq<(Seq<char>, KeyTransitionView)>)>,
    pub dead_keys: Seq<(Seq<char>, DeadKeyOutputView)>,
    pub dead_key_count: nat,
    pub action_count: nat,
}

/// The state that the maps and the identifier manager hold.
pub open spec fn transform_state(
    layered: IndexMap<MacOsKbdLayer, IndexMap<String, KeyTransition>>,
    dead_keys: IndexMap<String, DeadKeyOutput>,
    id_manager: TransformIdManager,
) -> TransformState {
    TransformState {
        layered: layer_entries(layered),
        dead_keys: dead_key_entries(dead_keys),
        dead_key_count: id_manager.dead_key_counter as nat,
        action_count: id_manager.action_counter as nat,
    }
}

/// Whether the target lists dead keys for `layer`.
pub open spec fn is_dead_key_layer(target_dead_keys: Seq<(MacOsKbdLayer, Vec<String>)>, layer: MacOsKbdLayer) -> bool {
    first_layer_index(target_dead_keys, layer) is Some
}

/// The state after the transforms were entered into each layer that has dead
/// keys, layer by layer and, within a layer, key by key.
pub open spec fn layers_with_transforms(
    st: TransformState,
    layers: Seq<(MacOsKbdLayer, String)>,
    transforms: Seq<(String, Transform)>,
    target_dead_keys: Seq<(MacOsKbdLayer, Vec<String>)>,
) -> TransformState
    decreases layers.len(),
{
    if layers.len() == 0 {
        st
    } else {
        let prev = layers_with_transforms(st, layers.drop_last(), transforms, target_dead_keys);
        let layer = layers.last().0;
        if is_dead_key_layer(target_dead_keys, layer) {
            let keys = match entry_get(prev.layered, layer) {
                Some(k) => k,
                None => seq![],
            };
            let ls = layer_transforms(
                LayerTransformState {
                    keys,
                    dead_keys: prev.dead_keys,
                    dead_key_count: prev.dead_key_count,
                    action_count: prev.action_count,
                },
                transforms,
                words(layers.last().1@),
                MACOS_KEY_COUNT as nat,
            );
            TransformState {
                layered: entry_insert(prev.layered, layer, ls.keys),
                dead_keys: ls.dead_keys,
                dead_key_count: ls.dead_key_count,
                action_count: ls.action_count,
            }
        } else {
            prev
        }
    }
}

/// Whether the transforms can be entered without failing: each layer with dead
/// keys has a key for each position and a prefilled transition map with those
/// keys and no dead key yet, every transform applies at each of its keys, and
/// the counters have room for every action and state.
pub open spec fn transforms_can_be_processed(
    layers: Seq<(MacOsKbdLayer, String)>,
    transforms: Seq<(String, Transform)>,
    target_dead_keys: Seq<(MacOsKbdLayer, Vec<String>)>,
    layered: Seq<(MacOsKbdLayer, Seq<(Seq<char>, KeyTransitionView)>)>,
    dead_key_count: nat,
    action_count: nat,
) -> bool {
    &&& forall|i: int|
        0 <= i < layers.len() && #[trigger] is_dead_key_layer(target_dead_keys, layers[i].0) ==> {
            &&& words(layers[i].1@).len() >= MACOS_KEY_COUNT
            &&& entry_get(layered, layers[i].0) matches Some(keys) && keys_ready(
                keys,
                words(layers[i].1@).take(MACOS_KEY_COUNT as int),
            )
            &&& forall|c: int, t: int|
                0 <= c < MACOS_KEY_COUNT && 0 <= t < transforms.len() ==> transform_applies(
                    #[trigger] transforms[t].1,
                    #[trigger] words(layers[i].1@)[c],
                )
        }
    &&& dead_key_count + layers.len() * MACOS_KEY_COUNT * transforms.len() <= usize::MAX
    &&& action_count + layers.len() * MACOS_KEY_COUNT * transforms.len() <= usize::MAX
}

proof fn lemma_step_keeps(s: LayerTransformState, dead_key: Seq<char>, value: Transform, word: Seq<char>)
    requires
        forall|j: int| 0 <= j < s.keys.len() ==> !(#[trigger] s.keys[j].1 is Next),
    ensures
        keys_kept(s.keys, dead_key_transform_step(s, dead_key, value, word).keys),
        dead_key_transform_step(s, dead_key, value, word).dead_key_count <= s.dead_key_count + 1,
        dead_key_transform_step(s, dead_key, value, word).action_count <= s.action_count + 1,
        dead_key_transform_step(s, dead_key, value, word).dead_key_count >= s.dead_key_count,
        dead_key_transform_step(s, dead_key, value, word).action_count >= s.action_count,
{
    match value {
        Transform::End(_) => {},
        Transform::More(map) => {
            match next_key_stop(map@, word, 0) {
                Some(j) => match map@[j].1 {
                    Transform::End(out) => {
                        assert forall|t: DeadKeyOutputView, n: nat| true implies keys_kept(
                            s.keys,
                            key_with_transform(s.keys, map@[j].0@, t, n).0,
                        ) && key_with_transform(s.keys, map@[j].0@, t, n).1 <= n + 1
                            && key_with_transform(s.keys, map@[j].0@, t, n).1 >= n by {
                            lemma_key_with_transform_keeps(s.keys, map@[j].0@, t, n);
                        }
                    },
                    Transform::More(_) => {},
                },
                None => {},
            }
        },
    }
}

proof fn lemma_kept_trans(
    a: Seq<(Seq<char>, KeyTransitionView)>,
    b: Seq<(Seq<char>, KeyTransitionView)>,
    c: Seq<(Seq<char>, KeyTransitionView)>,
)
    requires
        keys_kept(a, b),
        keys_kept(b, c),
    ensures
        keys_kept(a, c),
{
}

proof fn lemma_kept_ready(
    a: Seq<(Seq<char>, KeyTransitionView)>,
    b: Seq<(Seq<char>, KeyTransitionView)>,
    ws: Seq<Seq<char>>,
)
    requires
        keys_ready(a, ws),
        keys_kept(a, b),
    ensures
        keys_ready(b, ws),
{
    assert forall|c: int| 0 <= c < ws.len() implies (#[trigger] entry_index(b, ws[c])) is Some by {
        assert(entry_index(a, ws[c]) is Some);
    }
}

proof fn lemma_ready_accepts(keys: Seq<(Seq<char>, KeyTransitionView)>, ws: Seq<Seq<char>>, c: int)
    requires
        keys_ready(keys, ws),
        0 <= c < ws.len(),
    ensures
        accepts_transform(keys, ws[c]),
{
    assert(entry_index(keys, ws[c]) is Some);
    lemma_entry_index_bounds(keys, ws[c]);
    let i = entry_index(keys, ws[c])->0;
    assert(!(keys[i].1 is Next));
}

proof fn lemma_budget_step(i: int, c: int, t: int, l: int, n: int)
    by (nonlinear_arith)
    requires
        0 <= i < l,
        0 <= c < 48,
        0 <= t < n,
    ensures
        i * 48 * n + c * n + t + 1 <= l * 48 * n,
        i * 48 * n + c * n + n == i * 48 * n + (c + 1) * n,
        i * 48 * n + 48 * n == (i + 1) * 48 * n,
{
}

proof fn lemma_budget_bounds(i: int, l: int, n: int)
    by (nonlinear_arith)
    requires
        0 <= i <= l,
        0 <= n,
    ensures
        i * 48 * n <= l * 48 * n,
        i * 48 * n + 48 * n == (i + 1) * 48 * n,
        0 <= i * 48 * n,
{
}

/// Enters the dead-key transforms into the transition maps of the layers that
/// have dead keys. For each such layer, each of its keys in order, and each
/// transform in order: a dead key seen for the first time becomes the next
/// dead-key state, typing the transform's escape text; and the first entry of
/// the transform for that key turns its transition into an action with the
/// entry's text in that state.
pub fn process_transforms(
    layers: &Vec<(MacOsKbdLayer, String)>,
    transforms: &Vec<(String, Transform)>,
    target_dead_keys: &Vec<(MacOsKbdLayer, Vec<String>)>,
    dead_keys: &mut IndexMap<String, DeadKeyOutput>,
    layered_key_transition_map: &mut IndexMap<MacOsKbdLayer, IndexMap<String, KeyTransition>>,
    id_manager: &mut TransformIdManager,
)
    requires
        transforms_can_be_processed(
            layers@,
            transforms@,
            target_dead_keys@,
            layer_entries(*old(layered_key_transition_map)),
            old(id_manager).dead_key_counter as nat,
            old(id_manager).action_counter as nat,
        ),
    ensures
        transform_state(*final(layered_key_transition_map), *final(dead_keys), *final(id_manager))
            == layers_with_transforms(
            transform_state(*old(layered_key_transition_map), *old(dead_keys), *old(id_manager)),
            layers@,
            transforms@,
            target_dead_keys@,
        ),
{
    let ghost init = transform_state(*layered_key_transition_map, *dead_keys, *id_manager);
    let ghost n = transforms@.len() as int;
    let ghost l = layers@.len() as int;
    let ghost dk0 = id_manager.dead_key_counter as int;
    let ghost act0 = id_manager.action_counter as int;
    let mut i: usize = 0;
    proof {
        lemma_budget_bounds(0, l, n);
    }
    while i < layers.len()
        invariant
            i <= layers.len(),
            l == layers@.len(),
            n == transforms@.len(),
            transforms_can_be_processed(
                layers@,
                transforms@,
                target_dead_keys@,
                init.layered,
                dk0 as nat,
                act0 as nat,
            ),
            transform_state(*layered_key_transition_map, *dead_keys, *id_manager)
                == layers_with_transforms(init, layers@.take(i as int), transforms@, target_dead_keys@),
            forall|k: int|
                0 <= k < layers.len() && #[trigger] is_dead_key_layer(target_dead_keys@, layers@[k].0)
                    ==> (entry_get(layer_entries(*layered_key_transition_map), layers@[k].0) matches Some(
                    keys,
                ) && keys_ready(keys, words(layers@[k].1@).take(MACOS_KEY_COUNT as int))),
            id_manager.dead_key_counter <= dk0 + i * 48 * n,
            id_manager.action_counter <= act0 + i * 48 * n,
            dk0 + l * 48 * n <= usize::MAX,
            act0 + l * 48 * n <= usize::MAX,
        decreases layers.len() - i,
    {
        let ghost prev = transform_state(*layered_key_transition_map, *dead_keys, *id_manager);
        let layer = layers[i].0;
        proof {
            lemma_budget_bounds(i as int, l, n);
            assert(layers@.take(i + 1).drop_last() =~= layers@.take(i as int));
        }
        if find_mac_layer(target_dead_keys, layer).is_some() {
            assert(is_dead_key_layer(target_dead_keys@, layers@[i as int].0));
            let ghost ws = words(layers@[i as int].1@);
            let previous = layers_insert(layered_key_transition_map, layer, transitions_new());
            let mut keys_map = match previous {
                Some(m) => m,
                None => {
                    proof {
                        assert(false);
                    }
                    return ;
                },
            };
            let ghost keys0 = transition_entries(keys_map);
            let ghost layered_mid = layer_entries(*layered_key_transition_map);
            let ghost ls0 = layer_state(keys_map, *dead_keys, *id_manager);
            let key_words = split_keys(layers[i].1.as_str());
            assert(keys_ready(keys0, ws.take(MACOS_KEY_COUNT as int)));
            let mut c: usize = 0;
            while c < MACOS_KEY_COUNT
                invariant
                    c <= MACOS_KEY_COUNT,
                    i < l,
                    n == transforms@.len(),
                    l == layers@.len(),
                    ws == words(layers@[i as int].1@),
                    ws.len() >= MACOS_KEY_COUNT,
                    string_views(key_words@) == ws,
                    forall|cc: int, t: int|
                        0 <= cc < MACOS_KEY_COUNT && 0 <= t < transforms.len() ==> transform_applies(
                            #[trigger] transforms@[t].1,
                            #[trigger] ws[cc],
                        ),
                    layer_entries(*layered_key_transition_map) == layered_mid,
                    layer_state(keys_map, *dead_keys, *id_manager) == layer_transforms(
                        ls0,
                        transforms@,
                        ws,
                        c as nat,
                    ),
                    keys_ready(keys0, ws.take(MACOS_KEY_COUNT as int)),
                    keys_kept(keys0, transition_entries(keys_map)),
                    id_manager.dead_key_counter <= dk0 + i * 48 * n + c * n,
                    id_manager.action_counter <= act0 + i * 48 * n + c * n,
                    dk0 + l * 48 * n <= usize::MAX,
                    act0 + l * 48 * n <= usize::MAX,
                    0 <= i * 48 * n,
                decreases MACOS_KEY_COUNT - c,
            {
                let mut t: usize = 0;
                let ghost lc = layer_state(keys_map, *dead_keys, *id_manager);
                while t < transforms.len()
                    invariant
                        t <= transforms.len(),
                        c < MACOS_KEY_COUNT,
                        i < l,
                        n == transforms@.len(),
                        ws.len() >= MACOS_KEY_COUNT,
                        string_views(key_words@) == ws,
                        forall|cc: int, tt: int|
                            0 <= cc < MACOS_KEY_COUNT && 0 <= tt < transforms.len()
                                ==> transform_applies(#[trigger] transforms@[tt].1, #[trigger] ws[cc]),
                        layer_entries(*layered_key_transition_map) == layered_mid,
                        layer_state(keys_map, *dead_keys, *id_manager) == word_transforms(
                            lc,
                            transforms@.take(t as int),
                            ws[c as int],
                        ),
                        keys_ready(keys0, ws.take(MACOS_KEY_COUNT as int)),
                        keys_kept(keys0, transition_entries(keys_map)),
                        id_manager.dead_key_counter <= dk0 + i * 48 * n + c * n + t,
                        id_manager.action_counter <= act0 + i * 48 * n + c * n + t,
                        dk0 + l * 48 * n <= usize::MAX,
                        act0 + l * 48 * n <= usize::MAX,
                    decreases transforms.len() - t,
                {
                    let ghost before = layer_state(keys_map, *dead_keys, *id_manager);
                    proof {
                        lemma_budget_step(i as int, c as int, t as int, l, n);
                        lemma_kept_ready(keys0, before.keys, ws.take(MACOS_KEY_COUNT as int));
                        lemma_ready_accepts(before.keys, ws.take(MACOS_KEY_COUNT as int), c as int);
                        assert(key_words@[c as int]@ == ws[c as int]);
                        lemma_step_keeps(before, transforms@[t as int].0@, transforms@[t as int].1, ws[c as int]);
                    }
                    apply_dead_key_transform(
                        &transforms[t].0,
                        &transforms[t].1,
                        &key_words[c],
                        &mut keys_map,
                        dead_keys,
                        id_manager,
                    );
                    proof {
                        lemma_kept_trans(keys0, before.keys, transition_entries(keys_map));
                        assert(transforms@.take(t + 1).drop_last() =~= transforms@.take(t as int));
                    }
                    t = t + 1;
                }
                proof {
                    assert(transforms@.take(t as int) =~= transforms@);
                    lemma_budget_step(i as int, c as int, 0, l, n + 1);
                    assert(i * 48 * n + c * n + n == i * 48 * n + (c + 1) * n) by (nonlinear_arith);
                }
                c = c + 1;
            }
            layers_insert(layered_key_transition_map, layer, keys_map);
            proof {
                lemma_entry_insert_twice(prev.layered, layer, Seq::empty(), transition_entries(keys_map));
                let now = layer_entries(*layered_key_transition_map);
                assert forall|k: int|
                    0 <= k < layers.len() && #[trigger] is_dead_key_layer(target_dead_keys@, layers@[k].0)
                        implies (entry_get(now, layers@[k].0) matches Some(keys) && keys_ready(
                        keys,
                        words(layers@[k].1@).take(MACOS_KEY_COUNT as int),
                    )) by {
                    lemma_entry_insert(prev.layered, layer, transition_entries(keys_map), layers@[k].0);
                    if layers@[k].0 == layer {
                        assert(entry_get(prev.layered, layers@[k].0) == Some(keys0));
                        lemma_kept_ready(
                            keys0,
                            transition_entries(keys_map),
                            words(layers@[k].1@).take(MACOS_KEY_COUNT as int),
                        );
                    }
                }
                assert(i * 48 * n + 48 * n == (i + 1) * 48 * n) by (nonlinear_arith);
            }
        } else {
            proof {
                assert(i * 48 * n + 48 * n == (i + 1) * 48 * n) by (nonlinear_arith);
                assert(0 <= n);
                assert(48 * n >= 0) by (nonlinear_arith) requires n >= 0;
            }
        }
        i = i + 1;
    }
    assert(layers@.take(i as int) =~= layers@);
}


/// The transition map and action count after the key `word` at key code
/// `code` was considered as a dead key: a key that the layer lists as a dead
/// key, and that has a dead-key state, becomes the next action, which switches
/// to that state.
pub open spec fn dead_key_next_step(
    keys: Seq<(Seq<char>, KeyTransitionView)>,
    action_count: nat,
    layer_dead_keys: Seq<Seq<char>>,
    dead_keys: Seq<(Seq<char>, DeadKeyOutputView)>,
    word: Seq<char>,
    code: usize,
) -> (Seq<(Seq<char>, KeyTransitionView)>, nat) {
    if layer_dead_keys.contains(word) {
        match entry_get(dead_keys, word) {
            Some(d) => (
                entry_insert(
                    keys,
                    word,
                    KeyTransitionView::Next(
                        DeadKeyNextActionView {
                            id: action_id(action_count),
                            code,
                            states: seq![DeadKeyNextView { next: d.id }],
                        },
                    ),
                ),
                action_count + 1,
            ),
            None => (keys, action_count),
        }
    } else {
        (keys, action_count)
    }
}

/// The transition map and action count after the first `n` keys of a layer
/// were considered as dead keys.
pub open spec fn layer_dead_key_actions(
    keys: Seq<(Seq<char>, KeyTransitionView)>,
    action_count: nat,
    layer_dead_keys: Seq<Seq<char>>,
    dead_keys: Seq<(Seq<char>, DeadKeyOutputView)>,
    ws: Seq<Seq<char>>,
    n: nat,
) -> (Seq<(Seq<char>, KeyTransitionView)>, nat)
    decreases n,
{
    if n == 0 {
        (keys, action_count)
    } else {
        let prev = layer_dead_key_actions(keys, action_count, layer_dead_keys, dead_keys, ws, (n - 1) as nat);
        dead_key_next_step(prev.0, prev.1, layer_dead_keys, dead_keys, ws[n - 1], macos_key_code((n - 1) as usize))
    }
}

/// The dead keys that the target lists for `layer`.
pub open spec fn target_layer_dead_keys(
    target_dead_keys: Seq<(MacOsKbdLayer, Vec<String>)>,
    layer: MacOsKbdLayer,
) -> Seq<Seq<char>> {
    match first_layer_index(target_dead_keys, layer) {
        Some(t) => string_views(target_dead_keys[t].1@),
        None => seq![],
    }
}

/// The layered map and action count after each layer with dead keys had its
/// dead keys turned into actions.
pub open spec fn layers_with_dead_key_actions(
    layered: Seq<(MacOsKbdLayer, Seq<(Seq<char>, KeyTransitionView)>)>,
    action_count: nat,
    layers: Seq<(MacOsKbdLayer, String)>,
    target_dead_keys: Seq<(MacOsKbdLayer, Vec<String>)>,
    dead_keys: Seq<(Seq<char>, DeadKeyOutputView)>,
) -> (Seq<(MacOsKbdLayer, Seq<(Seq<char>, KeyTransitionView)>)>, nat)
    decreases layers.len(),
{
    if layers.len() == 0 {
        (layered, action_count)
    } else {
        let prev = layers_with_dead_key_actions(
            layered,
            action_count,
            layers.drop_last(),
            target_dead_keys,
            dead_keys,
        );
        let layer = layers.last().0;
        if is_dead_key_layer(target_dead_keys, layer) {
            let keys = match entry_get(prev.0, layer) {
                Some(k) => k,
                None => seq![],
            };
            let r = layer_dead_key_actions(
                keys,
                prev.1,
                target_layer_dead_keys(target_dead_keys, layer),
                dead_keys,
                words(layers.last().1@),
                MACOS_KEY_COUNT as nat,
            );
            (entry_insert(prev.0, layer, r.0), r.1)
        } else {
            prev
        }
    }
}

/// Whether the dead-key actions can be made without failing: each layer with
/// dead keys has a key for each position and a transition map, every key that
/// it lists as a dead key has a dead-key state, and the action counter has
/// room for an action at every key.
pub open spec fn dead_key_actions_can_be_made(
    layers: Seq<(MacOsKbdLayer, String)>,
    layered: Seq<(MacOsKbdLayer, Seq<(Seq<char>, KeyTransitionView)>)>,
    target_dead_keys: Seq<(MacOsKbdLayer, Vec<String>)>,
    dead_keys: Seq<(Seq<char>, DeadKeyOutputView)>,
    action_count: nat,
) -> bool {
    &&& forall|i: int|
        0 <= i < layers.len() && #[trigger] is_dead_key_layer(target_dead_keys, layers[i].0) ==> {
            &&& words(layers[i].1@).len() >= MACOS_KEY_COUNT
            &&& entry_index(layered, layers[i].0) is Some
            &&& forall|c: int|
                0 <= c < MACOS_KEY_COUNT && target_layer_dead_keys(target_dead_keys, layers[i].0).contains(
                    #[trigger] words(layers[i].1@)[c],
                ) ==> entry_index(dead_keys, words(layers[i].1@)[c]) is Some
        }
    &&& action_count + layers.len() * MACOS_KEY_COUNT <= usize::MAX
}

fn contains_string(list: &Vec<String>, word: &String) -> (res: bool)
    ensures
        res == string_views(list@).contains(word@),
{
    let mut i: usize = 0;
    while i < list.len()
        invariant
            i <= list.len(),
            forall|j: int| 0 <= j < i ==> list@[j]@ != word@,
        decreases list.len() - i,
    {
        if list[i] == *word {
            assert(string_views(list@)[i as int] == word@);
            return true;
        }
        i = i + 1;
    }
    proof {
        if string_views(list@).contains(word@) {
            let j = choose|j: int| 0 <= j < string_views(list@).len() && string_views(list@)[j] == word@;
            assert(list@[j]@ == word@);
        }
    }
    false
}

/// Turns the dead keys of each layer that has them into actions that switch to
/// their dead-key state.
pub fn create_dead_key_actions(
    layers: &Vec<(MacOsKbdLayer, String)>,
    layered_key_transition_map: &mut IndexMap<MacOsKbdLayer, IndexMap<String, KeyTransition>>,
    target_dead_keys: &Vec<(MacOsKbdLayer, Vec<String>)>,
    dead_keys: &IndexMap<String, DeadKeyOutput>,
    id_manager: &mut TransformIdManager,
)
    requires
        dead_key_actions_can_be_made(
            layers@,
            layer_entries(*old(layered_key_transition_map)),
            target_dead_keys@,
            dead_key_entries(*dead_keys),
            old(id_manager).action_counter as nat,
        ),
    ensures
        (layer_entries(*final(layered_key_transition_map)), final(id_manager).action_counter as nat)
            == layers_with_dead_key_actions(
            layer_entries(*old(layered_key_transition_map)),
            old(id_manager).action_counter as nat,
            layers@,
            target_dead_keys@,
            dead_key_entries(*dead_keys),
        ),
        final(id_manager).dead_key_counter == old(id_manager).dead_key_counter,
{
    let ghost layered0 = layer_entries(*layered_key_transition_map);
    let ghost act0 = id_manager.action_counter as int;
    let ghost l = layers@.len() as int;
    let ghost dks = dead_key_entries(*dead_keys);
    let mut i: usize = 0;
    while i < layers.len()
        invariant
            i <= layers.len(),
            l == layers@.len(),
            dks == dead_key_entries(*dead_keys),
            dead_key_actions_can_be_made(layers@, layered0, target_dead_keys@, dks, act0 as nat),
            (layer_entries(*layered_key_transition_map), id_manager.action_counter as nat)
                == layers_with_dead_key_actions(
                layered0,
                act0 as nat,
                layers@.take(i as int),
                target_dead_keys@,
                dks,
            ),
            forall|k: int| 0 <= k < layers.len() && #[trigger] is_dead_key_layer(target_dead_keys@, layers@[k].0)
                ==> entry_index(layer_entries(*layered_key_transition_map), layers@[k].0) is Some,
            id_manager.action_counter <= act0 + i * 48,
            id_manager.dead_key_counter == old(id_manager).dead_key_counter,
        decreases layers.len() - i,
    {
        let ghost prev = layer_entries(*layered_key_transition_map);
        let layer = layers[i].0;
        proof {
            assert(layers@.take(i + 1).drop_last() =~= layers@.take(i as int));
        }
        match find_mac_layer(target_dead_keys, layer) {
            Some(t) => {
                assert(is_dead_key_layer(target_dead_keys@, layers@[i as int].0));
                proof {
                    lemma_first_layer_index(target_dead_keys@, layer);
                }
                let target_len = target_dead_keys.len();
                assert(first_layer_index(target_dead_keys@, layer) == Some(t as int));
                let layer_dead_keys = &target_dead_keys[t].1;
                let ghost ws = words(layers@[i as int].1@);
                let previous = layers_insert(layered_key_transition_map, layer, transitions_new());
                let mut keys_map = match previous {
                    Some(m) => m,
                    None => {
                        proof {
                            lemma_entry_index_bounds(prev, layer);
                            assert(false);
                        }
                        return ;
                    },
                };
                let ghost keys0 = transition_entries(keys_map);
                let ghost layered_mid = layer_entries(*layered_key_transition_map);
                let ghost act_layer = id_manager.action_counter as nat;
                let key_words = split_keys(layers[i].1.as_str());
                let mut c: usize = 0;
                while c < MACOS_KEY_COUNT
                    invariant
                        c <= MACOS_KEY_COUNT,
                        i < l,
                        ws == words(layers@[i as int].1@),
                        ws.len() >= MACOS_KEY_COUNT,
                        string_views(key_words@) == ws,
                        string_views(layer_dead_keys@) == target_layer_dead_keys(target_dead_keys@, layer),
                        layer == layers@[i as int].0,
                        dks == dead_key_entries(*dead_keys),
                        forall|cc: int|
                            0 <= cc < MACOS_KEY_COUNT && target_layer_dead_keys(target_dead_keys@, layer).contains(
                                #[trigger] ws[cc],
                            ) ==> entry_index(dks, ws[cc]) is Some,
                        layer_entries(*layered_key_transition_map) == layered_mid,
                        (transition_entries(keys_map), id_manager.action_counter as nat)
                            == layer_dead_key_actions(
                            keys0,
                            act_layer,
                            target_layer_dead_keys(target_dead_keys@, layer),
                            dks,
                            ws,
                            c as nat,
                        ),
                        id_manager.action_counter <= act0 + i * 48 + c,
                        act0 + l * 48 <= usize::MAX,
                        id_manager.dead_key_counter == old(id_manager).dead_key_counter,
                    decreases MACOS_KEY_COUNT - c,
                {
                    let word = &key_words[c];
                    assert(word@ == ws[c as int]);
                    if contains_string(layer_dead_keys, word) {
                        let id = match dead_keys_get(dead_keys, word.as_str()) {
                            Some(d) => copy_string(&d.id),
                            None => {
                                proof {
                                    assert(entry_index(dks, ws[c as int]) is Some);
                                    assert(false);
                                }
                                return ;
                            },
                        };
                        let mut states: Vec<DeadKeyNext> = Vec::new();
                        states.push(DeadKeyNext { next: id });
                        let action = DeadKeyNextAction {
                            id: id_manager.next_action(),
                            code: macos_key_code_at(c),
                            states,
                        };
                        proof {
                            assert(next_views(action.states@) =~= seq![DeadKeyNextView { next: id@ }]);
                        }
                        transitions_insert(&mut keys_map, copy_string(word), KeyTransition::Next(action));
                    }
                    c = c + 1;
                }
                layers_insert(layered_key_transition_map, layer, keys_map);
                proof {
                    lemma_entry_insert_twice(prev, layer, Seq::empty(), transition_entries(keys_map));
                    assert forall|k: int| 0 <= k < layers.len() && #[trigger] is_dead_key_layer(target_dead_keys@, layers@[k].0)
                        implies entry_index(layer_entries(*layered_key_transition_map), layers@[k].0) is Some by {
                        lemma_entry_insert(prev, layer, transition_entries(keys_map), layers@[k].0);
                    }
                    lemma_entry_index_bounds(prev, layer);
                }
            },
            None => {},
        }
        i = i + 1;
    }
    assert(layers@.take(i as int) =~= layers@);
}


/// The number of keys that every layer of a macOS layout maps the same way:
/// the control keys, the function keys and the keypad.
pub const MACOS_HARDCODED_COUNT: usize = 39;

/// The key code of the `i`th fixed key.
pub open spec fn macos_hardcoded_code(i: usize) -> usize {
    match i {
        0 => 36,
        1 => 48,
        2 => 51,
        3 => 53,
        4 => 64,
        5 => 66,
        6 => 70,
        7 => 71,
        8 => 72,
        9 => 76,
        10 => 77,
        11 => 79,
        12 => 80,
        13 => 96,
        14 => 97,
        15 => 98,
        16 => 99,
        17 => 100,
        18 => 101,
        19 => 103,
        20 => 105,
        21 => 106,
        22 => 107,
        23 => 109,
        24 => 111,
        25 => 113,
        26 => 114,
        27 => 115,
        28 => 116,
        29 => 117,
        30 => 118,
        31 => 119,
        32 => 120,
        33 => 121,
        34 => 122,
        35 => 123,
        36 => 124,
        37 => 125,
        38 => 126,
        _ => 0,
    }
}

/// The character that the `i`th fixed key types (the table writes it as the
/// escape `\u{h}` of its code point).
pub open spec fn macos_hardcoded_char(i: usize) -> char {
    match i {
        0 => '\u{d}',
        1 => '\u{9}',
        2 => '\u{8}',
        3 => '\u{1b}',
        4 => '\u{10}',
        5 => '\u{1d}',
        6 => '\u{1c}',
        7 => '\u{1b}',
        8 => '\u{1f}',
        9 => '\u{3}',
        10 => '\u{1e}',
        11 => '\u{10}',
        12 => '\u{10}',
        13 => '\u{10}',
        14 => '\u{10}',
        15 => '\u{10}',
        16 => '\u{10}',
        17 => '\u{10}',
        18 => '\u{10}',
        19 => '\u{10}',
        20 => '\u{10}',
        21 => '\u{10}',
        22 => '\u{10}',
        23 => '\u{10}',
        24 => '\u{10}',
        25 => '\u{10}',
        26 => '\u{5}',
        27 => '\u{1}',
        28 => '\u{b}',
        29 => '\u{7f}',
        30 => '\u{10}',
        31 => '\u{4}',
        32 => '\u{10}',
        33 => '\u{c}',
        34 => '\u{10}',
        35 => '\u{1c}',
        36 => '\u{1d}',
        37 => '\u{1f}',
        38 => '\u{1e}',
        _ => '\u{0}',
    }
}

/// The key code and character of the `i`th fixed key.
pub fn macos_hardcoded_key(i: usize) -> (res: (usize, char))
    requires
        i < MACOS_HARDCODED_COUNT,
    ensures
        res == (macos_hardcoded_code(i), macos_hardcoded_char(i)),
{
    let code = match i {
        0 => 36,
        1 => 48,
        2 => 51,
        3 => 53,
        4 => 64,
        5 => 66,
        6 => 70,
        7 => 71,
        8 => 72,
        9 => 76,
        10 => 77,
        11 => 79,
        12 => 80,
        13 => 96,
        14 => 97,
        15 => 98,
        16 => 99,
        17 => 100,
        18 => 101,
        19 => 103,
        20 => 105,
        21 => 106,
        22 => 107,
        23 => 109,
        24 => 111,
        25 => 113,
        26 => 114,
        27 => 115,
        28 => 116,
        29 => 117,
        30 => 118,
        31 => 119,
        32 => 120,
        33 => 121,
        34 => 122,
        35 => 123,
        36 => 124,
        37 => 125,
        38 => 126,
        _ => 0,
    };
    let c = match i {
        0 => '\u{d}',
        1 => '\u{9}',
        2 => '\u{8}',
        3 => '\u{1b}',
        4 => '\u{10}',
        5 => '\u{1d}',
        6 => '\u{1c}',
        7 => '\u{1b}',
        8 => '\u{1f}',
        9 => '\u{3}',
        10 => '\u{1e}',
        11 => '\u{10}',
        12 => '\u{10}',
        13 => '\u{10}',
        14 => '\u{10}',
        15 => '\u{10}',
        16 => '\u{10}',
        17 => '\u{10}',
        18 => '\u{10}',
        19 => '\u{10}',
        20 => '\u{10}',
        21 => '\u{10}',
        22 => '\u{10}',
        23 => '\u{10}',
        24 => '\u{10}',
        25 => '\u{10}',
        26 => '\u{5}',
        27 => '\u{1}',
        28 => '\u{b}',
        29 => '\u{7f}',
        30 => '\u{10}',
        31 => '\u{4}',
        32 => '\u{10}',
        33 => '\u{c}',
        34 => '\u{10}',
        35 => '\u{1c}',
        36 => '\u{1d}',
        37 => '\u{1f}',
        38 => '\u{1e}',
        _ => '\u{0}',
    };
    (code, c)
}


/// A `key` element of a `keyMap`: the key either types text or runs an
/// action.
#[derive(Debug)]
pub enum KeyElement {
    Output { code: usize, output: String },
    Action { code: usize, action: String },
}

/// A `when` element of an `action` or of the `terminators`: in a state, type
/// text or switch to the next state.
#[derive(Debug)]
pub enum WhenElement {
    Output { state: String, output: String },
    Next { state: String, next: String },
}

/// An `action` element.
#[derive(Debug)]
pub struct ActionElement {
    pub id: String,
    pub whens: Vec<WhenElement>,
}

/// A `keyMap` element.
#[derive(Debug)]
pub struct KeyMapElement {
    pub index: usize,
    pub keys: Vec<KeyElement>,
}

/// A key element by value.
pub enum KeyElementView {
    Output { code: usize, output: Seq<char> },
    Action { code: usize, action: Seq<char> },
}

/// A when element by value.
pub enum WhenElementView {
    Output { state: Seq<char>, output: Seq<char> },
    Next { state: Seq<char>, next: Seq<char> },
}

/// An action element by value.
pub struct ActionElementView {
    pub id: Seq<char>,
    pub whens: Seq<WhenElementView>,
}

/// A key map element by value.
pub struct KeyMapElementView {
    pub index: usize,
    pub keys: Seq<KeyElementView>,
}

impl View for KeyElement {
    type V = KeyElementView;

    open spec fn view(&self) -> KeyElementView {
        match self {
            KeyElement::Output { code, output } => KeyElementView::Output { code: *code, output: output@ },
            KeyElement::Action { code, action } => KeyElementView::Action { code: *code, action: action@ },
        }
    }
}

impl View for WhenElement {
    type V = WhenElementView;

    open spec fn view(&self) -> WhenElementView {
        match self {
            WhenElement::Output { state, output } => WhenElementView::Output {
                state: state@,
                output: output@,
            },
            WhenElement::Next { state, next } => WhenElementView::Next { state: state@, next: next@ },
        }
    }
}

/// The views of key elements.
pub open spec fn key_element_views(v: Seq<KeyElement>) -> Seq<KeyElementView> {
    v.map_values(|k: KeyElement| k@)
}

/// The views of when elements.
pub open spec fn when_element_views(v: Seq<WhenElement>) -> Seq<WhenElementView> {
    v.map_values(|w: WhenElement| w@)
}

impl View for ActionElement {
    type V = ActionElementView;

    open spec fn view(&self) -> ActionElementView {
        ActionElementView { id: self.id@, whens: when_element_views(self.whens@) }
    }
}

impl View for KeyMapElement {
    type V = KeyMapElementView;

    open spec fn view(&self) -> KeyMapElementView {
        KeyMapElementView { index: self.index, keys: key_element_views(self.keys@) }
    }
}

/// The views of action elements.
pub open spec fn action_element_views(v: Seq<ActionElement>) -> Seq<ActionElementView> {
    v.map_values(|a: ActionElement| a@)
}

/// The views of key map elements.
pub open spec fn key_map_element_views(v: Seq<KeyMapElement>) -> Seq<KeyMapElementView> {
    v.map_values(|k: KeyMapElement| k@)
}

/// The key element of a transition: a key that types text types its decoded
/// text; an action or a dead key runs its action.
pub open spec fn key_element(t: KeyTransitionView) -> KeyElementView {
    match t {
        KeyTransitionView::Output(o) => KeyElementView::Output {
            code: o.code,
            output: decode_escapes(o.output),
        },
        KeyTransitionView::Action(a) => KeyElementView::Action { code: a.code, action: a.id },
        KeyTransitionView::Next(n) => KeyElementView::Action { code: n.code, action: n.id },
    }
}

/// The `when` element of a dead-key state output.
pub open spec fn output_when(s: DeadKeyOutputView) -> WhenElementView {
    WhenElementView::Output { state: s.id, output: decode_escapes(s.output) }
}

/// The `when` element of a dead key's state switch.
pub open spec fn next_when(s: DeadKeyNextView) -> WhenElementView {
    WhenElementView::Next { state: none_state(), next: s.next }
}

/// The action elements that a transition adds: none for a key that types
/// text, one for an action or a dead key.
pub open spec fn transition_actions(t: KeyTransitionView) -> Seq<ActionElementView> {
    match t {
        KeyTransitionView::Output(_) => seq![],
        KeyTransitionView::Action(a) => seq![
            ActionElementView { id: a.id, whens: a.states.map_values(|s: DeadKeyOutputView| output_when(s)) },
        ],
        KeyTransitionView::Next(n) => seq![
            ActionElementView { id: n.id, whens: n.states.map_values(|s: DeadKeyNextView| next_when(s)) },
        ],
    }
}

/// The action elements of a layer's transitions, in order.
pub open spec fn layer_actions(entries: Seq<(Seq<char>, KeyTransitionView)>) -> Seq<ActionElementView>
    decreases entries.len(),
{
    if entries.len() == 0 {
        seq![]
    } else {
        layer_actions(entries.drop_last()) + transition_actions(entries.last().1)
    }
}

/// The key elements that every layer ends with: the fixed keys, then the
/// keypad decimal key (code 65) and the space bar (code 49).
pub open spec fn fixed_key_elements(decimal: Seq<char>) -> Seq<KeyElementView> {
    Seq::new(
        MACOS_HARDCODED_COUNT as nat,
        |i: int|
            KeyElementView::Output {
                code: macos_hardcoded_code(i as usize),
                output: seq![macos_hardcoded_char(i as usize)],
            },
    ) + seq![
        KeyElementView::Output { code: 65, output: decode_escapes(decimal) },
        KeyElementView::Output { code: 49, output: " "@ },
    ]
}

/// The transitions of `layer` in the layered map (none if it has no map).
pub open spec fn layer_entry(
    layered: Seq<(MacOsKbdLayer, Seq<(Seq<char>, KeyTransitionView)>)>,
    layer: MacOsKbdLayer,
) -> Seq<(Seq<char>, KeyTransitionView)> {
    match entry_get(layered, layer) {
        Some(e) => e,
        None => seq![],
    }
}

/// The key map of the `i`th layer: the key element of each of its transitions
/// in order, then the fixed keys.
pub open spec fn layer_key_map(
    layered: Seq<(MacOsKbdLayer, Seq<(Seq<char>, KeyTransitionView)>)>,
    layers: Seq<(MacOsKbdLayer, String)>,
    decimal: Seq<char>,
    i: int,
) -> KeyMapElementView {
    KeyMapElementView {
        index: i as usize,
        keys: layer_entry(layered, layers[i].0).map_values(
            |e: (Seq<char>, KeyTransitionView)| key_element(e.1),
        ) + fixed_key_elements(decimal),
    }
}

/// The action elements of the first `n` layers, in order.
pub open spec fn all_layer_actions(
    layered: Seq<(MacOsKbdLayer, Seq<(Seq<char>, KeyTransitionView)>)>,
    layers: Seq<(MacOsKbdLayer, String)>,
    n: nat,
) -> Seq<ActionElementView>
    decreases n,
{
    if n == 0 {
        seq![]
    } else {
        all_layer_actions(layered, layers, (n - 1) as nat) + layer_actions(
            layer_entry(layered, layers[n - 1].0),
        )
    }
}

/// Whether every text of a transition has escapes that write characters.
pub open spec fn transition_decodes(t: KeyTransitionView) -> bool {
    match t {
        KeyTransitionView::Output(o) => escapes_are_scalar(o.output),
        KeyTransitionView::Action(a) => forall|k: int|
            0 <= k < a.states.len() ==> escapes_are_scalar(#[trigger] a.states[k].output),
        KeyTransitionView::Next(_) => true,
    }
}

/// Whether every layer has a transition map whose texts all decode.
pub open spec fn layers_can_be_written(
    layered: Seq<(MacOsKbdLayer, Seq<(Seq<char>, KeyTransitionView)>)>,
    layers: Seq<(MacOsKbdLayer, String)>,
) -> bool {
    forall|i: int|
        0 <= i < layers.len() ==> (#[trigger] entry_get(layered, layers[i].0) matches Some(e) && forall|j: int|
            0 <= j < e.len() ==> transition_decodes(#[trigger] e[j].1))
}

fn char_string(c: char) -> (res: String)
    ensures
        res@ == seq![c],
{
    let mut s = String::new();
    push_char(&mut s, c);
    s
}

fn transition_elements(t: &KeyTransition, actions: &mut Vec<ActionElement>) -> (res: KeyElement)
    requires
        transition_decodes(t@),
    ensures
        res@ == key_element(t@),
        action_element_views(final(actions)@) == action_element_views(old(actions)@) + transition_actions(t@),
{
    let ghost before = actions@;
    match t {
        KeyTransition::Output(o) => {
            assert(action_element_views(actions@) + Seq::<ActionElementView>::empty() =~= action_element_views(actions@));
            KeyElement::Output { code: o.code, output: decode_unicode_escapes(o.output.as_str()) }
        },
        KeyTransition::Action(a) => {
            assert forall|m: int| 0 <= m < a.states.len() implies escapes_are_scalar(
                #[trigger] a.states@[m].output@,
            ) by {
                assert(a@.states[m] == a.states@[m]@);
                assert(escapes_are_scalar(a@.states[m].output));
            }
            let mut whens: Vec<WhenElement> = Vec::new();
            let mut k: usize = 0;
            while k < a.states.len()
                invariant
                    k <= a.states.len(),
                    forall|m: int| 0 <= m < a.states.len() ==> escapes_are_scalar(
                        #[trigger] a.states@[m].output@,
                    ),
                    whens.len() == k,
                    forall|m: int| 0 <= m < k ==> #[trigger] whens@[m]@ == output_when(a.states@[m]@),
                decreases a.states.len() - k,
            {
                assert(escapes_are_scalar(a.states@[k as int].output@));
                let w = WhenElement::Output {
                    state: copy_string(&a.states[k].id),
                    output: decode_unicode_escapes(a.states[k].output.as_str()),
                };
                whens.push(w);
                k = k + 1;
            }
            let element = ActionElement { id: copy_string(&a.id), whens };
            assert(element@ == ActionElementView {
                id: a@.id,
                whens: a@.states.map_values(|s: DeadKeyOutputView| output_when(s)),
            }) by {
                assert(when_element_views(whens@) =~= a@.states.map_values(
                    |s: DeadKeyOutputView| output_when(s),
                ));
            }
            actions.push(element);
            assert(action_element_views(actions@) =~= action_element_views(before) + transition_actions(t@));
            KeyElement::Action { code: a.code, action: copy_string(&a.id) }
        },
        KeyTransition::Next(n) => {
            let mut whens: Vec<WhenElement> = Vec::new();
            let mut k: usize = 0;
            while k < n.states.len()
                invariant
                    k <= n.states.len(),
                    whens.len() == k,
                    forall|m: int| 0 <= m < k ==> #[trigger] whens@[m]@ == next_when(n.states@[m]@),
                decreases n.states.len() - k,
            {
                let w = WhenElement::Next { state: "none".to_owned(), next: copy_string(&n.states[k].next) };
                whens.push(w);
                k = k + 1;
            }
            let element = ActionElement { id: copy_string(&n.id), whens };
            assert(element@ == ActionElementView {
                id: n@.id,
                whens: n@.states.map_values(|s: DeadKeyNextView| next_when(s)),
            }) by {
                assert(when_element_views(whens@) =~= n@.states.map_values(
                    |s: DeadKeyNextView| next_when(s),
                ));
            }
            actions.push(element);
            assert(action_element_views(actions@) =~= action_element_views(before) + transition_actions(t@));
            KeyElement::Action { code: n.code, action: copy_string(&n.id) }
        },
    }
}

/// The key maps of the layers, in order, and the actions that their keys run:
/// each layer's transitions in order, then the fixed keys, the keypad decimal
/// key with `decimal` and the space bar.
pub fn write_key_transition_map(
    layers: &Vec<(MacOsKbdLayer, String)>,
    layered_key_transition_map: &IndexMap<MacOsKbdLayer, IndexMap<String, KeyTransition>>,
    decimal: &str,
) -> (res: (Vec<KeyMapElement>, Vec<ActionElement>))
    requires
        layers_can_be_written(layer_entries(*layered_key_transition_map), layers@),
        escapes_are_scalar(decimal@),
    ensures
        key_map_element_views(res.0@) == Seq::new(
            layers@.len(),
            |i: int| layer_key_map(layer_entries(*layered_key_transition_map), layers@, decimal@, i),
        ),
        action_element_views(res.1@) == all_layer_actions(
            layer_entries(*layered_key_transition_map),
            layers@,
            layers@.len(),
        ),
{
    let ghost layered = layer_entries(*layered_key_transition_map);
    let mut key_maps: Vec<KeyMapElement> = Vec::new();
    let mut actions: Vec<ActionElement> = Vec::new();
    let mut i: usize = 0;
    while i < layers.len()
        invariant
            i <= layers.len(),
            layered == layer_entries(*layered_key_transition_map),
            layers_can_be_written(layered, layers@),
            escapes_are_scalar(decimal@),
            key_maps.len() == i,
            forall|m: int| 0 <= m < i ==> #[trigger] key_maps@[m]@ == layer_key_map(layered, layers@, decimal@, m),
            action_element_views(actions@) == all_layer_actions(layered, layers@, i as nat),
        decreases layers.len() - i,
    {
        let map = match layers_get(layered_key_transition_map, layers[i].0) {
            Some(m) => m,
            None => {
                proof {
                    assert(entry_get(layered, layers@[i as int].0) is Some);
                }
                return (key_maps, actions);
            },
        };
        let ghost entries = transition_entries(*map);
        assert(entries == layer_entry(layered, layers@[i as int].0));
        let ghost actions_before = action_element_views(actions@);
        let mut keys: Vec<KeyElement> = Vec::new();
        let count = transitions_len(map);
        let mut j: usize = 0;
        while j < count
            invariant
                j <= count,
                count == entries.len(),
                entries == transition_entries(*map),
                forall|k: int| 0 <= k < entries.len() ==> transition_decodes(#[trigger] entries[k].1),
                keys.len() == j,
                forall|k: int| 0 <= k < j ==> #[trigger] keys@[k]@ == key_element(entries[k].1),
                action_element_views(actions@) == actions_before + layer_actions(entries.take(j as int)),
            decreases count - j,
        {
            let (_key, transition) = transitions_get_index(map, j);
            let element = transition_elements(transition, &mut actions);
            keys.push(element);
            proof {
                assert(entries.take(j + 1).drop_last() =~= entries.take(j as int));
                assert(action_element_views(actions@) =~= actions_before + layer_actions(entries.take(j + 1)));
            }
            j = j + 1;
        }
        assert(entries.take(j as int) =~= entries);
        let ghost transition_keys = keys@;
        let mut h: usize = 0;
        while h < MACOS_HARDCODED_COUNT
            invariant
                h <= MACOS_HARDCODED_COUNT,
                keys.len() == count + h,
                forall|k: int| 0 <= k < count ==> #[trigger] keys@[k] == transition_keys[k],
                forall|k: int| 0 <= k < h ==> #[trigger] keys@[count + k]@ == (KeyElementView::Output {
                    code: macos_hardcoded_code(k as usize),
                    output: seq![macos_hardcoded_char(k as usize)],
                }),
            decreases MACOS_HARDCODED_COUNT - h,
        {
            let (code, c) = macos_hardcoded_key(h);
            keys.push(KeyElement::Output { code, output: char_string(c) });
            h = h + 1;
        }
        keys.push(KeyElement::Output { code: 65, output: decode_unicode_escapes(decimal) });
        keys.push(KeyElement::Output { code: 49, output: " ".to_owned() });
        let element = KeyMapElement { index: i, keys };
        proof {
            let expected = entries.map_values(
                |e: (Seq<char>, KeyTransitionView)| key_element(e.1),
            ) + fixed_key_elements(decimal@);
            let got = key_element_views(element.keys@);
            assert(got.len() == expected.len());
            assert forall|k: int| 0 <= k < got.len() implies got[k] == expected[k] by {
                if k < count {
                    assert(element.keys@[k] == transition_keys[k]);
                } else if k < count + MACOS_HARDCODED_COUNT {
                    assert(element.keys@[count + (k - count)]@ == (KeyElementView::Output {
                        code: macos_hardcoded_code((k - count) as usize),
                        output: seq![macos_hardcoded_char((k - count) as usize)],
                    }));
                }
            }
            assert(got =~= expected);
        }
        key_maps.push(element);
        i = i + 1;
    }
    assert(key_map_element_views(key_maps@) =~= Seq::new(
        layers@.len(),
        |i: int| layer_key_map(layered, layers@, decimal@, i),
    ));
    (key_maps, actions)
}

/// The `terminators` of the layout: for each dead-key state in order, the
/// text that its escape types.
pub open spec fn terminator_whens(dead_keys: Seq<(Seq<char>, DeadKeyOutputView)>) -> Seq<WhenElementView> {
    dead_keys.map_values(|e: (Seq<char>, DeadKeyOutputView)| output_when(e.1))
}

/// The `terminators` of the layout, one `when` for each dead-key state.
pub fn write_terminators(dead_keys: &IndexMap<String, DeadKeyOutput>) -> (res: Vec<WhenElement>)
    requires
        forall|j: int| 0 <= j < dead_key_entries(*dead_keys).len() ==> escapes_are_scalar(
            #[trigger] dead_key_entries(*dead_keys)[j].1.output,
        ),
    ensures
        when_element_views(res@) == terminator_whens(dead_key_entries(*dead_keys)),
{
    let ghost entries = dead_key_entries(*dead_keys);
    let mut whens: Vec<WhenElement> = Vec::new();
    let count = dead_keys_len(dead_keys);
    let mut j: usize = 0;
    while j < count
        invariant
            j <= count,
            count == entries.len(),
            entries == dead_key_entries(*dead_keys),
            forall|k: int| 0 <= k < entries.len() ==> escapes_are_scalar(#[trigger] entries[k].1.output),
            whens.len() == j,
            forall|k: int| 0 <= k < j ==> #[trigger] whens@[k]@ == output_when(entries[k].1),
        decreases count - j,
    {
        let (_key, state) = dead_keys_get_index(dead_keys, j);
        assert(escapes_are_scalar(entries[j as int].1.output));
        whens.push(WhenElement::Output {
            state: copy_string(&state.id),
            output: decode_unicode_escapes(state.output.as_str()),
        });
        j = j + 1;
    }
    assert(when_element_views(whens@) =~= terminator_whens(entries));
    whens
}


/// Adding a dead-key state output counts at most one more action.
pub proof fn lemma_key_with_transform_counts(
    keys: Seq<(Seq<char>, KeyTransitionView)>,
    key: Seq<char>,
    transform: DeadKeyOutputView,
    count: nat,
)
    ensures
        count <= key_with_transform(keys, key, transform, count).1 <= count + 1,
{
}

} // verus!

verus! {

/// The identifiers that a `TransformIdManager` hands out never repeat: dead-key
/// states of different numbers have different names, as do actions; no
/// dead-key state is named like an action; and none is named like the `none`
/// state.
pub proof fn lemma_transform_ids_distinct(a: nat, b: nat)
    ensures
        a != b ==> dead_key_id(a) != dead_key_id(b),
        a != b ==> action_id(a) != action_id(b),
        dead_key_id(a) != action_id(b),
        dead_key_id(a) != none_state(),
        action_id(a) != none_state(),
{
    reveal_strlit("dead_key");
    reveal_strlit("action");
    reveal_strlit("none");
    crate::text::lemma_zero_pad_injective(a, b, 3);
    if dead_key_id(a) == dead_key_id(b) {
        assert(dead_key_id(a).skip(8) =~= zero_pad(decimal(a), 3));
        assert(dead_key_id(b).skip(8) =~= zero_pad(decimal(b), 3));
    }
    if action_id(a) == action_id(b) {
        assert(action_id(a).skip(6) =~= zero_pad(decimal(a), 3));
        assert(action_id(b).skip(6) =~= zero_pad(decimal(b), 3));
    }
    assert(dead_key_id(a)[0] == 'd');
    assert(action_id(b)[0] == 'a');
    assert(none_state()[0] == 'n');
}

} // verus!

verus! {

/// A keyboard's identifier is a minus sign and the digits of a number from 1
/// to 32768, so it reads back as a 32-bit integer.
pub proof fn lemma_keyboard_id_is_number(name: Seq<char>)
    ensures
        1 <= keyboard_number(name) <= 32768,
        crate::text::decimal_value(decimal(keyboard_number(name))) == keyboard_number(name),
        forall|i: int|
            0 <= i < decimal(keyboard_number(name)).len() ==> '0' <= #[trigger] decimal(keyboard_number(name))[i]
                && decimal(keyboard_number(name))[i] <= '9',
{
    crate::text::lemma_decimal_value(keyboard_number(name));
    crate::text::lemma_decimal_digits(keyboard_number(name));
}

} // verus!
