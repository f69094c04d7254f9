//! The keys that one position of a Windows keyboard types in each layer, and
//! the caps mode that follows from them.

use vstd::prelude::*;

use crate::klc::{is_klc_representable, klc_representable, validate_for_klc};
use crate::layout::{WindowsKbdLayer, first_layer_index, find_windows_layer, lemma_first_layer_index};
use crate::text::{
    decimal, decode_escapes, decode_unicode_escapes, encode_utf16, escapes_are_scalar, escapes_decode, str_eq,
    string_views, u64_to_decimal, utf16_units,
};

verus! {

/// The caps mode of a key whose caps layer types something of its own.
pub const SG_CAP: &'static str = "SGCap";

/// What a key types in one layer, and whether it is a dead key there.
#[derive(Debug)]
pub struct WindowsLayerSetKey {
    pub string: String,
    pub dead_key: bool,
}

/// What one key types in each layer.
#[derive(Debug)]
pub struct WindowsLayerSet {
    pub default: Option<WindowsLayerSetKey>,
    pub shift: Option<WindowsLayerSetKey>,
    pub caps: Option<WindowsLayerSetKey>,
    pub caps_and_shift: Option<WindowsLayerSetKey>,
    pub alt: Option<WindowsLayerSetKey>,
    pub alt_and_shift: Option<WindowsLayerSetKey>,
    pub alt_and_caps: Option<WindowsLayerSetKey>,
    pub ctrl: Option<WindowsLayerSetKey>,
}

/// A layer's key by value: its text and whether it is a dead key.
pub open spec fn key_view(k: Option<WindowsLayerSetKey>) -> Option<(Seq<char>, bool)> {
    match k {
        Some(k) => Some((k.string@, k.dead_key)),
        None => None,
    }
}

/// The keys of a layer set by value.
pub struct WindowsLayerSetView {
    pub default: Option<(Seq<char>, bool)>,
    pub shift: Option<(Seq<char>, bool)>,
    pub caps: Option<(Seq<char>, bool)>,
    pub caps_and_shift: Option<(Seq<char>, bool)>,
    pub alt: Option<(Seq<char>, bool)>,
    pub alt_and_shift: Option<(Seq<char>, bool)>,
    pub alt_and_caps: Option<(Seq<char>, bool)>,
    pub ctrl: Option<(Seq<char>, bool)>,
}

impl View for WindowsLayerSet {
    type V = WindowsLayerSetView;

    open spec fn view(&self) -> WindowsLayerSetView {
        WindowsLayerSetView {
            default: key_view(self.default),
            shift: key_view(self.shift),
            caps: key_view(self.caps),
            caps_and_shift: key_view(self.caps_and_shift),
            alt: key_view(self.alt),
            alt_and_shift: key_view(self.alt_and_shift),
            alt_and_caps: key_view(self.alt_and_caps),
            ctrl: key_view(self.ctrl),
        }
    }
}

/// A layer set with no key in any layer.
pub open spec fn empty_layer_set() -> WindowsLayerSetView {
    WindowsLayerSetView {
        default: None,
        shift: None,
        caps: None,
        caps_and_shift: None,
        alt: None,
        alt_and_shift: None,
        alt_and_caps: None,
        ctrl: None,
    }
}

impl Default for WindowsLayerSet {
    fn default() -> (res: Self)
        ensures
            res@ == empty_layer_set(),
    {
        WindowsLayerSet {
            default: None,
            shift: None,
            caps: None,
            caps_and_shift: None,
            alt: None,
            alt_and_shift: None,
            alt_and_caps: None,
            ctrl: None,
        }
    }
}

/// The caps mode of a key: `SGCap` when its caps layer types something other
/// than its default and shift layers; otherwise one if shift and caps (or,
/// without a caps layer, default and shift) differ in the expected way, plus
/// four if the alt layers do.
pub open spec fn caps_mode_text(s: WindowsLayerSetView) -> Seq<char> {
    if s.caps is Some && s.default != s.caps && s.shift != s.caps {
        "SGCap"@
    } else if s.caps is None {
        decimal(
            ((if s.default != s.shift {
                1nat
            } else {
                0nat
            }) + (if s.alt != s.alt_and_shift {
                4nat
            } else {
                0nat
            })) as nat,
        )
    } else {
        decimal(
            ((if s.caps == s.shift {
                1nat
            } else {
                0nat
            }) + (if s.alt_and_caps == s.alt_and_shift {
                4nat
            } else {
                0nat
            })) as nat,
        )
    }
}

/// Compares two layers' keys by text and dead-key flag.
pub fn layer_keys_equal(a: &Option<WindowsLayerSetKey>, b: &Option<WindowsLayerSetKey>) -> (res: bool)
    ensures
        res == (key_view(*a) == key_view(*b)),
{
    match (a, b) {
        (Some(x), Some(y)) => x.string == y.string && x.dead_key == y.dead_key,
        (None, None) => true,
        _ => false,
    }
}

impl WindowsLayerSet {
    /// The caps mode of the key.
    pub fn caps_mode(&self) -> (res: String)
        ensures
            res@ == caps_mode_text(self@),
    {
        if self.caps.is_some() && !layer_keys_equal(&self.default, &self.caps) && !layer_keys_equal(
            &self.shift,
            &self.caps,
        ) {
            SG_CAP.to_owned()
        } else if self.caps.is_none() {
            let mut caps: u64 = 0;
            if !layer_keys_equal(&self.default, &self.shift) {
                caps = caps + 1;
            }
            if !layer_keys_equal(&self.alt, &self.alt_and_shift) {
                caps = caps + 4;
            }
            u64_to_decimal(caps)
        } else {
            let mut caps: u64 = 0;
            if layer_keys_equal(&self.caps, &self.shift) {
                caps = caps + 1;
            }
            if layer_keys_equal(&self.alt_and_caps, &self.alt_and_shift) {
                caps = caps + 4;
            }
            u64_to_decimal(caps)
        }
    }
}

/// The escape that stands for no key at all.
pub open spec fn null_key() -> Seq<char> {
    "\\u{0}"@
}

/// Whether the layer's dead keys, as the target lists them, include `key`.
pub open spec fn is_listed_dead_key(
    dead_keys: Option<Vec<(WindowsKbdLayer, Vec<String>)>>,
    layer: WindowsKbdLayer,
    key: Seq<char>,
) -> bool {
    match dead_keys {
        Some(dk) => match first_layer_index(dk@, layer) {
            Some(i) => string_views(dk@[i].1@).contains(key),
            None => false,
        },
        None => false,
    }
}

/// What a layer's entry `key` makes of the key: nothing for the null key
/// `\u{0}`, for text that decodes to nothing or to a NUL first unit, or for text
/// of more than four UTF-16 units; otherwise the decoded text, a dead key if
/// the layer lists it so.
pub open spec fn processed_key(
    layer: WindowsKbdLayer,
    key: Seq<char>,
    dead_keys: Option<Vec<(WindowsKbdLayer, Vec<String>)>>,
) -> Option<(Seq<char>, bool)> {
    let decoded = decode_escapes(key);
    let units = utf16_units(decoded);
    if key == null_key() {
        None
    } else if units.len() == 0 || units[0] == 0 {
        None
    } else if units.len() > 4 {
        None
    } else {
        Some((decoded, is_listed_dead_key(dead_keys, layer, decoded)))
    }
}

/// Whether a layer's entry can be processed: the null key always can; any
/// other must be in the Basic Multilingual Plane as written and have escapes
/// that write characters.
pub open spec fn key_can_be_processed(key: Seq<char>) -> bool {
    key != null_key() ==> klc_representable(key) && escapes_are_scalar(key)
}

fn contains_string(list: &Vec<String>, word: &String) -> (res: bool)
    ensures
        res == string_views(list@).contains(word@),
{
    let mut i: usize = 0;
    while i < list.len()
        invariant
            i <= list.len(),
            forall|j: int| 0 <= j < i ==> list@[j]@ != word@,
        decreases list.len() - i,
    {
        if list[i] == *word {
            assert(string_views(list@)[i as int] == word@);
            return true;
        }
        i = i + 1;
    }
    proof {
        if string_views(list@).contains(word@) {
            let j = choose|j: int| 0 <= j < string_views(list@).len() && string_views(list@)[j] == word@;
            assert(list@[j]@ == word@);
        }
    }
    false
}

/// Whether a layer's entry can be processed, computed.
pub fn key_is_processable(key: &str) -> (res: bool)
    ensures
        res == key_can_be_processed(key@),
{
    if str_eq(key, "\\u{0}") {
        return true;
    }
    is_klc_representable(key) && escapes_decode(key)
}

fn process_key(
    layer_key: &WindowsKbdLayer,
    key: &str,
    dead_keys: &Option<Vec<(WindowsKbdLayer, Vec<String>)>>,
) -> (res: Option<WindowsLayerSetKey>)
    requires
        key_can_be_processed(key@),
    ensures
        key_view(res) == processed_key(*layer_key, key@, *dead_keys),
{
    if str_eq(key, "\\u{0}") {
        return None;
    }
    validate_for_klc(key);
    let key = decode_unicode_escapes(key);
    let utf16s = encode_utf16(key.as_str());
    if utf16s.len() == 0 || utf16s[0] == 0 {
        return None;
    } else if utf16s.len() > 4 {
        return None;
    }
    let mut dead_key = false;
    match dead_keys {
        Some(dead_keys) => {
            match find_windows_layer(dead_keys, *layer_key) {
                Some(i) => {
                    proof {
                        lemma_first_layer_index(dead_keys@, *layer_key);
                    }
                    let n = dead_keys.len();
                    if contains_string(&dead_keys[i].1, &key) {
                        dead_key = true;
                    }
                },
                None => {},
            }
        },
        None => {},
    }
    Some(WindowsLayerSetKey { string: key, dead_key })
}

/// The layer set with the key of `layer` replaced.
pub open spec fn with_layer_key(
    s: WindowsLayerSetView,
    layer: WindowsKbdLayer,
    key: Option<(Seq<char>, bool)>,
) -> WindowsLayerSetView {
    match layer {
        WindowsKbdLayer::Default => WindowsLayerSetView { default: key, ..s },
        WindowsKbdLayer::Shift => WindowsLayerSetView { shift: key, ..s },
        WindowsKbdLayer::Caps => WindowsLayerSetView { caps: key, ..s },
        WindowsKbdLayer::CapsAndShift => WindowsLayerSetView { caps_and_shift: key, ..s },
        WindowsKbdLayer::Alt => WindowsLayerSetView { alt: key, ..s },
        WindowsKbdLayer::AltAndShift => WindowsLayerSetView { alt_and_shift: key, ..s },
        WindowsKbdLayer::AltAndCaps => WindowsLayerSetView { alt_and_caps: key, ..s },
        WindowsKbdLayer::Ctrl => WindowsLayerSetView { ctrl: key, ..s },
    }
}

/// Sets the key of `layer` from its entry at position `cursor` of the layer's
/// key list.
pub fn populate_layer_set(
    layer_set: &mut WindowsLayerSet,
    layer: &WindowsKbdLayer,
    key_map: Vec<String>,
    cursor: usize,
    dead_keys: &Option<Vec<(WindowsKbdLayer, Vec<String>)>>,
)
    requires
        cursor < key_map.len(),
        key_can_be_processed(key_map@[cursor as int]@),
    ensures
        final(layer_set)@ == with_layer_key(
            old(layer_set)@,
            *layer,
            processed_key(*layer, key_map@[cursor as int]@, *dead_keys),
        ),
{
    let key = process_key(layer, key_map[cursor].as_str(), dead_keys);
    match layer {
        WindowsKbdLayer::Default => {
            layer_set.default = key;
        },
        WindowsKbdLayer::Shift => {
            layer_set.shift = key;
        },
        WindowsKbdLayer::Caps => {
            layer_set.caps = key;
        },
        WindowsKbdLayer::CapsAndShift => {
            layer_set.caps_and_shift = key;
        },
        WindowsKbdLayer::Alt => {
            layer_set.alt = key;
        },
        WindowsKbdLayer::AltAndShift => {
            layer_set.alt_and_shift = key;
        },
        WindowsKbdLayer::AltAndCaps => {
            layer_set.alt_and_caps = key;
        },
        WindowsKbdLayer::Ctrl => {
            layer_set.ctrl = key;
        },
    }
}

} // verus!

verus! {

/// What a key types in one layer, and whether it is a dead key there (the
/// form of the first `.klc` generator, which has no alt-and-caps layer).
#[derive(Debug)]
pub struct WindowsLayoutKey {
    pub string: String,
    pub dead_key: bool,
}

/// What one key types in each layer, without an alt-and-caps layer.
#[derive(Debug)]
pub struct WindowsLayoutSet {
    pub default: Option<WindowsLayoutKey>,
    pub shift: Option<WindowsLayoutKey>,
    pub caps: Option<WindowsLayoutKey>,
    pub caps_and_shift: Option<WindowsLayoutKey>,
    pub alt: Option<WindowsLayoutKey>,
    pub alt_and_shift: Option<WindowsLayoutKey>,
    pub ctrl: Option<WindowsLayoutKey>,
}

/// A layout key by value.
pub open spec fn layout_key_view(k: Option<WindowsLayoutKey>) -> Option<(Seq<char>, bool)> {
    match k {
        Some(k) => Some((k.string@, k.dead_key)),
        None => None,
    }
}

/// The caps mode of a key of a layout set: `SGCap` when its caps layer types
/// something other than its default and shift layers; without a caps layer,
/// one if default and shift differ plus four if the alt layers do; with one,
/// one if caps and shift agree.
pub open spec fn layout_caps_mode_text(s: WindowsLayoutSet) -> Seq<char> {
    let default = layout_key_view(s.default);
    let shift = layout_key_view(s.shift);
    let caps = layout_key_view(s.caps);
    if caps is Some && default != caps && shift != caps {
        "SGCap"@
    } else if caps is None {
        decimal(
            ((if default != shift {
                1nat
            } else {
                0nat
            }) + (if layout_key_view(s.alt) != layout_key_view(s.alt_and_shift) {
                4nat
            } else {
                0nat
            })) as nat,
        )
    } else {
        decimal(
            if caps == shift {
                1nat
            } else {
                0nat
            },
        )
    }
}

fn layout_keys_equal(a: &Option<WindowsLayoutKey>, b: &Option<WindowsLayoutKey>) -> (res: bool)
    ensures
        res == (layout_key_view(*a) == layout_key_view(*b)),
{
    match (a, b) {
        (Some(x), Some(y)) => x.string == y.string && x.dead_key == y.dead_key,
        (None, None) => true,
        _ => false,
    }
}

impl WindowsLayoutSet {
    /// The caps mode of the key.
    pub fn caps_mode(&self) -> (res: String)
        ensures
            res@ == layout_caps_mode_text(*self),
    {
        if self.caps.is_some() && !layout_keys_equal(&self.default, &self.caps) && !layout_keys_equal(
            &self.shift,
            &self.caps,
        ) {
            SG_CAP.to_owned()
        } else if self.caps.is_none() {
            let mut caps: u64 = 0;
            if !layout_keys_equal(&self.default, &self.shift) {
                caps = caps + 1;
            }
            if !layout_keys_equal(&self.alt, &self.alt_and_shift) {
                caps = caps + 4;
            }
            u64_to_decimal(caps)
        } else {
            let mut caps: u64 = 0;
            if layout_keys_equal(&self.caps, &self.shift) {
                caps = caps + 1;
            }
            u64_to_decimal(caps)
        }
    }
}

} // verus!

verus! {

/// A key's caps mode is `SGCap` or one of the columns `0`, `1`, `4` and `5`
/// that a `.klc` layout allows.
pub proof fn lemma_caps_mode_values(s: WindowsLayerSetView)
    ensures
        caps_mode_text(s) == "SGCap"@ || caps_mode_text(s) == decimal(0) || caps_mode_text(s) == decimal(1)
            || caps_mode_text(s) == decimal(4) || caps_mode_text(s) == decimal(5),
{
}

} // verus!
