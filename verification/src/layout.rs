//! The layout description that a `.kbdgen` bundle gives for each language:
//! the layer names of each platform and the dead-key transforms.

use vstd::prelude::*;

use crate::text::str_eq;

verus! {

/// A layer of a macOS keyboard.
#[derive(Clone, Copy, Debug, PartialEq, Eq, Hash, Structural)]
pub enum MacOsKbdLayer {
    Default,
    Shift,
    Caps,
    CapsAndShift,
    Alt,
    AltAndShift,
    AltAndCaps,
    Ctrl,
    Cmd,
    CmdAndShift,
    CmdAndAlt,
    CmdAndAltAndShift,
}

/// A layer of a Windows keyboard, as the `.klc` generator reads it.
#[derive(Clone, Copy, Debug, PartialEq, Eq, Hash, Structural)]
pub enum WindowsKbdLayer {
    Default,
    Shift,
    Caps,
    CapsAndShift,
    Alt,
    AltAndShift,
    AltAndCaps,
    Ctrl,
}

/// A layer of a Windows keyboard in the earlier layer set, which has no
/// `alt+caps` layer.
#[derive(Clone, Copy, Debug, PartialEq, Eq, Hash, Structural)]
pub enum WindowsKbdLayerKey {
    Default,
    Shift,
    Caps,
    CapsAndShift,
    Alt,
    AltAndShift,
    Ctrl,
}

/// The platforms of a Windows target.
#[derive(Clone, Copy, Debug, PartialEq, Eq, Hash, Structural)]
pub enum WindowsPlatformKey {
    Primary,
}

/// A layer of a ChromeOS keyboard.
#[derive(Clone, Copy, Debug, PartialEq, Eq, Hash, Structural)]
pub enum ChromeOsKbdLayer {
    Default,
    Shift,
    Caps,
    CapsAndShift,
    Alt,
    AltAndShift,
    Ctrl,
}

/// A layer of an Android keyboard.
#[derive(Clone, Copy, Debug, PartialEq, Eq, Hash, Structural)]
pub enum AndroidKbdLayer {
    Default,
    Shift,
}

/// A layer of an iOS keyboard.
#[derive(Clone, Copy, Debug, PartialEq, Eq, Hash, Structural)]
pub enum IOsKbdLayer {
    Default,
    Shift,
    Caps,
    Alt,
    AltAndShift,
    Symbols1,
    Symbols2,
}

/// A dead-key transform: either the text it ends in, or the transforms that
/// follow each next key, in the order the layout file gives them.
#[derive(Debug)]
pub enum Transform {
    End(String),
    More(Vec<(String, Transform)>),
}

/// The names of the space and return keys.
#[derive(Debug)]
pub struct KeyNames {
    pub space: String,
    pub return_key: String,
}

/// The Windows settings of a layout: the locale its `.klc` file names, and
/// the identifier its keyboard file is named by.
#[derive(Debug)]
pub struct WindowsConfig {
    pub locale: Option<String>,
    pub id: Option<String>,
}

/// The ChromeOS settings of a layout: the locale of its input component and
/// the XKB layout it is based on.
#[derive(Debug)]
pub struct ChromeConfig {
    pub locale: Option<String>,
    pub xkb_layout: Option<String>,
}

/// A BCP 47 language tag and the subtags that the generators read from it.
#[derive(Debug)]
pub struct LanguageTagParts {
    pub tag: String,
    pub primary_language: String,
    pub script: Option<String>,
    pub region: Option<String>,
}

/// The iOS settings of a layout.
#[derive(Debug)]
pub struct IOsConfig {
    pub speller_package_key: Option<String>,
    pub speller_path: Option<String>,
}

/// The Android settings of a layout.
#[derive(Debug)]
pub struct AndroidConfig {
    pub speller_package_key: Option<String>,
    pub speller_path: Option<String>,
}

/// The index of the first entry of `entries` whose key is `key`.
pub open spec fn first_key_index<V>(entries: Seq<(String, V)>, key: Seq<char>) -> Option<int>
    decreases entries.len(),
{
    if entries.len() == 0 {
        None
    } else if entries[0].0@ == key {
        Some(0)
    } else {
        match first_key_index(entries.drop_first(), key) {
            Some(i) => Some(i + 1),
            None => None,
        }
    }
}

/// The index of the first entry of `entries` whose key is `layer`.
pub open spec fn first_layer_index<L, V>(entries: Seq<(L, V)>, layer: L) -> Option<int>
    decreases entries.len(),
{
    if entries.len() == 0 {
        None
    } else if entries[0].0 == layer {
        Some(0)
    } else {
        match first_layer_index(entries.drop_first(), layer) {
            Some(i) => Some(i + 1),
            None => None,
        }
    }
}

/// Where `first_key_index` finds a key, the entry there holds it and no entry
/// before it does.
pub proof fn lemma_first_key_index<V>(entries: Seq<(String, V)>, key: Seq<char>)
    ensures
        first_key_index(entries, key) matches Some(i) ==> 0 <= i < entries.len() && entries[i].0@
            == key && forall|j: int| 0 <= j < i ==> entries[j].0@ != key,
        first_key_index(entries, key) is None ==> forall|j: int|
            0 <= j < entries.len() ==> entries[j].0@ != key,
    decreases entries.len(),
{
    if entries.len() > 0 {
        lemma_first_key_index(entries.drop_first(), key);
        assert forall|j: int| 1 <= j < entries.len() implies entries[j] == entries.drop_first()[j
            - 1] by {}
    }
}

/// Where `first_layer_index` finds a layer, the entry there holds it and no
/// entry before it does.
pub proof fn lemma_first_layer_index<L, V>(entries: Seq<(L, V)>, layer: L)
    ensures
        first_layer_index(entries, layer) matches Some(i) ==> 0 <= i < entries.len()
            && entries[i].0 == layer && forall|j: int| 0 <= j < i ==> entries[j].0 != layer,
        first_layer_index(entries, layer) is None ==> forall|j: int|
            0 <= j < entries.len() ==> entries[j].0 != layer,
    decreases entries.len(),
{
    if entries.len() > 0 {
        lemma_first_layer_index(entries.drop_first(), layer);
        assert forall|j: int| 1 <= j < entries.len() implies entries[j] == entries.drop_first()[j
            - 1] by {}
    }
}

/// Finds the first entry whose key is `key` (the lookup of an ordered map).
pub fn find_key<V>(entries: &Vec<(String, V)>, key: &str) -> (res: Option<usize>)
    ensures
        match first_key_index(entries@, key@) {
            Some(i) => res == Some(i as usize),
            None => res is None,
        },
{
    proof {
        lemma_first_key_index(entries@, key@);
    }
    let mut i: usize = 0;
    while i < entries.len()
        invariant
            i <= entries.len(),
            forall|j: int| 0 <= j < i ==> entries@[j].0@ != key@,
            first_key_index(entries@, key@) matches Some(k) ==> 0 <= k < entries.len()
                && entries@[k].0@ == key@ && forall|j: int| 0 <= j < k ==> entries@[j].0@ != key@,
            first_key_index(entries@, key@) is None ==> forall|j: int|
                0 <= j < entries.len() ==> entries@[j].0@ != key@,
        decreases entries.len() - i,
    {
        if str_eq(entries[i].0.as_str(), key) {
            return Some(i);
        }
        i = i + 1;
    }
    None
}

/// Finds the first entry whose key is `layer`.
pub fn find_mac_layer<V>(entries: &Vec<(MacOsKbdLayer, V)>, layer: MacOsKbdLayer) -> (res:
    Option<usize>)
    ensures
        match first_layer_index(entries@, layer) {
            Some(i) => res == Some(i as usize),
            None => res is None,
        },
{
    proof {
        lemma_first_layer_index(entries@, layer);
    }
    let mut i: usize = 0;
    while i < entries.len()
        invariant
            i <= entries.len(),
            forall|j: int| 0 <= j < i ==> entries@[j].0 != layer,
            first_layer_index(entries@, layer) matches Some(k) ==> 0 <= k < entries.len()
                && entries@[k].0 == layer && forall|j: int| 0 <= j < k ==> entries@[j].0 != layer,
            first_layer_index(entries@, layer) is None ==> forall|j: int|
                0 <= j < entries.len() ==> entries@[j].0 != layer,
        decreases entries.len() - i,
    {
        if entries[i].0 == layer {
            return Some(i);
        }
        i = i + 1;
    }
    None
}

/// Finds the first entry whose key is `layer`.
pub fn find_windows_layer<V>(entries: &Vec<(WindowsKbdLayer, V)>, layer: WindowsKbdLayer) -> (res:
    Option<usize>)
    ensures
        match first_layer_index(entries@, layer) {
            Some(i) => res == Some(i as usize),
            None => res is None,
        },
{
    proof {
        lemma_first_layer_index(entries@, layer);
    }
    let mut i: usize = 0;
    while i < entries.len()
        invariant
            i <= entries.len(),
            forall|j: int| 0 <= j < i ==> entries@[j].0 != layer,
            first_layer_index(entries@, layer) matches Some(k) ==> 0 <= k < entries.len()
                && entries@[k].0 == layer && forall|j: int| 0 <= j < k ==> entries@[j].0 != layer,
            first_layer_index(entries@, layer) is None ==> forall|j: int|
                0 <= j < entries.len() ==> entries@[j].0 != layer,
        decreases entries.len() - i,
    {
        if entries[i].0 == layer {
            return Some(i);
        }
        i = i + 1;
    }
    None
}

/// Finds the first entry whose key is `layer`.
pub fn find_android_layer<V>(entries: &Vec<(AndroidKbdLayer, V)>, layer: AndroidKbdLayer) -> (res:
    Option<usize>)
    ensures
        match first_layer_index(entries@, layer) {
            Some(i) => res == Some(i as usize),
            None => res is None,
        },
{
    proof {
        lemma_first_layer_index(entries@, layer);
    }
    let mut i: usize = 0;
    while i < entries.len()
        invariant
            i <= entries.len(),
            forall|j: int| 0 <= j < i ==> entries@[j].0 != layer,
            first_layer_index(entries@, layer) matches Some(k) ==> 0 <= k < entries.len()
                && entries@[k].0 == layer && forall|j: int| 0 <= j < k ==> entries@[j].0 != layer,
            first_layer_index(entries@, layer) is None ==> forall|j: int|
                0 <= j < entries.len() ==> entries@[j].0 != layer,
        decreases entries.len() - i,
    {
        if entries[i].0 == layer {
            return Some(i);
        }
        i = i + 1;
    }
    None
}

} // verus!
