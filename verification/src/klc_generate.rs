//! The generation of a Windows `.klc` layout from a layout's Windows layers:
//! the key positions, the rows, ligatures and dead keys of each position, and
//! the file's metadata.

use crate::iso_keys::{layer_position_key, pc_scan_code, two_hex_digits, windows_virtual_key};
use vstd::prelude::*;

use crate::klc::{
    dead_keys_writable, klc_file_text, KlcDeadKeys, KlcFile, KlcFileMetadata, KlcKey, KlcLayer, KlcLayout, KlcLayoutRow,
    KlcLayoutRowView, KlcLigature, KlcLigatureRow, KlcLigatureRowView, KLC_EXT, klc_layer_index,
    klc_layer_number,
};
use crate::layer_set::{
    SG_CAP, WindowsLayerSet, WindowsLayerSetKey, WindowsLayerSetView, caps_mode_text,
    empty_layer_set, key_can_be_processed, key_is_processable, key_view, populate_layer_set, processed_key,
    with_layer_key,
};
use crate::layout::{LanguageTagParts, Transform, WindowsConfig, WindowsKbdLayer};
use crate::text::{
    chars_of, decimal, encode_utf16, encode_utf16_le_bom, lemma_utf16_units_len, push_char,
    split_keys, str_eq, utf16_le_bom, string_views, u64_to_decimal, utf16_units,
    words,
};

verus! {

/// The number of key positions of a `.klc` layout, in the order of a layer's
/// keys.
pub const MSKLC_KEY_COUNT: usize = 48;

/// The scan code and virtual key of a key position (`sc` and `vk` in a `.klc`
/// file).
#[derive(Debug)]
pub struct KlcKeyCodes {
    pub scancode: String,
    pub virtual_key: String,
}

/// The scan code and virtual key of position `i`, in the order of a layer's
/// keys: the digit row, then the three letter rows.
pub open spec fn msklc_codes(i: int) -> (&'static str, &'static str) {
    if i == 0 {
        ("29", "OEM_3")
    } else if i == 1 {
        ("02", "1")
    } else if i == 2 {
        ("03", "2")
    } else if i == 3 {
        ("04", "3")
    } else if i == 4 {
        ("05", "4")
    } else if i == 5 {
        ("06", "5")
    } else if i == 6 {
        ("07", "6")
    } else if i == 7 {
        ("08", "7")
    } else if i == 8 {
        ("09", "8")
    } else if i == 9 {
        ("0a", "9")
    } else if i == 10 {
        ("0b", "0")
    } else if i == 11 {
        ("0c", "OEM_MINUS")
    } else if i == 12 {
        ("0d", "OEM_PLUS")
    } else if i == 13 {
        ("10", "Q")
    } else if i == 14 {
        ("11", "W")
    } else if i == 15 {
        ("12", "E")
    } else if i == 16 {
        ("13", "R")
    } else if i == 17 {
        ("14", "T")
    } else if i == 18 {
        ("15", "Y")
    } else if i == 19 {
        ("16", "U")
    } else if i == 20 {
        ("17", "I")
    } else if i == 21 {
        ("18", "O")
    } else if i == 22 {
        ("19", "P")
    } else if i == 23 {
        ("1a", "OEM_4")
    } else if i == 24 {
        ("1b", "OEM_6")
    } else if i == 25 {
        ("1e", "A")
    } else if i == 26 {
        ("1f", "S")
    } else if i == 27 {
        ("20", "D")
    } else if i == 28 {
        ("21", "F")
    } else if i == 29 {
        ("22", "G")
    } else if i == 30 {
        ("23", "H")
    } else if i == 31 {
        ("24", "J")
    } else if i == 32 {
        ("25", "K")
    } else if i == 33 {
        ("26", "L")
    } else if i == 34 {
        ("27", "OEM_1")
    } else if i == 35 {
        ("28", "OEM_7")
    } else if i == 36 {
        ("2b", "OEM_5")
    } else if i == 37 {
        ("56", "OEM_102")
    } else if i == 38 {
        ("2c", "Z")
    } else if i == 39 {
        ("2d", "X")
    } else if i == 40 {
        ("2e", "C")
    } else if i == 41 {
        ("2f", "V")
    } else if i == 42 {
        ("30", "B")
    } else if i == 43 {
        ("31", "N")
    } else if i == 44 {
        ("32", "M")
    } else if i == 45 {
        ("33", "OEM_COMMA")
    } else if i == 46 {
        ("34", "OEM_PERIOD")
    } else {
        ("35", "OEM_2")
    }
}

fn msklc_codes_at(i: usize) -> (res: (&'static str, &'static str))
    requires
        i < MSKLC_KEY_COUNT,
    ensures
        res == msklc_codes(i as int),
{
    match i {
        0 => ("29", "OEM_3"),
        1 => ("02", "1"),
        2 => ("03", "2"),
        3 => ("04", "3"),
        4 => ("05", "4"),
        5 => ("06", "5"),
        6 => ("07", "6"),
        7 => ("08", "7"),
        8 => ("09", "8"),
        9 => ("0a", "9"),
        10 => ("0b", "0"),
        11 => ("0c", "OEM_MINUS"),
        12 => ("0d", "OEM_PLUS"),
        13 => ("10", "Q"),
        14 => ("11", "W"),
        15 => ("12", "E"),
        16 => ("13", "R"),
        17 => ("14", "T"),
        18 => ("15", "Y"),
        19 => ("16", "U"),
        20 => ("17", "I"),
        21 => ("18", "O"),
        22 => ("19", "P"),
        23 => ("1a", "OEM_4"),
        24 => ("1b", "OEM_6"),
        25 => ("1e", "A"),
        26 => ("1f", "S"),
        27 => ("20", "D"),
        28 => ("21", "F"),
        29 => ("22", "G"),
        30 => ("23", "H"),
        31 => ("24", "J"),
        32 => ("25", "K"),
        33 => ("26", "L"),
        34 => ("27", "OEM_1"),
        35 => ("28", "OEM_7"),
        36 => ("2b", "OEM_5"),
        37 => ("56", "OEM_102"),
        38 => ("2c", "Z"),
        39 => ("2d", "X"),
        40 => ("2e", "C"),
        41 => ("2f", "V"),
        42 => ("30", "B"),
        43 => ("31", "N"),
        44 => ("32", "M"),
        45 => ("33", "OEM_COMMA"),
        46 => ("34", "OEM_PERIOD"),
        _ => ("35", "OEM_2"),
    }
}

/// Each position of a `.klc` layout row gets the scan code and virtual key
/// of its ISO key: the PC scan code in two hex digits, and the key's letter,
/// digit or `OEM_` name.
pub proof fn lemma_klc_codes_follow_iso_keys(i: int)
    requires
        0 <= i < MSKLC_KEY_COUNT,
    ensures
        msklc_codes(i).0@ == two_hex_digits(pc_scan_code(layer_position_key(i))),
        msklc_codes(i).1@ == windows_virtual_key(layer_position_key(i)),
{
    if i == 0 {
        reveal_strlit("29");
        reveal_strlit("OEM_3");
    } else if i == 1 {
        reveal_strlit("02");
        reveal_strlit("1");
    } else if i == 2 {
        reveal_strlit("03");
        reveal_strlit("2");
    } else if i == 3 {
        reveal_strlit("04");
        reveal_strlit("3");
    } else if i == 4 {
        reveal_strlit("05");
        reveal_strlit("4");
    } else if i == 5 {
        reveal_strlit("06");
        reveal_strlit("5");
    } else if i == 6 {
        reveal_strlit("07");
        reveal_strlit("6");
    } else if i == 7 {
        reveal_strlit("08");
        reveal_strlit("7");
    } else if i == 8 {
        reveal_strlit("09");
        reveal_strlit("8");
    } else if i == 9 {
        reveal_strlit("0a");
        reveal_strlit("9");
    } else if i == 10 {
        reveal_strlit("0b");
        reveal_strlit("0");
    } else if i == 11 {
        reveal_strlit("0c");
        reveal_strlit("OEM_MINUS");
    } else if i == 12 {
        reveal_strlit("0d");
        reveal_strlit("OEM_PLUS");
    } else if i == 13 {
        reveal_strlit("10");
        reveal_strlit("Q");
    } else if i == 14 {
        reveal_strlit("11");
        reveal_strlit("W");
    } else if i == 15 {
        reveal_strlit("12");
        reveal_strlit("E");
    } else if i == 16 {
        reveal_strlit("13");
        reveal_strlit("R");
    } else if i == 17 {
        reveal_strlit("14");
        reveal_strlit("T");
    } else if i == 18 {
        reveal_strlit("15");
        reveal_strlit("Y");
    } else if i == 19 {
        reveal_strlit("16");
        reveal_strlit("U");
    } else if i == 20 {
        reveal_strlit("17");
        reveal_strlit("I");
    } else if i == 21 {
        reveal_strlit("18");
        reveal_strlit("O");
    } else if i == 22 {
        reveal_strlit("19");
        reveal_strlit("P");
    } else if i == 23 {
        reveal_strlit("1a");
        reveal_strlit("OEM_4");
    } else if i == 24 {
        reveal_strlit("1b");
        reveal_strlit("OEM_6");
    } else if i == 25 {
        reveal_strlit("1e");
        reveal_strlit("A");
    } else if i == 26 {
        reveal_strlit("1f");
        reveal_strlit("S");
    } else if i == 27 {
        reveal_strlit("20");
        reveal_strlit("D");
    } else if i == 28 {
        reveal_strlit("21");
        reveal_strlit("F");
    } else if i == 29 {
        reveal_strlit("22");
        reveal_strlit("G");
    } else if i == 30 {
        reveal_strlit("23");
        reveal_strlit("H");
    } else if i == 31 {
        reveal_strlit("24");
        reveal_strlit("J");
    } else if i == 32 {
        reveal_strlit("25");
        reveal_strlit("K");
    } else if i == 33 {
        reveal_strlit("26");
        reveal_strlit("L");
    } else if i == 34 {
        reveal_strlit("27");
        reveal_strlit("OEM_1");
    } else if i == 35 {
        reveal_strlit("28");
        reveal_strlit("OEM_7");
    } else if i == 36 {
        reveal_strlit("2b");
        reveal_strlit("OEM_5");
    } else if i == 37 {
        reveal_strlit("56");
        reveal_strlit("OEM_102");
    } else if i == 38 {
        reveal_strlit("2c");
        reveal_strlit("Z");
    } else if i == 39 {
        reveal_strlit("2d");
        reveal_strlit("X");
    } else if i == 40 {
        reveal_strlit("2e");
        reveal_strlit("C");
    } else if i == 41 {
        reveal_strlit("2f");
        reveal_strlit("V");
    } else if i == 42 {
        reveal_strlit("30");
        reveal_strlit("B");
    } else if i == 43 {
        reveal_strlit("31");
        reveal_strlit("N");
    } else if i == 44 {
        reveal_strlit("32");
        reveal_strlit("M");
    } else if i == 45 {
        reveal_strlit("33");
        reveal_strlit("OEM_COMMA");
    } else if i == 46 {
        reveal_strlit("34");
        reveal_strlit("OEM_PERIOD");
    } else {
        reveal_strlit("35");
        reveal_strlit("OEM_2");
    }
}

/// The codes of key position `i`.
pub fn msklc_key(i: usize) -> (res: KlcKeyCodes)
    requires
        i < MSKLC_KEY_COUNT,
    ensures
        res.scancode@ == msklc_codes(i as int).0@,
        res.virtual_key@ == msklc_codes(i as int).1@,
        res.scancode@ == two_hex_digits(pc_scan_code(layer_position_key(i as int))),
        res.virtual_key@ == windows_virtual_key(layer_position_key(i as int)),
{
    proof {
        lemma_klc_codes_follow_iso_keys(i as int);
    }
    let (scancode, virtual_key) = msklc_codes_at(i);
    KlcKeyCodes { scancode: scancode.to_string(), virtual_key: virtual_key.to_string() }
}

} // verus!

verus! {

/// The key that a layer's entry becomes in a layout row: a character or dead
/// key where it is one UTF-16 unit, a ligature where it is more, and nothing
/// where the layer has no key.
#[verifier::opaque]
pub open spec fn klc_key_for(key: Option<(Seq<char>, bool)>) -> KlcKey {
    match key {
        Some((text, dead)) => if utf16_units(text).len() == 1 {
            if dead {
                KlcKey::DeadKey(text[0])
            } else {
                KlcKey::Character(text[0])
            }
        } else {
            KlcKey::Ligature
        },
        None => KlcKey::Empty,
    }
}

/// The ligature row that a layer's entry adds, if it is a ligature: its
/// virtual key, the column's number and its UTF-16 units.
#[verifier::opaque]
pub open spec fn ligatures_for(
    key: Option<(Seq<char>, bool)>,
    virtual_key: Seq<char>,
    layer: KlcLayer,
) -> Seq<KlcLigatureRowView> {
    match key {
        Some((text, _)) => if utf16_units(text).len() == 1 {
            seq![]
        } else {
            seq![
                KlcLigatureRowView {
                    virtual_key,
                    shift_state: decimal(klc_layer_number(layer)),
                    utf16s: utf16_units(text),
                },
            ]
        },
        None => seq![],
    }
}

/// The dead key character that a layer's entry adds, if it is a dead key of
/// one UTF-16 unit.
#[verifier::opaque]
pub open spec fn dead_keys_for(key: Option<(Seq<char>, bool)>) -> Seq<char> {
    match key {
        Some((text, dead)) => if utf16_units(text).len() == 1 && dead {
            seq![text[0]]
        } else {
            seq![]
        },
        None => seq![],
    }
}

/// Converts a layer's entry into the key of a layout row, adding a ligature row
/// for a key of several UTF-16 units and remembering a dead key's character.
pub fn convert_to_klc_key(
    key: Option<WindowsLayerSetKey>,
    virtual_key: &str,
    klc_layer: KlcLayer,
    klc_ligature_rows: &mut Vec<KlcLigatureRow>,
    dead_key_characters: &mut Vec<char>,
) -> (res: KlcKey)
    ensures
        res == klc_key_for(key_view(key)),
        final(klc_ligature_rows)@.map_values(|r: KlcLigatureRow| r@) == old(
            klc_ligature_rows,
        )@.map_values(|r: KlcLigatureRow| r@) + ligatures_for(key_view(key), virtual_key@, klc_layer),
        final(dead_key_characters)@ == old(dead_key_characters)@ + dead_keys_for(key_view(key)),
{
    let ghost old_rows = klc_ligature_rows@;
    reveal(klc_key_for);
    reveal(ligatures_for);
    reveal(dead_keys_for);
    match key {
        Some(key) => {
            let utf16s = encode_utf16(key.string.as_str());
            proof {
                lemma_utf16_units_len(key.string@);
            }
            if utf16s.len() == 1 {
                let chars = chars_of(key.string.as_str());
                let character = chars[0];
                if key.dead_key {
                    dead_key_characters.push(character);
                    KlcKey::DeadKey(character)
                } else {
                    assert(dead_key_characters@ =~= old(dead_key_characters)@ + Seq::<char>::empty());
                    assert(klc_ligature_rows@.map_values(|r: KlcLigatureRow| r@) =~= old_rows.map_values(
                        |r: KlcLigatureRow| r@,
                    ) + Seq::<KlcLigatureRowView>::empty());
                    KlcKey::Character(character)
                }
            } else {
                let shift_state = u64_to_decimal(klc_layer_index(klc_layer));
                let ligature_row = KlcLigatureRow {
                    virtual_key: virtual_key.to_string(),
                    shift_state,
                    utf16s,
                };
                klc_ligature_rows.push(ligature_row);
                assert(klc_ligature_rows@.map_values(|r: KlcLigatureRow| r@) =~= old_rows.map_values(
                    |r: KlcLigatureRow| r@,
                ) + ligatures_for(key_view(Some(key)), virtual_key@, klc_layer));
                assert(dead_key_characters@ =~= old(dead_key_characters)@ + Seq::<char>::empty());
                KlcKey::Ligature
            }
        },
        None => {
            assert(dead_key_characters@ =~= old(dead_key_characters)@ + Seq::<char>::empty());
            assert(klc_ligature_rows@.map_values(|r: KlcLigatureRow| r@) =~= old_rows.map_values(
                |r: KlcLigatureRow| r@,
            ) + Seq::<KlcLigatureRowView>::empty());
            KlcKey::Empty
        },
    }
}

} // verus!

verus! {

/// The layout row of the space bar.
pub open spec fn space_row() -> KlcLayoutRowView {
    KlcLayoutRowView {
        scancode: "39"@,
        virtual_key: "SPACE"@,
        caps_mode: "0"@,
        default_key: KlcKey::Character(' '),
        shift_key: KlcKey::Character(' '),
        ctrl_key: KlcKey::Character(' '),
        alt_key: KlcKey::Empty,
        alt_and_shift_key: KlcKey::Empty,
    }
}

/// The layout row of the space bar: a space in the default, shift and ctrl
/// columns.
pub fn space_layout_row() -> (res: KlcLayoutRow)
    ensures
        res@ == space_row(),
{
    KlcLayoutRow {
        scancode: "39".to_owned(),
        virtual_key: "SPACE".to_owned(),
        caps_mode: "0".to_owned(),
        default_key: KlcKey::Character(' '),
        shift_key: KlcKey::Character(' '),
        ctrl_key: KlcKey::Character(' '),
        alt_key: KlcKey::Empty,
        alt_and_shift_key: KlcKey::Empty,
    }
}

/// Whether a layout's decimal setting can give the keypad's decimal key: it
/// is unset or has a first character.
pub open spec fn decimal_is_usable(decimal: Option<String>) -> bool {
    decimal matches Some(d) ==> d@.len() > 0
}

/// The keypad's decimal character: the first character of the layout's
/// decimal, or `.`.
pub open spec fn decimal_char(decimal: Option<String>) -> char {
    match decimal {
        Some(d) => d@[0],
        None => '.',
    }
}

/// The layout row of the keypad's decimal key.
pub open spec fn decimal_row(decimal: Option<String>) -> KlcLayoutRowView {
    KlcLayoutRowView {
        scancode: "53"@,
        virtual_key: "DECIMAL"@,
        caps_mode: "0"@,
        default_key: KlcKey::Character(decimal_char(decimal)),
        shift_key: KlcKey::Character(decimal_char(decimal)),
        ctrl_key: KlcKey::Empty,
        alt_key: KlcKey::Empty,
        alt_and_shift_key: KlcKey::Empty,
    }
}

/// The layout row of the keypad's decimal key, typing the layout's decimal
/// character in the default and shift columns.
pub fn decimal_layout_row(layout_decimal: &Option<String>) -> (res: KlcLayoutRow)
    requires
        decimal_is_usable(*layout_decimal),
    ensures
        res@ == decimal_row(*layout_decimal),
{
    let decimal = match layout_decimal {
        Some(d) => {
            let chars = chars_of(d.as_str());
            chars[0]
        },
        None => '.',
    };
    KlcLayoutRow {
        scancode: "53".to_owned(),
        virtual_key: "DECIMAL".to_owned(),
        caps_mode: "0".to_owned(),
        default_key: KlcKey::Character(decimal),
        shift_key: KlcKey::Character(decimal),
        ctrl_key: KlcKey::Empty,
        alt_key: KlcKey::Empty,
        alt_and_shift_key: KlcKey::Empty,
    }
}

/// What key position `cursor` types in each layer: the layers' entries at
/// that position, a later layer of the same kind replacing an earlier one.
pub open spec fn layer_set_at(
    layers: Seq<(WindowsKbdLayer, String)>,
    cursor: int,
    dead_keys: Option<Vec<(WindowsKbdLayer, Vec<String>)>>,
) -> WindowsLayerSetView
    decreases layers.len(),
{
    if layers.len() == 0 {
        empty_layer_set()
    } else {
        let last = layers.last();
        with_layer_key(
            layer_set_at(layers.drop_last(), cursor, dead_keys),
            last.0,
            processed_key(last.0, words(last.1@)[cursor], dead_keys),
        )
    }
}

/// Whether every layer has a key for each position and each of those keys
/// can be processed.
pub open spec fn windows_layers_usable(layers: Seq<(WindowsKbdLayer, String)>) -> bool {
    &&& forall|l: int| 0 <= l < layers.len() ==> words(#[trigger] layers[l].1@).len() >= MSKLC_KEY_COUNT
    &&& forall|l: int, c: int|
        0 <= l < layers.len() && 0 <= c < MSKLC_KEY_COUNT ==> key_can_be_processed(
            #[trigger] words(layers[l].1@)[c],
        )
}

/// Whether every layer has a key for each position and each of those keys
/// can be processed, computed.
pub fn windows_layers_are_usable(layers: &Vec<(WindowsKbdLayer, String)>) -> (res: bool)
    ensures
        res == windows_layers_usable(layers@),
{
    let mut l: usize = 0;
    while l < layers.len()
        invariant
            l <= layers.len(),
            forall|m: int| 0 <= m < l ==> words(#[trigger] layers@[m].1@).len() >= MSKLC_KEY_COUNT,
            forall|m: int, c: int|
                0 <= m < l && 0 <= c < MSKLC_KEY_COUNT ==> key_can_be_processed(#[trigger] words(layers@[m].1@)[c]),
        decreases layers.len() - l,
    {
        let keys = split_keys(layers[l].1.as_str());
        if keys.len() < MSKLC_KEY_COUNT {
            assert(words(layers@[l as int].1@).len() < MSKLC_KEY_COUNT);
            return false;
        }
        let mut c: usize = 0;
        while c < MSKLC_KEY_COUNT
            invariant
                l < layers.len(),
                c <= MSKLC_KEY_COUNT,
                keys.len() >= MSKLC_KEY_COUNT,
                string_views(keys@) == words(layers@[l as int].1@),
                forall|k: int| 0 <= k < c ==> key_can_be_processed(#[trigger] words(layers@[l as int].1@)[k]),
            decreases MSKLC_KEY_COUNT - c,
        {
            assert(keys@[c as int]@ == words(layers@[l as int].1@)[c as int]);
            if !key_is_processable(keys[c].as_str()) {
                assert(!key_can_be_processed(words(layers@[l as int].1@)[c as int]));
                return false;
            }
            c = c + 1;
        }
        l = l + 1;
    }
    true
}

/// The layer set of key position `cursor`.
pub fn layer_set_for_position(
    layers: &Vec<(WindowsKbdLayer, String)>,
    cursor: usize,
    dead_keys: &Option<Vec<(WindowsKbdLayer, Vec<String>)>>,
) -> (res: WindowsLayerSet)
    requires
        cursor < MSKLC_KEY_COUNT,
        windows_layers_usable(layers@),
    ensures
        res@ == layer_set_at(layers@, cursor as int, *dead_keys),
{
    let mut layer_set = WindowsLayerSet::default();
    let mut l: usize = 0;
    while l < layers.len()
        invariant
            l <= layers.len(),
            cursor < MSKLC_KEY_COUNT,
            windows_layers_usable(layers@),
            layer_set@ == layer_set_at(layers@.take(l as int), cursor as int, *dead_keys),
        decreases layers.len() - l,
    {
        let key_map = split_keys(layers[l].1.as_str());
        assert(words(layers@[l as int].1@).len() >= MSKLC_KEY_COUNT);
        assert(key_can_be_processed(words(layers@[l as int].1@)[cursor as int]));
        assert(key_map@[cursor as int]@ == string_views(key_map@)[cursor as int]);
        populate_layer_set(&mut layer_set, &layers[l].0, key_map, cursor, dead_keys);
        assert(layers@.take(l + 1).drop_last() =~= layers@.take(l as int));
        l = l + 1;
    }
    assert(layers@.take(l as int) =~= layers@);
    layer_set
}

} // verus!

verus! {

/// Whether a layer set's caps mode is `SGCap`.
pub open spec fn is_sg_cap(s: WindowsLayerSetView) -> bool {
    caps_mode_text(s) == "SGCap"@
}

/// The layout rows of key position `i`: its row, and after it, for an `SGCap`
/// key, the row of what caps and caps-and-shift type.
pub open spec fn position_rows(s: WindowsLayerSetView, i: int) -> Seq<KlcLayoutRowView> {
    let row = KlcLayoutRowView {
        scancode: msklc_codes(i).0@,
        virtual_key: msklc_codes(i).1@,
        caps_mode: caps_mode_text(s),
        default_key: klc_key_for(s.default),
        shift_key: klc_key_for(s.shift),
        ctrl_key: klc_key_for(s.ctrl),
        alt_key: klc_key_for(s.alt),
        alt_and_shift_key: klc_key_for(s.alt_and_shift),
    };
    if is_sg_cap(s) {
        seq![
            row,
            KlcLayoutRowView {
                scancode: "-1"@,
                virtual_key: "-1"@,
                caps_mode: "0"@,
                default_key: klc_key_for(s.caps),
                shift_key: klc_key_for(s.caps_and_shift),
                ctrl_key: KlcKey::Skip,
                alt_key: KlcKey::Skip,
                alt_and_shift_key: KlcKey::Skip,
            },
        ]
    } else {
        seq![row]
    }
}

/// The ligature rows of key position `i`, column by column.
pub open spec fn position_ligatures(s: WindowsLayerSetView, i: int) -> Seq<KlcLigatureRowView> {
    let vk = msklc_codes(i).1@;
    ligatures_for(s.default, vk, KlcLayer::Default) + ligatures_for(s.shift, vk, KlcLayer::Shift)
        + ligatures_for(s.ctrl, vk, KlcLayer::Ctrl) + ligatures_for(s.alt, vk, KlcLayer::Alt)
        + ligatures_for(s.alt_and_shift, vk, KlcLayer::AltAndShift) + if is_sg_cap(s) {
        ligatures_for(s.caps, vk, KlcLayer::Default) + ligatures_for(
            s.caps_and_shift,
            vk,
            KlcLayer::Shift,
        )
    } else {
        seq![]
    }
}

/// The dead key characters of key position `i`, column by column.
pub open spec fn position_dead_keys(s: WindowsLayerSetView) -> Seq<char> {
    dead_keys_for(s.default) + dead_keys_for(s.shift) + dead_keys_for(s.ctrl) + dead_keys_for(s.alt)
        + dead_keys_for(s.alt_and_shift) + if is_sg_cap(s) {
        dead_keys_for(s.caps) + dead_keys_for(s.caps_and_shift)
    } else {
        seq![]
    }
}

/// The ligature rows of the five columns of a position's main row.
pub open spec fn main_ligatures(s: WindowsLayerSetView, vk: Seq<char>) -> Seq<KlcLigatureRowView> {
    ligatures_for(s.default, vk, KlcLayer::Default) + ligatures_for(s.shift, vk, KlcLayer::Shift)
        + ligatures_for(s.ctrl, vk, KlcLayer::Ctrl) + ligatures_for(s.alt, vk, KlcLayer::Alt)
        + ligatures_for(s.alt_and_shift, vk, KlcLayer::AltAndShift)
}

/// The dead key characters of the five columns of a position's main row.
pub open spec fn main_dead_keys(s: WindowsLayerSetView) -> Seq<char> {
    dead_keys_for(s.default) + dead_keys_for(s.shift) + dead_keys_for(s.ctrl) + dead_keys_for(s.alt)
        + dead_keys_for(s.alt_and_shift)
}

fn main_row(
    codes: KlcKeyCodes,
    caps_mode: String,
    layer_set: WindowsLayerSet,
    ligatures: &mut Vec<KlcLigatureRow>,
    dead_key_characters: &mut Vec<char>,
) -> (res: (KlcLayoutRow, Option<WindowsLayerSetKey>, Option<WindowsLayerSetKey>))
    ensures
        res.0@ == (KlcLayoutRowView {
            scancode: codes.scancode@,
            virtual_key: codes.virtual_key@,
            caps_mode: caps_mode@,
            default_key: klc_key_for(layer_set@.default),
            shift_key: klc_key_for(layer_set@.shift),
            ctrl_key: klc_key_for(layer_set@.ctrl),
            alt_key: klc_key_for(layer_set@.alt),
            alt_and_shift_key: klc_key_for(layer_set@.alt_and_shift),
        }),
        key_view(res.1) == layer_set@.caps,
        key_view(res.2) == layer_set@.caps_and_shift,
        final(ligatures)@.map_values(|r: KlcLigatureRow| r@) == old(ligatures)@.map_values(
            |r: KlcLigatureRow| r@,
        ) + main_ligatures(layer_set@, codes.virtual_key@),
        final(dead_key_characters)@ == old(dead_key_characters)@ + main_dead_keys(layer_set@),
{
    let ghost s = layer_set@;
    let ghost ligs0 = ligatures@.map_values(|r: KlcLigatureRow| r@);
    let ghost dead0 = dead_key_characters@;
    let WindowsLayerSet { default, shift, caps, caps_and_shift, alt, alt_and_shift, alt_and_caps: _, ctrl } =
        layer_set;
    let vk = codes.virtual_key.as_str();
    let default_key = convert_to_klc_key(default, vk, KlcLayer::Default, ligatures, dead_key_characters);
    let shift_key = convert_to_klc_key(shift, vk, KlcLayer::Shift, ligatures, dead_key_characters);
    let ctrl_key = convert_to_klc_key(ctrl, vk, KlcLayer::Ctrl, ligatures, dead_key_characters);
    let alt_key = convert_to_klc_key(alt, vk, KlcLayer::Alt, ligatures, dead_key_characters);
    let alt_and_shift_key = convert_to_klc_key(
        alt_and_shift,
        vk,
        KlcLayer::AltAndShift,
        ligatures,
        dead_key_characters,
    );
    assert(ligatures@.map_values(|r: KlcLigatureRow| r@) =~= ligs0 + main_ligatures(s, codes.virtual_key@));
    assert(dead_key_characters@ =~= dead0 + main_dead_keys(s));
    let row = KlcLayoutRow {
        scancode: codes.scancode,
        virtual_key: codes.virtual_key,
        caps_mode,
        default_key,
        shift_key,
        ctrl_key,
        alt_key,
        alt_and_shift_key,
    };
    (row, caps, caps_and_shift)
}

fn emit_position(
    i: usize,
    layers: &Vec<(WindowsKbdLayer, String)>,
    dead_keys: &Option<Vec<(WindowsKbdLayer, Vec<String>)>>,
    rows: &mut Vec<KlcLayoutRow>,
    ligatures: &mut Vec<KlcLigatureRow>,
    dead_key_characters: &mut Vec<char>,
)
    requires
        i < MSKLC_KEY_COUNT,
        windows_layers_usable(layers@),
    ensures
        final(rows)@.map_values(|r: KlcLayoutRow| r@) == old(rows)@.map_values(|r: KlcLayoutRow| r@)
            + position_rows(layer_set_at(layers@, i as int, *dead_keys), i as int),
        final(ligatures)@.map_values(|r: KlcLigatureRow| r@) == old(ligatures)@.map_values(
            |r: KlcLigatureRow| r@,
        ) + position_ligatures(layer_set_at(layers@, i as int, *dead_keys), i as int),
        final(dead_key_characters)@ == old(dead_key_characters)@ + position_dead_keys(
            layer_set_at(layers@, i as int, *dead_keys),
        ),
{
    let codes = msklc_key(i);
    let layer_set = layer_set_for_position(layers, i, dead_keys);
    let ghost s = layer_set@;
    let ghost vkv = msklc_codes(i as int).1@;
    let ghost rows0 = rows@.map_values(|r: KlcLayoutRow| r@);
    let ghost ligs0 = ligatures@.map_values(|r: KlcLigatureRow| r@);
    let ghost dead0 = dead_key_characters@;
    let caps_mode = layer_set.caps_mode();
    let sg_cap = str_eq(caps_mode.as_str(), SG_CAP);
    let vk = codes.virtual_key.clone();
    let (row, caps, caps_and_shift) = main_row(codes, caps_mode, layer_set, ligatures, dead_key_characters);
    rows.push(row);
    if sg_cap {
        let ghost ligs5 = ligatures@.map_values(|r: KlcLigatureRow| r@);
        let ghost dead5 = dead_key_characters@;
        let caps_key = convert_to_klc_key(caps, vk.as_str(), KlcLayer::Default, ligatures, dead_key_characters);
        let caps_shift_key = convert_to_klc_key(
            caps_and_shift,
            vk.as_str(),
            KlcLayer::Shift,
            ligatures,
            dead_key_characters,
        );
        rows.push(
            KlcLayoutRow {
                scancode: "-1".to_owned(),
                virtual_key: "-1".to_owned(),
                caps_mode: "0".to_owned(),
                default_key: caps_key,
                shift_key: caps_shift_key,
                ctrl_key: KlcKey::Skip,
                alt_key: KlcKey::Skip,
                alt_and_shift_key: KlcKey::Skip,
            },
        );
        assert(ligatures@.map_values(|r: KlcLigatureRow| r@) =~= ligs0 + position_ligatures(s, i as int));
        assert(dead_key_characters@ =~= dead0 + position_dead_keys(s));
    } else {
        assert(ligatures@.map_values(|r: KlcLigatureRow| r@) =~= ligs0 + position_ligatures(s, i as int));
        assert(dead_key_characters@ =~= dead0 + position_dead_keys(s));
    }
    assert(rows@.map_values(|r: KlcLayoutRow| r@) =~= rows0 + position_rows(s, i as int));
}

} // verus!

verus! {

/// The layout rows of the key positions before `n`.
pub open spec fn klc_rows_upto(
    layers: Seq<(WindowsKbdLayer, String)>,
    dead_keys: Option<Vec<(WindowsKbdLayer, Vec<String>)>>,
    n: nat,
) -> Seq<KlcLayoutRowView>
    decreases n,
{
    if n == 0 {
        seq![]
    } else {
        klc_rows_upto(layers, dead_keys, (n - 1) as nat) + position_rows(
            layer_set_at(layers, n - 1, dead_keys),
            n - 1,
        )
    }
}

/// The ligature rows of the key positions before `n`.
pub open spec fn klc_ligatures_upto(
    layers: Seq<(WindowsKbdLayer, String)>,
    dead_keys: Option<Vec<(WindowsKbdLayer, Vec<String>)>>,
    n: nat,
) -> Seq<KlcLigatureRowView>
    decreases n,
{
    if n == 0 {
        seq![]
    } else {
        klc_ligatures_upto(layers, dead_keys, (n - 1) as nat) + position_ligatures(
            layer_set_at(layers, n - 1, dead_keys),
            n - 1,
        )
    }
}

/// The dead key characters of the key positions before `n`.
pub open spec fn klc_dead_keys_upto(
    layers: Seq<(WindowsKbdLayer, String)>,
    dead_keys: Option<Vec<(WindowsKbdLayer, Vec<String>)>>,
    n: nat,
) -> Seq<char>
    decreases n,
{
    if n == 0 {
        seq![]
    } else {
        klc_dead_keys_upto(layers, dead_keys, (n - 1) as nat) + position_dead_keys(
            layer_set_at(layers, n - 1, dead_keys),
        )
    }
}

/// The rows of a `.klc` layout: those of each key position, then the space
/// bar's and the keypad decimal key's.
pub open spec fn klc_layout_rows(
    layers: Seq<(WindowsKbdLayer, String)>,
    dead_keys: Option<Vec<(WindowsKbdLayer, Vec<String>)>>,
    decimal: Option<String>,
) -> Seq<KlcLayoutRowView> {
    klc_rows_upto(layers, dead_keys, MSKLC_KEY_COUNT as nat) + seq![space_row(), decimal_row(decimal)]
}

/// The step that writes a `.klc` file for each layout with Windows layers.
pub struct GenerateKlc {}

impl GenerateKlc {
    /// The `.klc` file of a layout: its metadata, a layout row for each key
    /// position (two for an `SGCap` key) followed by the space bar and the
    /// keypad decimal key, the ligatures and dead keys that the rows use, and
    /// the layout's transforms for the dead keys.
    pub fn klc_file<'a>(
        &self,
        metadata: KlcFileMetadata,
        layers: &Vec<(WindowsKbdLayer, String)>,
        dead_keys: &Option<Vec<(WindowsKbdLayer, Vec<String>)>>,
        decimal: &Option<String>,
        transforms: &'a Option<Vec<(String, Transform)>>,
    ) -> (res: KlcFile<'a>)
        requires
            windows_layers_usable(layers@),
            decimal_is_usable(*decimal),
        ensures
            res.metadata == metadata,
            res.layout.rows@.map_values(|r: KlcLayoutRow| r@) == klc_layout_rows(
                layers@,
                *dead_keys,
                *decimal,
            ),
            res.ligature.rows@.map_values(|r: KlcLigatureRow| r@) == klc_ligatures_upto(
                layers@,
                *dead_keys,
                MSKLC_KEY_COUNT as nat,
            ),
            res.dead_keys.characters@ == klc_dead_keys_upto(layers@, *dead_keys, MSKLC_KEY_COUNT as nat),
            res.dead_keys.transforms == transforms,
    {
        let mut rows: Vec<KlcLayoutRow> = Vec::new();
        let mut ligatures: Vec<KlcLigatureRow> = Vec::new();
        let mut dead_key_characters: Vec<char> = Vec::new();
        let mut cursor: usize = 0;
        while cursor < MSKLC_KEY_COUNT
            invariant
                cursor <= MSKLC_KEY_COUNT,
                windows_layers_usable(layers@),
                rows@.map_values(|r: KlcLayoutRow| r@) == klc_rows_upto(layers@, *dead_keys, cursor as nat),
                ligatures@.map_values(|r: KlcLigatureRow| r@) == klc_ligatures_upto(
                    layers@,
                    *dead_keys,
                    cursor as nat,
                ),
                dead_key_characters@ == klc_dead_keys_upto(layers@, *dead_keys, cursor as nat),
            decreases MSKLC_KEY_COUNT - cursor,
        {
            emit_position(cursor, layers, dead_keys, &mut rows, &mut ligatures, &mut dead_key_characters);
            cursor = cursor + 1;
        }
        let ghost before = rows@.map_values(|r: KlcLayoutRow| r@);
        rows.push(space_layout_row());
        rows.push(decimal_layout_row(decimal));
        assert(rows@.map_values(|r: KlcLayoutRow| r@) =~= before + seq![space_row(), decimal_row(*decimal)]);
        KlcFile {
            metadata,
            layout: KlcLayout { rows },
            ligature: KlcLigature { rows: ligatures },
            dead_keys: KlcDeadKeys { characters: dead_key_characters, transforms },
        }
    }
}

} // verus!

verus! {

/// The LCID (Windows language code identifier) that iso639's table gives a
/// language subtag with a script and a region.
pub uninterp spec fn lcid_lookup(
    language: Seq<char>,
    script: Option<Seq<char>>,
    region: Option<Seq<char>>,
) -> Option<u32>;

/// An optional string by value.
pub open spec fn opt_text(o: Option<String>) -> Option<Seq<char>> {
    match o {
        Some(s) => Some(s@),
        None => None,
    }
}

/// Whether a script subtag can be handed to iso639, which upper-cases its
/// first byte: it is unset, or it starts with an ASCII character.
pub open spec fn script_is_ascii_led(script: Option<String>) -> bool {
    script matches Some(s) ==> s@.len() > 0 && (s@[0] as u32) < 0x80
}

/// Looks a language up in iso639's LCID table (`iso639::lcid::get`) and
/// gives the record's LCID. The table and its search are iso639's; nothing
/// is claimed of them but that the same arguments give the same answer.
/// iso639 slices the script's first byte, so the script must start with an
/// ASCII character.
#[verifier::external_body]
fn lookup_lcid(language: &str, script: &Option<String>, region: &Option<String>) -> (res: Option<u32>)
    requires
        script_is_ascii_led(*script),
    ensures
        res == lcid_lookup(language@, opt_text(*script), opt_text(*region)),
{
    match iso639::lcid::get(language, script.as_deref(), region.as_deref()) {
        Some(record) => Some(record.lcid),
        None => None,
    }
}

/// The first `n` characters of `s`, or all of them if it is shorter.
pub open spec fn first_chars(s: Seq<char>, n: nat) -> Seq<char> {
    s.take(if s.len() < n { s.len() as int } else { n as int })
}

/// The name of a layout's keyboard: `kbd` and the configured id, or the first
/// five characters of the language tag.
pub open spec fn keyboard_name_text(tag: Seq<char>, config: Option<WindowsConfig>) -> Seq<char> {
    "kbd"@ + match config {
        Some(WindowsConfig { id: Some(id), .. }) => id@,
        _ => first_chars(tag, 5),
    }
}

/// The locale id of a `.klc` file: the LCID, or `0x2000` (a custom locale)
/// without one.
pub open spec fn locale_id_of(lcid: Option<u32>) -> u32 {
    match lcid {
        Some(id) => id,
        None => 0x2000,
    }
}

/// The locale name of a `.klc` file: the configured locale; otherwise the
/// language tag where it has an LCID, and without one the language, script
/// (`Latn` by default) and region (`001` by default) joined by hyphens.
pub open spec fn locale_name_text(
    parts: LanguageTagParts,
    config: Option<WindowsConfig>,
    lcid: Option<u32>,
) -> Seq<char> {
    match config {
        Some(WindowsConfig { locale: Some(locale), .. }) => locale@,
        _ => match lcid {
            Some(_) => parts.tag@,
            None => parts.primary_language@ + "-"@ + match parts.script {
                Some(script) => script@,
                None => "Latn"@,
            } + "-"@ + match parts.region {
                Some(region) => region@,
                None => "001"@,
            },
        },
    }
}

/// Whether `m` is the metadata of a `.klc` file for the layout whose tag,
/// Windows settings and autonym are given, in a project with the given
/// copyright and organisation, where the language has the LCID `lcid`.
pub open spec fn is_klc_metadata(
    m: KlcFileMetadata,
    parts: LanguageTagParts,
    config: Option<WindowsConfig>,
    autonym: Seq<char>,
    copyright: Seq<char>,
    organisation: Seq<char>,
    lcid: Option<u32>,
) -> bool {
    &&& m.keyboard_name@ == keyboard_name_text(parts.tag@, config)
    &&& m.description@ == autonym
    &&& m.copyright@ == copyright
    &&& m.company@ == organisation
    &&& m.autonym@ == autonym
    &&& m.locale_id == locale_id_of(lcid)
    &&& m.locale_name@ == locale_name_text(parts, config, lcid)
}

fn clone_text(s: &String) -> (res: String)
    ensures
        res@ == s@,
{
    s.as_str().to_string()
}

/// The metadata of a layout's `.klc` file, given the LCID of its language.
pub fn klc_metadata(
    parts: &LanguageTagParts,
    config: &Option<WindowsConfig>,
    autonym: &str,
    copyright: &str,
    organisation: &str,
    lcid: Option<u32>,
) -> (res: KlcFileMetadata)
    ensures
        is_klc_metadata(res, *parts, *config, autonym@, copyright@, organisation@, lcid),
{
    let mut keyboard_name = "kbd".to_owned();
    let configured_id = match config {
        Some(c) => match &c.id {
            Some(id) => Some(clone_text(id)),
            None => None,
        },
        None => None,
    };
    match configured_id {
        Some(id) => {
            keyboard_name.append(id.as_str());
        },
        None => {
            let chars = chars_of(parts.tag.as_str());
            let n: usize = if chars.len() < 5 { chars.len() } else { 5 };
            let ghost start = keyboard_name@;
            let mut i: usize = 0;
            while i < n
                invariant
                    i <= n,
                    n <= chars.len(),
                    chars@ == parts.tag@,
                    keyboard_name@ == start + chars@.take(i as int),
                decreases n - i,
            {
                push_char(&mut keyboard_name, chars[i]);
                assert(keyboard_name@ =~= start + chars@.take(i + 1));
                i = i + 1;
            }
        },
    }
    assert(keyboard_name@ =~= keyboard_name_text(parts.tag@, *config));
    let locale_id: u32 = match lcid {
        Some(id) => id,
        None => 0x2000,
    };
    let configured_locale = match config {
        Some(c) => match &c.locale {
            Some(locale) => Some(clone_text(locale)),
            None => None,
        },
        None => None,
    };
    let locale_name = match configured_locale {
        Some(locale) => locale,
        None => match lcid {
            Some(_) => clone_text(&parts.tag),
            None => {
                let mut s = clone_text(&parts.primary_language);
                s.append("-");
                match &parts.script {
                    Some(script) => s.append(script.as_str()),
                    None => s.append("Latn"),
                }
                s.append("-");
                match &parts.region {
                    Some(region) => s.append(region.as_str()),
                    None => s.append("001"),
                }
                s
            },
        },
    };
    assert(locale_name@ =~= locale_name_text(*parts, *config, lcid));
    KlcFileMetadata {
        keyboard_name,
        description: autonym.to_string(),
        copyright: copyright.to_string(),
        company: organisation.to_string(),
        autonym: autonym.to_string(),
        locale_id,
        locale_name,
    }
}

/// The metadata of a layout's `.klc` file: its keyboard name, the autonym as
/// description and language name, the project's copyright and organisation,
/// and the locale id and name that follow from the LCID table.
pub fn generate_metadata(
    parts: &LanguageTagParts,
    config: &Option<WindowsConfig>,
    autonym: &str,
    copyright: &str,
    organisation: &str,
) -> (res: KlcFileMetadata)
    requires
        script_is_ascii_led(parts.script),
    ensures
        is_klc_metadata(
            res,
            *parts,
            *config,
            autonym@,
            copyright@,
            organisation@,
            lcid_lookup(parts.primary_language@, opt_text(parts.script), opt_text(parts.region)),
        ),
{
    let lcid = lookup_lcid(parts.primary_language.as_str(), &parts.script, &parts.region);
    klc_metadata(parts, config, autonym, copyright, organisation, lcid)
}

/// The name of a `.klc` file: the keyboard's name with the `klc` extension.
pub fn klc_file_name(metadata: &KlcFileMetadata) -> (res: String)
    ensures
        res@ == metadata.keyboard_name@ + "."@ + KLC_EXT@,
{
    let mut s = clone_text(&metadata.keyboard_name);
    s.append(".");
    s.append(KLC_EXT);
    s
}

/// The bytes of a `.klc` file: its text in UTF-16LE after a byte-order mark.
pub fn klc_file_bytes(file: &KlcFile) -> (res: Vec<u8>)
    requires
        dead_keys_writable(file.dead_keys.characters@, *file.dead_keys.transforms),
    ensures
        res@ == utf16_le_bom(utf16_units(klc_file_text(*file))),
{
    let text = file.to_klc_string();
    encode_utf16_le_bom(text.as_str())
}

} // verus!

verus! {

/// The character of a dead key, nothing for any other key.
pub open spec fn key_dead_chars(k: KlcKey) -> Seq<char> {
    match k {
        KlcKey::DeadKey(c) => seq![c],
        _ => seq![],
    }
}

/// One for a ligature key, zero for any other.
pub open spec fn key_ligature_count(k: KlcKey) -> nat {
    if k is Ligature {
        1
    } else {
        0
    }
}

/// The characters of the dead keys of a layout row, column by column.
pub open spec fn row_dead_chars(r: KlcLayoutRowView) -> Seq<char> {
    key_dead_chars(r.default_key) + key_dead_chars(r.shift_key) + key_dead_chars(r.ctrl_key) + key_dead_chars(
        r.alt_key,
    ) + key_dead_chars(r.alt_and_shift_key)
}

/// The number of ligature keys of a layout row.
pub open spec fn row_ligature_count(r: KlcLayoutRowView) -> nat {
    key_ligature_count(r.default_key) + key_ligature_count(r.shift_key) + key_ligature_count(r.ctrl_key)
        + key_ligature_count(r.alt_key) + key_ligature_count(r.alt_and_shift_key)
}

/// The characters of the dead keys of layout rows, row by row and column by
/// column.
pub open spec fn rows_dead_chars(rows: Seq<KlcLayoutRowView>) -> Seq<char>
    decreases rows.len(),
{
    if rows.len() == 0 {
        seq![]
    } else {
        rows_dead_chars(rows.drop_last()) + row_dead_chars(rows.last())
    }
}

/// The number of ligature keys of layout rows.
pub open spec fn rows_ligature_count(rows: Seq<KlcLayoutRowView>) -> nat
    decreases rows.len(),
{
    if rows.len() == 0 {
        0
    } else {
        rows_ligature_count(rows.drop_last()) + row_ligature_count(rows.last())
    }
}

proof fn lemma_rows_concat(a: Seq<KlcLayoutRowView>, b: Seq<KlcLayoutRowView>)
    ensures
        rows_dead_chars(a + b) == rows_dead_chars(a) + rows_dead_chars(b),
        rows_ligature_count(a + b) == rows_ligature_count(a) + rows_ligature_count(b),
    decreases b.len(),
{
    if b.len() == 0 {
        assert(a + b =~= a);
        assert(rows_dead_chars(a) + Seq::<char>::empty() =~= rows_dead_chars(a));
    } else {
        lemma_rows_concat(a, b.drop_last());
        assert((a + b).drop_last() =~= a + b.drop_last());
        assert(rows_dead_chars(a) + rows_dead_chars(b.drop_last()) + row_dead_chars(b.last()) =~= rows_dead_chars(a)
            + (rows_dead_chars(b.drop_last()) + row_dead_chars(b.last())));
    }
}

proof fn lemma_key_emissions(key: Option<(Seq<char>, bool)>, vk: Seq<char>, layer: KlcLayer)
    ensures
        dead_keys_for(key) == key_dead_chars(klc_key_for(key)),
        ligatures_for(key, vk, layer).len() == key_ligature_count(klc_key_for(key)),
{
    reveal(klc_key_for);
    reveal(ligatures_for);
    reveal(dead_keys_for);
}

proof fn lemma_position_emissions(s: WindowsLayerSetView, i: int)
    ensures
        rows_dead_chars(position_rows(s, i)) == position_dead_keys(s),
        rows_ligature_count(position_rows(s, i)) == position_ligatures(s, i).len(),
{
    reveal_with_fuel(rows_dead_chars, 3);
    reveal_with_fuel(rows_ligature_count, 3);
    let vk = msklc_codes(i).1@;
    lemma_key_emissions(s.default, vk, KlcLayer::Default);
    lemma_key_emissions(s.shift, vk, KlcLayer::Shift);
    lemma_key_emissions(s.ctrl, vk, KlcLayer::Ctrl);
    lemma_key_emissions(s.alt, vk, KlcLayer::Alt);
    lemma_key_emissions(s.alt_and_shift, vk, KlcLayer::AltAndShift);
    lemma_key_emissions(s.caps, vk, KlcLayer::Default);
    lemma_key_emissions(s.caps_and_shift, vk, KlcLayer::Shift);
    let rows = position_rows(s, i);
    if is_sg_cap(s) {
        assert(rows.drop_last() =~= seq![rows[0]]);
        assert(seq![rows[0]].drop_last() =~= Seq::<KlcLayoutRowView>::empty());
    } else {
        assert(rows.drop_last() =~= Seq::<KlcLayoutRowView>::empty());
    }
    assert(rows_dead_chars(rows) =~= position_dead_keys(s));
}

proof fn lemma_positions_emissions(
    layers: Seq<(WindowsKbdLayer, String)>,
    dead_keys: Option<Vec<(WindowsKbdLayer, Vec<String>)>>,
    n: nat,
)
    ensures
        rows_dead_chars(klc_rows_upto(layers, dead_keys, n)) == klc_dead_keys_upto(layers, dead_keys, n),
        rows_ligature_count(klc_rows_upto(layers, dead_keys, n)) == klc_ligatures_upto(layers, dead_keys, n).len(),
    decreases n,
{
    if n > 0 {
        lemma_positions_emissions(layers, dead_keys, (n - 1) as nat);
        let s = layer_set_at(layers, n - 1, dead_keys);
        lemma_position_emissions(s, n - 1);
        lemma_rows_concat(klc_rows_upto(layers, dead_keys, (n - 1) as nat), position_rows(s, n - 1));
    }
}

/// The dead keys and ligatures of a `.klc` file match its layout: the
/// `DEADKEY` sections are those of the layout's dead keys, in the order the
/// rows and columns give them, and there is one `LIGATURE` row for each
/// ligature key (`%%`) of the layout.
pub proof fn lemma_klc_sections_match_layout(
    layers: Seq<(WindowsKbdLayer, String)>,
    dead_keys: Option<Vec<(WindowsKbdLayer, Vec<String>)>>,
    decimal: Option<String>,
)
    ensures
        klc_dead_keys_upto(layers, dead_keys, MSKLC_KEY_COUNT as nat) == rows_dead_chars(
            klc_layout_rows(layers, dead_keys, decimal),
        ),
        klc_ligatures_upto(layers, dead_keys, MSKLC_KEY_COUNT as nat).len() == rows_ligature_count(
            klc_layout_rows(layers, dead_keys, decimal),
        ),
{
    reveal_with_fuel(rows_dead_chars, 3);
    reveal_with_fuel(rows_ligature_count, 3);
    lemma_positions_emissions(layers, dead_keys, MSKLC_KEY_COUNT as nat);
    let tail = seq![space_row(), decimal_row(decimal)];
    lemma_rows_concat(klc_rows_upto(layers, dead_keys, MSKLC_KEY_COUNT as nat), tail);
    assert(tail.drop_last() =~= seq![space_row()]);
    assert(seq![space_row()].drop_last() =~= Seq::<KlcLayoutRowView>::empty());
    assert(rows_dead_chars(tail) =~= Seq::<char>::empty());
    assert(rows_dead_chars(klc_rows_upto(layers, dead_keys, MSKLC_KEY_COUNT as nat)) + Seq::<char>::empty()
        =~= rows_dead_chars(klc_rows_upto(layers, dead_keys, MSKLC_KEY_COUNT as nat)));
}

} // verus!
