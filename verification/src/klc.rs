//! The Windows `.klc` keyboard layout text: its keys, layout rows,
//! ligatures, dead keys and the file around them.

use vstd::prelude::*;

use crate::layout::{Transform, first_key_index, lemma_first_key_index, find_key};
use crate::text::{
    char_utf16, chars_of, encode_utf16, hex, push_char, str_eq, string_from_chars, u64_to_decimal,
    u64_to_padded_hex, utf16_units, zero_pad, decimal,
};

verus! {

/// The name extension of `.klc` files.
pub const KLC_EXT: &'static str = "klc";

/// A key in a layout row.
#[derive(Clone, Copy, Debug, PartialEq, Eq, Structural)]
pub enum KlcKey {
    Character(char),
    DeadKey(char),
    Ligature,
    Empty,
    Skip,
}

/// Whether `c` is printed as itself in a `.klc` file: a graphic ASCII
/// character.
pub open spec fn is_ascii_graphic(c: char) -> bool {
    0x21 <= c as u32 && c as u32 <= 0x7e
}

/// The UTF-16 code units `units`, each in four lower-case hex digits, one
/// after the other.
pub open spec fn units_hex(units: Seq<u16>) -> Seq<char>
    decreases units.len(),
{
    if units.len() == 0 {
        seq![]
    } else {
        units_hex(units.drop_last()) + zero_pad(hex(units.last() as nat), 4)
    }
}

/// How a character is written in a `.klc` file: a graphic ASCII character as
/// itself, any other as its UTF-16 representation, each code unit in four
/// lower-case hex digits.
pub open spec fn klc_char_text(c: char) -> Seq<char> {
    if is_ascii_graphic(c) {
        seq![c]
    } else {
        units_hex(char_utf16(c))
    }
}

/// How a key is written in a layout row.
pub open spec fn klc_key_text(k: KlcKey) -> Seq<char> {
    match k {
        KlcKey::Character(c) => klc_char_text(c),
        KlcKey::DeadKey(c) => klc_char_text(c).push('@'),
        KlcKey::Ligature => "%%"@,
        KlcKey::Empty => "-1"@,
        KlcKey::Skip => seq![],
    }
}

/// Writes a character as a `.klc` file does.
pub fn display_klc_character(character: char) -> (res: String)
    ensures
        res@ == klc_char_text(character),
{
    let v = character as u32;
    if 0x21 <= v && v <= 0x7e {
        let mut s = String::new();
        push_char(&mut s, character);
        s
    } else if v <= 0xffff {
        let s = u64_to_padded_hex(v as u64, 4);
        proof {
            let units = char_utf16(character);
            assert(units =~= seq![v as u16]);
            assert(units.drop_last() =~= Seq::<u16>::empty());
            assert(units_hex(units) =~= units_hex(Seq::<u16>::empty()) + zero_pad(hex(v as nat), 4));
        }
        s
    } else {
        let w = v - 0x10000;
        let high = 0xd800 + w / 1024;
        let low = 0xdc00 + w % 1024;
        let mut s = u64_to_padded_hex(high as u64, 4);
        let t = u64_to_padded_hex(low as u64, 4);
        s.append(t.as_str());
        proof {
            let units = char_utf16(character);
            assert(units =~= seq![high as u16, low as u16]);
            let first = units.drop_last();
            assert(first =~= seq![high as u16]);
            assert(first.drop_last() =~= Seq::<u16>::empty());
            assert(units_hex(first) =~= units_hex(Seq::<u16>::empty()) + zero_pad(hex(high as nat), 4));
            assert(units_hex(units) =~= units_hex(first) + zero_pad(hex(low as nat), 4));
        }
        s
    }
}

impl KlcKey {
    /// The key as a layout row writes it.
    pub fn to_klc_string(&self) -> (res: String)
        ensures
            res@ == klc_key_text(*self),
    {
        match self {
            KlcKey::Character(c) => display_klc_character(*c),
            KlcKey::DeadKey(c) => {
                let mut s = display_klc_character(*c);
                push_char(&mut s, '@');
                s
            },
            KlcKey::Ligature => "%%".to_owned(),
            KlcKey::Empty => "-1".to_owned(),
            KlcKey::Skip => String::new(),
        }
    }
}

/// Whether every character of `key` is in the Basic Multilingual Plane, which
/// is all that a `.klc` file can hold.
pub open spec fn klc_representable(key: Seq<char>) -> bool {
    forall|i: int| 0 <= i < key.len() ==> #[trigger] key[i] as u32 <= 0xffff
}

/// Checks that a key can be written to a `.klc` file; a key with a character
/// beyond the Basic Multilingual Plane cannot.
pub fn validate_for_klc(key: &str)
    requires
        klc_representable(key@),
{
}

/// Whether `key` can be written to a `.klc` file, character by character.
pub fn is_klc_representable(key: &str) -> (res: bool)
    ensures
        res == klc_representable(key@),
{
    let chars = chars_of(key);
    let mut i: usize = 0;
    while i < chars.len()
        invariant
            i <= chars.len(),
            chars@ == key@,
            forall|j: int| 0 <= j < i ==> #[trigger] chars@[j] as u32 <= 0xffff,
        decreases chars.len() - i,
    {
        if chars[i] as u32 > 0xffff {
            return false;
        }
        i = i + 1;
    }
    true
}

/// The shift states of the columns of a layout row.
#[derive(Clone, Copy, Debug, PartialEq, Eq, Structural)]
pub enum KlcLayer {
    Default,
    Shift,
    Ctrl,
    Alt,
    AltAndShift,
}

/// The number of a column of a layout row: its position.
pub open spec fn klc_layer_number(layer: KlcLayer) -> nat {
    match layer {
        KlcLayer::Default => 0,
        KlcLayer::Shift => 1,
        KlcLayer::Ctrl => 2,
        KlcLayer::Alt => 3,
        KlcLayer::AltAndShift => 4,
    }
}

/// The number of a column of a layout row.
pub fn klc_layer_index(layer: KlcLayer) -> (res: u64)
    ensures
        res == klc_layer_number(layer),
{
    match layer {
        KlcLayer::Default => 0,
        KlcLayer::Shift => 1,
        KlcLayer::Ctrl => 2,
        KlcLayer::Alt => 3,
        KlcLayer::AltAndShift => 4,
    }
}

/// A row of the `LAYOUT` section: a key's scan code, virtual key, caps mode
/// and what it types in each column.
#[derive(Debug)]
pub struct KlcLayoutRow {
    pub scancode: String,
    pub virtual_key: String,
    pub caps_mode: String,
    pub default_key: KlcKey,
    pub shift_key: KlcKey,
    pub ctrl_key: KlcKey,
    pub alt_key: KlcKey,
    pub alt_and_shift_key: KlcKey,
}

/// A layout row by value.
pub struct KlcLayoutRowView {
    pub scancode: Seq<char>,
    pub virtual_key: Seq<char>,
    pub caps_mode: Seq<char>,
    pub default_key: KlcKey,
    pub shift_key: KlcKey,
    pub ctrl_key: KlcKey,
    pub alt_key: KlcKey,
    pub alt_and_shift_key: KlcKey,
}

impl View for KlcLayoutRow {
    type V = KlcLayoutRowView;

    open spec fn view(&self) -> KlcLayoutRowView {
        KlcLayoutRowView {
            scancode: self.scancode@,
            virtual_key: self.virtual_key@,
            caps_mode: self.caps_mode@,
            default_key: self.default_key,
            shift_key: self.shift_key,
            ctrl_key: self.ctrl_key,
            alt_key: self.alt_key,
            alt_and_shift_key: self.alt_and_shift_key,
        }
    }
}

/// A layout row's text: its fields separated by tabs, ending the line.
pub open spec fn layout_row_text(r: KlcLayoutRow) -> Seq<char> {
    r.scancode@ + "\t"@ + r.virtual_key@ + "\t"@ + r.caps_mode@ + "\t"@ + klc_key_text(r.default_key)
        + "\t"@ + klc_key_text(r.shift_key) + "\t"@ + klc_key_text(r.ctrl_key) + "\t"@ + klc_key_text(
        r.alt_key,
    ) + "\t"@ + klc_key_text(r.alt_and_shift_key) + "\n"@
}

fn append_key(s: &mut String, k: &KlcKey)
    ensures
        final(s)@ == old(s)@ + "\t"@ + klc_key_text(*k),
{
    s.append("\t");
    let t = k.to_klc_string();
    s.append(t.as_str());
}

impl KlcLayoutRow {
    /// The row as the `LAYOUT` section writes it.
    pub fn to_klc_string(&self) -> (res: String)
        ensures
            res@ == layout_row_text(*self),
    {
        let mut s = String::new();
        s.append(self.scancode.as_str());
        s.append("\t");
        s.append(self.virtual_key.as_str());
        s.append("\t");
        s.append(self.caps_mode.as_str());
        append_key(&mut s, &self.default_key);
        append_key(&mut s, &self.shift_key);
        append_key(&mut s, &self.ctrl_key);
        append_key(&mut s, &self.alt_key);
        append_key(&mut s, &self.alt_and_shift_key);
        s.append("\n");
        assert(s@ =~= layout_row_text(*self));
        s
    }
}

/// The `SHIFTSTATE` and `LAYOUT` sections.
#[derive(Debug)]
pub struct KlcLayout {
    pub rows: Vec<KlcLayoutRow>,
}

/// The text of layout rows, one after the other.
pub open spec fn layout_rows_text(rows: Seq<KlcLayoutRow>) -> Seq<char>
    decreases rows.len(),
{
    if rows.len() == 0 {
        seq![]
    } else {
        layout_rows_text(rows.drop_last()) + layout_row_text(rows.last())
    }
}

/// The header of the layout: the five shift states of the columns.
pub open spec fn shift_state_header() -> Seq<char> {
    "SHIFTSTATE\n\n"@ + "0 // 4\n"@ + "1 // 5 Shift\n"@ + "2 // 6 Ctrl\n"@ + "6 // 7 Alt\n"@
        + "7 // 8 Alt + Shift\n\n"@ + "LAYOUT\n\n"@
}

/// The text of the layout sections: the shift states, the rows, a blank line.
pub open spec fn layout_text(rows: Seq<KlcLayoutRow>) -> Seq<char> {
    shift_state_header() + layout_rows_text(rows) + "\n"@
}

impl KlcLayout {
    /// The layout sections as a `.klc` file writes them.
    pub fn to_klc_string(&self) -> (res: String)
        ensures
            res@ == layout_text(self.rows@),
    {
        let mut s = String::new();
        s.append("SHIFTSTATE\n\n");
        s.append("0 // 4\n");
        s.append("1 // 5 Shift\n");
        s.append("2 // 6 Ctrl\n");
        s.append("6 // 7 Alt\n");
        s.append("7 // 8 Alt + Shift\n\n");
        s.append("LAYOUT\n\n");
        assert(s@ =~= shift_state_header());
        let mut i: usize = 0;
        while i < self.rows.len()
            invariant
                i <= self.rows.len(),
                s@ == shift_state_header() + layout_rows_text(self.rows@.take(i as int)),
            decreases self.rows.len() - i,
        {
            let row = self.rows[i].to_klc_string();
            s.append(row.as_str());
            assert(self.rows@.take(i + 1).drop_last() =~= self.rows@.take(i as int));
            assert(s@ =~= shift_state_header() + layout_rows_text(self.rows@.take(i + 1)));
            i = i + 1;
        }
        assert(self.rows@.take(i as int) =~= self.rows@);
        s.append("\n");
        s
    }
}

/// A row of the `LIGATURE` section: a key that types several UTF-16 units.
#[derive(Debug)]
pub struct KlcLigatureRow {
    pub virtual_key: String,
    pub shift_state: String,
    pub utf16s: Vec<u16>,
}

/// A ligature row by value.
pub struct KlcLigatureRowView {
    pub virtual_key: Seq<char>,
    pub shift_state: Seq<char>,
    pub utf16s: Seq<u16>,
}

impl View for KlcLigatureRow {
    type V = KlcLigatureRowView;

    open spec fn view(&self) -> KlcLigatureRowView {
        KlcLigatureRowView {
            virtual_key: self.virtual_key@,
            shift_state: self.shift_state@,
            utf16s: self.utf16s@,
        }
    }
}

/// The `LIGATURE` section.
#[derive(Debug)]
pub struct KlcLigature {
    pub rows: Vec<KlcLigatureRow>,
}

/// The units of a ligature, each after a tab, in at least four hex digits.
pub open spec fn units_text(units: Seq<u16>) -> Seq<char>
    decreases units.len(),
{
    if units.len() == 0 {
        seq![]
    } else {
        units_text(units.drop_last()) + "\t"@ + zero_pad(hex(units.last() as nat), 4)
    }
}

/// A ligature row's text.
pub open spec fn ligature_row_text(r: KlcLigatureRow) -> Seq<char> {
    r.virtual_key@ + "\t"@ + r.shift_state@ + units_text(r.utf16s@) + "\n"@
}

/// The text of ligature rows, one after the other.
pub open spec fn ligature_rows_text(rows: Seq<KlcLigatureRow>) -> Seq<char>
    decreases rows.len(),
{
    if rows.len() == 0 {
        seq![]
    } else {
        ligature_rows_text(rows.drop_last()) + ligature_row_text(rows.last())
    }
}

/// The `LIGATURE` section's text: nothing when there are no ligatures.
pub open spec fn ligature_text(rows: Seq<KlcLigatureRow>) -> Seq<char> {
    if rows.len() == 0 {
        seq![]
    } else {
        "LIGATURE\n\n"@ + ligature_rows_text(rows) + "\n"@
    }
}

fn ligature_row_string(r: &KlcLigatureRow) -> (res: String)
    ensures
        res@ == ligature_row_text(*r),
{
    let mut s = String::new();
    s.append(r.virtual_key.as_str());
    s.append("\t");
    s.append(r.shift_state.as_str());
    let ghost prefix = s@;
    let mut i: usize = 0;
    while i < r.utf16s.len()
        invariant
            i <= r.utf16s.len(),
            s@ == prefix + units_text(r.utf16s@.take(i as int)),
        decreases r.utf16s.len() - i,
    {
        s.append("\t");
        let h = u64_to_padded_hex(r.utf16s[i] as u64, 4);
        s.append(h.as_str());
        assert(r.utf16s@.take(i + 1).drop_last() =~= r.utf16s@.take(i as int));
        assert(s@ =~= prefix + units_text(r.utf16s@.take(i + 1)));
        i = i + 1;
    }
    assert(r.utf16s@.take(i as int) =~= r.utf16s@);
    s.append("\n");
    assert(s@ =~= ligature_row_text(*r));
    s
}

impl KlcLigature {
    /// The `LIGATURE` section as a `.klc` file writes it.
    pub fn to_klc_string(&self) -> (res: String)
        ensures
            res@ == ligature_text(self.rows@),
    {
        if self.rows.len() == 0 {
            return String::new();
        }
        let mut s = String::new();
        s.append("LIGATURE\n\n");
        let mut i: usize = 0;
        while i < self.rows.len()
            invariant
                i <= self.rows.len(),
                s@ == "LIGATURE\n\n"@ + ligature_rows_text(self.rows@.take(i as int)),
            decreases self.rows.len() - i,
        {
            let row = ligature_row_string(&self.rows[i]);
            s.append(row.as_str());
            assert(self.rows@.take(i + 1).drop_last() =~= self.rows@.take(i as int));
            assert(s@ =~= "LIGATURE\n\n"@ + ligature_rows_text(self.rows@.take(i + 1)));
            i = i + 1;
        }
        assert(self.rows@.take(i as int) =~= self.rows@);
        s.append("\n");
        s
    }
}


/// Whether a transform from `from` to `to` can be written: both are in the
/// Basic Multilingual Plane, and unless one of them is longer than one UTF-16
/// unit (then the line is skipped), neither is empty.
pub open spec fn transform_writable(from: Seq<char>, to: Seq<char>) -> bool {
    &&& klc_representable(from)
    &&& klc_representable(to)
    &&& (utf16_units(from).len() > 1 || utf16_units(to).len() > 1 || (utf16_units(from).len() == 1
        && utf16_units(to).len() == 1))
}

/// The line of a dead-key transform: the UTF-16 units of `from` and `to` in at
/// least four hex digits, separated by a tab; nothing when either is longer
/// than one unit.
pub open spec fn transform_line(from: Seq<char>, to: Seq<char>) -> Seq<char> {
    let f = utf16_units(from);
    let t = utf16_units(to);
    if f.len() > 1 || t.len() > 1 {
        seq![]
    } else {
        zero_pad(hex(f[0] as nat), 4) + "\t"@ + zero_pad(hex(t[0] as nat), 4) + "\n"@
    }
}

/// Writes the line of a dead-key transform.
pub fn write_transform(from: &str, to: &str) -> (res: String)
    requires
        transform_writable(from@, to@),
    ensures
        res@ == transform_line(from@, to@),
{
    validate_for_klc(from);
    validate_for_klc(to);
    let from_16s = encode_utf16(from);
    let to_16s = encode_utf16(to);
    if from_16s.len() > 1 || to_16s.len() > 1 {
        return String::new();
    }
    let mut s = u64_to_padded_hex(from_16s[0] as u64, 4);
    s.append("\t");
    let t = u64_to_padded_hex(to_16s[0] as u64, 4);
    s.append(t.as_str());
    s.append("\n");
    s
}

/// The lines of the entries of a dead key's transform other than the escape
/// `" "`, in order.
pub open spec fn next_key_lines(map: Seq<(String, Transform)>) -> Seq<char>
    decreases map.len(),
{
    if map.len() == 0 {
        seq![]
    } else {
        next_key_lines(map.drop_last()) + (if map.last().0@ == " "@ {
            seq![]
        } else {
            match map.last().1 {
                Transform::End(e) => transform_line(map.last().0@, e@),
                Transform::More(_) => seq![],
            }
        })
    }
}

/// The line of the escape entry of a dead key's transform.
pub open spec fn escape_line(map: Seq<(String, Transform)>) -> Seq<char> {
    match first_key_index(map, " "@) {
        Some(e) => match map[e].1 {
            Transform::End(t) => transform_line(" "@, t@),
            Transform::More(_) => seq![],
        },
        None => seq![],
    }
}

/// Whether the transform of a dead key can be written: its entries other than
/// the escape end in text that can be written, and the escape entry exists and
/// ends in text that can be written.
pub open spec fn dead_key_map_writable(map: Seq<(String, Transform)>) -> bool {
    &&& forall|j: int|
        0 <= j < map.len() && #[trigger] map[j].0@ != " "@ ==> (map[j].1 matches Transform::End(e)
            && transform_writable(map[j].0@, e@))
    &&& first_key_index(map, " "@) matches Some(e) && (map[e].1 matches Transform::End(t)
        && transform_writable(" "@, t@))
}

/// The `DEADKEY` block of the dead key `c`: its code point, the lines of its
/// transform, if the transforms give it next keys, and a blank line.
pub open spec fn dead_key_block(c: char, transforms: Seq<(String, Transform)>) -> Seq<char> {
    "DEADKEY "@ + zero_pad(hex(c as u32 as nat), 4) + "\n\n"@ + (match first_key_index(
        transforms,
        seq![c],
    ) {
        Some(i) => match transforms[i].1 {
            Transform::End(_) => seq![],
            Transform::More(map) => next_key_lines(map@) + escape_line(map@),
        },
        None => seq![],
    }) + "\n"@
}

/// Whether the block of the dead key `c` can be written.
pub open spec fn dead_key_writable(c: char, transforms: Seq<(String, Transform)>) -> bool {
    first_key_index(transforms, seq![c]) matches Some(i) ==> (transforms[i].1 matches Transform::More(
        map,
    ) ==> dead_key_map_writable(map@))
}

/// The blocks of dead keys, one after the other.
pub open spec fn dead_key_blocks(chars: Seq<char>, transforms: Seq<(String, Transform)>) -> Seq<char>
    decreases chars.len(),
{
    if chars.len() == 0 {
        seq![]
    } else {
        dead_key_blocks(chars.drop_last(), transforms) + dead_key_block(chars.last(), transforms)
    }
}

/// The dead keys of a layout, and the transforms that give their next keys.
#[derive(Debug)]
pub struct KlcDeadKeys<'a> {
    pub characters: Vec<char>,
    pub transforms: &'a Option<Vec<(String, Transform)>>,
}

/// The `DEADKEY` sections: nothing without dead keys or without transforms.
pub open spec fn dead_keys_text(chars: Seq<char>, transforms: Option<Vec<(String, Transform)>>) -> Seq<
    char,
> {
    if chars.len() == 0 {
        seq![]
    } else {
        match transforms {
            Some(ts) => dead_key_blocks(chars, ts@),
            None => seq![],
        }
    }
}

/// Whether the `DEADKEY` sections can be written.
pub open spec fn dead_keys_writable(chars: Seq<char>, transforms: Option<Vec<(String, Transform)>>) -> bool {
    transforms matches Some(ts) ==> forall|k: int| 0 <= k < chars.len() ==> dead_key_writable(#[trigger] chars[k], ts@)
}

fn transform_is_writable(from: &str, to: &str) -> (res: bool)
    ensures
        res == transform_writable(from@, to@),
{
    if !is_klc_representable(from) || !is_klc_representable(to) {
        return false;
    }
    let f = encode_utf16(from);
    let t = encode_utf16(to);
    f.len() > 1 || t.len() > 1 || (f.len() == 1 && t.len() == 1)
}

fn dead_key_map_is_writable(map: &Vec<(String, Transform)>) -> (res: bool)
    ensures
        res == dead_key_map_writable(map@),
{
    let mut j: usize = 0;
    while j < map.len()
        invariant
            j <= map.len(),
            forall|k: int|
                0 <= k < j && #[trigger] map@[k].0@ != " "@ ==> (map@[k].1 matches Transform::End(e)
                    && transform_writable(map@[k].0@, e@)),
        decreases map.len() - j,
    {
        if !str_eq(map[j].0.as_str(), " ") {
            match &map[j].1 {
                Transform::End(e) => {
                    if !transform_is_writable(map[j].0.as_str(), e.as_str()) {
                        return false;
                    }
                },
                Transform::More(_) => {
                    return false;
                },
            }
        }
        j = j + 1;
    }
    proof {
        lemma_first_key_index(map@, " "@);
    }
    match find_key(map, " ") {
        Some(e) => match &map[e].1 {
            Transform::End(t) => transform_is_writable(" ", t.as_str()),
            Transform::More(_) => false,
        },
        None => false,
    }
}

/// Whether the `DEADKEY` sections of these dead keys can be written, computed.
pub fn dead_keys_are_writable(chars: &Vec<char>, transforms: &Option<Vec<(String, Transform)>>) -> (res: bool)
    ensures
        res == dead_keys_writable(chars@, *transforms),
{
    match transforms {
        None => true,
        Some(ts) => {
            let mut k: usize = 0;
            while k < chars.len()
                invariant
                    k <= chars.len(),
                    *transforms == Some(*ts),
                    forall|m: int| 0 <= m < k ==> dead_key_writable(#[trigger] chars@[m], ts@),
                decreases chars.len() - k,
            {
                let mut key = String::new();
                push_char(&mut key, chars[k]);
                assert(key@ =~= seq![chars@[k as int]]);
                proof {
                    lemma_first_key_index(ts@, key@);
                }
                let found = find_key(ts, key.as_str());
                let n = ts.len();
                match found {
                    Some(i) => match &ts[i].1 {
                        Transform::More(map) => {
                            if !dead_key_map_is_writable(map) {
                                assert(ts@[i as int].1 == Transform::More(*map));
                                assert(!dead_key_writable(chars@[k as int], ts@));
                                return false;
                            }
                        },
                        Transform::End(_) => {},
                    },
                    None => {},
                }
                k = k + 1;
            }
            true
        },
    }
}

fn next_key_lines_string(map: &Vec<(String, Transform)>) -> (res: String)
    requires
        dead_key_map_writable(map@),
    ensures
        res@ == next_key_lines(map@),
{
    let mut s = String::new();
    let mut j: usize = 0;
    while j < map.len()
        invariant
            j <= map.len(),
            dead_key_map_writable(map@),
            s@ == next_key_lines(map@.take(j as int)),
        decreases map.len() - j,
    {
        assert(map@.take(j + 1).drop_last() =~= map@.take(j as int));
        assert(map@.take(j + 1).last() == map@[j as int]);
        if !str_eq(map[j].0.as_str(), " ") {
            match &map[j].1 {
                Transform::End(e) => {
                    let line = write_transform(map[j].0.as_str(), e.as_str());
                    s.append(line.as_str());
                },
                Transform::More(_) => {
                    assert(false);
                },
            }
        }
        j = j + 1;
    }
    assert(map@.take(j as int) =~= map@);
    s
}

fn dead_key_block_string(c: char, transforms: &Vec<(String, Transform)>) -> (res: String)
    requires
        dead_key_writable(c, transforms@),
    ensures
        res@ == dead_key_block(c, transforms@),
{
    let mut s = "DEADKEY ".to_owned();
    let h = u64_to_padded_hex(c as u32 as u64, 4);
    s.append(h.as_str());
    s.append("\n\n");
    let mut key = String::new();
    push_char(&mut key, c);
    let found = find_key(transforms, key.as_str());
    proof {
        lemma_first_key_index(transforms@, seq![c]);
        assert(key@ =~= seq![c]);
    }
    let n = transforms.len();
    match found {
        Some(i) => {
            match &transforms[i].1 {
                Transform::End(_) => {},
                Transform::More(map) => {
                    let lines = next_key_lines_string(map);
                    s.append(lines.as_str());
                    let e = find_key(map, " ");
                    proof {
                        lemma_first_key_index(map@, " "@);
                    }
                    let m = map.len();
                    match e {
                        Some(e) => match &map[e].1 {
                            Transform::End(t) => {
                                let line = write_transform(" ", t.as_str());
                                s.append(line.as_str());
                            },
                            Transform::More(_) => {
                                assert(false);
                            },
                        },
                        None => {
                            assert(false);
                        },
                    }
                },
            }
        },
        None => {},
    }
    s.append("\n");
    s
}

impl<'a> KlcDeadKeys<'a> {
    /// The `DEADKEY` sections as a `.klc` file writes them.
    pub fn to_klc_string(&self) -> (res: String)
        requires
            dead_keys_writable(self.characters@, *self.transforms),
        ensures
            res@ == dead_keys_text(self.characters@, *self.transforms),
    {
        if self.characters.len() == 0 {
            return String::new();
        }
        match self.transforms {
            Some(transforms) => {
                let mut s = String::new();
                let mut k: usize = 0;
                while k < self.characters.len()
                    invariant
                        k <= self.characters.len(),
                        forall|kk: int| 0 <= kk < self.characters.len() ==> dead_key_writable(
                            #[trigger] self.characters@[kk],
                            transforms@,
                        ),
                        s@ == dead_key_blocks(self.characters@.take(k as int), transforms@),
                    decreases self.characters.len() - k,
                {
                    let block = dead_key_block_string(self.characters[k], transforms);
                    s.append(block.as_str());
                    assert(self.characters@.take(k + 1).drop_last() =~= self.characters@.take(k as int));
                    k = k + 1;
                }
                assert(self.characters@.take(k as int) =~= self.characters@);
                s
            },
            None => String::new(),
        }
    }
}

/// What a `.klc` file says of the keyboard besides its keys.
#[derive(Debug)]
pub struct KlcFileMetadata {
    pub keyboard_name: String,
    pub description: String,
    pub copyright: String,
    pub company: String,
    pub autonym: String,
    pub locale_id: u32,
    pub locale_name: String,
}

/// A whole `.klc` file.
#[derive(Debug)]
pub struct KlcFile<'a> {
    pub metadata: KlcFileMetadata,
    pub layout: KlcLayout,
    pub ligature: KlcLigature,
    pub dead_keys: KlcDeadKeys<'a>,
}

pub const FOOTER_CONTENT: &'static str = r#"
KEYNAME

01	Esc
0e	Backspace
0f	Tab
1c	Enter
1d	Ctrl
2a	Shift
36	"Right Shift"
37	"Num *"
38	Alt
39	Space
3a	"Caps Lock"
3b	F1
3c	F2
3d	F3
3e	F4
3f	F5
40	F6
41	F7
42	F8
43	F9
44	F10
45	Pause
46	"Scroll Lock"
47	"Num 7"
48	"Num 8"
49	"Num 9"
4a	"Num -"
4b	"Num 4"
4c	"Num 5"
4d	"Num 6"
4e	"Num +"
4f	"Num 1"
50	"Num 2"
51	"Num 3"
52	"Num 0"
53	"Num Del"
54	"Sys Req"
57	F11
58	F12
7c	F13
7d	F14
7e	F15
7f	F16
80	F17
81	F18
82	F19
83	F20
84	F21
85	F22
86	F23
87	F24

KEYNAME_EXT

1c	"Num Enter"
1d	"Right Ctrl"
35	"Num /"
37	"Prnt Scrn"
38	"Right Alt"
45	"Num Lock"
46	Break
47	Home
48	Up
49	"Page Up"
4b	Left
4d	Right
4f	End
50	Down
51	"Page Down"
52	Insert
53	Delete
54	<00>
56	Help
5b	"Left Windows"
5c	"Right Windows"
5d	Application
"#;

/// The text of a `.klc` file: the keyboard's name and description, copyright,
/// company, locale name and id, the version, the layout, ligatures and dead
/// keys, the key names, and the description and language name under the
/// locale id.
pub open spec fn klc_file_text(f: KlcFile) -> Seq<char> {
    let m = f.metadata;
    "KBD\t"@ + m.keyboard_name@ + "\t\""@ + m.description@ + "\"\n\n"@ + "COPYRIGHT\t\""@ + m.copyright@
        + "\"\n\n"@ + "COMPANY\t\""@ + m.company@ + "\"\n\n"@ + "LOCALENAME\t\""@ + m.locale_name@
        + "\"\n\n"@ + "LOCALEID\t\""@ + zero_pad(hex(m.locale_id as nat), 8) + "\"\n\n"@
        + "VERSION\t1.0\n\n"@ + layout_text(f.layout.rows@) + ligature_text(f.ligature.rows@)
        + dead_keys_text(f.dead_keys.characters@, *f.dead_keys.transforms) + FOOTER_CONTENT@
        + "\nDESCRIPTIONS\n\n"@ + zero_pad(hex(m.locale_id as nat), 4) + "\t"@ + m.description@ + "\n\n"@
        + "LANGUAGENAMES\n\n"@ + zero_pad(hex(m.locale_id as nat), 4) + "\t"@ + m.autonym@ + "\n\n"@
        + "ENDKBD\n"@
}

impl<'a> KlcFile<'a> {
    /// The file as text.
    pub fn to_klc_string(&self) -> (res: String)
        requires
            dead_keys_writable(self.dead_keys.characters@, *self.dead_keys.transforms),
        ensures
            res@ == klc_file_text(*self),
    {
        let m = &self.metadata;
        let mut s = "KBD\t".to_owned();
        s.append(m.keyboard_name.as_str());
        s.append("\t\"");
        s.append(m.description.as_str());
        s.append("\"\n\n");
        s.append("COPYRIGHT\t\"");
        s.append(m.copyright.as_str());
        s.append("\"\n\n");
        s.append("COMPANY\t\"");
        s.append(m.company.as_str());
        s.append("\"\n\n");
        s.append("LOCALENAME\t\"");
        s.append(m.locale_name.as_str());
        s.append("\"\n\n");
        s.append("LOCALEID\t\"");
        let id8 = u64_to_padded_hex(m.locale_id as u64, 8);
        s.append(id8.as_str());
        s.append("\"\n\n");
        s.append("VERSION\t1.0\n\n");
        let layout = self.layout.to_klc_string();
        s.append(layout.as_str());
        let ligature = self.ligature.to_klc_string();
        s.append(ligature.as_str());
        let dead_keys = self.dead_keys.to_klc_string();
        s.append(dead_keys.as_str());
        s.append(FOOTER_CONTENT);
        s.append("\nDESCRIPTIONS\n\n");
        let id4 = u64_to_padded_hex(m.locale_id as u64, 4);
        s.append(id4.as_str());
        s.append("\t");
        s.append(m.description.as_str());
        s.append("\n\n");
        s.append("LANGUAGENAMES\n\n");
        s.append(id4.as_str());
        s.append("\t");
        s.append(m.autonym.as_str());
        s.append("\n\n");
        s.append("ENDKBD\n");
        assert(s@ =~= klc_file_text(*self));
        s
    }
}

} // verus!

verus! {

/// A row of the first `.klc` generator's layout: a key's scan code, virtual
/// key, caps mode and the characters of its default and shift layers.
#[derive(Debug)]
pub struct KlcRow {
    pub scancode: String,
    pub virtual_key: String,
    pub cap_mode: String,
    pub default_character: String,
    pub shift_character: String,
}

/// A row's text: its fields separated by tabs, ending the line.
pub open spec fn klc_row_text(r: KlcRow) -> Seq<char> {
    r.scancode@ + "\t"@ + r.virtual_key@ + "\t"@ + r.cap_mode@ + "\t"@ + r.default_character@ + "\t"@
        + r.shift_character@ + "\n"@
}

impl KlcRow {
    /// The row as text.
    pub fn to_klc_string(&self) -> (res: String)
        ensures
            res@ == klc_row_text(*self),
    {
        let mut s = String::new();
        s.append(self.scancode.as_str());
        s.append("\t");
        s.append(self.virtual_key.as_str());
        s.append("\t");
        s.append(self.cap_mode.as_str());
        s.append("\t");
        s.append(self.default_character.as_str());
        s.append("\t");
        s.append(self.shift_character.as_str());
        s.append("\n");
        assert(s@ =~= klc_row_text(*self));
        s
    }
}

/// The columns of a layout row, in the order of their shift states.
#[derive(Clone, Copy, Debug, PartialEq, Eq, Structural)]
pub enum LayerColumn {
    Default,
    Shift,
    Ctrl,
    Alt,
    AltAndShift,
}

/// The number of a column: its shift state.
pub open spec fn layer_column_number(column: LayerColumn) -> nat {
    match column {
        LayerColumn::Default => 0,
        LayerColumn::Shift => 1,
        LayerColumn::Ctrl => 2,
        LayerColumn::Alt => 3,
        LayerColumn::AltAndShift => 4,
    }
}

/// The layout-row column of a layer column.
pub fn klc_layer_of_column(column: LayerColumn) -> (res: KlcLayer)
    ensures
        klc_layer_number(res) == layer_column_number(column),
{
    match column {
        LayerColumn::Default => KlcLayer::Default,
        LayerColumn::Shift => KlcLayer::Shift,
        LayerColumn::Ctrl => KlcLayer::Ctrl,
        LayerColumn::Alt => KlcLayer::Alt,
        LayerColumn::AltAndShift => KlcLayer::AltAndShift,
    }
}

/// Derives nothing: the caps mode is derived by the layer sets' `caps_mode`.
pub fn derive_cap_mode() {
}

} // verus!
