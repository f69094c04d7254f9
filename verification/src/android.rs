//! Android keyboards: the key elements of each row, the names and subtypes
//! of a layout, and the signing settings of the Gradle build.

use vstd::prelude::*;

use crate::layout::{
    AndroidKbdLayer, find_android_layer, find_key, first_key_index, first_layer_index,
    lemma_first_key_index, lemma_first_layer_index,
};
use crate::text::{
    join_strings, joined, newline_pieces, pair_texts, split_lines, text_lines, chars_of, lowercased, replace_all_chars, replace_char, replace_str, replaced, split_keys, str_eq,
    string_views, to_lowercase, u64_to_decimal, decimal, words,
};

verus! {

/// `input` with each double quote escaped by a backslash.
pub open spec fn escaped_quotes(input: Seq<char>) -> Seq<char> {
    replace_char(input, '"', "\\\""@)
}

/// Escapes the double quotes of `input`, if there is one.
pub fn escape_quotes(input: Option<&str>) -> (res: Option<String>)
    ensures
        match input {
            Some(v) => res matches Some(r) && r@ == escaped_quotes(v@),
            None => res is None,
        },
{
    match input {
        Some(v) => Some(replace_all_chars(v, '"', "\\\"")),
        None => None,
    }
}

/// The digit hint of the key at `key_index` in the top row: 1 to 9 for the
/// first nine keys, 0 for the tenth, none for the others.
pub open spec fn key_hint_label(key_index: nat) -> Option<nat> {
    if key_index == 9 {
        Some(0)
    } else if key_index + 1 > 9 {
        None
    } else {
        Some(key_index + 1)
    }
}

/// The digit hint of the key at `key_index` in the top row.
pub fn compute_key_hint_label_index(key_index: usize) -> (res: Option<usize>)
    requires
        key_index < usize::MAX,
    ensures
        match key_hint_label(key_index as nat) {
            Some(n) => res == Some(n as usize),
            None => res is None,
        },
{
    let mut key_hint_label_index = key_index + 1;
    if key_index == 9 {
        key_hint_label_index = 0;
    }
    if key_hint_label_index > 9 {
        None
    } else {
        Some(key_hint_label_index)
    }
}

/// The snake-case name of a layout: its display name in lower case, with
/// underscores for spaces and without parentheses.
pub open spec fn snake_case_text(display_name: Seq<char>) -> Seq<char> {
    replaced(
        replaced(replaced(lowercased(display_name), " "@, "_"@), "("@, ""@),
        ")"@,
        ""@,
    )
}

/// The subtype name of a language tag: with underscores for hyphens, in
/// lower case.
pub open spec fn subtype_tag_text(tag: Seq<char>) -> Seq<char> {
    lowercased(replaced(tag, "-"@, "_"@))
}

/// The step that generates the Android keyboards' resources.
pub struct GenerateAndroid;

impl GenerateAndroid {
    /// The snake-case name of a layout, which names its resource files.
    pub fn snake_case_display_name(display_name: &str) -> (res: String)
        ensures
            res@ == snake_case_text(display_name@),
    {
        let lower = to_lowercase(display_name);
        let a = replace_str(lower.as_str(), " ", "_");
        let b = replace_str(a.as_str(), "(", "");
        replace_str(b.as_str(), ")", "")
    }

    /// The subtype name of a language tag.
    pub fn subtype_language_tag(language_tag: &str) -> (res: String)
        ensures
            res@ == subtype_tag_text(language_tag@),
    {
        let underscored = replace_str(language_tag, "-", "_");
        to_lowercase(underscored.as_str())
    }
}

} // verus!

verus! {

/// The longpress keys of `key` in the layout's longpress table, if it has
/// an entry for it.
pub open spec fn longpress_of(longpress: Option<Vec<(String, Vec<String>)>>, key: Seq<char>) -> Option<
    Seq<Seq<char>>,
> {
    match longpress {
        Some(lp) => match first_key_index(lp@, key) {
            Some(i) => Some(string_views(lp@[i].1@)),
            None => None,
        },
        None => None,
    }
}

/// The attributes of a key of the top row: a style for the shift and
/// backspace keys; for the others the key itself, its digit hint and, where
/// it has longpress keys, those joined by commas.
pub open spec fn numbered_key_attrs(key: Seq<char>, hint: Option<nat>, longpress: Option<Seq<Seq<char>>>) -> Seq<
    (Seq<char>, Seq<char>),
> {
    if key == "\\s{shift}"@ {
        seq![("latin:keyStyle"@, "shiftKeyStyle"@)]
    } else if key == "\\s{backspace}"@ {
        seq![("latin:keyStyle"@, "deleteKeyStyle"@)]
    } else {
        seq![("latin:keySpec"@, key)] + (match hint {
            Some(h) => seq![("latin:keyHintLabel"@, decimal(h)), ("latin:additionalMoreKeys"@, decimal(h))],
            None => seq![],
        }) + (match longpress {
            Some(lp) => seq![("latin:moreKeys"@, joined(lp, ","@))],
            None => seq![],
        })
    }
}

fn push_attr(attrs: &mut Vec<(String, String)>, name: &str, value: String)
    ensures
        pair_texts(final(attrs)@) == pair_texts(old(attrs)@).push((name@, value@)),
{
    let ghost before = attrs@;
    let ghost v = value@;
    attrs.push((name.to_string(), value));
    assert(pair_texts(attrs@) =~= pair_texts(before).push((name@, v)));
}

/// The attributes of a key of the top row.
pub fn create_numbered_key_attributes(
    key: &str,
    key_hint_label_index: Option<usize>,
    longpress: Option<&Vec<String>>,
) -> (res: Vec<(String, String)>)
    ensures
        pair_texts(res@) == numbered_key_attrs(
            key@,
            match key_hint_label_index {
                Some(h) => Some(h as nat),
                None => None,
            },
            match longpress {
                Some(lp) => Some(string_views(lp@)),
                None => None,
            },
        ),
{
    let mut attrs: Vec<(String, String)> = Vec::new();
    if str_eq(key, "\\s{shift}") {
        push_attr(&mut attrs, "latin:keyStyle", "shiftKeyStyle".to_string());
    } else if str_eq(key, "\\s{backspace}") {
        push_attr(&mut attrs, "latin:keyStyle", "deleteKeyStyle".to_string());
    } else {
        push_attr(&mut attrs, "latin:keySpec", key.to_string());
        if let Some(hint) = key_hint_label_index {
            push_attr(&mut attrs, "latin:keyHintLabel", u64_to_decimal(hint as u64));
            push_attr(&mut attrs, "latin:additionalMoreKeys", u64_to_decimal(hint as u64));
        }
        if let Some(lp) = longpress {
            push_attr(&mut attrs, "latin:moreKeys", join_strings(lp, ","));
        }
    }
    assert(pair_texts(attrs@) =~= numbered_key_attrs(
        key@,
        match key_hint_label_index {
            Some(h) => Some(h as nat),
            None => None,
        },
        match longpress {
            Some(lp) => Some(string_views(lp@)),
            None => None,
        },
    ));
    attrs
}

/// The attributes of a key below the top row: a style for the shift and
/// backspace keys (the backspace key filling the row's right); for the
/// others, where it has longpress keys, the first as hint and all joined by
/// commas, then the key itself.
pub open spec fn key_attrs(key: Seq<char>, longpress: Option<Seq<Seq<char>>>) -> Seq<(Seq<char>, Seq<char>)> {
    if key == "\\s{shift}"@ {
        seq![("latin:keyStyle"@, "shiftKeyStyle"@)]
    } else if key == "\\s{backspace}"@ {
        seq![("latin:keyStyle"@, "deleteKeyStyle"@), ("latin:keyWidth"@, "fillRight"@)]
    } else {
        (match longpress {
            Some(lp) => seq![("latin:keyHintLabel"@, lp[0]), ("latin:moreKeys"@, joined(lp, ","@))],
            None => seq![],
        }) + seq![("latin:keySpec"@, key)]
    }
}

/// The width that a shift key below the top row fills: what the row's other
/// keys leave, shared among its special keys. It is given as the number of
/// the row's ordinary keys and of its special keys.
pub open spec fn shift_fill(key: Seq<char>, keys_count: nat, special_keys_count: nat) -> Option<(nat, nat)> {
    if key == "\\s{shift}"@ {
        Some(((keys_count - special_keys_count) as nat, special_keys_count))
    } else {
        None
    }
}

/// A key element of a row: its attributes and, for a shift key below the top
/// row, the numbers of ordinary and special keys that its width is computed
/// from.
#[derive(Debug)]
pub struct AndroidKey {
    pub attributes: Vec<(String, String)>,
    pub shift_fill: Option<(usize, usize)>,
}

/// The attributes of a key below the top row, and what a shift key's width
/// is computed from.
pub fn create_key_attributes(
    key: &str,
    longpress: Option<&Vec<String>>,
    keys_count: usize,
    special_keys_count: usize,
) -> (res: AndroidKey)
    requires
        special_keys_count <= keys_count,
        shows_longpress(key@) ==> (longpress matches Some(lp) ==> lp.len() > 0),
    ensures
        pair_texts(res.attributes@) == key_attrs(
            key@,
            match longpress {
                Some(lp) => Some(string_views(lp@)),
                None => None,
            },
        ),
        match shift_fill(key@, keys_count as nat, special_keys_count as nat) {
            Some((n, s)) => res.shift_fill == Some((n as usize, s as usize)),
            None => res.shift_fill is None,
        },
{
    let mut attrs: Vec<(String, String)> = Vec::new();
    let mut fill: Option<(usize, usize)> = None;
    if str_eq(key, "\\s{shift}") {
        push_attr(&mut attrs, "latin:keyStyle", "shiftKeyStyle".to_string());
        fill = Some((keys_count - special_keys_count, special_keys_count));
    } else if str_eq(key, "\\s{backspace}") {
        push_attr(&mut attrs, "latin:keyStyle", "deleteKeyStyle".to_string());
        push_attr(&mut attrs, "latin:keyWidth", "fillRight".to_string());
    } else {
        if let Some(lp) = longpress {
            push_attr(&mut attrs, "latin:keyHintLabel", lp[0].as_str().to_string());
            push_attr(&mut attrs, "latin:moreKeys", join_strings(lp, ","));
        }
        push_attr(&mut attrs, "latin:keySpec", key.to_string());
    }
    assert(pair_texts(attrs@) =~= key_attrs(
        key@,
        match longpress {
            Some(lp) => Some(string_views(lp@)),
            None => None,
        },
    ));
    AndroidKey { attributes: attrs, shift_fill: fill }
}

} // verus!

verus! {

/// Whether a key of a layer's list is special: written `\s{...}`.
pub open spec fn is_special_key(key: Seq<char>) -> bool {
    key.len() >= 2 && key[0] == '\\' && key[1] == 's'
}

/// The number of special keys in `keys`.
pub open spec fn special_count(keys: Seq<Seq<char>>) -> nat
    decreases keys.len(),
{
    if keys.len() == 0 {
        0
    } else {
        special_count(keys.drop_last()) + if is_special_key(keys.last()) {
            1nat
        } else {
            0nat
        }
    }
}

/// A key element by value.
pub open spec fn android_key_view(k: AndroidKey) -> (Seq<(Seq<char>, Seq<char>)>, Option<(nat, nat)>) {
    (
        pair_texts(k.attributes@),
        match k.shift_fill {
            Some((a, b)) => Some((a as nat, b as nat)),
            None => None,
        },
    )
}

/// The key elements of line `line_index` of a layer: numbered keys in the
/// top line, ordinary keys in the others.
pub open spec fn line_key_views(
    line: Seq<char>,
    line_index: nat,
    longpress: Option<Vec<(String, Vec<String>)>>,
) -> Seq<(Seq<(Seq<char>, Seq<char>)>, Option<(nat, nat)>)> {
    let keys = words(line);
    Seq::new(
        keys.len(),
        |k: int|
            if line_index == 0 {
                (numbered_key_attrs(keys[k], key_hint_label(k as nat), longpress_of(longpress, keys[k])), None)
            } else {
                (
                    key_attrs(keys[k], longpress_of(longpress, keys[k])),
                    shift_fill(keys[k], keys.len(), special_count(keys)),
                )
            },
    )
}

/// Whether a key below a layer's top line shows its first long-press key
/// as a hint: every key but shift and backspace does.
pub open spec fn shows_longpress(key: Seq<char>) -> bool {
    key != "\\s{shift}"@ && key != "\\s{backspace}"@
}

/// Whether every key below a layer's top line that shows its long-press
/// keys and has some has at least one.
pub open spec fn longpress_usable(layer: Seq<char>, longpress: Option<Vec<(String, Vec<String>)>>) -> bool {
    forall|r: int, k: int|
        1 <= r < text_lines(layer).len() && 0 <= k < words(text_lines(layer)[r]).len() ==> (shows_longpress(
            #[trigger] words(text_lines(layer)[r])[k],
        ) ==> (longpress_of(longpress, words(text_lines(layer)[r])[k]) matches Some(lp) ==> lp.len() > 0))
}

/// Whether every key below the first line of a layer that shows its
/// long-press keys and has some has at least one, computed.
pub fn longpress_is_usable(layer: &str, longpress: &Option<Vec<(String, Vec<String>)>>) -> (res: bool)
    ensures
        res == longpress_usable(layer@, *longpress),
{
    let lp = match longpress {
        Some(lp) => lp,
        None => {
            return true;
        },
    };
    let lines = split_lines(layer);
    let mut r: usize = 1;
    while r < lines.len()
        invariant
            1 <= r,
            *longpress == Some(*lp),
            string_views(lines@) == text_lines(layer@),
            forall|q: int, k: int|
                1 <= q < r && q < text_lines(layer@).len() && 0 <= k < words(text_lines(layer@)[q]).len()
                    ==> (shows_longpress(#[trigger] words(text_lines(layer@)[q])[k]) ==> (longpress_of(
                    *longpress,
                    words(text_lines(layer@)[q])[k],
                ) matches Some(l) ==> l.len() > 0)),
        decreases lines.len() - r,
    {
        let keys = split_keys(lines[r].as_str());
        assert(lines@[r as int]@ == text_lines(layer@)[r as int]);
        let mut k: usize = 0;
        while k < keys.len()
            invariant
                1 <= r < lines.len(),
                k <= keys.len(),
                *longpress == Some(*lp),
                string_views(lines@) == text_lines(layer@),
                string_views(keys@) == words(text_lines(layer@)[r as int]),
                forall|q: int, j: int|
                    1 <= q < r && q < text_lines(layer@).len() && 0 <= j < words(text_lines(layer@)[q]).len()
                        ==> (shows_longpress(#[trigger] words(text_lines(layer@)[q])[j]) ==> (longpress_of(
                        *longpress,
                        words(text_lines(layer@)[q])[j],
                    ) matches Some(l) ==> l.len() > 0)),
                forall|j: int|
                    0 <= j < k ==> (shows_longpress(#[trigger] words(text_lines(layer@)[r as int])[j]) ==> (longpress_of(
                        *longpress,
                        words(text_lines(layer@)[r as int])[j],
                    ) matches Some(l) ==> l.len() > 0)),
            decreases keys.len() - k,
        {
            assert(keys@[k as int]@ == words(text_lines(layer@)[r as int])[k as int]);
            proof {
                lemma_first_key_index(lp@, keys@[k as int]@);
            }
            let n = lp.len();
            let shows = !str_eq(keys[k].as_str(), "\\s{shift}") && !str_eq(keys[k].as_str(), "\\s{backspace}");
            match find_key(lp, keys[k].as_str()) {
                Some(i) => {
                    if shows && lp[i].1.len() == 0 {
                        assert(longpress_of(*longpress, words(text_lines(layer@)[r as int])[k as int]) == Some(
                            string_views(lp@[i as int].1@),
                        ));
                        return false;
                    }
                },
                None => {},
            }
            k = k + 1;
        }
        r = r + 1;
    }
    true
}

proof fn lemma_special_count_le(keys: Seq<Seq<char>>)
    ensures
        special_count(keys) <= keys.len(),
    decreases keys.len(),
{
    if keys.len() > 0 {
        lemma_special_count_le(keys.drop_last());
    }
}

fn longpress_lookup<'a>(longpress: &'a Option<Vec<(String, Vec<String>)>>, key: &str) -> (res: Option<
    &'a Vec<String>,
>)
    ensures
        match longpress_of(*longpress, key@) {
            Some(lp) => res matches Some(r) && string_views(r@) == lp,
            None => res is None,
        },
{
    match longpress {
        Some(lp) => {
            proof {
                lemma_first_key_index(lp@, key@);
            }
            match find_key(lp, key) {
                Some(i) => {
                    let ghost j = first_key_index(lp@, key@).unwrap();
                    assert(0 <= j < lp.len());
                    assert(j == i as int);
                    Some(&lp[i].1)
                },
                None => None,
            }
        },
        None => None,
    }
}

fn count_special(keys: &Vec<String>) -> (res: usize)
    ensures
        res == special_count(string_views(keys@)),
{
    let mut n: usize = 0;
    let mut i: usize = 0;
    while i < keys.len()
        invariant
            i <= keys.len(),
            n == special_count(string_views(keys@).take(i as int)),
            n <= i,
        decreases keys.len() - i,
    {
        let chars = chars_of(keys[i].as_str());
        assert(string_views(keys@).take(i + 1).drop_last() =~= string_views(keys@).take(i as int));
        assert(string_views(keys@).take(i + 1).last() == keys@[i as int]@);
        if chars.len() >= 2 && chars[0] == '\\' && chars[1] == 's' {
            n = n + 1;
        }
        i = i + 1;
    }
    assert(string_views(keys@).take(i as int) =~= string_views(keys@));
    n
}

/// The key elements of line `line_index` of a layer.
pub fn line_keys(line: &str, line_index: usize, longpress: &Option<Vec<(String, Vec<String>)>>) -> (res: Vec<
    AndroidKey,
>)
    requires
        line_index > 0 ==> forall|k: int|
            0 <= k < words(line@).len() ==> (shows_longpress(#[trigger] words(line@)[k]) ==> (longpress_of(
                *longpress,
                words(line@)[k],
            ) matches Some(lp) ==> lp.len() > 0)),
    ensures
        res@.map_values(|k: AndroidKey| android_key_view(k)) == line_key_views(line@, line_index as nat, *longpress),
{
    let keys = split_keys(line);
    let count = keys.len();
    let special = count_special(&keys);
    proof {
        lemma_special_count_le(string_views(keys@));
    }
    let mut out: Vec<AndroidKey> = Vec::new();
    let mut k: usize = 0;
    while k < count
        invariant
            k <= count,
            count == keys.len(),
            string_views(keys@) == words(line@),
            special == special_count(words(line@)),
            special <= count,
            line_index > 0 ==> forall|j: int|
                0 <= j < words(line@).len() ==> (shows_longpress(#[trigger] words(line@)[j]) ==> (longpress_of(
                    *longpress,
                    words(line@)[j],
                ) matches Some(lp) ==> lp.len() > 0)),
            out@.map_values(|x: AndroidKey| android_key_view(x)) == line_key_views(
                line@,
                line_index as nat,
                *longpress,
            ).take(k as int),
        decreases count - k,
    {
        let key = keys[k].as_str();
        assert(key@ == words(line@)[k as int]);
        let lp = longpress_lookup(longpress, key);
        let element = if line_index == 0 {
            let attributes = create_numbered_key_attributes(key, compute_key_hint_label_index(k), lp);
            AndroidKey { attributes, shift_fill: None }
        } else {
            create_key_attributes(key, lp, count, special)
        };
        let ghost before = out@;
        out.push(element);
        assert(out@.map_values(|x: AndroidKey| android_key_view(x)) =~= before.map_values(
            |x: AndroidKey| android_key_view(x),
        ).push(android_key_view(element)));
        assert(out@.map_values(|x: AndroidKey| android_key_view(x)) =~= line_key_views(
            line@,
            line_index as nat,
            *longpress,
        ).take(k + 1));
        k = k + 1;
    }
    out
}

} // verus!

verus! {

/// A key row by value.
pub open spec fn row_view(row: Vec<AndroidKey>) -> Seq<(Seq<(Seq<char>, Seq<char>)>, Option<(nat, nat)>)> {
    row@.map_values(|k: AndroidKey| android_key_view(k))
}

/// The key rows of a layer: the key elements of each of its lines.
pub open spec fn layer_rows_view(layer: Seq<char>, longpress: Option<Vec<(String, Vec<String>)>>) -> Seq<
    Seq<(Seq<(Seq<char>, Seq<char>)>, Option<(nat, nat)>)>,
> {
    Seq::new(text_lines(layer).len(), |r: int| line_key_views(text_lines(layer)[r], r as nat, longpress))
}

/// The key rows of the layer of `kind`, none without one.
pub open spec fn kind_rows_view(
    layers: Seq<(AndroidKbdLayer, String)>,
    kind: AndroidKbdLayer,
    longpress: Option<Vec<(String, Vec<String>)>>,
) -> Seq<Seq<(Seq<(Seq<char>, Seq<char>)>, Option<(nat, nat)>)>> {
    match first_layer_index(layers, kind) {
        Some(i) => layer_rows_view(layers[i].1@, longpress),
        None => seq![],
    }
}

/// The key rows of a keyboard's layers: row `r` of the keyboard holds row
/// `r` of each.
#[derive(Debug)]
pub struct AndroidRows {
    pub default_rows: Vec<Vec<AndroidKey>>,
    pub shift_rows: Vec<Vec<AndroidKey>>,
}

fn layer_rows(layer: &str, longpress: &Option<Vec<(String, Vec<String>)>>) -> (res: Vec<Vec<AndroidKey>>)
    requires
        longpress_usable(layer@, *longpress),
    ensures
        res@.map_values(|r: Vec<AndroidKey>| row_view(r)) == layer_rows_view(layer@, *longpress),
{
    let lines = split_lines(layer);
    let mut out: Vec<Vec<AndroidKey>> = Vec::new();
    let mut r: usize = 0;
    while r < lines.len()
        invariant
            r <= lines.len(),
            string_views(lines@) == text_lines(layer@),
            longpress_usable(layer@, *longpress),
            out@.map_values(|x: Vec<AndroidKey>| row_view(x)) == layer_rows_view(layer@, *longpress).take(
                r as int,
            ),
        decreases lines.len() - r,
    {
        let line = lines[r].as_str();
        assert(line@ == text_lines(layer@)[r as int]);
        let keys = line_keys(line, r, longpress);
        let ghost before = out@;
        out.push(keys);
        assert(out@.map_values(|x: Vec<AndroidKey>| row_view(x)) =~= before.map_values(
            |x: Vec<AndroidKey>| row_view(x),
        ).push(row_view(keys)));
        assert(out@.map_values(|x: Vec<AndroidKey>| row_view(x)) =~= layer_rows_view(layer@, *longpress).take(
            r + 1,
        ));
        r = r + 1;
    }
    out
}

/// The number of keys of the longest line of a layer, counting the pieces
/// between its newlines.
pub open spec fn longest_row(pieces: Seq<Seq<char>>) -> nat
    decreases pieces.len(),
{
    if pieces.len() == 0 {
        0
    } else {
        let rest = longest_row(pieces.drop_last());
        let n = words(pieces.last()).len();
        if n > rest {
            n
        } else {
            rest
        }
    }
}

impl GenerateAndroid {
    /// The key rows of the default and shift layers.
    pub fn rows_keys(layers: &Vec<(AndroidKbdLayer, String)>, longpress: &Option<Vec<(String, Vec<String>)>>) -> (res:
        AndroidRows)
        requires
            forall|l: int| 0 <= l < layers.len() ==> longpress_usable(#[trigger] layers@[l].1@, *longpress),
        ensures
            res.default_rows@.map_values(|r: Vec<AndroidKey>| row_view(r)) == kind_rows_view(
                layers@,
                AndroidKbdLayer::Default,
                *longpress,
            ),
            res.shift_rows@.map_values(|r: Vec<AndroidKey>| row_view(r)) == kind_rows_view(
                layers@,
                AndroidKbdLayer::Shift,
                *longpress,
            ),
    {
        proof {
            lemma_first_layer_index(layers@, AndroidKbdLayer::Default);
            lemma_first_layer_index(layers@, AndroidKbdLayer::Shift);
        }
        let default_rows = match find_android_layer(layers, AndroidKbdLayer::Default) {
            Some(i) => {
                let ghost j = first_layer_index(layers@, AndroidKbdLayer::Default).unwrap();
                assert(0 <= j < layers.len());
                assert(j == i as int);
                layer_rows(layers[i].1.as_str(), longpress)
            },
            None => {
                let v: Vec<Vec<AndroidKey>> = Vec::new();
                assert(v@.map_values(|r: Vec<AndroidKey>| row_view(r)) =~= seq![]);
                v
            },
        };
        let shift_rows = match find_android_layer(layers, AndroidKbdLayer::Shift) {
            Some(i) => {
                let ghost j = first_layer_index(layers@, AndroidKbdLayer::Shift).unwrap();
                assert(0 <= j < layers.len());
                assert(j == i as int);
                layer_rows(layers[i].1.as_str(), longpress)
            },
            None => {
                let v: Vec<Vec<AndroidKey>> = Vec::new();
                assert(v@.map_values(|r: Vec<AndroidKey>| row_view(r)) =~= seq![]);
                v
            },
        };
        AndroidRows { default_rows, shift_rows }
    }

    /// The number of keys of the longest line of the default layer, which
    /// sets the width of the keys.
    pub fn longest_row_count(default_layer: &str) -> (res: usize)
        ensures
            res == longest_row(newline_pieces(default_layer@)),
    {
        let chars = chars_of(default_layer);
        let mut best: usize = 0;
        let mut current: Vec<char> = Vec::new();
        let mut i: usize = 0;
        while i < chars.len()
            invariant
                i <= chars.len(),
                chars@ == default_layer@,
                newline_pieces(chars@.take(i as int)).len() >= 1,
                best == longest_row(newline_pieces(chars@.take(i as int)).drop_last()),
                current@ == newline_pieces(chars@.take(i as int)).last(),
            decreases chars.len() - i,
        {
            let ghost prefix = chars@.take(i as int);
            let ghost next = chars@.take(i + 1);
            assert(next.drop_last() =~= prefix);
            proof {
                crate::text::lemma_newline_pieces_len(prefix);
            }
            if chars[i] == '\n' {
                let piece = crate::text::string_from_chars(current.as_slice());
                let n = split_keys(piece.as_str()).len();
                assert(newline_pieces(next).drop_last() =~= newline_pieces(prefix));
                assert(newline_pieces(prefix).drop_last() =~= newline_pieces(next).drop_last().drop_last());
                if n > best {
                    best = n;
                }
                current = Vec::new();
            } else {
                current.push(chars[i]);
                assert(newline_pieces(next).drop_last() =~= newline_pieces(prefix).drop_last());
            }
            i = i + 1;
        }
        assert(chars@.take(i as int) =~= default_layer@);
        let piece = crate::text::string_from_chars(current.as_slice());
        let n = split_keys(piece.as_str()).len();
        proof {
            crate::text::lemma_newline_pieces_len(default_layer@);
        }
        if n > best {
            n
        } else {
            best
        }
    }
}

} // verus!

verus! {

/// The attributes of a layout's input method subtype: the switcher icon, the
/// keyboard mode, its label, its locale with underscores, the layout set it
/// uses and that it can type ASCII.
pub open spec fn method_subtype_attrs(
    language_tag: Seq<char>,
    snake_case_display_name: Seq<char>,
    subtype_language_tag: Seq<char>,
) -> Seq<(Seq<char>, Seq<char>)> {
    seq![
        ("android:icon"@, "@drawable/ic_ime_switcher_dark"@),
        ("android:imeSubtypeMode"@, "keyboard"@),
        ("android:label"@, "@string/subtype_"@ + subtype_language_tag),
        ("android:imeSubtypeLocale"@, replaced(language_tag, "-"@, "_"@)),
        (
            "android:imeSubtypeExtraValue"@,
            "KeyboardLayoutSet="@ + snake_case_display_name + ",AsciiCapable,EmojiCapable"@,
        ),
        ("android:isAsciiCapable"@, "true"@),
    ]
}

/// The attributes of a layout's spell checker subtype: its label and locale.
pub open spec fn spellchecker_subtype_attrs(language_tag: Seq<char>, subtype_language_tag: Seq<char>) -> Seq<
    (Seq<char>, Seq<char>),
> {
    seq![
        ("android:label"@, "@string/subtype_"@ + subtype_language_tag),
        ("android:subtypeLocale"@, language_tag),
    ]
}

fn concat2(a: &str, b: &str) -> (res: String)
    ensures
        res@ == a@ + b@,
{
    let mut s = a.to_string();
    s.append(b);
    s
}

fn concat3(a: &str, b: &str, c: &str) -> (res: String)
    ensures
        res@ == a@ + b@ + c@,
{
    let mut s = a.to_string();
    s.append(b);
    s.append(c);
    s
}

impl GenerateAndroid {
    /// The attributes of a layout's input method subtype in `method.xml`.
    pub fn method_subtype_attributes(
        language_tag: &str,
        snake_case_display_name: &str,
        subtype_language_tag: &str,
    ) -> (res: Vec<(String, String)>)
        ensures
            pair_texts(res@) == method_subtype_attrs(language_tag@, snake_case_display_name@, subtype_language_tag@),
    {
        let mut attrs: Vec<(String, String)> = Vec::new();
        push_attr(&mut attrs, "android:icon", "@drawable/ic_ime_switcher_dark".to_string());
        push_attr(&mut attrs, "android:imeSubtypeMode", "keyboard".to_string());
        push_attr(&mut attrs, "android:label", concat2("@string/subtype_", subtype_language_tag));
        push_attr(&mut attrs, "android:imeSubtypeLocale", replace_str(language_tag, "-", "_"));
        push_attr(
            &mut attrs,
            "android:imeSubtypeExtraValue",
            concat3("KeyboardLayoutSet=", snake_case_display_name, ",AsciiCapable,EmojiCapable"),
        );
        push_attr(&mut attrs, "android:isAsciiCapable", "true".to_string());
        assert(pair_texts(attrs@) =~= method_subtype_attrs(
            language_tag@,
            snake_case_display_name@,
            subtype_language_tag@,
        ));
        attrs
    }

    /// The attributes of a layout's spell checker subtype in
    /// `spellchecker.xml`.
    pub fn spellchecker_subtype_attributes(language_tag: &str, subtype_language_tag: &str) -> (res: Vec<
        (String, String),
    >)
        ensures
            pair_texts(res@) == spellchecker_subtype_attrs(language_tag@, subtype_language_tag@),
    {
        let mut attrs: Vec<(String, String)> = Vec::new();
        push_attr(&mut attrs, "android:label", concat2("@string/subtype_", subtype_language_tag));
        push_attr(&mut attrs, "android:subtypeLocale", language_tag.to_string());
        assert(pair_texts(attrs@) =~= spellchecker_subtype_attrs(language_tag@, subtype_language_tag@));
        attrs
    }

    /// The name of the keyboard in the app's strings: the default display
    /// name followed by ` Keyboard`.
    pub fn ime_name(default_display_name: &str) -> (res: String)
        ensures
            res@ == default_display_name@ + " Keyboard"@,
    {
        concat2(default_display_name, " Keyboard")
    }
}

/// The Android target of a bundle: its signing settings, package and
/// version.
#[derive(Debug)]
pub struct AndroidBuildTarget {
    pub key_store: Option<String>,
    pub key_alias: Option<String>,
    pub play_store_account: Option<String>,
    pub play_store_p12: Option<String>,
    pub store_password: Option<String>,
    pub key_password: Option<String>,
    pub package_id: String,
    pub build: usize,
    pub version: String,
}

/// A setting's value in `gradle.local`: its double quotes escaped, or empty.
pub open spec fn quoted_setting(value: Option<String>) -> Seq<char> {
    match value {
        Some(v) => escaped_quotes(v@),
        None => seq![],
    }
}

/// The text of `gradle.local` before its dollar signs are escaped.
pub open spec fn gradle_local_template(t: AndroidBuildTarget, store_file: Seq<char>) -> Seq<char> {
    "ext.app = [\n    storeFile: \""@ + store_file + "\",\n    keyAlias: \""@ + quoted_setting(t.key_alias)
        + "\",\n    storePassword: \""@ + quoted_setting(t.store_password) + "\",\n    keyPassword: \""@
        + quoted_setting(t.key_password) + "\",\n    packageName: \""@ + t.package_id@
        + "\",\n    versionCode: "@ + decimal(t.build as nat) + ",\n    versionName: \""@ + t.version@
        + "\",\n    playEmail: \""@ + quoted_setting(t.play_store_account) + "\",\n    playCredentials: \""@
        + quoted_setting(t.play_store_p12) + "\"\n]"@
}

/// The key store's path as `gradle.local` writes it: its backslashes
/// doubled, or empty without one.
pub open spec fn store_file_text(store_file: Option<Seq<char>>) -> Seq<char> {
    match store_file {
        Some(p) => replace_char(p, '\\', "\\\\"@),
        None => seq![],
    }
}

/// The text of `gradle.local`: the signing and package settings of the
/// target, with every `$` escaped.
pub open spec fn gradle_local_text(t: AndroidBuildTarget, store_file: Option<Seq<char>>) -> Seq<char> {
    replace_char(gradle_local_template(t, store_file_text(store_file)), '$', "\\$"@)
}

fn quoted_setting_string(value: &Option<String>) -> (res: String)
    ensures
        res@ == quoted_setting(*value),
{
    match value {
        Some(v) => replace_all_chars(v.as_str(), '"', "\\\""),
        None => String::new(),
    }
}

/// The text of `gradle.local` for the target, given the full path of its
/// key store if it has one.
pub fn generate_gradle_local(target: &AndroidBuildTarget, store_file: Option<&str>) -> (res: String)
    ensures
        res@ == gradle_local_text(
            *target,
            match store_file {
                Some(p) => Some(p@),
                None => None,
            },
        ),
{
    let store = match store_file {
        Some(p) => replace_all_chars(p, '\\', "\\\\"),
        None => String::new(),
    };
    let mut s = "ext.app = [\n    storeFile: \"".to_string();
    s.append(store.as_str());
    s.append("\",\n    keyAlias: \"");
    s.append(quoted_setting_string(&target.key_alias).as_str());
    s.append("\",\n    storePassword: \"");
    s.append(quoted_setting_string(&target.store_password).as_str());
    s.append("\",\n    keyPassword: \"");
    s.append(quoted_setting_string(&target.key_password).as_str());
    s.append("\",\n    packageName: \"");
    s.append(target.package_id.as_str());
    s.append("\",\n    versionCode: ");
    s.append(u64_to_decimal(target.build as u64).as_str());
    s.append(",\n    versionName: \"");
    s.append(target.version.as_str());
    s.append("\",\n    playEmail: \"");
    s.append(quoted_setting_string(&target.play_store_account).as_str());
    s.append("\",\n    playCredentials: \"");
    s.append(quoted_setting_string(&target.play_store_p12).as_str());
    s.append("\"\n]");
    let ghost store_view = match store_file {
        Some(p) => Some(p@),
        None => None,
    };
    assert(s@ =~= gradle_local_template(*target, store_file_text(store_view)));
    replace_all_chars(s.as_str(), '$', "\\$")
}

} // verus!

verus! {

/// The names of a layout's resource files hold no spaces and no
/// parentheses, whatever its display name.
pub proof fn lemma_snake_case_name_is_plain(display_name: Seq<char>)
    ensures
        !snake_case_text(display_name).contains(' '),
        !snake_case_text(display_name).contains('('),
        !snake_case_text(display_name).contains(')'),
{
    reveal_strlit(" ");
    reveal_strlit("_");
    reveal_strlit("(");
    reveal_strlit(")");
    reveal_strlit("");
    let a = replaced(lowercased(display_name), " "@, "_"@);
    let b = replaced(a, "("@, ""@);
    assert(" "@ =~= seq![' ']);
    assert("("@ =~= seq!['(']);
    assert(")"@ =~= seq![')']);
    crate::text::lemma_replaced_removes(lowercased(display_name), ' ', "_"@);
    crate::text::lemma_replaced_removes(a, '(', ""@);
    crate::text::lemma_replaced_keeps_absent(a, "("@, ""@, ' ');
    crate::text::lemma_replaced_removes(b, ')', ""@);
    crate::text::lemma_replaced_keeps_absent(b, ")"@, ""@, ' ');
    crate::text::lemma_replaced_keeps_absent(b, ")"@, ""@, '(');
}

/// The top row's digit hints are one to nine for its first nine keys and zero
/// for the tenth, so no two of its keys share a hint.
pub proof fn lemma_key_hints_distinct(a: nat, b: nat)
    ensures
        a != b && key_hint_label(a) is Some && key_hint_label(b) is Some ==> key_hint_label(a) != key_hint_label(
            b,
        ),
        key_hint_label(a) is Some <==> a < 10,
{
}

/// The elements of a layout's keyboard set: its alphabet keyboard, marked
/// for proximity correction, the four shifted alphabet states on the same
/// keyboard, and the shared symbol, phone and number keyboards.
pub open spec fn layout_set_elements_of(snake_case_display_name: Seq<char>) -> Seq<Seq<(Seq<char>, Seq<char>)>> {
    let keyboard = "@xml/kbd_"@ + snake_case_display_name;
    let element = |name: Seq<char>, kbd: Seq<char>| seq![("latin:elementName"@, name), ("latin:elementKeyboard"@, kbd)];
    seq![
        seq![
            ("latin:elementName"@, "alphabet"@),
            ("latin:elementKeyboard"@, keyboard),
            ("latin:enableProximityCharsCorrection"@, "true"@),
        ],
        element("alphabetAutomaticShifted"@, keyboard),
        element("alphabetManualShifted"@, keyboard),
        element("alphabetShiftLocked"@, keyboard),
        element("alphabetShiftLockShifted"@, keyboard),
        element("symbols"@, "@xml/kbd_symbols"@),
        element("symbolsShifted"@, "@xml/kbd_symbols_shift"@),
        element("phone"@, "@xml/kbd_phone"@),
        element("phoneSymbols"@, "@xml/kbd_phone_symbols"@),
        element("number"@, "@xml/kbd_number"@),
    ]
}

/// The keyboard that the element named `name` of a layout set shows: the
/// shared symbols, phone and number keyboards for those elements, the
/// layout's own keyboard for the alphabet elements.
pub open spec fn set_element_keyboard(name: Seq<char>, snake_case_display_name: Seq<char>) -> Seq<char> {
    if name == "symbols"@ {
        "@xml/kbd_symbols"@
    } else if name == "symbolsShifted"@ {
        "@xml/kbd_symbols_shift"@
    } else if name == "phone"@ {
        "@xml/kbd_phone"@
    } else if name == "phoneSymbols"@ {
        "@xml/kbd_phone_symbols"@
    } else if name == "number"@ {
        "@xml/kbd_number"@
    } else {
        "@xml/kbd_"@ + snake_case_display_name
    }
}

/// Every element of a layout set names itself first and then shows the
/// keyboard that its name calls for.
pub proof fn lemma_layout_set_keyboards_follow_names(snake_case_display_name: Seq<char>)
    ensures
        forall|j: int|
            0 <= j < layout_set_elements_of(snake_case_display_name).len() ==> {
                let e = #[trigger] layout_set_elements_of(snake_case_display_name)[j];
                &&& e.len() >= 2
                &&& e[0].0 == "latin:elementName"@
                &&& e[1].0 == "latin:elementKeyboard"@
                &&& e[1].1 == set_element_keyboard(e[0].1, snake_case_display_name)
            },
{
    reveal_strlit("alphabet");
    reveal_strlit("alphabetAutomaticShifted");
    reveal_strlit("alphabetManualShifted");
    reveal_strlit("alphabetShiftLocked");
    reveal_strlit("alphabetShiftLockShifted");
    reveal_strlit("symbols");
    reveal_strlit("symbolsShifted");
    reveal_strlit("phone");
    reveal_strlit("phoneSymbols");
    reveal_strlit("number");
    let all = layout_set_elements_of(snake_case_display_name);
    assert forall|j: int| 0 <= j < all.len() implies {
        let e = #[trigger] all[j];
        &&& e.len() >= 2
        &&& e[0].0 == "latin:elementName"@
        &&& e[1].0 == "latin:elementKeyboard"@
        &&& e[1].1 == set_element_keyboard(e[0].1, snake_case_display_name)
    } by {
        let n = all[j][0].1;
        if j < 5 {
            assert(n[0] == 'a');
        } else if j == 5 {
            assert(n.len() == 7);
        } else if j == 6 {
            assert(n.len() == 14);
        } else if j == 7 {
            assert(n.len() == 5 && n[0] == 'p');
        } else if j == 8 {
            assert(n.len() == 12);
        } else {
            assert(n.len() == 6 && n[0] == 'n');
        }
    }
}

fn set_element(name: &str, keyboard: &str) -> (res: Vec<(String, String)>)
    ensures
        pair_texts(res@) == seq![("latin:elementName"@, name@), ("latin:elementKeyboard"@, keyboard@)],
{
    let mut attrs: Vec<(String, String)> = Vec::new();
    push_attr(&mut attrs, "latin:elementName", name.to_string());
    push_attr(&mut attrs, "latin:elementKeyboard", keyboard.to_string());
    attrs
}

impl GenerateAndroid {
    /// The attributes of each element of a layout's keyboard set, in order.
    pub fn layout_set_elements(snake_case_display_name: &str) -> (res: Vec<Vec<(String, String)>>)
        ensures
            res@.map_values(|e: Vec<(String, String)>| pair_texts(e@)) == layout_set_elements_of(
                snake_case_display_name@,
            ),
            forall|j: int|
                0 <= j < res@.len() ==> {
                    let e = pair_texts(#[trigger] res@[j]@);
                    &&& e.len() >= 2
                    &&& e[0].0 == "latin:elementName"@
                    &&& e[1].0 == "latin:elementKeyboard"@
                    &&& e[1].1 == set_element_keyboard(e[0].1, snake_case_display_name@)
                },
    {
        proof {
            lemma_layout_set_keyboards_follow_names(snake_case_display_name@);
        }
        let keyboard = concat2("@xml/kbd_", snake_case_display_name);
        let mut alphabet: Vec<(String, String)> = Vec::new();
        push_attr(&mut alphabet, "latin:elementName", "alphabet".to_string());
        push_attr(&mut alphabet, "latin:elementKeyboard", keyboard.as_str().to_string());
        push_attr(&mut alphabet, "latin:enableProximityCharsCorrection", "true".to_string());
        let mut out: Vec<Vec<(String, String)>> = Vec::new();
        out.push(alphabet);
        out.push(set_element("alphabetAutomaticShifted", keyboard.as_str()));
        out.push(set_element("alphabetManualShifted", keyboard.as_str()));
        out.push(set_element("alphabetShiftLocked", keyboard.as_str()));
        out.push(set_element("alphabetShiftLockShifted", keyboard.as_str()));
        out.push(set_element("symbols", "@xml/kbd_symbols"));
        out.push(set_element("symbolsShifted", "@xml/kbd_symbols_shift"));
        out.push(set_element("phone", "@xml/kbd_phone"));
        out.push(set_element("phoneSymbols", "@xml/kbd_phone_symbols"));
        out.push(set_element("number", "@xml/kbd_number"));
        assert(out@.map_values(|e: Vec<(String, String)>| pair_texts(e@)) =~~= layout_set_elements_of(
            snake_case_display_name@,
        ));
        assert forall|j: int| 0 <= j < out@.len() implies pair_texts(#[trigger] out@[j]@)
            == layout_set_elements_of(snake_case_display_name@)[j] by {
            assert(out@.map_values(|e: Vec<(String, String)>| pair_texts(e@))[j] == pair_texts(out@[j]@));
        }
        out
    }
}

} // verus!
