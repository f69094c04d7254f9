//! ChromeOS keyboard extensions: the extension's manifest, its input
//! components, the locale messages and the key codes of each layer.

use crate::iso_keys::{dom_code, layer_position_key};
use vstd::prelude::*;

use crate::layout::{ChromeConfig, ChromeOsKbdLayer, first_key_index, find_key, lemma_first_key_index};
use crate::text::{pair_texts, str_eq, replace_all_chars, replace_char, replace_str, replaced, split_keys, string_views, words};

verus! {

/// The number of key positions of a ChromeOS layer.
pub const CHROMEOS_KEY_COUNT: usize = 48;

/// The locale of an input component without a configured one.
pub const DEFAULT_LONG_LOCALE: &'static str = "en-US";

/// The XKB layout of an input component without a configured one.
pub const DEFAULT_XKB_LAYOUT: &'static str = "us";

/// The DOM key code of ChromeOS key position `i`, in the order of a layer's
/// keys.
pub open spec fn chromeos_key(i: int) -> &'static str {
    if i == 0 {
        "Backquote"
    } else if i == 1 {
        "Digit1"
    } else if i == 2 {
        "Digit2"
    } else if i == 3 {
        "Digit3"
    } else if i == 4 {
        "Digit4"
    } else if i == 5 {
        "Digit5"
    } else if i == 6 {
        "Digit6"
    } else if i == 7 {
        "Digit7"
    } else if i == 8 {
        "Digit8"
    } else if i == 9 {
        "Digit9"
    } else if i == 10 {
        "Digit0"
    } else if i == 11 {
        "Minus"
    } else if i == 12 {
        "Equal"
    } else if i == 13 {
        "KeyQ"
    } else if i == 14 {
        "KeyW"
    } else if i == 15 {
        "KeyE"
    } else if i == 16 {
        "KeyR"
    } else if i == 17 {
        "KeyT"
    } else if i == 18 {
        "KeyY"
    } else if i == 19 {
        "KeyU"
    } else if i == 20 {
        "KeyI"
    } else if i == 21 {
        "KeyO"
    } else if i == 22 {
        "KeyP"
    } else if i == 23 {
        "BracketLeft"
    } else if i == 24 {
        "BracketRight"
    } else if i == 25 {
        "KeyA"
    } else if i == 26 {
        "KeyS"
    } else if i == 27 {
        "KeyD"
    } else if i == 28 {
        "KeyF"
    } else if i == 29 {
        "KeyG"
    } else if i == 30 {
        "KeyH"
    } else if i == 31 {
        "KeyJ"
    } else if i == 32 {
        "KeyK"
    } else if i == 33 {
        "KeyL"
    } else if i == 34 {
        "Semicolon"
    } else if i == 35 {
        "Quote"
    } else if i == 36 {
        "Backslash"
    } else if i == 37 {
        "IntlBackslash"
    } else if i == 38 {
        "KeyZ"
    } else if i == 39 {
        "KeyX"
    } else if i == 40 {
        "KeyC"
    } else if i == 41 {
        "KeyV"
    } else if i == 42 {
        "KeyB"
    } else if i == 43 {
        "KeyN"
    } else if i == 44 {
        "KeyM"
    } else if i == 45 {
        "Comma"
    } else if i == 46 {
        "Period"
    } else {
        "Slash"
    }
}

/// Each position of a ChromeOS layer is under the DOM code of its ISO key:
/// `Key` and the letter for a letter key, `Digit` and the digit for a digit
/// key, the key's name for the others.
pub proof fn lemma_chromeos_codes_follow_iso_keys(i: int)
    requires
        0 <= i < CHROMEOS_KEY_COUNT,
    ensures
        chromeos_key(i)@ == dom_code(layer_position_key(i)),
{
    if i == 0 {
        reveal_strlit("Backquote");
    } else if i == 1 {
        reveal_strlit("Digit1");
    } else if i == 2 {
        reveal_strlit("Digit2");
    } else if i == 3 {
        reveal_strlit("Digit3");
    } else if i == 4 {
        reveal_strlit("Digit4");
    } else if i == 5 {
        reveal_strlit("Digit5");
    } else if i == 6 {
        reveal_strlit("Digit6");
    } else if i == 7 {
        reveal_strlit("Digit7");
    } else if i == 8 {
        reveal_strlit("Digit8");
    } else if i == 9 {
        reveal_strlit("Digit9");
    } else if i == 10 {
        reveal_strlit("Digit0");
    } else if i == 11 {
        reveal_strlit("Minus");
    } else if i == 12 {
        reveal_strlit("Equal");
    } else if i == 13 {
        reveal_strlit("KeyQ");
    } else if i == 14 {
        reveal_strlit("KeyW");
    } else if i == 15 {
        reveal_strlit("KeyE");
    } else if i == 16 {
        reveal_strlit("KeyR");
    } else if i == 17 {
        reveal_strlit("KeyT");
    } else if i == 18 {
        reveal_strlit("KeyY");
    } else if i == 19 {
        reveal_strlit("KeyU");
    } else if i == 20 {
        reveal_strlit("KeyI");
    } else if i == 21 {
        reveal_strlit("KeyO");
    } else if i == 22 {
        reveal_strlit("KeyP");
    } else if i == 23 {
        reveal_strlit("BracketLeft");
    } else if i == 24 {
        reveal_strlit("BracketRight");
    } else if i == 25 {
        reveal_strlit("KeyA");
    } else if i == 26 {
        reveal_strlit("KeyS");
    } else if i == 27 {
        reveal_strlit("KeyD");
    } else if i == 28 {
        reveal_strlit("KeyF");
    } else if i == 29 {
        reveal_strlit("KeyG");
    } else if i == 30 {
        reveal_strlit("KeyH");
    } else if i == 31 {
        reveal_strlit("KeyJ");
    } else if i == 32 {
        reveal_strlit("KeyK");
    } else if i == 33 {
        reveal_strlit("KeyL");
    } else if i == 34 {
        reveal_strlit("Semicolon");
    } else if i == 35 {
        reveal_strlit("Quote");
    } else if i == 36 {
        reveal_strlit("Backslash");
    } else if i == 37 {
        reveal_strlit("IntlBackslash");
    } else if i == 38 {
        reveal_strlit("KeyZ");
    } else if i == 39 {
        reveal_strlit("KeyX");
    } else if i == 40 {
        reveal_strlit("KeyC");
    } else if i == 41 {
        reveal_strlit("KeyV");
    } else if i == 42 {
        reveal_strlit("KeyB");
    } else if i == 43 {
        reveal_strlit("KeyN");
    } else if i == 44 {
        reveal_strlit("KeyM");
    } else if i == 45 {
        reveal_strlit("Comma");
    } else if i == 46 {
        reveal_strlit("Period");
    } else {
        reveal_strlit("Slash");
    }
}

/// The DOM key code of position `i`.
pub fn chromeos_key_at(i: usize) -> (res: &'static str)
    requires
        i < CHROMEOS_KEY_COUNT,
    ensures
        res == chromeos_key(i as int),
        res@ == dom_code(layer_position_key(i as int)),
{
    proof {
        lemma_chromeos_codes_follow_iso_keys(i as int);
    }
    match i {
        0 => "Backquote",
        1 => "Digit1",
        2 => "Digit2",
        3 => "Digit3",
        4 => "Digit4",
        5 => "Digit5",
        6 => "Digit6",
        7 => "Digit7",
        8 => "Digit8",
        9 => "Digit9",
        10 => "Digit0",
        11 => "Minus",
        12 => "Equal",
        13 => "KeyQ",
        14 => "KeyW",
        15 => "KeyE",
        16 => "KeyR",
        17 => "KeyT",
        18 => "KeyY",
        19 => "KeyU",
        20 => "KeyI",
        21 => "KeyO",
        22 => "KeyP",
        23 => "BracketLeft",
        24 => "BracketRight",
        25 => "KeyA",
        26 => "KeyS",
        27 => "KeyD",
        28 => "KeyF",
        29 => "KeyG",
        30 => "KeyH",
        31 => "KeyJ",
        32 => "KeyK",
        33 => "KeyL",
        34 => "Semicolon",
        35 => "Quote",
        36 => "Backslash",
        37 => "IntlBackslash",
        38 => "KeyZ",
        39 => "KeyX",
        40 => "KeyC",
        41 => "KeyV",
        42 => "KeyB",
        43 => "KeyN",
        44 => "KeyM",
        45 => "Comma",
        46 => "Period",
        _ => "Slash",
    }
}

/// A message of a `messages.json` locale file.
#[derive(Debug)]
pub struct LocaleMessage {
    pub message: String,
}

/// The scripts of the extension's background page.
#[derive(Debug)]
pub struct ManifestBackground {
    pub scripts: Vec<String>,
}

/// An input method of the extension.
#[derive(Debug)]
pub struct ManifestInputComponent {
    pub name: String,
    pub input_type: String,
    pub id: String,
    pub description: String,
    pub language: String,
    pub layouts: Vec<String>,
}

/// The message name of a layout's input component: `__MSG_`, the language
/// tag with underscores for hyphens, and `__`.
pub open spec fn message_name(language_tag: Seq<char>) -> Seq<char> {
    "__MSG_"@ + replace_char(language_tag, '-', "_"@) + "__"@
}

impl ManifestInputComponent {
    /// The input component of a layout: an `ime` named and described by the
    /// layout's message, with the layout's tag as id, the given locale as
    /// language and the one XKB layout.
    pub fn from_config(language_tag: String, locale: String, xkb_layout: String) -> (res: Self)
        ensures
            res.name@ == message_name(language_tag@),
            res.input_type@ == "ime"@,
            res.id@ == language_tag@,
            res.description@ == message_name(language_tag@),
            res.language@ == locale@,
            res.layouts@.len() == 1,
            res.layouts@[0]@ == xkb_layout@,
    {
        let mut underscore_name = "__MSG_".to_owned();
        let underscored = replace_all_chars(language_tag.as_str(), '-', "_");
        underscore_name.append(underscored.as_str());
        underscore_name.append("__");
        let description = underscore_name.as_str().to_string();
        let mut layouts: Vec<String> = Vec::new();
        layouts.push(xkb_layout);
        ManifestInputComponent {
            name: underscore_name,
            input_type: "ime".to_owned(),
            id: language_tag,
            description,
            language: locale,
            layouts,
        }
    }
}

/// The extension's icons at 16, 48 and 128 pixels.
#[derive(Debug)]
pub struct ManifestIcons {
    pub icon_16: String,
    pub icon_48: String,
    pub icon_128: String,
}

/// The extension's description, which Chrome reads from its JSON file.
#[derive(Debug)]
pub struct ChromeOsManifest {
    pub name: String,
    pub version: String,
    pub version_name: String,
    pub manifest_version: u8,
    pub description: String,
    pub background: ManifestBackground,
    pub permissions: Vec<String>,
    pub input_components: Vec<ManifestInputComponent>,
    pub default_locale: String,
    pub icons: ManifestIcons,
}

/// Whether `m` is the manifest of an extension of the given build and
/// version with the given input components.
pub open spec fn is_chromeos_manifest(
    m: ChromeOsManifest,
    build: Seq<char>,
    version: Seq<char>,
    input_components: Seq<ManifestInputComponent>,
) -> bool {
    &&& m.name@ == "__MSG_name__"@
    &&& m.version@ == build
    &&& m.version_name@ == version
    &&& m.manifest_version == 2
    &&& m.description@ == "__MSG_description__"@
    &&& m.background.scripts@.len() == 1
    &&& m.background.scripts@[0]@ == "background.js"@
    &&& m.permissions@.len() == 1
    &&& m.permissions@[0]@ == "input"@
    &&& m.input_components@ == input_components
    &&& m.default_locale@ == "en"@
    &&& m.icons.icon_16@ == "icon16.png"@
    &&& m.icons.icon_48@ == "icon48.png"@
    &&& m.icons.icon_128@ == "icon128.png"@
}

/// The manifest of the extension: its name and description messages, the
/// target's build as version and its version as version name, the background
/// script, the `input` permission, the input components, English as default
/// locale and the three icons.
pub fn chromeos_manifest(
    build: &str,
    version: &str,
    input_components: Vec<ManifestInputComponent>,
) -> (res: ChromeOsManifest)
    ensures
        is_chromeos_manifest(res, build@, version@, input_components@),
{
    let mut scripts: Vec<String> = Vec::new();
    scripts.push("background.js".to_owned());
    let mut permissions: Vec<String> = Vec::new();
    permissions.push("input".to_owned());
    ChromeOsManifest {
        name: "__MSG_name__".to_owned(),
        version: build.to_string(),
        version_name: version.to_string(),
        manifest_version: 2,
        description: "__MSG_description__".to_owned(),
        background: ManifestBackground { scripts },
        permissions,
        input_components,
        default_locale: "en".to_owned(),
        icons: ManifestIcons {
            icon_16: "icon16.png".to_owned(),
            icon_48: "icon48.png".to_owned(),
            icon_128: "icon128.png".to_owned(),
        },
    }
}

/// A locale as ChromeOS names its folder: with underscores for hyphens.
pub fn to_chrome_locale(locale: String) -> (res: String)
    ensures
        res@ == replace_char(locale@, '-', "_"@),
{
    replace_all_chars(locale.as_str(), '-', "_")
}

/// The template of a keyboard's name in a language, `{}` standing for the
/// layout's display name: the Nordic and English ones, English for any
/// other.
pub open spec fn keyboard_name_template(locale: Seq<char>) -> Seq<char> {
    if locale == "nb"@ || locale == "no"@ || locale == "nn"@ || locale == "da"@ {
        "{} tastatur"@
    } else if locale == "sv"@ {
        "{} tangentbord"@
    } else if locale == "fi"@ {
        "{} n\u{e4}pp\u{e4}imist\u{f6}"@
    } else {
        "{} keyboard"@
    }
}

fn keyboard_name_template_of(locale: &str) -> (res: &'static str)
    ensures
        res@ == keyboard_name_template(locale@),
{
    if str_eq(locale, "nb") || str_eq(locale, "no") || str_eq(locale, "nn") || str_eq(locale, "da") {
        "{} tastatur"
    } else if str_eq(locale, "sv") {
        "{} tangentbord"
    } else if str_eq(locale, "fi") {
        "{} n\u{e4}pp\u{e4}imist\u{f6}"
    } else {
        "{} keyboard"
    }
}

/// The name of a keyboard whose display name in `locale` is `display_name`.
pub fn keyboard_name(locale: &str, display_name: &str) -> (res: String)
    ensures
        res@ == replaced(keyboard_name_template(locale@), "{}"@, display_name@),
{
    replace_str(keyboard_name_template_of(locale), "{}", display_name)
}

/// The input component of a layout: its configured locale or `en-US`, and
/// its configured XKB layout or `us`.
pub fn input_component(language_tag: String, config: &Option<ChromeConfig>) -> (res: ManifestInputComponent)
    ensures
        res.name@ == message_name(language_tag@),
        res.id@ == language_tag@,
        res.language@ == match config {
            Some(ChromeConfig { locale: Some(l), .. }) => l@,
            _ => DEFAULT_LONG_LOCALE@,
        },
        res.layouts@.len() == 1,
        res.layouts@[0]@ == match config {
            Some(ChromeConfig { xkb_layout: Some(x), .. }) => x@,
            _ => DEFAULT_XKB_LAYOUT@,
        },
{
    let locale = match config {
        Some(c) => match &c.locale {
            Some(l) => l.as_str().to_string(),
            None => DEFAULT_LONG_LOCALE.to_string(),
        },
        None => DEFAULT_LONG_LOCALE.to_string(),
    };
    let xkb_layout = match config {
        Some(c) => match &c.xkb_layout {
            Some(x) => x.as_str().to_string(),
            None => DEFAULT_XKB_LAYOUT.to_string(),
        },
        None => DEFAULT_XKB_LAYOUT.to_string(),
    };
    ManifestInputComponent::from_config(language_tag, locale, xkb_layout)
}

} // verus!

verus! {

/// A layer's keys by key code: the code of each position with the key the
/// layer has there.
pub open spec fn layer_key_codes(keys: Seq<Seq<char>>) -> Seq<(Seq<char>, Seq<char>)> {
    Seq::new(CHROMEOS_KEY_COUNT as nat, |c: int| (chromeos_key(c)@, keys[c]))
}

/// Whether no two layers are of the same kind.
pub open spec fn layers_distinct<V>(layers: Seq<(ChromeOsKbdLayer, V)>) -> bool {
    forall|i: int, j: int| 0 <= i < j < layers.len() ==> layers[i].0 != layers[j].0
}

fn layer_codes(key_map: &str) -> (res: Vec<(String, String)>)
    requires
        words(key_map@).len() >= CHROMEOS_KEY_COUNT,
    ensures
        pair_texts(res@) == layer_key_codes(words(key_map@)),
{
    let keys = split_keys(key_map);
    let mut out: Vec<(String, String)> = Vec::new();
    let mut c: usize = 0;
    while c < CHROMEOS_KEY_COUNT
        invariant
            c <= CHROMEOS_KEY_COUNT,
            string_views(keys@) == words(key_map@),
            keys.len() >= CHROMEOS_KEY_COUNT,
            pair_texts(out@) == layer_key_codes(words(key_map@)).take(c as int),
        decreases CHROMEOS_KEY_COUNT - c,
    {
        let code = chromeos_key_at(c).to_string();
        let key = keys[c].as_str().to_string();
        assert(key@ == string_views(keys@)[c as int]);
        let ghost before = out@;
        out.push((code, key));
        assert(out@ == before.push((code, key)));
        assert(pair_texts(out@) =~= pair_texts(before).push((code@, key@)));
        assert(layer_key_codes(words(key_map@)).take(c + 1) =~= layer_key_codes(words(key_map@)).take(
            c as int,
        ).push((chromeos_key(c as int)@, words(key_map@)[c as int])));
        assert(pair_texts(out@) =~= layer_key_codes(words(key_map@)).take(c + 1));
        c = c + 1;
    }
    out
}

/// Whether the layers can be given key codes: no layer occurs twice and each
/// has a key for every position, computed.
pub fn chromeos_layers_are_usable(layers: &Vec<(ChromeOsKbdLayer, String)>) -> (res: bool)
    ensures
        res == (layers_distinct(layers@) && forall|l: int|
            0 <= l < layers.len() ==> words(#[trigger] layers@[l].1@).len() >= CHROMEOS_KEY_COUNT),
{
    let mut l: usize = 0;
    while l < layers.len()
        invariant
            l <= layers.len(),
            forall|i: int, j: int| 0 <= i < j < l ==> layers@[i].0 != layers@[j].0,
            forall|k: int| 0 <= k < l ==> words(#[trigger] layers@[k].1@).len() >= CHROMEOS_KEY_COUNT,
        decreases layers.len() - l,
    {
        let keys = split_keys(layers[l].1.as_str());
        if keys.len() < CHROMEOS_KEY_COUNT {
            return false;
        }
        let mut i: usize = 0;
        while i < l
            invariant
                i <= l,
                l < layers.len(),
                forall|m: int| 0 <= m < i ==> layers@[m].0 != layers@[l as int].0,
            decreases l - i,
        {
            if layers[i].0 == layers[l].0 {
                assert(!layers_distinct(layers@));
                return false;
            }
            i = i + 1;
        }
        l = l + 1;
    }
    true
}

/// The layers of a ChromeOS keyboard descriptor: for each layer, in order,
/// its keys by key code.
pub fn generate_layers(layers: &Vec<(ChromeOsKbdLayer, String)>) -> (res: Vec<
    (ChromeOsKbdLayer, Vec<(String, String)>),
>)
    requires
        layers_distinct(layers@),
        forall|l: int| 0 <= l < layers.len() ==> words(#[trigger] layers@[l].1@).len() >= CHROMEOS_KEY_COUNT,
    ensures
        res.len() == layers.len(),
        forall|l: int|
            0 <= l < layers.len() ==> #[trigger] res@[l].0 == layers@[l].0 && pair_texts(res@[l].1@)
                == layer_key_codes(words(layers@[l].1@)),
{
    let mut out: Vec<(ChromeOsKbdLayer, Vec<(String, String)>)> = Vec::new();
    let mut l: usize = 0;
    while l < layers.len()
        invariant
            l <= layers.len(),
            forall|k: int| 0 <= k < layers.len() ==> words(#[trigger] layers@[k].1@).len() >= CHROMEOS_KEY_COUNT,
            out.len() == l,
            forall|k: int|
                0 <= k < l ==> #[trigger] out@[k].0 == layers@[k].0 && pair_texts(out@[k].1@)
                    == layer_key_codes(words(layers@[k].1@)),
        decreases layers.len() - l,
    {
        let codes = layer_codes(layers[l].1.as_str());
        out.push((layers[l].0, codes));
        l = l + 1;
    }
    out
}

/// What the messages of a locale need of a layout: its language tag,
/// whether it has ChromeOS layers, and its display names by language.
#[derive(Debug)]
pub struct ChromeLayoutNames {
    pub language_tag: String,
    pub has_chrome_os: bool,
    pub display_names: Vec<(String, String)>,
}

/// The messages of locale `locale`: for each layout with ChromeOS layers and
/// a display name in that locale, in order, its tag in ChromeOS form and the
/// keyboard's name made from the display name.
pub open spec fn locale_messages_of(locale: Seq<char>, layouts: Seq<ChromeLayoutNames>) -> Seq<
    (Seq<char>, Seq<char>),
>
    decreases layouts.len(),
{
    if layouts.len() == 0 {
        seq![]
    } else {
        let rest = locale_messages_of(locale, layouts.drop_last());
        let l = layouts.last();
        match first_key_index(l.display_names@, locale) {
            Some(i) => if l.has_chrome_os {
                rest.push(
                    (
                        replace_char(l.language_tag@, '-', "_"@),
                        replaced(keyboard_name_template(locale), "{}"@, l.display_names@[i].1@),
                    ),
                )
            } else {
                rest
            },
            None => rest,
        }
    }
}

/// Messages by value.
pub open spec fn message_views(v: Seq<(String, LocaleMessage)>) -> Seq<(Seq<char>, Seq<char>)> {
    v.map_values(|p: (String, LocaleMessage)| (p.0@, p.1.message@))
}

/// The messages naming the keyboards of the ChromeOS layouts in locale
/// `locale`.
pub fn locale_messages(locale: &str, layouts: &Vec<ChromeLayoutNames>) -> (res: Vec<(String, LocaleMessage)>)
    ensures
        message_views(res@) == locale_messages_of(locale@, layouts@),
{
    let mut out: Vec<(String, LocaleMessage)> = Vec::new();
    let mut k: usize = 0;
    while k < layouts.len()
        invariant
            k <= layouts.len(),
            message_views(out@) == locale_messages_of(locale@, layouts@.take(k as int)),
        decreases layouts.len() - k,
    {
        let layout = &layouts[k];
        assert(layouts@.take(k + 1).drop_last() =~= layouts@.take(k as int));
        assert(layouts@.take(k + 1).last() == layouts@[k as int]);
        proof {
            lemma_first_key_index(layout.display_names@, locale@);
        }
        if layout.has_chrome_os {
            match find_key(&layout.display_names, locale) {
                Some(i) => {
                    let ghost j = first_key_index(layout.display_names@, locale@).unwrap();
                    assert(0 <= j < layout.display_names.len());
                    assert(j == i as int);
                    let name = to_chrome_locale(layout.language_tag.as_str().to_string());
                    let message = keyboard_name(locale, layout.display_names[i].1.as_str());
                    assert(message@ == replaced(keyboard_name_template(locale@), "{}"@, layout.display_names@[j].1@));
                    let ghost before = out@;
                    let ghost pair = (name@, message@);
                    out.push((name, LocaleMessage { message }));
                    assert(message_views(out@) =~= message_views(before).push(pair));
                    let ghost t = layouts@.take(k + 1);
                    assert(t.last().display_names@ == layout.display_names@);
                    assert(first_key_index(t.last().display_names@, locale@) == Some(j));
                    assert(t.last().has_chrome_os);
                    assert(pair.0 == replace_char(t.last().language_tag@, '-', "_"@));
                    assert(pair.1 == replaced(keyboard_name_template(locale@), "{}"@, t.last().display_names@[j].1@));
                    assert(locale_messages_of(locale@, t) == locale_messages_of(locale@, t.drop_last()).push(pair));
                    assert(message_views(out@) =~= locale_messages_of(locale@, layouts@.take(k + 1)));
                },
                None => {},
            }
        }
        k = k + 1;
    }
    assert(layouts@.take(k as int) =~= layouts@);
    out
}

} // verus!

verus! {

/// A locale in ChromeOS form holds no hyphen.
pub proof fn lemma_chrome_locale_has_no_hyphen(locale: Seq<char>)
    ensures
        !replace_char(locale, '-', "_"@).contains('-'),
{
    reveal_strlit("_");
    crate::text::lemma_replace_char_removes(locale, '-', "_"@);
}

} // verus!
