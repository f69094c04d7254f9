use kbdgen::klc::{
    display_klc_character, is_klc_representable, write_transform, KlcDeadKeys, KlcFile, KlcFileMetadata, KlcKey,
    KlcLayer, KlcLayout, KlcLayoutRow, KlcLigature, KlcLigatureRow, KlcRow, LayerColumn,
};
use kbdgen::klc_build::BuildKlc;
use kbdgen::klc_generate::{
    convert_to_klc_key, decimal_layout_row, generate_metadata, klc_file_bytes, klc_file_name, klc_metadata,
    layer_set_for_position, msklc_key, space_layout_row, GenerateKlc, MSKLC_KEY_COUNT,
};
use kbdgen::layer_set::{WindowsLayerSetKey, WindowsLayoutKey, WindowsLayoutSet};
use kbdgen::layout::{LanguageTagParts, Transform, WindowsConfig, WindowsKbdLayer};

const DEFAULT_KEYS: &str = "` 1 2 3 4 5 6 7 8 9 0 - = q w e r t y u i o p [ ] a s d f g h j k l ; ' \\ < z x c v b n m , . /";
const SHIFT_KEYS: &str = "~ ! @ # $ % ^ & * ( ) _ + Q W E R T Y U I O P { } A S D F G H J K L : \" | > Z X C V B N M < > ?";

fn row_text(row: &KlcLayoutRow) -> String {
    row.to_klc_string()
}

fn metadata() -> KlcFileMetadata {
    KlcFileMetadata {
        keyboard_name: "kbdtest".to_string(),
        description: "Test".to_string(),
        copyright: "Me".to_string(),
        company: "Us".to_string(),
        autonym: "Testish".to_string(),
        locale_id: 0x409,
        locale_name: "en-US".to_string(),
    }
}

fn two_layers() -> Vec<(WindowsKbdLayer, String)> {
    vec![
        (WindowsKbdLayer::Default, DEFAULT_KEYS.to_string()),
        (WindowsKbdLayer::Shift, SHIFT_KEYS.to_string()),
    ]
}

#[test]
fn klc_characters_are_ascii_or_hex() {
    assert_eq!(display_klc_character('a'), "a");
    assert_eq!(display_klc_character(' '), "0020");
    assert_eq!(display_klc_character('á'), "00e1");
}

#[test]
fn klc_characters_beyond_the_bmp_are_written_as_utf16_units() {
    assert_eq!(display_klc_character('\u{1F600}'), "d83dde00");
    assert_eq!(display_klc_character('\u{10000}'), "d800dc00");
    assert_eq!(display_klc_character('\u{10FFFF}'), "dbffdfff");
    assert_eq!(KlcKey::DeadKey('\u{1F600}').to_klc_string(), "d83dde00@");
}

#[test]
fn klc_keys_are_written_by_kind() {
    assert_eq!(KlcKey::Character('q').to_klc_string(), "q");
    assert_eq!(KlcKey::DeadKey('´').to_klc_string(), "00b4@");
    assert_eq!(KlcKey::Ligature.to_klc_string(), "%%");
    assert_eq!(KlcKey::Empty.to_klc_string(), "-1");
    assert_eq!(KlcKey::Skip.to_klc_string(), "");
}

#[test]
fn only_basic_plane_keys_are_representable() {
    assert!(is_klc_representable("abc"));
    assert!(!is_klc_representable("😀"));
}

#[test]
fn transforms_are_written_as_hex_units() {
    assert_eq!(write_transform("a", "á"), "0061\t00e1\n");
    assert_eq!(write_transform("ab", "c"), "");
}

#[test]
fn first_position_is_the_backquote_key() {
    let codes = msklc_key(0);
    assert_eq!(codes.scancode, "29");
    assert_eq!(codes.virtual_key, "OEM_3");
    let last = msklc_key(MSKLC_KEY_COUNT - 1);
    assert_eq!(last.scancode, "35");
    assert_eq!(last.virtual_key, "OEM_2");
}

#[test]
fn space_and_decimal_rows() {
    assert_eq!(row_text(&space_layout_row()), "39\tSPACE\t0\t0020\t0020\t0020\t-1\t-1\n");
    assert_eq!(row_text(&decimal_layout_row(&None)), "53\tDECIMAL\t0\t.\t.\t-1\t-1\t-1\n");
    assert_eq!(row_text(&decimal_layout_row(&Some(",".to_string()))), "53\tDECIMAL\t0\t,\t,\t-1\t-1\t-1\n");
}

#[test]
fn keys_convert_to_characters_dead_keys_and_ligatures() {
    let mut ligatures = Vec::new();
    let mut dead = Vec::new();
    let plain = convert_to_klc_key(
        Some(WindowsLayerSetKey { string: "a".to_string(), dead_key: false }),
        "A",
        KlcLayer::Shift,
        &mut ligatures,
        &mut dead,
    );
    assert_eq!(plain, KlcKey::Character('a'));
    let dead_key = convert_to_klc_key(
        Some(WindowsLayerSetKey { string: "´".to_string(), dead_key: true }),
        "A",
        KlcLayer::Default,
        &mut ligatures,
        &mut dead,
    );
    assert_eq!(dead_key, KlcKey::DeadKey('´'));
    assert_eq!(dead, vec!['´']);
    let ligature = convert_to_klc_key(
        Some(WindowsLayerSetKey { string: "ng".to_string(), dead_key: false }),
        "N",
        KlcLayer::AltAndShift,
        &mut ligatures,
        &mut dead,
    );
    assert_eq!(ligature, KlcKey::Ligature);
    assert_eq!(ligatures.len(), 1);
    assert_eq!(ligatures[0].virtual_key, "N");
    assert_eq!(ligatures[0].shift_state, "4");
    assert_eq!(ligatures[0].utf16s, vec![0x6e, 0x67]);
    let none = convert_to_klc_key(None, "N", KlcLayer::Ctrl, &mut ligatures, &mut dead);
    assert_eq!(none, KlcKey::Empty);
    assert_eq!(ligatures.len(), 1);
    assert_eq!(dead.len(), 1);
}

#[test]
fn a_position_reads_every_layer() {
    let layers = two_layers();
    let set = layer_set_for_position(&layers, 13, &None);
    assert_eq!(set.default.as_ref().unwrap().string, "q");
    assert_eq!(set.shift.as_ref().unwrap().string, "Q");
    assert!(set.caps.is_none());
    assert_eq!(set.caps_mode(), "1");
}

#[test]
fn klc_file_has_a_row_per_position_and_the_two_extra_keys() {
    let layers = two_layers();
    let transforms = None;
    let file = GenerateKlc {}.klc_file(metadata(), &layers, &None, &None, &transforms);
    assert_eq!(file.layout.rows.len(), MSKLC_KEY_COUNT + 2);
    assert_eq!(row_text(&file.layout.rows[0]), "29\tOEM_3\t1\t`\t~\t-1\t-1\t-1\n");
    assert_eq!(row_text(&file.layout.rows[13]), "10\tQ\t1\tq\tQ\t-1\t-1\t-1\n");
    assert_eq!(row_text(&file.layout.rows[48]), "39\tSPACE\t0\t0020\t0020\t0020\t-1\t-1\n");
    assert_eq!(file.ligature.rows.len(), 0);
    assert!(file.dead_keys.characters.is_empty());
}

#[test]
fn sg_cap_keys_get_a_second_row() {
    let caps: Vec<String> = DEFAULT_KEYS.split_whitespace().map(|k| if k == "q" { "ŋ".to_string() } else { k.to_uppercase() }).collect();
    let mut layers = two_layers();
    layers.push((WindowsKbdLayer::Caps, caps.join(" ")));
    let transforms = None;
    let file = GenerateKlc {}.klc_file(metadata(), &layers, &None, &None, &transforms);
    assert_eq!(file.layout.rows.len(), MSKLC_KEY_COUNT + 3);
    assert_eq!(row_text(&file.layout.rows[13]), "10\tQ\tSGCap\tq\tQ\t-1\t-1\t-1\n");
    assert_eq!(row_text(&file.layout.rows[14]), "-1\t-1\t0\t014b\t-1\t\t\t\n");
}

#[test]
fn dead_keys_and_ligatures_follow_the_layout() {
    let mut default: Vec<String> = DEFAULT_KEYS.split_whitespace().map(|k| k.to_string()).collect();
    default[0] = "´".to_string();
    default[1] = "ng".to_string();
    let layers = vec![(WindowsKbdLayer::Default, default.join(" "))];
    let dead_keys = Some(vec![(WindowsKbdLayer::Default, vec!["´".to_string()])]);
    let transforms = Some(vec![(
        "´".to_string(),
        Transform::More(vec![
            ("a".to_string(), Transform::End("á".to_string())),
            (" ".to_string(), Transform::End("´".to_string())),
        ]),
    )]);
    let file = GenerateKlc {}.klc_file(metadata(), &layers, &dead_keys, &None, &transforms);
    assert_eq!(file.dead_keys.characters, vec!['´']);
    assert_eq!(file.ligature.rows.len(), 1);
    assert_eq!(file.ligature.rows[0].virtual_key, "1");
    assert_eq!(file.ligature.rows[0].shift_state, "0");
    assert_eq!(row_text(&file.layout.rows[0]), "29\tOEM_3\t1\t00b4@\t-1\t-1\t-1\t-1\n");
    assert_eq!(row_text(&file.layout.rows[1]), "02\t1\t1\t%%\t-1\t-1\t-1\t-1\n");
    let text = file.to_klc_string();
    assert!(text.contains("LIGATURE\n\n1\t0\t006e\t0067\n\n"));
    assert!(text.contains("DEADKEY 00b4\n\n0061\t00e1\n0020\t00b4\n\n"));
}

#[test]
fn klc_file_bytes_are_utf16le_with_bom() {
    let layers = two_layers();
    let transforms = None;
    let file = GenerateKlc {}.klc_file(metadata(), &layers, &None, &None, &transforms);
    let text = file.to_klc_string();
    let bytes = klc_file_bytes(&file);
    assert_eq!(&bytes[..4], &[0xff, 0xfe, b'K', 0]);
    assert_eq!(bytes.len(), 2 + 2 * text.encode_utf16().count());
    assert!(text.starts_with("KBD\tkbdtest\t\"Test\"\n\nCOPYRIGHT\t\"Me\"\n\nCOMPANY\t\"Us\"\n\nLOCALENAME\t\"en-US\"\n\nLOCALEID\t\"00000409\"\n\n"));
    assert!(text.ends_with("\nDESCRIPTIONS\n\n0409\tTest\n\nLANGUAGENAMES\n\n0409\tTestish\n\nENDKBD\n"));
}

#[test]
fn klc_file_is_named_after_the_keyboard() {
    assert_eq!(klc_file_name(&metadata()), "kbdtest.klc");
}

fn parts(tag: &str, primary: &str, script: Option<&str>, region: Option<&str>) -> LanguageTagParts {
    LanguageTagParts {
        tag: tag.to_string(),
        primary_language: primary.to_string(),
        script: script.map(|s| s.to_string()),
        region: region.map(|s| s.to_string()),
    }
}

#[test]
fn metadata_without_lcid_names_a_custom_locale() {
    let m = klc_metadata(&parts("sme-NO", "sme", None, Some("NO")), &None, "Davvisámegiella", "C", "O", None);
    assert_eq!(m.keyboard_name, "kbdsme-N");
    assert_eq!(m.locale_id, 0x2000);
    assert_eq!(m.locale_name, "sme-Latn-NO");
    assert_eq!(m.description, "Davvisámegiella");
    assert_eq!(m.autonym, "Davvisámegiella");
    assert_eq!(m.copyright, "C");
    assert_eq!(m.company, "O");
}

#[test]
fn metadata_with_lcid_and_config() {
    let config = Some(WindowsConfig { locale: Some("se-NO".to_string()), id: Some("SME".to_string()) });
    let m = klc_metadata(&parts("se", "se", None, None), &config, "Sámi", "C", "O", Some(0x043b));
    assert_eq!(m.keyboard_name, "kbdSME");
    assert_eq!(m.locale_id, 0x043b);
    assert_eq!(m.locale_name, "se-NO");
    let m = klc_metadata(&parts("se", "se", None, None), &None, "Sámi", "C", "O", Some(0x043b));
    assert_eq!(m.locale_name, "se");
    assert_eq!(m.keyboard_name, "kbdse");
}

#[test]
fn metadata_looks_up_the_lcid() {
    let m = generate_metadata(&parts("en", "en", None, None), &None, "English", "C", "O");
    assert_eq!(m.locale_id, 1033);
    assert_eq!(m.locale_name, "en");
    let m = generate_metadata(&parts("en-GB", "en", None, Some("GB")), &None, "English", "C", "O");
    assert_eq!(m.locale_id, 2057);
    let m = generate_metadata(&parts("xx-Zzzz", "xx", Some("Zzzz"), None), &None, "X", "C", "O");
    assert_eq!(m.locale_id, 0x2000);
    assert_eq!(m.locale_name, "xx-Zzzz-001");
}

#[test]
fn ligature_rows_are_written_with_their_units() {
    let ligature = KlcLigature {
        rows: vec![KlcLigatureRow { virtual_key: "A".to_string(), shift_state: "1".to_string(), utf16s: vec![0x41, 0x301] }],
    };
    assert_eq!(ligature.to_klc_string(), "LIGATURE\n\nA\t1\t0041\t0301\n\n");
    assert_eq!(KlcLigature { rows: vec![] }.to_klc_string(), "");
}

#[test]
fn layout_sections_start_with_the_shift_states() {
    let layout = KlcLayout { rows: vec![space_layout_row()] };
    assert_eq!(
        layout.to_klc_string(),
        "SHIFTSTATE\n\n0 // 4\n1 // 5 Shift\n2 // 6 Ctrl\n6 // 7 Alt\n7 // 8 Alt + Shift\n\nLAYOUT\n\n39\tSPACE\t0\t0020\t0020\t0020\t-1\t-1\n\n"
    );
}

#[test]
fn dead_keys_without_transforms_write_nothing() {
    let none = None;
    let dead = KlcDeadKeys { characters: vec!['´'], transforms: &none };
    assert_eq!(dead.to_klc_string(), "");
}

#[test]
fn whole_klc_file_joins_its_sections() {
    let none = None;
    let file = KlcFile {
        metadata: metadata(),
        layout: KlcLayout { rows: vec![] },
        ligature: KlcLigature { rows: vec![] },
        dead_keys: KlcDeadKeys { characters: vec![], transforms: &none },
    };
    let text = file.to_klc_string();
    assert!(text.contains("VERSION\t1.0\n\nSHIFTSTATE"));
    assert!(text.contains("KEYNAME"));
}

#[test]
fn old_rows_are_tab_separated() {
    let row = KlcRow {
        scancode: "10".to_string(),
        virtual_key: "Q".to_string(),
        cap_mode: "1".to_string(),
        default_character: "q".to_string(),
        shift_character: "Q".to_string(),
    };
    assert_eq!(row.to_klc_string(), "10\tQ\t1\tq\tQ\n");
    assert_eq!(LayerColumn::AltAndShift, LayerColumn::AltAndShift);
}

#[test]
fn old_layout_sets_have_no_alt_caps_column() {
    let key = |s: &str| Some(WindowsLayoutKey { string: s.to_string(), dead_key: false });
    let set = WindowsLayoutSet {
        default: key("a"),
        shift: key("A"),
        caps: key("A"),
        caps_and_shift: None,
        alt: key("x"),
        alt_and_shift: key("y"),
        ctrl: None,
    };
    assert_eq!(set.caps_mode(), "1");
    let set = WindowsLayoutSet {
        default: key("a"),
        shift: key("A"),
        caps: None,
        caps_and_shift: None,
        alt: key("x"),
        alt_and_shift: key("y"),
        ctrl: None,
    };
    assert_eq!(set.caps_mode(), "5");
    let set = WindowsLayoutSet {
        default: key("a"),
        shift: key("A"),
        caps: key("b"),
        caps_and_shift: None,
        alt: None,
        alt_and_shift: None,
        ctrl: None,
    };
    assert_eq!(set.caps_mode(), "SGCap");
}

#[test]
fn dll_build_command_lines() {
    assert_eq!(BuildKlc::kbdutool_args("C:\\kbd.klc"), vec!["-n", "-s", "-u", "C:\\kbd.klc"]);
    assert_eq!(BuildKlc::source_prefix("kbdsme.klc"), "kbdsme");
    let cl = BuildKlc::cl_args("C:\\build", "kbdsme");
    assert_eq!(cl[0], "-nologo");
    assert_eq!(cl[1], "-IC:\\build");
    assert_eq!(cl.last().unwrap(), "kbdsme.C");
    let rc = BuildKlc::rc_args("C:\\build", "kbdsme");
    assert_eq!(rc[0], "-r");
    assert_eq!(&rc[rc.len() - 3..], &["-l", "409", "kbdsme.RC"]);
    let link = BuildKlc::link_args("kbdsme");
    assert_eq!(&link[link.len() - 3..], &["-def:kbdsme.def", "kbdsme.res", "kbdsme.obj"]);
}
