use kbdgen::android::longpress_is_usable;
use kbdgen::chromeos::chromeos_layers_are_usable;
use kbdgen::klc::dead_keys_are_writable;
use kbdgen::klc_generate::windows_layers_are_usable;
use kbdgen::layer_set::key_is_processable;
use kbdgen::layout::{ChromeOsKbdLayer, LanguageTagParts, Transform, WindowsKbdLayer};
use kbdgen::project::{check_display_names, dependency_archive_url, dependency_folder_name};
use kbdgen::text::escapes_decode;
use kbdgen::xcode::path_is_inside;

const DEFAULT_KEYS: &str = "` 1 2 3 4 5 6 7 8 9 0 - = q w e r t y u i o p [ ] a s d f g h j k l ; ' \\ < z x c v b n m , . /";

fn s(v: &str) -> String {
    v.to_string()
}

#[test]
fn escapes_decode_unless_one_writes_no_character() {
    assert!(escapes_decode("plain"));
    assert!(escapes_decode("\\u{301}a"));
    assert!(escapes_decode("\\u{zz}"));
    assert!(!escapes_decode("\\u{d800}"));
    assert!(!escapes_decode("a\\u{110000}"));
}

#[test]
fn keys_can_be_processed_unless_beyond_the_basic_plane_or_undecodable() {
    assert!(key_is_processable("a"));
    assert!(key_is_processable("\\u{0}"));
    assert!(!key_is_processable("😀"));
    assert!(!key_is_processable("\\u{dfff}"));
}

#[test]
fn windows_layers_need_a_processable_key_at_each_position() {
    assert!(windows_layers_are_usable(&vec![(WindowsKbdLayer::Default, s(DEFAULT_KEYS))]));
    assert!(!windows_layers_are_usable(&vec![(WindowsKbdLayer::Default, s("a b c"))]));
    let with_emoji = DEFAULT_KEYS.replacen("q", "😀", 1);
    assert!(!windows_layers_are_usable(&vec![(WindowsKbdLayer::Default, with_emoji)]));
}

#[test]
fn dead_keys_are_writable_when_their_transforms_fit_the_klc_format() {
    let good = Some(vec![(
        s("'"),
        Transform::More(vec![(s(" "), Transform::End(s("'"))), (s("a"), Transform::End(s("á")))]),
    )]);
    assert!(dead_keys_are_writable(&vec!['\''], &good));
    assert!(dead_keys_are_writable(&vec!['\''], &None));
    let no_escape = Some(vec![(s("'"), Transform::More(vec![(s("a"), Transform::End(s("á")))]))]);
    assert!(!dead_keys_are_writable(&vec!['\''], &no_escape));
    let nested = Some(vec![(
        s("'"),
        Transform::More(vec![(s(" "), Transform::End(s("'"))), (s("a"), Transform::More(vec![]))]),
    )]);
    assert!(!dead_keys_are_writable(&vec!['\''], &nested));
    assert!(dead_keys_are_writable(&vec!['`'], &nested));
}

#[test]
fn chromeos_layers_must_be_distinct_and_complete() {
    let keys = "` 1 2 3 4 5 6 7 8 9 0 - = q w e r t y u i o p [ ] \\ a s d f g h j k l ; ' z x c v b n m , . / x";
    let full = vec![(ChromeOsKbdLayer::Default, s(keys)), (ChromeOsKbdLayer::Shift, s(keys))];
    assert!(chromeos_layers_are_usable(&full));
    let twice = vec![(ChromeOsKbdLayer::Default, s(keys)), (ChromeOsKbdLayer::Default, s(keys))];
    assert!(!chromeos_layers_are_usable(&twice));
    assert!(!chromeos_layers_are_usable(&vec![(ChromeOsKbdLayer::Default, s("a b"))]));
}

#[test]
fn longpress_lists_below_the_first_line_must_not_be_empty() {
    let lp = Some(vec![(s("a"), vec![s("á"), s("à")]), (s("e"), vec![])]);
    assert!(longpress_is_usable("q w\na s", &lp));
    assert!(!longpress_is_usable("q w\ne s", &lp));
    assert!(longpress_is_usable("e w\na s", &lp));
    assert!(longpress_is_usable("q w\ne s", &None));
}

#[test]
fn shift_and_backspace_need_no_longpress_keys() {
    let lp = Some(vec![(s("\\s{shift}"), vec![]), (s("\\s{backspace}"), vec![]), (s("e"), vec![])]);
    assert!(longpress_is_usable("q w\n\\s{shift} a s \\s{backspace}", &lp));
    assert!(!longpress_is_usable("q w\n\\s{shift} e s \\s{backspace}", &lp));
}

#[test]
fn dependencies_are_fetched_from_their_github_archive() {
    assert_eq!(
        dependency_archive_url("giellalt/keyboard-sme", &None),
        "https://github.com/giellalt/keyboard-sme/archive/main.zip"
    );
    assert_eq!(
        dependency_archive_url("giellalt/keyboard-sme", &Some(s("feature/x"))),
        "https://github.com/giellalt/keyboard-sme/archive/feature/x.zip"
    );
    assert_eq!(dependency_folder_name("giellalt/keyboard-sme", &None), Some(s("keyboard-sme-main")));
    assert_eq!(
        dependency_folder_name("giellalt/keyboard-sme/extra", &Some(s("feature/x"))),
        Some(s("keyboard-sme-feature-x"))
    );
    assert_eq!(dependency_folder_name("noslash", &None), None);
}

#[test]
fn a_path_is_inside_a_folder_it_names_before_more_path() {
    assert!(path_is_inside("/out/repo/Keyboard/sami", "repo"));
    assert!(!path_is_inside("/out/repo", "repo"));
    assert!(!path_is_inside("/out/other/Keyboard", "repo"));
}

#[test]
fn a_layout_needs_a_display_name_in_its_primary_language() {
    let tag = LanguageTagParts { tag: s("se-NO"), primary_language: s("se"), script: None, region: Some(s("NO")) };
    let names = vec![(s("en"), s("Northern Sami")), (s("se"), s("Davvisámegiella"))];
    assert_eq!(check_display_names(&tag, &names), Ok(()));
    assert_eq!(
        check_display_names(&tag, &vec![(s("en"), s("Northern Sami")), (s("se-NO"), s("Davvisámegiella"))]),
        Err(s("Missing mandatory display name for language tag: `se-NO`"))
    );
}
