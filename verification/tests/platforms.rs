use kbdgen::android::{
    compute_key_hint_label_index, create_key_attributes, create_numbered_key_attributes, escape_quotes,
    generate_gradle_local, line_keys, AndroidBuildTarget, GenerateAndroid,
};
use kbdgen::chromeos::{
    chromeos_key_at, chromeos_manifest, generate_layers, input_component, keyboard_name, locale_messages,
    to_chrome_locale, ChromeLayoutNames, ManifestInputComponent,
};
use kbdgen::ios::{
    after_last_dot, all_pkg_ids, fastlane_env, ios_layer_name, pkg_id, profile_target_name, remove_all_occurrences,
    BuildXcarchive, FastlaneProduce, FastlaneProvisioning, GenerateIos, IosTarget, PodInstall,
};
use kbdgen::layout::{AndroidKbdLayer, ChromeConfig, ChromeOsKbdLayer, IOsKbdLayer, KeyNames};
use kbdgen::macos_bundle::{
    bundle_id, translation_strings_text, Bundle, GenerateInstaller, InfoPlist, MacOsBuildTarget,
};
use kbdgen::sorted::sort_strings;
use kbdgen::project::{locale_description, supported_decimal, LocaleProjectDescription};

fn attrs(v: &[(&str, &str)]) -> Vec<(String, String)> {
    v.iter().map(|(a, b)| (a.to_string(), b.to_string())).collect()
}

#[test]
fn quotes_are_escaped() {
    assert_eq!(escape_quotes(Some("a\"b")), Some("a\\\"b".to_string()));
    assert_eq!(escape_quotes(None), None);
}

#[test]
fn key_hints_run_one_to_nine_then_zero() {
    let hints: Vec<Option<usize>> = (0..11).map(compute_key_hint_label_index).collect();
    assert_eq!(
        hints,
        vec![Some(1), Some(2), Some(3), Some(4), Some(5), Some(6), Some(7), Some(8), Some(9), Some(0), None]
    );
}

#[test]
fn android_names_of_a_layout() {
    assert_eq!(GenerateAndroid::snake_case_display_name("North Sámi (Norway)"), "north_sámi_norway");
    assert_eq!(GenerateAndroid::subtype_language_tag("se-NO"), "se_no");
    assert_eq!(GenerateAndroid::ime_name("Sámi"), "Sámi Keyboard");
    let name = GenerateAndroid::snake_case_display_name("A (b) C");
    assert!(!name.contains(' ') && !name.contains('(') && !name.contains(')'));
}

#[test]
fn top_row_keys_are_numbered() {
    let lp = vec!["á".to_string(), "à".to_string()];
    assert_eq!(
        create_numbered_key_attributes("a", Some(1), Some(&lp)),
        attrs(&[
            ("latin:keySpec", "a"),
            ("latin:keyHintLabel", "1"),
            ("latin:additionalMoreKeys", "1"),
            ("latin:moreKeys", "á,à")
        ])
    );
    assert_eq!(create_numbered_key_attributes("\\s{shift}", Some(1), None), attrs(&[("latin:keyStyle", "shiftKeyStyle")]));
    assert_eq!(
        create_numbered_key_attributes("\\s{backspace}", None, None),
        attrs(&[("latin:keyStyle", "deleteKeyStyle")])
    );
}

#[test]
fn lower_row_keys() {
    let lp = vec!["á".to_string(), "à".to_string()];
    let key = create_key_attributes("a", Some(&lp), 10, 2);
    assert_eq!(key.attributes, attrs(&[("latin:keyHintLabel", "á"), ("latin:moreKeys", "á,à"), ("latin:keySpec", "a")]));
    assert_eq!(key.shift_fill, None);
    let shift = create_key_attributes("\\s{shift}", None, 10, 2);
    assert_eq!(shift.attributes, attrs(&[("latin:keyStyle", "shiftKeyStyle")]));
    assert_eq!(shift.shift_fill, Some((8, 2)));
    let empty: Vec<String> = vec![];
    let shift_with_empty = create_key_attributes("\\s{shift}", Some(&empty), 10, 2);
    assert_eq!(shift_with_empty.attributes, attrs(&[("latin:keyStyle", "shiftKeyStyle")]));
    let back = create_key_attributes("\\s{backspace}", None, 10, 2);
    assert_eq!(back.attributes, attrs(&[("latin:keyStyle", "deleteKeyStyle"), ("latin:keyWidth", "fillRight")]));
}

#[test]
fn rows_of_an_android_keyboard() {
    let longpress = Some(vec![("e".to_string(), vec!["é".to_string()])]);
    let top = line_keys("q w e", 0, &longpress);
    assert_eq!(top.len(), 3);
    assert_eq!(top[2].attributes[3], ("latin:moreKeys".to_string(), "é".to_string()));
    let layers = vec![
        (AndroidKbdLayer::Default, "q w e\n\\s{shift} z \\s{backspace}".to_string()),
        (AndroidKbdLayer::Shift, "Q W E".to_string()),
    ];
    let rows = GenerateAndroid::rows_keys(&layers, &longpress);
    assert_eq!(rows.default_rows.len(), 2);
    assert_eq!(rows.shift_rows.len(), 1);
    assert_eq!(rows.default_rows[1][0].shift_fill, Some((1, 2)));
    assert_eq!(GenerateAndroid::longest_row_count("q w e\na s\n"), 3);
}

#[test]
fn android_subtypes() {
    assert_eq!(
        GenerateAndroid::method_subtype_attributes("se-NO", "north_sami", "se_no"),
        attrs(&[
            ("android:icon", "@drawable/ic_ime_switcher_dark"),
            ("android:imeSubtypeMode", "keyboard"),
            ("android:label", "@string/subtype_se_no"),
            ("android:imeSubtypeLocale", "se_NO"),
            ("android:imeSubtypeExtraValue", "KeyboardLayoutSet=north_sami,AsciiCapable,EmojiCapable"),
            ("android:isAsciiCapable", "true")
        ])
    );
    assert_eq!(
        GenerateAndroid::spellchecker_subtype_attributes("se-NO", "se_no"),
        attrs(&[("android:label", "@string/subtype_se_no"), ("android:subtypeLocale", "se-NO")])
    );
}

#[test]
fn gradle_local_file() {
    let target = AndroidBuildTarget {
        key_store: Some("ks".to_string()),
        key_alias: Some("al\"ias".to_string()),
        play_store_account: None,
        play_store_p12: None,
        store_password: Some("pa$$".to_string()),
        key_password: None,
        package_id: "no.uit.kbd".to_string(),
        build: 42,
        version: "1.0".to_string(),
    };
    let text = generate_gradle_local(&target, Some("C:\\ks"));
    assert_eq!(
        text,
        "ext.app = [\n    storeFile: \"C:\\\\ks\",\n    keyAlias: \"al\\\"ias\",\n    storePassword: \"pa\\$\\$\",\n    keyPassword: \"\",\n    packageName: \"no.uit.kbd\",\n    versionCode: 42,\n    versionName: \"1.0\",\n    playEmail: \"\",\n    playCredentials: \"\"\n]"
    );
}

#[test]
fn chromeos_input_components_and_manifest() {
    let c = ManifestInputComponent::from_config("se-NO".to_string(), "se".to_string(), "no".to_string());
    assert_eq!(c.name, "__MSG_se_NO__");
    assert_eq!(c.description, "__MSG_se_NO__");
    assert_eq!(c.input_type, "ime");
    assert_eq!(c.id, "se-NO");
    assert_eq!(c.layouts, vec!["no"]);
    let d = input_component("sma".to_string(), &None);
    assert_eq!(d.language, "en-US");
    assert_eq!(d.layouts, vec!["us"]);
    let e = input_component("sma".to_string(), &Some(ChromeConfig { locale: Some("sma".to_string()), xkb_layout: None }));
    assert_eq!(e.language, "sma");
    let m = chromeos_manifest("3", "1.2", vec![c]);
    assert_eq!(m.name, "__MSG_name__");
    assert_eq!(m.version, "3");
    assert_eq!(m.version_name, "1.2");
    assert_eq!(m.manifest_version, 2);
    assert_eq!(m.background.scripts, vec!["background.js"]);
    assert_eq!(m.permissions, vec!["input"]);
    assert_eq!(m.default_locale, "en");
    assert_eq!(m.icons.icon_128, "icon128.png");
}

#[test]
fn chromeos_locales_and_keyboard_names() {
    assert_eq!(to_chrome_locale("se-NO".to_string()), "se_NO");
    assert!(!to_chrome_locale("a-b-c".to_string()).contains('-'));
    assert_eq!(keyboard_name("nb", "Samisk"), "Samisk tastatur");
    assert_eq!(keyboard_name("fi", "Saame"), "Saame näppäimistö");
    assert_eq!(keyboard_name("de", "Samisch"), "Samisch keyboard");
    let layouts = vec![
        ChromeLayoutNames {
            language_tag: "se-NO".to_string(),
            has_chrome_os: true,
            display_names: vec![("nb".to_string(), "Nordsamisk".to_string())],
        },
        ChromeLayoutNames {
            language_tag: "sma".to_string(),
            has_chrome_os: false,
            display_names: vec![("nb".to_string(), "Sørsamisk".to_string())],
        },
    ];
    let messages = locale_messages("nb", &layouts);
    assert_eq!(messages.len(), 1);
    assert_eq!(messages[0].0, "se_NO");
    assert_eq!(messages[0].1.message, "Nordsamisk tastatur");
}

#[test]
fn chromeos_layers_by_key_code() {
    assert_eq!(chromeos_key_at(0), "Backquote");
    assert_eq!(chromeos_key_at(47), "Slash");
    let keys: Vec<String> = (0..48).map(|i| format!("k{i}")).collect();
    let layers = generate_layers(&vec![(ChromeOsKbdLayer::Default, keys.join(" "))]);
    assert_eq!(layers.len(), 1);
    assert_eq!(layers[0].1.len(), 48);
    assert_eq!(layers[0].1[13], ("KeyQ".to_string(), "k13".to_string()));
}

#[test]
fn ios_names() {
    assert_eq!(ios_layer_name(&IOsKbdLayer::Default), "normal");
    assert_eq!(ios_layer_name(&IOsKbdLayer::AltAndShift), "alt+shift");
    let names: Vec<String> = [
        IOsKbdLayer::Default,
        IOsKbdLayer::Shift,
        IOsKbdLayer::Alt,
        IOsKbdLayer::AltAndShift,
        IOsKbdLayer::Symbols1,
        IOsKbdLayer::Symbols2,
    ]
    .iter()
    .map(ios_layer_name)
    .collect();
    for i in 0..names.len() {
        for j in 0..i {
            assert_ne!(names[i], names[j]);
        }
    }
    assert_eq!(remove_all_occurrences("\"a\"b".to_string(), '"'), "ab");
}

#[test]
fn ios_keyboard_info() {
    let key_names = KeyNames { space: "space".to_string(), return_key: "return".to_string() };
    let info = GenerateIos::info("se", &vec![("en".to_string(), "Sami".to_string()), ("se".to_string(), "Sámegiella".to_string())], &key_names);
    assert_eq!(info.name, "Sámegiella");
    assert_eq!(info.locale, "se");
    assert_eq!(info.enter, "return");
    assert_eq!(info.space, "space");
}

fn ios_target() -> IosTarget {
    IosTarget {
        code_sign_id: None,
        provisioning_profile_id: None,
        team_id: Some("TEAM".to_string()),
        package_id: "no.uit.kbd".to_string(),
        bundle_name: "Keyboards".to_string(),
        version: "1.0".to_string(),
        build: "7".to_string(),
        match_git_url: Some("git@x".to_string()),
        match_password: None,
        fastlane_user: Some("me".to_string()),
        fastlane_password: None,
        app_store_key_json: Some("key.json".to_string()),
    }
}

#[test]
fn fastlane_environment() {
    let env = fastlane_env(&ios_target());
    assert_eq!(
        env,
        attrs(&[
            ("MATCH_GIT_URL", "git@x"),
            ("FASTLANE_USER", "me"),
            ("PRODUCE_USERNAME", "me"),
            ("APP_STORE_KEY_JSON", "key.json")
        ])
    );
    for i in 0..env.len() {
        for j in 0..i {
            assert_ne!(env[i].0, env[j].0);
        }
    }
}

#[test]
fn package_ids_and_profile_targets() {
    assert_eq!(pkg_id("no.uit.kbd", "se"), "no.uit.kbd.se");
    assert_eq!(pkg_id("no.uit.giella.keyboards.Sami", "se"), "no.uit.giella.keyboards.Sami.northern-sami-keyboard");
    assert_eq!(pkg_id("no.uit.giella.keyboards.Sami", "fi"), "no.uit.giella.keyboards.Sami.fi");
    assert_eq!(after_last_dot("a.b.c"), "c");
    assert_eq!(after_last_dot("abc"), "abc");
    assert_eq!(profile_target_name("no.uit.kbd", "no.uit.kbd"), "HostingApp");
    assert_eq!(profile_target_name(&pkg_id("no.uit.kbd", "sma"), "no.uit.kbd"), "sma");
}

#[test]
fn signing_and_archiving_command_lines() {
    assert_eq!(
        FastlaneProvisioning::match_args("no.uit.kbd", "key.json"),
        vec!["match", "appstore", "--app_identifier=no.uit.kbd", "--api_key_path=key.json"]
    );
    assert_eq!(
        FastlaneProvisioning::sigh_args("no.uit.kbd", "TEAM", "key.json"),
        vec!["sigh", "-a", "no.uit.kbd", "-b", "TEAM", "-z", "-q", "no.uit.kbd.mobileprovision", "--api_key_path=key.json"]
    );
    let archive = BuildXcarchive::archive_args("out/x.xcarchive", "8", "ID", "TEAM");
    assert_eq!(archive.len(), 13);
    assert_eq!(archive[10], "8");
    assert_eq!(archive[11], "CODE_SIGN_IDENTITY=ID");
    assert_eq!(archive[12], "DEVELOPMENT_TEAM=TEAM");
    assert_eq!(
        BuildXcarchive::export_args("a", "b", "c"),
        vec!["-exportArchive", "-archivePath", "a", "-exportPath", "b", "-exportOptionsPlist", "c"]
    );
    assert_eq!(PodInstall::args("out/repo"), vec!["install", "--project-directory=out/repo"]);
}

#[test]
fn macos_bundle_plist_and_installer() {
    let target = MacOsBuildTarget {
        code_sign_id: "ID".to_string(),
        package_id: "no.uit".to_string(),
        bundle_name: "Sámi".to_string(),
        version: "1.0".to_string(),
        build: "3".to_string(),
    };
    assert_eq!(bundle_id("no.uit", "sme"), "no.uit.keyboardlayout.sme");
    let mut plist = InfoPlist::for_bundle(&target, "sme");
    assert_eq!(plist.cf_bundle_identifier, "no.uit.keyboardlayout.sme");
    assert_eq!(plist.cf_bundle_version, "3");
    plist.add_key_layout("se", "Davvisámegiella");
    assert_eq!(plist.kl_info_map.len(), 1);
    assert_eq!(plist.kl_info_map[0].0, "KLInfo_Davvisámegiella");
    assert_eq!(plist.kl_info_map[0].1.tis_input_source_id, "no.uit.keyboardlayout.sme.Davvisámegiella");
    assert_eq!(plist.kl_info_map[0].1.tis_intended_language, "se");
    assert_eq!(
        translation_strings_text(&vec![("sme".to_string(), "Sá\"mi".to_string()), ("b".to_string(), "c".to_string())]),
        "\"sme\" = \"Sá\\\"mi\";\n\"b\" = \"c\";"
    );
    assert_eq!(
        GenerateInstaller::pkgbuild_args("b.bundle", "1.0", "inner.pkg"),
        vec!["--component", "b.bundle", "--ownership", "recommended", "--install-location", "/Library/Keyboard Layouts", "--version", "1.0", "inner.pkg"]
    );
    assert_eq!(
        GenerateInstaller::productbuild_args("d.xml", "1.0", "work", "out/x.pkg"),
        vec!["--distribution", "d.xml", "--version", "1.0", "--package-path", "work", "out/x.pkg"]
    );
    assert_eq!(GenerateInstaller::installer_file_name("x"), "x.pkg");
}

fn sami_target() -> MacOsBuildTarget {
    MacOsBuildTarget {
        code_sign_id: "ID".to_string(),
        package_id: "no.uit".to_string(),
        bundle_name: "Sámi".to_string(),
        version: "1.0".to_string(),
        build: "3".to_string(),
    }
}

#[test]
fn a_layout_added_again_replaces_its_input_source() {
    let mut plist = InfoPlist::for_bundle(&sami_target(), "sme");
    plist.add_key_layout("se", "North");
    plist.add_key_layout("smj", "Lule");
    plist.add_key_layout("nb", "North");
    assert_eq!(plist.kl_info_map.len(), 2);
    assert_eq!(plist.kl_info_map[0].0, "KLInfo_North");
    assert_eq!(plist.kl_info_map[0].1.tis_intended_language, "nb");
    assert_eq!(plist.kl_info_map[0].1.tis_input_source_id, "no.uit.keyboardlayout.sme.North");
    assert_eq!(plist.kl_info_map[1].0, "KLInfo_Lule");
}

#[test]
fn bundle_keeps_translated_names_by_language() {
    let mut bundle = Bundle::new(&sami_target(), "sme");
    let pairs = |v: &[(&str, &str)]| v.iter().map(|(a, b)| (a.to_string(), b.to_string())).collect::<Vec<_>>();
    bundle.add_key_layout("se", "North", "<keyboard/>", &pairs(&[("se", "Davvisámegiella"), ("en", "North Sámi")]));
    bundle.add_key_layout("smj", "Lule", "<keyboard id=\"2\"/>", &pairs(&[("en", "Lule Sámi"), ("smj", "Julevsámegiella")]));
    bundle.add_key_layout("se", "North", "<keyboard id=\"3\"/>", &pairs(&[("en", "Northern Sámi")]));

    assert_eq!(bundle.info_plist.kl_info_map.len(), 2);
    assert_eq!(bundle.translation_strings.len(), 3);
    assert_eq!(bundle.translation_strings[0], ("se".to_string(), pairs(&[("North", "Davvisámegiella")])));
    assert_eq!(
        bundle.translation_strings[1],
        ("en".to_string(), pairs(&[("North", "Northern Sámi"), ("Lule", "Lule Sámi")]))
    );
    assert_eq!(bundle.translation_strings[2], ("smj".to_string(), pairs(&[("Lule", "Julevsámegiella")])));
    assert_eq!(bundle.layouts.len(), 2);
    assert_eq!(bundle.layouts[0], ("se".to_string(), ("North".to_string(), "<keyboard id=\"3\"/>".to_string())));
    assert_eq!(bundle.layouts[1].1 .0, "Lule");
}

#[test]
fn project_settings() {
    assert_eq!(supported_decimal(Some(",".to_string())), Some(",".to_string()));
    assert_eq!(supported_decimal(Some(".".to_string())), Some(".".to_string()));
    assert_eq!(supported_decimal(Some("·".to_string())), Some(".".to_string()));
    assert_eq!(supported_decimal(None), None);
    let locales = vec![
        ("en".to_string(), LocaleProjectDescription { name: "Keyboards".to_string(), description: "d".to_string() }),
        ("nb".to_string(), LocaleProjectDescription { name: "Tastaturer".to_string(), description: "b".to_string() }),
    ];
    assert_eq!(locale_description(&locales, "nb", "en").unwrap().name, "Tastaturer");
    assert_eq!(locale_description(&locales, "fi", "en").unwrap().name, "Keyboards");
    assert!(locale_description(&locales, "fi", "sv").is_none());
}

#[test]
fn the_distribution_document_outlines_the_bundle_choice() {
    let nodes = GenerateInstaller::distribution_nodes("Sámi", "no.example.keyboardlayout.sami");
    let names: Vec<&str> = nodes.iter().map(|n| n.name.as_str()).collect();
    assert_eq!(
        names,
        vec!["title", "options", "choices-outline", "line", "line", "choice", "choice", "pkg-ref", "pkg-ref"]
    );
    assert_eq!(nodes[0].text.as_deref(), Some("Sámi"));
    assert_eq!(nodes[4].parent, Some(3));
    assert_eq!(nodes[4].attrs, vec![("choice".to_string(), "no.example.keyboardlayout.sami".to_string())]);
    assert_eq!(nodes[8].text.as_deref(), Some("inner.pkg"));
    assert_eq!(nodes[8].attrs[3], ("onConclusion".to_string(), "RequireRestart".to_string()));
}

#[test]
fn a_keyboard_set_points_its_alphabet_states_at_the_layout() {
    let elements = GenerateAndroid::layout_set_elements("north_sami");
    assert_eq!(elements.len(), 10);
    assert_eq!(elements[0][1], ("latin:elementKeyboard".to_string(), "@xml/kbd_north_sami".to_string()));
    assert_eq!(elements[0][2], ("latin:enableProximityCharsCorrection".to_string(), "true".to_string()));
    assert_eq!(elements[4][0], ("latin:elementName".to_string(), "alphabetShiftLockShifted".to_string()));
    assert_eq!(elements[9][1], ("latin:elementKeyboard".to_string(), "@xml/kbd_number".to_string()));
}

#[test]
fn keyboards_are_registered_under_the_app_name_and_their_last_segment() {
    let args = FastlaneProduce::keyboard_args("no.example.keyboards.sme", "Divvun");
    assert_eq!(args, vec!["produce", "-a", "no.example.keyboards.sme", "--app_name", "Divvun: sme", "--skip_itc"]);
    assert_eq!(
        FastlaneProduce::group_args("no.example", "Divvun"),
        vec!["produce", "group", "-g", "group.no.example", "-n", "Divvun Group"]
    );
    assert_eq!(
        FastlaneProduce::associate_group_args("no.example.sme", "no.example"),
        vec!["produce", "associate_group", "-a", "no.example.sme", "group.no.example"]
    );
    assert_eq!(FastlaneProduce::app_args("no.example", "Divvun"), vec!["produce", "-a", "no.example", "--app_name", "Divvun"]);
    assert_eq!(FastlaneProduce::enable_group_args("x"), vec!["produce", "enable_services", "-a", "x", "--app-group"]);
}

#[test]
fn package_ids_of_the_app_and_its_keyboards_are_sorted() {
    let tags = vec!["smj".to_string(), "fi".to_string(), "se".to_string()];
    assert_eq!(
        all_pkg_ids("no.uit.kbd", &tags),
        vec!["no.uit.kbd", "no.uit.kbd.fi", "no.uit.kbd.se", "no.uit.kbd.smj"]
    );
    assert_eq!(
        all_pkg_ids("no.uit.giella.keyboards.Sami", &vec!["sme".to_string(), "sma".to_string()]),
        vec![
            "no.uit.giella.keyboards.Sami",
            "no.uit.giella.keyboards.Sami.northern-sami-keyboard",
            "no.uit.giella.keyboards.Sami.south-sami-keyboard",
        ]
    );
    assert_eq!(
        sort_strings(vec!["b".to_string(), "a".to_string(), "b".to_string(), "B".to_string()]),
        vec!["B", "a", "b", "b"]
    );
}
