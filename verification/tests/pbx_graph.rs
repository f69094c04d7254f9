use indexmap::IndexMap;
use kbdgen::pbx_project::names_a_file_path;
use kbdgen::sorted::keys_sorted;
use kbdgen::pbx_project::{BuildConfiguration, BuildFile, Object, ObjectId, Pbxproj, PlistValue, Project, SettingValue};
use kbdgen::pbxproj::{ConfigurationList, CopyFilesBuildPhase, FileReference, Group, NativeTarget, ResourcesBuildPhase, TargetDependency};
use kbdgen::sorted::{map_insert, set_insert, set_remove, text_less};

fn s(v: &str) -> String {
    v.to_string()
}

fn strings(v: &[&str]) -> Vec<String> {
    v.iter().map(|x| x.to_string()).collect()
}

fn group(children: &[&str], name: Option<&str>, path: Option<&str>) -> Object {
    Object::Group(Group {
        children: strings(children),
        source_tree: s("<group>"),
        name: name.map(s),
        path: path.map(s),
    })
}

fn target(name: &str, list: &str, product: &str, phases: &[&str], deps: &[&str]) -> Object {
    Object::NativeTarget(NativeTarget {
        product_type: Some(s("com.apple.product-type.app-extension")),
        build_configuration_list: s(list),
        product_reference: Some(s(product)),
        product_name: s(name),
        build_phases: strings(phases),
        dependencies: strings(deps),
        name: s(name),
        build_rules: vec![],
    })
}

/// A small project: a keyboard target, a hosting app that embeds it and
/// depends on it, and the groups `Products` and `HostingApp/Supporting Files`.
fn project() -> Pbxproj {
    let mut settings = IndexMap::new();
    settings.insert(s("PRODUCT_NAME"), SettingValue::Text(s("Keyboard")));
    let objects = vec![
        (
            s("AAA"),
            Object::FileReference(FileReference {
                file_encoding: None,
                include_in_index: None,
                last_known_file_type: None,
                explicit_file_type: Some(s("wrapper.app-extension")),
                name: None,
                path: s("Keyboard.appex"),
                source_tree: s("BUILT_PRODUCTS_DIR"),
            }),
        ),
        (s("BF1"), Object::BuildFile(BuildFile { settings: None, file_ref: s("AAA") })),
        (
            s("CF1"),
            Object::CopyFilesBuildPhase(CopyFilesBuildPhase {
                build_action_mask: s("2147483647"),
                dst_path: s(""),
                dst_subfolder_spec: s("13"),
                files: strings(&["BF1"]),
                name: Some(s("Embed App Extensions")),
                run_only_for_deployment_postprocessing: s("0"),
            }),
        ),
        (
            s("CL1"),
            Object::ConfigurationList(ConfigurationList {
                build_configurations: strings(&["XC1"]),
                default_configuration_is_visible: s("0"),
                default_configuration_name: s("Release"),
            }),
        ),
        (s("G0"), group(&["G1", "G2"], None, None)),
        (s("G1"), group(&["AAA"], Some("Products"), None)),
        (s("G2"), group(&["G3"], None, Some("HostingApp"))),
        (s("G3"), group(&[], Some("Supporting Files"), None)),
        (
            s("P0"),
            Object::Project(Project {
                attributes: PlistValue::Dict(vec![(s("LastUpgradeCheck"), PlistValue::Text(s("1200")))]),
                build_configuration_list: s("CL0"),
                compatibility_version: s("Xcode 3.2"),
                development_region: s("en"),
                has_scanned_for_encodings: s("0"),
                known_regions: strings(&["Base", "en"]),
                main_group: s("G0"),
                product_ref_group: s("G1"),
                project_dir_path: s(""),
                project_root: s(""),
                targets: strings(&["T1", "T2"]),
            }),
        ),
        (
            s("RS1"),
            Object::ResourcesBuildPhase(ResourcesBuildPhase {
                build_action_mask: s("2147483647"),
                files: vec![],
                name: None,
                run_only_for_deployment_postprocessing: s("0"),
            }),
        ),
        (s("T1"), target("Keyboard", "CL1", "AAA", &[], &[])),
        (s("T2"), target("HostingApp", "CL1", "AAA", &["CF1", "RS1"], &["TD1"])),
        (s("TD1"), Object::TargetDependency(TargetDependency { target: s("T1"), target_proxy: s("PX1") })),
        (
            s("XC1"),
            Object::BuildConfiguration(BuildConfiguration {
                build_settings: settings,
                base_configuration_reference: None,
                name: s("Debug"),
            }),
        ),
    ];
    Pbxproj { object_version: s("50"), archive_version: s("1"), objects, root_object: s("P0") }
}

fn object<'a>(p: &'a Pbxproj, key: &str) -> Option<&'a Object> {
    p.objects.iter().find(|(k, _)| k == key).map(|(_, o)| o)
}

fn keys(p: &Pbxproj) -> Vec<String> {
    p.objects.iter().map(|(k, _)| k.clone()).collect()
}

fn is_sorted(p: &Pbxproj) -> bool {
    let k = keys(p);
    k.windows(2).all(|w| w[0] < w[1])
}

#[test]
fn text_order_is_code_point_order() {
    assert!(text_less("A", "B"));
    assert!(text_less("T1", "TD1"));
    assert!(text_less("ab", "abc"));
    assert!(!text_less("abc", "ab"));
    assert!(!text_less("x", "x"));
    assert!(text_less("Z", "a"));
    assert!(text_less("a", "á"));
}

#[test]
fn sets_keep_their_order_and_hold_each_item_once() {
    let mut v = strings(&["b", "d"]);
    set_insert(&mut v, s("c"));
    set_insert(&mut v, s("a"));
    set_insert(&mut v, s("d"));
    assert_eq!(v, strings(&["a", "b", "c", "d"]));
    set_remove(&mut v, "b");
    set_remove(&mut v, "x");
    assert_eq!(v, strings(&["a", "c", "d"]));
}

#[test]
fn maps_replace_a_value_and_place_a_new_key_in_order() {
    let mut m: Vec<(String, u8)> = vec![(s("a"), 1), (s("c"), 3)];
    map_insert(&mut m, s("b"), 2);
    map_insert(&mut m, s("c"), 30);
    assert_eq!(m, vec![(s("a"), 1), (s("b"), 2), (s("c"), 30)]);
}

#[test]
fn object_ids_are_twenty_four_hex_digits() {
    let id = ObjectId::new_random();
    assert_eq!(id.0.len(), 24);
    assert!(id.as_ref().chars().all(|c| c.is_ascii_digit() || ('A'..='F').contains(&c)));
}

#[test]
fn lookups_find_objects_by_name_path_and_id() {
    let mut p = project();
    assert_eq!(p.native_target_by_name("HostingApp").map(|t| t.build_phases.clone()), Some(strings(&["CF1", "RS1"])));
    assert_eq!(p.native_target_id_by_name("Keyboard"), Some(&s("T1")));
    assert_eq!(p.file_reference_id_by_path("Keyboard.appex"), Some(&s("AAA")));
    assert_eq!(p.build_file_id_by_file_ref_name("Keyboard.appex"), Some(&s("BF1")));
    assert!(p.build_file_id_by_file_ref_name("Other.appex").is_none());
    assert_eq!(p.file_reference_by_id("AAA").map(|f| f.path.clone()), Some(s("Keyboard.appex")));
    assert!(p.file_reference_by_id("BF1").is_none());
    assert_eq!(p.configuration_list_by_id("CL1").map(|c| c.build_configurations.clone()), Some(strings(&["XC1"])));
    assert_eq!(p.configuration_by_id("XC1").map(|c| c.name.clone()), Some(s("Debug")));
    assert_eq!(p.group("G1").and_then(|g| g.name.clone()), Some(s("Products")));
    assert!(p.group("T1").is_none());
    assert_eq!(p.project().map(|x| x.main_group.clone()), Some(s("G0")));
    assert!(p.group_by_name_mut("Products").is_some());
    assert!(p.variant_group_by_name_mut("About.txt").is_none());
}

#[test]
fn the_resources_phase_of_a_target_is_found_through_its_phases() {
    let mut p = project();
    let phase = p.resources_build_phase_by_target_name_mut("HostingApp").expect("phase");
    phase.files.push(s("X"));
    assert!(matches!(object(&p, "RS1"), Some(Object::ResourcesBuildPhase(r)) if r.files == strings(&["X"])));
    assert!(p.resources_build_phase_by_target_name_mut("Keyboard").is_none());
}

#[test]
fn settings_are_set_in_each_configuration_of_a_target() {
    let mut p = project();
    p.set_target_build_configuration("Keyboard", "INFOPLIST_FILE", "Keyboard/Info.plist");
    p.set_build_target_setting("Keyboard", "PRODUCT_NAME", "Other");
    match object(&p, "XC1") {
        Some(Object::BuildConfiguration(c)) => {
            let entries: Vec<(String, String)> = c
                .build_settings
                .iter()
                .map(|(k, v)| match v {
                    SettingValue::Text(t) => (k.clone(), t.clone()),
                    SettingValue::List(_) => (k.clone(), s("list")),
                })
                .collect();
            assert_eq!(
                entries,
                vec![(s("PRODUCT_NAME"), s("Other")), (s("INFOPLIST_FILE"), s("Keyboard/Info.plist"))]
            );
        },
        _ => panic!("no configuration"),
    }
}

#[test]
fn a_reference_joins_the_group_at_a_path() {
    let mut p = project();
    p.add_ref_to_group(&s("NEW"), "HostingApp/Supporting Files");
    assert!(matches!(object(&p, "G3"), Some(Object::Group(g)) if g.children == strings(&["NEW"])));
    p.add_ref_to_group(&s("APP"), "Products");
    assert!(matches!(object(&p, "G1"), Some(Object::Group(g)) if g.children == strings(&["AAA", "APP"])));
    p.add_ref_to_group(&s("TOP"), "Nowhere");
    assert!(matches!(object(&p, "G0"), Some(Object::Group(g)) if g.children == strings(&["G1", "G2", "TOP"])));
}

#[test]
fn a_target_joins_the_project() {
    let mut p = project();
    p.add_target(&s("T0"));
    assert!(matches!(p.project(), Some(x) if x.targets == strings(&["T0", "T1", "T2"])));
}

#[test]
fn removing_a_target_removes_what_depends_on_it() {
    let mut p = project();
    p.remove_target("Keyboard");
    assert!(object(&p, "T1").is_none());
    assert!(object(&p, "TD1").is_none());
    assert!(matches!(object(&p, "T2"), Some(Object::NativeTarget(t)) if t.dependencies.is_empty()));
    assert!(matches!(object(&p, "G1"), Some(Object::Group(g)) if g.children.is_empty()));
    assert!(matches!(p.project(), Some(x) if x.targets == strings(&["T2"])));
    assert!(is_sorted(&p));
}

#[test]
fn an_extension_leaves_the_embedding_phase() {
    let mut p = project();
    p.remove_appex_from_target_embedded_binaries("HostingApp", "Keyboard");
    assert!(matches!(object(&p, "CF1"), Some(Object::CopyFilesBuildPhase(c)) if c.files.is_empty()));
    assert_eq!(keys(&project()), keys(&p));
}

#[test]
fn an_extension_joins_the_embedding_phase_with_a_new_build_file() {
    let mut p = project();
    p.add_appex_with_build_file_id("HostingApp", "Keyboard", ObjectId(s("BF0")));
    assert!(matches!(object(&p, "CF1"), Some(Object::CopyFilesBuildPhase(c)) if c.files == strings(&["BF0", "BF1"])));
    match object(&p, "BF0") {
        Some(Object::BuildFile(b)) => {
            assert_eq!(b.file_ref, "AAA");
            let settings = b.settings.as_ref().expect("settings");
            assert_eq!(settings.len(), 1);
            assert_eq!(settings[0].0, "ATTRIBUTES");
            assert!(matches!(&settings[0].1, PlistValue::List(v) if v == &strings(&["RemoveHeadersOnCopy"])));
        },
        _ => panic!("no build file"),
    }
    assert!(is_sorted(&p));
    let mut q = project();
    q.add_appex_to_target_embedded_binaries("HostingApp", "Keyboard");
    assert_eq!(q.objects.len(), p.objects.len());
}

#[test]
fn a_duplicated_target_gets_its_own_configurations_and_product() {
    let mut p = project();
    let ids = strings(&["N0", "N1", "N2", "N3"]);
    p.duplicate_target_with_ids("Keyboard", "Keyboard2", "Keyboard2/Info.plist", &ids);
    assert!(is_sorted(&p));
    match object(&p, "N0") {
        Some(Object::NativeTarget(t)) => {
            assert_eq!(t.name, "Keyboard2");
            assert_eq!(t.build_configuration_list, "N1");
            assert_eq!(t.product_reference, Some(s("N2")));
            assert_eq!(t.product_name, "Keyboard");
        },
        _ => panic!("no target"),
    }
    assert!(matches!(object(&p, "N1"), Some(Object::ConfigurationList(l)) if l.build_configurations == strings(&["N3"])));
    assert!(matches!(object(&p, "N2"), Some(Object::FileReference(f)) if f.path == "Keyboard2.appex"));
    match object(&p, "N3") {
        Some(Object::BuildConfiguration(c)) => {
            assert!(matches!(c.build_settings.get("PRODUCT_NAME"), Some(SettingValue::Text(t)) if t == "Keyboard2"));
            assert!(matches!(c.build_settings.get("INFOPLIST_FILE"), Some(SettingValue::Text(t)) if t == "Keyboard2/Info.plist"));
            assert_eq!(c.name, "Debug");
        },
        _ => panic!("no configuration"),
    }
    assert!(matches!(object(&p, "G1"), Some(Object::Group(g)) if g.children == strings(&["AAA", "N2"])));
    assert!(matches!(p.project(), Some(x) if x.targets == strings(&["N0", "T1", "T2"])));
    let mut q = project();
    assert!(q.duplicate_target("Keyboard", "Keyboard3", "Info.plist"));
    assert_eq!(q.objects.len(), project().objects.len() + 4);
}

#[test]
fn locales_get_strings_files_a_variant_group_and_a_resource() {
    let mut p = project();
    let ids = strings(&["L1", "L2", "V0", "B0"]);
    p.update_with_ids("HostingApp", &strings(&["fi", "se"]), &ids);
    assert!(is_sorted(&p));
    assert!(matches!(p.project(), Some(x) if x.known_regions == strings(&["Base", "en", "fi", "se"])));
    assert!(matches!(object(&p, "L1"), Some(Object::FileReference(f)) if f.path == "fi.lproj/InfoPlist.strings" && f.name == Some(s("fi"))));
    assert!(matches!(object(&p, "L2"), Some(Object::FileReference(f)) if f.path == "se.lproj/InfoPlist.strings"));
    assert!(matches!(object(&p, "V0"), Some(Object::VariantGroup(g)) if g.children == strings(&["L1", "L2"]) && g.name == Some(s("InfoPlist.strings"))));
    assert!(matches!(object(&p, "B0"), Some(Object::BuildFile(b)) if b.file_ref == "V0" && b.settings.is_none()));
    assert!(matches!(object(&p, "RS1"), Some(Object::ResourcesBuildPhase(r)) if r.files == strings(&["B0"])));
    assert!(matches!(object(&p, "G3"), Some(Object::Group(g)) if g.children == strings(&["V0"])));
}

#[test]
fn a_path_is_made_below_the_main_group() {
    let mut p = project();
    p.add_path_with_ids(&strings(&["HostingApp", "Layouts", "sme"]), &strings(&["U0", "U1", "U2"]));
    assert!(is_sorted(&p));
    assert!(object(&p, "U0").is_none());
    assert!(matches!(object(&p, "G2"), Some(Object::Group(g)) if g.children == strings(&["G3", "U1"])));
    assert!(matches!(object(&p, "U1"), Some(Object::Group(g)) if g.children == strings(&["U2"]) && g.path == Some(s("Layouts"))));
    assert!(matches!(object(&p, "U2"), Some(Object::Group(g)) if g.children.is_empty() && g.path == Some(s("sme"))));
    let mut q = project();
    p.add_path_with_ids(&strings(&["HostingApp"]), &strings(&["W0"]));
    assert!(q.add_path("HostingApp"));
    assert_eq!(q.objects.len(), project().objects.len());
}

#[test]
fn a_path_made_again_changes_nothing() {
    let mut p = project();
    p.add_path_with_ids(&strings(&["HostingApp", "Layouts", "sme"]), &strings(&["U0", "U1", "U2"]));
    let ids_before: Vec<String> = p.objects.iter().map(|(id, _)| id.clone()).collect();
    assert!(p.add_path("HostingApp/Layouts/sme"));
    let ids_after: Vec<String> = p.objects.iter().map(|(id, _)| id.clone()).collect();
    assert_eq!(ids_after, ids_before);
    assert!(matches!(object(&p, "G2"), Some(Object::Group(g)) if g.children == strings(&["G3", "U1"])));
    assert!(matches!(object(&p, "U1"), Some(Object::Group(g)) if g.children == strings(&["U2"])));
    assert!(matches!(object(&p, "U2"), Some(Object::Group(g)) if g.children.is_empty()));
}

#[test]
fn a_path_is_split_at_its_slashes_without_empty_and_dot_pieces() {
    let mut p = project();
    let before = p.objects.len();
    assert!(p.add_path("HostingApp/./Layouts//sme/"));
    assert_eq!(p.objects.len(), before + 2);
    let layouts = match object(&p, "G2") {
        Some(Object::Group(g)) => {
            assert_eq!(g.children.len(), 2);
            g.children.iter().find(|c| c.as_str() != "G3").unwrap().clone()
        },
        _ => panic!("no HostingApp group"),
    };
    let sme = match object(&p, &layouts) {
        Some(Object::Group(g)) => {
            assert_eq!(g.path, Some(s("Layouts")));
            assert_eq!(g.children.len(), 1);
            g.children[0].clone()
        },
        _ => panic!("no Layouts group"),
    };
    assert!(matches!(object(&p, &sme), Some(Object::Group(g)) if g.path == Some(s("sme")) && g.children.is_empty()));
}

#[test]
fn created_objects_are_put_under_new_ids() {
    let mut p = project();
    let plist = p.create_plist_file("Keyboard/Info.plist");
    assert!(matches!(object(&p, &plist.0), Some(Object::FileReference(f)) if f.name == Some(s("Info.plist")) && f.path == "Keyboard/Info.plist" && f.last_known_file_type == Some(s("text.plist.xml"))));
    let about = p.create_file_reference("text", "fi", "About.txt");
    assert!(matches!(object(&p, &about.0), Some(Object::FileReference(f)) if f.path == "fi.lproj/About.txt"));
    let variant = p.create_variant_group(strings(&["X"]), Some(s("About.txt")), None);
    let build = p.create_build_file(&variant.0);
    assert!(matches!(object(&p, &build.0), Some(Object::BuildFile(b)) if b.file_ref == variant.0));
    p.add_file_ref_to_variant_group(s("Y"));
    assert!(matches!(object(&p, &variant.0), Some(Object::VariantGroup(g)) if g.children == strings(&["X", "Y"])));
    assert!(is_sorted(&p));
}

#[test]
fn a_project_file_is_written_section_by_section() {
    let p = Pbxproj {
        object_version: s("50"),
        archive_version: s("1"),
        objects: vec![
            (s("BF1"), Object::BuildFile(BuildFile { settings: None, file_ref: s("AAA") })),
            (s("TD1"), Object::TargetDependency(TargetDependency { target: s("T1"), target_proxy: s("PX1") })),
        ],
        root_object: s("P0"),
    };
    let text = p.to_pbxproj_string();
    let mut expected = String::from("// !$*UTF8*$!\n{\n\tarchiveVersion = 1;\n\tclasses = {\n\t};\n\tobjectVersion = 50;\n\tobjects = {\n\n");
    expected.push_str("/* Begin PBXBuildFile section */\n");
    expected.push_str("\t\tBF1 /* TODO */ = {isa = PBXBuildFile; fileRef = AAA /* TODO */; };\n");
    expected.push_str("/* End PBXBuildFile section */\n\n");
    expected.push_str("/* Begin PBXContainerItemProxy section */\n/* End PBXContainerItemProxy section */\n\n");
    expected.push_str("/* Begin PBXCopyFilesBuildPhase section */\n/* End PBXCopyFilesBuildPhase section */\n\n");
    for name in ["PBXFileReference", "PBXFrameworksBuildPhase", "PBXGroup", "PBXHeadersBuildPhase", "PBXNativeTarget", "PBXProject", "PBXResourcesBuildPhase", "PBXShellScriptBuildPhase", "PBXSourcesBuildPhase"] {
        expected.push_str(&format!("/* Start {} section */\n\n/* End {} section */\n\n", name, name));
    }
    expected.push_str("/* Start PBXTargetDependency section */\n\n");
    expected.push_str("\t\tTD1 /* TODO */ = {\n\t\t\tisa = PBXTargetDependency;\n\t\t\ttarget = T1;\n\t\t\ttargetProxy = PX1;\n\t\t};\n");
    expected.push_str("/* End PBXTargetDependency section */\n\n");
    for name in ["PBXVariantGroup", "XCBuildConfiguration", "XCConfigurationList"] {
        expected.push_str(&format!("/* Start {} section */\n\n/* End {} section */\n\n", name, name));
    }
    expected.push_str("\t};\n\trootObject = P0;\n}\n");
    assert_eq!(text, expected);
}

#[test]
fn the_project_object_writes_its_attributes_nested() {
    let p = project();
    let project = match object(&p, "P0") {
        Some(Object::Project(x)) => x,
        _ => panic!("no project"),
    };
    let entry = project.to_pbxproj_entry("P0");
    assert!(entry.starts_with("\t\tP0 /* Project object */ = {\n\t\t\tisa = PBXProject;\n\t\t\tattributes = {\n\t\t\t\tLastUpgradeCheck = 1200;\n\t\t\t};\n"));
    assert!(entry.contains("\t\t\tcompatibilityVersion = \"Xcode 3.2\";\n"));
    assert!(entry.contains("\t\t\tknownRegions = (\n\t\t\t\tBase /* TODO */,\n\t\t\t\ten /* TODO */,\n\t\t\t);\n"));
    assert!(entry.ends_with("\t\t\ttargets = (\n\t\t\t\tT1 /* TODO */,\n\t\t\t\tT2 /* TODO */,\n\t\t\t);\n\t\t};\n"));
    let whole = p.to_pbxproj_string();
    assert!(whole.contains("\t\t\tbuildSettings = {\n\t\t\t\tPRODUCT_NAME = \"Keyboard\";\n\t\t\t};\n"));
}

#[test]
fn build_settings_write_lists_as_json_and_quote_bracketed_keys() {
    let mut settings = IndexMap::new();
    settings.insert(s("CODE_SIGN_IDENTITY[sdk=iphoneos*]"), SettingValue::Text(s("iPhone Developer")));
    settings.insert(s("LD_RUNPATH_SEARCH_PATHS"), SettingValue::List(strings(&["$(inherited)", "@executable_path/Frameworks"])));
    let c = BuildConfiguration { build_settings: settings, base_configuration_reference: None, name: s("Release") };
    assert_eq!(
        c.to_pbxproj_entry("XC2"),
        "\t\tXC2 /* TODO */ = {\n\t\t\tisa = XCBuildConfiguration;\n\n\t\t\tbuildSettings = {\n\t\t\t\t\"CODE_SIGN_IDENTITY[sdk=iphoneos*]\" = \"iPhone Developer\";\n\t\t\tLD_RUNPATH_SEARCH_PATHS = (\n\t\t\t\t\"$(inherited)\",\n\t\t\t\t\"@executable_path/Frameworks\",\n\t\t\t);\n\n\t\t\t};\n\t\t\tname = \"Release\";\n\t\t};\n"
    );
    let b = BuildFile { settings: Some(vec![(s("ATTRIBUTES"), PlistValue::List(strings(&["RemoveHeadersOnCopy"])))]), file_ref: s("AAA") };
    assert_eq!(
        b.to_pbxproj_entry("BF2"),
        "\t\tBF2 /* TODO */ = {isa = PBXBuildFile; fileRef = AAA /* TODO */; settings = {ATTRIBUTES = (RemoveHeadersOnCopy, );};};\n"
    );
}

#[test]
fn list_settings_escape_their_texts_as_json() {
    let mut settings = IndexMap::new();
    settings.insert(s("FLAGS"), SettingValue::List(strings(&["a\"b\\c", "t\tn\n\u{1}é"])));
    let c = BuildConfiguration { build_settings: settings, base_configuration_reference: None, name: s("Debug") };
    let text = c.to_pbxproj_entry("XC3");
    assert!(text.contains("\t\t\tFLAGS = (\n\t\t\t\t\"a\\\"b\\\\c\",\n\t\t\t\t\"t\\tn\\n\\u0001é\",\n\t\t\t);"));
}

#[test]
fn the_checks_before_each_edit_see_what_the_project_holds() {
    let p = project();
    assert!(p.is_well_formed());
    assert!(p.has_main_group());
    assert!(p.configurations_are_ready("Keyboard"));
    assert!(!p.configurations_are_ready("Missing"));
    assert!(p.embedding_is_ready("HostingApp"));
    assert!(!p.embedding_is_ready("Missing"));
    assert!(p.is_duplicable("Keyboard"));
    assert!(!p.is_duplicable("Missing"));
    assert!(p.is_printable());

    let mut unsorted = project();
    unsorted.objects.swap(0, 1);
    assert!(!unsorted.is_well_formed());
    assert!(!unsorted.is_duplicable("Keyboard"));

    let mut no_root = project();
    no_root.root_object = s("NOPE");
    assert!(!no_root.has_main_group());

    let mut with_list = project();
    if let Some((_, Object::Project(p))) = with_list.objects.iter_mut().find(|(k, _)| k == "P0") {
        p.attributes = PlistValue::Dict(vec![(s("Items"), PlistValue::List(strings(&["a"])))]);
    }
    assert!(!with_list.is_printable());
}

#[test]
fn an_unnamed_copy_phase_before_the_embedding_one_blocks_embedding() {
    let mut p = project();
    map_insert(
        &mut p.objects,
        s("CF0"),
        Object::CopyFilesBuildPhase(CopyFilesBuildPhase {
            build_action_mask: s("2147483647"),
            dst_path: s(""),
            dst_subfolder_spec: s("13"),
            files: vec![],
            name: None,
            run_only_for_deployment_postprocessing: s("0"),
        }),
    );
    if let Some((_, Object::NativeTarget(t))) = p.objects.iter_mut().find(|(k, _)| k == "T2") {
        t.build_phases = strings(&["CF0", "CF1", "RS1"]);
    }
    assert!(!p.embedding_is_ready("HostingApp"));
}

#[test]
fn a_path_names_a_file_unless_it_ends_in_a_folder() {
    assert!(names_a_file_path("Info.plist"));
    assert!(names_a_file_path("Keyboard/sami/Info.plist"));
    assert!(!names_a_file_path("Keyboard/"));
    assert!(!names_a_file_path("Keyboard/.."));
    assert!(!names_a_file_path("."));
}

#[test]
fn keys_are_sorted_when_each_is_below_the_next() {
    let v: Vec<(String, u8)> = vec![(s("a"), 1), (s("b"), 2), (s("c"), 3)];
    assert!(keys_sorted(&v));
    let v: Vec<(String, u8)> = vec![(s("a"), 1), (s("a"), 2)];
    assert!(!keys_sorted(&v));
    let v: Vec<(String, u8)> = vec![];
    assert!(keys_sorted(&v));
}

#[test]
fn drawn_ids_are_kept_only_when_fresh() {
    let p = project();
    assert_eq!(p.ids_if_fresh(strings(&["N1", "N2"])), Some(strings(&["N1", "N2"])));
    assert_eq!(p.ids_if_fresh(strings(&["N1", "N1"])), None);
    assert_eq!(p.ids_if_fresh(strings(&["N1", "AAA"])), None);
    assert_eq!(p.ids_if_fresh(vec![]), Some(vec![]));
    assert_eq!(p.fresh_random_ids(0), Some(vec![]));
    let ids = p.fresh_random_ids(3).expect("three random ids are almost surely fresh");
    assert_eq!(ids.len(), 3);
}
