use kbdgen::pbxproj::{
    list_to_pbxproj_string, ConfigurationList, ContainerItemProxy, CopyFilesBuildPhase, FileReference,
    FrameworksBuildPhase, Group, HeadersBuildPhase, NativeTarget, PBXCopyFilesBuildPhase, ResourcesBuildPhase,
    ShellScriptBuildPhase, SourcesBuildPhase, TargetDependency, VariantGroup,
};
use kbdgen::xcode::{
    generate_hosting_plist, generate_keyboard_plist, path_to_relative, replace_all_occurances, update_entitlements,
    update_settings_group, BundleSchemes, EntitlementsDict, GenerateXcode, HostingPlist, IconDefinition,
    IosKeyboardSettings, KeyboardInfoPlist, KeyboardInfoPlistExtension, LayoutInfoPlistExtensionAttributes,
    PreferenceSpecifier, SettingsRootDict, XcodeHostingInfoStrings,
};

fn s(v: &str) -> String {
    v.to_string()
}

fn settings() -> IosKeyboardSettings {
    IosKeyboardSettings { short_version: s("2.0"), build_version: s("9"), package_id: s("no.uit.kbd") }
}

#[test]
fn hosting_info_strings_are_quoted() {
    let strings = XcodeHostingInfoStrings { cf_bundle_name: s("Sámi"), cf_bundle_display_name: s("Sá\"mi") };
    assert_eq!(strings.to_strings_text(), "\"CFBundleName\" = \"Sámi\";\n\"CFBundleDisplayName\" = \"Sá\\\"mi\";");
}

#[test]
fn keyboard_plist_takes_the_layout_settings() {
    let template = KeyboardInfoPlist {
        divvun_speller_path: None,
        divvun_speller_package_key: Some(s("pkg")),
        divvun_contact_email: s("mail"),
        cf_bundle_development_region: s("en"),
        cf_bundle_display_name: s("Old"),
        cf_bundle_executable: s("exe"),
        cf_bundle_identifier: s("id"),
        cf_bundle_info_dictionary_version: s("6.0"),
        cf_bundle_name: s("name"),
        cf_bundle_package_type: s("XPC!"),
        cf_bundle_short_version_string: s("1.0"),
        cf_bundle_signature: s("????"),
        cf_bundle_version: s("1"),
        divvun_keyboard_index: 0,
        its_app_uses_non_exempt_encryption: false,
        ls_application_queries_schemes: vec![s("old"), s("other")],
        ns_extension: KeyboardInfoPlistExtension {
            ns_extension_attributes: LayoutInfoPlistExtensionAttributes {
                is_ascii_capable: true,
                prefers_right_to_left: false,
                primary_language: s("en"),
                requests_open_access: true,
            },
            ns_extension_point_identifier: s("keyboard-service"),
            ns_extension_principal_class: s("Kbd"),
        },
    };
    let plist = generate_keyboard_plist(template, settings(), s("Sámi"), 3, s("se"));
    assert_eq!(plist.cf_bundle_display_name, "Sámi");
    assert_eq!(plist.cf_bundle_short_version_string, "2.0");
    assert_eq!(plist.cf_bundle_version, "9");
    assert_eq!(plist.ls_application_queries_schemes, vec!["no.uit.kbd", "other"]);
    assert_eq!(plist.ns_extension.ns_extension_attributes.primary_language, "se");
    assert_eq!(plist.divvun_keyboard_index, 3);
    assert_eq!(plist.cf_bundle_name, "name");
    assert_eq!(plist.divvun_speller_package_key, Some(s("pkg")));
}

#[test]
fn hosting_plist_takes_the_app_settings() {
    let template = HostingPlist {
        cf_bundle_development_region: s("en"),
        cf_bundle_display_name: s("Old"),
        cf_bundle_executable: s("exe"),
        cf_bundle_identifier: s("id"),
        cf_bundle_info_dictionary_version: s("6.0"),
        cf_bundle_name: s("name"),
        cf_bundle_package_type: s("APPL"),
        cf_bundle_short_version_string: s("1.0"),
        cf_bundle_signature: s("????"),
        cf_bundle_url_types: vec![BundleSchemes { cf_bundle_url_schemes: vec![s("old"), s("x")] }],
        cf_bundle_version: s("1"),
        its_app_uses_non_exempt_encryption: false,
        ls_application_queries_schemes: vec![s("old")],
        ls_requires_iphone_os: true,
        ui_background_modes: vec![],
        ui_launch_storyboard_name: s("Launch"),
        ui_required_device_capabilities: vec![s("armv7")],
        ui_supported_interface_orientations: vec![s("portrait")],
        ui_user_interface_style: s("Light"),
    };
    let plist = generate_hosting_plist(template, s("Keyboards"), settings());
    assert_eq!(plist.cf_bundle_display_name, "Keyboards");
    assert_eq!(plist.cf_bundle_url_types[0].cf_bundle_url_schemes, vec!["no.uit.kbd", "x"]);
    assert_eq!(plist.ls_application_queries_schemes, vec!["no.uit.kbd"]);
    assert_eq!(plist.cf_bundle_version, "9");
    assert!(plist.ls_requires_iphone_os);
}

#[test]
fn entitlements_and_settings_take_the_app_group() {
    let e = update_entitlements(EntitlementsDict { com_apple_security_application_groups: vec![s("old")] }, vec![s("group.no.uit.kbd")]);
    assert_eq!(e.com_apple_security_application_groups, vec!["group.no.uit.kbd"]);
    let root = SettingsRootDict {
        strings_table: s("Root"),
        preference_specifiers: vec![PreferenceSpecifier { preference_type: s("PSToggleSwitchSpecifier"), title: s("T"), key: s("k"), default_value: true }],
        application_group_container_identifier: s("old"),
    };
    let root = update_settings_group(root, GenerateXcode::app_group("no.uit.kbd"));
    assert_eq!(root.application_group_container_identifier, "group.no.uit.kbd");
    assert_eq!(root.preference_specifiers.len(), 1);
}

#[test]
fn xcode_names() {
    assert_eq!(GenerateXcode::layout_folder_name("North Sámi (Norway)"), "north-sámi-norway");
    assert_eq!(GenerateXcode::locale_folder_name("en"), "Base");
    assert_eq!(GenerateXcode::locale_folder_name("nb"), "nb");
    assert_eq!(GenerateXcode::keyboard_bundle_identifier("no.uit", "sme"), "no.uit.sme");
    assert_eq!(GenerateXcode::development_team(&None), "Unknown");
    assert_eq!(GenerateXcode::development_team(&Some(s("TEAM"))), "TEAM");
    assert_eq!(replace_all_occurances(s("a.b.c"), '.', '-'), "a-b-c");
    assert_eq!(path_to_relative("out/repo/Keyboard/sme/Info.plist", "repo"), "Keyboard/sme/Info.plist");
    let name = GenerateXcode::layout_folder_name("A (b) C");
    assert!(!name.contains(' ') && !name.contains('(') && !name.contains(')'));
    let icon = IconDefinition { idiom: s("iphone"), size: s("20x20"), scale: s("2x"), filename: None };
    assert_eq!(icon.scale, "2x");
}

#[test]
fn pbxproj_lists_and_simple_entries() {
    assert_eq!(list_to_pbxproj_string(&vec![s("A"), s("B")]), "\n\t\t\t\tA /* TODO */,\n\t\t\t\tB /* TODO */,");
    let proxy = ContainerItemProxy {
        container_portal: s("P"),
        proxy_type: s("1"),
        remote_global_id_string: s("R"),
        remote_info: s("Keyboard"),
    };
    assert_eq!(
        proxy.to_pbxproj_entry("OID"),
        "\t\tOID /* PBXContainerItemProxy */ = {\n\t\t\tisa = PBXContainerItemProxy;\n\t\t\tcontainerPortal = P /* TODO */;\n\t\t\tproxyType = 1;\n\t\t\tremoteGlobalIDString = R;\n\t\t\tremoteInfo = Keyboard;\n\t\t};\n"
    );
    let dep = TargetDependency { target: s("T"), target_proxy: s("X") };
    assert_eq!(
        dep.to_pbxproj_entry("D"),
        "\t\tD /* TODO */ = {\n\t\t\tisa = PBXTargetDependency;\n\t\t\ttarget = T;\n\t\t\ttargetProxy = X;\n\t\t};\n"
    );
    let list = ConfigurationList {
        build_configurations: vec![s("C1")],
        default_configuration_is_visible: s("0"),
        default_configuration_name: s("Release"),
    };
    assert_eq!(
        list.to_pbxproj_entry("L"),
        "\t\tL /* TODO */ = {\n\t\t\tisa = XCConfigurationList;\n\t\t\tbuildConfigurations = (\n\t\t\t\tC1 /* TODO */,\n\t\t\t);\n\t\t\tdefaultConfigurationIsVisible = 0;\n\t\t\tdefaultConfigurationName = Release;\n\t\t};\n"
    );
}

#[test]
fn pbxproj_build_phases() {
    let phase = |isa: &str, text: String| {
        assert_eq!(
            text,
            format!("\t\tB /* TODO */ = {{\n\t\t\tisa = {isa};\n\t\t\tbuildActionMask = 2147483647;\n\t\t\tfiles = (\n\t\t\t\tF /* TODO */,\n\t\t\t);\n\t\t\trunOnlyForDeploymentPostprocessing = 0;\n\t\t}};\n")
        )
    };
    phase(
        "PBXResourcesBuildPhase",
        ResourcesBuildPhase { build_action_mask: s("2147483647"), files: vec![s("F")], name: None, run_only_for_deployment_postprocessing: s("0") }
            .to_pbxproj_entry("B"),
    );
    phase(
        "PBXHeadersBuildPhase",
        HeadersBuildPhase { build_action_mask: s("2147483647"), files: vec![s("F")], run_only_for_deployment_postprocessing: s("0") }
            .to_pbxproj_entry("B"),
    );
    phase(
        "PBXSourcesBuildPhase",
        SourcesBuildPhase { build_action_mask: s("2147483647"), files: vec![s("F")], run_only_for_deployment_postprocessing: s("0") }
            .to_pbxproj_entry("B"),
    );
    phase(
        "PBXFrameworksBuildPhase",
        FrameworksBuildPhase { build_action_mask: s("2147483647"), files: vec![s("F")], run_only_for_deployment_postprocessing: s("0") }
            .to_pbxproj_entry("B"),
    );
    let copy = CopyFilesBuildPhase {
        build_action_mask: s("2147483647"),
        dst_path: s(""),
        dst_subfolder_spec: s("13"),
        files: vec![s("F")],
        name: Some(s("Embed App Extensions")),
        run_only_for_deployment_postprocessing: s("0"),
    };
    assert_eq!(
        copy.to_pbxproj_entry("C"),
        "\t\tC /* TODO */ = {\n\t\t\tisa = PBXCopyFilesBuildPhase;\n\t\t\tbuildActionMask = 2147483647;\n\t\t\tdstPath = \"\";\n\t\t\tdstSubfolderSpec = 13;\n\t\t\tfiles = (\n\t\t\t\tF /* TODO */,\n\t\t\t);\n\t\t\tname = \"Embed App Extensions\";\n\t\t\trunOnlyForDeploymentPostprocessing = 0;\n\t\t};\n"
    );
    let old = PBXCopyFilesBuildPhase {
        build_action_mask: s("1"),
        dst_path: s(""),
        dst_subfolder_spec: s("13"),
        files: vec![],
        name: None,
        run_only_for_deployment_postprocessing: s("0"),
    };
    assert_eq!(old.dst_subfolder_spec, "13");
}

#[test]
fn pbxproj_files_groups_and_targets() {
    let file = FileReference {
        file_encoding: Some(s("4")),
        include_in_index: None,
        last_known_file_type: Some(s("text.plist.xml")),
        explicit_file_type: None,
        name: Some(s("Info.plist")),
        path: s("north-sami/Info.plist"),
        source_tree: s("<group>"),
    };
    assert_eq!(
        file.to_pbxproj_entry("F"),
        "\t\tF /* Info.plist */ = {isa = PBXFileReference; fileEncoding = 4; lastKnownFileType = text.plist.xml; name = Info.plist; path = \"north-sami/Info.plist\"; sourceTree = \"<group>\"; \t\t};\n"
    );
    let group = Group { children: vec![s("F")], source_tree: s("<group>"), name: None, path: Some(s("North Sami")) };
    assert_eq!(
        group.to_pbxproj_entry("G"),
        "\t\tG /* North Sami */ = {\n\t\t\tisa = PBXGroup;\n\t\t\tchildren = (\n\t\t\t\tF /* TODO */,\n\t\t\t);\n\t\t\tpath = \"North Sami\";\n\t\t\tsourceTree = \"<group>\";\n\t\t};\n"
    );
    let anonymous = Group { children: vec![], source_tree: s("SOURCE_ROOT"), name: None, path: None };
    assert_eq!(
        anonymous.to_pbxproj_entry("G"),
        "\t\tG = {\n\t\t\tisa = PBXGroup;\n\t\t\tchildren = (\n\t\t\t);\n\t\t\tsourceTree = SOURCE_ROOT;\n\t\t};\n"
    );
    let variant = VariantGroup { children: vec![s("A")], source_tree: s("<group>"), name: Some(s("About.txt")), path: None };
    assert_eq!(
        variant.to_pbxproj_entry("V"),
        "\t\tV /* TODO */ = {\n\t\t\tisa = PBXVariantGroup;\n\t\t\tchildren = (\n\t\t\t\tA /* TODO */,\n\t\t\t);\n\t\t\tname = \"About.txt\";\n\t\t\tsourceTree = \"<group>\";\n\t\t};\n"
    );
    let target = NativeTarget {
        product_type: Some(s("\"com.apple.product-type.app-extension\"")),
        build_configuration_list: s("L"),
        product_reference: Some(s("P")),
        product_name: s("Keyboard"),
        build_phases: vec![s("B")],
        dependencies: vec![],
        name: s("Keyboard"),
        build_rules: vec![],
    };
    let text = target.to_pbxproj_entry("N");
    assert!(text.starts_with("\t\tN /* TODO */ = {\n\t\t\tisa = PBXNativeTarget;\n\t\t\tbuildConfigurationList = L;\n"));
    assert!(text.contains("\t\t\tname = \"Keyboard\";\n\t\t\tproductName = Keyboard;\n\t\t\tproductReference = P /* TODO */;\n"));
    let script = ShellScriptBuildPhase {
        build_action_mask: s("1"),
        files: vec![],
        input_file_list_paths: None,
        input_paths: vec![s("in")],
        name: s("[CP] Check"),
        output_file_list_paths: Some(vec![s("out.xcfilelist")]),
        output_paths: vec![],
        run_only_for_deployment_postprocessing: s("0"),
        shell_path: s("/bin/sh"),
        shell_script: s("echo \"hi\"\n"),
        show_env_vars_in_log: Some(s("0")),
    };
    let text = script.to_pbxproj_entry("S");
    assert!(text.contains("\t\t\tinputPaths = (\n\t\t\t\t\"in\",\n\t\t\t);\n\t\t\tname = \"[CP] Check\";\n"));
    assert!(text.contains("\t\t\toutputFileListPaths = (\n\t\t\t\tout.xcfilelist /* TODO */,\n\t\t\t);\n"));
    assert!(text.contains("\t\t\tshellScript = \"echo \\\"hi\\\"\\n\";\n\t\t\tshowEnvVarsInLog = 0;\n\t\t};\n"));
}

#[test]
fn project_locales_are_a_sorted_set_with_en_as_base() {
    let locales = vec![s("se"), s("en"), s("fi"), s("se")];
    assert_eq!(GenerateXcode::project_locales(&locales), vec![s("Base"), s("fi"), s("se")]);
    assert_eq!(GenerateXcode::project_locales(&vec![s("nb"), s("fi")]), vec![s("fi"), s("nb")]);
    assert!(GenerateXcode::project_locales(&vec![]).is_empty());
}
