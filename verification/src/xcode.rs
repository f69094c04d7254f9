//! The property lists and strings of the iOS Xcode project, and the names
//! that the project generator derives from a layout.

use vstd::prelude::*;

use crate::ios::IosTarget;
use crate::sorted::{
    index_of_text, lemma_index_from, lemma_set_insert_sorted, lemma_set_remove_sorted, set_contains, set_insert,
    set_remove, strictly_sorted, text_seq,
};
use crate::text::{chars_of, lowercased, replace_str, replaced, str_eq, string_from_chars, to_lowercase};

verus! {

/// A string as Rust's `Debug` writes it: in double quotes, with escapes.
pub uninterp spec fn debug_text(s: Seq<char>) -> Seq<char>;

/// Writes a string as `format!("{:?}", s)` does. The escaping is the
/// standard library's; nothing is claimed of it but that the same text gives
/// the same result.
#[verifier::external_body]
pub(crate) fn debug_string(s: &str) -> (res: String)
    ensures
        res@ == debug_text(s@),
{
    format!("{:?}", s)
}

/// The hosting app's name in one locale, as an `InfoPlist.strings` file.
#[derive(Debug)]
pub struct XcodeHostingInfoStrings {
    pub cf_bundle_name: String,
    pub cf_bundle_display_name: String,
}

/// The text of an `InfoPlist.strings` file.
pub open spec fn hosting_info_strings_text(s: XcodeHostingInfoStrings) -> Seq<char> {
    "\"CFBundleName\" = "@ + debug_text(s.cf_bundle_name@) + ";\n\"CFBundleDisplayName\" = "@ + debug_text(
        s.cf_bundle_display_name@,
    ) + ";"@
}

impl XcodeHostingInfoStrings {
    /// The strings as the file holds them.
    pub fn to_strings_text(&self) -> (res: String)
        ensures
            res@ == hosting_info_strings_text(*self),
    {
        let mut s = "\"CFBundleName\" = ".to_string();
        let name = debug_string(self.cf_bundle_name.as_str());
        s.append(name.as_str());
        s.append(";\n\"CFBundleDisplayName\" = ");
        let display_name = debug_string(self.cf_bundle_display_name.as_str());
        s.append(display_name.as_str());
        s.append(";");
        s
    }
}

/// The attributes of a keyboard extension.
#[derive(Debug)]
pub struct LayoutInfoPlistExtensionAttributes {
    pub is_ascii_capable: bool,
    pub prefers_right_to_left: bool,
    pub primary_language: String,
    pub requests_open_access: bool,
}

/// The extension entry of a keyboard's `Info.plist`.
#[derive(Debug)]
pub struct KeyboardInfoPlistExtension {
    pub ns_extension_attributes: LayoutInfoPlistExtensionAttributes,
    pub ns_extension_point_identifier: String,
    pub ns_extension_principal_class: String,
}

/// A keyboard extension's `Info.plist`.
#[derive(Debug)]
pub struct KeyboardInfoPlist {
    pub divvun_speller_path: Option<String>,
    pub divvun_speller_package_key: Option<String>,
    pub divvun_contact_email: String,
    pub cf_bundle_development_region: String,
    pub cf_bundle_display_name: String,
    pub cf_bundle_executable: String,
    pub cf_bundle_identifier: String,
    pub cf_bundle_info_dictionary_version: String,
    pub cf_bundle_name: String,
    pub cf_bundle_package_type: String,
    pub cf_bundle_short_version_string: String,
    pub cf_bundle_signature: String,
    pub cf_bundle_version: String,
    pub divvun_keyboard_index: usize,
    pub its_app_uses_non_exempt_encryption: bool,
    pub ls_application_queries_schemes: Vec<String>,
    pub ns_extension: KeyboardInfoPlistExtension,
}

/// The app groups of an app's entitlements.
#[derive(Debug)]
pub struct EntitlementsDict {
    pub com_apple_security_application_groups: Vec<String>,
}

/// A setting of the settings bundle.
#[derive(Debug)]
pub struct PreferenceSpecifier {
    pub preference_type: String,
    pub title: String,
    pub key: String,
    pub default_value: bool,
}

/// The settings bundle's `Root.plist`.
#[derive(Debug)]
pub struct SettingsRootDict {
    pub strings_table: String,
    pub preference_specifiers: Vec<PreferenceSpecifier>,
    pub application_group_container_identifier: String,
}

/// The URL schemes of an app.
#[derive(Debug)]
pub struct BundleSchemes {
    pub cf_bundle_url_schemes: Vec<String>,
}

/// The hosting app's `Info.plist`.
#[derive(Debug)]
pub struct HostingPlist {
    pub cf_bundle_development_region: String,
    pub cf_bundle_display_name: String,
    pub cf_bundle_executable: String,
    pub cf_bundle_identifier: String,
    pub cf_bundle_info_dictionary_version: String,
    pub cf_bundle_name: String,
    pub cf_bundle_package_type: String,
    pub cf_bundle_short_version_string: String,
    pub cf_bundle_signature: String,
    pub cf_bundle_url_types: Vec<BundleSchemes>,
    pub cf_bundle_version: String,
    pub its_app_uses_non_exempt_encryption: bool,
    pub ls_application_queries_schemes: Vec<String>,
    pub ls_requires_iphone_os: bool,
    pub ui_background_modes: Vec<String>,
    pub ui_launch_storyboard_name: String,
    pub ui_required_device_capabilities: Vec<String>,
    pub ui_supported_interface_orientations: Vec<String>,
    pub ui_user_interface_style: String,
}

/// An image of an app icon set.
#[derive(Debug)]
pub struct IconDefinition {
    pub idiom: String,
    pub size: String,
    pub scale: String,
    pub filename: Option<String>,
}

/// The version, build and package identifier that the project's property
/// lists are given.
#[derive(Debug)]
pub struct IosKeyboardSettings {
    pub short_version: String,
    pub build_version: String,
    pub package_id: String,
}

impl IosKeyboardSettings {
    /// The settings of an iOS target.
    pub fn of_target(target: &IosTarget) -> (res: IosKeyboardSettings)
        ensures
            res.short_version@ == target.version@,
            res.build_version@ == target.build@,
            res.package_id@ == target.package_id@,
    {
        IosKeyboardSettings {
            short_version: target.version.as_str().to_string(),
            build_version: target.build.as_str().to_string(),
            package_id: target.package_id.as_str().to_string(),
        }
    }
}

/// A layout's keyboard `Info.plist`, made from the template's: the display
/// name, version, build, package identifier (as first queried scheme),
/// primary language and keyboard index replaced, the rest kept.
pub fn generate_keyboard_plist(
    template: KeyboardInfoPlist,
    value: IosKeyboardSettings,
    display_name: String,
    keyboard_index: usize,
    primary_language: String,
) -> (res: KeyboardInfoPlist)
    requires
        template.ls_application_queries_schemes.len() > 0,
    ensures
        res.cf_bundle_display_name == display_name,
        res.cf_bundle_short_version_string == value.short_version,
        res.cf_bundle_version == value.build_version,
        res.ls_application_queries_schemes@ == template.ls_application_queries_schemes@.update(
            0,
            value.package_id,
        ),
        res.ns_extension.ns_extension_attributes.primary_language == primary_language,
        res.divvun_keyboard_index == keyboard_index,
        res == (KeyboardInfoPlist {
            cf_bundle_display_name: res.cf_bundle_display_name,
            cf_bundle_short_version_string: res.cf_bundle_short_version_string,
            cf_bundle_version: res.cf_bundle_version,
            ls_application_queries_schemes: res.ls_application_queries_schemes,
            ns_extension: KeyboardInfoPlistExtension {
                ns_extension_attributes: LayoutInfoPlistExtensionAttributes {
                    primary_language: res.ns_extension.ns_extension_attributes.primary_language,
                    ..template.ns_extension.ns_extension_attributes
                },
                ..template.ns_extension
            },
            divvun_keyboard_index: res.divvun_keyboard_index,
            ..template
        }),
{
    let mut keyboard_plist = template;
    keyboard_plist.cf_bundle_display_name = display_name;
    keyboard_plist.cf_bundle_short_version_string = value.short_version;
    keyboard_plist.cf_bundle_version = value.build_version;
    keyboard_plist.ls_application_queries_schemes.set(0, value.package_id);
    keyboard_plist.ns_extension.ns_extension_attributes.primary_language = primary_language;
    keyboard_plist.divvun_keyboard_index = keyboard_index;
    keyboard_plist
}

} // verus!

verus! {

/// The hosting app's `Info.plist`, made from the template's: the display
/// name, version and build replaced, and the package identifier made the
/// first URL scheme of the first URL type and the first queried scheme.
pub fn generate_hosting_plist(template: HostingPlist, display_name: String, value: IosKeyboardSettings) -> (res:
    HostingPlist)
    requires
        template.cf_bundle_url_types.len() > 0,
        template.cf_bundle_url_types@[0].cf_bundle_url_schemes.len() > 0,
        template.ls_application_queries_schemes.len() > 0,
    ensures
        res.cf_bundle_display_name == display_name,
        res.cf_bundle_short_version_string == value.short_version,
        res.cf_bundle_version == value.build_version,
        res.cf_bundle_url_types@.len() == template.cf_bundle_url_types@.len(),
        res.cf_bundle_url_types@[0].cf_bundle_url_schemes@
            == template.cf_bundle_url_types@[0].cf_bundle_url_schemes@.update(
            0,
            res.cf_bundle_url_types@[0].cf_bundle_url_schemes@[0],
        ),
        res.cf_bundle_url_types@[0].cf_bundle_url_schemes@[0]@ == value.package_id@,
        forall|i: int|
            1 <= i < res.cf_bundle_url_types@.len() ==> #[trigger] res.cf_bundle_url_types@[i]
                == template.cf_bundle_url_types@[i],
        res.ls_application_queries_schemes@[0]@ == value.package_id@,
        res.ls_application_queries_schemes@ == template.ls_application_queries_schemes@.update(
            0,
            res.ls_application_queries_schemes@[0],
        ),
        res == (HostingPlist {
            cf_bundle_display_name: res.cf_bundle_display_name,
            cf_bundle_short_version_string: res.cf_bundle_short_version_string,
            cf_bundle_version: res.cf_bundle_version,
            cf_bundle_url_types: res.cf_bundle_url_types,
            ls_application_queries_schemes: res.ls_application_queries_schemes,
            ..template
        }),
{
    let mut hosting_app_plist = template;
    hosting_app_plist.cf_bundle_display_name = display_name;
    hosting_app_plist.cf_bundle_short_version_string = value.short_version;
    hosting_app_plist.cf_bundle_version = value.build_version;
    let package_id = value.package_id;
    let scheme = package_id.as_str().to_string();
    let mut url_types = hosting_app_plist.cf_bundle_url_types;
    let mut first = url_types.remove(0);
    first.cf_bundle_url_schemes.set(0, scheme);
    url_types.insert(0, first);
    hosting_app_plist.cf_bundle_url_types = url_types;
    hosting_app_plist.ls_application_queries_schemes.set(0, package_id);
    hosting_app_plist
}

/// Entitlements with their app groups replaced.
pub fn update_entitlements(entitlements: EntitlementsDict, new_entitlements: Vec<String>) -> (res: EntitlementsDict)
    ensures
        res.com_apple_security_application_groups == new_entitlements,
{
    let mut keyboard_entitlements = entitlements;
    keyboard_entitlements.com_apple_security_application_groups = new_entitlements;
    keyboard_entitlements
}

/// The settings bundle's root list with the app group it reads replaced.
pub fn update_settings_group(root: SettingsRootDict, group: String) -> (res: SettingsRootDict)
    ensures
        res == (SettingsRootDict { application_group_container_identifier: group, ..root }),
{
    let mut root_plist = root;
    root_plist.application_group_container_identifier = group;
    root_plist
}

/// `input` with every `character` replaced by `replace_with`.
pub open spec fn replaced_chars(input: Seq<char>, character: char, replace_with: char) -> Seq<char> {
    input.map_values(|c: char| if c == character { replace_with } else { c })
}

/// Replaces every `character` of `input` by `replace_with`.
pub fn replace_all_occurances(input: String, character: char, replace_with: char) -> (res: String)
    ensures
        res@ == replaced_chars(input@, character, replace_with),
{
    let chars = chars_of(input.as_str());
    let mut out: Vec<char> = Vec::new();
    let mut i: usize = 0;
    while i < chars.len()
        invariant
            i <= chars.len(),
            chars@ == input@,
            out@ == replaced_chars(chars@.take(i as int), character, replace_with),
        decreases chars.len() - i,
    {
        if chars[i] == character {
            out.push(replace_with);
        } else {
            out.push(chars[i]);
        }
        i = i + 1;
        assert(out@ =~= replaced_chars(chars@.take(i as int), character, replace_with));
    }
    assert(chars@.take(i as int) =~= chars@);
    string_from_chars(out.as_slice())
}

/// The folder and target name of a layout's keyboard: its display name in
/// lower case, with hyphens for spaces and without parentheses.
pub open spec fn layout_folder_text(display_name: Seq<char>) -> Seq<char> {
    replaced(
        replaced(replaced(lowercased(display_name), " "@, "-"@), "("@, ""@),
        ")"@,
        ""@,
    )
}

/// A project locale as the Xcode project names it: `Base` for English.
pub open spec fn xcode_locale_text(locale: Seq<char>) -> Seq<char> {
    if locale == "en"@ {
        "Base"@
    } else {
        locale
    }
}

/// The identity that signs a target: the code signing identity, or
/// `Unknown`.
pub open spec fn development_team_text(code_sign_id: Option<String>) -> Seq<char> {
    match code_sign_id {
        Some(id) => id@,
        None => "Unknown"@,
    }
}

/// The step that fills in the Xcode project of the iOS keyboards.
pub struct GenerateXcode;

impl GenerateXcode {
    /// The locales of the hosting app as the project lists them: each of
    /// `locales` once, in order, with `en` given as `Base`.
    pub fn project_locales(locales: &Vec<String>) -> (res: Vec<String>)
        ensures
            strictly_sorted(text_seq(res@)),
            forall|x: Seq<char>|
                text_seq(res@).contains(x) <==> ((text_seq(locales@).contains(x) && x != "en"@) || (x
                    == "Base"@ && text_seq(locales@).contains("en"@))),
    {
        let mut set: Vec<String> = Vec::new();
        let mut i: usize = 0;
        assert(text_seq(set@) =~= Seq::<Seq<char>>::empty());
        while i < locales.len()
            invariant
                i <= locales.len(),
                strictly_sorted(text_seq(set@)),
                forall|x: Seq<char>| text_seq(set@).contains(x) <==> text_seq(locales@).take(i as int).contains(x),
            decreases locales.len() - i,
        {
            let ghost before = set@;
            let locale = locales[i].clone();
            proof {
                lemma_set_insert_sorted(before, locale);
            }
            set_insert(&mut set, locale);
            let ghost t0 = text_seq(locales@).take(i as int);
            let ghost y = locales@[i as int]@;
            i = i + 1;
            assert forall|x: Seq<char>| text_seq(set@).contains(x) <==> text_seq(locales@).take(i as int).contains(x) by {
                let t1 = text_seq(locales@).take(i as int);
                assert(t1 =~= t0.push(y));
                assert(text_seq(set@).contains(x) <==> (text_seq(before).contains(x) || x == y));
                assert(text_seq(before).contains(x) <==> t0.contains(x));
                if t1.contains(x) && x != y {
                    let k = choose|k: int| 0 <= k < t1.len() && t1[k] == x;
                    assert(t0[k] == x);
                }
                if t0.contains(x) {
                    let k = choose|k: int| 0 <= k < t0.len() && t0[k] == x;
                    assert(t1[k] == x);
                }
                if x == y {
                    assert(t1[t0.len() as int] == x);
                }
            }
        }
        assert(text_seq(locales@).take(i as int) =~= text_seq(locales@));
        let ghost s0 = set@;
        proof {
            lemma_index_from(text_seq(s0), "en"@, 0);
        }
        if set_contains(&set, "en") {
            proof {
                lemma_set_remove_sorted(s0, "en"@);
                let k = index_of_text(text_seq(s0), "en"@)->Some_0;
                assert(text_seq(s0)[k] == "en"@);
                assert(text_seq(s0).contains("en"@));
                assert(text_seq(locales@).take(i as int).contains("en"@));
                assert(text_seq(locales@).contains("en"@));
            }
            set_remove(&mut set, "en");
            let ghost s1 = set@;
            let base = "Base".to_string();
            proof {
                lemma_set_insert_sorted(s1, base);
            }
            set_insert(&mut set, base);
            assert forall|x: Seq<char>|
                text_seq(set@).contains(x) <==> ((text_seq(locales@).contains(x) && x != "en"@) || (x == "Base"@
                    && text_seq(locales@).contains("en"@))) by {
                assert(text_seq(set@).contains(x) <==> (text_seq(s1).contains(x) || x == "Base"@));
                assert(text_seq(s1).contains(x) <==> (text_seq(s0).contains(x) && x != "en"@));
                assert(text_seq(s0).contains(x) <==> text_seq(locales@).contains(x));
            }
        } else {
            assert forall|x: Seq<char>|
                text_seq(set@).contains(x) <==> ((text_seq(locales@).contains(x) && x != "en"@) || (x == "Base"@
                    && text_seq(locales@).contains("en"@))) by {
                assert(text_seq(s0).contains(x) <==> text_seq(locales@).contains(x));
                assert(!text_seq(s0).contains("en"@)) by {
                    if text_seq(s0).contains("en"@) {
                        let k = choose|k: int| 0 <= k < text_seq(s0).len() && text_seq(s0)[k] == "en"@;
                        assert(text_seq(s0)[k] != "en"@);
                    }
                }
            }
        }
        set
    }

    /// The folder and target name of a layout's keyboard.
    pub fn layout_folder_name(display_name: &str) -> (res: String)
        ensures
            res@ == layout_folder_text(display_name@),
    {
        let lower = to_lowercase(display_name);
        let a = replace_str(lower.as_str(), " ", "-");
        let b = replace_str(a.as_str(), "(", "");
        replace_str(b.as_str(), ")", "")
    }

    /// The name of a project locale's `.lproj` folder.
    pub fn locale_folder_name(locale: &str) -> (res: String)
        ensures
            res@ == xcode_locale_text(locale@),
    {
        if str_eq(locale, "en") {
            "Base".to_string()
        } else {
            locale.to_string()
        }
    }

    /// The bundle identifier of a layout's keyboard: the package identifier, a
    /// dot and the layout's folder name.
    pub fn keyboard_bundle_identifier(package_id: &str, layout_folder_name: &str) -> (res: String)
        ensures
            res@ == package_id@ + "."@ + layout_folder_name@,
    {
        let mut s = package_id.to_string();
        s.append(".");
        s.append(layout_folder_name);
        s
    }

    /// The app group that the apps share: `group.` and the package
    /// identifier.
    pub fn app_group(package_id: &str) -> (res: String)
        ensures
            res@ == "group."@ + package_id@,
    {
        let mut s = "group.".to_string();
        s.append(package_id);
        s
    }

    /// The development team of the targets.
    pub fn development_team(code_sign_id: &Option<String>) -> (res: String)
        ensures
            res@ == development_team_text(*code_sign_id),
    {
        match code_sign_id {
            Some(id) => id.as_str().to_string(),
            None => "Unknown".to_string(),
        }
    }
}

/// Whether `pattern` occurs in `s` at index `i`.
pub open spec fn occurs_at(s: Seq<char>, pattern: Seq<char>, i: int) -> bool {
    0 <= i && i + pattern.len() <= s.len() && s.subrange(i, i + pattern.len()) == pattern
}

/// The index of the first occurrence of `pattern` in `s` at or after `i`.
pub open spec fn first_occurrence_from(s: Seq<char>, pattern: Seq<char>, i: int) -> Option<int>
    decreases s.len() + 1 - i,
{
    if i < 0 || i + pattern.len() > s.len() {
        None
    } else if occurs_at(s, pattern, i) {
        Some(i)
    } else {
        first_occurrence_from(s, pattern, i + 1)
    }
}

/// Where `first_occurrence_from` finds the pattern, it occurs there and not
/// before the index it starts from.
pub proof fn lemma_first_occurrence_from(s: Seq<char>, pattern: Seq<char>, i: int)
    ensures
        first_occurrence_from(s, pattern, i) matches Some(j) ==> i <= j && occurs_at(s, pattern, j),
    decreases s.len() + 1 - i,
{
    if !(i < 0 || i + pattern.len() > s.len()) && !occurs_at(s, pattern, i) {
        lemma_first_occurrence_from(s, pattern, i + 1);
    }
}

/// Whether `path` names something inside the folder `relative_to`: the
/// folder's name occurs in it and something follows the separator after it.
pub open spec fn is_inside(path: Seq<char>, relative_to: Seq<char>) -> bool {
    first_occurrence_from(path, relative_to, 0) matches Some(i) && i + relative_to.len() + 1 <= path.len()
}

/// What follows `relative_to` and the separator after it in `path`.
pub open spec fn relative_path_text(path: Seq<char>, relative_to: Seq<char>) -> Seq<char> {
    path.skip(first_occurrence_from(path, relative_to, 0).unwrap() + relative_to.len() + 1)
}

fn occurs_at_exec(chars: &Vec<char>, pattern: &Vec<char>, i: usize) -> (res: bool)
    requires
        i + pattern.len() <= chars.len(),
    ensures
        res == occurs_at(chars@, pattern@, i as int),
{
    let mut k: usize = 0;
    while k < pattern.len()
        invariant
            k <= pattern.len(),
            i + pattern.len() <= chars.len(),
            forall|j: int| 0 <= j < k ==> chars@[i + j] == pattern@[j],
        decreases pattern.len() - k,
    {
        if chars[i + k] != pattern[k] {
            assert(chars@.subrange(i as int, i + pattern.len())[k as int] != pattern@[k as int]);
            return false;
        }
        k = k + 1;
    }
    assert(chars@.subrange(i as int, i + pattern.len()) =~= pattern@);
    true
}

/// Whether `path` names something inside the folder `relative_to`,
/// computed.
pub fn path_is_inside(path: &str, relative_to: &str) -> (res: bool)
    ensures
        res == is_inside(path@, relative_to@),
{
    let chars = chars_of(path);
    let pattern = chars_of(relative_to);
    if pattern.len() > chars.len() {
        return false;
    }
    let last = chars.len() - pattern.len();
    let mut i: usize = 0;
    loop
        invariant
            chars@ == path@,
            pattern@ == relative_to@,
            last == chars.len() - pattern.len(),
            i <= last,
            first_occurrence_from(path@, relative_to@, 0) == first_occurrence_from(path@, relative_to@, i as int),
        decreases last - i,
    {
        if occurs_at_exec(&chars, &pattern, i) {
            return i < last;
        }
        if i == last {
            return false;
        }
        i = i + 1;
    }
}

/// `path` relative to the folder `relative_to` that it lies in.
pub fn path_to_relative(path: &str, relative_to: &str) -> (res: String)
    requires
        is_inside(path@, relative_to@),
    ensures
        res@ == relative_path_text(path@, relative_to@),
{
    let chars = chars_of(path);
    let pattern = chars_of(relative_to);
    let ghost j = first_occurrence_from(path@, relative_to@, 0).unwrap();
    proof {
        lemma_first_occurrence_from(path@, relative_to@, 0);
    }
    let mut i: usize = 0;
    loop
        invariant
            chars@ == path@,
            pattern@ == relative_to@,
            is_inside(path@, relative_to@),
            i <= j,
            j + pattern.len() + 1 <= chars.len(),
            first_occurrence_from(path@, relative_to@, i as int) == Some(j),
        ensures
            i == j,
            j + pattern.len() + 1 <= chars.len(),
            chars@ == path@,
        decreases j - i,
    {
        proof {
            lemma_first_occurrence_from(path@, relative_to@, i as int);
        }
        if occurs_at_exec(&chars, &pattern, i) {
            break;
        }
        proof {
            lemma_first_occurrence_from(path@, relative_to@, i + 1);
        }
        i = i + 1;
    }
    assert(i == j);
    let start = i + pattern.len() + 1;
    let mut out: Vec<char> = Vec::new();
    let mut k: usize = start;
    while k < chars.len()
        invariant
            start <= k <= chars.len(),
            out@ == chars@.subrange(start as int, k as int),
        decreases chars.len() - k,
    {
        out.push(chars[k]);
        k = k + 1;
        assert(out@ =~= chars@.subrange(start as int, k as int));
    }
    assert(out@ =~= chars@.skip(start as int));
    string_from_chars(out.as_slice())
}

} // verus!

verus! {

/// The folder and target names of the keyboards hold no spaces and no
/// parentheses, whatever their display names.
pub proof fn lemma_layout_folder_name_is_plain(display_name: Seq<char>)
    ensures
        !layout_folder_text(display_name).contains(' '),
        !layout_folder_text(display_name).contains('('),
        !layout_folder_text(display_name).contains(')'),
{
    reveal_strlit(" ");
    reveal_strlit("-");
    reveal_strlit("(");
    reveal_strlit(")");
    reveal_strlit("");
    let a = replaced(lowercased(display_name), " "@, "-"@);
    let b = replaced(a, "("@, ""@);
    assert(" "@ =~= seq![' ']);
    assert("("@ =~= seq!['(']);
    assert(")"@ =~= seq![')']);
    crate::text::lemma_replaced_removes(lowercased(display_name), ' ', "-"@);
    crate::text::lemma_replaced_removes(a, '(', ""@);
    crate::text::lemma_replaced_keeps_absent(a, "("@, ""@, ' ');
    crate::text::lemma_replaced_removes(b, ')', ""@);
    crate::text::lemma_replaced_keeps_absent(b, ")"@, ""@, ' ');
    crate::text::lemma_replaced_keeps_absent(b, ")"@, ""@, '(');
}

} // verus!
