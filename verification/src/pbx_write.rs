//! Writes a project file back in the text format that Xcode reads: a header,
//! one section per kind of object with the objects in the order of their
//! ids, and the root object's id.

use vstd::prelude::*;

use crate::index_map::{setting_entries, settings_get_index, settings_len};
use crate::pbx_project::{BuildConfiguration, BuildFile, Object, Pbxproj, PlistValue, Project, SettingView, SettingValue};
use crate::pbxproj::{
    build_phase_text, configuration_list_text, container_item_proxy_text, copy_files_phase_text,
    file_reference_text, group_text, list_to_pbxproj_string, native_target_text, pbx_list_text,
    shell_script_phase_text, target_dependency_text, variant_group_text,
};
use crate::text::{chars_of, digit_char, texts};
use crate::xcode::{debug_string, debug_text};

verus! {

/// How JSON writes a character inside a string: a quote and a backslash
/// after a backslash; backspace, form feed, line feed, carriage return and
/// tab as `\b`, `\f`, `\n`, `\r` and `\t`; any other character below
/// U+0020 as `\u00` and its two lower-case hex digits; any other character as
/// itself.
pub open spec fn json_char_text(c: char) -> Seq<char> {
    if c == '"' {
        seq!['\\', '"']
    } else if c == '\\' {
        seq!['\\', '\\']
    } else if c == '\u{8}' {
        seq!['\\', 'b']
    } else if c == '\u{c}' {
        seq!['\\', 'f']
    } else if c == '\n' {
        seq!['\\', 'n']
    } else if c == '\r' {
        seq!['\\', 'r']
    } else if c == '\t' {
        seq!['\\', 't']
    } else if (c as u32) < 0x20 {
        seq!['\\', 'u', '0', '0', digit_char((c as u32 / 16) as nat), digit_char((c as u32 % 16) as nat)]
    } else {
        seq![c]
    }
}

/// The characters of `s` as JSON writes them inside a string.
pub open spec fn json_escaped(s: Seq<char>) -> Seq<char>
    decreases s.len(),
{
    if s.len() == 0 {
        seq![]
    } else {
        json_escaped(s.drop_last()) + json_char_text(s.last())
    }
}

/// A string as JSON writes it: in double quotes, with JSON's escapes.
pub open spec fn json_text(s: Seq<char>) -> Seq<char> {
    seq!['"'] + json_escaped(s) + seq!['"']
}

/// Writes a string as `serde_json` writes a JSON string value (what
/// `Display` on a `serde_json::Value::String` gives): in double quotes, each
/// character as `json_char_text` says, following serde_json's table of
/// escapes.
#[verifier::external_body]
fn json_string(s: &str) -> (res: String)
    ensures
        res@ == json_text(s@),
{
    serde_json::Value::String(s.to_string()).to_string()
}

/// The entries of a dictionary of the project's attributes hold no list at
/// any depth: the project file writes only strings and dictionaries there.
pub open spec fn attrs_printable(entries: Seq<(String, PlistValue)>) -> bool
    decreases entries,
{
    if entries.len() == 0 {
        true
    } else {
        attrs_printable(entries.drop_last()) && match entries.last().1 {
            PlistValue::Text(_) => true,
            PlistValue::List(_) => false,
            PlistValue::Dict(inner) => attrs_printable(inner@),
        }
    }
}

/// The entries of a dictionary of attributes, each on a line of its own
/// after `prefix`: `key = value;`, a dictionary in braces with its entries
/// one tab further in.
pub open spec fn attr_entries_text(entries: Seq<(String, PlistValue)>, prefix: Seq<char>) -> Seq<char>
    decreases entries,
{
    if entries.len() == 0 {
        seq![]
    } else {
        attr_entries_text(entries.drop_last(), prefix) + prefix + entries.last().0@ + " = "@
            + match entries.last().1 {
            PlistValue::Text(x) => x@ + ";\n"@,
            PlistValue::List(_) => seq![],
            PlistValue::Dict(inner) => "{\n"@ + attr_entries_text(inner@, prefix + "\t"@) + prefix
                + "};\n"@,
        }
    }
}

proof fn lemma_attrs_printable_take(entries: Seq<(String, PlistValue)>, i: int)
    requires
        attrs_printable(entries),
        0 <= i <= entries.len(),
    ensures
        attrs_printable(entries.take(i)),
    decreases entries.len(),
{
    if i < entries.len() {
        lemma_attrs_printable_take(entries.drop_last(), i);
        assert(entries.drop_last().take(i) =~= entries.take(i));
    } else {
        assert(entries.take(i) =~= entries);
    }
}

fn append_attr_entries(s: &mut String, entries: &Vec<(String, PlistValue)>, prefix: &str)
    requires
        attrs_printable(entries@),
    ensures
        final(s)@ == old(s)@ + attr_entries_text(entries@, prefix@),
    decreases entries@,
{
    let ghost start = s@;
    let mut i: usize = 0;
    assert(entries@.take(0) =~= Seq::<(String, PlistValue)>::empty());
    while i < entries.len()
        invariant
            i <= entries.len(),
            attrs_printable(entries@),
            s@ == start + attr_entries_text(entries@.take(i as int), prefix@),
        decreases entries.len() - i,
    {
        let ghost before = s@;
        proof {
            lemma_attrs_printable_take(entries@, i + 1);
            assert(entries@.take(i + 1).drop_last() =~= entries@.take(i as int));
            assert(entries@.take(i + 1).last() == entries@[i as int]);
        }
        let entry = &entries[i];
        s.append(prefix);
        s.append(entry.0.as_str());
        s.append(" = ");
        match &entry.1 {
            PlistValue::Text(x) => {
                s.append(x.as_str());
                s.append(";\n");
            },
            PlistValue::List(_) => {},
            PlistValue::Dict(inner) => {
                s.append("{\n");
                let mut deeper = prefix.to_string();
                deeper.append("\t");
                proof {
                    assert(decreases_to!(entries@ => entries@[i as int]));
                }
                append_attr_entries(s, inner, deeper.as_str());
                s.append(prefix);
                s.append("};\n");
            },
        }
        assert(s@ =~= start + attr_entries_text(entries@.take(i + 1), prefix@));
        i = i + 1;
    }
    assert(entries@.take(i as int) =~= entries@);
}

/// Each text followed by a comma and a space.
pub open spec fn comma_items_text(items: Seq<Seq<char>>) -> Seq<char>
    decreases items.len(),
{
    if items.len() == 0 {
        seq![]
    } else {
        comma_items_text(items.drop_last()) + items.last() + ", "@
    }
}

/// The settings of a build file: `key = (a, b, );` for a list of strings,
/// `key = ;` for any other value.
pub open spec fn build_file_settings_text(entries: Seq<(String, PlistValue)>) -> Seq<char>
    decreases entries.len(),
{
    if entries.len() == 0 {
        seq![]
    } else {
        build_file_settings_text(entries.drop_last()) + entries.last().0@ + " = "@ + match entries.last().1 {
            PlistValue::List(items) => "("@ + comma_items_text(texts(items@)) + ")"@,
            _ => seq![],
        } + ";"@
    }
}

/// The entry of a build file, on one line.
pub open spec fn build_file_text(oid: Seq<char>, b: BuildFile) -> Seq<char> {
    "\t\t"@ + oid + " /* TODO */ = {"@ + "isa = PBXBuildFile; fileRef = "@ + b.file_ref@ + " /* TODO */; "@
        + match b.settings {
        Some(entries) => "settings = {"@ + build_file_settings_text(entries@) + "};"@,
        None => seq![],
    } + "};"@ + "\n"@
}

fn comma_items_string(items: &Vec<String>) -> (res: String)
    ensures
        res@ == comma_items_text(texts(items@)),
{
    let mut s = String::new();
    let mut i: usize = 0;
    while i < items.len()
        invariant
            i <= items.len(),
            s@ == comma_items_text(texts(items@).take(i as int)),
        decreases items.len() - i,
    {
        s.append(items[i].as_str());
        s.append(", ");
        assert(texts(items@).take(i + 1).drop_last() =~= texts(items@).take(i as int));
        i = i + 1;
    }
    assert(texts(items@).take(i as int) =~= texts(items@));
    s
}

fn build_file_settings_string(entries: &Vec<(String, PlistValue)>) -> (res: String)
    ensures
        res@ == build_file_settings_text(entries@),
{
    let mut s = String::new();
    let mut i: usize = 0;
    while i < entries.len()
        invariant
            i <= entries.len(),
            s@ == build_file_settings_text(entries@.take(i as int)),
        decreases entries.len() - i,
    {
        let ghost before = s@;
        let entry = &entries[i];
        s.append(entry.0.as_str());
        s.append(" = ");
        match &entry.1 {
            PlistValue::List(items) => {
                s.append("(");
                s.append(comma_items_string(items).as_str());
                s.append(")");
            },
            _ => {},
        }
        s.append(";");
        assert(entries@.take(i + 1).drop_last() =~= entries@.take(i as int));
        assert(s@ =~= build_file_settings_text(entries@.take(i + 1)));
        i = i + 1;
    }
    assert(entries@.take(i as int) =~= entries@);
    s
}

impl BuildFile {
    /// The build file's entry under the object id `oid`.
    pub fn to_pbxproj_entry(&self, oid: &str) -> (res: String)
        ensures
            res@ == build_file_text(oid@, *self),
    {
        let mut s = "\t\t".to_string();
        s.append(oid);
        s.append(" /* TODO */ = {");
        s.append("isa = PBXBuildFile; fileRef = ");
        s.append(self.file_ref.as_str());
        s.append(" /* TODO */; ");
        let ghost before = s@;
        if let Some(entries) = &self.settings {
            s.append("settings = {");
            s.append(build_file_settings_string(entries).as_str());
            s.append("};");
        }
        assert(s@ =~= before + match self.settings {
            Some(entries) => "settings = {"@ + build_file_settings_text(entries@) + "};"@,
            None => seq![],
        });
        s.append("};");
        s.append("\n");
        assert(s@ =~= build_file_text(oid@, *self));
        s
    }
}

/// The project's attributes can be written: a dictionary holding no list.
pub open spec fn project_printable(p: Project) -> bool {
    p.attributes matches PlistValue::Dict(entries) && attrs_printable(entries@)
}

/// The entries of the project's attributes.
pub open spec fn attributes_text(attributes: PlistValue) -> Seq<char> {
    match attributes {
        PlistValue::Dict(entries) => attr_entries_text(entries@, "\t\t\t\t"@),
        _ => seq![],
    }
}

/// The entry of the project object.
pub open spec fn project_text(oid: Seq<char>, p: Project) -> Seq<char> {
    "\t\t"@ + oid + " /* Project object */ = {\n"@ + "\t\t\tisa = PBXProject;\n"@ + "\t\t\tattributes = {\n"@
        + attributes_text(p.attributes) + "\t\t\t};\n"@ + "\t\t\tbuildConfigurationList = "@
        + p.build_configuration_list@
        + " /* TODO: Build configuration list for PBXProject \"GiellaKeyboard\" */;\n"@
        + "\t\t\tcompatibilityVersion = "@ + debug_text(p.compatibility_version@) + ";\n"@
        + "\t\t\tdevelopmentRegion = "@ + p.development_region@ + ";\n"@ + "\t\t\thasScannedForEncodings = "@
        + p.has_scanned_for_encodings@ + ";\n"@ + "\t\t\tknownRegions = ("@ + pbx_list_text(
        texts(p.known_regions@),
    ) + "\n\t\t\t);\n"@ + "\t\t\tmainGroup = "@ + p.main_group@ + ";\n"@ + "\t\t\tproductRefGroup = "@
        + p.product_ref_group@ + " /* Products */;\n"@ + "\t\t\tprojectDirPath = "@ + debug_text(
        p.project_dir_path@,
    ) + ";\n"@ + "\t\t\tprojectRoot = "@ + debug_text(p.project_root@) + ";\n"@ + "\t\t\ttargets = ("@
        + pbx_list_text(texts(p.targets@)) + "\n\t\t\t);\n"@ + "\t\t};\n"@
}

impl Project {
    /// The project's entry under the object id `oid`; its attributes must be
    /// a dictionary holding no list.
    pub fn to_pbxproj_entry(&self, oid: &str) -> (res: String)
        requires
            project_printable(*self),
        ensures
            res@ == project_text(oid@, *self),
    {
        let mut s = "\t\t".to_string();
        s.append(oid);
        s.append(" /* Project object */ = {\n");
        s.append("\t\t\tisa = PBXProject;\n");
        s.append("\t\t\tattributes = {\n");
        match &self.attributes {
            PlistValue::Dict(entries) => {
                append_attr_entries(&mut s, entries, "\t\t\t\t");
            },
            _ => {},
        }
        s.append("\t\t\t};\n");
        s.append("\t\t\tbuildConfigurationList = ");
        s.append(self.build_configuration_list.as_str());
        s.append(" /* TODO: Build configuration list for PBXProject \"GiellaKeyboard\" */;\n");
        s.append("\t\t\tcompatibilityVersion = ");
        s.append(debug_string(self.compatibility_version.as_str()).as_str());
        s.append(";\n");
        s.append("\t\t\tdevelopmentRegion = ");
        s.append(self.development_region.as_str());
        s.append(";\n");
        s.append("\t\t\thasScannedForEncodings = ");
        s.append(self.has_scanned_for_encodings.as_str());
        s.append(";\n");
        s.append("\t\t\tknownRegions = (");
        s.append(list_to_pbxproj_string(&self.known_regions).as_str());
        s.append("\n\t\t\t);\n");
        s.append("\t\t\tmainGroup = ");
        s.append(self.main_group.as_str());
        s.append(";\n");
        s.append("\t\t\tproductRefGroup = ");
        s.append(self.product_ref_group.as_str());
        s.append(" /* Products */;\n");
        s.append("\t\t\tprojectDirPath = ");
        s.append(debug_string(self.project_dir_path.as_str()).as_str());
        s.append(";\n");
        s.append("\t\t\tprojectRoot = ");
        s.append(debug_string(self.project_root.as_str()).as_str());
        s.append(";\n");
        s.append("\t\t\ttargets = (");
        s.append(list_to_pbxproj_string(&self.targets).as_str());
        s.append("\n\t\t\t);\n");
        s.append("\t\t};\n");
        assert(s@ =~= project_text(oid@, *self));
        s
    }
}

/// A setting's key as a configuration writes it: quoted where it holds `[`.
pub open spec fn setting_key_text(key: Seq<char>) -> Seq<char> {
    if key.contains('[') {
        "\""@ + key + "\""@
    } else {
        key
    }
}

/// Each text of a list setting on a line of its own, as JSON, with a comma.
pub open spec fn json_lines_text(items: Seq<Seq<char>>) -> Seq<char>
    decreases items.len(),
{
    if items.len() == 0 {
        seq![]
    } else {
        json_lines_text(items.drop_last()) + "\n\t\t\t\t"@ + json_text(items.last()) + ","@
    }
}

/// The build settings of a configuration: a string setting on a line of its
/// own, a list setting as a parenthesized list.
pub open spec fn build_settings_text(entries: Seq<(Seq<char>, SettingView)>) -> Seq<char>
    decreases entries.len(),
{
    if entries.len() == 0 {
        seq![]
    } else {
        build_settings_text(entries.drop_last()) + match entries.last().1 {
            SettingView::Text(x) => "\n\t\t\t\t"@ + setting_key_text(entries.last().0) + " = "@ + debug_text(x)
                + ";"@,
            SettingView::List(items) => "\n\t\t\t"@ + entries.last().0 + " = ("@ + json_lines_text(items)
                + "\n\t\t\t);\n"@,
        }
    }
}

/// The entry of a build configuration.
pub open spec fn build_configuration_text(oid: Seq<char>, c: BuildConfiguration) -> Seq<char> {
    "\t\t"@ + oid + " /* TODO */ = {\n"@ + "\t\t\tisa = XCBuildConfiguration;\n"@ + "\n\t\t\tbuildSettings = {"@
        + build_settings_text(setting_entries(c.build_settings)) + "\n\t\t\t};\n"@ + "\t\t\tname = "@
        + debug_text(c.name@) + ";\n"@ + "\t\t};\n"@
}

fn has_bracket(s: &str) -> (res: bool)
    ensures
        res == s@.contains('['),
{
    let chars = chars_of(s);
    let mut i: usize = 0;
    while i < chars.len()
        invariant
            i <= chars.len(),
            chars@ == s@,
            forall|j: int| 0 <= j < i ==> chars@[j] != '[',
        decreases chars.len() - i,
    {
        if chars[i] == '[' {
            assert(s@[i as int] == '[');
            return true;
        }
        i = i + 1;
    }
    false
}

fn json_lines_string(items: &Vec<String>) -> (res: String)
    ensures
        res@ == json_lines_text(texts(items@)),
{
    let mut s = String::new();
    let mut i: usize = 0;
    while i < items.len()
        invariant
            i <= items.len(),
            s@ == json_lines_text(texts(items@).take(i as int)),
        decreases items.len() - i,
    {
        s.append("\n\t\t\t\t");
        s.append(json_string(items[i].as_str()).as_str());
        s.append(",");
        assert(texts(items@).take(i + 1).drop_last() =~= texts(items@).take(i as int));
        i = i + 1;
    }
    assert(texts(items@).take(i as int) =~= texts(items@));
    s
}

impl BuildConfiguration {
    /// The configuration's entry under the object id `oid`.
    pub fn to_pbxproj_entry(&self, oid: &str) -> (res: String)
        ensures
            res@ == build_configuration_text(oid@, *self),
    {
        let ghost entries = setting_entries(self.build_settings);
        let mut items = String::new();
        let n = settings_len(&self.build_settings);
        let mut i: usize = 0;
        while i < n
            invariant
                i <= n,
                n == entries.len(),
                entries == setting_entries(self.build_settings),
                items@ == build_settings_text(entries.take(i as int)),
            decreases n - i,
        {
            let (key, value) = settings_get_index(&self.build_settings, i);
            match value {
                SettingValue::Text(x) => {
                    items.append("\n\t\t\t\t");
                    if has_bracket(key.as_str()) {
                        items.append("\"");
                        items.append(key.as_str());
                        items.append("\"");
                    } else {
                        items.append(key.as_str());
                    }
                    items.append(" = ");
                    items.append(debug_string(x.as_str()).as_str());
                    items.append(";");
                },
                SettingValue::List(things) => {
                    items.append("\n\t\t\t");
                    items.append(key.as_str());
                    items.append(" = (");
                    items.append(json_lines_string(things).as_str());
                    items.append("\n\t\t\t);\n");
                },
            }
            assert(entries.take(i + 1).drop_last() =~= entries.take(i as int));
            assert(items@ =~= build_settings_text(entries.take(i + 1)));
            i = i + 1;
        }
        assert(entries.take(i as int) =~= entries);
        let mut s = "\t\t".to_string();
        s.append(oid);
        s.append(" /* TODO */ = {\n");
        s.append("\t\t\tisa = XCBuildConfiguration;\n");
        s.append("\n\t\t\tbuildSettings = {");
        s.append(items.as_str());
        s.append("\n\t\t\t};\n");
        s.append("\t\t\tname = ");
        s.append(debug_string(self.name.as_str()).as_str());
        s.append(";\n");
        s.append("\t\t};\n");
        assert(s@ =~= build_configuration_text(oid@, *self));
        s
    }
}

/// The entry of any object.
pub open spec fn object_text(oid: Seq<char>, o: Object) -> Seq<char> {
    match o {
        Object::BuildFile(b) => build_file_text(oid, b),
        Object::FileReference(f) => file_reference_text(oid, f),
        Object::CopyFilesBuildPhase(c) => copy_files_phase_text(oid, c),
        Object::Group(g) => group_text(oid, g),
        Object::Project(p) => project_text(oid, p),
        Object::ConfigurationList(c) => configuration_list_text(oid, c),
        Object::SourcesBuildPhase(b) => build_phase_text(
            oid,
            "PBXSourcesBuildPhase"@,
            b.build_action_mask@,
            texts(b.files@),
            b.run_only_for_deployment_postprocessing@,
        ),
        Object::FrameworksBuildPhase(b) => build_phase_text(
            oid,
            "PBXFrameworksBuildPhase"@,
            b.build_action_mask@,
            texts(b.files@),
            b.run_only_for_deployment_postprocessing@,
        ),
        Object::ResourcesBuildPhase(b) => build_phase_text(
            oid,
            "PBXResourcesBuildPhase"@,
            b.build_action_mask@,
            texts(b.files@),
            b.run_only_for_deployment_postprocessing@,
        ),
        Object::TargetDependency(d) => target_dependency_text(oid, d),
        Object::VariantGroup(g) => variant_group_text(oid, g),
        Object::ShellScriptBuildPhase(p) => shell_script_phase_text(oid, p),
        Object::HeadersBuildPhase(b) => build_phase_text(
            oid,
            "PBXHeadersBuildPhase"@,
            b.build_action_mask@,
            texts(b.files@),
            b.run_only_for_deployment_postprocessing@,
        ),
        Object::NativeTarget(t) => native_target_text(oid, t),
        Object::BuildConfiguration(c) => build_configuration_text(oid, c),
        Object::ContainerItemProxy(p) => container_item_proxy_text(oid, p),
    }
}

/// An object can be written: every object can but a project whose
/// attributes are not a dictionary of strings and dictionaries.
pub open spec fn object_printable(o: Object) -> bool {
    o matches Object::Project(p) ==> project_printable(p)
}

/// The entry of an object under the object id `oid`.
pub fn object_entry(oid: &str, o: &Object) -> (res: String)
    requires
        object_printable(*o),
    ensures
        res@ == object_text(oid@, *o),
{
    match o {
        Object::BuildFile(b) => b.to_pbxproj_entry(oid),
        Object::FileReference(f) => f.to_pbxproj_entry(oid),
        Object::CopyFilesBuildPhase(c) => c.to_pbxproj_entry(oid),
        Object::Group(g) => g.to_pbxproj_entry(oid),
        Object::Project(p) => p.to_pbxproj_entry(oid),
        Object::ConfigurationList(c) => c.to_pbxproj_entry(oid),
        Object::SourcesBuildPhase(b) => b.to_pbxproj_entry(oid),
        Object::FrameworksBuildPhase(b) => b.to_pbxproj_entry(oid),
        Object::ResourcesBuildPhase(b) => b.to_pbxproj_entry(oid),
        Object::TargetDependency(d) => d.to_pbxproj_entry(oid),
        Object::VariantGroup(g) => g.to_pbxproj_entry(oid),
        Object::ShellScriptBuildPhase(p) => p.to_pbxproj_entry(oid),
        Object::HeadersBuildPhase(b) => b.to_pbxproj_entry(oid),
        Object::NativeTarget(t) => t.to_pbxproj_entry(oid),
        Object::BuildConfiguration(c) => c.to_pbxproj_entry(oid),
        Object::ContainerItemProxy(p) => p.to_pbxproj_entry(oid),
    }
}

/// The section an object is written in, counted in the order in which the
/// file writes its sections.
pub open spec fn section_of(o: Object) -> nat {
    match o {
        Object::BuildFile(_) => 0,
        Object::ContainerItemProxy(_) => 1,
        Object::CopyFilesBuildPhase(_) => 2,
        Object::FileReference(_) => 3,
        Object::FrameworksBuildPhase(_) => 4,
        Object::Group(_) => 5,
        Object::HeadersBuildPhase(_) => 6,
        Object::NativeTarget(_) => 7,
        Object::Project(_) => 8,
        Object::ResourcesBuildPhase(_) => 9,
        Object::ShellScriptBuildPhase(_) => 10,
        Object::SourcesBuildPhase(_) => 11,
        Object::TargetDependency(_) => 12,
        Object::VariantGroup(_) => 13,
        Object::BuildConfiguration(_) => 14,
        Object::ConfigurationList(_) => 15,
    }
}

fn section_index(o: &Object) -> (res: u8)
    ensures
        res == section_of(*o),
{
    match o {
        Object::BuildFile(_) => 0,
        Object::ContainerItemProxy(_) => 1,
        Object::CopyFilesBuildPhase(_) => 2,
        Object::FileReference(_) => 3,
        Object::FrameworksBuildPhase(_) => 4,
        Object::Group(_) => 5,
        Object::HeadersBuildPhase(_) => 6,
        Object::NativeTarget(_) => 7,
        Object::Project(_) => 8,
        Object::ResourcesBuildPhase(_) => 9,
        Object::ShellScriptBuildPhase(_) => 10,
        Object::SourcesBuildPhase(_) => 11,
        Object::TargetDependency(_) => 12,
        Object::VariantGroup(_) => 13,
        Object::BuildConfiguration(_) => 14,
        Object::ConfigurationList(_) => 15,
    }
}

/// The `isa` of the objects of a section.
pub open spec fn section_name(k: nat) -> Seq<char> {
    if k == 0 {
        "PBXBuildFile"@
    } else if k == 1 {
        "PBXContainerItemProxy"@
    } else if k == 2 {
        "PBXCopyFilesBuildPhase"@
    } else if k == 3 {
        "PBXFileReference"@
    } else if k == 4 {
        "PBXFrameworksBuildPhase"@
    } else if k == 5 {
        "PBXGroup"@
    } else if k == 6 {
        "PBXHeadersBuildPhase"@
    } else if k == 7 {
        "PBXNativeTarget"@
    } else if k == 8 {
        "PBXProject"@
    } else if k == 9 {
        "PBXResourcesBuildPhase"@
    } else if k == 10 {
        "PBXShellScriptBuildPhase"@
    } else if k == 11 {
        "PBXSourcesBuildPhase"@
    } else if k == 12 {
        "PBXTargetDependency"@
    } else if k == 13 {
        "PBXVariantGroup"@
    } else if k == 14 {
        "XCBuildConfiguration"@
    } else {
        "XCConfigurationList"@
    }
}

fn section_name_str(k: u8) -> (res: &'static str)
    ensures
        res@ == section_name(k as nat),
{
    if k == 0 {
        "PBXBuildFile"
    } else if k == 1 {
        "PBXContainerItemProxy"
    } else if k == 2 {
        "PBXCopyFilesBuildPhase"
    } else if k == 3 {
        "PBXFileReference"
    } else if k == 4 {
        "PBXFrameworksBuildPhase"
    } else if k == 5 {
        "PBXGroup"
    } else if k == 6 {
        "PBXHeadersBuildPhase"
    } else if k == 7 {
        "PBXNativeTarget"
    } else if k == 8 {
        "PBXProject"
    } else if k == 9 {
        "PBXResourcesBuildPhase"
    } else if k == 10 {
        "PBXShellScriptBuildPhase"
    } else if k == 11 {
        "PBXSourcesBuildPhase"
    } else if k == 12 {
        "PBXTargetDependency"
    } else if k == 13 {
        "PBXVariantGroup"
    } else if k == 14 {
        "XCBuildConfiguration"
    } else {
        "XCConfigurationList"
    }
}

/// The line that opens a section: the first three say `Begin`, the others
/// `Start` and leave an empty line.
pub open spec fn section_header(k: nat) -> Seq<char> {
    if k < 3 {
        "/* Begin "@ + section_name(k) + " section */\n"@
    } else {
        "/* Start "@ + section_name(k) + " section */\n\n"@
    }
}

/// The line that closes a section, and an empty line.
pub open spec fn section_footer(k: nat) -> Seq<char> {
    "/* End "@ + section_name(k) + " section */\n\n"@
}

/// The entries of the objects of section `k`, in the order of the objects.
pub open spec fn section_entries_text(objects: Seq<(String, Object)>, k: nat) -> Seq<char>
    decreases objects.len(),
{
    if objects.len() == 0 {
        seq![]
    } else {
        section_entries_text(objects.drop_last(), k) + if section_of(objects.last().1) == k {
            object_text(objects.last().0@, objects.last().1)
        } else {
            seq![]
        }
    }
}

/// The first `n` sections, each with its header and footer.
pub open spec fn sections_text(objects: Seq<(String, Object)>, n: nat) -> Seq<char>
    decreases n,
{
    if n == 0 {
        seq![]
    } else {
        sections_text(objects, (n - 1) as nat) + section_header((n - 1) as nat) + section_entries_text(
            objects,
            (n - 1) as nat,
        ) + section_footer((n - 1) as nat)
    }
}

/// The text of a project file.
pub open spec fn pbxproj_text(p: Pbxproj) -> Seq<char> {
    "// !$*UTF8*$!\n{\n"@ + "\tarchiveVersion = "@ + p.archive_version@ + ";\n"@ + "\tclasses = {\n"@
        + "\t};\n"@ + "\tobjectVersion = "@ + p.object_version@ + ";\n"@ + "\tobjects = {\n\n"@
        + sections_text(p.objects@, 16) + "\t};\n"@ + "\trootObject = "@ + p.root_object@ + ";\n"@
        + "}\n"@
}

/// Every object of the file can be written.
pub open spec fn pbxproj_printable(p: Pbxproj) -> bool {
    forall|i: int| 0 <= i < p.objects@.len() ==> object_printable(#[trigger] p.objects@[i].1)
}

fn section_entries_string(objects: &Vec<(String, Object)>, k: u8) -> (res: String)
    requires
        forall|i: int| 0 <= i < objects@.len() ==> object_printable(#[trigger] objects@[i].1),
    ensures
        res@ == section_entries_text(objects@, k as nat),
{
    let mut s = String::new();
    let mut i: usize = 0;
    while i < objects.len()
        invariant
            i <= objects.len(),
            forall|j: int| 0 <= j < objects@.len() ==> object_printable(#[trigger] objects@[j].1),
            s@ == section_entries_text(objects@.take(i as int), k as nat),
        decreases objects.len() - i,
    {
        let ghost before = s@;
        let entry = &objects[i];
        if section_index(&entry.1) == k {
            s.append(object_entry(entry.0.as_str(), &entry.1).as_str());
        }
        assert(objects@.take(i + 1).drop_last() =~= objects@.take(i as int));
        assert(s@ =~= section_entries_text(objects@.take(i + 1), k as nat));
        i = i + 1;
    }
    assert(objects@.take(i as int) =~= objects@);
    s
}

impl Pbxproj {
    /// The project file's text: its versions, a section for each kind of
    /// object with the objects in order, and the root object's id. Every
    /// object must be one that can be written.
    pub fn to_pbxproj_string(&self) -> (res: String)
        requires
            pbxproj_printable(*self),
        ensures
            res@ == pbxproj_text(*self),
    {
        let mut sections = String::new();
        let mut k: u8 = 0;
        while k < 16
            invariant
                k <= 16,
                pbxproj_printable(*self),
                sections@ == sections_text(self.objects@, k as nat),
            decreases 16 - k,
        {
            let name = section_name_str(k);
            if k < 3 {
                sections.append("/* Begin ");
                sections.append(name);
                sections.append(" section */\n");
            } else {
                sections.append("/* Start ");
                sections.append(name);
                sections.append(" section */\n\n");
            }
            sections.append(section_entries_string(&self.objects, k).as_str());
            sections.append("/* End ");
            sections.append(name);
            sections.append(" section */\n\n");
            assert(sections@ =~= sections_text(self.objects@, (k + 1) as nat));
            k = k + 1;
        }
        let mut s = "// !$*UTF8*$!\n{\n".to_string();
        s.append("\tarchiveVersion = ");
        s.append(self.archive_version.as_str());
        s.append(";\n");
        s.append("\tclasses = {\n");
        s.append("\t};\n");
        s.append("\tobjectVersion = ");
        s.append(self.object_version.as_str());
        s.append(";\n");
        s.append("\tobjects = {\n\n");
        s.append(sections.as_str());
        s.append("\t};\n");
        s.append("\trootObject = ");
        s.append(self.root_object.as_str());
        s.append(";\n");
        s.append("}\n");
        assert(s@ =~= pbxproj_text(*self));
        s
    }
}

/// Whether a dictionary of attributes can be written: it holds no list at any
/// depth, computed.
fn attrs_are_printable(entries: &Vec<(String, PlistValue)>) -> (res: bool)
    ensures
        res == attrs_printable(entries@),
    decreases entries@,
{
    let mut i: usize = 0;
    assert(entries@.take(0) =~= Seq::<(String, PlistValue)>::empty());
    while i < entries.len()
        invariant
            i <= entries.len(),
            attrs_printable(entries@.take(i as int)),
        decreases entries.len() - i,
    {
        assert(entries@.take(i + 1).drop_last() =~= entries@.take(i as int));
        assert(entries@.take(i + 1).last() == entries@[i as int]);
        let ok = match &entries[i].1 {
            PlistValue::Text(_) => true,
            PlistValue::List(_) => false,
            PlistValue::Dict(inner) => {
                assert(decreases_to!(entries@ => entries@[i as int]));
                attrs_are_printable(inner)
            },
        };
        if !ok {
            assert(!attrs_printable(entries@.take(i + 1)));
            proof {
                if attrs_printable(entries@) {
                    lemma_attrs_printable_prefix(entries@, i + 1);
                }
            }
            return false;
        }
        i = i + 1;
    }
    assert(entries@.take(i as int) =~= entries@);
    true
}

/// A dictionary whose entries can be written has a prefix that can.
proof fn lemma_attrs_printable_prefix(entries: Seq<(String, PlistValue)>, n: int)
    requires
        0 <= n <= entries.len(),
        attrs_printable(entries),
    ensures
        attrs_printable(entries.take(n)),
    decreases entries.len(),
{
    if n < entries.len() {
        assert(entries.drop_last().take(n) =~= entries.take(n));
        lemma_attrs_printable_prefix(entries.drop_last(), n);
    } else {
        assert(entries.take(n) =~= entries);
    }
}

impl Pbxproj {
    /// Whether the project file can be written: the project's attributes are a
    /// dictionary that holds no list at any depth, computed.
    pub fn is_printable(&self) -> (res: bool)
        ensures
            res == pbxproj_printable(*self),
    {
        let mut i: usize = 0;
        while i < self.objects.len()
            invariant
                i <= self.objects.len(),
                forall|k: int| 0 <= k < i ==> object_printable(#[trigger] self.objects@[k].1),
            decreases self.objects.len() - i,
        {
            match &self.objects[i].1 {
                Object::Project(p) => match &p.attributes {
                    PlistValue::Dict(entries) => {
                        if !attrs_are_printable(entries) {
                            return false;
                        }
                    },
                    _ => {
                        return false;
                    },
                },
                _ => {},
            }
            i = i + 1;
        }
        true
    }
}

} // verus!
