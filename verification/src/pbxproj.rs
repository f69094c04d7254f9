//! The objects of an Xcode project file (`project.pbxproj`) that the iOS
//! generator edits, and how the project file writes each of them.

use vstd::prelude::*;

use crate::text::{chars_of, str_eq, texts};
use crate::xcode::{debug_string, debug_text};

verus! {

/// A file of the project.
#[derive(Debug)]
pub struct FileReference {
    pub file_encoding: Option<String>,
    pub include_in_index: Option<String>,
    pub last_known_file_type: Option<String>,
    pub explicit_file_type: Option<String>,
    pub name: Option<String>,
    pub path: String,
    pub source_tree: String,
}

/// A group of files, its children in order.
#[derive(Debug)]
pub struct Group {
    pub children: Vec<String>,
    pub source_tree: String,
    pub name: Option<String>,
    pub path: Option<String>,
}

/// A group of the localized variants of a file.
#[derive(Debug)]
pub struct VariantGroup {
    pub children: Vec<String>,
    pub source_tree: String,
    pub name: Option<String>,
    pub path: Option<String>,
}

/// A target that builds a product.
#[derive(Debug)]
pub struct NativeTarget {
    pub product_type: Option<String>,
    pub build_configuration_list: String,
    pub product_reference: Option<String>,
    pub product_name: String,
    pub build_phases: Vec<String>,
    pub dependencies: Vec<String>,
    pub name: String,
    pub build_rules: Vec<String>,
}

/// The build configurations of a target or of the project.
#[derive(Debug)]
pub struct ConfigurationList {
    pub build_configurations: Vec<String>,
    pub default_configuration_is_visible: String,
    pub default_configuration_name: String,
}

/// A target that another target depends on.
#[derive(Debug)]
pub struct TargetDependency {
    pub target: String,
    pub target_proxy: String,
}

/// A phase that copies files into the product.
#[derive(Debug)]
pub struct CopyFilesBuildPhase {
    pub build_action_mask: String,
    pub dst_path: String,
    pub dst_subfolder_spec: String,
    pub files: Vec<String>,
    pub name: Option<String>,
    pub run_only_for_deployment_postprocessing: String,
}

/// A phase that copies the resources.
#[derive(Debug)]
pub struct ResourcesBuildPhase {
    pub build_action_mask: String,
    pub files: Vec<String>,
    pub name: Option<String>,
    pub run_only_for_deployment_postprocessing: String,
}

/// A phase that copies the headers.
#[derive(Debug)]
pub struct HeadersBuildPhase {
    pub build_action_mask: String,
    pub files: Vec<String>,
    pub run_only_for_deployment_postprocessing: String,
}

/// A phase that compiles the sources.
#[derive(Debug)]
pub struct SourcesBuildPhase {
    pub build_action_mask: String,
    pub files: Vec<String>,
    pub run_only_for_deployment_postprocessing: String,
}

/// A phase that links the frameworks.
#[derive(Debug)]
pub struct FrameworksBuildPhase {
    pub build_action_mask: String,
    pub files: Vec<String>,
    pub run_only_for_deployment_postprocessing: String,
}

/// A phase that runs a shell script.
#[derive(Debug)]
pub struct ShellScriptBuildPhase {
    pub build_action_mask: String,
    pub files: Vec<String>,
    pub input_file_list_paths: Option<Vec<String>>,
    pub input_paths: Vec<String>,
    pub name: String,
    pub output_file_list_paths: Option<Vec<String>>,
    pub output_paths: Vec<String>,
    pub run_only_for_deployment_postprocessing: String,
    pub shell_path: String,
    pub shell_script: String,
    pub show_env_vars_in_log: Option<String>,
}

/// A reference to an object of another project.
#[derive(Debug)]
pub struct ContainerItemProxy {
    pub container_portal: String,
    pub proxy_type: String,
    pub remote_global_id_string: String,
    pub remote_info: String,
}

/// A phase that copies files, as the project's copy-files phases are read.
#[derive(Debug)]
pub struct PBXCopyFilesBuildPhase {
    pub build_action_mask: String,
    pub dst_path: String,
    pub dst_subfolder_spec: String,
    pub files: Vec<String>,
    pub name: Option<String>,
    pub run_only_for_deployment_postprocessing: String,
}

/// The items of a list, each on a line of its own with a comment and a
/// comma.
pub open spec fn pbx_list_text(items: Seq<Seq<char>>) -> Seq<char>
    decreases items.len(),
{
    if items.len() == 0 {
        seq![]
    } else {
        pbx_list_text(items.drop_last()) + "\n\t\t\t\t"@ + items.last() + " /* TODO */,"@
    }
}

/// Writes the items of a list as the project file does.
pub fn list_to_pbxproj_string(items: &Vec<String>) -> (res: String)
    ensures
        res@ == pbx_list_text(texts(items@)),
{
    let mut item_string = String::new();
    let mut i: usize = 0;
    while i < items.len()
        invariant
            i <= items.len(),
            item_string@ == pbx_list_text(texts(items@).take(i as int)),
        decreases items.len() - i,
    {
        item_string.append("\n\t\t\t\t");
        item_string.append(items[i].as_str());
        item_string.append(" /* TODO */,");
        assert(texts(items@).take(i + 1).drop_last() =~= texts(items@).take(i as int));
        i = i + 1;
    }
    assert(texts(items@).take(i as int) =~= texts(items@));
    item_string
}

/// The items of a list of paths, each quoted on a line of its own with a
/// comma.
pub open spec fn quoted_list_text(items: Seq<Seq<char>>) -> Seq<char>
    decreases items.len(),
{
    if items.len() == 0 {
        seq![]
    } else {
        quoted_list_text(items.drop_last()) + "\n\t\t\t\t\""@ + items.last() + "\","@
    }
}

fn quoted_list_string(items: &Vec<String>) -> (res: String)
    ensures
        res@ == quoted_list_text(texts(items@)),
{
    let mut item_string = String::new();
    let mut i: usize = 0;
    while i < items.len()
        invariant
            i <= items.len(),
            item_string@ == quoted_list_text(texts(items@).take(i as int)),
        decreases items.len() - i,
    {
        item_string.append("\n\t\t\t\t\"");
        item_string.append(items[i].as_str());
        item_string.append("\",");
        assert(texts(items@).take(i + 1).drop_last() =~= texts(items@).take(i as int));
        i = i + 1;
    }
    assert(texts(items@).take(i as int) =~= texts(items@));
    item_string
}

/// The files of a copy-files phase, each on a line of its own.
pub open spec fn file_lines_text(items: Seq<Seq<char>>) -> Seq<char>
    decreases items.len(),
{
    if items.len() == 0 {
        seq![]
    } else {
        file_lines_text(items.drop_last()) + "\t\t\t\t"@ + items.last() + " /* TODO */,\n"@
    }
}

fn file_lines_string(items: &Vec<String>) -> (res: String)
    ensures
        res@ == file_lines_text(texts(items@)),
{
    let mut item_string = String::new();
    let mut i: usize = 0;
    while i < items.len()
        invariant
            i <= items.len(),
            item_string@ == file_lines_text(texts(items@).take(i as int)),
        decreases items.len() - i,
    {
        item_string.append("\t\t\t\t");
        item_string.append(items[i].as_str());
        item_string.append(" /* TODO */,\n");
        assert(texts(items@).take(i + 1).drop_last() =~= texts(items@).take(i as int));
        i = i + 1;
    }
    assert(texts(items@).take(i as int) =~= texts(items@));
    item_string
}

fn has_char(s: &str, c: char) -> (res: bool)
    ensures
        res == s@.contains(c),
{
    let chars = chars_of(s);
    let mut i: usize = 0;
    while i < chars.len()
        invariant
            i <= chars.len(),
            chars@ == s@,
            forall|j: int| 0 <= j < i ==> chars@[j] != c,
        decreases chars.len() - i,
    {
        if chars[i] == c {
            assert(s@[i as int] == c);
            return true;
        }
        i = i + 1;
    }
    false
}

/// A source tree as the project file writes it: `<group>` quoted.
pub open spec fn source_tree_text(tree: Seq<char>) -> Seq<char> {
    if tree == "<group>"@ {
        "\"<group>\""@
    } else {
        tree
    }
}

fn source_tree_string(tree: &str) -> (res: String)
    ensures
        res@ == source_tree_text(tree@),
{
    if str_eq(tree, "<group>") {
        "\"<group>\"".to_string()
    } else {
        tree.to_string()
    }
}

/// The entry of a container item proxy.
pub open spec fn container_item_proxy_text(oid: Seq<char>, p: ContainerItemProxy) -> Seq<char> {
    "\t\t"@ + oid + " /* PBXContainerItemProxy */ = {\n"@ + "\t\t\tisa = PBXContainerItemProxy;\n"@
        + "\t\t\tcontainerPortal = "@ + p.container_portal@ + " /* TODO */;\n"@ + "\t\t\tproxyType = "@
        + p.proxy_type@ + ";\n"@ + "\t\t\tremoteGlobalIDString = "@ + p.remote_global_id_string@ + ";\n"@
        + "\t\t\tremoteInfo = "@ + p.remote_info@ + ";\n"@ + "\t\t};\n"@
}

impl ContainerItemProxy {
    /// The proxy's entry under the object id `oid`.
    pub fn to_pbxproj_entry(&self, oid: &str) -> (res: String)
        ensures
            res@ == container_item_proxy_text(oid@, *self),
    {
        let mut s = "\t\t".to_string();
        s.append(oid);
        s.append(" /* PBXContainerItemProxy */ = {\n");
        s.append("\t\t\tisa = PBXContainerItemProxy;\n");
        s.append("\t\t\tcontainerPortal = ");
        s.append(self.container_portal.as_str());
        s.append(" /* TODO */;\n");
        s.append("\t\t\tproxyType = ");
        s.append(self.proxy_type.as_str());
        s.append(";\n");
        s.append("\t\t\tremoteGlobalIDString = ");
        s.append(self.remote_global_id_string.as_str());
        s.append(";\n");
        s.append("\t\t\tremoteInfo = ");
        s.append(self.remote_info.as_str());
        s.append(";\n");
        s.append("\t\t};\n");
        assert(s@ =~= container_item_proxy_text(oid@, *self));
        s
    }
}

/// The entry of a copy-files phase: its mask, quoted destination, subfolder,
/// files, quoted name if it has one, and deployment flag.
pub open spec fn copy_files_phase_text(oid: Seq<char>, p: CopyFilesBuildPhase) -> Seq<char> {
    "\t\t"@ + oid + " /* TODO */ = {\n"@ + "\t\t\tisa = PBXCopyFilesBuildPhase;\n"@ + "\t\t\tbuildActionMask = "@
        + p.build_action_mask@ + ";\n"@ + "\t\t\tdstPath = "@ + debug_text(p.dst_path@) + ";\n"@
        + "\t\t\tdstSubfolderSpec = "@ + p.dst_subfolder_spec@ + ";\n"@ + "\t\t\tfiles = (\n"@
        + file_lines_text(texts(p.files@)) + "\t\t\t);\n"@ + (match p.name {
        Some(name) => "\t\t\tname = "@ + debug_text(name@) + ";\n"@,
        None => seq![],
    }) + "\t\t\trunOnlyForDeploymentPostprocessing = "@ + p.run_only_for_deployment_postprocessing@ + ";\n"@
        + "\t\t};\n"@
}

impl CopyFilesBuildPhase {
    /// The phase's entry under the object id `oid`.
    pub fn to_pbxproj_entry(&self, oid: &str) -> (res: String)
        ensures
            res@ == copy_files_phase_text(oid@, *self),
    {
        let mut s = "\t\t".to_string();
        s.append(oid);
        s.append(" /* TODO */ = {\n");
        s.append("\t\t\tisa = PBXCopyFilesBuildPhase;\n");
        s.append("\t\t\tbuildActionMask = ");
        s.append(self.build_action_mask.as_str());
        s.append(";\n");
        s.append("\t\t\tdstPath = ");
        s.append(debug_string(self.dst_path.as_str()).as_str());
        s.append(";\n");
        s.append("\t\t\tdstSubfolderSpec = ");
        s.append(self.dst_subfolder_spec.as_str());
        s.append(";\n");
        s.append("\t\t\tfiles = (\n");
        s.append(file_lines_string(&self.files).as_str());
        s.append("\t\t\t);\n");
        let ghost before_name = s@;
        if let Some(name) = &self.name {
            s.append("\t\t\tname = ");
            s.append(debug_string(name.as_str()).as_str());
            s.append(";\n");
        }
        assert(s@ =~= before_name + match self.name {
            Some(name) => "\t\t\tname = "@ + debug_text(name@) + ";\n"@,
            None => seq![],
        });
        s.append("\t\t\trunOnlyForDeploymentPostprocessing = ");
        s.append(self.run_only_for_deployment_postprocessing.as_str());
        s.append(";\n");
        s.append("\t\t};\n");
        assert(s@ =~= copy_files_phase_text(oid@, *self));
        s
    }
}

} // verus!

verus! {

/// `prefix`, the value and `suffix` where there is a value; nothing
/// otherwise.
pub open spec fn opt_line(prefix: Seq<char>, value: Option<String>, suffix: Seq<char>) -> Seq<char> {
    match value {
        Some(v) => prefix + v@ + suffix,
        None => seq![],
    }
}

/// `prefix`, the value quoted and `suffix` where there is a value; nothing
/// otherwise.
pub open spec fn opt_debug_line(prefix: Seq<char>, value: Option<String>, suffix: Seq<char>) -> Seq<char> {
    match value {
        Some(v) => prefix + debug_text(v@) + suffix,
        None => seq![],
    }
}

fn append_opt_line(s: &mut String, prefix: &str, value: &Option<String>, suffix: &str)
    ensures
        final(s)@ == old(s)@ + opt_line(prefix@, *value, suffix@),
{
    let ghost before = s@;
    if let Some(v) = value {
        s.append(prefix);
        s.append(v.as_str());
        s.append(suffix);
    }
    assert(s@ =~= before + opt_line(prefix@, *value, suffix@));
}

fn append_opt_debug_line(s: &mut String, prefix: &str, value: &Option<String>, suffix: &str)
    ensures
        final(s)@ == old(s)@ + opt_debug_line(prefix@, *value, suffix@),
{
    let ghost before = s@;
    if let Some(v) = value {
        s.append(prefix);
        s.append(debug_string(v.as_str()).as_str());
        s.append(suffix);
    }
    assert(s@ =~= before + opt_debug_line(prefix@, *value, suffix@));
}

/// The text of a value that the project file quotes when `quote` holds.
pub open spec fn maybe_quoted(v: Seq<char>, quote: bool) -> Seq<char> {
    if quote {
        debug_text(v)
    } else {
        v
    }
}

fn maybe_quoted_string(v: &str, quote: bool) -> (res: String)
    ensures
        res@ == maybe_quoted(v@, quote),
{
    if quote {
        debug_string(v)
    } else {
        v.to_string()
    }
}

/// The entry of a file reference: named in its comment by its name or path;
/// its encoding, index flag and file type where it has them; its name and
/// path, quoted where they hold a hyphen or the path a plus; its source tree.
pub open spec fn file_reference_text(oid: Seq<char>, f: FileReference) -> Seq<char> {
    let path_quoted = f.path@.contains('-') || f.path@.contains('+');
    "\t\t"@ + oid + " /* "@ + (match f.name {
        Some(n) => n@,
        None => f.path@,
    }) + " */ = {"@ + "isa = PBXFileReference; "@ + opt_line("fileEncoding = "@, f.file_encoding, "; "@)
        + opt_line("includeInIndex = "@, f.include_in_index, "; "@) + opt_line(
        "lastKnownFileType = "@,
        f.last_known_file_type,
        "; "@,
    ) + (match f.name {
        Some(n) => "name = "@ + maybe_quoted(n@, n@.contains('-') || f.path@.contains('+')) + "; "@,
        None => seq![],
    }) + "path = "@ + maybe_quoted(f.path@, path_quoted) + "; "@ + "sourceTree = "@ + source_tree_text(
        f.source_tree@,
    ) + "; "@ + "\t\t};\n"@
}

impl FileReference {
    /// The file reference's entry under the object id `oid`.
    pub fn to_pbxproj_entry(&self, oid: &str) -> (res: String)
        ensures
            res@ == file_reference_text(oid@, *self),
    {
        let mut s = "\t\t".to_string();
        s.append(oid);
        s.append(" /* ");
        match &self.name {
            Some(n) => s.append(n.as_str()),
            None => s.append(self.path.as_str()),
        }
        s.append(" */ = {");
        s.append("isa = PBXFileReference; ");
        append_opt_line(&mut s, "fileEncoding = ", &self.file_encoding, "; ");
        append_opt_line(&mut s, "includeInIndex = ", &self.include_in_index, "; ");
        append_opt_line(&mut s, "lastKnownFileType = ", &self.last_known_file_type, "; ");
        let path_has_plus = has_char(self.path.as_str(), '+');
        let ghost before_name = s@;
        if let Some(n) = &self.name {
            let quote = has_char(n.as_str(), '-') || path_has_plus;
            s.append("name = ");
            s.append(maybe_quoted_string(n.as_str(), quote).as_str());
            s.append("; ");
        }
        assert(s@ =~= before_name + match self.name {
            Some(n) => "name = "@ + maybe_quoted(n@, n@.contains('-') || self.path@.contains('+')) + "; "@,
            None => seq![],
        });
        let path_quoted = has_char(self.path.as_str(), '-') || path_has_plus;
        s.append("path = ");
        s.append(maybe_quoted_string(self.path.as_str(), path_quoted).as_str());
        s.append("; ");
        s.append("sourceTree = ");
        s.append(source_tree_string(self.source_tree.as_str()).as_str());
        s.append("; ");
        s.append("\t\t};\n");
        assert(s@ =~= file_reference_text(oid@, *self));
        s
    }
}

/// The entry of a build phase of kind `isa` with a mask, files and a
/// deployment flag.
pub open spec fn build_phase_text(
    oid: Seq<char>,
    isa: Seq<char>,
    build_action_mask: Seq<char>,
    files: Seq<Seq<char>>,
    run_only: Seq<char>,
) -> Seq<char> {
    "\t\t"@ + oid + " /* TODO */ = {\n"@ + "\t\t\tisa = "@ + isa + ";\n"@ + "\t\t\tbuildActionMask = "@
        + build_action_mask + ";\n"@ + "\t\t\tfiles = ("@ + pbx_list_text(files) + "\n\t\t\t);\n"@
        + "\t\t\trunOnlyForDeploymentPostprocessing = "@ + run_only + ";\n"@ + "\t\t};\n"@
}

fn build_phase_string(oid: &str, isa: &str, build_action_mask: &str, files: &Vec<String>, run_only: &str) -> (res:
    String)
    ensures
        res@ == build_phase_text(oid@, isa@, build_action_mask@, texts(files@), run_only@),
{
    let mut s = "\t\t".to_string();
    s.append(oid);
    s.append(" /* TODO */ = {\n");
    s.append("\t\t\tisa = ");
    s.append(isa);
    s.append(";\n");
    s.append("\t\t\tbuildActionMask = ");
    s.append(build_action_mask);
    s.append(";\n");
    s.append("\t\t\tfiles = (");
    s.append(list_to_pbxproj_string(files).as_str());
    s.append("\n\t\t\t);\n");
    s.append("\t\t\trunOnlyForDeploymentPostprocessing = ");
    s.append(run_only);
    s.append(";\n");
    s.append("\t\t};\n");
    assert(s@ =~= build_phase_text(oid@, isa@, build_action_mask@, texts(files@), run_only@));
    s
}

impl ResourcesBuildPhase {
    /// The phase's entry under the object id `oid`.
    pub fn to_pbxproj_entry(&self, oid: &str) -> (res: String)
        ensures
            res@ == build_phase_text(
                oid@,
                "PBXResourcesBuildPhase"@,
                self.build_action_mask@,
                texts(self.files@),
                self.run_only_for_deployment_postprocessing@,
            ),
    {
        build_phase_string(
            oid,
            "PBXResourcesBuildPhase",
            self.build_action_mask.as_str(),
            &self.files,
            self.run_only_for_deployment_postprocessing.as_str(),
        )
    }
}

impl HeadersBuildPhase {
    /// The phase's entry under the object id `oid`.
    pub fn to_pbxproj_entry(&self, oid: &str) -> (res: String)
        ensures
            res@ == build_phase_text(
                oid@,
                "PBXHeadersBuildPhase"@,
                self.build_action_mask@,
                texts(self.files@),
                self.run_only_for_deployment_postprocessing@,
            ),
    {
        build_phase_string(
            oid,
            "PBXHeadersBuildPhase",
            self.build_action_mask.as_str(),
            &self.files,
            self.run_only_for_deployment_postprocessing.as_str(),
        )
    }
}

impl SourcesBuildPhase {
    /// The phase's entry under the object id `oid`.
    pub fn to_pbxproj_entry(&self, oid: &str) -> (res: String)
        ensures
            res@ == build_phase_text(
                oid@,
                "PBXSourcesBuildPhase"@,
                self.build_action_mask@,
                texts(self.files@),
                self.run_only_for_deployment_postprocessing@,
            ),
    {
        build_phase_string(
            oid,
            "PBXSourcesBuildPhase",
            self.build_action_mask.as_str(),
            &self.files,
            self.run_only_for_deployment_postprocessing.as_str(),
        )
    }
}

impl FrameworksBuildPhase {
    /// The phase's entry under the object id `oid`.
    pub fn to_pbxproj_entry(&self, oid: &str) -> (res: String)
        ensures
            res@ == build_phase_text(
                oid@,
                "PBXFrameworksBuildPhase"@,
                self.build_action_mask@,
                texts(self.files@),
                self.run_only_for_deployment_postprocessing@,
            ),
    {
        build_phase_string(
            oid,
            "PBXFrameworksBuildPhase",
            self.build_action_mask.as_str(),
            &self.files,
            self.run_only_for_deployment_postprocessing.as_str(),
        )
    }
}

/// The entry of a target dependency.
pub open spec fn target_dependency_text(oid: Seq<char>, d: TargetDependency) -> Seq<char> {
    "\t\t"@ + oid + " /* TODO */ = {\n"@ + "\t\t\tisa = PBXTargetDependency;\n"@ + "\t\t\ttarget = "@
        + d.target@ + ";\n"@ + "\t\t\ttargetProxy = "@ + d.target_proxy@ + ";\n"@ + "\t\t};\n"@
}

impl TargetDependency {
    /// The dependency's entry under the object id `oid`.
    pub fn to_pbxproj_entry(&self, oid: &str) -> (res: String)
        ensures
            res@ == target_dependency_text(oid@, *self),
    {
        let mut s = "\t\t".to_string();
        s.append(oid);
        s.append(" /* TODO */ = {\n");
        s.append("\t\t\tisa = PBXTargetDependency;\n");
        s.append("\t\t\ttarget = ");
        s.append(self.target.as_str());
        s.append(";\n");
        s.append("\t\t\ttargetProxy = ");
        s.append(self.target_proxy.as_str());
        s.append(";\n");
        s.append("\t\t};\n");
        assert(s@ =~= target_dependency_text(oid@, *self));
        s
    }
}

/// The entry of a configuration list.
pub open spec fn configuration_list_text(oid: Seq<char>, c: ConfigurationList) -> Seq<char> {
    "\t\t"@ + oid + " /* TODO */ = {\n"@ + "\t\t\tisa = XCConfigurationList;\n"@ + "\t\t\tbuildConfigurations = ("@
        + pbx_list_text(texts(c.build_configurations@)) + "\n\t\t\t);\n"@
        + "\t\t\tdefaultConfigurationIsVisible = "@ + c.default_configuration_is_visible@ + ";\n"@
        + "\t\t\tdefaultConfigurationName = "@ + c.default_configuration_name@ + ";\n"@ + "\t\t};\n"@
}

impl ConfigurationList {
    /// The list's entry under the object id `oid`.
    pub fn to_pbxproj_entry(&self, oid: &str) -> (res: String)
        ensures
            res@ == configuration_list_text(oid@, *self),
    {
        let mut s = "\t\t".to_string();
        s.append(oid);
        s.append(" /* TODO */ = {\n");
        s.append("\t\t\tisa = XCConfigurationList;\n");
        s.append("\t\t\tbuildConfigurations = (");
        s.append(list_to_pbxproj_string(&self.build_configurations).as_str());
        s.append("\n\t\t\t);\n");
        s.append("\t\t\tdefaultConfigurationIsVisible = ");
        s.append(self.default_configuration_is_visible.as_str());
        s.append(";\n");
        s.append("\t\t\tdefaultConfigurationName = ");
        s.append(self.default_configuration_name.as_str());
        s.append(";\n");
        s.append("\t\t};\n");
        assert(s@ =~= configuration_list_text(oid@, *self));
        s
    }
}

} // verus!

verus! {

/// A line of a group's path or name: the value quoted where it holds a space.
pub open spec fn spaced_line(key: Seq<char>, value: Option<String>) -> Seq<char> {
    match value {
        Some(v) => "\t\t\t"@ + key + " = "@ + maybe_quoted(v@, v@.contains(' ')) + ";\n"@,
        None => seq![],
    }
}

fn append_spaced_line(s: &mut String, key: &str, value: &Option<String>)
    ensures
        final(s)@ == old(s)@ + spaced_line(key@, *value),
{
    let ghost before = s@;
    if let Some(v) = value {
        s.append("\t\t\t");
        s.append(key);
        s.append(" = ");
        let quote = has_char(v.as_str(), ' ');
        s.append(maybe_quoted_string(v.as_str(), quote).as_str());
        s.append(";\n");
    }
    assert(s@ =~= before + spaced_line(key@, *value));
}

/// The entry of a group: named in its comment by its name or path, its
/// children, path and name, and source tree.
pub open spec fn group_text(oid: Seq<char>, g: Group) -> Seq<char> {
    (match (g.name, g.path) {
        (Some(n), _) => "\t\t"@ + oid + " /* "@ + n@ + " */ = {\n"@,
        (None, Some(p)) => "\t\t"@ + oid + " /* "@ + p@ + " */ = {\n"@,
        (None, None) => "\t\t"@ + oid + " = {\n"@,
    }) + "\t\t\tisa = PBXGroup;\n"@ + "\t\t\tchildren = ("@ + pbx_list_text(texts(g.children@))
        + "\n\t\t\t);\n"@ + spaced_line("path"@, g.path) + spaced_line("name"@, g.name) + "\t\t\tsourceTree = "@
        + source_tree_text(g.source_tree@) + ";\n"@ + "\t\t};\n"@
}

impl Group {
    /// The group's entry under the object id `oid`.
    pub fn to_pbxproj_entry(&self, oid: &str) -> (res: String)
        ensures
            res@ == group_text(oid@, *self),
    {
        let mut s = "\t\t".to_string();
        s.append(oid);
        match (&self.name, &self.path) {
            (Some(n), _) => {
                s.append(" /* ");
                s.append(n.as_str());
                s.append(" */ = {\n");
            },
            (None, Some(p)) => {
                s.append(" /* ");
                s.append(p.as_str());
                s.append(" */ = {\n");
            },
            (None, None) => {
                s.append(" = {\n");
            },
        }
        s.append("\t\t\tisa = PBXGroup;\n");
        s.append("\t\t\tchildren = (");
        s.append(list_to_pbxproj_string(&self.children).as_str());
        s.append("\n\t\t\t);\n");
        append_spaced_line(&mut s, "path", &self.path);
        append_spaced_line(&mut s, "name", &self.name);
        s.append("\t\t\tsourceTree = ");
        s.append(source_tree_string(self.source_tree.as_str()).as_str());
        s.append(";\n");
        s.append("\t\t};\n");
        assert(s@ =~= group_text(oid@, *self));
        s
    }
}

/// The entry of a variant group: its children, quoted name, path and source
/// tree.
pub open spec fn variant_group_text(oid: Seq<char>, g: VariantGroup) -> Seq<char> {
    "\t\t"@ + oid + " /* TODO */ = {\n"@ + "\t\t\tisa = PBXVariantGroup;\n"@ + "\t\t\tchildren = ("@
        + pbx_list_text(texts(g.children@)) + "\n\t\t\t);\n"@ + opt_debug_line("\t\t\tname = "@, g.name, ";\n"@)
        + opt_line("\t\t\tpath = "@, g.path, ";\n"@) + "\t\t\tsourceTree = "@ + source_tree_text(g.source_tree@)
        + ";\n"@ + "\t\t};\n"@
}

impl VariantGroup {
    /// The variant group's entry under the object id `oid`.
    pub fn to_pbxproj_entry(&self, oid: &str) -> (res: String)
        ensures
            res@ == variant_group_text(oid@, *self),
    {
        let mut s = "\t\t".to_string();
        s.append(oid);
        s.append(" /* TODO */ = {\n");
        s.append("\t\t\tisa = PBXVariantGroup;\n");
        s.append("\t\t\tchildren = (");
        s.append(list_to_pbxproj_string(&self.children).as_str());
        s.append("\n\t\t\t);\n");
        append_opt_debug_line(&mut s, "\t\t\tname = ", &self.name, ";\n");
        append_opt_line(&mut s, "\t\t\tpath = ", &self.path, ";\n");
        s.append("\t\t\tsourceTree = ");
        s.append(source_tree_string(self.source_tree.as_str()).as_str());
        s.append(";\n");
        s.append("\t\t};\n");
        assert(s@ =~= variant_group_text(oid@, *self));
        s
    }
}

/// The entry of a native target: its configuration list, phases, rules,
/// dependencies, quoted name, product name and, where it has them, product
/// reference and type.
pub open spec fn native_target_text(oid: Seq<char>, t: NativeTarget) -> Seq<char> {
    "\t\t"@ + oid + " /* TODO */ = {\n"@ + "\t\t\tisa = PBXNativeTarget;\n"@ + "\t\t\tbuildConfigurationList = "@
        + t.build_configuration_list@ + ";\n"@ + "\t\t\tbuildPhases = ("@ + pbx_list_text(texts(t.build_phases@))
        + "\n\t\t\t);\n"@ + "\t\t\tbuildRules = ("@ + pbx_list_text(texts(t.build_rules@)) + "\n\t\t\t);\n"@
        + "\t\t\tdependencies = ("@ + pbx_list_text(texts(t.dependencies@)) + "\n\t\t\t);\n"@
        + "\t\t\tname = "@ + debug_text(t.name@) + ";\n"@ + "\t\t\tproductName = "@ + t.product_name@ + ";\n"@
        + opt_line("\t\t\tproductReference = "@, t.product_reference, " /* TODO */;\n"@) + opt_line(
        "\t\t\tproductType = "@,
        t.product_type,
        ";\n"@,
    ) + "\t\t};\n"@
}

impl NativeTarget {
    /// The target's entry under the object id `oid`.
    pub fn to_pbxproj_entry(&self, oid: &str) -> (res: String)
        ensures
            res@ == native_target_text(oid@, *self),
    {
        let mut s = "\t\t".to_string();
        s.append(oid);
        s.append(" /* TODO */ = {\n");
        s.append("\t\t\tisa = PBXNativeTarget;\n");
        s.append("\t\t\tbuildConfigurationList = ");
        s.append(self.build_configuration_list.as_str());
        s.append(";\n");
        s.append("\t\t\tbuildPhases = (");
        s.append(list_to_pbxproj_string(&self.build_phases).as_str());
        s.append("\n\t\t\t);\n");
        s.append("\t\t\tbuildRules = (");
        s.append(list_to_pbxproj_string(&self.build_rules).as_str());
        s.append("\n\t\t\t);\n");
        s.append("\t\t\tdependencies = (");
        s.append(list_to_pbxproj_string(&self.dependencies).as_str());
        s.append("\n\t\t\t);\n");
        s.append("\t\t\tname = ");
        s.append(debug_string(self.name.as_str()).as_str());
        s.append(";\n");
        s.append("\t\t\tproductName = ");
        s.append(self.product_name.as_str());
        s.append(";\n");
        append_opt_line(&mut s, "\t\t\tproductReference = ", &self.product_reference, " /* TODO */;\n");
        append_opt_line(&mut s, "\t\t\tproductType = ", &self.product_type, ";\n");
        s.append("\t\t};\n");
        assert(s@ =~= native_target_text(oid@, *self));
        s
    }
}

/// A list of paths that a shell script phase may have.
pub open spec fn opt_list_line(key: Seq<char>, value: Option<Vec<String>>) -> Seq<char> {
    match value {
        Some(v) => "\t\t\t"@ + key + " = ("@ + pbx_list_text(texts(v@)) + "\n\t\t\t);\n"@,
        None => seq![],
    }
}

fn append_opt_list_line(s: &mut String, key: &str, value: &Option<Vec<String>>)
    ensures
        final(s)@ == old(s)@ + opt_list_line(key@, *value),
{
    let ghost before = s@;
    if let Some(v) = value {
        s.append("\t\t\t");
        s.append(key);
        s.append(" = (");
        s.append(list_to_pbxproj_string(v).as_str());
        s.append("\n\t\t\t);\n");
    }
    assert(s@ =~= before + opt_list_line(key@, *value));
}

/// The entry of a shell script phase: its mask, files, input lists and
/// quoted input paths, quoted name, output lists and quoted output paths,
/// deployment flag, shell, quoted script and, where set, whether it shows the
/// environment in its log.
pub open spec fn shell_script_phase_text(oid: Seq<char>, p: ShellScriptBuildPhase) -> Seq<char> {
    "\t\t"@ + oid + " /* TODO */ = {\n"@ + "\t\t\tisa = PBXShellScriptBuildPhase;\n"@ + "\t\t\tbuildActionMask = "@
        + p.build_action_mask@ + ";\n"@ + "\t\t\tfiles = ("@ + pbx_list_text(texts(p.files@)) + "\n\t\t\t);\n"@
        + opt_list_line("inputFileListPaths"@, p.input_file_list_paths) + "\t\t\tinputPaths = ("@
        + quoted_list_text(texts(p.input_paths@)) + "\n\t\t\t);\n"@ + "\t\t\tname = "@ + debug_text(p.name@)
        + ";\n"@ + opt_list_line("outputFileListPaths"@, p.output_file_list_paths) + "\t\t\toutputPaths = ("@
        + quoted_list_text(texts(p.output_paths@)) + "\n\t\t\t);\n"@
        + "\t\t\trunOnlyForDeploymentPostprocessing = "@ + p.run_only_for_deployment_postprocessing@ + ";\n"@
        + "\t\t\tshellPath = "@ + p.shell_path@ + ";\n"@ + "\t\t\tshellScript = "@ + debug_text(p.shell_script@)
        + ";\n"@ + opt_line("\t\t\tshowEnvVarsInLog = "@, p.show_env_vars_in_log, ";\n"@) + "\t\t};\n"@
}

impl ShellScriptBuildPhase {
    /// The phase's entry under the object id `oid`.
    #[verifier::rlimit(40)]
    pub fn to_pbxproj_entry(&self, oid: &str) -> (res: String)
        ensures
            res@ == shell_script_phase_text(oid@, *self),
    {
        let mut s = "\t\t".to_string();
        s.append(oid);
        s.append(" /* TODO */ = {\n");
        s.append("\t\t\tisa = PBXShellScriptBuildPhase;\n");
        s.append("\t\t\tbuildActionMask = ");
        s.append(self.build_action_mask.as_str());
        s.append(";\n");
        s.append("\t\t\tfiles = (");
        s.append(list_to_pbxproj_string(&self.files).as_str());
        s.append("\n\t\t\t);\n");
        append_opt_list_line(&mut s, "inputFileListPaths", &self.input_file_list_paths);
        s.append("\t\t\tinputPaths = (");
        s.append(quoted_list_string(&self.input_paths).as_str());
        s.append("\n\t\t\t);\n");
        s.append("\t\t\tname = ");
        s.append(debug_string(self.name.as_str()).as_str());
        s.append(";\n");
        append_opt_list_line(&mut s, "outputFileListPaths", &self.output_file_list_paths);
        s.append("\t\t\toutputPaths = (");
        s.append(quoted_list_string(&self.output_paths).as_str());
        s.append("\n\t\t\t);\n");
        s.append("\t\t\trunOnlyForDeploymentPostprocessing = ");
        s.append(self.run_only_for_deployment_postprocessing.as_str());
        s.append(";\n");
        s.append("\t\t\tshellPath = ");
        s.append(self.shell_path.as_str());
        s.append(";\n");
        s.append("\t\t\tshellScript = ");
        s.append(debug_string(self.shell_script.as_str()).as_str());
        s.append(";\n");
        append_opt_line(&mut s, "\t\t\tshowEnvVarsInLog = ", &self.show_env_vars_in_log, ";\n");
        s.append("\t\t};\n");
        assert(s@ =~= shell_script_phase_text(oid@, *self));
        s
    }
}

} // verus!
