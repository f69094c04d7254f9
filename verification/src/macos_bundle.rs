//! The macOS keyboard layout bundle: its `Info.plist`, the translations of
//! its layouts' names, and the command lines of its installer.

use vstd::prelude::*;

use crate::index_map::{entry_get, entry_insert, lemma_entry_index_bounds, lemma_entry_insert_twice};
use crate::keyed::{
    entries_by, find_key, insert_keyed, key_list, keys_distinct, lemma_entry_index_same_keys,
    lemma_entry_insert_distinct, lemma_keyed_insert_by,
};
use crate::text::{concat_text, joined, pair_texts, push_text, texts};
use crate::xcode::{debug_string, debug_text};

verus! {

/// The macOS target of a bundle: its signing identity, package identifier,
/// name and version.
#[derive(Debug)]
pub struct MacOsBuildTarget {
    pub code_sign_id: String,
    pub package_id: String,
    pub bundle_name: String,
    pub version: String,
    pub build: String,
}

/// The input source of one keyboard layout of the bundle.
#[derive(Debug)]
pub struct KlInfo {
    pub tis_input_source_id: String,
    pub tis_intended_language: String,
}

/// The bundle's `Info.plist`: its identifier, name and versions, and the
/// input source of each layout by its `KLInfo_` key.
#[derive(Debug)]
pub struct InfoPlist {
    pub cf_bundle_identifier: String,
    pub cf_bundle_name: String,
    pub cf_bundle_version: String,
    pub cf_bundle_short_version_string: String,
    pub kl_info_map: Vec<(String, KlInfo)>,
}

/// The identifier of a keyboard layout bundle: the package identifier,
/// `.keyboardlayout.` and the bundle's name.
pub open spec fn bundle_id_text(package_id: Seq<char>, name: Seq<char>) -> Seq<char> {
    package_id + ".keyboardlayout."@ + name
}

/// The identifier of the keyboard layout bundle named `name`.
pub fn bundle_id(package_id: &str, name: &str) -> (res: String)
    ensures
        res@ == bundle_id_text(package_id@, name@),
{
    let with_prefix = concat_text(package_id, ".keyboardlayout.");
    concat_text(with_prefix.as_str(), name)
}

/// An input source by value: its id and its language.
pub open spec fn kl_info_view(k: KlInfo) -> (Seq<char>, Seq<char>) {
    (k.tis_input_source_id@, k.tis_intended_language@)
}

/// The input sources of a `Info.plist` by value, each under its key.
pub open spec fn kl_info_entries(m: Seq<(String, KlInfo)>) -> Seq<(Seq<char>, (Seq<char>, Seq<char>))> {
    entries_by(m, |k: KlInfo| kl_info_view(k))
}

/// The input sources after the layout `name` for the language `language_tag`
/// was added to a bundle with the identifier `bundle_id`: under the key
/// `KLInfo_<name>`, in place of an input source with that key or last, with
/// the bundle's identifier, a dot and the name as its id.
pub open spec fn kl_info_added(
    kl_info: Seq<(Seq<char>, (Seq<char>, Seq<char>))>,
    bundle_id: Seq<char>,
    language_tag: Seq<char>,
    name: Seq<char>,
) -> Seq<(Seq<char>, (Seq<char>, Seq<char>))> {
    entry_insert(kl_info, "KLInfo_"@ + name, (bundle_id + "."@ + name, language_tag))
}

impl InfoPlist {
    /// Whether no key holds two input sources.
    pub open spec fn wf(&self) -> bool {
        keys_distinct(kl_info_entries(self.kl_info_map@))
    }

    /// The `Info.plist` of the bundle `name` of the target, with no layouts
    /// yet.
    pub fn for_bundle(target: &MacOsBuildTarget, name: &str) -> (res: InfoPlist)
        ensures
            res.cf_bundle_identifier@ == bundle_id_text(target.package_id@, name@),
            res.cf_bundle_name@ == target.bundle_name@,
            res.cf_bundle_version@ == target.build@,
            res.cf_bundle_short_version_string@ == target.version@,
            res.kl_info_map@.len() == 0,
            res.wf(),
    {
        InfoPlist {
            cf_bundle_identifier: bundle_id(target.package_id.as_str(), name),
            cf_bundle_name: target.bundle_name.as_str().to_string(),
            cf_bundle_version: target.build.as_str().to_string(),
            cf_bundle_short_version_string: target.version.as_str().to_string(),
            kl_info_map: Vec::new(),
        }
    }

    /// Adds the input source of the layout `name` for the language
    /// `language_tag`: keyed `KLInfo_<name>`, with the bundle's identifier, a
    /// dot and the name as its id. A layout added again replaces its earlier
    /// input source.
    pub fn add_key_layout(&mut self, language_tag: &str, name: &str)
        ensures
            final(self).cf_bundle_identifier == old(self).cf_bundle_identifier,
            final(self).cf_bundle_name == old(self).cf_bundle_name,
            final(self).cf_bundle_version == old(self).cf_bundle_version,
            final(self).cf_bundle_short_version_string == old(self).cf_bundle_short_version_string,
            kl_info_entries(final(self).kl_info_map@) == kl_info_added(
                kl_info_entries(old(self).kl_info_map@),
                old(self).cf_bundle_identifier@,
                language_tag@,
                name@,
            ),
            old(self).wf() ==> final(self).wf(),
    {
        let id = concat_text(concat_text(self.cf_bundle_identifier.as_str(), ".").as_str(), name);
        let key = concat_text("KLInfo_", name);
        let info = KlInfo { tis_input_source_id: id, tis_intended_language: language_tag.to_string() };
        proof {
            lemma_keyed_insert_by(self.kl_info_map@, key, info, |k: KlInfo| kl_info_view(k));
            if self.wf() {
                lemma_entry_insert_distinct(kl_info_entries(self.kl_info_map@), key@, kl_info_view(info));
            }
        }
        insert_keyed(&mut self.kl_info_map, key, info);
    }
}

/// Adding a layout again under its name leaves one input source for it: the
/// one of the later call.
pub proof fn lemma_layout_added_again(
    kl_info: Seq<(Seq<char>, (Seq<char>, Seq<char>))>,
    bundle_id: Seq<char>,
    first_tag: Seq<char>,
    second_tag: Seq<char>,
    name: Seq<char>,
)
    ensures
        kl_info_added(kl_info_added(kl_info, bundle_id, first_tag, name), bundle_id, second_tag, name)
            == kl_info_added(kl_info, bundle_id, second_tag, name),
{
    lemma_entry_insert_twice(kl_info, "KLInfo_"@ + name, (bundle_id + "."@ + name, first_tag), (
        bundle_id + "."@ + name,
        second_tag,
    ));
}

/// The names of layouts and their translations by value.
pub open spec fn text_entries(v: Seq<(String, String)>) -> Seq<(Seq<char>, Seq<char>)> {
    entries_by(v, |s: String| s@)
}

/// The translated names by language, by value.
pub open spec fn translations_view(t: Seq<(String, Vec<(String, String)>)>) -> Seq<
    (Seq<char>, Seq<(Seq<char>, Seq<char>)>),
> {
    entries_by(t, |v: Vec<(String, String)>| text_entries(v@))
}

/// The translated names by language after the layout `name` was given the
/// names `layout_names` (a language and the name in it, in order): for each,
/// the language's names get the layout's name in place of an earlier one or
/// last, and a language not seen before comes last with that one name.
pub open spec fn names_added(
    strings: Seq<(Seq<char>, Seq<(Seq<char>, Seq<char>)>)>,
    name: Seq<char>,
    layout_names: Seq<(Seq<char>, Seq<char>)>,
) -> Seq<(Seq<char>, Seq<(Seq<char>, Seq<char>)>)>
    decreases layout_names.len(),
{
    if layout_names.len() == 0 {
        strings
    } else {
        let prev = names_added(strings, name, layout_names.drop_last());
        let lang = layout_names.last().0;
        let names = match entry_get(prev, lang) {
            Some(n) => n,
            None => seq![],
        };
        entry_insert(prev, lang, entry_insert(names, name, layout_names.last().1))
    }
}

/// Gives the layout `name` its translated names, language by language.
pub fn add_layout_names(
    strings: &mut Vec<(String, Vec<(String, String)>)>,
    name: &str,
    layout_names: &Vec<(String, String)>,
)
    ensures
        translations_view(final(strings)@) == names_added(
            translations_view(old(strings)@),
            name@,
            text_entries(layout_names@),
        ),
{
    let ghost start = translations_view(strings@);
    let mut i: usize = 0;
    while i < layout_names.len()
        invariant
            i <= layout_names.len(),
            translations_view(strings@) == names_added(start, name@, text_entries(layout_names@.take(i as int))),
        decreases layout_names.len() - i,
    {
        let ghost before = strings@;
        let ghost prev = translations_view(before);
        let lang = layout_names[i].0.as_str();
        let value = layout_names[i].1.as_str();
        proof {
            lemma_entry_index_same_keys(key_list(before), prev, lang@);
        }
        match find_key(strings, lang) {
            Some(k) => {
                proof {
                    lemma_entry_index_bounds(key_list(before), lang@);
                }
                let (l, mut names) = strings.remove(k);
                let ghost old_names = names@;
                let (n, v) = (name.to_string(), value.to_string());
                proof {
                    lemma_keyed_insert_by(old_names, n, v, |s: String| s@);
                }
                insert_keyed(&mut names, n, v);
                strings.insert(k, (l, names));
                proof {
                    assert(prev[k as int].0 == lang@);
                    assert(entry_get(prev, lang@) == Some(text_entries(old_names)));
                    assert(translations_view(strings@) =~= prev.update(
                        k as int,
                        (lang@, entry_insert(text_entries(old_names), name@, value@)),
                    ));
                }
            },
            None => {
                let mut names: Vec<(String, String)> = Vec::new();
                let (n, v) = (name.to_string(), value.to_string());
                proof {
                    lemma_keyed_insert_by(names@, n, v, |s: String| s@);
                    assert(text_entries(names@) =~= Seq::<(Seq<char>, Seq<char>)>::empty());
                }
                insert_keyed(&mut names, n, v);
                strings.push((lang.to_string(), names));
                proof {
                    assert(translations_view(strings@) =~= prev.push(
                        (lang@, entry_insert(Seq::<(Seq<char>, Seq<char>)>::empty(), name@, value@)),
                    ));
                }
            },
        }
        proof {
            let t = text_entries(layout_names@.take(i + 1));
            assert(t.drop_last() =~= text_entries(layout_names@.take(i as int)));
            assert(t.last() == (lang@, value@));
        }
        i = i + 1;
    }
    assert(layout_names@.take(i as int) =~= layout_names@);
}

/// The keyboard layouts by language, by value: the layout's name and its
/// `.keylayout` text.
pub open spec fn layouts_view(l: Seq<(String, (String, String))>) -> Seq<(Seq<char>, (Seq<char>, Seq<char>))> {
    entries_by(l, |p: (String, String)| (p.0@, p.1@))
}

/// A macOS keyboard layout bundle being put together: its `Info.plist`, the
/// translated names of its layouts by language, and each language's layout
/// by name and `.keylayout` text.
pub struct Bundle {
    pub info_plist: InfoPlist,
    pub translation_strings: Vec<(String, Vec<(String, String)>)>,
    pub layouts: Vec<(String, (String, String))>,
}

impl Bundle {
    /// The bundle `name` of the target, with no layouts yet.
    pub fn new(target: &MacOsBuildTarget, name: &str) -> (res: Bundle)
        ensures
            res.info_plist.cf_bundle_identifier@ == bundle_id_text(target.package_id@, name@),
            res.info_plist.cf_bundle_name@ == target.bundle_name@,
            res.info_plist.cf_bundle_version@ == target.build@,
            res.info_plist.cf_bundle_short_version_string@ == target.version@,
            res.info_plist.kl_info_map@.len() == 0,
            res.info_plist.wf(),
            res.translation_strings@.len() == 0,
            res.layouts@.len() == 0,
    {
        Bundle { info_plist: InfoPlist::for_bundle(target, name), translation_strings: Vec::new(), layouts: Vec::new() }
    }

    /// Adds the layout `name` for the language `language_tag`, with its
    /// `.keylayout` text and its names by language: its input source, its
    /// translated names, and the language's layout, each in place of an
    /// earlier one under the same key or last.
    pub fn add_key_layout(
        &mut self,
        language_tag: &str,
        name: &str,
        layout_text: &str,
        layout_names: &Vec<(String, String)>,
    )
        ensures
            final(self).info_plist.cf_bundle_identifier == old(self).info_plist.cf_bundle_identifier,
            final(self).info_plist.cf_bundle_name == old(self).info_plist.cf_bundle_name,
            final(self).info_plist.cf_bundle_version == old(self).info_plist.cf_bundle_version,
            final(self).info_plist.cf_bundle_short_version_string
                == old(self).info_plist.cf_bundle_short_version_string,
            kl_info_entries(final(self).info_plist.kl_info_map@) == kl_info_added(
                kl_info_entries(old(self).info_plist.kl_info_map@),
                old(self).info_plist.cf_bundle_identifier@,
                language_tag@,
                name@,
            ),
            old(self).info_plist.wf() ==> final(self).info_plist.wf(),
            translations_view(final(self).translation_strings@) == names_added(
                translations_view(old(self).translation_strings@),
                name@,
                text_entries(layout_names@),
            ),
            layouts_view(final(self).layouts@) == entry_insert(
                layouts_view(old(self).layouts@),
                language_tag@,
                (name@, layout_text@),
            ),
    {
        self.info_plist.add_key_layout(language_tag, name);
        add_layout_names(&mut self.translation_strings, name, layout_names);
        let tag = language_tag.to_string();
        let layout = (name.to_string(), layout_text.to_string());
        proof {
            lemma_keyed_insert_by(self.layouts@, tag, layout, |p: (String, String)| (p.0@, p.1@));
        }
        insert_keyed(&mut self.layouts, tag, layout);
    }
}

/// The lines of an `InfoPlist.strings` file: each name and translation
/// quoted, as `"name" = "translation";`.
pub open spec fn strings_lines(entries: Seq<(String, String)>) -> Seq<Seq<char>> {
    entries.map_values(|e: (String, String)| debug_text(e.0@) + " = "@ + debug_text(e.1@) + ";"@)
}

/// The `InfoPlist.strings` text of one language: the translated names of the
/// layouts, one per line.
pub fn translation_strings_text(entries: &Vec<(String, String)>) -> (res: String)
    ensures
        res@ == joined(strings_lines(entries@), "\n"@),
{
    let mut lines: Vec<String> = Vec::new();
    let mut i: usize = 0;
    while i < entries.len()
        invariant
            i <= entries.len(),
            texts(lines@) == strings_lines(entries@).take(i as int),
        decreases entries.len() - i,
    {
        let mut line = debug_string(entries[i].0.as_str());
        line.append(" = ");
        line.append(debug_string(entries[i].1.as_str()).as_str());
        line.append(";");
        push_text(&mut lines, line);
        assert(texts(lines@) =~= strings_lines(entries@).take(i + 1));
        i = i + 1;
    }
    assert(strings_lines(entries@).take(i as int) =~= strings_lines(entries@));
    crate::text::join_strings(&lines, "\n")
}

/// The step that builds the installer package of the bundle.
pub struct GenerateInstaller;

/// The arguments of `pkgbuild` making the component package of the bundle,
/// installed in `/Library/Keyboard Layouts`.
pub open spec fn pkgbuild_args_of(bundle_path: Seq<char>, version: Seq<char>, pkg_path: Seq<char>) -> Seq<
    Seq<char>,
> {
    seq![
        "--component"@,
        bundle_path,
        "--ownership"@,
        "recommended"@,
        "--install-location"@,
        "/Library/Keyboard Layouts"@,
        "--version"@,
        version,
        pkg_path,
    ]
}

/// The arguments of `productbuild` making the installer from the
/// distribution file and the packages in `package_path`.
pub open spec fn productbuild_args_of(
    distribution_path: Seq<char>,
    version: Seq<char>,
    package_path: Seq<char>,
    output_pkg_path: Seq<char>,
) -> Seq<Seq<char>> {
    seq![
        "--distribution"@,
        distribution_path,
        "--version"@,
        version,
        "--package-path"@,
        package_path,
        output_pkg_path,
    ]
}

impl GenerateInstaller {
    /// The arguments of `pkgbuild` for the bundle at `bundle_path`.
    pub fn pkgbuild_args(bundle_path: &str, version: &str, pkg_path: &str) -> (res: Vec<String>)
        ensures
            texts(res@) == pkgbuild_args_of(bundle_path@, version@, pkg_path@),
    {
        let mut args: Vec<String> = Vec::new();
        push_text(&mut args, "--component".to_string());
        push_text(&mut args, bundle_path.to_string());
        push_text(&mut args, "--ownership".to_string());
        push_text(&mut args, "recommended".to_string());
        push_text(&mut args, "--install-location".to_string());
        push_text(&mut args, "/Library/Keyboard Layouts".to_string());
        push_text(&mut args, "--version".to_string());
        push_text(&mut args, version.to_string());
        push_text(&mut args, pkg_path.to_string());
        assert(texts(args@) =~= pkgbuild_args_of(bundle_path@, version@, pkg_path@));
        args
    }

    /// The arguments of `productbuild`.
    pub fn productbuild_args(
        distribution_path: &str,
        version: &str,
        package_path: &str,
        output_pkg_path: &str,
    ) -> (res: Vec<String>)
        ensures
            texts(res@) == productbuild_args_of(distribution_path@, version@, package_path@, output_pkg_path@),
    {
        let mut args: Vec<String> = Vec::new();
        push_text(&mut args, "--distribution".to_string());
        push_text(&mut args, distribution_path.to_string());
        push_text(&mut args, "--version".to_string());
        push_text(&mut args, version.to_string());
        push_text(&mut args, "--package-path".to_string());
        push_text(&mut args, package_path.to_string());
        push_text(&mut args, output_pkg_path.to_string());
        assert(texts(args@) =~= productbuild_args_of(
            distribution_path@,
            version@,
            package_path@,
            output_pkg_path@,
        ));
        args
    }

    /// The file name of the installer of the bundle `bundle_id`.
    pub fn installer_file_name(bundle_id: &str) -> (res: String)
        ensures
            res@ == bundle_id@ + ".pkg"@,
    {
        concat_text(bundle_id, ".pkg")
    }
}

/// An element of an XML document below its root: the index of its parent
/// among the elements before it (none for the root), its name, attributes
/// and text.
#[derive(Debug)]
pub struct XmlNode {
    pub parent: Option<usize>,
    pub name: String,
    pub attrs: Vec<(String, String)>,
    pub text: Option<String>,
}

/// An element by value.
pub open spec fn xml_node_view(n: XmlNode) -> (Option<nat>, Seq<char>, Seq<(Seq<char>, Seq<char>)>, Option<Seq<char>>) {
    (
        match n.parent {
            Some(p) => Some(p as nat),
            None => None,
        },
        n.name@,
        pair_texts(n.attrs@),
        match n.text {
            Some(t) => Some(t@),
            None => None,
        },
    )
}

/// The elements of an installer's distribution document, below its
/// `installer-gui-script` root: the title, the options, the outline of the
/// default choice and the bundle's, the two choices, and the reference to the
/// inner package.
pub open spec fn distribution_nodes_of(bundle_name: Seq<char>, bundle_id: Seq<char>) -> Seq<
    (Option<nat>, Seq<char>, Seq<(Seq<char>, Seq<char>)>, Option<Seq<char>>),
> {
    seq![
        (None, "title"@, seq![], Some(bundle_name)),
        (None, "options"@, seq![("customize"@, "never"@), ("rootVolumeOnly"@, "true"@)], None),
        (None, "choices-outline"@, seq![], None),
        (Some(2nat), "line"@, seq![("choice"@, "default"@)], None),
        (Some(3nat), "line"@, seq![("choice"@, bundle_id)], None),
        (None, "choice"@, seq![("id"@, "default"@)], None),
        (None, "choice"@, seq![("id"@, bundle_id), ("visible"@, "false"@)], None),
        (Some(6nat), "pkg-ref"@, seq![("id"@, bundle_id)], None),
        (
            None,
            "pkg-ref"@,
            seq![("id"@, bundle_id), ("version"@, "0"@), ("auth"@, "root"@), ("onConclusion"@, "RequireRestart"@)],
            Some("inner.pkg"@),
        ),
    ]
}

fn attr(name: &str, value: &str) -> (res: (String, String))
    ensures
        res.0@ == name@,
        res.1@ == value@,
{
    (name.to_string(), value.to_string())
}

fn node(parent: Option<usize>, name: &str, attrs: Vec<(String, String)>, text: Option<String>) -> (res: XmlNode)
    ensures
        res.parent == parent,
        res.name@ == name@,
        res.attrs == attrs,
        res.text == text,
{
    XmlNode { parent, name: name.to_string(), attrs, text }
}

impl GenerateInstaller {
    /// The elements of the distribution document of the bundle `bundle_id`
    /// named `bundle_name`, in document order.
    pub fn distribution_nodes(bundle_name: &str, bundle_id: &str) -> (res: Vec<XmlNode>)
        ensures
            res@.map_values(|n: XmlNode| xml_node_view(n)) == distribution_nodes_of(bundle_name@, bundle_id@),
    {
        let mut nodes: Vec<XmlNode> = Vec::new();
        nodes.push(node(None, "title", Vec::new(), Some(bundle_name.to_string())));
        nodes.push(node(None, "options", vec![attr("customize", "never"), attr("rootVolumeOnly", "true")], None));
        nodes.push(node(None, "choices-outline", Vec::new(), None));
        nodes.push(node(Some(2), "line", vec![attr("choice", "default")], None));
        nodes.push(node(Some(3), "line", vec![attr("choice", bundle_id)], None));
        nodes.push(node(None, "choice", vec![attr("id", "default")], None));
        nodes.push(node(None, "choice", vec![attr("id", bundle_id), attr("visible", "false")], None));
        nodes.push(node(Some(6), "pkg-ref", vec![attr("id", bundle_id)], None));
        nodes.push(
            node(
                None,
                "pkg-ref",
                vec![attr("id", bundle_id), attr("version", "0"), attr("auth", "root"), attr("onConclusion", "RequireRestart")],
                Some("inner.pkg".to_string()),
            ),
        );
        assert(nodes@.map_values(|n: XmlNode| xml_node_view(n)) =~~= distribution_nodes_of(bundle_name@, bundle_id@));
        nodes
    }
}

} // verus!
