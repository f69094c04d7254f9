//! iOS keyboards: layer names, the keyboard definitions' info, package
//! identifiers, and the command lines and environment of the signing and
//! archiving steps.

use vstd::prelude::*;

use crate::layout::{IOsKbdLayer, KeyNames, first_key_index, find_key, lemma_first_key_index};
use crate::sorted::{sort_strings, sorted_texts};
use crate::text::{
    char_is_white_space, is_white_space, newline_pieces, split_keys, string_views, words, concat_text, pair_texts,
    push_text, texts, chars_of, push_char, remove_char, str_eq, string_from_chars, without_char};

verus! {

/// The iOS target of a bundle: its identifiers, version and signing
/// settings.
#[derive(Debug)]
pub struct IosTarget {
    pub code_sign_id: Option<String>,
    pub provisioning_profile_id: Option<String>,
    pub team_id: Option<String>,
    pub package_id: String,
    pub bundle_name: String,
    pub version: String,
    pub build: String,
    pub match_git_url: Option<String>,
    pub match_password: Option<String>,
    pub fastlane_user: Option<String>,
    pub fastlane_password: Option<String>,
    pub app_store_key_json: Option<String>,
}

/// The name of a layer in the iOS keyboard definitions.
pub open spec fn ios_layer_text(layer: IOsKbdLayer) -> Seq<char> {
    match layer {
        IOsKbdLayer::Default => "normal"@,
        IOsKbdLayer::Shift => "shifted"@,
        IOsKbdLayer::Alt => "alt"@,
        IOsKbdLayer::AltAndShift => "alt+shift"@,
        IOsKbdLayer::Symbols1 => "symbols-1"@,
        IOsKbdLayer::Symbols2 => "symbols-2"@,
        IOsKbdLayer::Caps => "caps"@,
    }
}

/// Whether an iOS layer is a shifted one.
pub open spec fn ios_layer_is_shifted(layer: IOsKbdLayer) -> bool {
    layer is Shift || layer is AltAndShift
}

/// Whether an iOS layer is reached with the alt key.
pub open spec fn ios_layer_uses_alt(layer: IOsKbdLayer) -> bool {
    layer is Alt || layer is AltAndShift
}

/// The page number of a symbols layer.
pub open spec fn ios_symbols_page(layer: IOsKbdLayer) -> Option<char> {
    if layer is Symbols1 {
        Some('1')
    } else if layer is Symbols2 {
        Some('2')
    } else {
        None
    }
}

/// An iOS layer's name says how it is reached: a symbols layer is
/// `symbols-` and its page, a layer with alt and shift is `alt+shift`, one
/// with alt only `alt`, one with shift only `shifted`, and the layer with no
/// modifier `normal`.
pub proof fn lemma_ios_layer_name_follows_modifiers(layer: IOsKbdLayer)
    requires
        layer != IOsKbdLayer::Caps,
    ensures
        ios_layer_text(layer) == match ios_symbols_page(layer) {
            Some(page) => "symbols-"@.push(page),
            None => if ios_layer_uses_alt(layer) && ios_layer_is_shifted(layer) {
                "alt+shift"@
            } else if ios_layer_uses_alt(layer) {
                "alt"@
            } else if ios_layer_is_shifted(layer) {
                "shifted"@
            } else {
                "normal"@
            },
        },
{
    reveal_strlit("symbols-");
    reveal_strlit("symbols-1");
    reveal_strlit("symbols-2");
    assert("symbols-"@.push('1') =~= "symbols-1"@);
    assert("symbols-"@.push('2') =~= "symbols-2"@);
}

/// The name of a layer in the iOS keyboard definitions. iOS keyboards have no
/// caps layer.
pub fn ios_layer_name(layer: &IOsKbdLayer) -> (res: String)
    requires
        *layer != IOsKbdLayer::Caps,
    ensures
        res@ == ios_layer_text(*layer),
        res@ == match ios_symbols_page(*layer) {
            Some(page) => "symbols-"@.push(page),
            None => if ios_layer_uses_alt(*layer) && ios_layer_is_shifted(*layer) {
                "alt+shift"@
            } else if ios_layer_uses_alt(*layer) {
                "alt"@
            } else if ios_layer_is_shifted(*layer) {
                "shifted"@
            } else {
                "normal"@
            },
        },
{
    proof {
        lemma_ios_layer_name_follows_modifiers(*layer);
    }
    match layer {
        IOsKbdLayer::Default => "normal",
        IOsKbdLayer::Shift => "shifted",
        IOsKbdLayer::Alt => "alt",
        IOsKbdLayer::AltAndShift => "alt+shift",
        IOsKbdLayer::Symbols1 => "symbols-1",
        IOsKbdLayer::Symbols2 => "symbols-2",
        IOsKbdLayer::Caps => "caps",
    }.to_string()
}

/// Removes all occurrences of `character` in `input`.
pub fn remove_all_occurrences(input: String, character: char) -> (res: String)
    ensures
        res@ == without_char(input@, character),
{
    remove_char(input.as_str(), character)
}

/// The keyboard's name, locale and the names of its return and space keys,
/// as the iOS keyboard definitions give them.
#[derive(Debug)]
pub struct IosInfo {
    pub name: String,
    pub locale: String,
    pub enter: String,
    pub space: String,
}

/// The step that writes the iOS keyboard definitions.
pub struct GenerateIos;

impl GenerateIos {
    /// The info of a layout's keyboard: its display name in its own language,
    /// its tag, and the names of its return and space keys.
    pub fn info(language_tag: &str, display_names: &Vec<(String, String)>, key_names: &KeyNames) -> (res: IosInfo)
        requires
            first_key_index(display_names@, language_tag@) is Some,
        ensures
            res.name@ == display_names@[first_key_index(display_names@, language_tag@).unwrap()].1@,
            res.locale@ == language_tag@,
            res.enter@ == key_names.return_key@,
            res.space@ == key_names.space@,
    {
        proof {
            lemma_first_key_index(display_names@, language_tag@);
        }
        let i = find_key(display_names, language_tag).unwrap();
        let ghost k = first_key_index(display_names@, language_tag@).unwrap();
        assert(0 <= k < display_names.len());
        assert(k == i as int);
        IosInfo {
            name: display_names[i].1.as_str().to_string(),
            locale: language_tag.to_string(),
            enter: key_names.return_key.as_str().to_string(),
            space: key_names.space.as_str().to_string(),
        }
    }
}

/// The variables that the signing tools read, by value: the match
/// repository and password, the Fastlane user (also the App Store username)
/// and password, and the App Store key, each that the target sets.
pub open spec fn fastlane_env_of(t: IosTarget) -> Seq<(Seq<char>, Seq<char>)> {
    (match t.match_git_url {
        Some(v) => seq![("MATCH_GIT_URL"@, v@)],
        None => seq![],
    }) + (match t.match_password {
        Some(v) => seq![("MATCH_PASSWORD"@, v@)],
        None => seq![],
    }) + (match t.fastlane_user {
        Some(v) => seq![("FASTLANE_USER"@, v@), ("PRODUCE_USERNAME"@, v@)],
        None => seq![],
    }) + (match t.fastlane_password {
        Some(v) => seq![("FASTLANE_PASSWORD"@, v@)],
        None => seq![],
    }) + (match t.app_store_key_json {
        Some(v) => seq![("APP_STORE_KEY_JSON"@, v@)],
        None => seq![],
    })
}

fn push_var(env: &mut Vec<(String, String)>, name: &str, value: &String)
    ensures
        pair_texts(final(env)@) == pair_texts(old(env)@).push((name@, value@)),
{
    let ghost before = env@;
    env.push((name.to_string(), value.as_str().to_string()));
    assert(pair_texts(env@) =~= pair_texts(before).push((name@, value@)));
}

/// The environment of the Fastlane commands: each variable that the target
/// sets, in a fixed order.
pub fn fastlane_env(ios_target: &IosTarget) -> (res: Vec<(String, String)>)
    ensures
        pair_texts(res@) == fastlane_env_of(*ios_target),
{
    let mut o: Vec<(String, String)> = Vec::new();
    assert(pair_texts(o@) =~= seq![]);
    if let Some(value) = &ios_target.match_git_url {
        push_var(&mut o, "MATCH_GIT_URL", value);
    }
    let ghost a = pair_texts(o@);
    if let Some(value) = &ios_target.match_password {
        push_var(&mut o, "MATCH_PASSWORD", value);
    }
    let ghost b = pair_texts(o@);
    if let Some(value) = &ios_target.fastlane_user {
        push_var(&mut o, "FASTLANE_USER", value);
        push_var(&mut o, "PRODUCE_USERNAME", value);
    }
    let ghost c = pair_texts(o@);
    if let Some(value) = &ios_target.fastlane_password {
        push_var(&mut o, "FASTLANE_PASSWORD", value);
    }
    let ghost d = pair_texts(o@);
    if let Some(value) = &ios_target.app_store_key_json {
        push_var(&mut o, "APP_STORE_KEY_JSON", value);
    }
    assert(pair_texts(o@) =~= fastlane_env_of(*ios_target));
    o
}

} // verus!

verus! {

/// The identifier of the legacy Sámi keyboards by language tag.
pub open spec fn legacy_keyboard_id(tag: Seq<char>) -> Option<Seq<char>> {
    if tag == "se"@ || tag == "sme"@ {
        Some("northern-sami-keyboard"@)
    } else if tag == "sms"@ {
        Some("skolt-sami-keyboard"@)
    } else if tag == "smn"@ {
        Some("inari-sami-keyboard"@)
    } else if tag == "smj-SE"@ {
        Some("julev-sami-keyboard"@)
    } else if tag == "smj-NO"@ {
        Some("julev-sami-keyboard-no"@)
    } else if tag == "sma"@ {
        Some("south-sami-keyboard"@)
    } else {
        None
    }
}

fn legacy_keyboard_id_of(tag: &str) -> (res: Option<&'static str>)
    ensures
        match legacy_keyboard_id(tag@) {
            Some(id) => res matches Some(r) && r@ == id,
            None => res is None,
        },
{
    if str_eq(tag, "se") || str_eq(tag, "sme") {
        Some("northern-sami-keyboard")
    } else if str_eq(tag, "sms") {
        Some("skolt-sami-keyboard")
    } else if str_eq(tag, "smn") {
        Some("inari-sami-keyboard")
    } else if str_eq(tag, "smj-SE") {
        Some("julev-sami-keyboard")
    } else if str_eq(tag, "smj-NO") {
        Some("julev-sami-keyboard-no")
    } else if str_eq(tag, "sma") {
        Some("south-sami-keyboard")
    } else {
        None
    }
}

/// The package identifier of the Sámi keyboards, whose layouts keep their
/// legacy identifiers.
pub open spec fn legacy_package_id() -> Seq<char> {
    "no.uit.giella.keyboards.Sami"@
}

/// The package identifier of a layout's keyboard: the target's, a dot, and
/// the layout's tag (or, in the Sámi package, its legacy identifier where it
/// has one).
pub open spec fn pkg_id_text(package_id: Seq<char>, tag: Seq<char>) -> Seq<char> {
    package_id + "."@ + if package_id == legacy_package_id() {
        match legacy_keyboard_id(tag) {
            Some(id) => id,
            None => tag,
        }
    } else {
        tag
    }
}

/// The package identifier of the keyboard of the layout tagged `tag`.
pub fn pkg_id(package_id: &str, tag: &str) -> (res: String)
    ensures
        res@ == pkg_id_text(package_id@, tag@),
{
    let mut id = package_id.to_string();
    id.append(".");
    if str_eq(package_id, "no.uit.giella.keyboards.Sami") {
        match legacy_keyboard_id_of(tag) {
            Some(legacy) => id.append(legacy),
            None => id.append(tag),
        }
    } else {
        id.append(tag);
    }
    id
}

/// The package identifiers of the app (`package_id`) and of the keyboards
/// of the layouts tagged `tags`, in the order given.
pub open spec fn pkg_id_texts(package_id: Seq<char>, tags: Seq<Seq<char>>) -> Seq<Seq<char>> {
    seq![package_id] + tags.map_values(|t: Seq<char>| pkg_id_text(package_id, t))
}

/// The package identifiers of the app and of the keyboard of each layout
/// tagged `tags`, sorted.
pub fn all_pkg_ids(package_id: &str, tags: &Vec<String>) -> (res: Vec<String>)
    ensures
        sorted_texts(texts(res@)),
        texts(res@).to_multiset() == pkg_id_texts(package_id@, texts(tags@)).to_multiset(),
{
    let mut ids: Vec<String> = Vec::new();
    ids.push(package_id.to_string());
    let mut i: usize = 0;
    while i < tags.len()
        invariant
            i <= tags.len(),
            texts(ids@) == pkg_id_texts(package_id@, texts(tags@).take(i as int)),
        decreases tags.len() - i,
    {
        let ghost before = texts(ids@);
        let id = pkg_id(package_id, tags[i].as_str());
        ids.push(id);
        proof {
            let t0 = texts(tags@).take(i as int);
            let t1 = texts(tags@).take(i + 1);
            assert(t1 =~= t0.push(tags@[i as int]@));
            assert(texts(ids@) =~= before.push(pkg_id_text(package_id@, tags@[i as int]@)));
            assert(pkg_id_texts(package_id@, t1) =~= pkg_id_texts(package_id@, t0).push(
                pkg_id_text(package_id@, tags@[i as int]@),
            ));
        }
        i = i + 1;
    }
    assert(texts(tags@).take(i as int) =~= texts(tags@));
    sort_strings(ids)
}

/// The text after the last `.` of `s`, or all of it without one.
pub open spec fn last_segment(s: Seq<char>) -> Seq<char>
    decreases s.len(),
{
    if s.len() == 0 {
        s
    } else if s.last() == '.' {
        seq![]
    } else {
        last_segment(s.drop_last()).push(s.last())
    }
}

/// The text after the last `.` of `s`.
pub fn after_last_dot(s: &str) -> (res: String)
    ensures
        res@ == last_segment(s@),
{
    let chars = chars_of(s);
    let mut start: usize = chars.len();
    assert(chars@.take(start as int) =~= chars@);
    assert(chars@.skip(start as int) =~= Seq::<char>::empty());
    assert(last_segment(s@) =~= last_segment(chars@.take(start as int)) + chars@.skip(start as int));
    while start > 0 && chars[start - 1] != '.'
        invariant
            start <= chars.len(),
            chars@ == s@,
            last_segment(s@) == last_segment(chars@.take(start as int)) + chars@.skip(start as int),
        decreases start,
    {
        assert(chars@.take(start as int).drop_last() =~= chars@.take(start - 1));
        assert(chars@.skip(start - 1) =~= seq![chars@[start - 1]] + chars@.skip(start as int));
        start = start - 1;
    }
    if start > 0 {
        assert(chars@.take(start as int).last() == '.');
    }
    assert(last_segment(chars@.take(start as int)) =~= seq![]);
    let mut out: Vec<char> = Vec::new();
    let mut i: usize = start;
    while i < chars.len()
        invariant
            start <= i <= chars.len(),
            out@ == chars@.subrange(start as int, i as int),
        decreases chars.len() - i,
    {
        out.push(chars[i]);
        i = i + 1;
        assert(out@ =~= chars@.subrange(start as int, i as int));
    }
    assert(out@ =~= chars@.skip(start as int));
    assert(last_segment(s@) =~= out@);
    string_from_chars(out.as_slice())
}

/// The target whose provisioning profile a package identifier is embedded
/// in: the hosting app for the bundle's own identifier, and the keyboard
/// named by the identifier's last segment for the others.
pub open spec fn profile_target_text(id: Seq<char>, package_id: Seq<char>) -> Seq<char> {
    if id == package_id {
        "HostingApp"@
    } else {
        last_segment(id)
    }
}

/// The target whose provisioning profile `id` is embedded in.
pub fn profile_target_name(id: &str, package_id: &str) -> (res: String)
    ensures
        res@ == profile_target_text(id@, package_id@),
{
    if str_eq(id, package_id) {
        "HostingApp".to_string()
    } else {
        after_last_dot(id)
    }
}

/// The registration of a project's identifiers with the App Store through
/// `fastlane produce`.
pub struct FastlaneProduce;

impl FastlaneProduce {
    /// The arguments registering the app's identifier under its name.
    pub fn app_args(base_id: &str, app_name: &str) -> (res: Vec<String>)
        ensures
            texts(res@) == seq!["produce"@, "-a"@, base_id@, "--app_name"@, app_name@],
    {
        let mut args: Vec<String> = Vec::new();
        push_text(&mut args, "produce".to_string());
        push_text(&mut args, "-a".to_string());
        push_text(&mut args, base_id.to_string());
        push_text(&mut args, "--app_name".to_string());
        push_text(&mut args, app_name.to_string());
        assert(texts(args@) =~= seq!["produce"@, "-a"@, base_id@, "--app_name"@, app_name@]);
        args
    }

    /// The arguments registering the app group `group.<base_id>`, named after
    /// the app.
    pub fn group_args(base_id: &str, app_name: &str) -> (res: Vec<String>)
        ensures
            texts(res@) == seq!["produce"@, "group"@, "-g"@, "group."@ + base_id@, "-n"@, app_name@ + " Group"@],
    {
        let mut args: Vec<String> = Vec::new();
        push_text(&mut args, "produce".to_string());
        push_text(&mut args, "group".to_string());
        push_text(&mut args, "-g".to_string());
        push_text(&mut args, concat_text("group.", base_id));
        push_text(&mut args, "-n".to_string());
        push_text(&mut args, concat_text(app_name, " Group"));
        assert(texts(args@) =~= seq!["produce"@, "group"@, "-g"@, "group."@ + base_id@, "-n"@, app_name@ + " Group"@]);
        args
    }

    /// The arguments registering a keyboard's identifier, named after the app
    /// and the identifier's last segment, without an App Store entry.
    pub fn keyboard_args(id: &str, app_name: &str) -> (res: Vec<String>)
        ensures
            texts(res@) == seq![
                "produce"@,
                "-a"@,
                id@,
                "--app_name"@,
                app_name@ + ": "@ + last_segment(id@),
                "--skip_itc"@,
            ],
    {
        let mut args: Vec<String> = Vec::new();
        push_text(&mut args, "produce".to_string());
        push_text(&mut args, "-a".to_string());
        push_text(&mut args, id.to_string());
        push_text(&mut args, "--app_name".to_string());
        let segment = after_last_dot(id);
        push_text(&mut args, concat_text(concat_text(app_name, ": ").as_str(), segment.as_str()));
        push_text(&mut args, "--skip_itc".to_string());
        assert(texts(args@) =~= seq![
            "produce"@,
            "-a"@,
            id@,
            "--app_name"@,
            app_name@ + ": "@ + last_segment(id@),
            "--skip_itc"@,
        ]);
        args
    }

    /// The arguments enabling app groups for an identifier.
    pub fn enable_group_args(id: &str) -> (res: Vec<String>)
        ensures
            texts(res@) == seq!["produce"@, "enable_services"@, "-a"@, id@, "--app-group"@],
    {
        let mut args: Vec<String> = Vec::new();
        push_text(&mut args, "produce".to_string());
        push_text(&mut args, "enable_services".to_string());
        push_text(&mut args, "-a".to_string());
        push_text(&mut args, id.to_string());
        push_text(&mut args, "--app-group".to_string());
        assert(texts(args@) =~= seq!["produce"@, "enable_services"@, "-a"@, id@, "--app-group"@]);
        args
    }

    /// The arguments putting an identifier in the app group of the project.
    pub fn associate_group_args(id: &str, base_id: &str) -> (res: Vec<String>)
        ensures
            texts(res@) == seq!["produce"@, "associate_group"@, "-a"@, id@, "group."@ + base_id@],
    {
        let mut args: Vec<String> = Vec::new();
        push_text(&mut args, "produce".to_string());
        push_text(&mut args, "associate_group".to_string());
        push_text(&mut args, "-a".to_string());
        push_text(&mut args, id.to_string());
        push_text(&mut args, concat_text("group.", base_id));
        assert(texts(args@) =~= seq!["produce"@, "associate_group"@, "-a"@, id@, "group."@ + base_id@]);
        args
    }
}

/// The step that downloads the signing certificates and provisioning
/// profiles.
pub struct FastlaneProvisioning;

impl FastlaneProvisioning {
    /// The arguments of `fastlane match appstore` for a package identifier.
    pub fn match_args(id: &str, api_key_path: &str) -> (res: Vec<String>)
        ensures
            texts(res@) == seq![
                "match"@,
                "appstore"@,
                "--app_identifier="@ + id@,
                "--api_key_path="@ + api_key_path@,
            ],
    {
        let mut args: Vec<String> = Vec::new();
        push_text(&mut args, "match".to_string());
        push_text(&mut args, "appstore".to_string());
        push_text(&mut args, concat_text("--app_identifier=", id));
        push_text(&mut args, concat_text("--api_key_path=", api_key_path));
        assert(texts(args@) =~= seq![
            "match"@,
            "appstore"@,
            "--app_identifier="@ + id@,
            "--api_key_path="@ + api_key_path@,
        ]);
        args
    }

    /// The arguments of `fastlane sigh` for a package identifier: its
    /// App Store profile for the team, downloaded into `<id>.mobileprovision`.
    pub fn sigh_args(id: &str, team_id: &str, api_key_path: &str) -> (res: Vec<String>)
        ensures
            texts(res@) == seq![
                "sigh"@,
                "-a"@,
                id@,
                "-b"@,
                team_id@,
                "-z"@,
                "-q"@,
                id@ + ".mobileprovision"@,
                "--api_key_path="@ + api_key_path@,
            ],
    {
        let mut args: Vec<String> = Vec::new();
        push_text(&mut args, "sigh".to_string());
        push_text(&mut args, "-a".to_string());
        push_text(&mut args, id.to_string());
        push_text(&mut args, "-b".to_string());
        push_text(&mut args, team_id.to_string());
        push_text(&mut args, "-z".to_string());
        push_text(&mut args, "-q".to_string());
        push_text(&mut args, concat_text(id, ".mobileprovision"));
        push_text(&mut args, concat_text("--api_key_path=", api_key_path));
        assert(texts(args@) =~= seq![
            "sigh"@,
            "-a"@,
            id@,
            "-b"@,
            team_id@,
            "-z"@,
            "-q"@,
            id@ + ".mobileprovision"@,
            "--api_key_path="@ + api_key_path@,
        ]);
        args
    }
}

/// The step that archives the app and exports its IPA.
pub struct BuildXcarchive;

impl BuildXcarchive {
    /// The arguments of `xcodebuild archive`: the archive path, the
    /// workspace, the release configuration of the hosting app's scheme, the
    /// number of jobs, and the signing identity and team.
    pub fn archive_args(archive_path: &str, jobs: &str, code_sign_id: &str, team_id: &str) -> (res: Vec<String>)
        ensures
            texts(res@) == seq![
                "archive"@,
                "-archivePath"@,
                archive_path@,
                "-workspace"@,
                "GiellaKeyboard.xcworkspace"@,
                "-configuration"@,
                "Release"@,
                "-scheme"@,
                "HostingApp"@,
                "-jobs"@,
                jobs@,
                "CODE_SIGN_IDENTITY="@ + code_sign_id@,
                "DEVELOPMENT_TEAM="@ + team_id@,
            ],
    {
        let mut args: Vec<String> = Vec::new();
        push_text(&mut args, "archive".to_string());
        push_text(&mut args, "-archivePath".to_string());
        push_text(&mut args, archive_path.to_string());
        push_text(&mut args, "-workspace".to_string());
        push_text(&mut args, "GiellaKeyboard.xcworkspace".to_string());
        push_text(&mut args, "-configuration".to_string());
        push_text(&mut args, "Release".to_string());
        push_text(&mut args, "-scheme".to_string());
        push_text(&mut args, "HostingApp".to_string());
        push_text(&mut args, "-jobs".to_string());
        push_text(&mut args, jobs.to_string());
        push_text(&mut args, concat_text("CODE_SIGN_IDENTITY=", code_sign_id));
        push_text(&mut args, concat_text("DEVELOPMENT_TEAM=", team_id));
        assert(texts(args@) =~= seq![
            "archive"@,
            "-archivePath"@,
            archive_path@,
            "-workspace"@,
            "GiellaKeyboard.xcworkspace"@,
            "-configuration"@,
            "Release"@,
            "-scheme"@,
            "HostingApp"@,
            "-jobs"@,
            jobs@,
            "CODE_SIGN_IDENTITY="@ + code_sign_id@,
            "DEVELOPMENT_TEAM="@ + team_id@,
        ]);
        args
    }

    /// The arguments of `xcodebuild -exportArchive`.
    pub fn export_args(archive_path: &str, ipa_path: &str, plist_path: &str) -> (res: Vec<String>)
        ensures
            texts(res@) == seq![
                "-exportArchive"@,
                "-archivePath"@,
                archive_path@,
                "-exportPath"@,
                ipa_path@,
                "-exportOptionsPlist"@,
                plist_path@,
            ],
    {
        let mut args: Vec<String> = Vec::new();
        push_text(&mut args, "-exportArchive".to_string());
        push_text(&mut args, "-archivePath".to_string());
        push_text(&mut args, archive_path.to_string());
        push_text(&mut args, "-exportPath".to_string());
        push_text(&mut args, ipa_path.to_string());
        push_text(&mut args, "-exportOptionsPlist".to_string());
        push_text(&mut args, plist_path.to_string());
        assert(texts(args@) =~= seq![
            "-exportArchive"@,
            "-archivePath"@,
            archive_path@,
            "-exportPath"@,
            ipa_path@,
            "-exportOptionsPlist"@,
            plist_path@,
        ]);
        args
    }
}

/// The step that installs the project's CocoaPods.
pub struct PodInstall;

impl PodInstall {
    /// The arguments of `pod install` for the project in `project_directory`.
    pub fn args(project_directory: &str) -> (res: Vec<String>)
        ensures
            texts(res@) == seq!["install"@, "--project-directory="@ + project_directory@],
    {
        let mut args: Vec<String> = Vec::new();
        push_text(&mut args, "install".to_string());
        push_text(&mut args, concat_text("--project-directory=", project_directory));
        assert(texts(args@) =~= seq!["install"@, "--project-directory="@ + project_directory@]);
        args
    }
}

} // verus!

verus! {

proof fn lemma_last_segment_after_dot(a: Seq<char>, t: Seq<char>)
    requires
        !t.contains('.'),
    ensures
        last_segment(a + seq!['.'] + t) == t,
    decreases t.len(),
{
    if t.len() == 0 {
        assert(a + seq!['.'] + t =~= a.push('.'));
        assert((a + seq!['.'] + t).last() == '.');
    } else {
        assert(!t.drop_last().contains('.')) by {
            if t.drop_last().contains('.') {
                let j = choose|j: int| 0 <= j < t.drop_last().len() && t.drop_last()[j] == '.';
                assert(t[j] == '.');
            }
        }
        lemma_last_segment_after_dot(a, t.drop_last());
        assert((a + seq!['.'] + t).drop_last() =~= a + seq!['.'] + t.drop_last());
        assert(t.last() != '.') by {
            assert(t[t.len() - 1] == t.last());
        }
        assert(t.drop_last().push(t.last()) =~= t);
    }
}

/// The provisioning profile of a keyboard's package identifier goes to the
/// keyboard's own target, named by its tag (for a package other than the
/// Sámi one and a tag without dots); the package's own identifier goes to
/// the hosting app.
pub proof fn lemma_profile_targets(package_id: Seq<char>, tag: Seq<char>)
    requires
        package_id != legacy_package_id(),
        !tag.contains('.'),
    ensures
        profile_target_text(pkg_id_text(package_id, tag), package_id) == tag,
        profile_target_text(package_id, package_id) == "HostingApp"@,
{
    reveal_strlit(".");
    assert("."@ =~= seq!['.']);
    assert(pkg_id_text(package_id, tag) =~= package_id + seq!['.'] + tag);
    assert(pkg_id_text(package_id, tag).len() > package_id.len());
    lemma_last_segment_after_dot(package_id, tag);
}

/// Different layers of an iOS keyboard have different names.
pub proof fn lemma_ios_layer_names_distinct(a: IOsKbdLayer, b: IOsKbdLayer)
    ensures
        a != b ==> ios_layer_text(a) != ios_layer_text(b),
{
    reveal_strlit("normal");
    reveal_strlit("shifted");
    reveal_strlit("alt");
    reveal_strlit("alt+shift");
    reveal_strlit("symbols-1");
    reveal_strlit("symbols-2");
    reveal_strlit("caps");
    if a != b {
        let x = ios_layer_text(a);
        let y = ios_layer_text(b);
        if x.len() == y.len() {
            assert(x[0] != y[0] || x[1] != y[1] || x[x.len() - 1] != y[y.len() - 1]);
        }
    }
}

/// The Fastlane environment never sets a variable twice.
pub proof fn lemma_fastlane_env_names_distinct(t: IosTarget)
    ensures
        forall|i: int, j: int|
            0 <= i < j < fastlane_env_of(t).len() ==> fastlane_env_of(t)[i].0 != fastlane_env_of(t)[j].0,
{
    reveal_strlit("MATCH_GIT_URL");
    reveal_strlit("MATCH_PASSWORD");
    reveal_strlit("FASTLANE_USER");
    reveal_strlit("PRODUCE_USERNAME");
    reveal_strlit("FASTLANE_PASSWORD");
    reveal_strlit("APP_STORE_KEY_JSON");
    let e = fastlane_env_of(t);
    assert forall|i: int, j: int| 0 <= i < j < e.len() implies e[i].0 != e[j].0 by {
        let x = e[i].0;
        let y = e[j].0;
        assert(x.len() != y.len() || x[1] != y[1] || x[9] != y[9]);
    }
}

} // verus!

verus! {

/// Whether `t` is a decimal number as a button's width is written: digits,
/// and optionally a dot and more digits.
pub open spec fn is_width_text(t: Seq<char>) -> bool {
    ||| (t.len() > 0 && forall|i: int| 0 <= i < t.len() ==> is_ascii_digit(#[trigger] t[i]))
    ||| exists|k: int|
        #![trigger t[k]]
        0 < k < t.len() - 1 && t[k] == '.' && (forall|i: int|
            0 <= i < t.len() && i != k ==> is_ascii_digit(#[trigger] t[i]))
}

/// Whether `c` is an ASCII decimal digit.
pub open spec fn is_ascii_digit(c: char) -> bool {
    '0' <= c && c <= '9'
}

/// The index of the first `c` in `s`.
pub open spec fn first_index_of(s: Seq<char>, c: char) -> Option<int>
    decreases s.len(),
{
    if s.len() == 0 {
        None
    } else if s[0] == c {
        Some(0)
    } else {
        match first_index_of(s.drop_first(), c) {
            Some(i) => Some(i + 1),
            None => None,
        }
    }
}

/// Where `first_index_of` finds `c`, it is there and not before.
pub proof fn lemma_first_index_of(s: Seq<char>, c: char)
    ensures
        first_index_of(s, c) matches Some(k) ==> 0 <= k < s.len() && s[k] == c && forall|j: int|
            0 <= j < k ==> s[j] != c,
        first_index_of(s, c) is None ==> !s.contains(c),
    decreases s.len(),
{
    if s.len() > 0 {
        lemma_first_index_of(s.drop_first(), c);
        if s[0] != c {
            assert forall|j: int| 1 <= j < s.len() implies s[j] == s.drop_first()[j - 1] by {}
            if first_index_of(s, c) is None && s.contains(c) {
                let j = choose|j: int| 0 <= j < s.len() && s[j] == c;
                assert(s.drop_first()[j - 1] == c);
            }
        }
    }
}

/// The name and width text of a button written `\s{name}` or
/// `\s{name:width}`: the name holds no `}` or `:`, the width is a number.
pub open spec fn component_parts(s: Seq<char>) -> Option<(Seq<char>, Option<Seq<char>>)> {
    if s.len() >= 4 && s[0] == '\\' && s[1] == 's' && s[2] == '{' && s.last() == '}' {
        let body = s.subrange(3, s.len() - 1);
        match first_index_of(body, ':') {
            None => if body.len() > 0 && !body.contains('}') {
                Some((body, None))
            } else {
                None
            },
            Some(k) => {
                let name = body.take(k);
                let width = body.skip(k + 1);
                if k > 0 && !name.contains('}') && is_width_text(width) {
                    Some((name, Some(width)))
                } else {
                    None
                }
            },
        }
    } else {
        None
    }
}

/// The identifier of a button named `name`: the name without double quotes,
/// after an underscore unless the name starts with a double quote.
pub open spec fn button_id(name: Seq<char>) -> Seq<char> {
    if name.len() > 0 && name[0] == '"' {
        without_char(name, '"')
    } else {
        "_"@ + without_char(name, '"')
    }
}

/// A key of an iOS layer: a character, or a button with its identifier and,
/// where it gives one, the text of its width.
#[derive(Debug)]
pub enum IosKeyMapType {
    Character(String),
    Button { id: String, width: Option<String> },
}

/// A key of an iOS layer by value.
pub enum IosKeyView {
    Character(Seq<char>),
    Button { id: Seq<char>, width: Option<Seq<char>> },
}

/// The key of an iOS layer by value.
pub open spec fn ios_key_view(k: IosKeyMapType) -> IosKeyView {
    match k {
        IosKeyMapType::Character(c) => IosKeyView::Character(c@),
        IosKeyMapType::Button { id, width } => IosKeyView::Button {
            id: id@,
            width: match width {
                Some(w) => Some(w@),
                None => None,
            },
        },
    }
}

/// What a key of a layer's list is on iOS: a button where it is written as
/// one, the key's text otherwise.
pub open spec fn ios_key_of(key: Seq<char>) -> IosKeyView {
    match component_parts(key) {
        Some((name, width)) => IosKeyView::Button { id: button_id(name), width },
        None => IosKeyView::Character(key),
    }
}

fn all_digits(chars: &Vec<char>, start: usize, end: usize) -> (res: bool)
    requires
        start <= end <= chars.len(),
    ensures
        res == forall|i: int| start <= i < end ==> is_ascii_digit(#[trigger] chars@[i]),
{
    let mut i = start;
    while i < end
        invariant
            start <= i <= end,
            end <= chars.len(),
            forall|j: int| start <= j < i ==> is_ascii_digit(#[trigger] chars@[j]),
        decreases end - i,
    {
        if !(chars[i] >= '0' && chars[i] <= '9') {
            return false;
        }
        i = i + 1;
    }
    true
}

fn width_text_check(t: &Vec<char>) -> (res: bool)
    ensures
        res == is_width_text(t@),
{
    if t.len() == 0 {
        return false;
    }
    if all_digits(t, 0, t.len()) {
        return true;
    }
    let mut k: usize = 0;
    while k < t.len()
        invariant
            k <= t.len(),
            forall|j: int| 0 <= j < k ==> t@[j] != '.',
        ensures
            k <= t.len(),
            forall|j: int| 0 <= j < k ==> t@[j] != '.',
            k < t.len() ==> t@[k as int] == '.',
        decreases t.len() - k,
    {
        if t[k] == '.' {
            break;
        }
        k = k + 1;
    }
    if k == 0 || k >= t.len() - 1 {
        proof {
            if is_width_text(t@) {
                let m = choose|m: int|
                    #![trigger t@[m]]
                    0 < m < t.len() - 1 && t@[m] == '.' && (forall|i: int|
                        0 <= i < t.len() && i != m ==> is_ascii_digit(#[trigger] t@[i]));
                if m < k {
                    assert(t@[m] != '.');
                } else if k == 0 {
                    assert(is_ascii_digit(t@[0]));
                }
            }
        }
        return false;
    }
    let before = all_digits(t, 0, k);
    let after = all_digits(t, k + 1, t.len());
    proof {
        if before && after {
            assert forall|i: int| 0 <= i < t.len() && i != k implies is_ascii_digit(#[trigger] t@[i]) by {
                if i < k {
                } else {
                }
            }
            assert(t@[k as int] == '.');
        }
        if is_width_text(t@) && !(before && after) {
            let m = choose|m: int|
                #![trigger t@[m]]
                0 < m < t.len() - 1 && t@[m] == '.' && (forall|i: int|
                    0 <= i < t.len() && i != m ==> is_ascii_digit(#[trigger] t@[i]));
            assert(!is_ascii_digit(t@[k as int]));
            assert(m == k);
        }
    }
    before && after
}

} // verus!

verus! {

fn first_colon(chars: &Vec<char>, start: usize, end: usize) -> (res: Option<usize>)
    requires
        start <= end <= chars.len(),
    ensures
        match first_index_of(chars@.subrange(start as int, end as int), ':') {
            Some(k) => res == Some((start + k) as usize),
            None => res is None,
        },
{
    let ghost body = chars@.subrange(start as int, end as int);
    let mut i = start;
    while i < end
        invariant
            start <= i <= end,
            end <= chars.len(),
            body == chars@.subrange(start as int, end as int),
            first_index_of(body, ':') == match first_index_of(chars@.subrange(i as int, end as int), ':') {
                Some(k) => Some(k + (i - start)),
                None => None,
            },
        decreases end - i,
    {
        let ghost rest = chars@.subrange(i as int, end as int);
        assert(rest.drop_first() =~= chars@.subrange(i + 1, end as int));
        if chars[i] == ':' {
            assert(rest[0] == ':');
            return Some(i);
        }
        i = i + 1;
    }
    assert(chars@.subrange(i as int, end as int) =~= Seq::<char>::empty());
    None
}

fn has_char_in(chars: &Vec<char>, start: usize, end: usize, c: char) -> (res: bool)
    requires
        start <= end <= chars.len(),
    ensures
        res == chars@.subrange(start as int, end as int).contains(c),
{
    let mut i = start;
    while i < end
        invariant
            start <= i <= end,
            end <= chars.len(),
            forall|j: int| start <= j < i ==> chars@[j] != c,
        decreases end - i,
    {
        if chars[i] == c {
            assert(chars@.subrange(start as int, end as int)[i - start] == c);
            return true;
        }
        i = i + 1;
    }
    proof {
        if chars@.subrange(start as int, end as int).contains(c) {
            let j = choose|j: int|
                0 <= j < chars@.subrange(start as int, end as int).len() && chars@.subrange(
                    start as int,
                    end as int,
                )[j] == c;
            assert(chars@[start + j] == c);
        }
    }
    false
}

fn collect_range(chars: &Vec<char>, start: usize, end: usize) -> (res: Vec<char>)
    requires
        start <= end <= chars.len(),
    ensures
        res@ == chars@.subrange(start as int, end as int),
{
    let mut out: Vec<char> = Vec::new();
    let mut i = start;
    while i < end
        invariant
            start <= i <= end,
            end <= chars.len(),
            out@ == chars@.subrange(start as int, i as int),
        decreases end - i,
    {
        out.push(chars[i]);
        i = i + 1;
        assert(out@ =~= chars@.subrange(start as int, i as int));
    }
    out
}

fn make_button_id(name: &Vec<char>) -> (res: String)
    ensures
        res@ == button_id(name@),
{
    let text = string_from_chars(name.as_slice());
    let stripped = remove_char(text.as_str(), '"');
    if name.len() > 0 && name[0] == '"' {
        stripped
    } else {
        concat_text("_", stripped.as_str())
    }
}

/// The button written as `\s{name}` or `\s{name:width}`: its identifier and
/// the text of its width; nothing for any other key.
pub fn keyboard_component_from_string(input: String) -> (res: Option<(String, Option<String>)>)
    ensures
        match component_parts(input@) {
            Some((name, width)) => res matches Some((id, w)) && id@ == button_id(name) && match w {
                Some(t) => width == Some(t@),
                None => width is None,
            },
            None => res is None,
        },
{
    let chars = chars_of(input.as_str());
    let n = chars.len();
    if !(n >= 4 && chars[0] == '\\' && chars[1] == 's' && chars[2] == '{' && chars[n - 1] == '}') {
        return None;
    }
    let ghost body = chars@.subrange(3, n - 1);
    assert(chars@.last() == chars@[n - 1]);
    proof {
        lemma_first_index_of(body, ':');
    }
    match first_colon(&chars, 3, n - 1) {
        None => {
            if n - 1 > 3 && !has_char_in(&chars, 3, n - 1, '}') {
                let name = collect_range(&chars, 3, n - 1);
                Some((make_button_id(&name), None))
            } else {
                None
            }
        },
        Some(colon) => {
            let ghost k = (colon - 3) as int;
            assert(body.take(k) =~= chars@.subrange(3, colon as int));
            assert(body.skip(k + 1) =~= chars@.subrange(colon + 1, n - 1));
            let width = collect_range(&chars, colon + 1, n - 1);
            if colon > 3 && !has_char_in(&chars, 3, colon, '}') && width_text_check(&width) {
                let name = collect_range(&chars, 3, colon);
                Some((make_button_id(&name), Some(string_from_chars(width.as_slice()))))
            } else {
                None
            }
        },
    }
}

} // verus!

verus! {

/// `s` without its leading white space.
pub open spec fn trim_start(s: Seq<char>) -> Seq<char>
    decreases s.len(),
{
    if s.len() > 0 && is_white_space(s[0]) {
        trim_start(s.drop_first())
    } else {
        s
    }
}

/// `s` without its trailing white space.
pub open spec fn trim_end(s: Seq<char>) -> Seq<char>
    decreases s.len(),
{
    if s.len() > 0 && is_white_space(s.last()) {
        trim_end(s.drop_last())
    } else {
        s
    }
}

/// `s` without leading and trailing white space (`str::trim`).
pub open spec fn trimmed(s: Seq<char>) -> Seq<char> {
    trim_end(trim_start(s))
}

fn trim_text(s: &str) -> (res: Vec<char>)
    ensures
        res@ == trimmed(s@),
{
    let chars = chars_of(s);
    let mut start: usize = 0;
    assert(chars@.skip(0) =~= chars@);
    while start < chars.len() && char_is_white_space(chars[start])
        invariant
            start <= chars.len(),
            chars@ == s@,
            trim_start(s@) == trim_start(chars@.skip(start as int)),
        decreases chars.len() - start,
    {
        assert(chars@.skip(start as int).drop_first() =~= chars@.skip(start + 1));
        start = start + 1;
    }
    assert(trim_start(s@) == chars@.skip(start as int));
    let mut end: usize = chars.len();
    while end > start && char_is_white_space(chars[end - 1])
        invariant
            start <= end <= chars.len(),
            chars@ == s@,
            trimmed(s@) == trim_end(chars@.subrange(start as int, end as int)),
        decreases end,
    {
        assert(chars@.subrange(start as int, end as int).drop_last() =~= chars@.subrange(start as int, end - 1));
        end = end - 1;
    }
    assert(chars@.skip(start as int) =~= chars@.subrange(start as int, chars.len() as int));
    let mut out: Vec<char> = Vec::new();
    let mut i = start;
    while i < end
        invariant
            start <= i <= end,
            end <= chars.len(),
            out@ == chars@.subrange(start as int, i as int),
        decreases end - i,
    {
        out.push(chars[i]);
        i = i + 1;
        assert(out@ =~= chars@.subrange(start as int, i as int));
    }
    out
}

/// The keys of an iOS layer, row by row.
pub open spec fn ios_rows(layer: Seq<char>) -> Seq<Seq<IosKeyView>> {
    let rows = newline_pieces(trimmed(layer));
    Seq::new(rows.len(), |r: int| Seq::new(words(rows[r]).len(), |k: int| ios_key_of(words(rows[r])[k])))
}

/// Rows of keys by value.
pub open spec fn ios_rows_view(rows: Seq<Vec<IosKeyMapType>>) -> Seq<Seq<IosKeyView>> {
    rows.map_values(|row: Vec<IosKeyMapType>| row@.map_values(|k: IosKeyMapType| ios_key_view(k)))
}

fn ios_row(line: &str) -> (res: Vec<IosKeyMapType>)
    ensures
        res@.map_values(|k: IosKeyMapType| ios_key_view(k)) == Seq::new(
            words(line@).len(),
            |k: int| ios_key_of(words(line@)[k]),
        ),
{
    let keys = split_keys(line);
    let mut out: Vec<IosKeyMapType> = Vec::new();
    let mut k: usize = 0;
    while k < keys.len()
        invariant
            k <= keys.len(),
            string_views(keys@) == words(line@),
            out@.map_values(|x: IosKeyMapType| ios_key_view(x)) == Seq::new(
                words(line@).len(),
                |j: int| ios_key_of(words(line@)[j]),
            ).take(k as int),
        decreases keys.len() - k,
    {
        let key = keys[k].as_str().to_string();
        assert(key@ == words(line@)[k as int]);
        let element = match keyboard_component_from_string(key.as_str().to_string()) {
            Some((id, width)) => IosKeyMapType::Button { id, width },
            None => IosKeyMapType::Character(key),
        };
        let ghost before = out@;
        out.push(element);
        assert(out@.map_values(|x: IosKeyMapType| ios_key_view(x)) =~= before.map_values(
            |x: IosKeyMapType| ios_key_view(x),
        ).push(ios_key_view(element)));
        assert(out@.map_values(|x: IosKeyMapType| ios_key_view(x)) =~= Seq::new(
            words(line@).len(),
            |j: int| ios_key_of(words(line@)[j]),
        ).take(k + 1));
        k = k + 1;
    }
    assert(Seq::new(words(line@).len(), |j: int| ios_key_of(words(line@)[j])).take(k as int) =~= Seq::new(
        words(line@).len(),
        |j: int| ios_key_of(words(line@)[j]),
    ));
    out
}

fn ios_layer_rows(layer: &str) -> (res: Vec<Vec<IosKeyMapType>>)
    ensures
        ios_rows_view(res@) == ios_rows(layer@),
{
    let trimmed_chars = trim_text(layer);
    let text = string_from_chars(trimmed_chars.as_slice());
    let pieces = crate::text::split_newline_pieces(text.as_str());
    let mut out: Vec<Vec<IosKeyMapType>> = Vec::new();
    let mut r: usize = 0;
    while r < pieces.len()
        invariant
            r <= pieces.len(),
            string_views(pieces@) == newline_pieces(trimmed(layer@)),
            ios_rows_view(out@) == ios_rows(layer@).take(r as int),
        decreases pieces.len() - r,
    {
        assert(pieces@[r as int]@ == newline_pieces(trimmed(layer@))[r as int]);
        let row = ios_row(pieces[r].as_str());
        let ghost before = out@;
        out.push(row);
        assert(ios_rows_view(out@) =~= ios_rows_view(before).push(
            row@.map_values(|k: IosKeyMapType| ios_key_view(k)),
        ));
        assert(ios_rows_view(out@) =~= ios_rows(layer@).take(r + 1));
        r = r + 1;
    }
    assert(ios_rows(layer@).take(r as int) =~= ios_rows(layer@));
    out
}

/// The layers of an iOS keyboard definition: each layer by its iOS name,
/// with its keys row by row, buttons written `\s{...}` made buttons.
pub fn generate_platform(layers: &Vec<(IOsKbdLayer, String)>) -> (res: Vec<(String, Vec<Vec<IosKeyMapType>>)>)
    requires
        forall|l: int| 0 <= l < layers.len() ==> #[trigger] layers@[l].0 != IOsKbdLayer::Caps,
    ensures
        res.len() == layers.len(),
        forall|l: int|
            0 <= l < layers.len() ==> #[trigger] res@[l].0@ == ios_layer_text(layers@[l].0) && ios_rows_view(
                res@[l].1@,
            ) == ios_rows(layers@[l].1@),
{
    let mut out: Vec<(String, Vec<Vec<IosKeyMapType>>)> = Vec::new();
    let mut l: usize = 0;
    while l < layers.len()
        invariant
            l <= layers.len(),
            forall|k: int| 0 <= k < layers.len() ==> #[trigger] layers@[k].0 != IOsKbdLayer::Caps,
            out.len() == l,
            forall|k: int|
                #![trigger out@[k]]
                0 <= k < l ==> out@[k].0@ == ios_layer_text(layers@[k].0) && ios_rows_view(out@[k].1@) == ios_rows(
                    layers@[k].1@,
                ),
        decreases layers.len() - l,
    {
        let name = ios_layer_name(&layers[l].0);
        let rows = ios_layer_rows(layers[l].1.as_str());
        let ghost before = out@;
        out.push((name, rows));
        assert forall|k: int| #![trigger out@[k]] 0 <= k < l + 1 implies out@[k].0@ == ios_layer_text(layers@[k].0)
            && ios_rows_view(out@[k].1@) == ios_rows(layers@[k].1@) by {
            if k < l {
                assert(out@[k] == before[k]);
            }
        }
        l = l + 1;
    }
    out
}

} // verus!
