//! The project description of a keyboard bundle and the checks made on a
//! layout as it is read.

use vstd::prelude::*;

use crate::layout::{find_key, first_key_index, lemma_first_key_index, LanguageTagParts};
use crate::ios::{first_index_of, lemma_first_index_of};
use crate::text::{chars_of, concat_text, replace_all_chars, replace_char, str_eq, string_from_chars};

verus! {

/// The error of a layout with no display name for the primary language of
/// its tag.
pub open spec fn missing_display_name_text(tag: Seq<char>) -> Seq<char> {
    "Missing mandatory display name for language tag: `"@ + tag + "`"@
}

/// Checks, as reading a layout does, that it has a display name for the
/// primary language of its tag; the error names the tag.
pub fn check_display_names(tag: &LanguageTagParts, display_names: &Vec<(String, String)>) -> (res: Result<
    (),
    String,
>)
    ensures
        res is Ok <==> first_key_index(display_names@, tag.primary_language@) is Some,
        res matches Err(e) ==> e@ == missing_display_name_text(tag.tag@),
{
    match find_key(display_names, tag.primary_language.as_str()) {
        Some(_) => Ok(()),
        None => {
            let e = concat_text("Missing mandatory display name for language tag: `", tag.tag.as_str());
            Err(concat_text(e.as_str(), "`"))
        },
    }
}

/// A repository of layouts that the project depends on.
#[derive(Debug)]
pub struct Dependency {
    pub url: String,
    pub layouts: Vec<String>,
    pub branch: Option<String>,
}

/// The name and description of the project in one locale.
#[derive(Debug)]
pub struct LocaleProjectDescription {
    pub name: String,
    pub description: String,
}

/// The decimal separators that a layout may use.
pub open spec fn is_supported_decimal(d: Seq<char>) -> bool {
    d == ","@ || d == "."@
}

/// A layout's decimal setting as it is kept: unset stays unset, `,` and `.`
/// stay, anything else becomes `.`.
pub open spec fn kept_decimal(decimal: Option<Seq<char>>) -> Option<Seq<char>> {
    match decimal {
        Some(d) => if is_supported_decimal(d) {
            Some(d)
        } else {
            Some("."@)
        },
        None => None,
    }
}

/// Replaces a decimal separator other than `,` and `.` by `.`.
pub fn supported_decimal(decimal: Option<String>) -> (res: Option<String>)
    ensures
        match res {
            Some(r) => kept_decimal(match decimal {
                Some(d) => Some(d@),
                None => None,
            }) == Some(r@),
            None => decimal is None,
        },
{
    match decimal {
        Some(d) => {
            if str_eq(d.as_str(), ",") || str_eq(d.as_str(), ".") {
                Some(d)
            } else {
                Some(".".to_owned())
            }
        },
        None => None,
    }
}

/// The index of the description of `locale`, or of `default_locale` where
/// the project has none for it.
pub open spec fn locale_description_index<V>(
    locales: Seq<(String, V)>,
    locale: Seq<char>,
    default_locale: Seq<char>,
) -> Option<int> {
    match first_key_index(locales, locale) {
        Some(i) => Some(i),
        None => first_key_index(locales, default_locale),
    }
}

/// The description of a locale, or of the default locale where the project
/// has none for it.
pub fn locale_description<'a>(
    locales: &'a Vec<(String, LocaleProjectDescription)>,
    locale: &str,
    default_locale: &str,
) -> (res: Option<&'a LocaleProjectDescription>)
    ensures
        match locale_description_index(locales@, locale@, default_locale@) {
            Some(i) => res matches Some(d) && *d == locales@[i].1,
            None => res is None,
        },
{
    proof {
        lemma_first_key_index(locales@, locale@);
        lemma_first_key_index(locales@, default_locale@);
    }
    match find_key(locales, locale) {
        Some(i) => {
            assert(first_key_index(locales@, locale@) is Some);
            let ghost k = first_key_index(locales@, locale@).unwrap();
            assert(0 <= k < locales.len());
            assert(k as usize == i);
            assert(first_key_index(locales@, locale@) == Some(i as int));
            Some(&locales[i].1)
        },
        None => {
            assert(first_key_index(locales@, locale@) is None);
            match find_key(locales, default_locale) {
                Some(i) => {
                    let ghost k = first_key_index(locales@, default_locale@).unwrap();
                    assert(0 <= k < locales.len());
                    assert(k as usize == i);
                    Some(&locales[i].1)
                },
                None => None,
            }
        },
    }
}

} // verus!

verus! {

/// A decimal setting as it is kept is unset or a single `,` or `.`.
pub proof fn lemma_kept_decimal_is_separator(decimal: Option<Seq<char>>)
    ensures
        kept_decimal(decimal) matches Some(k) ==> k.len() == 1 && (k[0] == ',' || k[0] == '.'),
{
    reveal_strlit(",");
    reveal_strlit(".");
}

/// The branch of a dependency that is fetched: the one given, or `main`.
pub open spec fn branch_text(branch: Option<String>) -> Seq<char> {
    match branch {
        Some(b) => b@,
        None => "main"@,
    }
}

fn branch_name(branch: &Option<String>) -> (res: String)
    ensures
        res@ == branch_text(*branch),
{
    match branch {
        Some(b) => b.as_str().to_string(),
        None => "main".to_string(),
    }
}

/// The address of the zip archive of a dependency's repository `url` (an
/// `owner/name` path on GitHub) at its branch.
pub fn dependency_archive_url(url: &str, branch: &Option<String>) -> (res: String)
    ensures
        res@ == "https://github.com/"@ + url@ + "/archive/"@ + branch_text(*branch) + ".zip"@,
{
    let mut s = "https://github.com/".to_string();
    s.append(url);
    s.append("/archive/");
    let b = branch_name(branch);
    s.append(b.as_str());
    s.append(".zip");
    s
}

/// The second `/`-separated segment of `url`, where it has a `/`.
pub open spec fn second_segment(url: Seq<char>) -> Option<Seq<char>> {
    match first_index_of(url, '/') {
        Some(i) => {
            let rest = url.skip(i + 1);
            match first_index_of(rest, '/') {
                Some(j) => Some(rest.take(j)),
                None => Some(rest),
            }
        },
        None => None,
    }
}

fn index_of_char(chars: &Vec<char>, c: char, from: usize) -> (res: Option<usize>)
    requires
        from <= chars.len(),
    ensures
        match res {
            Some(r) => from <= r < chars.len() && first_index_of(chars@.skip(from as int), c) == Some(r - from),
            None => first_index_of(chars@.skip(from as int), c) is None,
        },
{
    let ghost t = chars@.skip(from as int);
    proof {
        lemma_first_index_of(t, c);
    }
    let mut i: usize = from;
    while i < chars.len()
        invariant
            from <= i <= chars.len(),
            t == chars@.skip(from as int),
            forall|j: int| from <= j < i ==> chars@[j] != c,
            first_index_of(t, c) matches Some(k) ==> 0 <= k < t.len() && t[k] == c && forall|j: int|
                0 <= j < k ==> t[j] != c,
            first_index_of(t, c) is None ==> !t.contains(c),
        decreases chars.len() - i,
    {
        if chars[i] == c {
            assert(t[i - from] == c);
            proof {
                if let Some(k) = first_index_of(t, c) {
                    if k < i - from {
                        assert(t[k] == chars@[from + k]);
                    }
                }
            }
            return Some(i);
        }
        i = i + 1;
    }
    proof {
        if let Some(k) = first_index_of(t, c) {
            assert(t[k] == chars@[from + k]);
        }
    }
    None
}

/// The folder that the archive of a dependency unpacks to: the repository's
/// name (the second segment of `url`), a hyphen, and the branch with each `/`
/// made a hyphen. There is none where `url` has no `/`.
pub fn dependency_folder_name(url: &str, branch: &Option<String>) -> (res: Option<String>)
    ensures
        match second_segment(url@) {
            Some(name) => res matches Some(r) && r@ == name + "-"@ + replace_char(branch_text(*branch), '/', "-"@),
            None => res is None,
        },
{
    let chars = chars_of(url);
    let first = match index_of_char(&chars, '/', 0) {
        Some(i) => i,
        None => {
            assert(chars@.skip(0) =~= url@);
            return None;
        },
    };
    assert(chars@.skip(0) =~= url@);
    let start = first + 1;
    let end = match index_of_char(&chars, '/', start) {
        Some(j) => j,
        None => chars.len(),
    };
    let mut name: Vec<char> = Vec::new();
    let mut k: usize = start;
    while k < end
        invariant
            start <= k <= end <= chars.len(),
            name@ == chars@.subrange(start as int, k as int),
        decreases end - k,
    {
        name.push(chars[k]);
        assert(chars@.subrange(start as int, k + 1) =~= chars@.subrange(start as int, k as int).push(chars@[k as int]));
        k = k + 1;
    }
    assert(name@ =~= second_segment(url@)->0) by {
        let rest = url@.skip(start as int);
        match first_index_of(rest, '/') {
            Some(j) => {
                assert(rest.take(j) =~= chars@.subrange(start as int, end as int));
            },
            None => {
                assert(rest =~= chars@.subrange(start as int, end as int));
            },
        }
    }
    let segment = string_from_chars(name.as_slice());
    let b = branch_name(branch);
    let dashed = replace_all_chars(b.as_str(), '/', "-");
    let with_dash = concat_text(segment.as_str(), "-");
    Some(concat_text(with_dash.as_str(), dashed.as_str()))
}

} // verus!
