//! An Xcode project file as a graph of objects under their ids, and the
//! edits that the iOS generator makes to it.
//!
//! The objects are kept in the order of their ids, as the project file lists
//! them; so are the ids in each set of ids that an object holds.

use indexmap::IndexMap;
use rand::Rng;
use vstd::prelude::*;

use crate::pbxproj::{
    ConfigurationList, ContainerItemProxy, CopyFilesBuildPhase, FileReference, FrameworksBuildPhase,
    Group, HeadersBuildPhase, NativeTarget, ResourcesBuildPhase, ShellScriptBuildPhase,
    SourcesBuildPhase, TargetDependency, VariantGroup,
};
use crate::index_map::{entry_insert, lemma_entry_insert_twice, setting_entries, settings_insert};
use crate::sorted::{
    index_of_text, key_seq, keys_inserted, lemma_index_from, lemma_map_insert_get, lemma_map_insert_keys,
    lemma_map_insert_sorted, lemma_text_lt_irreflexive, keys_sorted, map_get, map_index, map_insert, set_insert,
    set_inserted, set_remove, set_removed, strictly_sorted,
};
use crate::text::{chars_of, push_char, str_eq, texts};

verus! {

/// A value of the project's property lists: a string, a list of strings or a
/// dictionary with its keys in order.
#[derive(Debug)]
pub enum PlistValue {
    Text(String),
    List(Vec<String>),
    Dict(Vec<(String, PlistValue)>),
}

/// A value of a build setting: a string or a list of strings.
#[derive(Debug, Clone)]
pub enum SettingValue {
    Text(String),
    List(Vec<String>),
}

/// What a build setting holds, as text.
pub enum SettingView {
    Text(Seq<char>),
    List(Seq<Seq<char>>),
}

impl View for SettingValue {
    type V = SettingView;

    open spec fn view(&self) -> SettingView {
        match self {
            SettingValue::Text(s) => SettingView::Text(s@),
            SettingValue::List(v) => SettingView::List(texts(v@)),
        }
    }
}

/// A file as a build phase uses it, with its settings.
#[derive(Debug)]
pub struct BuildFile {
    pub settings: Option<Vec<(String, PlistValue)>>,
    pub file_ref: String,
}

/// The project itself: its attributes, regions, groups and targets.
#[derive(Debug)]
pub struct Project {
    pub attributes: PlistValue,
    pub build_configuration_list: String,
    pub compatibility_version: String,
    pub development_region: String,
    pub has_scanned_for_encodings: String,
    pub known_regions: Vec<String>,
    pub main_group: String,
    pub product_ref_group: String,
    pub project_dir_path: String,
    pub project_root: String,
    pub targets: Vec<String>,
}

/// A named set of build settings, the settings in the order they were set.
#[derive(Debug)]
pub struct BuildConfiguration {
    pub build_settings: IndexMap<String, SettingValue>,
    pub base_configuration_reference: Option<String>,
    pub name: String,
}

/// An object of the project file, by its `isa`.
#[derive(Debug)]
pub enum Object {
    BuildFile(BuildFile),
    FileReference(FileReference),
    CopyFilesBuildPhase(CopyFilesBuildPhase),
    Group(Group),
    Project(Project),
    ConfigurationList(ConfigurationList),
    SourcesBuildPhase(SourcesBuildPhase),
    FrameworksBuildPhase(FrameworksBuildPhase),
    ResourcesBuildPhase(ResourcesBuildPhase),
    TargetDependency(TargetDependency),
    VariantGroup(VariantGroup),
    ShellScriptBuildPhase(ShellScriptBuildPhase),
    HeadersBuildPhase(HeadersBuildPhase),
    NativeTarget(NativeTarget),
    BuildConfiguration(BuildConfiguration),
    ContainerItemProxy(ContainerItemProxy),
}

/// A project file: its versions, its objects under their ids, and the id of
/// the project object. (Its `classes` dictionary is always written empty, so
/// it is not kept.)
#[derive(Debug)]
pub struct Pbxproj {
    pub object_version: String,
    pub archive_version: String,
    pub objects: Vec<(String, Object)>,
    pub root_object: String,
}

impl Pbxproj {
    /// The objects are in strictly increasing order of their ids.
    pub open spec fn wf(&self) -> bool {
        strictly_sorted(key_seq(self.objects@))
    }

    /// The object under `id`.
    pub open spec fn object(&self, id: Seq<char>) -> Option<Object> {
        map_get(self.objects@, id)
    }

    /// The project object, where the root id names one.
    pub open spec fn project_spec(&self) -> Option<Project> {
        match self.object(self.root_object@) {
            Some(Object::Project(p)) => Some(p),
            _ => None,
        }
    }

    /// The group under `id`, where there is one.
    pub open spec fn group_spec(&self, id: Seq<char>) -> Option<Group> {
        match self.object(id) {
            Some(Object::Group(g)) => Some(g),
            _ => None,
        }
    }
}

/// The index of the first object at or after `i` (in the order of the ids)
/// for which `pred` holds of its id and itself.
pub open spec fn first_object_from(
    objects: Seq<(String, Object)>,
    pred: spec_fn(Seq<char>, Object) -> bool,
    i: int,
) -> Option<int>
    decreases objects.len() - i,
{
    if i < 0 || i >= objects.len() {
        None
    } else if pred(objects[i].0@, objects[i].1) {
        Some(i)
    } else {
        first_object_from(objects, pred, i + 1)
    }
}

/// The index of the first object for which `pred` holds.
pub open spec fn first_object(objects: Seq<(String, Object)>, pred: spec_fn(Seq<char>, Object) -> bool) -> Option<int> {
    first_object_from(objects, pred, 0)
}

/// `first_object_from` finds an object for which `pred` holds, and `pred`
/// holds of none before it.
pub proof fn lemma_first_object_from(
    objects: Seq<(String, Object)>,
    pred: spec_fn(Seq<char>, Object) -> bool,
    i: int,
)
    requires
        0 <= i <= objects.len(),
    ensures
        first_object_from(objects, pred, i) matches Some(k) ==> i <= k < objects.len() && pred(
            objects[k].0@,
            objects[k].1,
        ) && forall|j: int| i <= j < k ==> !pred(#[trigger] objects[j].0@, objects[j].1),
        first_object_from(objects, pred, i) is None ==> forall|j: int|
            i <= j < objects.len() ==> !pred(#[trigger] objects[j].0@, objects[j].1),
    decreases objects.len() - i,
{
    if i < objects.len() && !pred(objects[i].0@, objects[i].1) {
        lemma_first_object_from(objects, pred, i + 1);
    }
}

/// A native target named `name`.
pub open spec fn target_named(name: Seq<char>) -> spec_fn(Seq<char>, Object) -> bool {
    |k: Seq<char>, o: Object| o matches Object::NativeTarget(t) && t.name@ == name
}

/// A group named `name`.
pub open spec fn group_named(name: Seq<char>) -> spec_fn(Seq<char>, Object) -> bool {
    |k: Seq<char>, o: Object| o matches Object::Group(g) && g.name matches Some(n) && n@ == name
}

/// A variant group named `name`.
pub open spec fn variant_group_named(name: Seq<char>) -> spec_fn(Seq<char>, Object) -> bool {
    |k: Seq<char>, o: Object| o matches Object::VariantGroup(g) && g.name matches Some(n) && n@ == name
}

/// A file reference whose path is `path`.
pub open spec fn file_reference_at(path: Seq<char>) -> spec_fn(Seq<char>, Object) -> bool {
    |k: Seq<char>, o: Object| o matches Object::FileReference(f) && f.path@ == path
}

/// A file reference under the id `id`.
pub open spec fn file_reference_keyed(id: Seq<char>) -> spec_fn(Seq<char>, Object) -> bool {
    |k: Seq<char>, o: Object| k == id && o is FileReference
}

/// A configuration list under the id `id`.
pub open spec fn configuration_list_keyed(id: Seq<char>) -> spec_fn(Seq<char>, Object) -> bool {
    |k: Seq<char>, o: Object| k == id && o is ConfigurationList
}

/// A build configuration under the id `id`.
pub open spec fn configuration_keyed(id: Seq<char>) -> spec_fn(Seq<char>, Object) -> bool {
    |k: Seq<char>, o: Object| k == id && o is BuildConfiguration
}

/// A copy-files phase under the id `id`.
pub open spec fn copy_phase_keyed(id: Seq<char>) -> spec_fn(Seq<char>, Object) -> bool {
    |k: Seq<char>, o: Object| k == id && o is CopyFilesBuildPhase
}

/// A resources phase under the id `id`.
pub open spec fn resources_phase_keyed(id: Seq<char>) -> spec_fn(Seq<char>, Object) -> bool {
    |k: Seq<char>, o: Object| k == id && o is ResourcesBuildPhase
}

/// A build file whose file, looked up in `objects`, is a file reference named
/// `name`, or without a name at the path `name`.
pub open spec fn build_file_named(objects: Seq<(String, Object)>, name: Seq<char>) -> spec_fn(
    Seq<char>,
    Object,
) -> bool {
    |k: Seq<char>, o: Object|
        o matches Object::BuildFile(b) && map_get(objects, b.file_ref@) matches Some(
            Object::FileReference(f),
        ) && match f.name {
            Some(n) => n@ == name,
            None => f.path@ == name,
        }
}

/// Which of the searches by name, path or id an object search makes.
pub enum ObjectQuery<'a> {
    TargetNamed(&'a str),
    GroupNamed(&'a str),
    VariantGroupNamed(&'a str),
    FileReferenceAt(&'a str),
    FileReferenceKeyed(&'a str),
    ConfigurationListKeyed(&'a str),
    ConfigurationKeyed(&'a str),
    CopyPhaseKeyed(&'a str),
    ResourcesPhaseKeyed(&'a str),
}

/// What a query looks for.
pub open spec fn query_pred(q: ObjectQuery) -> spec_fn(Seq<char>, Object) -> bool {
    match q {
        ObjectQuery::TargetNamed(n) => target_named(n@),
        ObjectQuery::GroupNamed(n) => group_named(n@),
        ObjectQuery::VariantGroupNamed(n) => variant_group_named(n@),
        ObjectQuery::FileReferenceAt(p) => file_reference_at(p@),
        ObjectQuery::FileReferenceKeyed(id) => file_reference_keyed(id@),
        ObjectQuery::ConfigurationListKeyed(id) => configuration_list_keyed(id@),
        ObjectQuery::ConfigurationKeyed(id) => configuration_keyed(id@),
        ObjectQuery::CopyPhaseKeyed(id) => copy_phase_keyed(id@),
        ObjectQuery::ResourcesPhaseKeyed(id) => resources_phase_keyed(id@),
    }
}

fn option_is(o: &Option<String>, name: &str) -> (res: bool)
    ensures
        res == (o matches Some(n) && n@ == name@),
{
    match o {
        Some(n) => str_eq(n.as_str(), name),
        None => false,
    }
}

fn query_holds(q: &ObjectQuery, k: &String, o: &Object) -> (res: bool)
    ensures
        res == query_pred(*q)(k@, *o),
{
    match q {
        ObjectQuery::TargetNamed(n) => match o {
            Object::NativeTarget(t) => str_eq(t.name.as_str(), n),
            _ => false,
        },
        ObjectQuery::GroupNamed(n) => match o {
            Object::Group(g) => option_is(&g.name, n),
            _ => false,
        },
        ObjectQuery::VariantGroupNamed(n) => match o {
            Object::VariantGroup(g) => option_is(&g.name, n),
            _ => false,
        },
        ObjectQuery::FileReferenceAt(p) => match o {
            Object::FileReference(f) => str_eq(f.path.as_str(), p),
            _ => false,
        },
        ObjectQuery::FileReferenceKeyed(id) => match o {
            Object::FileReference(_) => str_eq(k.as_str(), id),
            _ => false,
        },
        ObjectQuery::ConfigurationListKeyed(id) => match o {
            Object::ConfigurationList(_) => str_eq(k.as_str(), id),
            _ => false,
        },
        ObjectQuery::ConfigurationKeyed(id) => match o {
            Object::BuildConfiguration(_) => str_eq(k.as_str(), id),
            _ => false,
        },
        ObjectQuery::CopyPhaseKeyed(id) => match o {
            Object::CopyFilesBuildPhase(_) => str_eq(k.as_str(), id),
            _ => false,
        },
        ObjectQuery::ResourcesPhaseKeyed(id) => match o {
            Object::ResourcesBuildPhase(_) => str_eq(k.as_str(), id),
            _ => false,
        },
    }
}

/// The index of the first object that a query finds.
pub fn find_object(objects: &Vec<(String, Object)>, q: &ObjectQuery) -> (res: Option<usize>)
    ensures
        match first_object(objects@, query_pred(*q)) {
            Some(i) => res == Some(i as usize),
            None => res is None,
        },
        res matches Some(i) ==> i < objects.len(),
{
    proof {
        lemma_first_object_from(objects@, query_pred(*q), 0);
    }
    let mut i: usize = 0;
    while i < objects.len()
        invariant
            i <= objects.len(),
            first_object_from(objects@, query_pred(*q), i as int) == first_object(
                objects@,
                query_pred(*q),
            ),
        decreases objects.len() - i,
    {
        if query_holds(q, &objects[i].0, &objects[i].1) {
            return Some(i);
        }
        i = i + 1;
    }
    None
}

/// Two project files with the same versions and root object.
pub open spec fn same_header(a: Pbxproj, b: Pbxproj) -> bool {
    a.object_version == b.object_version && a.archive_version == b.archive_version && a.root_object
        == b.root_object
}

/// `b` is `a` with the object at index `i` replaced by `o`, under its id.
pub open spec fn replaced_at(a: Pbxproj, b: Pbxproj, i: int, o: Object) -> bool {
    &&& same_header(a, b)
    &&& 0 <= i < a.objects@.len()
    &&& b.objects@ == a.objects@.update(i, (a.objects@[i].0, o))
}

/// `b` is the project object `a` with the regions `regions`.
pub open spec fn regions_replaced(a: Object, b: Object, regions: Vec<String>) -> bool {
    match (a, b) {
        (Object::Project(p), Object::Project(q)) => q.known_regions == regions && q.attributes
            == p.attributes && q.build_configuration_list == p.build_configuration_list
            && q.compatibility_version == p.compatibility_version && q.development_region
            == p.development_region && q.has_scanned_for_encodings == p.has_scanned_for_encodings
            && q.main_group == p.main_group && q.product_ref_group == p.product_ref_group
            && q.project_dir_path == p.project_dir_path && q.project_root == p.project_root
            && q.targets == p.targets,
        _ => false,
    }
}

/// The index of the object under `id`.
pub open spec fn key_index(p: Pbxproj, id: Seq<char>) -> Option<int> {
    index_of_text(key_seq(p.objects@), id)
}

impl Pbxproj {
    fn key_position(&self, id: &str) -> (res: Option<usize>)
        ensures
            res matches Some(j) ==> key_index(*self, id@) == Some(j as int) && j < self.objects.len()
                && self.objects@[j as int].0@ == id@ && self.object(id@) == Some(
                self.objects@[j as int].1,
            ),
            res is None ==> key_index(*self, id@) is None && self.object(id@) is None,
    {
        proof {
            lemma_index_from(key_seq(self.objects@), id@, 0);
        }
        map_index(&self.objects, id)
    }

    /// The project object, where the root id names one.
    pub fn project(&self) -> (res: Option<&Project>)
        ensures
            match self.project_spec() {
                Some(p) => res == Some(&p),
                None => res is None,
            },
    {
        match self.key_position(self.root_object.as_str()) {
            Some(i) => match &self.objects[i].1 {
                Object::Project(p) => Some(p),
                _ => None,
            },
            None => None,
        }
    }

    /// The project object to change, where the root id names one.
    pub fn project_mut(&mut self) -> (res: Option<&mut Project>)
        ensures
            match key_index(*old(self), old(self).root_object@) {
                Some(i) => match old(self).objects@[i].1 {
                    Object::Project(p) => res matches Some(r) && *r == p && replaced_at(
                        *old(self),
                        *final(self),
                        i,
                        Object::Project(*final(r)),
                    ),
                    _ => res is None && *final(self) == *old(self),
                },
                None => res is None && *final(self) == *old(self),
            },
    {
        match self.key_position(self.root_object.as_str()) {
            Some(i) => {
                let is_project = match &self.objects[i].1 {
                    Object::Project(_) => true,
                    _ => false,
                };
                if is_project {
                    match &mut self.objects[i].1 {
                        Object::Project(p) => Some(p),
                        _ => None,
                    }
                } else {
                    None
                }
            },
            None => None,
        }
    }

    /// The regions of the project object to change, where the root id names
    /// one.
    pub fn known_regions_mut(&mut self) -> (res: Option<&mut Vec<String>>)
        ensures
            match key_index(*old(self), old(self).root_object@) {
                Some(i) => match old(self).objects@[i].1 {
                    Object::Project(p) => res matches Some(r) && *r == p.known_regions && same_header(
                        *old(self),
                        *final(self),
                    ) && final(self).objects@.len() == old(self).objects@.len() && (forall|j: int|
                        0 <= j < old(self).objects@.len() && j != i ==> final(self).objects@[j]
                            == old(self).objects@[j]) && final(self).objects@[i].0 == old(
                        self,
                    ).objects@[i].0 && regions_replaced(
                        old(self).objects@[i].1,
                        final(self).objects@[i].1,
                        *final(r),
                    ),
                    _ => res is None && *final(self) == *old(self),
                },
                None => res is None && *final(self) == *old(self),
            },
    {
        match self.key_position(self.root_object.as_str()) {
            Some(i) => {
                let is_project = match &self.objects[i].1 {
                    Object::Project(_) => true,
                    _ => false,
                };
                if is_project {
                    match &mut self.objects[i].1 {
                        Object::Project(p) => Some(&mut p.known_regions),
                        _ => None,
                    }
                } else {
                    None
                }
            },
            None => None,
        }
    }

    /// The group under `id`, where there is one.
    pub fn group(&self, id: &str) -> (res: Option<&Group>)
        ensures
            match self.group_spec(id@) {
                Some(g) => res == Some(&g),
                None => res is None,
            },
    {
        match self.key_position(id) {
            Some(i) => match &self.objects[i].1 {
                Object::Group(g) => Some(g),
                _ => None,
            },
            None => None,
        }
    }

    /// The group under `id` to change, where there is one.
    pub fn group_mut(&mut self, id: &str) -> (res: Option<&mut Group>)
        ensures
            match key_index(*old(self), id@) {
                Some(i) => match old(self).objects@[i].1 {
                    Object::Group(g) => res matches Some(r) && *r == g && replaced_at(
                        *old(self),
                        *final(self),
                        i,
                        Object::Group(*final(r)),
                    ),
                    _ => res is None && *final(self) == *old(self),
                },
                None => res is None && *final(self) == *old(self),
            },
    {
        match self.key_position(id) {
            Some(i) => {
                let is_group = match &self.objects[i].1 {
                    Object::Group(_) => true,
                    _ => false,
                };
                if is_group {
                    match &mut self.objects[i].1 {
                        Object::Group(g) => Some(g),
                        _ => None,
                    }
                } else {
                    None
                }
            },
            None => None,
        }
    }

    /// The first group named `name`, to change.
    pub fn group_by_name_mut(&mut self, name: &str) -> (res: Option<&mut Group>)
        ensures
            match first_object(old(self).objects@, group_named(name@)) {
                Some(i) => match old(self).objects@[i].1 {
                    Object::Group(g) => res matches Some(r) && *r == g && replaced_at(
                        *old(self),
                        *final(self),
                        i,
                        Object::Group(*final(r)),
                    ),
                    _ => false,
                },
                None => res is None && *final(self) == *old(self),
            },
    {
        proof {
            lemma_first_object_from(self.objects@, group_named(name@), 0);
        }
        match find_object(&self.objects, &ObjectQuery::GroupNamed(name)) {
            Some(i) => match &mut self.objects[i].1 {
                Object::Group(g) => Some(g),
                _ => None,
            },
            None => None,
        }
    }

    /// The first variant group named `name`, to change.
    pub fn variant_group_by_name_mut(&mut self, name: &str) -> (res: Option<&mut VariantGroup>)
        ensures
            match first_object(old(self).objects@, variant_group_named(name@)) {
                Some(i) => match old(self).objects@[i].1 {
                    Object::VariantGroup(g) => res matches Some(r) && *r == g && replaced_at(
                        *old(self),
                        *final(self),
                        i,
                        Object::VariantGroup(*final(r)),
                    ),
                    _ => false,
                },
                None => res is None && *final(self) == *old(self),
            },
    {
        proof {
            lemma_first_object_from(self.objects@, variant_group_named(name@), 0);
        }
        match find_object(&self.objects, &ObjectQuery::VariantGroupNamed(name)) {
            Some(i) => match &mut self.objects[i].1 {
                Object::VariantGroup(g) => Some(g),
                _ => None,
            },
            None => None,
        }
    }
}

/// The id of the last of `phases` that names a resources phase in
/// `objects`.
pub open spec fn last_resources_phase(objects: Seq<(String, Object)>, phases: Seq<String>) -> Option<
    Seq<char>,
>
    decreases phases.len(),
{
    if phases.len() == 0 {
        None
    } else if map_get(objects, phases.last()@) matches Some(Object::ResourcesBuildPhase(_)) {
        Some(phases.last()@)
    } else {
        last_resources_phase(objects, phases.drop_last())
    }
}

/// The index of the resources phase of the first target named `name`: the
/// last of its phases that is one.
pub open spec fn resources_phase_index(objects: Seq<(String, Object)>, name: Seq<char>) -> Option<int> {
    match first_object(objects, target_named(name)) {
        Some(t) => match objects[t].1 {
            Object::NativeTarget(target) => match last_resources_phase(objects, target.build_phases@) {
                Some(id) => first_object(objects, resources_phase_keyed(id)),
                None => None,
            },
            _ => None,
        },
        None => None,
    }
}

impl Pbxproj {
    /// The file reference under `id`.
    pub fn file_reference_by_id(&self, id: &str) -> (res: Option<&FileReference>)
        ensures
            match first_object(self.objects@, file_reference_keyed(id@)) {
                Some(i) => self.objects@[i].1 matches Object::FileReference(f) && res == Some(&f),
                None => res is None,
            },
    {
        proof {
            lemma_first_object_from(self.objects@, file_reference_keyed(id@), 0);
        }
        match find_object(&self.objects, &ObjectQuery::FileReferenceKeyed(id)) {
            Some(i) => match &self.objects[i].1 {
                Object::FileReference(f) => Some(f),
                _ => None,
            },
            None => None,
        }
    }

    /// The id of the first file reference whose path is `path`.
    pub fn file_reference_id_by_path(&self, path: &str) -> (res: Option<&String>)
        ensures
            match first_object(self.objects@, file_reference_at(path@)) {
                Some(i) => res == Some(&self.objects@[i].0),
                None => res is None,
            },
    {
        proof {
            lemma_first_object_from(self.objects@, file_reference_at(path@), 0);
        }
        match find_object(&self.objects, &ObjectQuery::FileReferenceAt(path)) {
            Some(i) => Some(&self.objects[i].0),
            None => None,
        }
    }

    /// The first native target named `name`.
    pub fn native_target_by_name(&self, name: &str) -> (res: Option<&NativeTarget>)
        ensures
            match first_object(self.objects@, target_named(name@)) {
                Some(i) => self.objects@[i].1 matches Object::NativeTarget(t) && res == Some(&t),
                None => res is None,
            },
    {
        proof {
            lemma_first_object_from(self.objects@, target_named(name@), 0);
        }
        match find_object(&self.objects, &ObjectQuery::TargetNamed(name)) {
            Some(i) => match &self.objects[i].1 {
                Object::NativeTarget(t) => Some(t),
                _ => None,
            },
            None => None,
        }
    }

    /// The id of the first native target named `name`.
    pub fn native_target_id_by_name(&mut self, name: &str) -> (res: Option<&String>)
        ensures
            *final(self) == *old(self),
            match first_object(old(self).objects@, target_named(name@)) {
                Some(i) => res == Some(&old(self).objects@[i].0),
                None => res is None,
            },
    {
        proof {
            lemma_first_object_from(self.objects@, target_named(name@), 0);
        }
        match find_object(&self.objects, &ObjectQuery::TargetNamed(name)) {
            Some(i) => Some(&self.objects[i].0),
            None => None,
        }
    }

    /// The first native target named `name`, to change.
    pub fn native_target_by_name_mut(&mut self, name: &str) -> (res: Option<&mut NativeTarget>)
        ensures
            match first_object(old(self).objects@, target_named(name@)) {
                Some(i) => match old(self).objects@[i].1 {
                    Object::NativeTarget(t) => res matches Some(r) && *r == t && replaced_at(
                        *old(self),
                        *final(self),
                        i,
                        Object::NativeTarget(*final(r)),
                    ),
                    _ => false,
                },
                None => res is None && *final(self) == *old(self),
            },
    {
        proof {
            lemma_first_object_from(self.objects@, target_named(name@), 0);
        }
        match find_object(&self.objects, &ObjectQuery::TargetNamed(name)) {
            Some(i) => match &mut self.objects[i].1 {
                Object::NativeTarget(t) => Some(t),
                _ => None,
            },
            None => None,
        }
    }

    /// The configuration list under `id`.
    pub fn configuration_list_by_id(&self, id: &str) -> (res: Option<&ConfigurationList>)
        ensures
            match first_object(self.objects@, configuration_list_keyed(id@)) {
                Some(i) => self.objects@[i].1 matches Object::ConfigurationList(c) && res == Some(&c),
                None => res is None,
            },
    {
        proof {
            lemma_first_object_from(self.objects@, configuration_list_keyed(id@), 0);
        }
        match find_object(&self.objects, &ObjectQuery::ConfigurationListKeyed(id)) {
            Some(i) => match &self.objects[i].1 {
                Object::ConfigurationList(c) => Some(c),
                _ => None,
            },
            None => None,
        }
    }

    /// The build configuration under `id`.
    pub fn configuration_by_id(&self, id: &str) -> (res: Option<&BuildConfiguration>)
        ensures
            match first_object(self.objects@, configuration_keyed(id@)) {
                Some(i) => self.objects@[i].1 matches Object::BuildConfiguration(c) && res == Some(&c),
                None => res is None,
            },
    {
        proof {
            lemma_first_object_from(self.objects@, configuration_keyed(id@), 0);
        }
        match find_object(&self.objects, &ObjectQuery::ConfigurationKeyed(id)) {
            Some(i) => match &self.objects[i].1 {
                Object::BuildConfiguration(c) => Some(c),
                _ => None,
            },
            None => None,
        }
    }

    /// The build configuration under `id`, to change.
    pub fn configuration_by_id_mut(&mut self, id: &str) -> (res: Option<&mut BuildConfiguration>)
        ensures
            match first_object(old(self).objects@, configuration_keyed(id@)) {
                Some(i) => match old(self).objects@[i].1 {
                    Object::BuildConfiguration(c) => res matches Some(r) && *r == c && replaced_at(
                        *old(self),
                        *final(self),
                        i,
                        Object::BuildConfiguration(*final(r)),
                    ),
                    _ => false,
                },
                None => res is None && *final(self) == *old(self),
            },
    {
        proof {
            lemma_first_object_from(self.objects@, configuration_keyed(id@), 0);
        }
        match find_object(&self.objects, &ObjectQuery::ConfigurationKeyed(id)) {
            Some(i) => match &mut self.objects[i].1 {
                Object::BuildConfiguration(c) => Some(c),
                _ => None,
            },
            None => None,
        }
    }

    /// The copy-files phase under `id`, to change.
    pub fn copy_file_build_phase_by_id_mut(&mut self, id: &str) -> (res: Option<&mut CopyFilesBuildPhase>)
        ensures
            match first_object(old(self).objects@, copy_phase_keyed(id@)) {
                Some(i) => match old(self).objects@[i].1 {
                    Object::CopyFilesBuildPhase(c) => res matches Some(r) && *r == c && replaced_at(
                        *old(self),
                        *final(self),
                        i,
                        Object::CopyFilesBuildPhase(*final(r)),
                    ),
                    _ => false,
                },
                None => res is None && *final(self) == *old(self),
            },
    {
        proof {
            lemma_first_object_from(self.objects@, copy_phase_keyed(id@), 0);
        }
        match find_object(&self.objects, &ObjectQuery::CopyPhaseKeyed(id)) {
            Some(i) => match &mut self.objects[i].1 {
                Object::CopyFilesBuildPhase(c) => Some(c),
                _ => None,
            },
            None => None,
        }
    }

    /// The id of the first build file whose file reference is named `name`
    /// (or, without a name, has the path `name`).
    pub fn build_file_id_by_file_ref_name(&self, name: &str) -> (res: Option<&String>)
        ensures
            match first_object(self.objects@, build_file_named(self.objects@, name@)) {
                Some(i) => res == Some(&self.objects@[i].0),
                None => res is None,
            },
    {
        let ghost pred = build_file_named(self.objects@, name@);
        let mut i: usize = 0;
        while i < self.objects.len()
            invariant
                i <= self.objects.len(),
                pred == build_file_named(self.objects@, name@),
                first_object_from(self.objects@, pred, i as int) == first_object(self.objects@, pred),
            decreases self.objects.len() - i,
        {
            let mut found = false;
            if let Object::BuildFile(b) = &self.objects[i].1 {
                match self.key_position(b.file_ref.as_str()) {
                    Some(j) => {
                        if let Object::FileReference(f) = &self.objects[j].1 {
                            found = match &f.name {
                                Some(n) => str_eq(n.as_str(), name),
                                None => str_eq(f.path.as_str(), name),
                            };
                        }
                    },
                    None => {},
                }
            }
            assert(found == pred(self.objects@[i as int].0@, self.objects@[i as int].1));
            if found {
                return Some(&self.objects[i].0);
            }
            i = i + 1;
        }
        None
    }

    fn last_resources_phase_id<'a>(&self, phases: &'a Vec<String>) -> (res: Option<&'a String>)
        ensures
            match last_resources_phase(self.objects@, phases@) {
                Some(id) => res matches Some(r) && r@ == id,
                None => res is None,
            },
    {
        let mut found: Option<&'a String> = None;
        let mut i: usize = 0;
        assert(phases@.take(0) =~= Seq::<String>::empty());
        while i < phases.len()
            invariant
                i <= phases.len(),
                match last_resources_phase(self.objects@, phases@.take(i as int)) {
                    Some(id) => found matches Some(r) && r@ == id,
                    None => found is None,
                },
            decreases phases.len() - i,
        {
            let is_resources = match self.key_position(phases[i].as_str()) {
                Some(j) => match &self.objects[j].1 {
                    Object::ResourcesBuildPhase(_) => true,
                    _ => false,
                },
                None => false,
            };
            if is_resources {
                found = Some(&phases[i]);
            }
            assert(phases@.take(i + 1).drop_last() =~= phases@.take(i as int));
            i = i + 1;
        }
        assert(phases@.take(i as int) =~= phases@);
        found
    }

    /// The resources phase of the first target named `target_name` (the last
    /// of its phases that is one), to change.
    pub fn resources_build_phase_by_target_name_mut(&mut self, target_name: &str) -> (res: Option<
        &mut ResourcesBuildPhase,
    >)
        ensures
            match resources_phase_index(old(self).objects@, target_name@) {
                Some(i) => match old(self).objects@[i].1 {
                    Object::ResourcesBuildPhase(p) => res matches Some(r) && *r == p && replaced_at(
                        *old(self),
                        *final(self),
                        i,
                        Object::ResourcesBuildPhase(*final(r)),
                    ),
                    _ => false,
                },
                None => res is None && *final(self) == *old(self),
            },
    {
        proof {
            lemma_first_object_from(self.objects@, target_named(target_name@), 0);
        }
        let mut the_id: Option<String> = None;
        if let Some(target) = self.native_target_by_name(target_name) {
            if let Some(id) = self.last_resources_phase_id(&target.build_phases) {
                the_id = Some(id.clone());
            }
        }
        match the_id {
            Some(id) => {
                proof {
                    lemma_first_object_from(self.objects@, resources_phase_keyed(id@), 0);
                }
                match find_object(&self.objects, &ObjectQuery::ResourcesPhaseKeyed(id.as_str())) {
                    Some(i) => match &mut self.objects[i].1 {
                        Object::ResourcesBuildPhase(p) => Some(p),
                        _ => None,
                    },
                    None => None,
                }
            },
            None => None,
        }
    }
}

/// A character that object ids are drawn from.
pub open spec fn is_id_char(c: char) -> bool {
    ('0' <= c && c <= '9') || ('A' <= c && c <= 'F')
}

/// The text of an object id: 24 upper-case hexadecimal digits.
pub open spec fn is_object_id(s: Seq<char>) -> bool {
    s.len() == 24 && forall|i: int| 0 <= i < 24 ==> is_id_char(#[trigger] s[i])
}

/// A number below `n` drawn by the thread's random generator
/// (`rand::Rng::gen_range(0..n)`, which panics on an empty range). Only the
/// range of the result is claimed.
#[verifier::external_body]
fn random_below(n: usize) -> (res: usize)
    requires
        n > 0,
    ensures
        res < n,
{
    rand::thread_rng().gen_range(0..n)
}

/// The id of an object of a project file.
#[derive(Debug)]
pub struct ObjectId(pub String);

impl ObjectId {
    /// A fresh random id: 24 digits each drawn from `0`-`9` and `A`-`F`.
    pub fn new_random() -> (res: ObjectId)
        ensures
            is_object_id(res.0@),
    {
        let mut id = String::new();
        let mut i: usize = 0;
        while i < 24
            invariant
                i <= 24,
                id@.len() == i,
                forall|j: int| 0 <= j < i ==> is_id_char(#[trigger] id@[j]),
            decreases 24 - i,
        {
            let d = random_below(16);
            let code: u8 = if d < 10 { 48 + d as u8 } else { 55 + d as u8 };
            let c = code as char;
            assert(is_id_char(c)) by {
                assert(code as u32 as char == c);
            }
            push_char(&mut id, c);
            i = i + 1;
        }
        ObjectId(id)
    }

    /// The id's text.
    pub fn as_ref(&self) -> (res: &str)
        ensures
            res@ == self.0@,
    {
        self.0.as_str()
    }
}

/// `b` is `a` with the object at index `i` changed, under its id.
pub open spec fn one_changed(a: Pbxproj, b: Pbxproj, i: int) -> bool {
    &&& same_header(a, b)
    &&& 0 <= i < a.objects@.len()
    &&& b.objects@ == a.objects@.update(i, (a.objects@[i].0, b.objects@[i].1))
}

/// `b` is the project object `a` with the targets `targets`.
pub open spec fn with_targets(a: Object, b: Object, targets: Seq<String>) -> bool {
    match (a, b) {
        (Object::Project(p), Object::Project(q)) => q.targets@ == targets && q.attributes
            == p.attributes && q.build_configuration_list == p.build_configuration_list
            && q.compatibility_version == p.compatibility_version && q.development_region
            == p.development_region && q.has_scanned_for_encodings == p.has_scanned_for_encodings
            && q.main_group == p.main_group && q.product_ref_group == p.product_ref_group
            && q.project_dir_path == p.project_dir_path && q.project_root == p.project_root
            && q.known_regions == p.known_regions,
        _ => false,
    }
}

/// `b` is the project object `a` with the regions `regions`.
pub open spec fn with_regions(a: Object, b: Object, regions: Seq<String>) -> bool {
    match (a, b) {
        (Object::Project(p), Object::Project(q)) => q.known_regions@ == regions && q.attributes
            == p.attributes && q.build_configuration_list == p.build_configuration_list
            && q.compatibility_version == p.compatibility_version && q.development_region
            == p.development_region && q.has_scanned_for_encodings == p.has_scanned_for_encodings
            && q.main_group == p.main_group && q.product_ref_group == p.product_ref_group
            && q.project_dir_path == p.project_dir_path && q.project_root == p.project_root
            && q.targets == p.targets,
        _ => false,
    }
}

/// `b` is the group `a` with the children `children`.
pub open spec fn with_children(a: Object, b: Object, children: Seq<String>) -> bool {
    match (a, b) {
        (Object::Group(g), Object::Group(h)) => h.children@ == children && h.source_tree
            == g.source_tree && h.name == g.name && h.path == g.path,
        _ => false,
    }
}

/// `b` is the variant group `a` with the children `children`.
pub open spec fn with_variant_children(a: Object, b: Object, children: Seq<String>) -> bool {
    match (a, b) {
        (Object::VariantGroup(g), Object::VariantGroup(h)) => h.children@ == children && h.source_tree
            == g.source_tree && h.name == g.name && h.path == g.path,
        _ => false,
    }
}

/// `b` is the native target `a` with the dependencies `dependencies`.
pub open spec fn with_dependencies(a: Object, b: Object, dependencies: Seq<String>) -> bool {
    match (a, b) {
        (Object::NativeTarget(t), Object::NativeTarget(u)) => u.dependencies@ == dependencies
            && u.product_type == t.product_type && u.build_configuration_list
            == t.build_configuration_list && u.product_reference == t.product_reference
            && u.product_name == t.product_name && u.build_phases == t.build_phases && u.name == t.name
            && u.build_rules == t.build_rules,
        _ => false,
    }
}

/// `b` is the copy-files phase `a` with the files `files`.
pub open spec fn with_copy_files(a: Object, b: Object, files: Seq<String>) -> bool {
    match (a, b) {
        (Object::CopyFilesBuildPhase(c), Object::CopyFilesBuildPhase(d)) => d.files@ == files
            && d.build_action_mask == c.build_action_mask && d.dst_path == c.dst_path
            && d.dst_subfolder_spec == c.dst_subfolder_spec && d.name == c.name
            && d.run_only_for_deployment_postprocessing == c.run_only_for_deployment_postprocessing,
        _ => false,
    }
}

/// `b` is the resources phase `a` with the files `files`.
pub open spec fn with_resource_files(a: Object, b: Object, files: Seq<String>) -> bool {
    match (a, b) {
        (Object::ResourcesBuildPhase(c), Object::ResourcesBuildPhase(d)) => d.files@ == files
            && d.build_action_mask == c.build_action_mask && d.name == c.name
            && d.run_only_for_deployment_postprocessing == c.run_only_for_deployment_postprocessing,
        _ => false,
    }
}

/// `b` is the build configuration `a` with the settings `settings`.
pub open spec fn with_settings(a: Object, b: Object, settings: Seq<(Seq<char>, SettingView)>) -> bool {
    match (a, b) {
        (Object::BuildConfiguration(c), Object::BuildConfiguration(d)) => setting_entries(
            d.build_settings,
        ) == settings && d.base_configuration_reference == c.base_configuration_reference && d.name
            == c.name,
        _ => false,
    }
}

/// With the ids in order, each id is at one index only.
pub proof fn lemma_wf_key(p: Pbxproj, i: int)
    requires
        p.wf(),
        0 <= i < p.objects@.len(),
    ensures
        key_index(p, p.objects@[i].0@) == Some(i),
        p.object(p.objects@[i].0@) == Some(p.objects@[i].1),
{
    let keys = key_seq(p.objects@);
    lemma_index_from(keys, keys[i], 0);
    match index_of_text(keys, keys[i]) {
        Some(k) => {
            if k < i {
                lemma_text_lt_irreflexive(keys[i]);
            }
        },
        None => {},
    }
}

/// Changing the object at one index keeps the ids, so their order, and
/// changes what that one id names.
pub proof fn lemma_one_changed(a: Pbxproj, b: Pbxproj, i: int)
    requires
        one_changed(a, b, i),
        a.wf(),
    ensures
        b.wf(),
        key_seq(b.objects@) == key_seq(a.objects@),
        forall|q: Seq<char>| #[trigger]
            b.object(q) == if q == a.objects@[i].0@ {
                Some(b.objects@[i].1)
            } else {
                a.object(q)
            },
{
    assert(key_seq(b.objects@) =~= key_seq(a.objects@));
    lemma_wf_key(a, i);
    assert forall|q: Seq<char>| #[trigger]
        b.object(q) == if q == a.objects@[i].0@ {
            Some(b.objects@[i].1)
        } else {
            a.object(q)
        } by {
        lemma_index_from(key_seq(a.objects@), q, 0);
    }
}

/// Where the ids are in order, a search for an object of some kind under an
/// id finds the object under that id, if it is of that kind.
pub proof fn lemma_keyed_search(p: Pbxproj, pred: spec_fn(Seq<char>, Object) -> bool, id: Seq<char>)
    requires
        p.wf(),
        forall|k: Seq<char>, o: Object| #[trigger] pred(k, o) ==> k == id,
    ensures
        first_object(p.objects@, pred) matches Some(i) ==> key_index(p, id) == Some(i),
        key_index(p, id) matches Some(i) ==> (first_object(p.objects@, pred) == if pred(
            p.objects@[i].0@,
            p.objects@[i].1,
        ) {
            Some(i)
        } else {
            None::<int>
        }),
{
    lemma_first_object_from(p.objects@, pred, 0);
    lemma_index_from(key_seq(p.objects@), id, 0);
    match first_object(p.objects@, pred) {
        Some(i) => {
            lemma_wf_key(p, i);
        },
        None => {},
    }
    match key_index(p, id) {
        Some(i) => {
            if pred(p.objects@[i].0@, p.objects@[i].1) {
                match first_object(p.objects@, pred) {
                    Some(j) => {
                        lemma_wf_key(p, j);
                    },
                    None => {},
                }
            } else {
                match first_object(p.objects@, pred) {
                    Some(j) => {
                        lemma_wf_key(p, j);
                    },
                    None => {},
                }
            }
        },
        None => {},
    }
}

/// The components of a path (`std::path::Path::components`), each as text.
pub uninterp spec fn path_components_of(path: Seq<char>) -> Seq<Seq<char>>;

/// The pieces of `s` between its `/`s, in order: one more than it has `/`s.
pub open spec fn slash_pieces(s: Seq<char>) -> Seq<Seq<char>>
    decreases s.len(),
{
    if s.len() == 0 {
        seq![seq![]]
    } else {
        let prev = slash_pieces(s.drop_last());
        if s.last() == '/' {
            prev.push(seq![])
        } else {
            prev.update(prev.len() - 1, prev.last().push(s.last()))
        }
    }
}

/// Whether a path is relative and `/`-separated, with nothing that names a
/// drive, a server or another separator: no backslash, no `:`, no leading `/`.
pub open spec fn is_plain_relative_path(s: Seq<char>) -> bool {
    &&& !s.contains('\\')
    &&& !s.contains(':')
    &&& (s.len() == 0 || s[0] != '/')
}

/// The components of a plain relative path, as `Path::components` documents
/// them: the pieces between the `/`s, without empty pieces (repeated and
/// trailing separators) and without `.` pieces, except that a `.` at the
/// start is a component of its own.
pub open spec fn relative_components(s: Seq<char>) -> Seq<Seq<char>> {
    (if slash_pieces(s)[0] == seq!['.'] {
        seq![seq!['.']]
    } else {
        Seq::<Seq<char>>::empty()
    }) + slash_pieces(s).filter(|p: Seq<char>| p.len() > 0 && p != seq!['.'])
}

/// Splits a path into its components as `std::path::Path::components` does.
/// For a plain relative path its documentation gives them (see
/// `relative_components`); of other paths (a root, a Windows prefix) the
/// split depends on the platform, and nothing is claimed but that the same
/// path gives the same components.
#[verifier::external_body]
pub(crate) fn path_components(path: &str) -> (res: Vec<String>)
    ensures
        texts(res@) == path_components_of(path@),
        is_plain_relative_path(path@) ==> texts(res@) == relative_components(path@),
{
    std::path::Path::new(path).components().map(|x| x.as_os_str().to_str().unwrap().to_string()).collect()
}

/// A copy of a list of strings.
pub fn copy_strings(v: &Vec<String>) -> (res: Vec<String>)
    ensures
        res@ == v@,
{
    let mut out: Vec<String> = Vec::new();
    let mut i: usize = 0;
    while i < v.len()
        invariant
            i <= v.len(),
            out@ == v@.take(i as int),
        decreases v.len() - i,
    {
        out.push(v[i].clone());
        assert(out@ =~= v@.take(i + 1));
        i = i + 1;
    }
    assert(v@.take(i as int) =~= v@);
    out
}

/// The child `c` is a group whose path is `name`, or that has no path and
/// whose name is `name`.
pub open spec fn child_matches(p: Pbxproj, c: Seq<char>, name: Seq<char>) -> bool {
    match p.group_spec(c) {
        Some(g) => match g.path {
            Some(path) => path@ == name,
            None => g.name matches Some(n) && n@ == name,
        },
        None => false,
    }
}

/// The index of the first of `children` at or after `i` that matches `name`.
pub open spec fn first_child_from(p: Pbxproj, children: Seq<String>, name: Seq<char>, i: int) -> Option<int>
    decreases children.len() - i,
{
    if i < 0 || i >= children.len() {
        None
    } else if child_matches(p, children[i]@, name) {
        Some(i)
    } else {
        first_child_from(p, children, name, i + 1)
    }
}

proof fn lemma_first_child_from(p: Pbxproj, children: Seq<String>, name: Seq<char>, i: int)
    requires
        0 <= i <= children.len(),
    ensures
        first_child_from(p, children, name, i) matches Some(c) ==> i <= c < children.len()
            && child_matches(p, children[c]@, name),
    decreases children.len() - i,
{
    if i < children.len() && !child_matches(p, children[i]@, name) {
        lemma_first_child_from(p, children, name, i + 1);
    }
}

/// One step down from the group `target` towards a group named `name`: to
/// its first child that matches, or nowhere.
pub open spec fn ref_step(p: Pbxproj, target: Seq<char>, name: Seq<char>) -> Seq<char> {
    match p.group_spec(target) {
        Some(g) => match first_child_from(p, g.children@, name, 0) {
            Some(c) => g.children@[c]@,
            None => target,
        },
        None => target,
    }
}

/// The group that a walk from `target` down the names `names` ends at.
pub open spec fn ref_walk(p: Pbxproj, target: Seq<char>, names: Seq<Seq<char>>) -> Seq<char>
    decreases names.len(),
{
    if names.len() == 0 {
        target
    } else {
        ref_step(p, ref_walk(p, target, names.drop_last()), names.last())
    }
}

proof fn lemma_ref_walk_is_group(p: Pbxproj, target: Seq<char>, names: Seq<Seq<char>>)
    requires
        p.group_spec(target) is Some,
    ensures
        p.group_spec(ref_walk(p, target, names)) is Some,
    decreases names.len(),
{
    if names.len() > 0 {
        lemma_ref_walk_is_group(p, target, names.drop_last());
        let t = ref_walk(p, target, names.drop_last());
        let g = p.group_spec(t)->Some_0;
        lemma_first_child_from(p, g.children@, names.last(), 0);
    }
}

impl Pbxproj {
    /// Adds `object_id` to the project's targets. The root id must name the
    /// project object.
    pub fn add_target(&mut self, object_id: &String)
        requires
            old(self).project_spec() is Some,
        ensures
            ({
                &&& key_index(*old(self), old(self).root_object@) matches Some(i)
                &&& one_changed(*old(self), *final(self), i)
                &&& old(self).objects@[i].1 matches Object::Project(p)
                &&& with_targets(
                    old(self).objects@[i].1,
                    final(self).objects@[i].1,
                    set_inserted(p.targets@, *object_id),
                )
            }),
    {
        let project = self.project_mut().unwrap();
        set_insert(&mut project.targets, object_id.clone());
    }

    /// Adds `object_id` to the children of the first variant group named
    /// `About.txt`, which must be there.
    pub fn add_file_ref_to_variant_group(&mut self, object_id: String)
        requires
            first_object(old(self).objects@, variant_group_named("About.txt"@)) is Some,
        ensures
            ({
                &&& first_object(old(self).objects@, variant_group_named("About.txt"@)) matches Some(i)
                &&& one_changed(*old(self), *final(self), i)
                &&& old(self).objects@[i].1 matches Object::VariantGroup(g)
                &&& with_variant_children(
                    old(self).objects@[i].1,
                    final(self).objects@[i].1,
                    set_inserted(g.children@, object_id),
                )
            }),
    {
        let variant = self.variant_group_by_name_mut("About.txt").unwrap();
        set_insert(&mut variant.children, object_id);
    }

    /// The group that a walk from the main group down `names` ends at (see
    /// `ref_walk`). The project and its main group must be there.
    pub fn walk_to_group(&self, names: &Vec<String>) -> (res: String)
        requires
            self.project_spec() matches Some(p) && self.group_spec(p.main_group@) is Some,
        ensures
            self.project_spec() matches Some(p) && res@ == ref_walk(*self, p.main_group@, texts(names@)),
            self.group_spec(res@) is Some,
    {
        let ghost p0 = *self;
        let mut object = self.project().unwrap().main_group.clone();
        let mut i: usize = 0;
        assert(texts(names@).take(0) =~= Seq::<Seq<char>>::empty());
        while i < names.len()
            invariant
                i <= names.len(),
                *self == p0,
                p0.group_spec(object@) is Some,
                p0.project_spec() matches Some(p) && object@ == ref_walk(
                    p0,
                    p.main_group@,
                    texts(names@).take(i as int),
                ),
            decreases names.len() - i,
        {
            let name = names[i].as_str();
            let group = self.group(object.as_str()).unwrap();
            let children = &group.children;
            let ghost start = object@;
            let mut next: Option<String> = None;
            let mut c: usize = 0;
            while c < children.len()
                invariant_except_break
                    next is None,
                invariant
                    c <= children.len(),
                    *self == p0,
                    p0.group_spec(start) == Some(*group),
                    first_child_from(p0, children@, name@, c as int) == first_child_from(
                        p0,
                        children@,
                        name@,
                        0,
                    ),
                ensures
                    match first_child_from(p0, children@, name@, 0) {
                        Some(k) => next matches Some(n) && n@ == children@[k]@,
                        None => next is None,
                    },
                decreases children.len() - c,
            {
                let mut hit = false;
                if let Some(child_group) = self.group(children[c].as_str()) {
                    if let Some(child_path) = &child_group.path {
                        hit = str_eq(child_path.as_str(), name);
                    } else if let Some(child_name) = &child_group.name {
                        hit = str_eq(child_name.as_str(), name);
                    }
                }
                assert(hit == child_matches(p0, children@[c as int]@, name@));
                if hit {
                    next = Some(children[c].clone());
                    break;
                }
                c = c + 1;
            }
            proof {
                lemma_first_child_from(p0, children@, name@, 0);
                assert(texts(names@).take(i + 1).drop_last() =~= texts(names@).take(i as int));
            }
            match next {
                Some(n) => {
                    object = n;
                },
                None => {},
            }
            assert(object@ == ref_step(p0, start, name@));
            i = i + 1;
        }
        assert(texts(names@).take(i as int) =~= texts(names@));
        object
    }

    /// Adds `object_id` to the children of the group that a walk from the
    /// main group down `names` ends at: each step goes to the first child
    /// group whose path (or, without a path, whose name) is the next name, and
    /// stays where none is. The project and its main group must be there.
    pub fn add_ref_to_group_components(&mut self, object_id: &String, names: &Vec<String>)
        requires
            old(self).project_spec() matches Some(p) && old(self).group_spec(p.main_group@) is Some,
        ensures
            ({
                &&& old(self).project_spec() matches Some(p)
                &&& key_index(*old(self), ref_walk(*old(self), p.main_group@, texts(names@))) matches Some(i)
                &&& one_changed(*old(self), *final(self), i)
                &&& old(self).objects@[i].1 matches Object::Group(g)
                &&& with_children(
                    old(self).objects@[i].1,
                    final(self).objects@[i].1,
                    set_inserted(g.children@, *object_id),
                )
            }),
    {
        let object = self.walk_to_group(names);
        let group = self.group_mut(object.as_str()).unwrap();
        set_insert(&mut group.children, object_id.clone());
    }

    /// Adds `object_id` to the group at the path `group` from the main group
    /// (see `add_ref_to_group_components`). The project and its main group
    /// must be there.
    pub fn add_ref_to_group(&mut self, object_id: &String, group: &str)
        requires
            old(self).project_spec() matches Some(p) && old(self).group_spec(p.main_group@) is Some,
        ensures
            ({
                &&& old(self).project_spec() matches Some(p)
                &&& key_index(*old(self), ref_walk(*old(self), p.main_group@, path_components_of(group@)))
                    matches Some(i)
                &&& one_changed(*old(self), *final(self), i)
                &&& old(self).objects@[i].1 matches Object::Group(g)
                &&& with_children(
                    old(self).objects@[i].1,
                    final(self).objects@[i].1,
                    set_inserted(g.children@, *object_id),
                )
            }),
    {
        let names = path_components(group);
        self.add_ref_to_group_components(object_id, &names);
    }
}

/// The ids of the build configurations of the first target named `name`,
/// through the configuration list that it names.
pub open spec fn target_configurations(objects: Seq<(String, Object)>, name: Seq<char>) -> Option<
    Seq<String>,
> {
    match first_object(objects, target_named(name)) {
        Some(t) => match objects[t].1 {
            Object::NativeTarget(target) => match first_object(
                objects,
                configuration_list_keyed(target.build_configuration_list@),
            ) {
                Some(l) => match objects[l].1 {
                    Object::ConfigurationList(list) => Some(list.build_configurations@),
                    _ => None,
                },
                None => None,
            },
            _ => None,
        },
        None => None,
    }
}

/// The first target named `name` has a configuration list, and each id of
/// that list names a build configuration.
pub open spec fn configurations_ready(p: Pbxproj, name: Seq<char>) -> bool {
    &&& target_configurations(p.objects@, name) matches Some(cs)
    &&& forall|j: int|
        0 <= j < cs.len() ==> p.object(#[trigger] cs[j]@) matches Some(Object::BuildConfiguration(_))
}

/// `b` is the build configuration `a` with `key` set to `value` in its
/// settings.
pub open spec fn setting_set(a: Option<Object>, b: Option<Object>, key: Seq<char>, value: SettingView) -> bool {
    match (a, b) {
        (Some(Object::BuildConfiguration(c)), Some(o)) => with_settings(
            Object::BuildConfiguration(c),
            o,
            entry_insert(setting_entries(c.build_settings), key, value),
        ),
        _ => false,
    }
}

impl Pbxproj {
    fn set_configurations_setting(&mut self, target_name: &str, key: &str, value: &str)
        requires
            old(self).wf(),
            configurations_ready(*old(self), target_name@),
        ensures
            final(self).wf(),
            same_header(*old(self), *final(self)),
            key_seq(final(self).objects@) == key_seq(old(self).objects@),
            target_configurations(old(self).objects@, target_name@) matches Some(cs) && forall|q: Seq<char>|
                #![trigger final(self).object(q)]
                if texts(cs).contains(q) {
                    setting_set(old(self).object(q), final(self).object(q), key@, SettingView::Text(value@))
                } else {
                    final(self).object(q) == old(self).object(q)
                },
    {
        let ghost p0 = *self;
        let ghost view = SettingView::Text(value@);
        proof {
            lemma_first_object_from(self.objects@, target_named(target_name@), 0);
        }
        let cs = {
            let target = self.native_target_by_name(target_name).unwrap();
            proof {
                lemma_first_object_from(
                    self.objects@,
                    configuration_list_keyed(target.build_configuration_list@),
                    0,
                );
            }
            let list = self.configuration_list_by_id(target.build_configuration_list.as_str()).unwrap();
            copy_strings(&list.build_configurations)
        };
        let mut i: usize = 0;
        assert(texts(cs@).take(0) =~= Seq::<Seq<char>>::empty());
        while i < cs.len()
            invariant
                i <= cs.len(),
                target_configurations(p0.objects@, target_name@) == Some(cs@),
                configurations_ready(p0, target_name@),
                p0.wf(),
                self.wf(),
                same_header(p0, *self),
                key_seq(self.objects@) == key_seq(p0.objects@),
                view == SettingView::Text(value@),
                forall|q: Seq<char>|
                    #![trigger self.object(q)]
                    if texts(cs@).take(i as int).contains(q) {
                        setting_set(p0.object(q), self.object(q), key@, view)
                    } else {
                        self.object(q) == p0.object(q)
                    },
            decreases cs.len() - i,
        {
            let id = cs[i].as_str();
            let ghost before = *self;
            proof {
                assert(p0.object(cs@[i as int]@) matches Some(Object::BuildConfiguration(_)));
                assert(before.object(id@) matches Some(Object::BuildConfiguration(_))) by {
                    if texts(cs@).take(i as int).contains(id@) {
                    }
                }
                lemma_keyed_search(before, configuration_keyed(id@), id@);
                lemma_index_from(key_seq(before.objects@), id@, 0);
            }
            let config = self.configuration_by_id_mut(id).unwrap();
            settings_insert(&mut config.build_settings, key.to_string(), SettingValue::Text(value.to_string()));
            proof {
                let k = key_index(before, id@)->Some_0;
                assert(one_changed(before, *self, k));
                lemma_one_changed(before, *self, k);
                let c0 = p0.object(id@)->Some_0->BuildConfiguration_0;
                let cb = before.object(id@)->Some_0->BuildConfiguration_0;
                let cn = self.objects@[k].1->BuildConfiguration_0;
                assert(self.object(id@) == Some(self.objects@[k].1));
                assert(setting_entries(cn.build_settings) == entry_insert(
                    setting_entries(cb.build_settings),
                    key@,
                    view,
                ));
                assert(cn.name == cb.name && cn.base_configuration_reference
                    == cb.base_configuration_reference);
                if texts(cs@).take(i as int).contains(id@) {
                    assert(setting_set(p0.object(id@), before.object(id@), key@, view));
                    lemma_entry_insert_twice(setting_entries(c0.build_settings), key@, view, view);
                } else {
                    assert(before.object(id@) == p0.object(id@));
                }
                assert(setting_set(p0.object(id@), self.object(id@), key@, view));
                assert forall|q: Seq<char>|
                    #![trigger self.object(q)]
                    if texts(cs@).take(i + 1).contains(q) {
                        setting_set(p0.object(q), self.object(q), key@, view)
                    } else {
                        self.object(q) == p0.object(q)
                    } by {
                    assert(texts(cs@).take(i + 1) =~= texts(cs@).take(i as int).push(id@));
                    if q != id@ {
                        assert(texts(cs@).take(i + 1).contains(q) == texts(cs@).take(i as int).contains(q));
                        assert(self.object(q) == before.object(q));
                        if texts(cs@).take(i as int).contains(q) {
                            assert(setting_set(p0.object(q), before.object(q), key@, view));
                        } else {
                            assert(before.object(q) == p0.object(q));
                        }
                    } else {
                        assert(texts(cs@).take(i + 1)[i as int] == id@);
                        assert(texts(cs@).take(i + 1).contains(q));
                    }
                }
            }
            i = i + 1;
        }
        assert(texts(cs@).take(i as int) =~= texts(cs@));
    }

    /// Sets `key` to the string `value` in each build configuration of the
    /// first target named `target_name`. The target, its configuration list
    /// and each configuration of it must be there.
    pub fn set_target_build_configuration(&mut self, target_name: &str, key: &str, value: &str)
        requires
            old(self).wf(),
            configurations_ready(*old(self), target_name@),
        ensures
            final(self).wf(),
            same_header(*old(self), *final(self)),
            key_seq(final(self).objects@) == key_seq(old(self).objects@),
            target_configurations(old(self).objects@, target_name@) matches Some(cs) && forall|q: Seq<char>|
                #![trigger final(self).object(q)]
                if texts(cs).contains(q) {
                    setting_set(old(self).object(q), final(self).object(q), key@, SettingView::Text(value@))
                } else {
                    final(self).object(q) == old(self).object(q)
                },
    {
        self.set_configurations_setting(target_name, key, value);
    }

    /// Sets `key` to the string `value` in each build configuration of the
    /// first target named `target_name`, as `set_target_build_configuration`
    /// does.
    pub fn set_build_target_setting(&mut self, target_name: &str, key: &str, value: &str)
        requires
            old(self).wf(),
            configurations_ready(*old(self), target_name@),
        ensures
            final(self).wf(),
            same_header(*old(self), *final(self)),
            key_seq(final(self).objects@) == key_seq(old(self).objects@),
            target_configurations(old(self).objects@, target_name@) matches Some(cs) && forall|q: Seq<char>|
                #![trigger final(self).object(q)]
                if texts(cs).contains(q) {
                    setting_set(old(self).object(q), final(self).object(q), key@, SettingView::Text(value@))
                } else {
                    final(self).object(q) == old(self).object(q)
                },
    {
        self.set_configurations_setting(target_name, key, value);
    }
}

/// `b` is `a` with nothing changed but (perhaps) the object under `key`.
pub open spec fn frame_except(a: Pbxproj, b: Pbxproj, key: Seq<char>) -> bool {
    &&& b.wf()
    &&& same_header(a, b)
    &&& key_seq(b.objects@) == key_seq(a.objects@)
    &&& forall|q: Seq<char>| q != key ==> #[trigger] b.object(q) == a.object(q)
}

/// `b` is `a` with `o` put under `key`, a key that it may or may not have
/// had.
pub open spec fn inserted_at(a: Pbxproj, b: Pbxproj, key: Seq<char>, o: Object) -> bool {
    &&& b.wf()
    &&& same_header(a, b)
    &&& key_seq(b.objects@) == keys_inserted(key_seq(a.objects@), key)
    &&& b.object(key) == Some(o)
    &&& forall|q: Seq<char>| q != key ==> #[trigger] b.object(q) == a.object(q)
}

impl Pbxproj {
    /// Puts `o` under `key`, as `BTreeMap::insert` does.
    pub fn insert_object(&mut self, key: String, o: Object)
        ensures
            same_header(*old(self), *final(self)),
            final(self).objects@ == map_inserted_objects(old(self).objects@, key, o),
            final(self).object(key@) == Some(o),
            forall|q: Seq<char>| q != key@ ==> #[trigger] final(self).object(q) == old(self).object(q),
            old(self).wf() ==> inserted_at(*old(self), *final(self), key@, o),
    {
        let ghost p0 = *self;
        let ghost k = key;
        map_insert(&mut self.objects, key, o);
        proof {
            lemma_map_insert_keys(p0.objects@, k, o);
            assert forall|q: Seq<char>| q != k@ implies #[trigger] self.object(q) == p0.object(q) by {
                lemma_map_insert_get(p0.objects@, k, o, q);
            }
            lemma_map_insert_get(p0.objects@, k, o, k@);
            if p0.wf() {
                lemma_map_insert_sorted(p0.objects@, k, o);
            }
        }
    }
}

/// The objects after putting `o` under `key`.
pub open spec fn map_inserted_objects(objects: Seq<(String, Object)>, key: String, o: Object) -> Seq<(String, Object)> {
    crate::sorted::map_inserted(objects, key, o)
}

/// Changing the object at an index, where the ids are in order, changes
/// nothing but what its id names.
pub proof fn lemma_replaced_frame(a: Pbxproj, b: Pbxproj, i: int, o: Object)
    requires
        replaced_at(a, b, i, o),
        a.wf(),
    ensures
        frame_except(a, b, a.objects@[i].0@),
        b.object(a.objects@[i].0@) == Some(o),
        a.object(a.objects@[i].0@) == Some(a.objects@[i].1),
{
    assert(one_changed(a, b, i));
    lemma_one_changed(a, b, i);
    lemma_wf_key(a, i);
}

impl Pbxproj {
    /// The variant group under `key`, to change.
    pub(crate) fn variant_group_mut(&mut self, key: &str) -> (res: Option<&mut VariantGroup>)
        ensures
            match key_index(*old(self), key@) {
                Some(i) => match old(self).objects@[i].1 {
                    Object::VariantGroup(g) => res matches Some(r) && *r == g && replaced_at(
                        *old(self),
                        *final(self),
                        i,
                        Object::VariantGroup(*final(r)),
                    ),
                    _ => res is None && *final(self) == *old(self),
                },
                None => res is None && *final(self) == *old(self),
            },
    {
        match self.key_position(key) {
            Some(i) => {
                let is_it = match &self.objects[i].1 {
                    Object::VariantGroup(_) => true,
                    _ => false,
                };
                if is_it {
                    match &mut self.objects[i].1 {
                        Object::VariantGroup(g) => Some(g),
                        _ => None,
                    }
                } else {
                    None
                }
            },
            None => None,
        }
    }

    /// The resources phase under `key`, to change.
    pub(crate) fn resources_phase_mut(&mut self, key: &str) -> (res: Option<&mut ResourcesBuildPhase>)
        ensures
            match key_index(*old(self), key@) {
                Some(i) => match old(self).objects@[i].1 {
                    Object::ResourcesBuildPhase(g) => res matches Some(r) && *r == g && replaced_at(
                        *old(self),
                        *final(self),
                        i,
                        Object::ResourcesBuildPhase(*final(r)),
                    ),
                    _ => res is None && *final(self) == *old(self),
                },
                None => res is None && *final(self) == *old(self),
            },
    {
        match self.key_position(key) {
            Some(i) => {
                let is_it = match &self.objects[i].1 {
                    Object::ResourcesBuildPhase(_) => true,
                    _ => false,
                };
                if is_it {
                    match &mut self.objects[i].1 {
                        Object::ResourcesBuildPhase(g) => Some(g),
                        _ => None,
                    }
                } else {
                    None
                }
            },
            None => None,
        }
    }

    /// The native target under `key`, to change.
    pub(crate) fn native_target_mut(&mut self, key: &str) -> (res: Option<&mut NativeTarget>)
        ensures
            match key_index(*old(self), key@) {
                Some(i) => match old(self).objects@[i].1 {
                    Object::NativeTarget(g) => res matches Some(r) && *r == g && replaced_at(
                        *old(self),
                        *final(self),
                        i,
                        Object::NativeTarget(*final(r)),
                    ),
                    _ => res is None && *final(self) == *old(self),
                },
                None => res is None && *final(self) == *old(self),
            },
    {
        match self.key_position(key) {
            Some(i) => {
                let is_it = match &self.objects[i].1 {
                    Object::NativeTarget(_) => true,
                    _ => false,
                };
                if is_it {
                    match &mut self.objects[i].1 {
                        Object::NativeTarget(g) => Some(g),
                        _ => None,
                    }
                } else {
                    None
                }
            },
            None => None,
        }
    }
}

/// The text after the last `/` of a path: its file name.
pub open spec fn file_name_text(s: Seq<char>) -> Seq<char>
    decreases s.len(),
{
    if s.len() == 0 {
        s
    } else if s.last() == '/' {
        seq![]
    } else {
        file_name_text(s.drop_last()).push(s.last())
    }
}

/// A path whose last component is a file name: not empty, not `.` or `..`.
pub open spec fn names_a_file(s: Seq<char>) -> bool {
    let n = file_name_text(s);
    n.len() > 0 && n != "."@ && n != ".."@
}

/// Whether the last component of a path names a file, computed.
pub fn names_a_file_path(s: &str) -> (res: bool)
    ensures
        res == names_a_file(s@),
{
    let n = file_name_of(s);
    proof {
        reveal_strlit("");
        if n@.len() == 0 {
            assert(n@ =~= ""@);
        }
    }
    !str_eq(n.as_str(), "") && !str_eq(n.as_str(), ".") && !str_eq(n.as_str(), "..")
}

fn file_name_of(s: &str) -> (res: String)
    ensures
        res@ == file_name_text(s@),
{
    let chars = chars_of(s);
    let mut start: usize = chars.len();
    assert(chars@.take(start as int) =~= chars@);
    assert(chars@.skip(start as int) =~= Seq::<char>::empty());
    assert(file_name_text(s@) =~= file_name_text(chars@.take(start as int)) + chars@.skip(start as int));
    while start > 0 && chars[start - 1] != '/'
        invariant
            start <= chars.len(),
            chars@ == s@,
            file_name_text(s@) == file_name_text(chars@.take(start as int)) + chars@.skip(start as int),
        decreases start,
    {
        assert(chars@.take(start as int).drop_last() =~= chars@.take(start - 1));
        assert(chars@.skip(start - 1) =~= seq![chars@[start - 1]] + chars@.skip(start as int));
        start = start - 1;
    }
    if start > 0 {
        assert(chars@.take(start as int).last() == '/');
    }
    assert(file_name_text(chars@.take(start as int)) =~= seq![]);
    let mut out = String::new();
    let mut i: usize = start;
    while i < chars.len()
        invariant
            start <= i <= chars.len(),
            out@ == chars@.subrange(start as int, i as int),
        decreases chars.len() - i,
    {
        push_char(&mut out, chars[i]);
        i = i + 1;
        assert(out@ =~= chars@.subrange(start as int, i as int));
    }
    assert(chars@.subrange(start as int, chars.len() as int) =~= chars@.skip(start as int));
    out
}

/// The file reference of a property list at `path`, named by its file name.
pub open spec fn is_plist_file_reference(o: Object, path: Seq<char>) -> bool {
    &&& o matches Object::FileReference(f)
    &&& f.last_known_file_type matches Some(t) && t@ == "text.plist.xml"@
    &&& f.name matches Some(n) && n@ == file_name_text(path)
    &&& f.path@ == path
    &&& f.source_tree@ == "<group>"@
    &&& f.file_encoding is None
    &&& f.include_in_index is None
    &&& f.explicit_file_type is None
}

/// The file reference of a localized file `<locale>.lproj/<file_name>` of
/// type `file_type`, named by its locale.
pub open spec fn is_locale_file_reference(o: Object, file_type: Seq<char>, locale: Seq<char>, file_name: Seq<char>) -> bool {
    &&& o matches Object::FileReference(f)
    &&& f.last_known_file_type matches Some(t) && t@ == file_type
    &&& f.name matches Some(n) && n@ == locale
    &&& f.path@ == locale + ".lproj/"@ + file_name
    &&& f.source_tree@ == "<group>"@
    &&& f.file_encoding is None
    &&& f.include_in_index is None
    &&& f.explicit_file_type is None
}

pub(crate) fn locale_file_reference(file_type: &str, locale_name: &str, file_name: &str) -> (o: Object)
    ensures
        is_locale_file_reference(o, file_type@, locale_name@, file_name@),
{
    let mut path = locale_name.to_string();
    path.append(".lproj/");
    path.append(file_name);
    Object::FileReference(
        FileReference {
            last_known_file_type: Some(file_type.to_string()),
            name: Some(locale_name.to_string()),
            path: path,
            source_tree: "<group>".to_string(),
            file_encoding: None,
            include_in_index: None,
            explicit_file_type: None,
        },
    )
}

/// A new variant group of `children`, with `name` and `path`.
pub open spec fn is_new_variant_group(o: Object, children: Vec<String>, name: Option<String>, path: Option<String>) -> bool {
    &&& o matches Object::VariantGroup(g)
    &&& g.children == children
    &&& g.name == name
    &&& g.path == path
    &&& g.source_tree@ == "<group>"@
}

/// A new build file of `file_ref`, without settings.
pub open spec fn is_new_build_file(o: Object, file_ref: String) -> bool {
    o matches Object::BuildFile(b) && b.file_ref == file_ref && b.settings is None
}

impl Pbxproj {
    /// Adds the file reference of the property list at `relative_plist_path`
    /// (whose last component must name a file) under a new random id, and
    /// gives the id.
    pub fn create_plist_file(&mut self, relative_plist_path: &str) -> (res: ObjectId)
        requires
            names_a_file(relative_plist_path@),
        ensures
            is_object_id(res.0@),
            same_header(*old(self), *final(self)),
            final(self).object(res.0@) matches Some(o) && is_plist_file_reference(o, relative_plist_path@),
            final(self).objects@ == map_inserted_objects(old(self).objects@, res.0, final(self).object(res.0@)->Some_0),
            forall|q: Seq<char>| q != res.0@ ==> #[trigger] final(self).object(q) == old(self).object(q),
            old(self).wf() ==> inserted_at(*old(self), *final(self), res.0@, final(self).object(res.0@)->Some_0),
    {
        let object = ObjectId::new_random();
        let o = Object::FileReference(
            FileReference {
                last_known_file_type: Some("text.plist.xml".to_string()),
                name: Some(file_name_of(relative_plist_path)),
                path: relative_plist_path.to_string(),
                source_tree: "<group>".to_string(),
                file_encoding: None,
                include_in_index: None,
                explicit_file_type: None,
            },
        );
        self.insert_object(object.0.clone(), o);
        object
    }

    /// Adds the file reference of `<locale_name>.lproj/<file_name>` of type
    /// `file_type` under a new random id, and gives the id.
    pub fn create_file_reference(&mut self, file_type: &str, locale_name: &str, file_name: &str) -> (res: ObjectId)
        ensures
            is_object_id(res.0@),
            same_header(*old(self), *final(self)),
            final(self).object(res.0@) matches Some(o) && is_locale_file_reference(
                o,
                file_type@,
                locale_name@,
                file_name@,
            ),
            final(self).objects@ == map_inserted_objects(old(self).objects@, res.0, final(self).object(res.0@)->Some_0),
            forall|q: Seq<char>| q != res.0@ ==> #[trigger] final(self).object(q) == old(self).object(q),
            old(self).wf() ==> inserted_at(*old(self), *final(self), res.0@, final(self).object(res.0@)->Some_0),
    {
        let object_id = ObjectId::new_random();
        self.insert_object(object_id.0.clone(), locale_file_reference(file_type, locale_name, file_name));
        object_id
    }

    /// Adds a variant group of `children`, with `name` and `path`, under a
    /// new random id, and gives the id.
    pub fn create_variant_group(&mut self, children: Vec<String>, name: Option<String>, path: Option<String>) -> (res: ObjectId)
        ensures
            is_object_id(res.0@),
            same_header(*old(self), *final(self)),
            final(self).object(res.0@) matches Some(o) && is_new_variant_group(o, children, name, path),
            final(self).objects@ == map_inserted_objects(old(self).objects@, res.0, final(self).object(res.0@)->Some_0),
            forall|q: Seq<char>| q != res.0@ ==> #[trigger] final(self).object(q) == old(self).object(q),
            old(self).wf() ==> inserted_at(*old(self), *final(self), res.0@, final(self).object(res.0@)->Some_0),
    {
        let object_id = ObjectId::new_random();
        let variant_group = VariantGroup {
            children: children,
            source_tree: "<group>".to_string(),
            name: name,
            path: path,
        };
        self.insert_object(object_id.0.clone(), Object::VariantGroup(variant_group));
        object_id
    }

    /// Adds a build file of `file_ref` under a new random id, and gives the
    /// id.
    pub fn create_build_file(&mut self, file_ref: &String) -> (res: ObjectId)
        ensures
            is_object_id(res.0@),
            same_header(*old(self), *final(self)),
            final(self).object(res.0@) matches Some(o) && is_new_build_file(o, *file_ref),
            final(self).objects@ == map_inserted_objects(old(self).objects@, res.0, final(self).object(res.0@)->Some_0),
            forall|q: Seq<char>| q != res.0@ ==> #[trigger] final(self).object(q) == old(self).object(q),
            old(self).wf() ==> inserted_at(*old(self), *final(self), res.0@, final(self).object(res.0@)->Some_0),
    {
        let object_id = ObjectId::new_random();
        let build_file = BuildFile { file_ref: file_ref.clone(), settings: None };
        self.insert_object(object_id.0.clone(), Object::BuildFile(build_file));
        object_id
    }
}

/// The object under a key is at the index of that key.
pub proof fn lemma_object_at_key(p: Pbxproj, key: Seq<char>)
    ensures
        p.object(key) matches Some(o) ==> key_index(p, key) matches Some(i) && 0 <= i
            < p.objects@.len() && p.objects@[i].1 == o && p.objects@[i].0@ == key,
        p.object(key) is None ==> key_index(p, key) is None,
{
    lemma_index_from(key_seq(p.objects@), key, 0);
}

impl Pbxproj {
    /// The id of the resources phase of the first target named
    /// `target_name` (see `resources_phase_index`).
    pub fn resources_phase_key(&self, target_name: &str) -> (res: Option<String>)
        ensures
            match resources_phase_index(self.objects@, target_name@) {
                Some(i) => res matches Some(k) && k@ == self.objects@[i].0@ && 0 <= i < self.objects@.len(),
                None => res is None,
            },
    {
        proof {
            lemma_first_object_from(self.objects@, target_named(target_name@), 0);
        }
        let mut the_id: Option<String> = None;
        if let Some(target) = self.native_target_by_name(target_name) {
            if let Some(id) = self.last_resources_phase_id(&target.build_phases) {
                the_id = Some(id.clone());
            }
        }
        match the_id {
            Some(id) => {
                proof {
                    lemma_first_object_from(self.objects@, resources_phase_keyed(id@), 0);
                }
                match find_object(&self.objects, &ObjectQuery::ResourcesPhaseKeyed(id.as_str())) {
                    Some(i) => Some(self.objects[i].0.clone()),
                    None => None,
                }
            },
            None => None,
        }
    }
}

impl Pbxproj {
    /// Whether an object is under `key`.
    pub fn key_position_of(&self, key: &str) -> (res: bool)
        ensures
            res == (self.object(key@) is Some),
    {
        match self.key_position(key) {
            Some(_) => true,
            None => false,
        }
    }
}

impl Pbxproj {
    /// Whether the objects are kept in strictly increasing order of their ids,
    /// computed.
    pub fn is_well_formed(&self) -> (res: bool)
        ensures
            res == self.wf(),
    {
        keys_sorted(&self.objects)
    }

    /// Whether the root object is a project whose main group is there,
    /// computed.
    pub fn has_main_group(&self) -> (res: bool)
        ensures
            res == (self.project_spec() matches Some(p) && self.group_spec(p.main_group@) is Some),
    {
        match self.project() {
            Some(p) => self.group(p.main_group.as_str()).is_some(),
            None => false,
        }
    }

    /// Whether each of `ids` is the id of a build configuration, computed.
    pub fn configurations_present(&self, ids: &Vec<String>) -> (res: bool)
        ensures
            res == forall|j: int|
                0 <= j < ids.len() ==> (self.object(#[trigger] ids@[j]@) matches Some(Object::BuildConfiguration(_))),
    {
        let mut j: usize = 0;
        while j < ids.len()
            invariant
                j <= ids.len(),
                forall|k: int|
                    0 <= k < j ==> (self.object(#[trigger] ids@[k]@) matches Some(Object::BuildConfiguration(_))),
            decreases ids.len() - j,
        {
            match self.key_position(ids[j].as_str()) {
                Some(i) => match &self.objects[i].1 {
                    Object::BuildConfiguration(_) => {},
                    _ => {
                        return false;
                    },
                },
                None => {
                    return false;
                },
            }
            j = j + 1;
        }
        true
    }

    /// Whether the first target named `target_name` has a configuration list
    /// whose every entry is a build configuration, computed.
    pub fn configurations_are_ready(&self, target_name: &str) -> (res: bool)
        ensures
            res == configurations_ready(*self, target_name@),
    {
        let target = match self.native_target_by_name(target_name) {
            Some(t) => t,
            None => {
                return false;
            },
        };
        let list = match self.configuration_list_by_id(target.build_configuration_list.as_str()) {
            Some(l) => l,
            None => {
                return false;
            },
        };
        self.configurations_present(&list.build_configurations)
    }
}

} // verus!
