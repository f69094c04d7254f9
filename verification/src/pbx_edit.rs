//! The edits that link a keyboard extension into the hosting app's target:
//! embedding its product, and taking it out again.

use vstd::prelude::*;

use crate::pbx_project::{
    copy_strings, find_object, ObjectQuery, build_file_named, copy_phase_keyed, file_reference_at, first_object, first_object_from,
    key_index, lemma_first_object_from, lemma_keyed_search, lemma_one_changed, lemma_wf_key,
    is_object_id, one_changed, same_header, target_named, with_copy_files, with_dependencies, BuildFile,
    Object, ObjectId, Pbxproj, PlistValue,
};
use crate::pbxproj::CopyFilesBuildPhase;
use crate::sorted::{
    key_seq, keys_inserted, lemma_map_insert_keys, lemma_map_insert_get, lemma_map_insert_sorted, map_insert, map_inserted, set_insert,
    set_inserted, set_remove, set_removed,
};
use crate::text::{concat_text, str_eq, texts};

verus! {

/// The copy-files phase under `id`.
pub open spec fn copy_phase_at(objects: Seq<(String, Object)>, id: Seq<char>) -> Option<CopyFilesBuildPhase> {
    match first_object(objects, copy_phase_keyed(id)) {
        Some(k) => match objects[k].1 {
            Object::CopyFilesBuildPhase(c) => Some(c),
            _ => None,
        },
        None => None,
    }
}

/// The name of a phase that embeds app extensions.
pub open spec fn is_embed_name(n: Seq<char>) -> bool {
    n == "Embed App Extensions"@ || n == "Embed Foundation Extensions"@
}

/// The index of the first of `phases`, from `j` on, that names a copy-files
/// phase named as one that embeds app extensions.
pub open spec fn embed_phase_from(objects: Seq<(String, Object)>, phases: Seq<String>, j: int) -> Option<int>
    decreases phases.len() - j,
{
    if j < 0 || j >= phases.len() {
        None
    } else if copy_phase_at(objects, phases[j]@) matches Some(c) && c.name matches Some(n) && is_embed_name(
        n@,
    ) {
        Some(j)
    } else {
        embed_phase_from(objects, phases, j + 1)
    }
}

/// Where the walk over `phases` stops: at the first embedding phase, or at
/// the end.
pub open spec fn embed_stop(objects: Seq<(String, Object)>, phases: Seq<String>) -> int {
    match embed_phase_from(objects, phases, 0) {
        Some(e) => e,
        None => phases.len() as int,
    }
}

/// Every copy-files phase among the first `upto` of `phases` has a name.
pub open spec fn phases_named_before(objects: Seq<(String, Object)>, phases: Seq<String>, upto: int) -> bool {
    forall|j: int|
        0 <= j < upto && j < phases.len() ==> (copy_phase_at(objects, #[trigger] phases[j]@) matches Some(
            c,
        ) ==> c.name is Some)
}

proof fn lemma_embed_phase_from(objects: Seq<(String, Object)>, phases: Seq<String>, j: int)
    requires
        0 <= j <= phases.len(),
    ensures
        embed_phase_from(objects, phases, j) matches Some(e) ==> j <= e < phases.len() && (
        copy_phase_at(objects, phases[e]@) matches Some(c) && c.name matches Some(n) && is_embed_name(
            n@,
        )),
        forall|k: int|
            j <= k < phases.len() && (embed_phase_from(objects, phases, j) matches Some(e) ==> k < e)
                ==> !(copy_phase_at(objects, #[trigger] phases[k]@) matches Some(c) && c.name matches Some(
                n,
            ) && is_embed_name(n@)),
    decreases phases.len() - j,
{
    if j < phases.len() {
        lemma_embed_phase_from(objects, phases, j + 1);
    }
}

/// A search for objects that the changed one neither was nor is finds what
/// it found before.
pub proof fn lemma_search_unaffected(a: Pbxproj, b: Pbxproj, i: int, pred: spec_fn(Seq<char>, Object) -> bool)
    requires
        one_changed(a, b, i),
        !pred(a.objects@[i].0@, a.objects@[i].1),
        !pred(a.objects@[i].0@, b.objects@[i].1),
    ensures
        first_object(b.objects@, pred) == first_object(a.objects@, pred),
{
    assert forall|j: int| 0 <= j <= a.objects@.len() implies #[trigger] first_object_from(
        b.objects@,
        pred,
        j,
    ) == first_object_from(a.objects@, pred, j) by {
        lemma_search_unaffected_from(a, b, i, pred, j);
    }
}

proof fn lemma_search_unaffected_from(
    a: Pbxproj,
    b: Pbxproj,
    i: int,
    pred: spec_fn(Seq<char>, Object) -> bool,
    j: int,
)
    requires
        one_changed(a, b, i),
        !pred(a.objects@[i].0@, a.objects@[i].1),
        !pred(a.objects@[i].0@, b.objects@[i].1),
        0 <= j <= a.objects@.len(),
    ensures
        first_object_from(b.objects@, pred, j) == first_object_from(a.objects@, pred, j),
    decreases a.objects@.len() - j,
{
    if j < a.objects@.len() {
        lemma_search_unaffected_from(a, b, i, pred, j + 1);
    }
}

/// `b` is `a` with the extension's product taken out of the first target
/// named `target`: the file reference at `appex` leaves the target's
/// dependencies, and the build file of that name leaves the files of its
/// first embedding phase, where it has one.
pub open spec fn appex_removed(a: Pbxproj, b: Pbxproj, target: Seq<char>, appex: Seq<char>) -> bool {
    &&& b.wf()
    &&& same_header(a, b)
    &&& key_seq(b.objects@) == key_seq(a.objects@)
    &&& first_object(a.objects@, file_reference_at(appex)) matches Some(f)
    &&& first_object(a.objects@, build_file_named(a.objects@, appex)) matches Some(bf)
    &&& first_object(a.objects@, target_named(target)) matches Some(t)
    &&& a.objects@[t].1 matches Object::NativeTarget(tg)
    &&& b.object(a.objects@[t].0@) matches Some(o) && with_dependencies(
        a.objects@[t].1,
        o,
        set_removed(tg.dependencies@, a.objects@[f].0@),
    )
    &&& match embed_phase_from(a.objects@, tg.build_phases@, 0) {
        Some(e) => {
            let pid = tg.build_phases@[e]@;
            &&& b.object(pid) matches Some(o) && with_copy_files(
                Object::CopyFilesBuildPhase(copy_phase_at(a.objects@, pid)->Some_0),
                o,
                set_removed(copy_phase_at(a.objects@, pid)->Some_0.files@, a.objects@[bf].0@),
            )
            &&& forall|q: Seq<char>|
                q != a.objects@[t].0@ && q != pid ==> #[trigger] b.object(q) == a.object(q)
        },
        None => forall|q: Seq<char>| q != a.objects@[t].0@ ==> #[trigger] b.object(q) == a.object(q),
    }
}

proof fn lemma_embed_same(a: Seq<(String, Object)>, b: Seq<(String, Object)>, phases: Seq<String>, j: int)
    requires
        forall|x: Seq<char>| #[trigger] copy_phase_at(b, x) == copy_phase_at(a, x),
        0 <= j <= phases.len(),
    ensures
        embed_phase_from(b, phases, j) == embed_phase_from(a, phases, j),
    decreases phases.len() - j,
{
    if j < phases.len() {
        assert(copy_phase_at(b, phases[j]@) == copy_phase_at(a, phases[j]@));
        lemma_embed_same(a, b, phases, j + 1);
    }
}

/// A change to one object that is not a copy-files phase, before or after,
/// leaves every copy-files phase as it was.
proof fn lemma_copy_phases_unaffected(a: Pbxproj, b: Pbxproj, i: int)
    requires
        one_changed(a, b, i),
        !(a.objects@[i].1 is CopyFilesBuildPhase),
        !(b.objects@[i].1 is CopyFilesBuildPhase),
    ensures
        forall|x: Seq<char>| #[trigger] copy_phase_at(b.objects@, x) == copy_phase_at(a.objects@, x),
{
    assert forall|x: Seq<char>| #[trigger] copy_phase_at(b.objects@, x) == copy_phase_at(a.objects@, x) by {
        lemma_search_unaffected(a, b, i, copy_phase_keyed(x));
        lemma_first_object_from(a.objects@, copy_phase_keyed(x), 0);
    }
}

fn is_embed_phase_name(n: &str) -> (res: bool)
    ensures
        res == is_embed_name(n@),
{
    str_eq(n, "Embed App Extensions") || str_eq(n, "Embed Foundation Extensions")
}

impl Pbxproj {
    /// The copy-files phase under `id`.
    fn copy_phase(&self, id: &str) -> (res: Option<&CopyFilesBuildPhase>)
        ensures
            match copy_phase_at(self.objects@, id@) {
                Some(c) => res == Some(&c),
                None => res is None,
            },
    {
        proof {
            lemma_first_object_from(self.objects@, copy_phase_keyed(id@), 0);
        }
        match find_object(&self.objects, &ObjectQuery::CopyPhaseKeyed(id)) {
            Some(i) => match &self.objects[i].1 {
                Object::CopyFilesBuildPhase(c) => Some(c),
                _ => None,
            },
            None => None,
        }
    }

    /// Takes the extension whose product is `<appex_path>.appex` out of the
    /// first target named `target_path`: out of its dependencies, and out of
    /// the files of its first phase that embeds app extensions. The file
    /// reference, the build file and the target must be there, and each
    /// copy-files phase of the target before that phase must have a name.
    pub fn remove_appex_from_target_embedded_binaries(&mut self, target_path: &str, appex_path: &str)
        requires
            old(self).wf(),
            first_object(old(self).objects@, file_reference_at(appex_path@ + ".appex"@)) is Some,
            first_object(old(self).objects@, build_file_named(old(self).objects@, appex_path@ + ".appex"@))
                is Some,
            first_object(old(self).objects@, target_named(target_path@)) matches Some(t) && old(
                self,
            ).objects@[t].1 matches Object::NativeTarget(tg) && phases_named_before(
                old(self).objects@,
                tg.build_phases@,
                embed_stop(old(self).objects@, tg.build_phases@),
            ),
        ensures
            appex_removed(*old(self), *final(self), target_path@, appex_path@ + ".appex"@),
    {
        let ghost p0 = *self;
        let appex = concat_text(appex_path, ".appex");
        proof {
            lemma_first_object_from(p0.objects@, file_reference_at(appex@), 0);
            lemma_first_object_from(p0.objects@, build_file_named(p0.objects@, appex@), 0);
            lemma_first_object_from(p0.objects@, target_named(target_path@), 0);
        }
        let appex_id = self.file_reference_id_by_path(appex.as_str()).unwrap().clone();
        let build_file_id = self.build_file_id_by_file_ref_name(appex.as_str()).unwrap().clone();
        let ghost t = first_object(p0.objects@, target_named(target_path@))->Some_0;
        let ghost tg = p0.objects@[t].1->NativeTarget_0;
        let phases = {
            let target = self.native_target_by_name_mut(target_path).unwrap();
            set_remove(&mut target.dependencies, appex_id.as_str());
            copy_strings(&target.build_phases)
        };
        let ghost p1 = *self;
        let ghost key_t = p0.objects@[t].0@;
        proof {
            assert(one_changed(p0, p1, t));
            lemma_one_changed(p0, p1, t);
            lemma_wf_key(p0, t);
            lemma_copy_phases_unaffected(p0, p1, t);
            lemma_embed_same(p0.objects@, p1.objects@, phases@, 0);
            lemma_embed_phase_from(p0.objects@, phases@, 0);
        }
        let found = self.find_embed_phase(&phases, Ghost(p0));
        match found {
            Some(j) => {
                let id = phases[j].as_str();
                let ghost pid = id@;
                proof {
                    lemma_embed_phase_from(p0.objects@, phases@, 0);
                    assert(pid == phases@[j as int]@);
                    assert(copy_phase_at(p1.objects@, pid) == copy_phase_at(p0.objects@, pid));
                    assert(copy_phase_at(p0.objects@, pid) is Some);
                    lemma_keyed_search(p1, copy_phase_keyed(pid), pid);
                    lemma_first_object_from(p1.objects@, copy_phase_keyed(pid), 0);
                }
                let phase = self.copy_file_build_phase_by_id_mut(id).unwrap();
                set_remove(&mut phase.files, build_file_id.as_str());
                proof {
                    let k = key_index(p1, pid)->Some_0;
                    assert(one_changed(p1, *self, k));
                    lemma_one_changed(p1, *self, k);
                    assert(pid != key_t);
                    assert(self.object(key_t) == p1.object(key_t));
                }
            },
            None => {},
        }
    }

    /// The index of the first of `phases` that names a copy-files phase that
    /// embeds app extensions; every copy-files phase before it must have a
    /// name.
    fn find_embed_phase(&self, phases: &Vec<String>, Ghost(p0): Ghost<Pbxproj>) -> (res: Option<usize>)
        requires
            forall|x: Seq<char>| #[trigger] copy_phase_at(self.objects@, x) == copy_phase_at(p0.objects@, x),
            phases_named_before(p0.objects@, phases@, embed_stop(p0.objects@, phases@)),
        ensures
            res matches Some(j) ==> embed_phase_from(p0.objects@, phases@, 0) == Some(j as int) && j
                < phases.len(),
            res is None ==> embed_phase_from(p0.objects@, phases@, 0) is None,
    {
        proof {
            lemma_embed_phase_from(p0.objects@, phases@, 0);
        }
        let mut j: usize = 0;
        while j < phases.len()
            invariant
                j <= phases.len(),
                forall|x: Seq<char>| #[trigger] copy_phase_at(self.objects@, x) == copy_phase_at(p0.objects@, x),
                phases_named_before(p0.objects@, phases@, embed_stop(p0.objects@, phases@)),
                embed_phase_from(p0.objects@, phases@, j as int) == embed_phase_from(p0.objects@, phases@, 0),
                embed_phase_from(p0.objects@, phases@, 0) matches Some(e) ==> j <= e,
            decreases phases.len() - j,
        {
            let id = phases[j].as_str();
            let mut embed = false;
            proof {
                lemma_embed_phase_from(p0.objects@, phases@, j as int);
                match embed_phase_from(p0.objects@, phases@, 0) {
                    Some(e) => {
                        if j < e {
                            assert(j < embed_stop(p0.objects@, phases@));
                        }
                    },
                    None => {
                        assert(j < embed_stop(p0.objects@, phases@));
                    },
                }
                assert(copy_phase_at(p0.objects@, phases@[j as int]@) matches Some(c) ==> c.name is Some);
            }
            if let Some(c) = self.copy_phase(id) {
                let name = c.name.as_ref().unwrap();
                embed = is_embed_phase_name(name.as_str());
            }
            if embed {
                assert(embed_phase_from(p0.objects@, phases@, j as int) == Some(j as int));
                return Some(j);
            }
            j = j + 1;
        }
        None
    }
}

/// The build file that embeds an extension's product: it refers to
/// `file_ref` and copies it without its headers.
pub open spec fn is_embed_build_file(o: Object, file_ref: Seq<char>) -> bool {
    &&& o matches Object::BuildFile(b)
    &&& b.file_ref@ == file_ref
    &&& b.settings matches Some(entries)
    &&& entries@.len() == 1
    &&& entries@[0].0@ == "ATTRIBUTES"@
    &&& entries@[0].1 matches PlistValue::List(items)
    &&& texts(items@) == seq!["RemoveHeadersOnCopy"@]
}

/// `b` is `a` with the extension's product, the file reference at `appex`,
/// embedded in the first target named `target`: a build file under `id`
/// that refers to it joins the files of the target's first embedding phase,
/// where it has one; otherwise nothing changes.
pub open spec fn appex_added(a: Pbxproj, b: Pbxproj, target: Seq<char>, appex: Seq<char>, id: String) -> bool {
    &&& first_object(a.objects@, file_reference_at(appex)) matches Some(f)
    &&& first_object(a.objects@, target_named(target)) matches Some(t)
    &&& a.objects@[t].1 matches Object::NativeTarget(tg)
    &&& match embed_phase_from(a.objects@, tg.build_phases@, 0) {
        Some(e) => {
            let pid = tg.build_phases@[e]@;
            &&& b.wf()
            &&& same_header(a, b)
            &&& key_seq(b.objects@) == keys_inserted(key_seq(a.objects@), id@)
            &&& b.object(id@) matches Some(o) && is_embed_build_file(o, a.objects@[f].0@)
            &&& pid != id@ ==> (b.object(pid) matches Some(o) && with_copy_files(
                Object::CopyFilesBuildPhase(copy_phase_at(a.objects@, pid)->Some_0),
                o,
                set_inserted(copy_phase_at(a.objects@, pid)->Some_0.files@, id),
            ))
            &&& forall|q: Seq<char>| q != id@ && q != pid ==> #[trigger] b.object(q) == a.object(q)
        },
        None => b == a,
    }
}

fn embed_settings() -> (res: Vec<(String, PlistValue)>)
    ensures
        res@.len() == 1,
        res@[0].0@ == "ATTRIBUTES"@,
        res@[0].1 matches PlistValue::List(items) && texts(items@) == seq!["RemoveHeadersOnCopy"@],
{
    let mut items: Vec<String> = Vec::new();
    items.push("RemoveHeadersOnCopy".to_string());
    let mut settings: Vec<(String, PlistValue)> = Vec::new();
    settings.push(("ATTRIBUTES".to_string(), PlistValue::List(items)));
    assert(texts(items@) =~= seq!["RemoveHeadersOnCopy"@]);
    settings
}

impl Pbxproj {
    /// Embeds the extension whose product is `<appex_path>.appex` in the
    /// first target named `target_path`, with a build file under
    /// `build_file_id` (see `appex_added`). The file reference and the target
    /// must be there, and each copy-files phase of the target before its
    /// first embedding phase must have a name.
    pub fn add_appex_with_build_file_id(
        &mut self,
        target_path: &str,
        appex_path: &str,
        build_file_id: ObjectId,
    )
        requires
            old(self).wf(),
            first_object(old(self).objects@, file_reference_at(appex_path@ + ".appex"@)) is Some,
            first_object(old(self).objects@, target_named(target_path@)) matches Some(t) && old(
                self,
            ).objects@[t].1 matches Object::NativeTarget(tg) && phases_named_before(
                old(self).objects@,
                tg.build_phases@,
                embed_stop(old(self).objects@, tg.build_phases@),
            ),
        ensures
            appex_added(*old(self), *final(self), target_path@, appex_path@ + ".appex"@, build_file_id.0),
    {
        let ghost p0 = *self;
        let appex = concat_text(appex_path, ".appex");
        proof {
            lemma_first_object_from(p0.objects@, file_reference_at(appex@), 0);
            lemma_first_object_from(p0.objects@, target_named(target_path@), 0);
        }
        let appex_id = self.file_reference_id_by_path(appex.as_str()).unwrap().clone();
        let phases = copy_strings(&self.native_target_by_name(target_path).unwrap().build_phases);
        let found = self.find_embed_phase(&phases, Ghost(p0));
        match found {
            Some(j) => {
                let id = phases[j].as_str();
                let ghost pid = id@;
                proof {
                    lemma_embed_phase_from(p0.objects@, phases@, 0);
                    assert(copy_phase_at(p0.objects@, pid) is Some);
                    lemma_keyed_search(p0, copy_phase_keyed(pid), pid);
                    lemma_first_object_from(p0.objects@, copy_phase_keyed(pid), 0);
                }
                let phase = self.copy_file_build_phase_by_id_mut(id).unwrap();
                set_insert(&mut phase.files, build_file_id.0.clone());
                let ghost p1 = *self;
                proof {
                    let k = key_index(p0, pid)->Some_0;
                    assert(one_changed(p0, p1, k));
                    lemma_one_changed(p0, p1, k);
                }
                let build_file = BuildFile { settings: Some(embed_settings()), file_ref: appex_id };
                let ghost bf = Object::BuildFile(build_file);
                map_insert(&mut self.objects, build_file_id.0, Object::BuildFile(build_file));
                proof {
                    lemma_map_insert_sorted(p1.objects@, build_file_id.0, bf);
                    lemma_map_insert_keys(p1.objects@, build_file_id.0, bf);
                    assert forall|q: Seq<char>| #[trigger] self.object(q) == if q == build_file_id.0@ {
                        Some(bf)
                    } else {
                        p1.object(q)
                    } by {
                        lemma_map_insert_get(p1.objects@, build_file_id.0, bf, q);
                    }
                    assert(key_seq(p1.objects@) == key_seq(p0.objects@));
                }
            },
            None => {},
        }
    }

    /// Embeds the extension whose product is `<appex_path>.appex` in the
    /// first target named `target_path`, with a build file under a new random
    /// id (see `appex_added`). The file reference and the target must be
    /// there, and each copy-files phase of the target before its first
    /// embedding phase must have a name.
    pub fn add_appex_to_target_embedded_binaries(&mut self, target_path: &str, appex_path: &str)
        requires
            old(self).wf(),
            first_object(old(self).objects@, file_reference_at(appex_path@ + ".appex"@)) is Some,
            first_object(old(self).objects@, target_named(target_path@)) matches Some(t) && old(
                self,
            ).objects@[t].1 matches Object::NativeTarget(tg) && phases_named_before(
                old(self).objects@,
                tg.build_phases@,
                embed_stop(old(self).objects@, tg.build_phases@),
            ),
        ensures
            exists|id: String|
                #[trigger] is_object_id(id@) && appex_added(
                    *old(self),
                    *final(self),
                    target_path@,
                    appex_path@ + ".appex"@,
                    id,
                ),
    {
        let id = ObjectId::new_random();
        let ghost text = id.0;
        self.add_appex_with_build_file_id(target_path, appex_path, id);
        assert(is_object_id(text@));
    }
}

impl Pbxproj {
    /// Whether the first target named `target_path` is a native target whose
    /// copy-files phases before its first embedding phase all have a name,
    /// computed.
    pub fn embedding_is_ready(&self, target_path: &str) -> (res: bool)
        ensures
            res == (first_object(self.objects@, target_named(target_path@)) matches Some(t)
                && self.objects@[t].1 matches Object::NativeTarget(tg) && phases_named_before(
                self.objects@,
                tg.build_phases@,
                embed_stop(self.objects@, tg.build_phases@),
            )),
    {
        let tg = match self.native_target_by_name(target_path) {
            Some(t) => t,
            None => {
                return false;
            },
        };
        let phases = &tg.build_phases;
        let ghost objects = self.objects@;
        let mut j: usize = 0;
        while j < phases.len()
            invariant
                j <= phases.len(),
                objects == self.objects@,
                first_object(objects, target_named(target_path@)) matches Some(t) && objects[t].1
                    == Object::NativeTarget(*tg),
                *phases == tg.build_phases,
                embed_phase_from(objects, phases@, j as int) == embed_phase_from(objects, phases@, 0),
                forall|k: int|
                    0 <= k < j ==> (copy_phase_at(objects, #[trigger] phases@[k]@) matches Some(c) ==> c.name is Some),
            decreases phases.len() - j,
        {
            proof {
                lemma_embed_phase_from(objects, phases@, j + 1);
            }
            match self.copy_phase(phases[j].as_str()) {
                Some(c) => match &c.name {
                    Some(n) => {
                        if is_embed_phase_name(n.as_str()) {
                            assert(embed_stop(objects, phases@) == j);
                            return true;
                        }
                    },
                    None => {
                        assert(j < embed_stop(objects, phases@));
                        return false;
                    },
                },
                None => {},
            }
            j = j + 1;
        }
        true
    }
}

} // verus!
