//! The edit that gives the hosting app its localized `InfoPlist.strings`:
//! the regions, a file reference per locale, a variant group of them, and a
//! build file of the group in the app's resources.

use vstd::prelude::*;

use crate::pbx_project::{
    copy_strings, frame_except, inserted_at, is_locale_file_reference, is_new_build_file,
    key_index, lemma_first_object_from, lemma_replaced_frame, lemma_wf_key, path_components,
    path_components_of, ref_walk, resources_phase_index, last_resources_phase, same_header,
    target_named, resources_phase_keyed, with_children, with_regions, with_resource_files,
    BuildFile, Object, ObjectId, Pbxproj, find_object, ObjectQuery, first_object, lemma_object_at_key,
    lemma_one_changed, locale_file_reference, one_changed, is_object_id,
};
use crate::pbxproj::VariantGroup;
use crate::sorted::{set_insert, set_inserted};
use crate::text::texts;

verus! {

/// `s` with each of `xs` inserted in turn, as a set.
pub open spec fn inserted_all(s: Seq<String>, xs: Seq<String>) -> Seq<String>
    decreases xs.len(),
{
    if xs.len() == 0 {
        s
    } else {
        set_inserted(inserted_all(s, xs.drop_last()), xs.last())
    }
}

/// None of `ids` names an object, and no two of them are the same.
pub open spec fn fresh_ids(p: Pbxproj, ids: Seq<String>) -> bool {
    &&& forall|j: int| 0 <= j < ids.len() ==> p.object(#[trigger] ids[j]@) is None
    &&& forall|j: int, k: int| 0 <= j < k < ids.len() ==> #[trigger] ids[j]@ != #[trigger] ids[k]@
}

/// What the locales of the hosting app are written to.
pub open spec fn strings_group_path() -> Seq<char> {
    "HostingApp/Supporting Files"@
}

/// `b` is `a` with the locales `locales` added for the first target named
/// `target`: the project's regions gain them; the file reference of each
/// locale's `InfoPlist.strings` is put under `ids[j]`; a variant group
/// `InfoPlist.strings` of those references under `ids[n]`; a build file of
/// the variant group under `ids[n + 1]`, which joins the target's resources;
/// and the variant group joins the group `HostingApp/Supporting Files`.
pub open spec fn locales_added(a: Pbxproj, b: Pbxproj, target: Seq<char>, locales: Seq<String>, ids: Seq<String>) -> bool {
    let n = locales.len() as int;
    &&& b.wf()
    &&& same_header(a, b)
    &&& a.project_spec() matches Some(p)
    &&& key_index(a, a.root_object@) matches Some(pi)
    &&& resources_phase_index(a.objects@, target) matches Some(ri)
    &&& key_index(a, ref_walk(a, p.main_group@, path_components_of(strings_group_path()))) matches Some(gi)
    &&& forall|j: int|
        0 <= j < n ==> (b.object(#[trigger] ids[j]@) matches Some(o) && is_locale_file_reference(
            o,
            "text.plist.strings"@,
            locales[j]@,
            "InfoPlist.strings"@,
        ))
    &&& b.object(ids[n]@) matches Some(Object::VariantGroup(g)) && g.children@ == inserted_all(
        Seq::empty(),
        ids.take(n),
    ) && (g.name matches Some(name) && name@ == "InfoPlist.strings"@) && g.path is None
        && g.source_tree@ == "<group>"@
    &&& b.object(ids[n + 1]@) matches Some(o) && is_new_build_file(o, ids[n])
    &&& b.object(a.objects@[pi].0@) matches Some(o) && with_regions(
        a.objects@[pi].1,
        o,
        inserted_all(p.known_regions@, locales),
    )
    &&& b.object(a.objects@[ri].0@) matches Some(o) && with_resource_files(
        a.objects@[ri].1,
        o,
        set_inserted(a.objects@[ri].1->ResourcesBuildPhase_0.files@, ids[n + 1]),
    )
    &&& b.object(a.objects@[gi].0@) matches Some(o) && with_children(
        a.objects@[gi].1,
        o,
        set_inserted(a.objects@[gi].1->Group_0.children@, ids[n]),
    )
    &&& forall|q: Seq<char>|
        (q != a.objects@[pi].0@ && q != a.objects@[ri].0@ && q != a.objects@[gi].0@ && !texts(ids).contains(q))
            ==> #[trigger] b.object(q) == a.object(q)
}

proof fn lemma_inserted_all_step(s: Seq<String>, xs: Seq<String>, j: int)
    requires
        0 <= j < xs.len(),
    ensures
        inserted_all(s, xs.take(j + 1)) == set_inserted(inserted_all(s, xs.take(j)), xs[j]),
{
    assert(xs.take(j + 1).drop_last() =~= xs.take(j));
}

impl Pbxproj {
    /// Adds the locales `locale_list` for the first target named
    /// `target_name` (see `locales_added`), with the new objects under `ids`:
    /// one per locale, then the variant group's and the build file's. The ids
    /// must be new; the project, the target's resources phase and the group
    /// `HostingApp/Supporting Files` path's start, the main group, must be
    /// there.
    pub fn update_with_ids(&mut self, target_name: &str, locale_list: &Vec<String>, ids: &Vec<String>)
        requires
            old(self).wf(),
            ids.len() == locale_list.len() + 2,
            fresh_ids(*old(self), ids@),
            old(self).project_spec() matches Some(p) && old(self).group_spec(p.main_group@) is Some,
            resources_phase_index(old(self).objects@, target_name@) is Some,
        ensures
            locales_added(*old(self), *final(self), target_name@, locale_list@, ids@),
    {
        let ghost a = *self;
        let n = locale_list.len();
        let names = path_components("HostingApp/Supporting Files");
        let gkey = self.walk_to_group(&names);
        let rkey = self.resources_phase_key(target_name).unwrap();
        let ghost p = a.project_spec()->Some_0;
        let ghost pi = key_index(a, a.root_object@)->Some_0;
        let ghost ri = resources_phase_index(a.objects@, target_name@)->Some_0;
        let ghost gi = key_index(a, gkey@)->Some_0;
        proof {
            lemma_object_at_key(a, a.root_object@);
            lemma_object_at_key(a, gkey@);
            lemma_wf_key(a, ri);
            assert(a.objects@[ri].1 is ResourcesBuildPhase) by {
                let t = first_object(a.objects@, target_named(target_name@))->Some_0;
                let id = last_resources_phase(a.objects@, a.objects@[t].1->NativeTarget_0.build_phases@)->Some_0;
                lemma_first_object_from(a.objects@, resources_phase_keyed(id), 0);
            }
            assert(pi != ri && pi != gi && ri != gi);
            assert forall|j: int| 0 <= j < ids@.len() implies #[trigger] ids@[j]@ != a.root_object@
                && ids@[j]@ != rkey@ && ids@[j]@ != gkey@ by {
                assert(a.object(ids@[j]@) is None);
            }
        }
        // The regions.
        let mut regions = copy_strings(&self.project().unwrap().known_regions);
        let mut j: usize = 0;
        assert(locale_list@.take(0) =~= Seq::<String>::empty());
        while j < n
            invariant
                j <= n,
                n == locale_list.len(),
                regions@ == inserted_all(p.known_regions@, locale_list@.take(j as int)),
            decreases n - j,
        {
            proof {
                lemma_inserted_all_step(p.known_regions@, locale_list@, j as int);
            }
            set_insert(&mut regions, locale_list[j].clone());
            j = j + 1;
        }
        assert(locale_list@.take(n as int) =~= locale_list@);
        {
            let r = self.known_regions_mut().unwrap();
            *r = regions;
        }
        let ghost s1 = *self;
        proof {
            assert(s1.objects@ =~= a.objects@.update(pi, (a.objects@[pi].0, s1.objects@[pi].1)));
            assert(one_changed(a, s1, pi));
            lemma_one_changed(a, s1, pi);
            lemma_wf_key(a, pi);
        }
        // The file reference of each locale.
        let mut children: Vec<String> = Vec::new();
        let mut k: usize = 0;
        assert(ids@.take(0) =~= Seq::<String>::empty());
        while k < n
            invariant
                k <= n,
                n == locale_list.len(),
                ids.len() == n + 2,
                fresh_ids(a, ids@),
                self.wf(),
                same_header(a, *self),
                children@ == inserted_all(Seq::empty(), ids@.take(k as int)),
                forall|m: int|
                    0 <= m < k ==> (self.object(#[trigger] ids@[m]@) matches Some(o)
                        && is_locale_file_reference(o, "text.plist.strings"@, locale_list@[m]@, "InfoPlist.strings"@)),
                forall|q: Seq<char>| !texts(ids@.take(k as int)).contains(q) ==> #[trigger] self.object(q) == s1.object(q),
            decreases n - k,
        {
            let ghost before = *self;
            proof {
                lemma_inserted_all_step(Seq::empty(), ids@, k as int);
            }
            self.insert_object(
                ids[k].clone(),
                locale_file_reference("text.plist.strings", locale_list[k].as_str(), "InfoPlist.strings"),
            );
            set_insert(&mut children, ids[k].clone());
            proof {
                assert forall|m: int| 0 <= m < k + 1 implies (self.object(#[trigger] ids@[m]@) matches Some(o)
                    && is_locale_file_reference(o, "text.plist.strings"@, locale_list@[m]@, "InfoPlist.strings"@)) by {
                    if m < k {
                        assert(ids@[m]@ != ids@[k as int]@);
                        assert(self.object(ids@[m]@) == before.object(ids@[m]@));
                    }
                }
                assert forall|q: Seq<char>| !texts(ids@.take(k + 1)).contains(q) implies #[trigger] self.object(q)
                    == s1.object(q) by {
                    assert(texts(ids@.take(k + 1)) =~= texts(ids@.take(k as int)).push(ids@[k as int]@));
                    assert(q != ids@[k as int]@) by {
                        assert(texts(ids@.take(k + 1))[k as int] == ids@[k as int]@);
                    }
                    if texts(ids@.take(k as int)).contains(q) {
                        let m = choose|m: int| 0 <= m < k && texts(ids@.take(k as int))[m] == q;
                        assert(texts(ids@.take(k + 1))[m] == q);
                    }
                }
            }
            k = k + 1;
        }
        let ghost s2 = *self;
        // The variant group of those references.
        let variant_id = ids[n].clone();
        let group = VariantGroup {
            children: children,
            source_tree: "<group>".to_string(),
            name: Some("InfoPlist.strings".to_string()),
            path: None,
        };
        self.insert_object(variant_id.clone(), Object::VariantGroup(group));
        let ghost s3 = *self;
        // A build file of the variant group.
        let build_file_id = ids[n + 1].clone();
        self.insert_object(build_file_id.clone(), Object::BuildFile(BuildFile { file_ref: variant_id.clone(), settings: None }));
        let ghost s4 = *self;
        proof {
            assert(ids@[n as int]@ != ids@[n + 1]@);
            assert forall|q: Seq<char>| (q == rkey@ || q == gkey@) implies #[trigger] s4.object(q) == a.object(q) by {
                assert(!texts(ids@.take(n as int)).contains(q)) by {
                    if texts(ids@.take(n as int)).contains(q) {
                        let m = choose|m: int| 0 <= m < n && texts(ids@.take(n as int))[m] == q;
                        assert(ids@[m]@ == q);
                    }
                }
                assert(q != ids@[n as int]@ && q != ids@[n + 1]@);
            }
            lemma_object_at_key(s4, rkey@);
            lemma_object_at_key(s4, gkey@);
        }
        // The build file joins the target's resources.
        {
            let phase = self.resources_phase_mut(rkey.as_str()).unwrap();
            set_insert(&mut phase.files, build_file_id.clone());
        }
        let ghost s5 = *self;
        proof {
            let i5 = key_index(s4, rkey@)->Some_0;
            lemma_replaced_frame(s4, s5, i5, s5.objects@[i5].1);
            lemma_object_at_key(s5, gkey@);
        }
        // The variant group joins `HostingApp/Supporting Files`.
        {
            let g = self.group_mut(gkey.as_str()).unwrap();
            set_insert(&mut g.children, variant_id.clone());
        }
        proof {
            let i6 = key_index(s5, gkey@)->Some_0;
            lemma_replaced_frame(s5, *self, i6, self.objects@[i6].1);
            assert(texts(names@) == path_components_of(strings_group_path()));
            assert(ids@.take(n as int) =~= ids@.take(n as int));
            assert forall|q: Seq<char>|
                (q != a.objects@[pi].0@ && q != a.objects@[ri].0@ && q != a.objects@[gi].0@ && !texts(ids@).contains(q))
                    implies #[trigger] self.object(q) == a.object(q) by {
                assert(!texts(ids@.take(n as int)).contains(q)) by {
                    if texts(ids@.take(n as int)).contains(q) {
                        let m = choose|m: int| 0 <= m < n && texts(ids@.take(n as int))[m] == q;
                        assert(texts(ids@)[m] == q);
                    }
                }
                assert(q != ids@[n as int]@) by {
                    assert(texts(ids@)[n as int] == ids@[n as int]@);
                }
                assert(q != ids@[n + 1]@) by {
                    assert(texts(ids@)[n + 1] == ids@[n + 1]@);
                }
            }
        }
    }

    /// Adds the locales `locale_list` for the first target named
    /// `target_name` (see `locales_added`), with the new objects under new
    /// random ids. Where an id drawn is already taken, or drawn twice, the
    /// project is left as it is and the result is `false`.
    pub fn update(&mut self, target_name: &str, locale_list: Vec<String>) -> (res: bool)
        requires
            old(self).wf(),
            old(self).project_spec() matches Some(p) && old(self).group_spec(p.main_group@) is Some,
            resources_phase_index(old(self).objects@, target_name@) is Some,
        ensures
            res ==> exists|ids: Seq<String>|
                #[trigger] fresh_ids(*old(self), ids) && ids.len() == locale_list.len() + 2 && locales_added(
                    *old(self),
                    *final(self),
                    target_name@,
                    locale_list@,
                    ids,
                ),
            !res ==> *final(self) == *old(self),
            locale_list.len() + 2 <= usize::MAX ==> exists|d: Seq<String>|
                #[trigger] drawn_ids(d, (locale_list.len() + 2) as nat) && (res <==> fresh_ids(*old(self), d)) && (
                res ==> locales_added(*old(self), *final(self), target_name@, locale_list@, d)),
            locale_list.len() + 2 > usize::MAX ==> !res,
    {
        if locale_list.len() > usize::MAX - 2 {
            return false;
        }
        let n = locale_list.len() + 2;
        let ids = self.fresh_random_ids(n);
        let ghost d = choose|d: Seq<String>|
            #[trigger] drawn_ids(d, n as nat) && match ids {
                Some(v) => v@ == d && fresh_ids(*self, d),
                None => !fresh_ids(*self, d),
            };
        match ids {
            Some(ids) => {
                self.update_with_ids(target_name, &locale_list, &ids);
                assert(fresh_ids(*old(self), ids@));
                assert(drawn_ids(d, (locale_list.len() + 2) as nat) && ids@ == d);
                true
            },
            None => {
                assert(drawn_ids(d, (locale_list.len() + 2) as nat) && !fresh_ids(*old(self), d));
                false
            },
        }
    }

    /// `count` new random ids, or nothing where one drawn is already taken
    /// or drawn twice: `count` ids are drawn, and the result is them exactly
    /// when they are fresh.
    pub fn fresh_random_ids(&self, count: usize) -> (res: Option<Vec<String>>)
        ensures
            res matches Some(ids) ==> ids.len() == count && fresh_ids(*self, ids@) && forall|j: int|
                0 <= j < ids.len() ==> is_object_id(#[trigger] ids@[j]@),
            exists|d: Seq<String>|
                #[trigger] drawn_ids(d, count as nat) && match res {
                    Some(ids) => ids@ == d && fresh_ids(*self, d),
                    None => !fresh_ids(*self, d),
                },
    {
        let drawn = draw_ids(count);
        let ghost d = drawn@;
        let res = self.ids_if_fresh(drawn);
        assert(drawn_ids(d, count as nat));
        res
    }

    /// The ids `drawn`, where none of them names an object and no two are the
    /// same; nothing otherwise.
    pub fn ids_if_fresh(&self, drawn: Vec<String>) -> (res: Option<Vec<String>>)
        ensures
            match res {
                Some(ids) => ids@ == drawn@ && fresh_ids(*self, drawn@),
                None => !fresh_ids(*self, drawn@),
            },
    {
        let mut i: usize = 0;
        while i < drawn.len()
            invariant
                i <= drawn.len(),
                fresh_ids(*self, drawn@.take(i as int)),
            decreases drawn.len() - i,
        {
            if self.key_position_of(drawn[i].as_str()) {
                assert(self.object(drawn@[i as int]@) is Some);
                return None;
            }
            let mut m: usize = 0;
            while m < i
                invariant
                    m <= i < drawn.len(),
                    forall|j: int| 0 <= j < m ==> #[trigger] drawn@[j]@ != drawn@[i as int]@,
                decreases i - m,
            {
                if crate::text::str_eq(drawn[m].as_str(), drawn[i].as_str()) {
                    assert(drawn@[m as int]@ == drawn@[i as int]@);
                    return None;
                }
                m = m + 1;
            }
            proof {
                let t = drawn@.take(i + 1);
                assert forall|j: int| 0 <= j < t.len() implies self.object(#[trigger] t[j]@) is None by {
                    if j < i {
                        assert(t[j] == drawn@.take(i as int)[j]);
                    }
                }
                assert forall|j: int, k: int| 0 <= j < k < t.len() implies #[trigger] t[j]@ != #[trigger] t[k]@ by {
                    if k < i {
                        assert(t[j] == drawn@.take(i as int)[j]);
                        assert(t[k] == drawn@.take(i as int)[k]);
                    }
                }
            }
            i = i + 1;
        }
        assert(drawn@.take(i as int) =~= drawn@);
        Some(drawn)
    }
}

/// `d` holds `count` ids, each as `ObjectId::new_random` draws one.
pub open spec fn drawn_ids(d: Seq<String>, count: nat) -> bool {
    d.len() == count && forall|j: int| 0 <= j < d.len() ==> is_object_id(#[trigger] d[j]@)
}

/// `count` random ids.
fn draw_ids(count: usize) -> (res: Vec<String>)
    ensures
        drawn_ids(res@, count as nat),
{
    let mut ids: Vec<String> = Vec::new();
    let mut i: usize = 0;
    while i < count
        invariant
            i <= count,
            ids.len() == i,
            forall|j: int| 0 <= j < ids.len() ==> is_object_id(#[trigger] ids@[j]@),
        decreases count - i,
    {
        let id = ObjectId::new_random();
        ids.push(id.0);
        i = i + 1;
    }
    ids
}

} // verus!
