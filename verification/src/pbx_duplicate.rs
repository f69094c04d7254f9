//! Duplicating a keyboard extension's target: a copy of the target, of its
//! configuration list and configurations, and of its product, linked into
//! the project.

use vstd::prelude::*;

use crate::index_map::{entry_insert, setting_entries, settings_clone, settings_insert};
use crate::pbx_locales::{drawn_ids, fresh_ids, inserted_all};
use crate::pbx_project::{
    find_object, ObjectQuery, configuration_keyed, configuration_list_keyed, copy_strings, file_reference_keyed,
    first_object, key_index, lemma_first_object_from, lemma_keyed_search,
    lemma_object_at_key, lemma_replaced_frame, lemma_wf_key, path_components, path_components_of,
    ref_walk, same_header, target_named, with_children, with_targets, BuildConfiguration,
    Object, Pbxproj, SettingValue, SettingView,
};
use crate::pbxproj::{ConfigurationList, FileReference, NativeTarget};
use crate::sorted::{set_insert, set_inserted};
use crate::text::{concat_text, texts};

verus! {

/// A copy of an optional string.
pub fn copy_opt(o: &Option<String>) -> (res: Option<String>)
    ensures
        res == *o,
{
    match o {
        Some(s) => Some(s.clone()),
        None => None,
    }
}

/// What the source objects of a duplicated target are: the target, its
/// configuration list, and the file reference of its product.
pub open spec fn duplicate_sources(a: Pbxproj, source: Seq<char>) -> Option<(NativeTarget, ConfigurationList, FileReference)> {
    match first_object(a.objects@, target_named(source)) {
        Some(t) => match a.objects@[t].1 {
            Object::NativeTarget(tg) => match first_object(
                a.objects@,
                configuration_list_keyed(tg.build_configuration_list@),
            ) {
                Some(l) => match (a.objects@[l].1, tg.product_reference) {
                    (Object::ConfigurationList(cl), Some(pr)) => match first_object(
                        a.objects@,
                        file_reference_keyed(pr@),
                    ) {
                        Some(f) => match a.objects@[f].1 {
                            Object::FileReference(fr) => Some((tg, cl, fr)),
                            _ => None,
                        },
                        None => None,
                    },
                    _ => None,
                },
                None => None,
            },
            _ => None,
        },
        None => None,
    }
}

/// The first target named `source` can be duplicated: it has a
/// configuration list whose ids each name a build configuration, and a
/// product; the project and its main group are there.
pub open spec fn duplicable(a: Pbxproj, source: Seq<char>) -> bool {
    &&& a.wf()
    &&& duplicate_sources(a, source) matches Some((tg, cl, fr))
    &&& forall|j: int|
        0 <= j < cl.build_configurations@.len() ==> (a.object(#[trigger] cl.build_configurations@[j]@) matches Some(
            Object::BuildConfiguration(_),
        ))
    &&& a.project_spec() matches Some(p)
    &&& a.group_spec(p.main_group@) is Some
}

/// The configuration `c` copied for a duplicate named `dest` with its
/// property list at `plist`.
pub open spec fn is_duplicate_configuration(c: BuildConfiguration, d: Object, dest: Seq<char>, plist: Seq<char>) -> bool {
    &&& d matches Object::BuildConfiguration(e)
    &&& setting_entries(e.build_settings) == entry_insert(
        entry_insert(setting_entries(c.build_settings), "INFOPLIST_FILE"@, SettingView::Text(plist)),
        "PRODUCT_NAME"@,
        SettingView::Text(dest),
    )
    &&& e.name == c.name
    &&& e.base_configuration_reference == c.base_configuration_reference
}

/// `b` is `a` with the first target named `source` duplicated as `dest`,
/// the new objects under `ids`: the target under `ids[0]`, named `dest`,
/// with the configuration list `ids[1]` and the product `ids[2]`; the
/// configuration list under `ids[1]`, of the configurations `ids[3..]`; the
/// product under `ids[2]`, at `<dest>.appex`; the `j`-th configuration of
/// the source, with the property list and product name set, under
/// `ids[3 + j]`. The product joins the group `Products` and the target the
/// project's targets.
pub open spec fn target_duplicated(a: Pbxproj, b: Pbxproj, source: Seq<char>, dest: Seq<char>, plist: Seq<char>, ids: Seq<String>) -> bool {
    &&& b.wf()
    &&& same_header(a, b)
    &&& duplicate_sources(a, source) matches Some((tg, cl, fr))
    &&& a.project_spec() matches Some(p)
    &&& key_index(a, a.root_object@) matches Some(pi)
    &&& key_index(a, ref_walk(a, p.main_group@, path_components_of("Products"@))) matches Some(gi)
    &&& ids.len() == cl.build_configurations@.len() + 3
    &&& b.object(ids[0]@) matches Some(Object::NativeTarget(u)) && u.name@ == dest
        && u.build_configuration_list == ids[1] && u.product_reference == Some(ids[2])
        && u.product_type == tg.product_type && u.product_name == tg.product_name
        && u.build_phases@ == tg.build_phases@ && u.dependencies@ == tg.dependencies@
        && u.build_rules@ == tg.build_rules@
    &&& b.object(ids[1]@) matches Some(Object::ConfigurationList(ul)) && ul.build_configurations@
        == inserted_all(Seq::empty(), ids.skip(3)) && ul.default_configuration_is_visible
        == cl.default_configuration_is_visible && ul.default_configuration_name
        == cl.default_configuration_name
    &&& b.object(ids[2]@) matches Some(Object::FileReference(uf)) && uf.path@ == dest + ".appex"@
        && uf.file_encoding == fr.file_encoding && uf.include_in_index == fr.include_in_index
        && uf.last_known_file_type == fr.last_known_file_type && uf.explicit_file_type
        == fr.explicit_file_type && uf.name == fr.name && uf.source_tree == fr.source_tree
    &&& forall|j: int|
        0 <= j < cl.build_configurations@.len() ==> (b.object(#[trigger] ids[3 + j]@) matches Some(o)
            && a.object(cl.build_configurations@[j]@) matches Some(Object::BuildConfiguration(c))
            && is_duplicate_configuration(c, o, dest, plist))
    &&& b.object(a.objects@[gi].0@) matches Some(o) && with_children(
        a.objects@[gi].1,
        o,
        set_inserted(a.objects@[gi].1->Group_0.children@, ids[2]),
    )
    &&& b.object(a.objects@[pi].0@) matches Some(o) && with_targets(
        a.objects@[pi].1,
        o,
        set_inserted(a.objects@[pi].1->Project_0.targets@, ids[0]),
    )
    &&& forall|q: Seq<char>|
        q != a.objects@[gi].0@ && q != a.objects@[pi].0@ && !texts(ids).contains(q) ==> #[trigger] b.object(q)
            == a.object(q)
}

} // verus!

verus! {

impl Pbxproj {
    /// Duplicates the first target named `source_name` as
    /// `destination_name`, with its property list at `plist_path` and the new
    /// objects under `ids` (see `target_duplicated`). The ids must be new,
    /// three and one for each configuration of the source.
    pub fn duplicate_target_with_ids(
        &mut self,
        source_name: &str,
        destination_name: &str,
        plist_path: &str,
        ids: &Vec<String>,
    )
        requires
            duplicable(*old(self), source_name@),
            fresh_ids(*old(self), ids@),
            duplicate_sources(*old(self), source_name@) matches Some((tg, cl, fr)) && ids.len()
                == cl.build_configurations@.len() + 3,
        ensures
            target_duplicated(*old(self), *final(self), source_name@, destination_name@, plist_path@, ids@),
    {
        let ghost a = *self;
        let ghost srcs = duplicate_sources(a, source_name@)->Some_0;
        proof {
            lemma_first_object_from(a.objects@, target_named(source_name@), 0);
            lemma_first_object_from(a.objects@, configuration_list_keyed(srcs.0.build_configuration_list@), 0);
            lemma_first_object_from(a.objects@, file_reference_keyed(srcs.0.product_reference->Some_0@), 0);
        }
        // The copies of the target, its list and its product.
        let t = find_object(&self.objects, &ObjectQuery::TargetNamed(source_name)).unwrap();
        let (new_target, list_key, product_key) = match &self.objects[t].1 {
            Object::NativeTarget(tg) => (
                NativeTarget {
                    product_type: copy_opt(&tg.product_type),
                    build_configuration_list: ids[1].clone(),
                    product_reference: Some(ids[2].clone()),
                    product_name: tg.product_name.clone(),
                    build_phases: copy_strings(&tg.build_phases),
                    dependencies: copy_strings(&tg.dependencies),
                    name: destination_name.to_string(),
                    build_rules: copy_strings(&tg.build_rules),
                },
                tg.build_configuration_list.clone(),
                match &tg.product_reference {
                    Some(p) => p.clone(),
                    None => String::new(),
                },
            ),
            _ => {
                proof {
                    assert(false);
                }
                return;
            },
        };
        let l = find_object(&self.objects, &ObjectQuery::ConfigurationListKeyed(list_key.as_str())).unwrap();
        let (config_ids, visible, default_name) = match &self.objects[l].1 {
            Object::ConfigurationList(cl) => (
                copy_strings(&cl.build_configurations),
                cl.default_configuration_is_visible.clone(),
                cl.default_configuration_name.clone(),
            ),
            _ => {
                proof {
                    assert(false);
                }
                return;
            },
        };
        let f = find_object(&self.objects, &ObjectQuery::FileReferenceKeyed(product_key.as_str())).unwrap();
        let appex = match &self.objects[f].1 {
            Object::FileReference(fr) => FileReference {
                file_encoding: copy_opt(&fr.file_encoding),
                include_in_index: copy_opt(&fr.include_in_index),
                last_known_file_type: copy_opt(&fr.last_known_file_type),
                explicit_file_type: copy_opt(&fr.explicit_file_type),
                name: copy_opt(&fr.name),
                path: concat_text(destination_name, ".appex"),
                source_tree: fr.source_tree.clone(),
            },
            _ => {
                proof {
                    assert(false);
                }
                return;
            },
        };
        let names = path_components("Products");
        let gkey = self.walk_to_group(&names);
        let ghost cl = srcs.1;
        let m = config_ids.len();
        proof {
            lemma_object_at_key(a, gkey@);
            lemma_object_at_key(a, a.root_object@);
            assert forall|k: int| 0 <= k < ids@.len() implies #[trigger] ids@[k]@ != gkey@ && ids@[k]@
                != a.root_object@ by {
                assert(a.object(ids@[k]@) is None);
            }
            assert forall|k: int| 0 <= k < m implies #[trigger] a.object(config_ids@[k]@) matches Some(
                Object::BuildConfiguration(_),
            ) by {
                assert(config_ids@[k] == cl.build_configurations@[k]);
            }
        }
        // A copy of each configuration.
        let mut refs: Vec<String> = Vec::new();
        let mut j: usize = 0;
        assert(ids@.subrange(3, 3) =~= Seq::<String>::empty());
        while j < m
            invariant
                j <= m,
                m == config_ids.len(),
                ids.len() == m + 3,
                config_ids@ == cl.build_configurations@,
                fresh_ids(a, ids@),
                a.wf(),
                self.wf(),
                same_header(a, *self),
                forall|k: int| 0 <= k < m ==> (#[trigger] a.object(config_ids@[k]@) matches Some(
                    Object::BuildConfiguration(_),
                )),
                refs@ == inserted_all(Seq::empty(), ids@.subrange(3, 3 + j)),
                forall|k: int|
                    0 <= k < j ==> (self.object(#[trigger] ids@[3 + k]@) matches Some(o) && a.object(
                        config_ids@[k]@,
                    ) matches Some(Object::BuildConfiguration(c)) && is_duplicate_configuration(
                        c,
                        o,
                        destination_name@,
                        plist_path@,
                    )),
                forall|q: Seq<char>| !texts(ids@.subrange(3, 3 + j)).contains(q) ==> #[trigger] self.object(q)
                    == a.object(q),
            decreases m - j,
        {
            let ghost before = *self;
            let id = config_ids[j].as_str();
            proof {
                assert(!texts(ids@.subrange(3, 3 + j)).contains(id@)) by {
                    if texts(ids@.subrange(3, 3 + j)).contains(id@) {
                        let k = choose|k: int| 0 <= k < j && #[trigger] texts(ids@.subrange(3, 3 + j))[k] == id@;
                        assert(a.object(ids@[3 + k]@) is None);
                    }
                }
                assert(before.object(id@) == a.object(id@));
                lemma_object_at_key(before, id@);
                lemma_keyed_search(before, configuration_keyed(id@), id@);
                lemma_first_object_from(before.objects@, configuration_keyed(id@), 0);
            }
            let c = self.configuration_by_id(id).unwrap();
            let mut settings = settings_clone(&c.build_settings);
            settings_insert(&mut settings, "INFOPLIST_FILE".to_string(), SettingValue::Text(plist_path.to_string()));
            settings_insert(&mut settings, "PRODUCT_NAME".to_string(), SettingValue::Text(destination_name.to_string()));
            let config = BuildConfiguration {
                build_settings: settings,
                base_configuration_reference: copy_opt(&c.base_configuration_reference),
                name: c.name.clone(),
            };
            proof {
                assert(ids@.subrange(3, 3 + j + 1).drop_last() =~= ids@.subrange(3, 3 + j));
            }
            set_insert(&mut refs, ids[3 + j].clone());
            self.insert_object(ids[3 + j].clone(), Object::BuildConfiguration(config));
            proof {
                let sub = texts(ids@.subrange(3, 3 + j + 1));
                assert(sub =~= texts(ids@.subrange(3, 3 + j)).push(ids@[3 + j]@));
                assert forall|k: int| 0 <= k < j + 1 implies (self.object(#[trigger] ids@[3 + k]@) matches Some(o)
                    && a.object(config_ids@[k]@) matches Some(Object::BuildConfiguration(c))
                    && is_duplicate_configuration(c, o, destination_name@, plist_path@)) by {
                    if k < j {
                        assert(ids@[3 + k]@ != ids@[3 + j]@);
                        assert(self.object(ids@[3 + k]@) == before.object(ids@[3 + k]@));
                    }
                }
                assert forall|q: Seq<char>| !sub.contains(q) implies #[trigger] self.object(q) == a.object(q) by {
                    assert(sub[j as int] == ids@[3 + j]@);
                    if texts(ids@.subrange(3, 3 + j)).contains(q) {
                        let k = choose|k: int| 0 <= k < j && #[trigger] texts(ids@.subrange(3, 3 + j))[k] == q;
                        assert(sub[k] == q);
                    }
                }
            }
            j = j + 1;
        }
        let ghost s1 = *self;
        let list = ConfigurationList {
            build_configurations: refs,
            default_configuration_is_visible: visible,
            default_configuration_name: default_name,
        };
        self.insert_object(ids[2].clone(), Object::FileReference(appex));
        self.insert_object(ids[1].clone(), Object::ConfigurationList(list));
        self.insert_object(ids[0].clone(), Object::NativeTarget(new_target));
        let ghost s2 = *self;
        proof {
            assert(ids@.subrange(3, 3 + m) =~= ids@.skip(3));
            assert forall|q: Seq<char>| !texts(ids@).contains(q) implies #[trigger] s2.object(q) == a.object(q) by {
                assert(q != ids@[0]@) by {
                    assert(texts(ids@)[0] == ids@[0]@);
                }
                assert(q != ids@[1]@) by {
                    assert(texts(ids@)[1] == ids@[1]@);
                }
                assert(q != ids@[2]@) by {
                    assert(texts(ids@)[2] == ids@[2]@);
                }
                if texts(ids@.subrange(3, 3 + m)).contains(q) {
                    let k = choose|k: int| 0 <= k < m && #[trigger] texts(ids@.subrange(3, 3 + m))[k] == q;
                    assert(texts(ids@)[3 + k] == q);
                }
            }
            assert(ids@[0]@ != ids@[1]@ && ids@[0]@ != ids@[2]@ && ids@[1]@ != ids@[2]@);
            assert forall|k: int| 0 <= k < m implies #[trigger] ids@[3 + k]@ != ids@[0]@ && ids@[3 + k]@
                != ids@[1]@ && ids@[3 + k]@ != ids@[2]@ by {
            }
            assert(!texts(ids@).contains(gkey@)) by {
                if texts(ids@).contains(gkey@) {
                    let k = choose|k: int| 0 <= k < ids@.len() && #[trigger] texts(ids@)[k] == gkey@;
                    assert(ids@[k]@ == gkey@);
                }
            }
            assert(!texts(ids@).contains(a.root_object@)) by {
                if texts(ids@).contains(a.root_object@) {
                    let k = choose|k: int| 0 <= k < ids@.len() && #[trigger] texts(ids@)[k] == a.root_object@;
                    assert(ids@[k]@ == a.root_object@);
                }
            }
            lemma_object_at_key(s2, gkey@);
        }
        // The product joins `Products`.
        {
            let g = self.group_mut(gkey.as_str()).unwrap();
            set_insert(&mut g.children, ids[2].clone());
        }
        let ghost s3 = *self;
        proof {
            let i3 = key_index(s2, gkey@)->Some_0;
            lemma_replaced_frame(s2, s3, i3, s3.objects@[i3].1);
            lemma_object_at_key(s3, s3.root_object@);
        }
        // The target joins the project's targets.
        self.add_target(&ids[0]);
        proof {
            let i4 = key_index(s3, s3.root_object@)->Some_0;
            lemma_replaced_frame(s3, *self, i4, self.objects@[i4].1);
            assert(texts(names@) == path_components_of("Products"@));
            assert forall|k: int| 0 <= k < m implies (self.object(#[trigger] ids@[3 + k]@) matches Some(o)
                && a.object(cl.build_configurations@[k]@) matches Some(Object::BuildConfiguration(c))
                && is_duplicate_configuration(c, o, destination_name@, plist_path@)) by {
                assert(s1.object(ids@[3 + k]@) == s2.object(ids@[3 + k]@));
                assert(config_ids@[k] == cl.build_configurations@[k]);
            }
        }
    }

    /// The number of configurations of the first target named `source_name`,
    /// through its configuration list.
    fn configuration_count(&self, source_name: &str) -> (res: Option<usize>)
        ensures
            duplicate_sources(*self, source_name@) matches Some((tg, cl, fr)) ==> (res matches Some(m)
                && m == cl.build_configurations@.len()),
    {
        proof {
            lemma_first_object_from(self.objects@, target_named(source_name@), 0);
        }
        let t = find_object(&self.objects, &ObjectQuery::TargetNamed(source_name));
        match t {
            Some(t) => match &self.objects[t].1 {
                Object::NativeTarget(tg) => {
                    proof {
                        lemma_first_object_from(self.objects@, configuration_list_keyed(tg.build_configuration_list@), 0);
                    }
                    match find_object(
                        &self.objects,
                        &ObjectQuery::ConfigurationListKeyed(tg.build_configuration_list.as_str()),
                    ) {
                        Some(l) => match &self.objects[l].1 {
                            Object::ConfigurationList(cl) => Some(cl.build_configurations.len()),
                            _ => None,
                        },
                        None => None,
                    }
                },
                _ => None,
            },
            None => None,
        }
    }

    /// Duplicates the first target named `source_name` as
    /// `destination_name`, with its property list at `plist_path` and the new
    /// objects under new random ids (see `target_duplicated`). Where an id
    /// drawn is already taken, or drawn twice, the project is left as it is
    /// and the result is `false`.
    pub fn duplicate_target(&mut self, source_name: &str, destination_name: &str, plist_path: &str) -> (res: bool)
        requires
            duplicable(*old(self), source_name@),
        ensures
            res ==> exists|ids: Seq<String>|
                #[trigger] fresh_ids(*old(self), ids) && target_duplicated(
                    *old(self),
                    *final(self),
                    source_name@,
                    destination_name@,
                    plist_path@,
                    ids,
                ),
            !res ==> *final(self) == *old(self),
            duplicate_sources(*old(self), source_name@) matches Some((tg, cl, fr)) && (
            cl.build_configurations@.len() + 3 <= usize::MAX ==> exists|d: Seq<String>|
                #[trigger] drawn_ids(d, (cl.build_configurations@.len() + 3) as nat) && (res <==> fresh_ids(
                    *old(self),
                    d,
                )) && (res ==> target_duplicated(
                    *old(self),
                    *final(self),
                    source_name@,
                    destination_name@,
                    plist_path@,
                    d,
                ))) && (cl.build_configurations@.len() + 3 > usize::MAX ==> !res),
    {
        let count = match self.configuration_count(source_name) {
            Some(m) => m,
            None => {
                return false;
            },
        };
        if count > usize::MAX - 3 {
            return false;
        }
        match self.fresh_random_ids(count + 3) {
            Some(ids) => {
                self.duplicate_target_with_ids(source_name, destination_name, plist_path, &ids);
                assert(fresh_ids(*old(self), ids@));
                true
            },
            None => false,
        }
    }
}

impl Pbxproj {
    /// Whether the first target named `source_name` can be duplicated,
    /// computed.
    pub fn is_duplicable(&self, source_name: &str) -> (res: bool)
        ensures
            res == duplicable(*self, source_name@),
    {
        if !self.is_well_formed() || !self.has_main_group() {
            return false;
        }
        let target = match self.native_target_by_name(source_name) {
            Some(t) => t,
            None => {
                return false;
            },
        };
        let list = match self.configuration_list_by_id(target.build_configuration_list.as_str()) {
            Some(l) => l,
            None => {
                return false;
            },
        };
        let product = match &target.product_reference {
            Some(p) => p,
            None => {
                return false;
            },
        };
        if self.file_reference_by_id(product.as_str()).is_none() {
            return false;
        }
        self.configurations_present(&list.build_configurations)
    }
}

} // verus!
