//! The edits of the project file's targets: taking a target out with all
//! that depends on it.

use vstd::prelude::*;

use crate::pbx_project::{
    copy_strings, find_object, ObjectQuery, frame_except, inserted_at, path_components, path_components_of,
    is_object_id, lemma_keyed_search, first_object, group_named, key_index, lemma_first_object_from, lemma_object_at_key,
    lemma_one_changed, lemma_replaced_frame, lemma_wf_key, one_changed, same_header, target_named,
    with_children, with_dependencies, with_targets, Object, Pbxproj,
};
use crate::sorted::{
    key_seq, lemma_lower_bound_from, lemma_map_remove_get, lower_bound, map_remove, set_insert, set_inserted, set_remove,
    set_removed, text_seq,
};
use crate::pbx_locales::{drawn_ids, fresh_ids};
use crate::pbxproj::Group;
use crate::text::{str_eq, texts};

verus! {

/// `s` with each of `xs` removed in turn, as a set.
pub open spec fn removed_all(s: Seq<String>, xs: Seq<Seq<char>>) -> Seq<String>
    decreases xs.len(),
{
    if xs.len() == 0 {
        s
    } else {
        set_removed(removed_all(s, xs.drop_last()), xs.last())
    }
}

/// The ids of the target dependencies on the target `tid` among the first
/// `n` objects, in order.
pub open spec fn dependency_ids(objects: Seq<(String, Object)>, tid: Seq<char>, n: int) -> Seq<Seq<char>>
    decreases n,
{
    if n <= 0 || n > objects.len() {
        seq![]
    } else {
        dependency_ids(objects, tid, n - 1) + if objects[n - 1].1 matches Object::TargetDependency(d)
            && d.target@ == tid {
            seq![objects[n - 1].0@]
        } else {
            seq![]
        }
    }
}

/// `b` is `a` without the first target named `name`: the target and every
/// target dependency on it leave; every other target loses those
/// dependencies; the target's product leaves the first group named
/// `Products`; the target leaves the project's targets.
pub open spec fn target_removed(a: Pbxproj, b: Pbxproj, name: Seq<char>) -> bool {
    &&& b.wf()
    &&& same_header(a, b)
    &&& first_object(a.objects@, target_named(name)) matches Some(t)
    &&& a.objects@[t].1 matches Object::NativeTarget(tg)
    &&& tg.product_reference matches Some(product)
    &&& first_object(a.objects@, group_named("Products"@)) matches Some(gp)
    &&& key_index(a, a.root_object@) matches Some(pi)
    &&& {
        let tid = a.objects@[t].0@;
        let deps = dependency_ids(a.objects@, tid, a.objects@.len() as int);
        &&& b.object(tid) is None
        &&& forall|j: int| 0 <= j < deps.len() ==> b.object(#[trigger] deps[j]) is None
        &&& b.object(a.objects@[gp].0@) matches Some(o) && with_children(
            a.objects@[gp].1,
            o,
            set_removed(a.objects@[gp].1->Group_0.children@, product@),
        )
        &&& b.object(a.objects@[pi].0@) matches Some(o) && with_targets(
            a.objects@[pi].1,
            o,
            set_removed(a.objects@[pi].1->Project_0.targets@, tid),
        )
        &&& forall|q: Seq<char>|
            q != tid && !deps.contains(q) && q != a.objects@[gp].0@ && q != a.objects@[pi].0@ ==> (
            match a.object(q) {
                Some(Object::NativeTarget(u)) => #[trigger] b.object(q) matches Some(o) && with_dependencies(
                    Object::NativeTarget(u),
                    o,
                    removed_all(u.dependencies@, deps),
                ),
                _ => b.object(q) == a.object(q),
            })
    }
}

proof fn lemma_removed_all_step(s: Seq<String>, xs: Seq<Seq<char>>, j: int)
    requires
        0 <= j < xs.len(),
    ensures
        removed_all(s, xs.take(j + 1)) == set_removed(removed_all(s, xs.take(j)), xs[j]),
{
    assert(xs.take(j + 1).drop_last() =~= xs.take(j));
}

proof fn lemma_dependency_ids_step(objects: Seq<(String, Object)>, tid: Seq<char>, n: int)
    requires
        0 <= n < objects.len(),
    ensures
        dependency_ids(objects, tid, n + 1) == dependency_ids(objects, tid, n) + if objects[n].1 matches Object::TargetDependency(d)
            && d.target@ == tid {
            seq![objects[n].0@]
        } else {
            seq![]
        },
{
}

/// Each id of `dependency_ids` is the id of a target dependency on `tid`.
proof fn lemma_dependency_ids_are_dependencies(objects: Seq<(String, Object)>, tid: Seq<char>, n: int)
    requires
        0 <= n <= objects.len(),
    ensures
        forall|j: int| 0 <= j < dependency_ids(objects, tid, n).len() ==> exists|k: int|
            0 <= k < n && objects[k].0@ == #[trigger] dependency_ids(objects, tid, n)[j]
                && objects[k].1 is TargetDependency,
    decreases n,
{
    if n > 0 {
        lemma_dependency_ids_are_dependencies(objects, tid, n - 1);
        let d = dependency_ids(objects, tid, n);
        let d0 = dependency_ids(objects, tid, n - 1);
        assert forall|j: int| 0 <= j < d.len() implies exists|k: int|
            0 <= k < n && objects[k].0@ == #[trigger] d[j] && objects[k].1 is TargetDependency by {
            if j < d0.len() {
                assert(d[j] == d0[j]);
                let k = choose|k: int| 0 <= k < n - 1 && objects[k].0@ == d0[j] && objects[k].1 is TargetDependency;
                assert(objects[k].0@ == d[j]);
            } else {
                assert(objects[n - 1].0@ == d[j]);
            }
        }
    }
}

impl Pbxproj {
    fn dependency_keys(&self, tid: &String) -> (res: Vec<String>)
        ensures
            text_seq(res@) == dependency_ids(self.objects@, tid@, self.objects@.len() as int),
    {
        let mut out: Vec<String> = Vec::new();
        let mut i: usize = 0;
        while i < self.objects.len()
            invariant
                i <= self.objects.len(),
                text_seq(out@) == dependency_ids(self.objects@, tid@, i as int),
            decreases self.objects.len() - i,
        {
            proof {
                lemma_dependency_ids_step(self.objects@, tid@, i as int);
            }
            match &self.objects[i].1 {
                Object::TargetDependency(d) => {
                    if str_eq(d.target.as_str(), tid.as_str()) {
                        out.push(self.objects[i].0.clone());
                    }
                },
                _ => {},
            }
            assert(text_seq(out@) =~= dependency_ids(self.objects@, tid@, i + 1));
            i = i + 1;
        }
        out
    }

    /// Every target loses the dependencies `deps`.
    fn strip_dependencies(&mut self, deps: &Vec<String>)
        requires
            old(self).wf(),
        ensures
            same_header(*old(self), *final(self)),
            final(self).objects@.len() == old(self).objects@.len(),
            forall|j: int|
                0 <= j < old(self).objects@.len() ==> #[trigger] final(self).objects@[j].0 == old(
                    self,
                ).objects@[j].0,
            forall|j: int|
                0 <= j < old(self).objects@.len() ==> dependencies_stripped(
                    old(self).objects@[j].1,
                    #[trigger] final(self).objects@[j].1,
                    text_seq(deps@),
                ),
    {
        let ghost s0 = *self;
        let mut i: usize = 0;
        while i < self.objects.len()
            invariant
                i <= self.objects.len(),
                same_header(s0, *self),
                self.objects@.len() == s0.objects@.len(),
                forall|j: int| 0 <= j < s0.objects@.len() ==> #[trigger] self.objects@[j].0 == s0.objects@[j].0,
                forall|j: int|
                    0 <= j < i ==> dependencies_stripped(
                        s0.objects@[j].1,
                        #[trigger] self.objects@[j].1,
                        text_seq(deps@),
                    ),
                forall|j: int| i <= j < s0.objects@.len() ==> #[trigger] self.objects@[j] == s0.objects@[j],
            decreases self.objects.len() - i,
        {
            let new_deps: Option<Vec<String>> = match &self.objects[i].1 {
                Object::NativeTarget(t) => {
                    let mut d = copy_strings(&t.dependencies);
                    let mut k: usize = 0;
                    assert(text_seq(deps@).take(0) =~= Seq::<Seq<char>>::empty());
                    while k < deps.len()
                        invariant
                            k <= deps.len(),
                            d@ == removed_all(t.dependencies@, text_seq(deps@).take(k as int)),
                        decreases deps.len() - k,
                    {
                        proof {
                            lemma_removed_all_step(t.dependencies@, text_seq(deps@), k as int);
                        }
                        set_remove(&mut d, deps[k].as_str());
                        k = k + 1;
                    }
                    assert(text_seq(deps@).take(k as int) =~= text_seq(deps@));
                    Some(d)
                },
                _ => None,
            };
            match new_deps {
                Some(d) => {
                    let entry = &mut self.objects[i];
                    match &mut entry.1 {
                        Object::NativeTarget(t) => {
                            t.dependencies = d;
                        },
                        _ => {},
                    }
                },
                None => {},
            }
            i = i + 1;
        }
    }
}

/// `b` is `a` with the dependencies `deps` taken out, where `a` is a target;
/// otherwise it is `a`.
pub open spec fn dependencies_stripped(a: Object, b: Object, deps: Seq<Seq<char>>) -> bool {
    match a {
        Object::NativeTarget(u) => with_dependencies(a, b, removed_all(u.dependencies@, deps)),
        _ => b == a,
    }
}

impl Pbxproj {
    /// Takes the first target named `target_name` out (see
    /// `target_removed`). The target, its product reference, a group named
    /// `Products` and the project must be there.
    pub fn remove_target(&mut self, target_name: &str)
        requires
            old(self).wf(),
            first_object(old(self).objects@, target_named(target_name@)) matches Some(t) && old(
                self,
            ).objects@[t].1 matches Object::NativeTarget(tg) && tg.product_reference is Some,
            first_object(old(self).objects@, group_named("Products"@)) is Some,
            old(self).project_spec() is Some,
        ensures
            target_removed(*old(self), *final(self), target_name@),
    {
        let ghost a = *self;
        proof {
            lemma_first_object_from(a.objects@, target_named(target_name@), 0);
            lemma_first_object_from(a.objects@, group_named("Products"@), 0);
            lemma_object_at_key(a, a.root_object@);
        }
        let t = find_object(&self.objects, &ObjectQuery::TargetNamed(target_name)).unwrap();
        let tid = self.objects[t].0.clone();
        let product = match &self.objects[t].1 {
            Object::NativeTarget(tg) => match &tg.product_reference {
                Some(p) => p.clone(),
                None => String::new(),
            },
            _ => String::new(),
        };
        let gp = find_object(&self.objects, &ObjectQuery::GroupNamed("Products")).unwrap();
        let gkey = self.objects[gp].0.clone();
        let ghost pi = key_index(a, a.root_object@)->Some_0;
        proof {
            lemma_wf_key(a, t as int);
            lemma_wf_key(a, gp as int);
            assert(tid@ != gkey@ && tid@ != a.root_object@ && gkey@ != a.root_object@);
        }
        let deps = self.dependency_keys(&tid);
        let ghost dset = text_seq(deps@);
        proof {
            lemma_dependency_ids_are_dependencies(a.objects@, tid@, a.objects@.len() as int);
        }
        self.strip_dependencies(&deps);
        let ghost s1 = *self;
        proof {
            assert(key_seq(s1.objects@) =~= key_seq(a.objects@));
            assert forall|q: Seq<char>| #[trigger] s1.object(q) == match a.object(q) {
                Some(x) => Some(s1.objects@[key_index(a, q)->Some_0].1),
                None => None::<Object>,
            } by {
                lemma_object_at_key(a, q);
                lemma_object_at_key(s1, q);
            }
        }
        let mut k: usize = 0;
        while k < deps.len()
            invariant
                k <= deps.len(),
                dset == text_seq(deps@),
                self.wf(),
                same_header(s1, *self),
                forall|q: Seq<char>| #[trigger] self.object(q) == if dset.take(k as int).contains(q) {
                    None
                } else {
                    s1.object(q)
                },
            decreases deps.len() - k,
        {
            let ghost before = *self;
            map_remove(&mut self.objects, deps[k].as_str());
            proof {
                assert forall|q: Seq<char>| #[trigger] self.object(q) == if dset.take(k + 1).contains(q) {
                    None
                } else {
                    s1.object(q)
                } by {
                    lemma_map_remove_get(before.objects@, deps@[k as int]@, q);
                    assert(before.object(q) == if dset.take(k as int).contains(q) {
                        None
                    } else {
                        s1.object(q)
                    });
                    assert(dset[k as int] == deps@[k as int]@);
                    assert(dset.take(k + 1) =~= dset.take(k as int).push(dset[k as int]));
                    if q == dset[k as int] {
                        assert(dset.take(k + 1)[k as int] == q);
                    } else if dset.take(k + 1).contains(q) {
                        let m = choose|m: int| 0 <= m < k + 1 && #[trigger] dset.take(k + 1)[m] == q;
                        assert(dset.take(k as int)[m] == q);
                    } else if dset.take(k as int).contains(q) {
                        let m = choose|m: int| 0 <= m < k && #[trigger] dset.take(k as int)[m] == q;
                        assert(dset.take(k + 1)[m] == q);
                    }
                }
                lemma_map_remove_get(before.objects@, deps@[k as int]@, deps@[k as int]@);
            }
            k = k + 1;
        }
        assert(dset.take(k as int) =~= dset);
        let ghost s2 = *self;
        proof {
            assert(!dset.contains(gkey@) && !dset.contains(a.root_object@) && !dset.contains(tid@)) by {
                if dset.contains(gkey@) {
                    let m = choose|m: int| 0 <= m < dset.len() && dset[m] == gkey@;
                    let kk = choose|kk: int| 0 <= kk < a.objects@.len() && a.objects@[kk].0@ == dset[m] && a.objects@[kk].1 is TargetDependency;
                    lemma_wf_key(a, kk);
                }
                if dset.contains(a.root_object@) {
                    let m = choose|m: int| 0 <= m < dset.len() && dset[m] == a.root_object@;
                    let kk = choose|kk: int| 0 <= kk < a.objects@.len() && a.objects@[kk].0@ == dset[m] && a.objects@[kk].1 is TargetDependency;
                    lemma_wf_key(a, kk);
                }
                if dset.contains(tid@) {
                    let m = choose|m: int| 0 <= m < dset.len() && dset[m] == tid@;
                    let kk = choose|kk: int| 0 <= kk < a.objects@.len() && a.objects@[kk].0@ == dset[m] && a.objects@[kk].1 is TargetDependency;
                    lemma_wf_key(a, kk);
                }
            }
            assert(s2.object(gkey@) == a.object(gkey@));
            assert(s2.object(a.root_object@) == a.object(a.root_object@));
            lemma_object_at_key(s2, gkey@);
        }
        {
            let g = self.group_mut(gkey.as_str()).unwrap();
            set_remove(&mut g.children, product.as_str());
        }
        let ghost s3 = *self;
        proof {
            let i3 = key_index(s2, gkey@)->Some_0;
            lemma_replaced_frame(s2, s3, i3, s3.objects@[i3].1);
            lemma_object_at_key(s3, s3.root_object@);
        }
        {
            let p = self.project_mut().unwrap();
            set_remove(&mut p.targets, tid.as_str());
        }
        let ghost s4 = *self;
        proof {
            let i4 = key_index(s3, s3.root_object@)->Some_0;
            lemma_replaced_frame(s3, s4, i4, s4.objects@[i4].1);
        }
        map_remove(&mut self.objects, tid.as_str());
        proof {
            assert forall|q: Seq<char>| #[trigger] self.object(q) == if q == tid@ {
                None
            } else {
                s4.object(q)
            } by {
                lemma_map_remove_get(s4.objects@, tid@, q);
            }
            lemma_map_remove_get(s4.objects@, tid@, tid@);
            assert(dependency_ids(a.objects@, tid@, a.objects@.len() as int) == dset);
            assert forall|j: int| 0 <= j < dset.len() implies self.object(#[trigger] dset[j]) is None by {
                assert(dset.contains(dset[j]));
                assert(dset[j] != gkey@ && dset[j] != a.root_object@);
            }
            assert forall|q: Seq<char>|
                q != tid@ && !dset.contains(q) && q != gkey@ && q != a.root_object@ implies (
                match a.object(q) {
                    Some(Object::NativeTarget(u)) => #[trigger] self.object(q) matches Some(o) && with_dependencies(
                        Object::NativeTarget(u),
                        o,
                        removed_all(u.dependencies@, dset),
                    ),
                    _ => self.object(q) == a.object(q),
                }) by {
                lemma_object_at_key(a, q);
                assert(self.object(q) == s1.object(q));
            }
            assert(a.objects@[pi].0@ == a.root_object@);
        }
    }
}

/// The first child of the group `target` that is a group whose path is
/// `name`.
pub open spec fn path_child(p: Pbxproj, target: Seq<char>, name: Seq<char>) -> Option<Seq<char>> {
    match p.group_spec(target) {
        Some(g) => match path_child_from(p, g.children@, name, 0) {
            Some(c) => Some(g.children@[c]@),
            None => None,
        },
        None => None,
    }
}

/// The index of the first of `children`, from `i` on, that is a group whose
/// path is `name`.
pub open spec fn path_child_from(p: Pbxproj, children: Seq<String>, name: Seq<char>, i: int) -> Option<int>
    decreases children.len() - i,
{
    if i < 0 || i >= children.len() {
        None
    } else if p.group_spec(children[i]@) matches Some(g) && g.path matches Some(x) && x@ == name {
        Some(i)
    } else {
        path_child_from(p, children, name, i + 1)
    }
}

proof fn lemma_path_child_from(p: Pbxproj, children: Seq<String>, name: Seq<char>, i: int)
    requires
        0 <= i <= children.len(),
    ensures
        path_child_from(p, children, name, i) matches Some(c) ==> i <= c < children.len() && (p.group_spec(
            children[c]@,
        ) matches Some(g) && g.path matches Some(x) && x@ == name),
    decreases children.len() - i,
{
    if i < children.len() && !(p.group_spec(children[i]@) matches Some(g) && g.path matches Some(x) && x@
        == name) {
        lemma_path_child_from(p, children, name, i + 1);
    }
}

/// How far the path `names` already exists below the group `target`: the
/// group it reaches and how many of the names it has walked.
pub open spec fn walk_existing(p: Pbxproj, target: Seq<char>, names: Seq<Seq<char>>) -> (Seq<char>, nat)
    decreases names.len(),
{
    if names.len() == 0 {
        (target, 0)
    } else {
        match path_child(p, target, names[0]) {
            Some(c) => {
                let r = walk_existing(p, c, names.drop_first());
                (r.0, r.1 + 1)
            },
            None => (target, 0),
        }
    }
}

proof fn lemma_walk_existing(p: Pbxproj, target: Seq<char>, names: Seq<Seq<char>>)
    requires
        p.group_spec(target) is Some,
    ensures
        walk_existing(p, target, names).1 <= names.len(),
        p.group_spec(walk_existing(p, target, names).0) is Some,
    decreases names.len(),
{
    if names.len() > 0 {
        let g = p.group_spec(target)->Some_0;
        lemma_path_child_from(p, g.children@, names[0], 0);
        match path_child(p, target, names[0]) {
            Some(c) => {
                lemma_walk_existing(p, c, names.drop_first());
            },
            None => {},
        }
    }
}

/// The group made for the `j`-th name of a path whose groups get the ids
/// `ids`: its path is the name, and its one child the next group, if any.
pub open spec fn is_path_group(o: Object, names: Seq<Seq<char>>, ids: Seq<String>, j: int) -> bool {
    &&& o matches Object::Group(g)
    &&& g.children@ == if j + 1 < names.len() {
        seq![ids[j + 1]]
    } else {
        Seq::<String>::empty()
    }
    &&& g.name is None
    &&& g.path matches Some(x) && x@ == names[j]
    &&& g.source_tree@ == "<group>"@
}

/// `b` is `a` with the path `names` made below the main group: the part of
/// it that exists is walked by path; a group is made for each name after
/// that, under `ids` at the same index, each the child of the one before, the
/// first the child of the group the walk reached.
pub open spec fn path_added(a: Pbxproj, b: Pbxproj, names: Seq<Seq<char>>, ids: Seq<String>) -> bool {
    &&& a.project_spec() matches Some(p)
    &&& {
        let w = walk_existing(a, p.main_group@, names);
        if w.1 == names.len() {
            b == a
        } else {
            &&& b.wf()
            &&& same_header(a, b)
            &&& forall|j: int| w.1 <= j < names.len() ==> (b.object(#[trigger] ids[j]@) matches Some(o) && is_path_group(o, names, ids, j))
            &&& key_index(a, w.0) matches Some(wi)
            &&& a.objects@[wi].1 matches Object::Group(g)
            &&& b.object(w.0) matches Some(o) && with_children(a.objects@[wi].1, o, set_inserted(g.children@, ids[w.1 as int]))
            &&& forall|q: Seq<char>| q != w.0 && !texts(ids.skip(w.1 as int)).contains(q) ==> #[trigger] b.object(q) == a.object(q)
        }
    }
}

impl Pbxproj {
    /// How far the path `names` already exists below the main group (see
    /// `walk_existing`). The project and its main group must be there.
    pub fn walk_path(&self, names: &Vec<String>) -> (res: (String, usize))
        requires
            self.project_spec() matches Some(p) && self.group_spec(p.main_group@) is Some,
        ensures
            self.project_spec() matches Some(p) && walk_existing(*self, p.main_group@, texts(names@))
                == (res.0@, res.1 as nat),
    {
        let ghost p0 = *self;
        let ghost main = p0.project_spec()->Some_0.main_group@;
        let mut cur = self.project().unwrap().main_group.clone();
        let mut i: usize = 0;
        assert(texts(names@).skip(0) =~= texts(names@));
        while i < names.len()
            invariant
                i <= names.len(),
                *self == p0,
                p0.project_spec() matches Some(p) && main == p.main_group@,
                p0.group_spec(cur@) is Some,
                walk_existing(p0, main, texts(names@)) == (
                    walk_existing(p0, cur@, texts(names@).skip(i as int)).0,
                    (walk_existing(p0, cur@, texts(names@).skip(i as int)).1 + i) as nat,
                ),
            decreases names.len() - i,
        {
            let name = names[i].as_str();
            let group = self.group(cur.as_str()).unwrap();
            let children = &group.children;
            let ghost start = cur@;
            proof {
                lemma_path_child_from(p0, children@, name@, 0);
            }
            let mut next: Option<String> = None;
            let mut c: usize = 0;
            while c < children.len()
                invariant_except_break
                    next is None,
                invariant
                    c <= children.len(),
                    *self == p0,
                    p0.group_spec(start) == Some(*group),
                    path_child_from(p0, children@, name@, c as int) == path_child_from(p0, children@, name@, 0),
                ensures
                    match path_child_from(p0, children@, name@, 0) {
                        Some(k) => next matches Some(n) && n@ == children@[k]@,
                        None => next is None,
                    },
                decreases children.len() - c,
            {
                let mut hit = false;
                if let Some(child_group) = self.group(children[c].as_str()) {
                    if let Some(child_path) = &child_group.path {
                        hit = str_eq(child_path.as_str(), name);
                    }
                }
                if hit {
                    next = Some(children[c].clone());
                    break;
                }
                c = c + 1;
            }
            let ghost rest = texts(names@).skip(i as int);
            assert(rest[0] == name@);
            assert(rest.drop_first() =~= texts(names@).skip(i + 1));
            match next {
                Some(n) => {
                    proof {
                        assert(path_child(p0, start, name@) == Some(n@));
                    }
                    cur = n;
                },
                None => {
                    assert(path_child(p0, start, name@) is None);
                    return (cur, i);
                },
            }
            i = i + 1;
        }
        (cur, i)
    }

    /// Makes the path `names` below the main group, with the new groups
    /// under `ids` (see `path_added`). The ids must be new, one for each
    /// name; the project and its main group must be there.
    pub fn add_path_with_ids(&mut self, names: &Vec<String>, ids: &Vec<String>)
        requires
            old(self).wf(),
            ids.len() == names.len(),
            fresh_ids(*old(self), ids@),
            old(self).project_spec() matches Some(p) && old(self).group_spec(p.main_group@) is Some,
        ensures
            path_added(*old(self), *final(self), texts(names@), ids@),
    {
        let ghost a = *self;
        let ghost main = a.project_spec()->Some_0.main_group@;
        proof {
            lemma_walk_existing(a, main, texts(names@));
        }
        let (w, d) = self.walk_path(names);
        let n = names.len();
        if d == n {
            return;
        }
        proof {
            lemma_object_at_key(a, w@);
            assert forall|m: int| 0 <= m < ids@.len() implies #[trigger] ids@[m]@ != w@ by {
                assert(a.object(ids@[m]@) is None);
            }
        }
        let mut j: usize = d;
        assert(texts(ids@.skip(d as int)).take(0) =~= Seq::<Seq<char>>::empty());
        while j < n
            invariant
                d <= j <= n,
                n == names.len(),
                ids.len() == n,
                fresh_ids(a, ids@),
                self.wf(),
                same_header(a, *self),
                forall|m: int| d <= m < j ==> (self.object(#[trigger] ids@[m]@) matches Some(o)
                    && is_path_group(o, texts(names@), ids@, m)),
                forall|q: Seq<char>| !texts(ids@.skip(d as int)).take(j - d).contains(q) ==> #[trigger] self.object(q)
                    == a.object(q),
            decreases n - j,
        {
            let ghost before = *self;
            let mut children: Vec<String> = Vec::new();
            if j + 1 < n {
                children.push(ids[j + 1].clone());
            }
            assert(children@ =~= if j + 1 < n {
                seq![ids@[j + 1]]
            } else {
                Seq::<String>::empty()
            });
            let group = Group {
                children: children,
                source_tree: "<group>".to_string(),
                name: None,
                path: Some(names[j].clone()),
            };
            self.insert_object(ids[j].clone(), Object::Group(group));
            proof {
                let t = texts(ids@.skip(d as int));
                assert(t.take(j + 1 - d) =~= t.take(j - d).push(ids@[j as int]@));
                assert forall|m: int| d <= m < j + 1 implies (self.object(#[trigger] ids@[m]@) matches Some(o)
                    && is_path_group(o, texts(names@), ids@, m)) by {
                    if m < j {
                        assert(ids@[m]@ != ids@[j as int]@);
                        assert(self.object(ids@[m]@) == before.object(ids@[m]@));
                    }
                }
                assert forall|q: Seq<char>| !t.take(j + 1 - d).contains(q) implies #[trigger] self.object(q)
                    == a.object(q) by {
                    assert(t.take(j + 1 - d)[j - d] == ids@[j as int]@);
                    if t.take(j - d).contains(q) {
                        let m = choose|m: int| 0 <= m < j - d && #[trigger] t.take(j - d)[m] == q;
                        assert(t.take(j + 1 - d)[m] == q);
                    }
                }
            }
            j = j + 1;
        }
        let ghost s1 = *self;
        proof {
            let t = texts(ids@.skip(d as int));
            assert(t.take(n - d) =~= t);
            assert(!t.contains(w@)) by {
                if t.contains(w@) {
                    let m = choose|m: int| 0 <= m < t.len() && #[trigger] t[m] == w@;
                    assert(ids@[m + d]@ == w@);
                }
            }
            lemma_object_at_key(s1, w@);
        }
        {
            let g = self.group_mut(w.as_str()).unwrap();
            set_insert(&mut g.children, ids[d].clone());
        }
        proof {
            let i1 = key_index(s1, w@)->Some_0;
            lemma_replaced_frame(s1, *self, i1, self.objects@[i1].1);
            let t = texts(ids@.skip(d as int));
            assert forall|m: int| d <= m < n implies (self.object(#[trigger] ids@[m]@) matches Some(o)
                && is_path_group(o, texts(names@), ids@, m)) by {
                assert(ids@[m]@ != w@);
            }
        }
    }

    /// Makes the path `path` below the main group, with the new groups under
    /// new random ids (see `path_added`). Where an id drawn is already taken,
    /// or drawn twice, the project is left as it is and the result is
    /// `false`. The project and its main group must be there.
    pub fn add_path(&mut self, path: &str) -> (res: bool)
        requires
            old(self).wf(),
            old(self).project_spec() matches Some(p) && old(self).group_spec(p.main_group@) is Some,
        ensures
            res ==> exists|ids: Seq<String>|
                #[trigger] fresh_ids(*old(self), ids) && ids.len() == path_components_of(path@).len()
                    && path_added(*old(self), *final(self), path_components_of(path@), ids),
            !res ==> *final(self) == *old(self),
            exists|d: Seq<String>|
                #[trigger] drawn_ids(d, path_components_of(path@).len()) && (res <==> fresh_ids(*old(self), d)) && (
                res ==> path_added(*old(self), *final(self), path_components_of(path@), d)),
            path_components_of(path@).len() == 0 ==> res,
    {
        let names = path_components(path);
        let n = names.len();
        let ids = self.fresh_random_ids(n);
        let ghost d = choose|d: Seq<String>|
            #[trigger] drawn_ids(d, n as nat) && match ids {
                Some(v) => v@ == d && fresh_ids(*self, d),
                None => !fresh_ids(*self, d),
            };
        assert(texts(names@).len() == names@.len());
        match ids {
            Some(ids) => {
                self.add_path_with_ids(&names, &ids);
                assert(fresh_ids(*old(self), ids@));
                assert(drawn_ids(d, n as nat) && ids@ == d);
                true
            },
            None => {
                assert(drawn_ids(d, n as nat) && !fresh_ids(*old(self), d));
                false
            },
        }
    }
}

/// Whether no group of the project lists any of `ids` among its children.
pub open spec fn ids_unlisted(p: Pbxproj, ids: Seq<String>) -> bool {
    forall|id: Seq<char>, k: int|
        #![trigger p.group_spec(id)->Some_0.children@[k]]
        p.group_spec(id) is Some && 0 <= k < p.group_spec(id)->Some_0.children@.len() ==> !texts(ids).contains(
            p.group_spec(id)->Some_0.children@[k]@,
        )
}

/// Whether `id` names a group whose path is `name`.
pub open spec fn path_group_named(p: Pbxproj, id: Seq<char>, name: Seq<char>) -> bool {
    p.group_spec(id) matches Some(g) && g.path matches Some(x) && x@ == name
}

/// The first of `children` that is a group whose path is `name`.
pub open spec fn first_path_child(p: Pbxproj, children: Seq<String>, name: Seq<char>) -> Option<Seq<char>> {
    match path_child_from(p, children, name, 0) {
        Some(k) => Some(children[k]@),
        None => None,
    }
}

proof fn lemma_path_child_first(p: Pbxproj, s: Seq<String>, name: Seq<char>, i: int)
    requires
        0 <= i <= s.len(),
    ensures
        path_child_from(p, s, name, i) matches Some(k) ==> i <= k < s.len() && path_group_named(p, s[k]@, name)
            && forall|j: int| i <= j < k ==> !path_group_named(p, #[trigger] s[j]@, name),
        path_child_from(p, s, name, i) is None ==> forall|j: int|
            i <= j < s.len() ==> !path_group_named(p, #[trigger] s[j]@, name),
    decreases s.len() - i,
{
    if i < s.len() {
        lemma_path_child_first(p, s, name, i + 1);
    }
}

proof fn lemma_path_child_same(a: Pbxproj, b: Pbxproj, s: Seq<String>, name: Seq<char>, i: int)
    requires
        0 <= i <= s.len(),
        forall|j: int| 0 <= j < s.len() ==> path_group_named(a, #[trigger] s[j]@, name) == path_group_named(b, s[j]@, name),
    ensures
        path_child_from(a, s, name, i) == path_child_from(b, s, name, i),
    decreases s.len() - i,
{
    if i < s.len() {
        assert(path_group_named(a, s[i]@, name) == path_group_named(b, s[i]@, name));
        lemma_path_child_same(a, b, s, name, i + 1);
    }
}

proof fn lemma_path_child_inserted(p: Pbxproj, s: Seq<String>, x: String, pos: int, name: Seq<char>)
    requires
        0 <= pos <= s.len(),
    ensures
        !path_group_named(p, x@, name) ==> first_path_child(p, s.take(pos).push(x) + s.skip(pos), name)
            == first_path_child(p, s, name),
        path_group_named(p, x@, name) && path_child_from(p, s, name, 0) is None ==> first_path_child(
            p,
            s.take(pos).push(x) + s.skip(pos),
            name,
        ) == Some(x@),
{
    let t = s.take(pos).push(x) + s.skip(pos);
    assert(t.len() == s.len() + 1);
    assert forall|j: int| 0 <= j < pos implies #[trigger] t[j] == s[j] by {}
    assert(t[pos] == x);
    assert forall|j: int| pos < j <= s.len() implies #[trigger] t[j] == s[j - 1] by {}
    lemma_path_child_first(p, s, name, 0);
    lemma_path_child_first(p, t, name, 0);
    if !path_group_named(p, x@, name) {
        match path_child_from(p, s, name, 0) {
            None => {
                assert forall|j: int| 0 <= j < t.len() implies !path_group_named(p, #[trigger] t[j]@, name) by {
                    if j < pos {
                        assert(t[j] == s[j]);
                    } else if j > pos {
                        assert(t[j] == s[j - 1]);
                    }
                }
            },
            Some(k) => {
                let k2 = if k < pos { k } else { k + 1 };
                assert(t[k2] == s[k]);
                assert(path_group_named(p, t[k2]@, name));
                let k1 = path_child_from(p, t, name, 0)->Some_0;
                assert(k1 <= k2) by {
                    if k1 > k2 {
                        assert(!path_group_named(p, t[k2]@, name));
                    }
                }
                assert(k1 != pos);
                let m = if k1 < pos { k1 } else { k1 - 1 };
                assert(t[k1] == s[m]);
                assert(m >= k) by {
                    if m < k {
                        assert(!path_group_named(p, s[m]@, name));
                    }
                }
                assert forall|j: int| 0 <= j < m implies !path_group_named(p, #[trigger] s[j]@, name) by {
                    let jt = if j < pos { j } else { j + 1 };
                    assert(t[jt] == s[j]);
                    assert(jt < k1);
                    assert(!path_group_named(p, t[jt]@, name));
                }
                assert(m == k) by {
                    if m > k {
                        assert(!path_group_named(p, s[k]@, name));
                    }
                }
            },
        }
    } else if path_child_from(p, s, name, 0) is None {
        let k1 = path_child_from(p, t, name, 0)->Some_0;
        assert(k1 <= pos) by {
            if k1 > pos {
                assert(!path_group_named(p, t[pos]@, name));
            }
        }
        if k1 < pos {
            assert(t[k1] == s[k1]);
            assert(!path_group_named(p, s[k1]@, name));
        }
    }
}

/// Where a walk stops short of the end of the path, the group it reached
/// has no group child for the next name.
proof fn lemma_walk_stops(p: Pbxproj, target: Seq<char>, names: Seq<Seq<char>>)
    ensures
        walk_existing(p, target, names).1 < names.len() ==> path_child(
            p,
            walk_existing(p, target, names).0,
            names[walk_existing(p, target, names).1 as int],
        ) is None,
    decreases names.len(),
{
    if names.len() > 0 {
        if let Some(c) = path_child(p, target, names[0]) {
            lemma_walk_stops(p, c, names.drop_first());
        }
    }
}

/// In the project after a path was made, the new groups lead from the
/// `j - 1`-th to the last.
proof fn lemma_walk_new_groups(b: Pbxproj, names: Seq<Seq<char>>, ids: Seq<String>, d: int, j: int)
    requires
        0 <= d < j <= names.len(),
        ids.len() == names.len(),
        forall|m: int| d <= m < names.len() ==> (b.object(#[trigger] ids[m]@) matches Some(o) && is_path_group(o, names, ids, m)),
    ensures
        walk_existing(b, ids[j - 1]@, names.skip(j)) == (ids[names.len() - 1]@, (names.len() - j) as nat),
    decreases names.len() - j,
{
    let ns = names.skip(j);
    if j < names.len() {
        assert(b.object(ids[j - 1]@) matches Some(o) && is_path_group(o, names, ids, j - 1));
        assert(b.object(ids[j]@) matches Some(o) && is_path_group(o, names, ids, j));
        let g = b.group_spec(ids[j - 1]@)->Some_0;
        assert(g.children@ == seq![ids[j]]);
        assert(ns[0] == names[j]);
        assert(path_child_from(b, g.children@, names[j], 0) == Some(0int));
        assert(path_child(b, ids[j - 1]@, ns[0]) == Some(ids[j]@));
        assert(ns.drop_first() =~= names.skip(j + 1));
        lemma_walk_new_groups(b, names, ids, d, j + 1);
    } else {
        assert(ns.len() == 0);
    }
}

/// The first group child named `name` of the group `w0` after `x`, one of
/// `ids`, joined its children: that of the group before where `x` is no such
/// group, and `x` where it is one and the group had none.
proof fn lemma_first_after_insert(
    a: Pbxproj,
    b: Pbxproj,
    w0: Seq<char>,
    g: Group,
    ids: Seq<String>,
    x: String,
    name: Seq<char>,
)
    requires
        ids_unlisted(a, ids),
        a.group_spec(w0) == Some(g),
        texts(ids).contains(x@),
        forall|q: Seq<char>| !texts(ids).contains(q) ==> path_group_named(a, q, name) == path_group_named(b, q, name),
    ensures
        !path_group_named(b, x@, name) ==> first_path_child(b, set_inserted(g.children@, x), name)
            == first_path_child(a, g.children@, name),
        path_group_named(b, x@, name) && first_path_child(a, g.children@, name) is None ==> first_path_child(
            b,
            set_inserted(g.children@, x),
            name,
        ) == Some(x@),
{
    let s = g.children@;
    assert forall|k: int| 0 <= k < s.len() implies !texts(ids).contains(#[trigger] s[k]@) by {
        assert(a.group_spec(w0)->Some_0.children@[k] == s[k]);
    }
    assert forall|j: int| 0 <= j < s.len() implies path_group_named(a, #[trigger] s[j]@, name)
        == path_group_named(b, s[j]@, name) by {
        assert(!texts(ids).contains(s[j]@));
    }
    lemma_path_child_same(a, b, s, name, 0);
    let ts = text_seq(s);
    lemma_lower_bound_from(ts, x@, 0);
    let pos = lower_bound(ts, x@);
    if pos < s.len() {
        assert(ts[pos] == s[pos]@);
        assert(!texts(ids).contains(s[pos]@));
    }
    assert(set_inserted(s, x) == s.take(pos).push(x) + s.skip(pos));
    lemma_path_child_inserted(b, s, x, pos, name);
}

/// After a path was made, the walk below the main group follows the old
/// groups as before up to the group where the first walk stopped, and goes
/// on into the new groups from there.
proof fn lemma_walk_old_groups(
    a: Pbxproj,
    b: Pbxproj,
    names: Seq<Seq<char>>,
    ids: Seq<String>,
    d: int,
    w0: Seq<char>,
    g: Group,
    i: int,
    t: Seq<char>,
)
    requires
        0 <= i <= d < names.len(),
        ids.len() == names.len(),
        ids_unlisted(a, ids),
        fresh_ids(a, ids),
        a.group_spec(t) is Some,
        walk_existing(a, t, names.skip(i)) == (w0, (d - i) as nat),
        path_child(a, w0, names[d]) is None,
        a.group_spec(w0) == Some(g),
        b.group_spec(w0) matches Some(h) && h.children@ == set_inserted(g.children@, ids[d]) && h.path == g.path,
        forall|q: Seq<char>| !texts(ids).contains(q) && q != w0 ==> #[trigger] b.object(q) == a.object(q),
        b.object(ids[d]@) matches Some(o) && is_path_group(o, names, ids, d),
    ensures
        walk_existing(b, t, names.skip(i)) == (
            walk_existing(b, ids[d]@, names.skip(d + 1)).0,
            (walk_existing(b, ids[d]@, names.skip(d + 1)).1 + (d - i) + 1) as nat,
        ),
    decreases d - i,
{
    let ns = names.skip(i);
    assert(ns[0] == names[i]);
    assert(ns.drop_first() =~= names.skip(i + 1));
    assert(a.object(ids[d]@) is None);
    assert(texts(ids)[d] == ids[d]@);
    assert forall|q: Seq<char>, nm: Seq<char>| !texts(ids).contains(q) implies path_group_named(a, q, nm)
        == path_group_named(b, q, nm) by {
        if q != w0 {
            assert(b.object(q) == a.object(q));
        }
    }
    assert(!texts(ids).contains(t)) by {
        if texts(ids).contains(t) {
            let m = choose|m: int| 0 <= m < texts(ids).len() && texts(ids)[m] == t;
            assert(a.object(ids[m]@) is None);
        }
    }
    match path_child(a, t, names[i]) {
        None => {
            assert(t == w0 && i == d);
            assert(path_group_named(b, ids[d]@, names[d]));
            lemma_first_after_insert(a, b, w0, g, ids, ids[d], names[d]);
            assert(path_child(b, t, names[i]) == Some(ids[d]@));
        },
        Some(c) => {
            assert(i < d);
            lemma_path_child_first(a, a.group_spec(t)->Some_0.children@, names[i], 0);
            if t == w0 {
                assert(names[i] != names[d]);
                assert(!path_group_named(b, ids[d]@, names[i]));
                lemma_first_after_insert(a, b, w0, g, ids, ids[d], names[i]);
            } else {
                let s = a.group_spec(t)->Some_0.children@;
                assert(b.object(t) == a.object(t));
                assert forall|j: int| 0 <= j < s.len() implies path_group_named(a, #[trigger] s[j]@, names[i])
                    == path_group_named(b, s[j]@, names[i]) by {
                    assert(a.group_spec(t)->Some_0.children@[j] == s[j]);
                    assert(!texts(ids).contains(s[j]@));
                }
                lemma_path_child_same(a, b, s, names[i], 0);
            }
            assert(path_child(b, t, names[i]) == Some(c));
            lemma_walk_old_groups(a, b, names, ids, d, w0, g, i + 1, c);
        },
    }
}

/// Making a path a second time changes nothing. Once a path was made below
/// the main group, the whole of it exists, so a second call walks every name
/// by path and leaves the project as it was, whatever ids it would have
/// used. This holds where no group listed any of the first call's ids as a
/// child before that call (a child id that names no object, and that the
/// first call then gives to one of its groups, could be found first on the
/// second walk).
pub proof fn lemma_add_path_again(
    a: Pbxproj,
    b: Pbxproj,
    c: Pbxproj,
    names: Seq<Seq<char>>,
    ids: Seq<String>,
    more_ids: Seq<String>,
)
    requires
        a.wf(),
        ids_unlisted(a, ids),
        ids.len() == names.len(),
        fresh_ids(a, ids),
        a.project_spec() matches Some(p) && a.group_spec(p.main_group@) is Some,
        path_added(a, b, names, ids),
        path_added(b, c, names, more_ids),
    ensures
        c == b,
{
    let main = a.project_spec()->Some_0.main_group@;
    let w = walk_existing(a, main, names);
    lemma_walk_existing(a, main, names);
    if w.1 < names.len() {
        let d = w.1 as int;
        let w0 = w.0;
        lemma_walk_stops(a, main, names);
        lemma_object_at_key(a, w0);
        let g = a.group_spec(w0)->Some_0;
        assert forall|q: Seq<char>| !texts(ids).contains(q) && q != w0 implies #[trigger] b.object(q) == a.object(q) by {
            if texts(ids.skip(d)).contains(q) {
                let m = choose|m: int| 0 <= m < texts(ids.skip(d)).len() && texts(ids.skip(d))[m] == q;
                assert(texts(ids)[m + d] == q);
            }
        }
        assert(!texts(ids).contains(a.root_object@)) by {
            if texts(ids).contains(a.root_object@) {
                let m = choose|m: int| 0 <= m < texts(ids).len() && texts(ids)[m] == a.root_object@;
                assert(a.object(ids[m]@) is None);
            }
        }
        assert(b.object(a.root_object@) == a.object(a.root_object@));
        assert(b.project_spec() == a.project_spec());
        assert(names.skip(0) =~= names);
        lemma_walk_old_groups(a, b, names, ids, d, w0, g, 0, main);
        lemma_walk_new_groups(b, names, ids, d, d + 1);
        assert(walk_existing(b, main, names).1 == names.len());
    }
}


/// Whether every child of every group names an object of the project, as
/// in a project file that Xcode wrote.
pub open spec fn children_exist(p: Pbxproj) -> bool {
    forall|id: Seq<char>, k: int|
        #![trigger p.group_spec(id)->Some_0.children@[k]]
        p.group_spec(id) is Some && 0 <= k < p.group_spec(id)->Some_0.children@.len() ==> p.object(
            p.group_spec(id)->Some_0.children@[k]@,
        ) is Some
}

/// Making a path keeps every child of every group naming an object.
pub proof fn lemma_add_path_keeps_children(a: Pbxproj, b: Pbxproj, names: Seq<Seq<char>>, ids: Seq<String>)
    requires
        children_exist(a),
        ids.len() == names.len(),
        fresh_ids(a, ids),
        a.project_spec() matches Some(p) && a.group_spec(p.main_group@) is Some,
        path_added(a, b, names, ids),
    ensures
        children_exist(b),
{
    let main = a.project_spec()->Some_0.main_group@;
    let w = walk_existing(a, main, names);
    lemma_walk_existing(a, main, names);
    if w.1 < names.len() {
        let d = w.1 as int;
        let w0 = w.0;
        lemma_object_at_key(a, w0);
        let g = a.group_spec(w0)->Some_0;
        let new = texts(ids.skip(d));
        assert forall|q: Seq<char>| a.object(q) is Some implies #[trigger] b.object(q) is Some by {
            if q != w0 && new.contains(q) {
                let m = choose|m: int| 0 <= m < new.len() && new[m] == q;
                assert(ids[m + d]@ == q);
                assert(a.object(ids[m + d]@) is None);
            }
        }
        assert forall|id: Seq<char>, k: int|
            b.group_spec(id) is Some && 0 <= k < b.group_spec(id)->Some_0.children@.len() implies b.object(
                #[trigger] b.group_spec(id)->Some_0.children@[k]@,
            ) is Some by {
            let h = b.group_spec(id)->Some_0;
            let c = h.children@[k];
            if id == w0 {
                let s0 = g.children@;
                let ts = text_seq(s0);
                lemma_lower_bound_from(ts, ids[d]@, 0);
                let pos = lower_bound(ts, ids[d]@);
                if pos < s0.len() && s0[pos]@ == ids[d]@ {
                    assert(a.group_spec(w0)->Some_0.children@[k] == c);
                    assert(a.object(c@) is Some);
                } else {
                    let t = s0.take(pos).push(ids[d]) + s0.skip(pos);
                    assert(h.children@ == t);
                    if k < pos {
                        assert(c == s0[k]);
                        assert(a.group_spec(w0)->Some_0.children@[k] == c);
                    } else if k > pos {
                        assert(c == s0[k - 1]);
                        assert(a.group_spec(w0)->Some_0.children@[k - 1] == c);
                    } else {
                        assert(c == ids[d]);
                    }
                }
            } else if new.contains(id) {
                let m = choose|m: int| 0 <= m < new.len() && new[m] == id;
                assert(ids[m + d]@ == id);
                assert(b.object(ids[m + d]@) matches Some(o) && is_path_group(o, names, ids, m + d));
                assert(c == ids[m + d + 1]);
            } else {
                assert(b.object(id) == a.object(id));
                assert(a.group_spec(id)->Some_0.children@[k] == c);
            }
        }
    }
}

/// In a project whose groups list only objects, making a path a second
/// time changes nothing, and the project stays such a project.
pub proof fn lemma_add_path_again_in_listed_project(
    a: Pbxproj,
    b: Pbxproj,
    c: Pbxproj,
    names: Seq<Seq<char>>,
    ids: Seq<String>,
    more_ids: Seq<String>,
)
    requires
        a.wf(),
        children_exist(a),
        ids.len() == names.len(),
        fresh_ids(a, ids),
        a.project_spec() matches Some(p) && a.group_spec(p.main_group@) is Some,
        path_added(a, b, names, ids),
        path_added(b, c, names, more_ids),
    ensures
        c == b,
        children_exist(b),
{
    assert forall|id: Seq<char>, k: int|
        a.group_spec(id) is Some && 0 <= k < a.group_spec(id)->Some_0.children@.len() implies !texts(ids).contains(
            #[trigger] a.group_spec(id)->Some_0.children@[k]@,
        ) by {
        let x = a.group_spec(id)->Some_0.children@[k]@;
        if texts(ids).contains(x) {
            let m = choose|m: int| 0 <= m < texts(ids).len() && texts(ids)[m] == x;
            assert(a.object(ids[m]@) is None);
        }
    }
    lemma_add_path_again(a, b, c, names, ids, more_ids);
    lemma_add_path_keeps_children(a, b, names, ids);
}

} // verus!
