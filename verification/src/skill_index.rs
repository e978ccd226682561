//! The index of the skills found on disk: which skill files each directory holds, the
//! skill at each file, and the files of each skill name; and which of them are in scope
//! for a working directory.

use vstd::prelude::*;

use crate::assoc::{assoc, keys_unique, lemma_assoc, lemma_assoc_push, lemma_assoc_remove, lemma_assoc_update};
use crate::skills::{opt_string_view, SkillPath};
use crate::sort::{is_permutation, lemma_permutation_onto, sorted_by, sorted_by_as, stable_sort_by_keys, text_lt, uniform, KeyView, SortKey};
use crate::text::{append_str, chars_of, push_char, str_eq};

verus! {

/// A skill file or a directory: on this machine (`host` is `None`) or on a remote host.
#[derive(Clone, Debug, PartialEq, Eq)]
pub struct SkillLocation {
    pub host: Option<String>,
    pub path: SkillPath,
}

/// A location as a spec value.
pub ghost struct LocationView {
    pub host: Option<Seq<char>>,
    pub absolute: bool,
    pub components: Seq<Seq<char>>,
}

impl View for SkillLocation {
    type V = LocationView;

    open spec fn view(&self) -> LocationView {
        LocationView {
            host: opt_string_view(self.host),
            absolute: self.path.absolute,
            components: self.path.components@.map_values(|c: String| c@),
        }
    }
}

/// Whether `a` is `base` or lies under it: on the same host, with the components of
/// `base` as its first components.
pub open spec fn location_starts_with(a: LocationView, base: LocationView) -> bool {
    &&& a.host == base.host
    &&& a.absolute == base.absolute
    &&& base.components.len() <= a.components.len()
    &&& a.components.take(base.components.len() as int) == base.components
}

fn opt_str_eq(a: &Option<String>, b: &Option<String>) -> (r: bool)
    ensures
        r == (opt_string_view(*a) == opt_string_view(*b)),
{
    match (a, b) {
        (Some(x), Some(y)) => str_eq(x.as_str(), y.as_str()),
        (None, None) => true,
        _ => false,
    }
}

/// Whether the first `n` components of `a` are the components of `b`, all of them.
fn components_prefix(a: &Vec<String>, b: &Vec<String>) -> (r: bool)
    ensures
        r == (b@.len() <= a@.len() && a@.map_values(|c: String| c@).take(b@.len() as int) == b@.map_values(
            |c: String| c@,
        )),
{
    if b.len() > a.len() {
        return false;
    }
    let ghost av = a@.map_values(|c: String| c@);
    let ghost bv = b@.map_values(|c: String| c@);
    let mut k: usize = 0;
    while k < b.len()
        invariant
            b@.len() <= a@.len(),
            av == a@.map_values(|c: String| c@),
            bv == b@.map_values(|c: String| c@),
            k <= b@.len(),
            forall|q: int| 0 <= q < k ==> av[q] == bv[q],
        decreases b@.len() - k,
    {
        if !str_eq(a[k].as_str(), b[k].as_str()) {
            proof {
                assert(av.take(b@.len() as int)[k as int] != bv[k as int]);
            }
            return false;
        }
        k = k + 1;
    }
    assert(av.take(b@.len() as int) =~= bv);
    true
}

/// Whether `a` is `base` or lies under it.
pub fn starts_with(a: &SkillLocation, base: &SkillLocation) -> (r: bool)
    ensures
        r == location_starts_with(a@, base@),
{
    opt_str_eq(&a.host, &base.host) && a.path.absolute == base.path.absolute && components_prefix(
        &a.path.components,
        &base.path.components,
    )
}

/// Whether two locations are the same.
pub fn same_location(a: &SkillLocation, b: &SkillLocation) -> (r: bool)
    ensures
        r == (a@ == b@),
{
    let r = starts_with(a, b) && a.path.components.len() == b.path.components.len();
    proof {
        assert(a@.components.len() == a.path.components@.len());
        assert(b@.components.len() == b.path.components@.len());
        if r {
            assert(a@.components.take(b@.components.len() as int) =~= a@.components);
            assert(a@.components =~= b@.components);
        }
        if a@ == b@ {
            assert(a@.components.take(b@.components.len() as int) =~= b@.components);
        }
    }
    r
}

/// A copy of a location.
pub fn copy_location(l: &SkillLocation) -> (r: SkillLocation)
    ensures
        r@ == l@,
{
    let mut components: Vec<String> = Vec::new();
    let mut k: usize = 0;
    while k < l.path.components.len()
        invariant
            k <= l.path.components@.len(),
            components@.len() == k,
            forall|q: int| 0 <= q < k ==> (#[trigger] components@[q])@ == l.path.components@[q]@,
        decreases l.path.components@.len() - k,
    {
        components.push(l.path.components[k].clone());
        k = k + 1;
    }
    let host = match &l.host {
        Some(h) => Some(h.clone()),
        None => None,
    };
    let r = SkillLocation { host, path: SkillPath { absolute: l.path.absolute, components } };
    assert(r@.components =~= l@.components);
    r
}

/// The locations of a list, as a set.
pub open spec fn location_set(v: Seq<SkillLocation>) -> Set<LocationView> {
    Set::new(|l: LocationView| exists|i: int| 0 <= i < v.len() && v[i]@ == l)
}

/// No location occurs twice.
pub open spec fn locations_unique(v: Seq<SkillLocation>) -> bool {
    forall|i: int, j: int| 0 <= i < j < v.len() ==> (#[trigger] v[i])@ != (#[trigger] v[j])@
}

fn find_location(v: &Vec<SkillLocation>, l: &SkillLocation) -> (r: Option<usize>)
    ensures
        match r {
            Some(i) => i < v@.len() && v@[i as int]@ == l@,
            None => !location_set(v@).contains(l@),
        },
{
    let mut i: usize = 0;
    while i < v.len()
        invariant
            i <= v@.len(),
            forall|k: int| 0 <= k < i ==> v@[k]@ != l@,
        decreases v@.len() - i,
    {
        if same_location(&v[i], l) {
            return Some(i);
        }
        i = i + 1;
    }
    None
}

/// Adds `l` to a set of locations.
fn set_insert(v: &mut Vec<SkillLocation>, l: SkillLocation)
    requires
        locations_unique(old(v)@),
    ensures
        locations_unique(final(v)@),
        location_set(final(v)@) == location_set(old(v)@).insert(l@),
{
    match find_location(v, &l) {
        Some(i) => {
            assert(location_set(v@) =~= location_set(v@).insert(l@));
        },
        None => {
            let ghost before = v@;
            v.push(l);
            proof {
                assert forall|i: int, j: int| 0 <= i < j < v@.len() implies (#[trigger] v@[i])@ != (#[trigger] v@[j])@ by {
                    if j == before.len() {
                        assert(v@[i] == before[i]);
                    } else {
                        assert(v@[i] == before[i] && v@[j] == before[j]);
                    }
                }
                assert forall|x: LocationView| location_set(v@).contains(x) <==> location_set(before).insert(l@).contains(x) by {
                    if location_set(v@).contains(x) {
                        let i = choose|i: int| 0 <= i < v@.len() && v@[i]@ == x;
                        if i < before.len() {
                            assert(v@[i] == before[i]);
                        }
                    }
                    if location_set(before).contains(x) {
                        let i = choose|i: int| 0 <= i < before.len() && before[i]@ == x;
                        assert(v@[i] == before[i]);
                    }
                    if x == l@ {
                        assert(v@[before.len() as int]@ == x);
                    }
                }
                assert(location_set(v@) =~= location_set(before).insert(l@));
            }
        },
    }
}

/// Removes `l` from a set of locations.
fn set_remove(v: &mut Vec<SkillLocation>, l: &SkillLocation)
    requires
        locations_unique(old(v)@),
    ensures
        locations_unique(final(v)@),
        location_set(final(v)@) == location_set(old(v)@).remove(l@),
{
    match find_location(v, l) {
        None => {
            assert(location_set(v@) =~= location_set(v@).remove(l@));
        },
        Some(i) => {
            let ghost before = v@;
            v.remove(i);
            proof {
                assert forall|a: int, b: int| 0 <= a < b < v@.len() implies (#[trigger] v@[a])@ != (#[trigger] v@[b])@ by {
                    let a2 = if a < i { a } else { a + 1 };
                    let b2 = if b < i { b } else { b + 1 };
                    assert(v@[a] == before[a2] && v@[b] == before[b2]);
                }
                assert forall|x: LocationView| location_set(v@).contains(x) <==> location_set(before).remove(l@).contains(x) by {
                    if location_set(v@).contains(x) {
                        let j = choose|j: int| 0 <= j < v@.len() && v@[j]@ == x;
                        let j2 = if j < i { j } else { j + 1 };
                        assert(v@[j] == before[j2]);
                        assert(j2 != i);
                    }
                    if location_set(before).contains(x) && x != l@ {
                        let j = choose|j: int| 0 <= j < before.len() && before[j]@ == x;
                        if j < i {
                            assert(v@[j] == before[j]);
                        } else {
                            assert(j != i);
                            assert(v@[j - 1] == before[j]);
                        }
                    }
                }
                assert(location_set(v@) =~= location_set(before).remove(l@));
            }
        },
    }
}

/// A skill in the index: its name, its provider's rank (lower ranks are preferred), and
/// what else is known of it.
#[derive(Clone, Debug, PartialEq, Eq)]
pub struct IndexedSkill<T> {
    pub name: String,
    pub provider: u32,
    pub data: T,
}

/// The skills found on disk, indexed three ways.
pub struct SkillIndex<T> {
    /// For each directory that holds a provider's skills folder (for example `/repo`
    /// for `/repo/.agents/skills/deploy/SKILL.md`), its skill files.
    directory_skills: Vec<(SkillLocation, Vec<SkillLocation>)>,
    skills_by_path: Vec<(SkillLocation, IndexedSkill<T>)>,
    /// For each skill name, the files that were indexed with it.
    skills_by_name: Vec<(String, Vec<SkillLocation>)>,
    /// In a cloud environment every directory's skills are in scope.
    is_cloud_environment: bool,
}

pub open spec fn dir_pairs(s: Seq<(SkillLocation, Vec<SkillLocation>)>) -> Seq<(LocationView, Set<LocationView>)> {
    s.map_values(|e: (SkillLocation, Vec<SkillLocation>)| (e.0@, location_set(e.1@)))
}

pub open spec fn path_pairs<T>(s: Seq<(SkillLocation, IndexedSkill<T>)>) -> Seq<(LocationView, IndexedSkill<T>)> {
    s.map_values(|e: (SkillLocation, IndexedSkill<T>)| (e.0@, e.1))
}

pub open spec fn name_pairs(s: Seq<(String, Vec<SkillLocation>)>) -> Seq<(Seq<char>, Set<LocationView>)> {
    s.map_values(|e: (String, Vec<SkillLocation>)| (e.0@, location_set(e.1@)))
}

/// The set a map holds at `k`, empty when it holds none.
pub open spec fn or_empty<K>(m: Map<K, Set<LocationView>>, k: K) -> Set<LocationView> {
    if m.contains_key(k) {
        m[k]
    } else {
        Set::empty()
    }
}

spec fn dir_lists_unique(s: Seq<(SkillLocation, Vec<SkillLocation>)>) -> bool {
    forall|i: int| 0 <= i < s.len() ==> locations_unique(#[trigger] s[i].1@)
}

spec fn name_lists_unique(s: Seq<(String, Vec<SkillLocation>)>) -> bool {
    forall|i: int| 0 <= i < s.len() ==> locations_unique(#[trigger] s[i].1@)
}

/// Adds `p` to the set at `k`.
fn dir_insert(s: &mut Vec<(SkillLocation, Vec<SkillLocation>)>, k: SkillLocation, p: SkillLocation)
    requires
        keys_unique(dir_pairs(old(s)@)),
        dir_lists_unique(old(s)@),
    ensures
        keys_unique(dir_pairs(final(s)@)),
        dir_lists_unique(final(s)@),
        assoc(dir_pairs(final(s)@)) == assoc(dir_pairs(old(s)@)).insert(
            k@,
            or_empty(assoc(dir_pairs(old(s)@)), k@).insert(p@),
        ),
{
    let ghost before = s@;
    proof {
        lemma_assoc(dir_pairs(before));
    }
    let mut i: usize = 0;
    while i < s.len()
        invariant
            s@ == before,
            before == old(s)@,
            keys_unique(dir_pairs(before)),
            dir_lists_unique(before),
            i <= s@.len(),
            forall|q: int| 0 <= q < i ==> s@[q].0@ != k@,
        decreases s@.len() - i,
    {
        if same_location(&s[i].0, &k) {
            proof {
                assert(locations_unique(before[i as int].1@));
            }
            let ghost old_e = s@[i as int];
            let mut e = s.remove(i);
            assert(e == old_e);
            set_insert(&mut e.1, p);
            s.insert(i, e);
            proof {
                assert(s@ =~= before.update(i as int, e));
                lemma_assoc(dir_pairs(before));
                assert(dir_pairs(before)[i as int].1 == location_set(old_e.1@));
                assert(dir_pairs(before)[i as int].0 == k@);
                assert(or_empty(assoc(dir_pairs(before)), k@) == location_set(old_e.1@));
                assert(dir_pairs(before)[i as int].0 == k@);
                assert(dir_pairs(s@) =~= dir_pairs(before).update(i as int, (dir_pairs(before)[i as int].0, location_set(e.1@))));
                lemma_assoc(dir_pairs(before));
                lemma_assoc_update(dir_pairs(before), i as int, location_set(e.1@));
                assert(assoc(dir_pairs(before))[dir_pairs(before)[i as int].0] == dir_pairs(before)[i as int].1);
                assert(location_set(e.1@) == location_set(old_e.1@).insert(p@));
                assert(assoc(dir_pairs(s@)) == assoc(dir_pairs(before)).insert(k@, or_empty(assoc(dir_pairs(before)), k@).insert(p@)));
                assert forall|q: int| 0 <= q < s@.len() implies locations_unique(#[trigger] s@[q].1@) by {
                    if q != i {
                        assert(s@[q] == before[q]);
                    }
                }
            }
            return;
        }
        i = i + 1;
    }
    let mut v: Vec<SkillLocation> = Vec::new();
    let ghost pv = p@;
    v.push(p);
    proof {
        assert(v@[0]@ == pv);
        assert forall|x: LocationView| location_set(v@).contains(x) <==> Set::<LocationView>::empty().insert(pv).contains(x) by {
            if x == pv {
                assert(v@[0]@ == x);
            }
        }
        assert(location_set(v@) =~= Set::<LocationView>::empty().insert(pv));
        assert(!assoc(dir_pairs(before)).contains_key(k@)) by {
            if assoc(dir_pairs(before)).contains_key(k@) {
                let j = choose|j: int| 0 <= j < dir_pairs(before).len() && dir_pairs(before)[j].0 == k@;
                assert(s@[j].0@ != k@);
            }
        }
        lemma_assoc_push(dir_pairs(before), k@, location_set(v@));
    }
    let ghost kv = k@;
    s.push((k, v));
    proof {
        assert(dir_pairs(s@) =~= dir_pairs(before).push((kv, location_set(v@))));
        assert forall|q: int| 0 <= q < s@.len() implies locations_unique(#[trigger] s@[q].1@) by {
            if q < before.len() {
                assert(s@[q] == before[q]);
            }
        }
    }
}

/// Adds `p` to the set at name `k`.
fn name_insert(s: &mut Vec<(String, Vec<SkillLocation>)>, k: String, p: SkillLocation)
    requires
        keys_unique(name_pairs(old(s)@)),
        name_lists_unique(old(s)@),
    ensures
        keys_unique(name_pairs(final(s)@)),
        name_lists_unique(final(s)@),
        assoc(name_pairs(final(s)@)) == assoc(name_pairs(old(s)@)).insert(
            k@,
            or_empty(assoc(name_pairs(old(s)@)), k@).insert(p@),
        ),
{
    let ghost before = s@;
    proof {
        lemma_assoc(name_pairs(before));
    }
    let mut i: usize = 0;
    while i < s.len()
        invariant
            s@ == before,
            before == old(s)@,
            keys_unique(name_pairs(before)),
            name_lists_unique(before),
            i <= s@.len(),
            forall|q: int| 0 <= q < i ==> s@[q].0@ != k@,
        decreases s@.len() - i,
    {
        if str_eq(s[i].0.as_str(), k.as_str()) {
            proof {
                assert(locations_unique(before[i as int].1@));
            }
            let ghost old_e = s@[i as int];
            let mut e = s.remove(i);
            assert(e == old_e);
            set_insert(&mut e.1, p);
            s.insert(i, e);
            proof {
                assert(s@ =~= before.update(i as int, e));
                lemma_assoc(name_pairs(before));
                assert(name_pairs(before)[i as int].1 == location_set(old_e.1@));
                assert(name_pairs(before)[i as int].0 == k@);
                assert(or_empty(assoc(name_pairs(before)), k@) == location_set(old_e.1@));
                assert(name_pairs(s@) =~= name_pairs(before).update(i as int, (name_pairs(before)[i as int].0, location_set(e.1@))));
                lemma_assoc(name_pairs(before));
                lemma_assoc_update(name_pairs(before), i as int, location_set(e.1@));
                assert(assoc(name_pairs(before))[name_pairs(before)[i as int].0] == name_pairs(before)[i as int].1);
                assert(location_set(e.1@) == location_set(old_e.1@).insert(p@));
                assert(assoc(name_pairs(s@)) == assoc(name_pairs(before)).insert(k@, or_empty(assoc(name_pairs(before)), k@).insert(p@)));
                assert forall|q: int| 0 <= q < s@.len() implies locations_unique(#[trigger] s@[q].1@) by {
                    if q != i {
                        assert(s@[q] == before[q]);
                    }
                }
            }
            return;
        }
        i = i + 1;
    }
    let mut v: Vec<SkillLocation> = Vec::new();
    let ghost pv = p@;
    v.push(p);
    proof {
        assert(v@[0]@ == pv);
        assert forall|x: LocationView| location_set(v@).contains(x) <==> Set::<LocationView>::empty().insert(pv).contains(x) by {
            if x == pv {
                assert(v@[0]@ == x);
            }
        }
        assert(location_set(v@) =~= Set::<LocationView>::empty().insert(pv));
        assert(!assoc(name_pairs(before)).contains_key(k@)) by {
            if assoc(name_pairs(before)).contains_key(k@) {
                let j = choose|j: int| 0 <= j < name_pairs(before).len() && name_pairs(before)[j].0 == k@;
                assert(s@[j].0@ != k@);
            }
        }
        lemma_assoc_push(name_pairs(before), k@, location_set(v@));
    }
    let ghost kv = k@;
    s.push((k, v));
    proof {
        assert(name_pairs(s@) =~= name_pairs(before).push((kv, location_set(v@))));
        assert forall|q: int| 0 <= q < s@.len() implies locations_unique(#[trigger] s@[q].1@) by {
            if q < before.len() {
                assert(s@[q] == before[q]);
            }
        }
    }
}

/// The index of the entry at `k`.
fn find_path<T>(s: &Vec<(SkillLocation, IndexedSkill<T>)>, k: &SkillLocation) -> (r: Option<usize>)
    ensures
        match r {
            Some(i) => i < s@.len() && s@[i as int].0@ == k@,
            None => forall|q: int| 0 <= q < s@.len() ==> s@[q].0@ != k@,
        },
{
    let mut i: usize = 0;
    while i < s.len()
        invariant
            i <= s@.len(),
            forall|q: int| 0 <= q < i ==> s@[q].0@ != k@,
        decreases s@.len() - i,
    {
        if same_location(&s[i].0, k) {
            return Some(i);
        }
        i = i + 1;
    }
    None
}

/// Sets the skill at `k`.
fn path_insert<T>(s: &mut Vec<(SkillLocation, IndexedSkill<T>)>, k: SkillLocation, v: IndexedSkill<T>)
    requires
        keys_unique(path_pairs(old(s)@)),
    ensures
        keys_unique(path_pairs(final(s)@)),
        assoc(path_pairs(final(s)@)) == assoc(path_pairs(old(s)@)).insert(k@, v),
{
    let ghost before = s@;
    proof {
        lemma_assoc(path_pairs(before));
    }
    match find_path(s, &k) {
        Some(i) => {
            let ghost kv = s@[i as int].0;
            s.set(i, (k, v));
            proof {
                assert(path_pairs(s@) =~= path_pairs(before).update(i as int, (path_pairs(before)[i as int].0, v)));
                lemma_assoc_update(path_pairs(before), i as int, v);
            }
        },
        None => {
            proof {
                assert(!assoc(path_pairs(before)).contains_key(k@)) by {
                    if assoc(path_pairs(before)).contains_key(k@) {
                        let j = choose|j: int| 0 <= j < path_pairs(before).len() && path_pairs(before)[j].0 == k@;
                        assert(s@[j].0@ != k@);
                    }
                }
                lemma_assoc_push(path_pairs(before), k@, v);
            }
            let ghost kv = k@;
            s.push((k, v));
            proof {
                assert(path_pairs(s@) =~= path_pairs(before).push((kv, v)));
            }
        },
    }
}

/// The skill files that deleting `path` removes from the directory `dir` holding
/// `files`: all of them when the directory is under `path`; those under `path` when
/// `path` is inside the directory; none otherwise.
pub open spec fn removed_from(dir: LocationView, files: Set<LocationView>, path: LocationView) -> Set<LocationView> {
    if location_starts_with(dir, path) {
        files
    } else if location_starts_with(path, dir) {
        files.filter(|f: LocationView| location_starts_with(f, path))
    } else {
        Set::empty()
    }
}

/// All skill files that deleting `path` removes.
pub open spec fn removed_files(dirs: Map<LocationView, Set<LocationView>>, path: LocationView) -> Set<LocationView> {
    Set::new(|f: LocationView| exists|d: LocationView| dirs.contains_key(d) && removed_from(d, dirs[d], path).contains(f))
}

/// The directories after deleting `path`: those under it are gone, the others keep the
/// files that were not removed.
pub open spec fn dirs_after_delete(dirs: Map<LocationView, Set<LocationView>>, path: LocationView) -> Map<
    LocationView,
    Set<LocationView>,
> {
    Map::new(
        |d: LocationView| dirs.contains_key(d) && !location_starts_with(d, path),
        |d: LocationView| dirs[d].difference(removed_from(d, dirs[d], path)),
    )
}

/// The files of `gone` that held a skill named `n`.
pub open spec fn gone_with_name<T>(skills: Map<LocationView, IndexedSkill<T>>, gone: Set<LocationView>, n: Seq<char>) -> Set<
    LocationView,
> {
    Set::new(|f: LocationView| gone.contains(f) && skills.contains_key(f) && skills[f].name@ == n)
}

/// The names after the files `gone` were removed: each file leaves the set of the name
/// its skill had (a set that is created empty when the name had none).
pub open spec fn names_after_removal<T>(
    names: Map<Seq<char>, Set<LocationView>>,
    skills: Map<LocationView, IndexedSkill<T>>,
    gone: Set<LocationView>,
) -> Map<Seq<char>, Set<LocationView>> {
    Map::new(
        |n: Seq<char>| names.contains_key(n) || !gone_with_name(skills, gone, n).is_empty(),
        |n: Seq<char>| or_empty(names, n).difference(gone_with_name(skills, gone, n)),
    )
}

proof fn lemma_removal_step<T>(
    names: Map<Seq<char>, Set<LocationView>>,
    skills: Map<LocationView, IndexedSkill<T>>,
    gone: Set<LocationView>,
    f: LocationView,
)
    ensures
        skills.remove_keys(gone.insert(f)) == skills.remove_keys(gone).remove(f),
        names_after_removal(names, skills, gone.insert(f)) == (if skills.remove_keys(gone).contains_key(f) {
            names_after_removal(names, skills, gone).insert(
                skills[f].name@,
                or_empty(names_after_removal(names, skills, gone), skills[f].name@).remove(f),
            )
        } else {
            names_after_removal(names, skills, gone)
        }),
{
    assert(skills.remove_keys(gone.insert(f)) =~= skills.remove_keys(gone).remove(f));
    let a = names_after_removal(names, skills, gone.insert(f));
    let b = names_after_removal(names, skills, gone);
    if skills.remove_keys(gone).contains_key(f) {
        let m = skills[f].name@;
        assert forall|n: Seq<char>| #[trigger] gone_with_name(skills, gone.insert(f), n) == (if n == m {
            gone_with_name(skills, gone, n).insert(f)
        } else {
            gone_with_name(skills, gone, n)
        }) by {
            assert(gone_with_name(skills, gone.insert(f), n) =~= (if n == m {
                gone_with_name(skills, gone, n).insert(f)
            } else {
                gone_with_name(skills, gone, n)
            }));
        }
        assert forall|n: Seq<char>| a.contains_key(n) <==> b.insert(m, or_empty(b, m).remove(f)).contains_key(n) by {
            if n == m {
                assert(gone_with_name(skills, gone.insert(f), n).contains(f));
            }
        }
        assert forall|n: Seq<char>| a.contains_key(n) implies a[n] == b.insert(m, or_empty(b, m).remove(f))[n] by {
            if n == m {
                assert(a[n] =~= or_empty(b, m).remove(f));
            } else {
                assert(a[n] =~= b[n]);
            }
        }
        assert(a =~= b.insert(m, or_empty(b, m).remove(f)));
    } else {
        assert forall|n: Seq<char>| #[trigger] gone_with_name(skills, gone.insert(f), n) == gone_with_name(skills, gone, n) by {
            assert(gone_with_name(skills, gone.insert(f), n) =~= gone_with_name(skills, gone, n));
        }
        assert(a =~= b);
    }
}

proof fn lemma_dirs_step(m: Map<LocationView, Set<LocationView>>, d: LocationView, files: Set<LocationView>, path: LocationView)
    requires
        !m.contains_key(d),
    ensures
        removed_files(m.insert(d, files), path) == removed_files(m, path).union(removed_from(d, files, path)),
        dirs_after_delete(m.insert(d, files), path) == (if location_starts_with(d, path) {
            dirs_after_delete(m, path)
        } else {
            dirs_after_delete(m, path).insert(d, files.difference(removed_from(d, files, path)))
        }),
{
    let m2 = m.insert(d, files);
    assert forall|f: LocationView| #[trigger] removed_files(m2, path).contains(f) <==> removed_files(m, path).union(
        removed_from(d, files, path),
    ).contains(f) by {
        if removed_files(m2, path).contains(f) {
            let e = choose|e: LocationView| m2.contains_key(e) && removed_from(e, m2[e], path).contains(f);
            if e != d {
                assert(m.contains_key(e) && removed_from(e, m[e], path).contains(f));
            }
        }
        if removed_files(m, path).contains(f) {
            let e = choose|e: LocationView| m.contains_key(e) && removed_from(e, m[e], path).contains(f);
            assert(m2.contains_key(e) && m2[e] == m[e]);
        }
        if removed_from(d, files, path).contains(f) {
            assert(m2.contains_key(d) && m2[d] == files);
        }
    }
    assert(removed_files(m2, path) =~= removed_files(m, path).union(removed_from(d, files, path)));
    let lhs = dirs_after_delete(m2, path);
    let rhs = if location_starts_with(d, path) {
        dirs_after_delete(m, path)
    } else {
        dirs_after_delete(m, path).insert(d, files.difference(removed_from(d, files, path)))
    };
    assert forall|e: LocationView| lhs.contains_key(e) <==> rhs.contains_key(e) by {}
    assert forall|e: LocationView| lhs.contains_key(e) implies lhs[e] == rhs[e] by {
        if e != d {
            assert(m2[e] == m[e]);
        }
    }
    assert(lhs =~= rhs);
}

/// Removes `f` from the set at name `k`, creating the name's set empty when it had none.
fn name_remove(s: &mut Vec<(String, Vec<SkillLocation>)>, k: &String, f: &SkillLocation)
    requires
        keys_unique(name_pairs(old(s)@)),
        name_lists_unique(old(s)@),
    ensures
        keys_unique(name_pairs(final(s)@)),
        name_lists_unique(final(s)@),
        assoc(name_pairs(final(s)@)) == assoc(name_pairs(old(s)@)).insert(
            k@,
            or_empty(assoc(name_pairs(old(s)@)), k@).remove(f@),
        ),
{
    let ghost before = s@;
    let mut i: usize = 0;
    while i < s.len()
        invariant
            s@ == before,
            before == old(s)@,
            keys_unique(name_pairs(before)),
            name_lists_unique(before),
            i <= s@.len(),
            forall|q: int| 0 <= q < i ==> s@[q].0@ != k@,
        decreases s@.len() - i,
    {
        if str_eq(s[i].0.as_str(), k.as_str()) {
            proof {
                assert(locations_unique(before[i as int].1@));
            }
            let ghost old_e = s@[i as int];
            let mut e = s.remove(i);
            assert(e == old_e);
            set_remove(&mut e.1, f);
            s.insert(i, e);
            proof {
                assert(s@ =~= before.update(i as int, e));
                lemma_assoc(name_pairs(before));
                assert(name_pairs(before)[i as int].1 == location_set(old_e.1@));
                assert(name_pairs(before)[i as int].0 == k@);
                assert(or_empty(assoc(name_pairs(before)), k@) == location_set(old_e.1@));
                assert(name_pairs(s@) =~= name_pairs(before).update(i as int, (name_pairs(before)[i as int].0, location_set(e.1@))));
                lemma_assoc_update(name_pairs(before), i as int, location_set(e.1@));
                assert forall|q: int| 0 <= q < s@.len() implies locations_unique(#[trigger] s@[q].1@) by {
                    if q != i {
                        assert(s@[q] == before[q]);
                    }
                }
            }
            return;
        }
        i = i + 1;
    }
    let v: Vec<SkillLocation> = Vec::new();
    proof {
        lemma_assoc(name_pairs(before));
        assert(location_set(v@) =~= Set::<LocationView>::empty());
        assert(!assoc(name_pairs(before)).contains_key(k@)) by {
            if assoc(name_pairs(before)).contains_key(k@) {
                let j = choose|j: int| 0 <= j < name_pairs(before).len() && name_pairs(before)[j].0 == k@;
                assert(s@[j].0@ != k@);
            }
        }
        assert(or_empty(assoc(name_pairs(before)), k@).remove(f@) =~= Set::<LocationView>::empty());
        lemma_assoc_push(name_pairs(before), k@, location_set(v@));
    }
    let ghost kv = k@;
    s.push((k.clone(), v));
    proof {
        assert(name_pairs(s@) =~= name_pairs(before).push((kv, location_set(v@))));
        assert forall|q: int| 0 <= q < s@.len() implies locations_unique(#[trigger] s@[q].1@) by {
            if q < before.len() {
                assert(s@[q] == before[q]);
            }
        }
    }
}

/// Removes the skill at `f`, and `f` from the files of that skill's name.
fn remove_file<T>(by_path: &mut Vec<(SkillLocation, IndexedSkill<T>)>, by_name: &mut Vec<(String, Vec<SkillLocation>)>, f: &SkillLocation)
    requires
        keys_unique(path_pairs(old(by_path)@)),
        keys_unique(name_pairs(old(by_name)@)),
        name_lists_unique(old(by_name)@),
    ensures
        keys_unique(path_pairs(final(by_path)@)),
        keys_unique(name_pairs(final(by_name)@)),
        name_lists_unique(final(by_name)@),
        assoc(path_pairs(final(by_path)@)) == assoc(path_pairs(old(by_path)@)).remove(f@),
        assoc(name_pairs(final(by_name)@)) == (if assoc(path_pairs(old(by_path)@)).contains_key(f@) {
            assoc(name_pairs(old(by_name)@)).insert(
                assoc(path_pairs(old(by_path)@))[f@].name@,
                or_empty(assoc(name_pairs(old(by_name)@)), assoc(path_pairs(old(by_path)@))[f@].name@).remove(f@),
            )
        } else {
            assoc(name_pairs(old(by_name)@))
        }),
{
    let ghost before = by_path@;
    proof {
        lemma_assoc(path_pairs(before));
    }
    match find_path(by_path, f) {
        None => {
            proof {
                assert(!assoc(path_pairs(before)).contains_key(f@)) by {
                    if assoc(path_pairs(before)).contains_key(f@) {
                        let j = choose|j: int| 0 <= j < path_pairs(before).len() && path_pairs(before)[j].0 == f@;
                        assert(before[j].0@ == f@);
                    }
                }
                assert(assoc(path_pairs(before)).remove(f@) =~= assoc(path_pairs(before)));
            }
        },
        Some(i) => {
            let (_, skill) = by_path.remove(i);
            proof {
                assert(path_pairs(by_path@) =~= path_pairs(before).remove(i as int));
                lemma_assoc_remove(path_pairs(before), i as int);
                assert(path_pairs(before)[i as int].0 == f@);
                assert(assoc(path_pairs(before))[path_pairs(before)[i as int].0] == path_pairs(before)[i as int].1);
            }
            name_remove(by_name, &skill.name, f);
        },
    }
}

/// A copy of a list of locations.
fn copy_locations(v: &Vec<SkillLocation>) -> (r: Vec<SkillLocation>)
    ensures
        r@.len() == v@.len(),
        forall|k: int| 0 <= k < v@.len() ==> (#[trigger] r@[k])@ == v@[k]@,
{
    let mut r: Vec<SkillLocation> = Vec::new();
    let mut k: usize = 0;
    while k < v.len()
        invariant
            k <= v@.len(),
            r@.len() == k,
            forall|q: int| 0 <= q < k ==> (#[trigger] r@[q])@ == v@[q]@,
        decreases v@.len() - k,
    {
        r.push(copy_location(&v[k]));
        k = k + 1;
    }
    r
}

proof fn lemma_location_set_take(v: Seq<SkillLocation>, j: int)
    requires
        0 <= j < v.len(),
    ensures
        location_set(v.take(j + 1)) == location_set(v.take(j)).insert(v[j]@),
{
    let a = v.take(j + 1);
    let b = v.take(j);
    assert forall|x: LocationView| location_set(a).contains(x) <==> location_set(b).insert(v[j]@).contains(
        x,
    ) by {
        if location_set(a).contains(x) {
            let q = choose|q: int| 0 <= q < a.len() && (#[trigger] a[q])@ == x;
            if q < j {
                assert(b[q] == v[q]);
            }
        }
        if location_set(b).contains(x) {
            let q = choose|q: int| 0 <= q < b.len() && (#[trigger] b[q])@ == x;
            assert(a[q] == v[q]);
        }
        if x == v[j]@ {
            assert(a[j] == v[j]);
        }
    }
    assert(location_set(a) =~= location_set(b).insert(v[j]@));
}

proof fn lemma_location_set_all(v: Seq<SkillLocation>)
    ensures
        location_set(v.take(v.len() as int)) == location_set(v),
        location_set(v.take(0)) == Set::<LocationView>::empty(),
{
    assert(v.take(v.len() as int) =~= v);
    assert(location_set(v.take(0)) =~= Set::<LocationView>::empty());
}

/// The index as a spec value: its directories, skills and names.
pub ghost struct IndexView<T> {
    pub dirs: Map<LocationView, Set<LocationView>>,
    pub skills: Map<LocationView, IndexedSkill<T>>,
    pub names: Map<Seq<char>, Set<LocationView>>,
}

/// The index after deleting `path`.
pub open spec fn view_after_delete<T>(v: IndexView<T>, path: LocationView) -> IndexView<T> {
    IndexView {
        dirs: dirs_after_delete(v.dirs, path),
        skills: v.skills.remove_keys(removed_files(v.dirs, path)),
        names: names_after_removal(v.names, v.skills, removed_files(v.dirs, path)),
    }
}

/// The index after deleting each of `paths`, in order.
pub open spec fn view_after_deletes<T>(v: IndexView<T>, paths: Seq<LocationView>) -> IndexView<T>
    decreases paths.len(),
{
    if paths.len() == 0 {
        v
    } else {
        view_after_delete(view_after_deletes(v, paths.drop_last()), paths.last())
    }
}

/// The index after adding the skill `skill` at `path`, whose skills folder is in
/// `parent`.
pub open spec fn view_after_add<T>(v: IndexView<T>, parent: LocationView, path: LocationView, skill: IndexedSkill<T>) -> IndexView<T> {
    IndexView {
        dirs: v.dirs.insert(parent, or_empty(v.dirs, parent).insert(path)),
        skills: v.skills.insert(path, skill),
        names: v.names.insert(skill.name@, or_empty(v.names, skill.name@).insert(path)),
    }
}

/// The file name of a skill definition.
pub open spec fn skill_file_name() -> Seq<char> {
    seq!['S', 'K', 'I', 'L', 'L', '.', 'm', 'd']
}

/// Where skills live: the skills folder of each provider, relative to the directory
/// that holds it (such as `.agents/skills`), in the providers' order; the skills folders
/// that the app itself manages; and the user's home directory, when it is known.
#[derive(Clone, Debug, PartialEq, Eq)]
pub struct SkillLayout {
    pub provider_skills_paths: Vec<Vec<String>>,
    pub managed_skill_dirs: Vec<SkillPath>,
    pub home_dir: Option<SkillPath>,
}

/// A layout as a spec value.
pub ghost struct LayoutView {
    pub providers: Seq<Seq<Seq<char>>>,
    pub managed: Seq<(bool, Seq<Seq<char>>)>,
    pub home: Option<(bool, Seq<Seq<char>>)>,
}

impl View for SkillLayout {
    type V = LayoutView;

    open spec fn view(&self) -> LayoutView {
        LayoutView {
            providers: self.provider_skills_paths@.map_values(|p: Vec<String>| p@.map_values(|c: String| c@)),
            managed: self.managed_skill_dirs@.map_values(|d: SkillPath| crate::skills::path_view(d)),
            home: match self.home_dir {
                Some(h) => Some(crate::skills::path_view(h)),
                None => None,
            },
        }
    }
}

/// A local location.
pub open spec fn local(p: (bool, Seq<Seq<char>>)) -> LocationView {
    LocationView { host: None, absolute: p.0, components: p.1 }
}

/// Why a file is not a skill definition the index can place.
#[derive(Clone, Copy, Debug, PartialEq, Eq, Structural)]
pub enum SkillPathError {
    /// The file is not `SKILL.md` in a skill folder of a provider's skills folder.
    NotASkillPath,
    /// A skill of a folder the app manages, while the home directory is unknown.
    HomeDirectoryUnavailable,
}

/// The directory that holds the skills folder `root`: `root` without the first
/// provider's skills folder that it ends with.
pub open spec fn provider_parent(root: LocationView, providers: Seq<Seq<Seq<char>>>) -> Option<LocationView>
    decreases providers.len(),
{
    if providers.len() == 0 {
        None
    } else {
        let p = providers[0];
        if p.len() <= root.components.len() && root.components.skip(root.components.len() - p.len()) == p {
            Some(LocationView { components: root.components.take(root.components.len() - p.len()), ..root })
        } else {
            provider_parent(root, providers.drop_first())
        }
    }
}

/// The directory a skill file belongs to: the home directory for a skill in a folder
/// the app manages; else, for `.../<skills folder>/<skill>/SKILL.md`, the directory that
/// holds the skills folder.
pub open spec fn skill_parent_directory(path: LocationView, layout: LayoutView) -> Result<LocationView, SkillPathError> {
    let n = path.components.len();
    let named = n > 0 && path.components[n - 1] == skill_file_name();
    if path.host is None && named && n >= 2 && layout.managed.contains((path.absolute, path.components.take(n - 2))) {
        match layout.home {
            Some(h) => Ok(local(h)),
            None => Err(SkillPathError::HomeDirectoryUnavailable),
        }
    } else if !named || n < 2 {
        Err(SkillPathError::NotASkillPath)
    } else {
        match provider_parent(LocationView { components: path.components.take(n - 2), ..path }, layout.providers) {
            Some(d) => Ok(d),
            None => Err(SkillPathError::NotASkillPath),
        }
    }
}

/// The index after adding each skill whose directory is known, in order; the others
/// are skipped.
pub open spec fn view_after_adds<T>(v: IndexView<T>, skills: Seq<(LocationView, IndexedSkill<T>)>, layout: LayoutView) -> IndexView<T>
    decreases skills.len(),
{
    if skills.len() == 0 {
        v
    } else {
        let prev = view_after_adds(v, skills.drop_last(), layout);
        let (path, skill) = skills.last();
        match skill_parent_directory(path, layout) {
            Ok(parent) => view_after_add(prev, parent, path, skill),
            Err(_) => prev,
        }
    }
}

fn strings_eq(a: &Vec<String>, b: &Vec<String>) -> (r: bool)
    ensures
        r == (a@.map_values(|c: String| c@) == b@.map_values(|c: String| c@)),
{
    let r = components_prefix(a, b) && a.len() == b.len();
    proof {
        let av = a@.map_values(|c: String| c@);
        let bv = b@.map_values(|c: String| c@);
        if r {
            assert(av.take(bv.len() as int) =~= av);
        }
        if av == bv {
            assert(av.len() == a@.len() && bv.len() == b@.len());
            assert(av.take(bv.len() as int) =~= bv);
        }
    }
    r
}

fn ends_with_components(root: &Vec<String>, p: &Vec<String>) -> (r: bool)
    ensures
        r == ({
            let rv = root@.map_values(|c: String| c@);
            let pv = p@.map_values(|c: String| c@);
            pv.len() <= rv.len() && rv.skip(rv.len() - pv.len()) == pv
        }),
{
    let ghost rv = root@.map_values(|c: String| c@);
    let ghost pv = p@.map_values(|c: String| c@);
    if p.len() > root.len() {
        return false;
    }
    let rl = root.len();
    let off = rl - p.len();
    let mut k: usize = 0;
    while k < p.len()
        invariant
            rv == root@.map_values(|c: String| c@),
            pv == p@.map_values(|c: String| c@),
            p@.len() <= root@.len(),
            off == root@.len() - p@.len(),
            off + p@.len() == root@.len(),
            rl == root@.len(),
            k <= p@.len(),
            forall|q: int| 0 <= q < k ==> rv[off + q] == pv[q],
        decreases p@.len() - k,
    {
        assert(off + k < rl);
        let idx: usize = off + k;
        if !str_eq(root[idx].as_str(), p[k].as_str()) {
            proof {
                assert(rv.skip(off as int)[k as int] != pv[k as int]);
            }
            return false;
        }
        k = k + 1;
    }
    assert(rv.skip(off as int) =~= pv);
    true
}

fn take_components(v: &Vec<String>, n: usize) -> (r: Vec<String>)
    requires
        n <= v@.len(),
    ensures
        r@.map_values(|c: String| c@) == v@.map_values(|c: String| c@).take(n as int),
{
    let mut r: Vec<String> = Vec::new();
    let mut k: usize = 0;
    while k < n
        invariant
            n <= v@.len(),
            k <= n,
            r@.map_values(|c: String| c@) == v@.map_values(|c: String| c@).take(k as int),
        decreases n - k,
    {
        let ghost before = r@;
        let c = v[k].clone();
        assert(c == v@[k as int]);
        r.push(c);
        proof {
            assert(r@.map_values(|c: String| c@) =~= before.map_values(|c: String| c@).push(v@[k as int]@));
        }
        k = k + 1;
        assert(r@.map_values(|c: String| c@) =~= v@.map_values(|c: String| c@).take(k as int));
    }
    r
}

fn copy_path(p: &SkillPath) -> (r: SkillPath)
    ensures
        crate::skills::path_view(r) == crate::skills::path_view(*p),
{
    let components = take_components(&p.components, p.components.len());
    assert(p.components@.map_values(|c: String| c@).take(p.components@.len() as int) =~= p.components@.map_values(
        |c: String| c@,
    ));
    SkillPath { absolute: p.absolute, components }
}

/// The directory that holds the skills folder `root`, if it is one.
fn find_provider_parent(root: &SkillLocation, providers: &Vec<Vec<String>>) -> (r: Option<SkillLocation>)
    ensures
        match r {
            Some(d) => provider_parent(root@, providers@.map_values(|p: Vec<String>| p@.map_values(|c: String| c@)))
                == Some(d@),
            None => provider_parent(root@, providers@.map_values(|p: Vec<String>| p@.map_values(|c: String| c@)))
                is None,
        },
{
    let ghost all = providers@.map_values(|p: Vec<String>| p@.map_values(|c: String| c@));
    let mut i: usize = 0;
    assert(all.skip(0) =~= all);
    while i < providers.len()
        invariant
            all == providers@.map_values(|p: Vec<String>| p@.map_values(|c: String| c@)),
            i <= providers@.len(),
            provider_parent(root@, all) == provider_parent(root@, all.skip(i as int)),
        decreases providers@.len() - i,
    {
        proof {
            assert(all.skip(i as int)[0] == all[i as int]);
            assert(all.skip(i as int).drop_first() =~= all.skip(i + 1));
        }
        if ends_with_components(&root.path.components, &providers[i]) {
            let n = root.path.components.len() - providers[i].len();
            let components = take_components(&root.path.components, n);
            let host = match &root.host {
                Some(h) => Some(h.clone()),
                None => None,
            };
            let d = SkillLocation { host, path: SkillPath { absolute: root.path.absolute, components } };
            proof {
                assert(d@.components =~= root@.components.take(root@.components.len() - all[i as int].len()));
            }
            return Some(d);
        }
        i = i + 1;
    }
    proof {
        assert(all.skip(i as int) =~= Seq::<Seq<Seq<char>>>::empty());
    }
    None
}

/// The directory a skill file belongs to in the index, or why it has none.
pub fn extract_skill_parent_directory(path: &SkillLocation, layout: &SkillLayout) -> (r: Result<SkillLocation, SkillPathError>)
    ensures
        match r {
            Ok(d) => skill_parent_directory(path@, layout@) == Ok::<LocationView, SkillPathError>(d@),
            Err(e) => skill_parent_directory(path@, layout@) == Err::<LocationView, SkillPathError>(e),
        },
{
    let n = path.path.components.len();
    let named = n > 0 && str_eq(path.path.components[n - 1].as_str(), "SKILL.md");
    proof {
        reveal_strlit("SKILL.md");
        assert("SKILL.md"@ =~= skill_file_name());
    }
    if path.host.is_none() && named && n >= 2 {
        let grandparent = take_components(&path.path.components, n - 2);
        let mut k: usize = 0;
        let mut managed = false;
        let ghost target = (path@.absolute, path@.components.take(n - 2));
        while k < layout.managed_skill_dirs.len()
            invariant
                k <= layout.managed_skill_dirs@.len(),
                target == (path@.absolute, path@.components.take(n - 2)),
                grandparent@.map_values(|c: String| c@) == path@.components.take(n - 2),
                managed == exists|q: int| 0 <= q < k && layout@.managed[q] == target,
            decreases layout.managed_skill_dirs@.len() - k,
        {
            let d = &layout.managed_skill_dirs[k];
            if d.absolute == path.path.absolute && strings_eq(&d.components, &grandparent) {
                managed = true;
            }
            proof {
                assert(layout@.managed[k as int] == crate::skills::path_view(*d));
            }
            k = k + 1;
        }
        proof {
            if layout@.managed.contains(target) {
                let q = choose|q: int| 0 <= q < layout@.managed.len() && layout@.managed[q] == target;
                assert(q < k);
            }
        }
        if managed {
            return match &layout.home_dir {
                Some(h) => {
                    let hp = copy_path(h);
                    Ok(SkillLocation { host: None, path: hp })
                },
                None => Err(SkillPathError::HomeDirectoryUnavailable),
            };
        }
    }
    if !named || n < 2 {
        return Err(SkillPathError::NotASkillPath);
    }
    let root_components = take_components(&path.path.components, n - 2);
    let host = match &path.host {
        Some(h) => Some(h.clone()),
        None => None,
    };
    let root = SkillLocation { host, path: SkillPath { absolute: path.path.absolute, components: root_components } };
    match find_provider_parent(&root, &layout.provider_skills_paths) {
        Some(d) => Ok(d),
        None => Err(SkillPathError::NotASkillPath),
    }
}

/// The view of a local path as a location.
pub open spec fn local_location(p: (bool, Seq<Seq<char>>)) -> LocationView {
    LocationView { host: None, absolute: p.0, components: p.1 }
}

/// Whether a local file is a skill file: one that the index files under a directory.
pub fn is_skill_file(path: &SkillPath, layout: &SkillLayout) -> (r: bool)
    ensures
        r == skill_parent_directory(local_location(crate::skills::path_view(*path)), layout@) is Ok,
{
    let location = SkillLocation { host: None, path: copy_path(path) };
    proof {
        assert(location@ == local_location(crate::skills::path_view(*path)));
    }
    extract_skill_parent_directory(&location, layout).is_ok()
}

/// Components joined by `sep`.
pub open spec fn joined(cs: Seq<Seq<char>>, sep: char) -> Seq<char>
    decreases cs.len(),
{
    if cs.len() == 0 {
        seq![]
    } else if cs.len() == 1 {
        cs[0]
    } else {
        joined(cs.drop_last(), sep) + seq![sep] + cs.last()
    }
}

/// The text of a location's path: its components joined by `/`, after a `/` when it is
/// absolute.
pub open spec fn location_text(l: LocationView) -> Seq<char> {
    if l.absolute {
        seq!['/'] + joined(l.components, '/')
    } else {
        joined(l.components, '/')
    }
}

/// The text by which a component is ordered: `.` (the current directory) as `\u{1}`,
/// `..` (the parent directory) as `\u{2}`, and any other component as its text after
/// `\u{3}`, so that `.` sorts before `..` and both before every other component.
pub open spec fn component_order_text(c: Seq<char>) -> Seq<char> {
    if c == seq!['.'] {
        seq!['\u{1}']
    } else if c == seq!['.', '.'] {
        seq!['\u{2}']
    } else {
        seq!['\u{3}'] + c
    }
}

/// The text by which paths are ordered: the components' order texts joined by NUL,
/// after a NUL when the path is absolute. As no component holds NUL, this orders paths
/// component by component as `Path` compares its components: the root first, then `.`,
/// then `..`, then other components by their text, and a path before its extensions.
pub open spec fn path_order_text(absolute: bool, cs: Seq<Seq<char>>) -> Seq<char> {
    let marked = cs.map_values(|c: Seq<char>| component_order_text(c));
    if absolute {
        seq!['\0'] + joined(marked, '\0')
    } else {
        joined(marked, '\0')
    }
}

fn order_component(c: &str) -> (r: String)
    ensures
        r@ == component_order_text(c@),
{
    proof {
        reveal_strlit(".");
        reveal_strlit("..");
    }
    let mut r = String::new();
    if str_eq(c, ".") {
        push_char(&mut r, '\u{1}');
    } else if str_eq(c, "..") {
        push_char(&mut r, '\u{2}');
    } else {
        push_char(&mut r, '\u{3}');
        append_str(&mut r, c);
    }
    proof {
        assert(seq!['.'] =~= "."@);
        assert(seq!['.', '.'] =~= ".."@);
    }
    r
}

fn joined_text(cs: &Vec<String>, sep: char) -> (r: String)
    ensures
        r@ == joined(cs@.map_values(|c: String| c@), sep),
{
    let ghost all = cs@.map_values(|c: String| c@);
    let mut s = String::new();
    let mut i: usize = 0;
    while i < cs.len()
        invariant
            all == cs@.map_values(|c: String| c@),
            i <= cs@.len(),
            s@ == joined(all.take(i as int), sep),
        decreases cs@.len() - i,
    {
        let ghost before = s@;
        if i > 0 {
            push_char(&mut s, sep);
        }
        append_str(&mut s, cs[i].as_str());
        proof {
            let t = all.take(i + 1);
            assert(t.drop_last() =~= all.take(i as int));
            assert(t.last() == cs@[i as int]@);
            if i == 0 {
                assert(s@ =~= t[0]);
            } else {
                assert(s@ =~= before + seq![sep] + t.last());
            }
        }
        i = i + 1;
    }
    proof {
        assert(all.take(cs@.len() as int) =~= all);
    }
    s
}

/// The text of a location's path.
pub fn path_text(l: &SkillLocation) -> (r: String)
    ensures
        r@ == location_text(l@),
{
    let j = joined_text(&l.path.components, '/');
    if l.path.absolute {
        let mut s = String::new();
        push_char(&mut s, '/');
        append_str(&mut s, j.as_str());
        s
    } else {
        j
    }
}

fn order_text(p: &SkillPath) -> (r: String)
    ensures
        r@ == path_order_text(p.absolute, p.components@.map_values(|c: String| c@)),
{
    let ghost cs = p.components@.map_values(|c: String| c@);
    let ghost target = cs.map_values(|c: Seq<char>| component_order_text(c));
    let mut marked: Vec<String> = Vec::new();
    let mut i: usize = 0;
    while i < p.components.len()
        invariant
            cs == p.components@.map_values(|c: String| c@),
            target == cs.map_values(|c: Seq<char>| component_order_text(c)),
            i <= p.components@.len(),
            marked@.len() == i,
            forall|k: int| 0 <= k < i ==> (#[trigger] marked@[k])@ == target[k],
        decreases p.components@.len() - i,
    {
        let m = order_component(p.components[i].as_str());
        marked.push(m);
        i = i + 1;
    }
    assert(marked@.map_values(|c: String| c@) =~= target);
    let j = joined_text(&marked, '\0');
    if p.absolute {
        let mut s = String::new();
        push_char(&mut s, '\0');
        append_str(&mut s, j.as_str());
        s
    } else {
        j
    }
}

/// Locations ordered by the text of their paths.
pub open spec fn by_location_text() -> spec_fn(SkillLocation) -> KeyView {
    |l: SkillLocation| KeyView::Text(location_text(l@))
}

/// Paths ordered component by component.
pub open spec fn by_path_order() -> spec_fn(SkillPath) -> KeyView {
    |p: SkillPath| KeyView::Text(path_order_text(p.absolute, p.components@.map_values(|c: String| c@)))
}

proof fn lemma_permutation_keeps_locations(old_v: Seq<SkillLocation>, new_v: Seq<SkillLocation>, p: Seq<int>)
    requires
        is_permutation(p, old_v.len() as int),
        new_v.len() == old_v.len(),
        forall|k: int| 0 <= k < new_v.len() ==> #[trigger] new_v[k] == old_v[p[k]],
        locations_unique(old_v),
    ensures
        locations_unique(new_v),
        location_set(new_v) == location_set(old_v),
{
    assert forall|a: int, b: int| 0 <= a < b < new_v.len() implies (#[trigger] new_v[a])@ != (#[trigger] new_v[b])@ by {
        assert(p[a] != p[b]);
        if p[a] < p[b] {
            assert(old_v[p[a]]@ != old_v[p[b]]@);
        } else {
            assert(old_v[p[b]]@ != old_v[p[a]]@);
        }
    }
    assert forall|x: LocationView| location_set(new_v).contains(x) <==> location_set(old_v).contains(x) by {
        if location_set(new_v).contains(x) {
            let k = choose|k: int| 0 <= k < new_v.len() && new_v[k]@ == x;
            assert(old_v[p[k]]@ == x);
        }
        if location_set(old_v).contains(x) {
            let j = choose|j: int| 0 <= j < old_v.len() && old_v[j]@ == x;
            assert(exists|k: int| 0 <= k < p.len() && p[k] == j) by {
                lemma_permutation_onto(p, old_v.len() as int, j);
            }
            let k = choose|k: int| 0 <= k < p.len() && p[k] == j;
            assert(new_v[k]@ == x);
        }
    }
    assert(location_set(new_v) =~= location_set(old_v));
}


/// Whether a path belongs to the location of the working directory: the same machine,
/// or the same remote host; with no working directory, local paths do in a cloud
/// environment.
pub open spec fn matches_location(working_directory: Option<LocationView>, p: LocationView, cloud: bool) -> bool {
    match working_directory {
        Some(w) => match w.host {
            None => p.host is None,
            Some(h) => p.host == Some(h),
        },
        None => p.host is None && cloud,
    }
}

/// Whether the skills of directory `d` are in scope for a working directory. The home
/// directory's skills are wherever the home is; in a cloud environment every other
/// directory's skills of that location are; otherwise those of the directories that
/// contain the working directory, within its repository if any.
pub open spec fn dir_in_scope(
    cloud: bool,
    working_directory: Option<LocationView>,
    home: Option<LocationView>,
    repo_root: Option<LocationView>,
    d: LocationView,
) -> bool {
    if home == Some(d) || cloud {
        matches_location(working_directory, d, cloud)
    } else {
        &&& working_directory is Some
        &&& location_starts_with(working_directory->0, d)
        &&& match repo_root {
            Some(root) => location_starts_with(d, root),
            None => true,
        }
    }
}

/// Whether the skill file `f` of directory `d` is in scope for a working directory.
pub open spec fn in_scope(
    dirs: Map<LocationView, Set<LocationView>>,
    cloud: bool,
    working_directory: Option<LocationView>,
    home: Option<LocationView>,
    repo_root: Option<LocationView>,
    d: LocationView,
    f: LocationView,
) -> bool {
    &&& dirs.contains_key(d)
    &&& dirs[d].contains(f)
    &&& dir_in_scope(cloud, working_directory, home, repo_root, d)
}

proof fn lemma_copies_keep_locations(v: Seq<SkillLocation>, r: Seq<SkillLocation>)
    requires
        r.len() == v.len(),
        forall|k: int| 0 <= k < v.len() ==> (#[trigger] r[k])@ == v[k]@,
    ensures
        location_set(r) == location_set(v),
        locations_unique(v) ==> locations_unique(r),
{
    assert forall|x: LocationView| location_set(r).contains(x) <==> location_set(v).contains(x) by {
        if location_set(r).contains(x) {
            let k = choose|k: int| 0 <= k < r.len() && r[k]@ == x;
            assert(v[k]@ == x);
        }
        if location_set(v).contains(x) {
            let k = choose|k: int| 0 <= k < v.len() && v[k]@ == x;
            assert(r[k]@ == x);
        }
    }
    assert(location_set(r) =~= location_set(v));
    if locations_unique(v) {
        assert forall|a: int, b: int| 0 <= a < b < r.len() implies (#[trigger] r[a])@ != (#[trigger] r[b])@ by {
            assert(v[a]@ != v[b]@);
        }
    }
}

/// Sorts locations by the text of their paths.
fn sort_by_location_text(v: &mut Vec<SkillLocation>)
    requires
        locations_unique(old(v)@),
    ensures
        locations_unique(final(v)@),
        location_set(final(v)@) == location_set(old(v)@),
        forall|k: int, l: int|
            0 <= k < l < final(v)@.len() ==> !text_lt(
                location_text((#[trigger] final(v)@[l])@),
                location_text((#[trigger] final(v)@[k])@),
            ),
{
    let ghost key = by_location_text();
    let ghost before = v@;
    let mut keys: Vec<SortKey> = Vec::new();
    let mut k: usize = 0;
    while k < v.len()
        invariant
            key == by_location_text(),
            k <= v@.len(),
            keys@.len() == k,
            forall|q: int| 0 <= q < k ==> #[trigger] keys@[q]@ == key(v@[q]),
        decreases v@.len() - k,
    {
        let t = path_text(&v[k]);
        keys.push(SortKey::Text(chars_of(t.as_str())));
        k = k + 1;
    }
    proof {
        assert(uniform(v@, key));
    }
    stable_sort_by_keys(v, &mut keys, false, Ghost(key));
    proof {
        let p = choose|p: Seq<int>| sorted_by_as(before, v@, key, false, p);
        lemma_permutation_keeps_locations(before, v@, p);
        assert forall|k: int, l: int| 0 <= k < l < v@.len() implies !text_lt(
            location_text((#[trigger] v@[l])@),
            location_text((#[trigger] v@[k])@),
        ) by {
            assert(!crate::sort::ordered_lt(key(v@[l]), key(v@[k]), false));
        }
    }
}

fn find_name(s: &Vec<(String, Vec<SkillLocation>)>, k: &str) -> (r: Option<usize>)
    ensures
        match r {
            Some(i) => i < s@.len() && s@[i as int].0@ == k@,
            None => forall|q: int| 0 <= q < s@.len() ==> s@[q].0@ != k@,
        },
{
    let mut i: usize = 0;
    while i < s.len()
        invariant
            i <= s@.len(),
            forall|q: int| 0 <= q < i ==> s@[q].0@ != k@,
        decreases s@.len() - i,
    {
        if str_eq(s[i].0.as_str(), k) {
            return Some(i);
        }
        i = i + 1;
    }
    None
}

fn find_dir(s: &Vec<(SkillLocation, Vec<SkillLocation>)>, k: &SkillLocation) -> (r: Option<usize>)
    ensures
        match r {
            Some(i) => i < s@.len() && s@[i as int].0@ == k@,
            None => forall|q: int| 0 <= q < s@.len() ==> s@[q].0@ != k@,
        },
{
    let mut i: usize = 0;
    while i < s.len()
        invariant
            i <= s@.len(),
            forall|q: int| 0 <= q < i ==> s@[q].0@ != k@,
        decreases s@.len() - i,
    {
        if same_location(&s[i].0, k) {
            return Some(i);
        }
        i = i + 1;
    }
    None
}

fn contains_u32(v: &[u32], x: u32) -> (r: bool)
    ensures
        r == v@.contains(x),
{
    let mut i: usize = 0;
    while i < v.len()
        invariant
            i <= v@.len(),
            forall|q: int| 0 <= q < i ==> v@[q] != x,
        decreases v@.len() - i,
    {
        if v[i] == x {
            return true;
        }
        i = i + 1;
    }
    false
}

/// The providers of the skills at the files indexed under `name` that are among
/// `providers`.
pub open spec fn providers_of_name<T>(
    names: Map<Seq<char>, Set<LocationView>>,
    skills: Map<LocationView, IndexedSkill<T>>,
    name: Seq<char>,
    providers: Seq<u32>,
) -> Set<u32> {
    Set::new(
        |r: u32|
            exists|f: LocationView|
                or_empty(names, name).contains(f) && skills.contains_key(f) && skills[f].provider == r && providers.contains(r),
    )
}

/// An optional location as a spec value.
pub open spec fn opt_loc(o: Option<&SkillLocation>) -> Option<LocationView> {
    match o {
        Some(l) => Some(l@),
        None => None,
    }
}

fn dir_included(
    d: &SkillLocation,
    cloud: bool,
    working_directory: Option<&SkillLocation>,
    home: &Option<SkillLocation>,
    repo_root: Option<&SkillLocation>,
) -> (r: bool)
    ensures
        r == dir_in_scope(
            cloud,
            match working_directory {
                Some(w) => Some(w@),
                None => None,
            },
            match home {
                Some(h) => Some(h@),
                None => None,
            },
            match repo_root {
                Some(x) => Some(x@),
                None => None,
            },
            d@,
        ),
{
    let is_home = match home {
        Some(l) => same_location(d, l),
        None => false,
    };
    let matches = match working_directory {
        Some(w) => match (&w.host, &d.host) {
            (None, None) => true,
            (Some(a), Some(b)) => str_eq(a.as_str(), b.as_str()),
            _ => false,
        },
        None => d.host.is_none() && cloud,
    };
    if is_home || cloud {
        matches
    } else {
        match working_directory {
            Some(w) => starts_with(w, d) && match repo_root {
                Some(rt) => starts_with(d, rt),
                None => true,
            },
            None => false,
        }
    }
}

fn append_pairs(out: &mut Vec<(SkillLocation, SkillLocation)>, d: &SkillLocation, files: &Vec<SkillLocation>)
    ensures
        final(out)@.len() == old(out)@.len() + files@.len(),
        forall|k: int| 0 <= k < old(out)@.len() ==> #[trigger] final(out)@[k] == old(out)@[k],
        forall|k: int|
            old(out)@.len() <= k < final(out)@.len() ==> (#[trigger] final(out)@[k]).0@ == d@ && final(out)@[k].1@
                == files@[k - old(out)@.len()]@,
{
    let ghost start = out@;
    let mut j: usize = 0;
    while j < files.len()
        invariant
            start == old(out)@,
            j <= files@.len(),
            out@.len() == start.len() + j,
            forall|k: int| 0 <= k < start.len() ==> #[trigger] out@[k] == start[k],
            forall|k: int|
                start.len() <= k < out@.len() ==> (#[trigger] out@[k]).0@ == d@ && out@[k].1@ == files@[k - start.len()]@,
        decreases files@.len() - j,
    {
        out.push((copy_location(d), copy_location(&files[j])));
        j = j + 1;
    }
}


/// The paths of a list, as a set.
pub open spec fn path_set(v: Seq<SkillPath>) -> Set<(bool, Seq<Seq<char>>)> {
    Set::new(|p: (bool, Seq<Seq<char>>)| exists|i: int| 0 <= i < v.len() && crate::skills::path_view(v[i]) == p)
}

/// No path occurs twice.
pub open spec fn paths_unique(v: Seq<SkillPath>) -> bool {
    forall|i: int, j: int|
        0 <= i < j < v.len() ==> crate::skills::path_view(#[trigger] v[i]) != crate::skills::path_view(#[trigger] v[j])
}

/// The text by which a path is ordered.
pub open spec fn order_of(p: (bool, Seq<Seq<char>>)) -> Seq<char> {
    path_order_text(p.0, p.1)
}

/// Sorts paths component by component.
fn sort_paths(v: &mut Vec<SkillPath>)
    requires
        paths_unique(old(v)@),
    ensures
        paths_unique(final(v)@),
        path_set(final(v)@) == path_set(old(v)@),
        forall|k: int, l: int|
            0 <= k < l < final(v)@.len() ==> !text_lt(
                order_of(crate::skills::path_view(#[trigger] final(v)@[l])),
                order_of(crate::skills::path_view(#[trigger] final(v)@[k])),
            ),
{
    let ghost key = by_path_order();
    let ghost before = v@;
    let mut keys: Vec<SortKey> = Vec::new();
    let mut k: usize = 0;
    while k < v.len()
        invariant
            key == by_path_order(),
            k <= v@.len(),
            keys@.len() == k,
            forall|q: int| 0 <= q < k ==> #[trigger] keys@[q]@ == key(v@[q]),
        decreases v@.len() - k,
    {
        let t = order_text(&v[k]);
        keys.push(SortKey::Text(chars_of(t.as_str())));
        k = k + 1;
    }
    proof {
        assert(uniform(v@, key));
    }
    stable_sort_by_keys(v, &mut keys, false, Ghost(key));
    proof {
        let p = choose|p: Seq<int>| sorted_by_as(before, v@, key, false, p);
        assert forall|a: int, b: int| 0 <= a < b < v@.len() implies crate::skills::path_view(#[trigger] v@[a])
            != crate::skills::path_view(#[trigger] v@[b]) by {
            assert(p[a] != p[b]);
            if p[a] < p[b] {
                assert(crate::skills::path_view(before[p[a]]) != crate::skills::path_view(before[p[b]]));
            } else {
                assert(crate::skills::path_view(before[p[b]]) != crate::skills::path_view(before[p[a]]));
            }
        }
        assert forall|x: (bool, Seq<Seq<char>>)| path_set(v@).contains(x) <==> path_set(before).contains(x) by {
            if path_set(v@).contains(x) {
                let k = choose|k: int| 0 <= k < v@.len() && crate::skills::path_view(v@[k]) == x;
                assert(crate::skills::path_view(before[p[k]]) == x);
            }
            if path_set(before).contains(x) {
                let j = choose|j: int| 0 <= j < before.len() && crate::skills::path_view(before[j]) == x;
                lemma_permutation_onto(p, before.len() as int, j);
                let k = choose|k: int| 0 <= k < before.len() && p[k] == j;
                assert(crate::skills::path_view(v@[k]) == x);
            }
        }
        assert(path_set(v@) =~= path_set(before));
        assert forall|k: int, l: int| 0 <= k < l < v@.len() implies !text_lt(
            order_of(crate::skills::path_view(#[trigger] v@[l])),
            order_of(crate::skills::path_view(#[trigger] v@[k])),
        ) by {
            assert(!crate::sort::ordered_lt(key(v@[l]), key(v@[k]), false));
        }
    }
}

/// The local skill files of the directories under `scope`.
pub open spec fn local_files_under(dirs: Map<LocationView, Set<LocationView>>, scope: LocationView) -> Set<LocationView> {
    Set::new(
        |f: LocationView|
            exists|d: LocationView| dirs.contains_key(d) && location_starts_with(d, scope) && dirs[d].contains(f) && f.host is None,
    )
}

/// Whether `p` is the path of one of the first `i` directories, a local one.
spec fn from_local_dir(pairs: Seq<(LocationView, Set<LocationView>)>, i: int, p: (bool, Seq<Seq<char>>)) -> bool {
    exists|q: int| 0 <= q < i && pairs[q].0.host is None && path_of(pairs[q].0) == p
}

/// The path of a location.
pub open spec fn path_of(l: LocationView) -> (bool, Seq<Seq<char>>) {
    (l.absolute, l.components)
}

fn location_path(l: &SkillLocation) -> (r: SkillPath)
    ensures
        crate::skills::path_view(r) == path_of(l@),
{
    copy_path(&l.path)
}

/// Whether `path` is the home directory `home`.
pub fn is_home_directory(path: &SkillLocation, home: Option<&SkillPath>) -> (r: bool)
    ensures
        r == match home {
            Some(h) => path@ == local(crate::skills::path_view(*h)),
            None => false,
        },
{
    match home {
        Some(h) => {
            let home_loc = SkillLocation { host: None, path: copy_path(h) };
            same_location(path, &home_loc)
        },
        None => false,
    }
}

/// Whether `path` ends with a provider's skills folder (for example `.agents/skills`).
pub open spec fn is_project_provider_path_spec(path: (bool, Seq<Seq<char>>), providers: Seq<Seq<Seq<char>>>) -> bool {
    exists|i: int|
        0 <= i < providers.len() && providers[i].len() <= path.1.len() && path.1.skip(path.1.len() - providers[i].len())
            == providers[i]
}

/// Whether `path` ends with a provider's skills folder (for example `.agents/skills`).
pub fn is_project_provider_path(path: &SkillPath, layout: &SkillLayout) -> (r: bool)
    ensures
        r == is_project_provider_path_spec(crate::skills::path_view(*path), layout@.providers),
{
    let ghost all = layout@.providers;
    let mut i: usize = 0;
    while i < layout.provider_skills_paths.len()
        invariant
            all == layout@.providers,
            i <= layout.provider_skills_paths@.len(),
            forall|q: int|
                0 <= q < i ==> !(all[q].len() <= crate::skills::path_view(*path).1.len() && crate::skills::path_view(*path).1.skip(
                    crate::skills::path_view(*path).1.len() - all[q].len(),
                ) == all[q]),
        decreases layout.provider_skills_paths@.len() - i,
    {
        proof {
            assert(all[i as int] == layout.provider_skills_paths@[i as int]@.map_values(|c: String| c@));
        }
        if ends_with_components(&path.components, &layout.provider_skills_paths[i]) {
            return true;
        }
        i = i + 1;
    }
    false
}

/// An entry of a repository's file tree.
#[derive(Clone, Debug, PartialEq, Eq)]
pub enum RepoNode {
    File(SkillLocation),
    Directory(SkillLocation),
}

/// A change to a repository's file tree: the subtree that replaces what was under a
/// directory.
#[derive(Clone, Debug, PartialEq, Eq)]
pub struct RepoEntryUpdate {
    pub parent_path_to_replace: SkillLocation,
    pub subtree: Vec<RepoNode>,
}

/// Whether a node of an update can change the project's skills: a skill file, or, in
/// a local repository, a provider's skills folder.
pub open spec fn node_might_affect(n: RepoNode, is_local: bool, layout: LayoutView) -> bool {
    match n {
        RepoNode::File(f) => skill_parent_directory(f@, layout) is Ok,
        RepoNode::Directory(d) => is_local && is_project_provider_path_spec(path_of(d@), layout.providers),
    }
}

/// Whether a change to a repository's file tree can change its project skills: a
/// removed path holds a known skill file; or, in a local repository, an update replaces
/// a provider's skills folder; or an update brings a node that can.
pub open spec fn update_might_affect_spec(
    is_local: bool,
    removed: Seq<SkillLocation>,
    known: Option<Seq<SkillLocation>>,
    updates: Seq<RepoEntryUpdate>,
    layout: LayoutView,
) -> bool {
    ||| exists|r: int, k: int|
        0 <= r < removed.len() && known is Some && 0 <= k < known->0.len() && location_starts_with(
            (#[trigger] known->0[k])@,
            (#[trigger] removed[r])@,
        )
    ||| exists|u: int|
        0 <= u < updates.len() && ((is_local && is_project_provider_path_spec(
            path_of((#[trigger] updates[u]).parent_path_to_replace@),
            layout.providers,
        )) || exists|n: int| 0 <= n < updates[u].subtree@.len() && node_might_affect(updates[u].subtree@[n], is_local, layout))
}

fn node_affects(n: &RepoNode, is_local: bool, layout: &SkillLayout) -> (r: bool)
    ensures
        r == node_might_affect(*n, is_local, layout@),
{
    match n {
        RepoNode::File(f) => extract_skill_parent_directory(f, layout).is_ok(),
        RepoNode::Directory(d) => {
            let pd = location_path(d);
            is_local && is_project_provider_path(&pd, layout)
        },
    }
}

/// Where a node of a repository's tree is.
pub open spec fn node_location(n: RepoNode) -> SkillLocation {
    match n {
        RepoNode::File(f) => f,
        RepoNode::Directory(d) => d,
    }
}

/// Whether a node is a skill file.
pub open spec fn is_skill_file_node(n: RepoNode, layout: LayoutView) -> bool {
    n is File && node_might_affect(n, true, layout)
}

/// Whether a node is, in a local repository, a provider's skills folder.
pub open spec fn is_provider_directory_node(n: RepoNode, is_local: bool, layout: LayoutView) -> bool {
    n is Directory && node_might_affect(n, is_local, layout)
}

/// The skill files among `nodes`, in their order.
pub open spec fn project_skill_files_spec(nodes: Seq<RepoNode>, layout: LayoutView) -> Seq<LocationView> {
    nodes.filter(|n: RepoNode| is_skill_file_node(n, layout)).map_values(|n: RepoNode| node_location(n)@)
}

/// The providers' skills folders among `nodes` of a local repository, in their order;
/// none in a remote one.
pub open spec fn provider_directories_spec(nodes: Seq<RepoNode>, is_local: bool, layout: LayoutView) -> Seq<LocationView> {
    nodes.filter(|n: RepoNode| is_provider_directory_node(n, is_local, layout)).map_values(
        |n: RepoNode| node_location(n)@,
    )
}

/// What a repository's tree holds for its project skills: its skill files, and, in a
/// local repository, its providers' skills folders, whose symlinked skill directories
/// the caller reads from the file system (the tree leaves symlinks out).
pub fn project_skill_contents(is_local: bool, nodes: &[RepoNode], layout: &SkillLayout) -> (r: (
    Vec<SkillLocation>,
    Vec<SkillLocation>,
))
    ensures
        r.0@.map_values(|l: SkillLocation| l@) == project_skill_files_spec(nodes@, layout@),
        r.1@.map_values(|l: SkillLocation| l@) == provider_directories_spec(nodes@, is_local, layout@),
{
    let ghost file_pred = |n: RepoNode| is_skill_file_node(n, layout@);
    let ghost dir_pred = |n: RepoNode| is_provider_directory_node(n, is_local, layout@);
    let ghost view = |n: RepoNode| node_location(n)@;
    let mut files: Vec<SkillLocation> = Vec::new();
    let mut dirs: Vec<SkillLocation> = Vec::new();
    let mut i: usize = 0;
    while i < nodes.len()
        invariant
            file_pred == (|n: RepoNode| is_skill_file_node(n, layout@)),
            dir_pred == (|n: RepoNode| is_provider_directory_node(n, is_local, layout@)),
            view == (|n: RepoNode| node_location(n)@),
            i <= nodes@.len(),
            files@.map_values(|l: SkillLocation| l@) == nodes@.take(i as int).filter(file_pred).map_values(view),
            dirs@.map_values(|l: SkillLocation| l@) == nodes@.take(i as int).filter(dir_pred).map_values(view),
        decreases nodes@.len() - i,
    {
        let ghost before = nodes@.take(i as int);
        proof {
            reveal(Seq::filter);
            assert(nodes@.take(i + 1).drop_last() =~= before);
            assert(nodes@.take(i + 1).last() == nodes@[i as int]);
        }
        let ghost old_files = files@;
        let ghost old_dirs = dirs@;
        let affects = node_affects(&nodes[i], is_local, layout);
        match &nodes[i] {
            RepoNode::File(f) => {
                if affects {
                    files.push(copy_location(f));
                    proof {
                        assert(files@.map_values(|l: SkillLocation| l@) =~= old_files.map_values(
                            |l: SkillLocation| l@,
                        ).push(view(nodes@[i as int])));
                    }
                }
            },
            RepoNode::Directory(d) => {
                if affects {
                    dirs.push(copy_location(d));
                    proof {
                        assert(dirs@.map_values(|l: SkillLocation| l@) =~= old_dirs.map_values(
                            |l: SkillLocation| l@,
                        ).push(view(nodes@[i as int])));
                    }
                }
            },
        }
        proof {
            let now = nodes@.take(i + 1);
            if file_pred(nodes@[i as int]) {
                assert(now.filter(file_pred) == before.filter(file_pred).push(nodes@[i as int]));
                assert(now.filter(file_pred).map_values(view) =~= before.filter(file_pred).map_values(view).push(
                    view(nodes@[i as int]),
                ));
            } else {
                assert(now.filter(file_pred) == before.filter(file_pred));
            }
            if dir_pred(nodes@[i as int]) {
                assert(now.filter(dir_pred) == before.filter(dir_pred).push(nodes@[i as int]));
                assert(now.filter(dir_pred).map_values(view) =~= before.filter(dir_pred).map_values(view).push(
                    view(nodes@[i as int]),
                ));
            } else {
                assert(now.filter(dir_pred) == before.filter(dir_pred));
            }
        }
        i = i + 1;
    }
    proof {
        assert(nodes@.take(nodes@.len() as int) =~= nodes@);
    }
    (files, dirs)
}

/// Whether a change to a repository's file tree can change its project skills (see
/// [`update_might_affect_spec`]); `known_skill_files` are the skill files known for the
/// repository, if any.
pub fn update_might_affect_project_skills(
    is_local: bool,
    removed: &[SkillLocation],
    known_skill_files: Option<&[SkillLocation]>,
    updates: &[RepoEntryUpdate],
    layout: &SkillLayout,
) -> (r: bool)
    ensures
        r == update_might_affect_spec(
            is_local,
            removed@,
            match known_skill_files {
                Some(k) => Some(k@),
                None => None,
            },
            updates@,
            layout@,
        ),
{
    let ghost known = match known_skill_files {
        Some(k) => Some(k@),
        None => None::<Seq<SkillLocation>>,
    };
    let mut r: usize = 0;
    while r < removed.len()
        invariant
            known == match known_skill_files {
                Some(k) => Some(k@),
                None => None::<Seq<SkillLocation>>,
            },
            r <= removed@.len(),
            forall|a: int, k: int|
                0 <= a < r && known is Some && 0 <= k < known->0.len() ==> !location_starts_with(
                    (#[trigger] known->0[k])@,
                    (#[trigger] removed@[a])@,
                ),
        decreases removed@.len() - r,
    {
        if let Some(ks) = known_skill_files {
            let mut k: usize = 0;
            while k < ks.len()
                invariant
                    known == Some(ks@),
                    known == match known_skill_files {
                        Some(k) => Some(k@),
                        None => None::<Seq<SkillLocation>>,
                    },
                    r < removed@.len(),
                    k <= ks@.len(),
                    forall|q: int| 0 <= q < k ==> !location_starts_with((#[trigger] ks@[q])@, removed@[r as int]@),
                decreases ks@.len() - k,
            {
                if starts_with(&ks[k], &removed[r]) {
                    proof {
                        assert(known->0[k as int] == ks@[k as int]);
                        assert(location_starts_with((known->0[k as int])@, (removed@[r as int])@));
                    }
                    return true;
                }
                k = k + 1;
            }
        }
        r = r + 1;
    }
    let mut u: usize = 0;
    while u < updates.len()
        invariant
            known == match known_skill_files {
                Some(k) => Some(k@),
                None => None::<Seq<SkillLocation>>,
            },
            forall|a: int, k: int|
                0 <= a < removed@.len() && known is Some && 0 <= k < known->0.len() ==> !location_starts_with(
                    (#[trigger] known->0[k])@,
                    (#[trigger] removed@[a])@,
                ),
            u <= updates@.len(),
            forall|q: int|
                0 <= q < u ==> !((is_local && is_project_provider_path_spec(
                    path_of((#[trigger] updates@[q]).parent_path_to_replace@),
                    layout@.providers,
                )) || exists|n: int| 0 <= n < updates@[q].subtree@.len() && node_might_affect(updates@[q].subtree@[n], is_local, layout@)),
        decreases updates@.len() - u,
    {
        let upd = &updates[u];
        let pp = location_path(&upd.parent_path_to_replace);
        if is_local && is_project_provider_path(&pp, layout) {
            return true;
        }
        let mut n: usize = 0;
        while n < upd.subtree.len()
            invariant
                u < updates@.len(),
                updates@[u as int] == *upd,
                n <= upd.subtree@.len(),
                forall|q: int| 0 <= q < n ==> !node_might_affect(#[trigger] upd.subtree@[q], is_local, layout@),
            decreases upd.subtree@.len() - n,
        {
            if node_affects(&upd.subtree[n], is_local, layout) {
                proof {
                    assert(updates@[u as int] == *upd);
                    assert(node_might_affect(updates@[u as int].subtree@[n as int], is_local, layout@));
                }
                return true;
            }
            n = n + 1;
        }
        u = u + 1;
    }
    false
}

impl<T> SkillIndex<T> {
    /// The index keeps each key once and each set without repeats.
    pub closed spec fn wf(&self) -> bool {
        &&& keys_unique(dir_pairs(self.directory_skills@))
        &&& dir_lists_unique(self.directory_skills@)
        &&& keys_unique(path_pairs(self.skills_by_path@))
        &&& keys_unique(name_pairs(self.skills_by_name@))
        &&& name_lists_unique(self.skills_by_name@)
    }

    /// The skill files of each directory.
    pub closed spec fn dirs(&self) -> Map<LocationView, Set<LocationView>> {
        assoc(dir_pairs(self.directory_skills@))
    }

    /// The skill at each file.
    pub closed spec fn skills(&self) -> Map<LocationView, IndexedSkill<T>> {
        assoc(path_pairs(self.skills_by_path@))
    }

    /// The files indexed under each skill name.
    pub closed spec fn names(&self) -> Map<Seq<char>, Set<LocationView>> {
        assoc(name_pairs(self.skills_by_name@))
    }

    /// Whether the index serves a cloud environment.
    pub closed spec fn cloud(&self) -> bool {
        self.is_cloud_environment
    }

    /// An empty index, outside a cloud environment.
    pub fn new() -> (r: SkillIndex<T>)
        ensures
            r.wf(),
            r.dirs() == Map::<LocationView, Set<LocationView>>::empty(),
            r.skills() == Map::<LocationView, IndexedSkill<T>>::empty(),
            r.names() == Map::<Seq<char>, Set<LocationView>>::empty(),
            !r.cloud(),
    {
        let r = SkillIndex {
            directory_skills: Vec::new(),
            skills_by_path: Vec::new(),
            skills_by_name: Vec::new(),
            is_cloud_environment: false,
        };
        proof {
            assert(dir_pairs(r.directory_skills@) =~= Seq::empty());
            assert(path_pairs(r.skills_by_path@) =~= Seq::empty());
            assert(name_pairs(r.skills_by_name@) =~= Seq::empty());
        }
        r
    }

    /// Marks the index as serving a cloud environment, where every directory's skills
    /// are in scope whatever the working directory.
    pub fn set_cloud_environment(&mut self, value: bool)
        requires
            old(self).wf(),
        ensures
            final(self).wf(),
            final(self).cloud() == value,
            final(self).dirs() == old(self).dirs(),
            final(self).skills() == old(self).skills(),
            final(self).names() == old(self).names(),
    {
        self.is_cloud_environment = value;
    }

    /// Adds a skill found at `skill_path`, whose skills folder is in `parent_dir`: the
    /// file joins the directory's files and its name's files, and the skill replaces
    /// what the file held before.
    pub fn add_skill(&mut self, parent_dir: SkillLocation, skill_path: SkillLocation, skill: IndexedSkill<T>)
        requires
            old(self).wf(),
        ensures
            final(self).wf(),
            final(self).cloud() == old(self).cloud(),
            final(self).dirs() == old(self).dirs().insert(
                parent_dir@,
                or_empty(old(self).dirs(), parent_dir@).insert(skill_path@),
            ),
            final(self).names() == old(self).names().insert(
                skill.name@,
                or_empty(old(self).names(), skill.name@).insert(skill_path@),
            ),
            final(self).skills() == old(self).skills().insert(skill_path@, skill),
    {
        dir_insert(&mut self.directory_skills, parent_dir, copy_location(&skill_path));
        name_insert(&mut self.skills_by_name, skill.name.clone(), copy_location(&skill_path));
        path_insert(&mut self.skills_by_path, skill_path, skill);
    }
    /// Forgets what deleting `path` removed: directories under it with all their skills,
    /// and, in the directory that holds `path`, the skill files under it. Each removed
    /// skill's file leaves the files of its name.
    pub fn handle_path_deleted(&mut self, path: &SkillLocation)
        requires
            old(self).wf(),
        ensures
            final(self).wf(),
            final(self).cloud() == old(self).cloud(),
            final(self).dirs() == dirs_after_delete(old(self).dirs(), path@),
            final(self).skills() == old(self).skills().remove_keys(removed_files(old(self).dirs(), path@)),
            final(self).names() == names_after_removal(
                old(self).names(),
                old(self).skills(),
                removed_files(old(self).dirs(), path@),
            ),
    {
        let ghost dirs0 = self.dirs();
        let ghost skills0 = self.skills();
        let ghost names0 = self.names();
        let mut old_dirs: Vec<(SkillLocation, Vec<SkillLocation>)> = Vec::new();
        std::mem::swap(&mut old_dirs, &mut self.directory_skills);
        let ghost orig = old_dirs@;
        let mut new_dirs: Vec<(SkillLocation, Vec<SkillLocation>)> = Vec::new();
        proof {
            assert(orig.take(0) =~= Seq::<(SkillLocation, Vec<SkillLocation>)>::empty());
            assert(dir_pairs(orig.take(0)) =~= Seq::<(LocationView, Set<LocationView>)>::empty());
            assert(dir_pairs(new_dirs@) =~= Seq::<(LocationView, Set<LocationView>)>::empty());
            assert(removed_files(Map::<LocationView, Set<LocationView>>::empty(), path@) =~= Set::<LocationView>::empty());
            assert(dirs_after_delete(Map::<LocationView, Set<LocationView>>::empty(), path@) =~= Map::<
                LocationView,
                Set<LocationView>,
            >::empty());
            assert(skills0.remove_keys(Set::<LocationView>::empty()) =~= skills0);
            assert(names_after_removal(names0, skills0, Set::<LocationView>::empty()) =~= names0) by {
                assert forall|n: Seq<char>| #[trigger] gone_with_name(skills0, Set::<LocationView>::empty(), n).is_empty() by {
                    assert(gone_with_name(skills0, Set::<LocationView>::empty(), n) =~= Set::<LocationView>::empty());
                }
                assert forall|n: Seq<char>| names0.contains_key(n) implies names_after_removal(
                    names0,
                    skills0,
                    Set::<LocationView>::empty(),
                )[n] == names0[n] by {
                    assert(gone_with_name(skills0, Set::<LocationView>::empty(), n) =~= Set::<LocationView>::empty());
                    assert(names0[n].difference(Set::<LocationView>::empty()) =~= names0[n]);
                }
            }
        }
        let mut i: usize = 0;
        while i < old_dirs.len()
            invariant
                orig == old_dirs@,
                keys_unique(dir_pairs(orig)),
                dir_lists_unique(orig),
                assoc(dir_pairs(orig)) == dirs0,
                i <= orig.len(),
                keys_unique(dir_pairs(new_dirs@)),
                dir_lists_unique(new_dirs@),
                assoc(dir_pairs(new_dirs@)) == dirs_after_delete(assoc(dir_pairs(orig.take(i as int))), path@),
                keys_unique(path_pairs(self.skills_by_path@)),
                keys_unique(name_pairs(self.skills_by_name@)),
                name_lists_unique(self.skills_by_name@),
                self.skills() == skills0.remove_keys(removed_files(assoc(dir_pairs(orig.take(i as int))), path@)),
                self.names() == names_after_removal(
                    names0,
                    skills0,
                    removed_files(assoc(dir_pairs(orig.take(i as int))), path@),
                ),
                self.is_cloud_environment == old(self).is_cloud_environment,
                self.skills_by_path@.len() >= 0,
            decreases orig.len() - i,
        {
            let ghost prev = assoc(dir_pairs(orig.take(i as int)));
            let ghost rm = removed_files(prev, path@);
            let ghost dv = orig[i as int].0@;
            let ghost fs = location_set(orig[i as int].1@);
            proof {
                assert(dir_pairs(orig.take(i + 1)).drop_last() =~= dir_pairs(orig.take(i as int)));
                assert(dir_pairs(orig.take(i + 1)).last() == (dv, fs));
                assert(assoc(dir_pairs(orig.take(i + 1))) == prev.insert(dv, fs));
                lemma_assoc(dir_pairs(orig.take(i as int)));
                assert(!prev.contains_key(dv)) by {
                    if prev.contains_key(dv) {
                        let q = choose|q: int|
                            0 <= q < dir_pairs(orig.take(i as int)).len() && dir_pairs(orig.take(i as int))[q].0 == dv;
                        assert(dir_pairs(orig)[q].0 == dir_pairs(orig)[i as int].0);
                    }
                }
                lemma_dirs_step(prev, dv, fs, path@);
                assert(locations_unique(orig[i as int].1@));
            }
            let files = &old_dirs[i].1;
            if starts_with(&old_dirs[i].0, path) {
                let mut j: usize = 0;
                proof {
                    lemma_location_set_all(files@);
                    assert(rm.union(Set::<LocationView>::empty()) =~= rm);
                }
                while j < files.len()
                    invariant
                        files@ == orig[i as int].1@,
                        j <= files@.len(),
                        keys_unique(path_pairs(self.skills_by_path@)),
                        keys_unique(name_pairs(self.skills_by_name@)),
                        name_lists_unique(self.skills_by_name@),
                        self.skills() == skills0.remove_keys(rm.union(location_set(files@.take(j as int)))),
                        self.names() == names_after_removal(names0, skills0, rm.union(location_set(files@.take(j as int)))),
                        self.is_cloud_environment == old(self).is_cloud_environment,
                    decreases files@.len() - j,
                {
                    let ghost gone = rm.union(location_set(files@.take(j as int)));
                    remove_file(&mut self.skills_by_path, &mut self.skills_by_name, &files[j]);
                    proof {
                        lemma_location_set_take(files@, j as int);
                        assert(gone.insert(files@[j as int]@) =~= rm.union(location_set(files@.take(j + 1))));
                        lemma_removal_step(names0, skills0, gone, files@[j as int]@);
                    }
                    j = j + 1;
                }
                proof {
                    lemma_location_set_all(files@);
                    assert(removed_from(dv, fs, path@) == fs);
                }
            } else if starts_with(path, &old_dirs[i].0) {
                let ghost under = |f: LocationView| location_starts_with(f, path@);
                let mut kept: Vec<SkillLocation> = Vec::new();
                let mut j: usize = 0;
                proof {
                    lemma_location_set_all(files@);
                    assert(location_set(files@.take(0)).filter(under) =~= Set::<LocationView>::empty());
                    assert(rm.union(Set::<LocationView>::empty()) =~= rm);
                    assert(location_set(kept@) =~= Set::<LocationView>::empty());
                }
                while j < files.len()
                    invariant
                        files@ == orig[i as int].1@,
                        locations_unique(files@),
                        under == (|f: LocationView| location_starts_with(f, path@)),
                        j <= files@.len(),
                        keys_unique(path_pairs(self.skills_by_path@)),
                        keys_unique(name_pairs(self.skills_by_name@)),
                        name_lists_unique(self.skills_by_name@),
                        self.skills() == skills0.remove_keys(rm.union(location_set(files@.take(j as int)).filter(under))),
                        self.names() == names_after_removal(
                            names0,
                            skills0,
                            rm.union(location_set(files@.take(j as int)).filter(under)),
                        ),
                        self.is_cloud_environment == old(self).is_cloud_environment,
                        locations_unique(kept@),
                        location_set(kept@) == location_set(files@.take(j as int)).difference(
                            location_set(files@.take(j as int)).filter(under),
                        ),
                        forall|q: int| 0 <= q < kept@.len() ==> location_set(files@.take(j as int)).contains(#[trigger] kept@[q]@),
                    decreases files@.len() - j,
                {
                    let ghost taken = location_set(files@.take(j as int));
                    let ghost gone = rm.union(taken.filter(under));
                    let ghost fj = files@[j as int]@;
                    proof {
                        lemma_location_set_take(files@, j as int);
                        assert(!taken.contains(fj)) by {
                            if taken.contains(fj) {
                                let t = files@.take(j as int);
                                let q = choose|q: int| 0 <= q < t.len() && (#[trigger] t[q])@ == fj;
                                assert(t[q] == files@[q]);
                                assert(files@[q]@ == files@[j as int]@);
                            }
                        }
                    }
                    if starts_with(&files[j], path) {
                        remove_file(&mut self.skills_by_path, &mut self.skills_by_name, &files[j]);
                        proof {
                            assert(taken.insert(fj).filter(under) =~= taken.filter(under).insert(fj));
                            assert(gone.insert(fj) =~= rm.union(taken.insert(fj).filter(under)));
                            lemma_removal_step(names0, skills0, gone, fj);
                            assert(taken.insert(fj).difference(taken.insert(fj).filter(under)) =~= taken.difference(
                                taken.filter(under),
                            ));
                        }
                    } else {
                        let ghost before_kept = kept@;
                        kept.push(copy_location(&files[j]));
                        proof {
                            assert(taken.insert(fj).filter(under) =~= taken.filter(under));
                            assert forall|a: int, b: int| 0 <= a < b < kept@.len() implies (#[trigger] kept@[a])@ != (
                            #[trigger] kept@[b])@ by {
                                if b == before_kept.len() {
                                    assert(kept@[a] == before_kept[a]);
                                    assert(taken.contains(kept@[a]@));
                                } else {
                                    assert(kept@[a] == before_kept[a] && kept@[b] == before_kept[b]);
                                }
                            }
                            assert forall|x: LocationView| location_set(kept@).contains(x) <==> location_set(before_kept).insert(
                                fj,
                            ).contains(x) by {
                                if location_set(kept@).contains(x) {
                                    let q = choose|q: int| 0 <= q < kept@.len() && kept@[q]@ == x;
                                    if q < before_kept.len() {
                                        assert(kept@[q] == before_kept[q]);
                                    }
                                }
                                if location_set(before_kept).contains(x) {
                                    let q = choose|q: int| 0 <= q < before_kept.len() && before_kept[q]@ == x;
                                    assert(kept@[q] == before_kept[q]);
                                }
                                if x == fj {
                                    assert(kept@[before_kept.len() as int]@ == x);
                                }
                            }
                            assert(location_set(kept@) =~= location_set(before_kept).insert(fj));
                            assert(taken.insert(fj).difference(taken.insert(fj).filter(under)) =~= taken.difference(
                                taken.filter(under),
                            ).insert(fj));
                            assert forall|q: int| 0 <= q < kept@.len() implies taken.insert(fj).contains(#[trigger] kept@[q]@) by {
                                if q < before_kept.len() {
                                    assert(kept@[q] == before_kept[q]);
                                }
                            }
                        }
                    }
                    j = j + 1;
                }
                proof {
                    lemma_location_set_all(files@);
                    assert(removed_from(dv, fs, path@) == fs.filter(under));
                    assert(!assoc(dir_pairs(new_dirs@)).contains_key(dv));
                    lemma_assoc(dir_pairs(new_dirs@));
                }
                let ghost before_new = new_dirs@;
                let dir = copy_location(&old_dirs[i].0);
                let ghost kept_set = location_set(kept@);
                new_dirs.push((dir, kept));
                proof {
                    assert(dir_pairs(new_dirs@) =~= dir_pairs(before_new).push((dv, kept_set)));
                    lemma_assoc_push(dir_pairs(before_new), dv, kept_set);
                    assert forall|q: int| 0 <= q < new_dirs@.len() implies locations_unique(#[trigger] new_dirs@[q].1@) by {
                        if q < before_new.len() {
                            assert(new_dirs@[q] == before_new[q]);
                        }
                    }
                }
            } else {
                proof {
                    assert(removed_from(dv, fs, path@) == Set::<LocationView>::empty());
                    assert(rm.union(Set::<LocationView>::empty()) =~= rm);
                    assert(fs.difference(Set::<LocationView>::empty()) =~= fs);
                    assert(!assoc(dir_pairs(new_dirs@)).contains_key(dv));
                }
                let ghost before_new = new_dirs@;
                let dir = copy_location(&old_dirs[i].0);
                let copied = copy_locations(files);
                proof {
                    assert(location_set(copied@) =~= fs) by {
                        assert forall|x: LocationView| location_set(copied@).contains(x) <==> fs.contains(x) by {
                            if location_set(copied@).contains(x) {
                                let q = choose|q: int| 0 <= q < copied@.len() && copied@[q]@ == x;
                                assert(files@[q]@ == x);
                            }
                            if fs.contains(x) {
                                let q = choose|q: int| 0 <= q < files@.len() && files@[q]@ == x;
                                assert(copied@[q]@ == x);
                            }
                        }
                    }
                    assert forall|a: int, b: int| 0 <= a < b < copied@.len() implies (#[trigger] copied@[a])@ != (
                    #[trigger] copied@[b])@ by {
                        assert(files@[a]@ != files@[b]@);
                    }
                }
                new_dirs.push((dir, copied));
                proof {
                    assert(dir_pairs(new_dirs@) =~= dir_pairs(before_new).push((dv, fs)));
                    lemma_assoc_push(dir_pairs(before_new), dv, fs);
                    assert forall|q: int| 0 <= q < new_dirs@.len() implies locations_unique(#[trigger] new_dirs@[q].1@) by {
                        if q < before_new.len() {
                            assert(new_dirs@[q] == before_new[q]);
                        }
                    }
                }
            }
            i = i + 1;
        }
        proof {
            assert(orig.take(orig.len() as int) =~= orig);
        }
        self.directory_skills = new_dirs;
    }
    /// The index as a spec value.
    pub closed spec fn index_view(&self) -> IndexView<T> {
        IndexView { dirs: self.dirs(), skills: self.skills(), names: self.names() }
    }

    /// Adds the skills found, in order, each at the directory its file belongs to; a
    /// skill whose file belongs to no directory is skipped.
    pub fn handle_skills_added(&mut self, skills: Vec<(SkillLocation, IndexedSkill<T>)>, layout: &SkillLayout)
        requires
            old(self).wf(),
        ensures
            final(self).wf(),
            final(self).cloud() == old(self).cloud(),
            final(self).index_view() == view_after_adds(
                old(self).index_view(),
                skills@.map_values(|e: (SkillLocation, IndexedSkill<T>)| (e.0@, e.1)),
                layout@,
            ),
    {
        let ghost v0 = self.index_view();
        let ghost all = skills@.map_values(|e: (SkillLocation, IndexedSkill<T>)| (e.0@, e.1));
        let mut rest = skills;
        let ghost mut i: int = 0;
        proof {
            assert(all.take(0) =~= Seq::<(LocationView, IndexedSkill<T>)>::empty());
            assert(rest@.map_values(|e: (SkillLocation, IndexedSkill<T>)| (e.0@, e.1)) =~= all.skip(0));
        }
        while rest.len() > 0
            invariant
                0 <= i <= all.len(),
                rest@.map_values(|e: (SkillLocation, IndexedSkill<T>)| (e.0@, e.1)) == all.skip(i),
                self.wf(),
                self.cloud() == old(self).cloud(),
                self.index_view() == view_after_adds(v0, all.take(i), layout@),
            decreases rest@.len(),
        {
            let ghost before = rest@;
            proof {
                assert(before.map_values(|e: (SkillLocation, IndexedSkill<T>)| (e.0@, e.1)).len() == before.len());
                assert(i < all.len());
            }
            let (path, skill) = rest.remove(0);
            proof {
                assert(before.map_values(|e: (SkillLocation, IndexedSkill<T>)| (e.0@, e.1))[0] == all.skip(i)[0]);
                assert(all.skip(i)[0] == (path@, skill));
                let bm = before.map_values(|e: (SkillLocation, IndexedSkill<T>)| (e.0@, e.1));
                let rm = rest@.map_values(|e: (SkillLocation, IndexedSkill<T>)| (e.0@, e.1));
                assert forall|q: int| 0 <= q < rest@.len() implies #[trigger] rm[q] == all.skip(i + 1)[q] by {
                    assert(rest@[q] == before[q + 1]);
                    assert(bm[q + 1] == all.skip(i)[q + 1]);
                }
                assert(rest@.map_values(|e: (SkillLocation, IndexedSkill<T>)| (e.0@, e.1)) =~= all.skip(i + 1));
                assert(all.take(i + 1).drop_last() =~= all.take(i));
                assert(all.take(i + 1).last() == (path@, skill));
            }
            match extract_skill_parent_directory(&path, layout) {
                Ok(parent) => {
                    self.add_skill(parent, path, skill);
                },
                Err(_) => {},
            }
            proof {
                i = i + 1;
            }
        }
        proof {
            assert(all.skip(i).len() == 0);
            assert(all.take(i) =~= all);
        }
    }

    /// Forgets each deleted path, in order.
    pub fn handle_skills_deleted(&mut self, paths: Vec<SkillLocation>)
        requires
            old(self).wf(),
        ensures
            final(self).wf(),
            final(self).cloud() == old(self).cloud(),
            final(self).index_view() == view_after_deletes(
                old(self).index_view(),
                paths@.map_values(|p: SkillLocation| p@),
            ),
    {
        let ghost v0 = self.index_view();
        let ghost all = paths@.map_values(|p: SkillLocation| p@);
        let mut k: usize = 0;
        proof {
            assert(all.take(0) =~= Seq::<LocationView>::empty());
        }
        while k < paths.len()
            invariant
                all == paths@.map_values(|p: SkillLocation| p@),
                k <= paths@.len(),
                self.wf(),
                self.cloud() == old(self).cloud(),
                self.index_view() == view_after_deletes(v0, all.take(k as int)),
            decreases paths@.len() - k,
        {
            self.handle_path_deleted(&paths[k]);
            proof {
                assert(all.take(k + 1).drop_last() =~= all.take(k as int));
                assert(all.take(k + 1).last() == paths@[k as int]@);
            }
            k = k + 1;
        }
        proof {
            assert(all.take(paths@.len() as int) =~= all);
        }
    }
    /// The skill at `path`, if the index holds one.
    pub fn skill_by_path(&self, path: &SkillLocation) -> (r: Option<&IndexedSkill<T>>)
        requires
            self.wf(),
        ensures
            match r {
                Some(skill) => self.skills().contains_key(path@) && *skill == self.skills()[path@],
                None => !self.skills().contains_key(path@),
            },
    {
        proof {
            lemma_assoc(path_pairs(self.skills_by_path@));
        }
        match find_path(&self.skills_by_path, path) {
            Some(i) => {
                proof {
                    assert(path_pairs(self.skills_by_path@)[i as int].0 == path@);
                }
                Some(&self.skills_by_path[i].1)
            },
            None => {
                proof {
                    if self.skills().contains_key(path@) {
                        let q = choose|q: int|
                            0 <= q < path_pairs(self.skills_by_path@).len() && path_pairs(self.skills_by_path@)[q].0
                                == path@;
                        assert(self.skills_by_path@[q].0@ == path@);
                    }
                }
                None
            },
        }
    }

    /// The files indexed under `name`, ordered by the text of their paths.
    pub fn skill_paths_by_name(&self, name: &str) -> (r: Vec<SkillLocation>)
        requires
            self.wf(),
        ensures
            locations_unique(r@),
            location_set(r@) == or_empty(self.names(), name@),
            forall|k: int, l: int|
                0 <= k < l < r@.len() ==> !text_lt(location_text((#[trigger] r@[l])@), location_text((#[trigger] r@[k])@)),
    {
        proof {
            lemma_assoc(name_pairs(self.skills_by_name@));
        }
        match find_name(&self.skills_by_name, name) {
            Some(i) => {
                let mut v = copy_locations(&self.skills_by_name[i].1);
                proof {
                    assert(locations_unique(self.skills_by_name@[i as int].1@));
                    lemma_copies_keep_locations(self.skills_by_name@[i as int].1@, v@);
                    assert(name_pairs(self.skills_by_name@)[i as int].0 == name@);
                    assert(self.names()[name@] == location_set(self.skills_by_name@[i as int].1@));
                }
                sort_by_location_text(&mut v);
                v
            },
            None => {
                let v: Vec<SkillLocation> = Vec::new();
                proof {
                    if self.names().contains_key(name@) {
                        let q = choose|q: int|
                            0 <= q < name_pairs(self.skills_by_name@).len() && name_pairs(self.skills_by_name@)[q].0
                                == name@;
                        assert(self.skills_by_name@[q].0@ == name@);
                    }
                    assert(location_set(v@) =~= Set::<LocationView>::empty());
                }
                v
            },
        }
    }

    /// The skill files of the home directory `home`, when it is known.
    pub fn home_skill_paths(&self, home: Option<&SkillPath>) -> (r: Vec<SkillLocation>)
        requires
            self.wf(),
        ensures
            locations_unique(r@),
            location_set(r@) == match home {
                Some(h) => or_empty(self.dirs(), local(crate::skills::path_view(*h))),
                None => Set::<LocationView>::empty(),
            },
    {
        let h = match home {
            None => {
                let v: Vec<SkillLocation> = Vec::new();
                assert(location_set(v@) =~= Set::<LocationView>::empty());
                return v;
            },
            Some(h) => h,
        };
        let home_loc = SkillLocation { host: None, path: copy_path(h) };
        assert(home_loc@ == local(crate::skills::path_view(*h)));
        proof {
            lemma_assoc(dir_pairs(self.directory_skills@));
        }
        match find_dir(&self.directory_skills, &home_loc) {
            Some(i) => {
                let v = copy_locations(&self.directory_skills[i].1);
                proof {
                    assert(locations_unique(self.directory_skills@[i as int].1@));
                    lemma_copies_keep_locations(self.directory_skills@[i as int].1@, v@);
                    assert(dir_pairs(self.directory_skills@)[i as int].0 == home_loc@);
                }
                v
            },
            None => {
                let v: Vec<SkillLocation> = Vec::new();
                proof {
                    if self.dirs().contains_key(home_loc@) {
                        let q = choose|q: int|
                            0 <= q < dir_pairs(self.directory_skills@).len() && dir_pairs(self.directory_skills@)[q].0
                                == home_loc@;
                        assert(self.directory_skills@[q].0@ == home_loc@);
                    }
                    assert(location_set(v@) =~= Set::<LocationView>::empty());
                }
                v
            },
        }
    }

    /// Whether a skill of provider `provider` named `name`, or one at any file indexed
    /// under that name, has a provider among `providers`.
    pub fn skill_exists_for_any_provider(&self, name: &str, provider: u32, providers: &[u32]) -> (r: bool)
        requires
            self.wf(),
        ensures
            r == (providers@.contains(provider) || !providers_of_name(self.names(), self.skills(), name@, providers@).is_empty()),
    {
        if contains_u32(providers, provider) {
            return true;
        }
        let best = self.supported_providers_min(name, providers);
        best.is_some()
    }

    /// The best-ranked (lowest) provider among `providers` of the skills at the files
    /// indexed under `name`, if any.
    fn supported_providers_min(&self, name: &str, providers: &[u32]) -> (r: Option<u32>)
        requires
            self.wf(),
        ensures
            match r {
                Some(m) => providers_of_name(self.names(), self.skills(), name@, providers@).contains(m) && forall|x: u32|
                    providers_of_name(self.names(), self.skills(), name@, providers@).contains(x) ==> m <= x,
                None => providers_of_name(self.names(), self.skills(), name@, providers@).is_empty(),
            },
    {
        let ghost cands = providers_of_name(self.names(), self.skills(), name@, providers@);
        proof {
            lemma_assoc(name_pairs(self.skills_by_name@));
            lemma_assoc(path_pairs(self.skills_by_path@));
        }
        let i = match find_name(&self.skills_by_name, name) {
            Some(i) => i,
            None => {
                proof {
                    assert(!self.names().contains_key(name@)) by {
                        if self.names().contains_key(name@) {
                            let q = choose|q: int|
                                0 <= q < name_pairs(self.skills_by_name@).len() && name_pairs(self.skills_by_name@)[q].0
                                    == name@;
                            assert(self.skills_by_name@[q].0@ == name@);
                        }
                    }
                    assert(cands =~= Set::<u32>::empty());
                }
                return None;
            },
        };
        let files = &self.skills_by_name[i].1;
        proof {
            assert(name_pairs(self.skills_by_name@)[i as int].0 == name@);
            assert(or_empty(self.names(), name@) == location_set(files@));
        }
        let mut best: Option<u32> = None;
        let mut k: usize = 0;
        while k < files.len()
            invariant
                self.wf(),
                k <= files@.len(),
                or_empty(self.names(), name@) == location_set(files@),
                cands == providers_of_name(self.names(), self.skills(), name@, providers@),
                forall|q: int| 0 <= q < path_pairs(self.skills_by_path@).len() ==> #[trigger] self.skills()[path_pairs(self.skills_by_path@)[q].0] == path_pairs(self.skills_by_path@)[q].1,
                forall|l: LocationView| #[trigger] self.skills().contains_key(l) <==> exists|q: int| 0 <= q < path_pairs(self.skills_by_path@).len() && path_pairs(self.skills_by_path@)[q].0 == l,
                match best {
                    Some(m) => cands.contains(m) && forall|q: int|
                        0 <= q < k && self.skills().contains_key(files@[q]@) && providers@.contains(self.skills()[files@[q]@].provider)
                            ==> m <= self.skills()[files@[q]@].provider,
                    None => forall|q: int|
                        0 <= q < k ==> !(self.skills().contains_key(files@[q]@) && providers@.contains(self.skills()[files@[q]@].provider)),
                },
            decreases files@.len() - k,
        {
            match find_path(&self.skills_by_path, &files[k]) {
                Some(j) => {
                    let pr = self.skills_by_path[j].1.provider;
                    proof {
                        assert(path_pairs(self.skills_by_path@)[j as int].0 == files@[k as int]@);
                        assert(self.skills()[files@[k as int]@].provider == pr);
                    }
                    if contains_u32(providers, pr) {
                        proof {
                            assert(location_set(files@).contains(files@[k as int]@));
                            assert(cands.contains(pr));
                        }
                        best = match best {
                            Some(m) => if pr < m { Some(pr) } else { Some(m) },
                            None => Some(pr),
                        };
                    }
                },
                None => {
                    proof {
                        if self.skills().contains_key(files@[k as int]@) {
                            let q = choose|q: int|
                                0 <= q < path_pairs(self.skills_by_path@).len() && path_pairs(self.skills_by_path@)[q].0
                                    == files@[k as int]@;
                            assert(self.skills_by_path@[q].0@ == files@[k as int]@);
                        }
                    }
                },
            }
            k = k + 1;
        }
        proof {
            assert forall|x: u32| cands.contains(x) implies best is Some && best->0 <= x by {
                let f = choose|f: LocationView|
                    or_empty(self.names(), name@).contains(f) && self.skills().contains_key(f) && self.skills()[f].provider == x
                        && providers@.contains(x);
                let q = choose|q: int| 0 <= q < files@.len() && files@[q]@ == f;
                assert(self.skills().contains_key(files@[q]@));
            }
            if best is None {
                assert(cands =~= Set::<u32>::empty()) by {
                    assert forall|x: u32| !cands.contains(x) by {
                        if cands.contains(x) {
                            assert(best is Some);
                        }
                    }
                }
            }
        }
        best
    }

    /// The provider to show for a skill named `name` of provider `provider`: that
    /// provider when it is supported, else the best-ranked supported provider among the
    /// files indexed under the name, else `provider`.
    pub fn best_supported_provider(&self, name: &str, provider: u32, supported: &[u32]) -> (r: u32)
        requires
            self.wf(),
        ensures
            ({
                let cands = providers_of_name(self.names(), self.skills(), name@, supported@);
                if supported@.contains(provider) {
                    r == provider
                } else if cands.is_empty() {
                    r == provider
                } else {
                    cands.contains(r) && forall|x: u32| cands.contains(x) ==> r <= x
                }
            }),
    {
        if contains_u32(supported, provider) {
            return provider;
        }
        match self.supported_providers_min(name, supported) {
            Some(m) => m,
            None => provider,
        }
    }
    /// The skill files in scope for a working directory, each with its directory (see
    /// [`in_scope`]), `home` being the home directory when it is known and `repo_root`
    /// the root of the repository that holds the working directory, if any.
    pub fn skills_for_working_directory(
        &self,
        working_directory: Option<&SkillLocation>,
        home: Option<&SkillPath>,
        repo_root: Option<&SkillLocation>,
    ) -> (r: Vec<(SkillLocation, SkillLocation)>)
        requires
            self.wf(),
        ensures
            ({
                let wd = match working_directory {
                    Some(w) => Some(w@),
                    None => None,
                };
                let h = match home {
                    Some(h) => Some(local(crate::skills::path_view(*h))),
                    None => None,
                };
                let root = match repo_root {
                    Some(x) => Some(x@),
                    None => None,
                };
                &&& forall|k: int|
                    0 <= k < r@.len() ==> in_scope(self.dirs(), self.cloud(), wd, h, root, (#[trigger] r@[k]).0@, r@[k].1@)
                &&& forall|d: LocationView, f: LocationView|
                    #[trigger] in_scope(self.dirs(), self.cloud(), wd, h, root, d, f) ==> exists|k: int|
                        0 <= k < r@.len() && (#[trigger] r@[k]).0@ == d && r@[k].1@ == f
                &&& forall|a: int, b: int|
                    0 <= a < b < r@.len() ==> ((#[trigger] r@[a]).0@, r@[a].1@) != ((#[trigger] r@[b]).0@, r@[b].1@)
            }),
    {
        let ghost wd = opt_loc(working_directory);
        let ghost root = opt_loc(repo_root);
        let home_loc = match home {
            Some(h) => Some(SkillLocation { host: None, path: copy_path(h) }),
            None => None,
        };
        let ghost hv = match &home_loc {
            Some(l) => Some(l@),
            None => None,
        };
        assert(hv == match home {
            Some(h) => Some(local(crate::skills::path_view(*h))),
            None => None,
        });
        let ghost pairs = dir_pairs(self.directory_skills@);
        let ghost dirs = self.dirs();
        let ghost cloud = self.cloud();
        proof {
            lemma_assoc(pairs);
        }
        let mut out: Vec<(SkillLocation, SkillLocation)> = Vec::new();
        let mut i: usize = 0;
        while i < self.directory_skills.len()
            invariant
                self.wf(),
                pairs == dir_pairs(self.directory_skills@),
                dirs == self.dirs(),
                cloud == self.cloud(),
                wd == opt_loc(working_directory),
                root == opt_loc(repo_root),
                hv == match &home_loc {
                    Some(l) => Some(l@),
                    None => None::<LocationView>,
                },
                i <= self.directory_skills@.len(),
                forall|q: int| 0 <= q < pairs.len() ==> #[trigger] dirs[pairs[q].0] == pairs[q].1,
                forall|q: int| 0 <= q < pairs.len() ==> dirs.contains_key(#[trigger] pairs[q].0),
                forall|k: int|
                    0 <= k < out@.len() ==> in_scope(dirs, cloud, wd, hv, root, (#[trigger] out@[k]).0@, out@[k].1@)
                        && exists|q: int| 0 <= q < i && pairs[q].0 == out@[k].0@,
                forall|q: int, f: LocationView|
                    0 <= q < i && #[trigger] in_scope(dirs, cloud, wd, hv, root, pairs[q].0, f) ==> exists|k: int|
                        0 <= k < out@.len() && (#[trigger] out@[k]).0@ == pairs[q].0 && out@[k].1@ == f,
                forall|a: int, b: int|
                    0 <= a < b < out@.len() ==> ((#[trigger] out@[a]).0@, out@[a].1@) != ((#[trigger] out@[b]).0@, out@[b].1@),
            decreases self.directory_skills@.len() - i,
        {
            let d = &self.directory_skills[i].0;
            let files = &self.directory_skills[i].1;
            let included = dir_included(d, self.is_cloud_environment, working_directory, &home_loc, repo_root);
            proof {
                assert(pairs[i as int].0 == d@);
                assert(dirs[d@] == location_set(files@));
                assert(locations_unique(files@));
            }
            let ghost start = out@;
            if included {
                append_pairs(&mut out, d, files);
                proof {
                    assert forall|a: int, b: int| 0 <= a < b < out@.len() implies ((#[trigger] out@[a]).0@, out@[a].1@) != (
                    (#[trigger] out@[b]).0@,
                    out@[b].1@,
                ) by {
                        if b >= start.len() {
                            if a < start.len() {
                                assert(out@[a] == start[a]);
                                let q = choose|q: int| 0 <= q < i && pairs[q].0 == start[a].0@;
                                assert(dir_pairs(self.directory_skills@)[q].0 != dir_pairs(self.directory_skills@)[i as int].0);
                            } else {
                                assert(files@[a - start.len()]@ != files@[b - start.len()]@);
                            }
                        } else {
                            assert(out@[a] == start[a] && out@[b] == start[b]);
                        }
                    }
                    assert forall|k: int| 0 <= k < out@.len() implies in_scope(
                        dirs,
                        cloud,
                        wd,
                        hv,
                        root,
                        (#[trigger] out@[k]).0@,
                        out@[k].1@,
                    ) && exists|q: int| 0 <= q < i + 1 && pairs[q].0 == out@[k].0@ by {
                        if k >= start.len() {
                            let m = k - start.len();
                            assert(files@[m]@ == out@[k].1@);
                            assert(location_set(files@).contains(files@[m]@));
                            assert(pairs[i as int].0 == out@[k].0@);
                        } else {
                            assert(out@[k] == start[k]);
                        }
                    }
                    assert forall|q: int, f: LocationView|
                        0 <= q < i + 1 && #[trigger] in_scope(dirs, cloud, wd, hv, root, pairs[q].0, f) implies exists|k: int|
                        0 <= k < out@.len() && (#[trigger] out@[k]).0@ == pairs[q].0 && out@[k].1@ == f by {
                        if q == i {
                            let m = choose|m: int| 0 <= m < files@.len() && files@[m]@ == f;
                            assert(out@[start.len() + m].0@ == pairs[q].0);
                        } else {
                            let k = choose|k: int|
                                0 <= k < start.len() && (#[trigger] start[k]).0@ == pairs[q].0 && start[k].1@ == f;
                            assert(out@[k] == start[k]);
                        }
                    }
                }
            } else {
                proof {
                    assert forall|q: int, f: LocationView|
                        0 <= q < i + 1 && #[trigger] in_scope(dirs, cloud, wd, hv, root, pairs[q].0, f) implies exists|k: int|
                        0 <= k < out@.len() && (#[trigger] out@[k]).0@ == pairs[q].0 && out@[k].1@ == f by {
                        if q == i {
                            assert(!dir_in_scope(cloud, wd, hv, root, d@));
                        }
                    }
                }
            }
            i = i + 1;
        }
        proof {
            assert forall|d: LocationView, f: LocationView|
                #[trigger] in_scope(dirs, cloud, wd, hv, root, d, f) implies exists|k: int|
                0 <= k < out@.len() && (#[trigger] out@[k]).0@ == d && out@[k].1@ == f by {
                let q = choose|q: int| 0 <= q < pairs.len() && pairs[q].0 == d;
                assert(in_scope(dirs, cloud, wd, hv, root, pairs[q].0, f));
            }
        }
        out
    }
    /// The local directories that hold skills, in path order.
    pub fn directories_with_skills(&self) -> (r: Vec<SkillPath>)
        requires
            self.wf(),
        ensures
            paths_unique(r@),
            path_set(r@) == Set::new(
                |p: (bool, Seq<Seq<char>>)|
                    exists|d: LocationView| self.dirs().contains_key(d) && d.host is None && path_of(d) == p,
            ),
            forall|k: int, l: int|
                0 <= k < l < r@.len() ==> !text_lt(
                    order_of(crate::skills::path_view(#[trigger] r@[l])),
                    order_of(crate::skills::path_view(#[trigger] r@[k])),
                ),
    {
        let ghost pairs = dir_pairs(self.directory_skills@);
        let ghost target = Set::new(
            |p: (bool, Seq<Seq<char>>)| exists|d: LocationView| self.dirs().contains_key(d) && d.host is None && path_of(d) == p,
        );
        proof {
            lemma_assoc(pairs);
        }
        let mut out: Vec<SkillPath> = Vec::new();
        let mut i: usize = 0;
        while i < self.directory_skills.len()
            invariant
                self.wf(),
                pairs == dir_pairs(self.directory_skills@),
                i <= self.directory_skills@.len(),
                paths_unique(out@),
                forall|k: int| 0 <= k < out@.len() ==> from_local_dir(pairs, i as int, crate::skills::path_view(#[trigger] out@[k])),
                forall|q: int|
                    0 <= q < i && (#[trigger] pairs[q]).0.host is None ==> path_set(out@).contains(path_of(pairs[q].0)),
            decreases self.directory_skills@.len() - i,
        {
            let d = &self.directory_skills[i].0;
            if d.host.is_none() {
                let ghost before = out@;
                let pth = location_path(d);
                out.push(pth);
                proof {
                    assert(pairs[i as int].0 == d@);
                    assert forall|a: int, b: int| 0 <= a < b < out@.len() implies crate::skills::path_view(#[trigger] out@[a])
                        != crate::skills::path_view(#[trigger] out@[b]) by {
                        if b == before.len() {
                            assert(out@[a] == before[a]);
                            assert(from_local_dir(pairs, i as int, crate::skills::path_view(before[a])));
                            let q = choose|q: int|
                                0 <= q < i && pairs[q].0.host is None && path_of(pairs[q].0) == crate::skills::path_view(
                                    before[a],
                                );
                            assert(pairs[q].0 != pairs[i as int].0);
                        } else {
                            assert(out@[a] == before[a] && out@[b] == before[b]);
                        }
                    }
                    assert forall|k: int| 0 <= k < out@.len() implies from_local_dir(
                        pairs,
                        i + 1,
                        crate::skills::path_view(#[trigger] out@[k]),
                    ) by {
                        if k < before.len() {
                            assert(out@[k] == before[k]);
                            assert(from_local_dir(pairs, i as int, crate::skills::path_view(before[k])));
                            let q = choose|q: int|
                                0 <= q < i && pairs[q].0.host is None && path_of(pairs[q].0) == crate::skills::path_view(
                                    before[k],
                                );
                            assert(0 <= q < i + 1);
                        } else {
                            assert(path_of(pairs[i as int].0) == crate::skills::path_view(out@[k]));
                            assert(pairs[i as int].0.host is None);
                        }
                    }
                    assert forall|q: int| 0 <= q < i + 1 && (#[trigger] pairs[q]).0.host is None implies path_set(
                        out@,
                    ).contains(path_of(pairs[q].0)) by {
                        if q < i {
                            let k = choose|k: int| 0 <= k < before.len() && crate::skills::path_view(before[k]) == path_of(pairs[q].0);
                            assert(out@[k] == before[k]);
                        } else {
                            assert(crate::skills::path_view(out@[before.len() as int]) == path_of(pairs[q].0));
                        }
                    }
                }
            } else {
                proof {
                    assert(pairs[i as int].0 == d@);
                    assert forall|k: int| 0 <= k < out@.len() implies from_local_dir(
                        pairs,
                        i + 1,
                        crate::skills::path_view(#[trigger] out@[k]),
                    ) by {
                        assert(from_local_dir(pairs, i as int, crate::skills::path_view(out@[k])));
                        let q = choose|q: int|
                            0 <= q < i && pairs[q].0.host is None && path_of(pairs[q].0) == crate::skills::path_view(out@[k]);
                        assert(0 <= q < i + 1);
                    }
                }
            }
            i = i + 1;
        }
        proof {
            assert forall|x: (bool, Seq<Seq<char>>)| path_set(out@).contains(x) <==> target.contains(x) by {
                if path_set(out@).contains(x) {
                    let k = choose|k: int| 0 <= k < out@.len() && crate::skills::path_view(out@[k]) == x;
                    assert(from_local_dir(pairs, i as int, crate::skills::path_view(out@[k])));
                    let q = choose|q: int|
                        0 <= q < i && pairs[q].0.host is None && path_of(pairs[q].0) == crate::skills::path_view(out@[k]);
                    assert(self.dirs().contains_key(pairs[q].0));
                }
                if target.contains(x) {
                    let d = choose|d: LocationView| self.dirs().contains_key(d) && d.host is None && path_of(d) == x;
                    let q = choose|q: int| 0 <= q < pairs.len() && pairs[q].0 == d;
                    assert(pairs[q].0.host is None);
                }
            }
            assert(path_set(out@) =~= target);
        }
        sort_paths(&mut out);
        out
    }

    /// The local skill files of the directories under `scope_dir`, once each, in path
    /// order.
    pub fn skill_paths_in_scope(&self, scope_dir: &SkillPath) -> (r: Vec<SkillPath>)
        requires
            self.wf(),
        ensures
            paths_unique(r@),
            path_set(r@) == Set::new(
                |p: (bool, Seq<Seq<char>>)|
                    exists|d: LocationView, f: LocationView|
                        self.dirs().contains_key(d) && location_starts_with(d, local(crate::skills::path_view(*scope_dir)))
                            && self.dirs()[d].contains(f) && f.host is None && path_of(f) == p,
            ),
            forall|k: int, l: int|
                0 <= k < l < r@.len() ==> !text_lt(
                    order_of(crate::skills::path_view(#[trigger] r@[l])),
                    order_of(crate::skills::path_view(#[trigger] r@[k])),
                ),
    {
        let scope = SkillLocation { host: None, path: copy_path(scope_dir) };
        let ghost sv = scope@;
        assert(sv == local(crate::skills::path_view(*scope_dir)));
        let ghost pairs = dir_pairs(self.directory_skills@);
        let ghost target = local_files_under(self.dirs(), sv);
        proof {
            lemma_assoc(pairs);
        }
        let mut found: Vec<SkillLocation> = Vec::new();
        let mut i: usize = 0;
        proof {
            assert(location_set(found@) =~= Set::<LocationView>::empty());
        }
        while i < self.directory_skills.len()
            invariant
                self.wf(),
                pairs == dir_pairs(self.directory_skills@),
                sv == scope@,
                target == local_files_under(self.dirs(), sv),
                i <= self.directory_skills@.len(),
                locations_unique(found@),
                forall|q: int| 0 <= q < pairs.len() ==> #[trigger] self.dirs()[pairs[q].0] == pairs[q].1,
                forall|q: int| 0 <= q < pairs.len() ==> self.dirs().contains_key(#[trigger] pairs[q].0),
                forall|f: LocationView| location_set(found@).contains(f) ==> target.contains(f),
                forall|q: int, f: LocationView|
                    0 <= q < i && location_starts_with(pairs[q].0, sv) && #[trigger] pairs[q].1.contains(f) && f.host is None
                        ==> location_set(found@).contains(f),
            decreases self.directory_skills@.len() - i,
        {
            let d = &self.directory_skills[i].0;
            let files = &self.directory_skills[i].1;
            proof {
                assert(pairs[i as int].0 == d@);
                assert(pairs[i as int].1 == location_set(files@));
            }
            if starts_with(d, &scope) {
                let mut j: usize = 0;
                let ghost start = location_set(found@);
                assert(forall|f: LocationView| start.contains(f) ==> target.contains(f));
                while j < files.len()
                    invariant
                        locations_unique(found@),
                        j <= files@.len(),
                        start.subset_of(location_set(found@)),
                        forall|f: LocationView| location_set(found@).contains(f) ==> start.contains(f) || (exists|m: int|
                            0 <= m < j && files@[m]@ == f && f.host is None),
                        forall|m: int| 0 <= m < j && (#[trigger] files@[m])@.host is None ==> location_set(found@).contains(files@[m]@),
                    decreases files@.len() - j,
                {
                    if files[j].host.is_none() {
                        set_insert(&mut found, copy_location(&files[j]));
                    }
                    j = j + 1;
                }
                proof {
                    assert forall|f: LocationView| location_set(found@).contains(f) implies target.contains(f) by {
                        if !start.contains(f) {
                            let m = choose|m: int| 0 <= m < files@.len() && files@[m]@ == f && f.host is None;
                            assert(location_set(files@).contains(f));
                            assert(self.dirs().contains_key(d@) && location_starts_with(d@, sv) && self.dirs()[d@].contains(f));
                        }
                    }
                    assert forall|q: int, f: LocationView|
                        0 <= q < i + 1 && location_starts_with(pairs[q].0, sv) && #[trigger] pairs[q].1.contains(f) && f.host
                            is None implies location_set(found@).contains(f) by {
                        if q == i {
                            let m = choose|m: int| 0 <= m < files@.len() && files@[m]@ == f;
                            assert(files@[m]@.host is None);
                        } else {
                            assert(start.contains(f));
                        }
                    }
                }
            }
            i = i + 1;
        }
        let mut paths: Vec<SkillPath> = Vec::new();
        let mut k: usize = 0;
        while k < found.len()
            invariant
                locations_unique(found@),
                target == local_files_under(self.dirs(), sv),
                forall|f: LocationView| location_set(found@).contains(f) ==> target.contains(f),
                k <= found@.len(),
                paths@.len() == k,
                forall|q: int| 0 <= q < k ==> crate::skills::path_view(#[trigger] paths@[q]) == path_of(found@[q]@),
            decreases found@.len() - k,
        {
            paths.push(location_path(&found[k]));
            k = k + 1;
        }
        proof {
            assert forall|a: int, b: int| 0 <= a < b < paths@.len() implies crate::skills::path_view(#[trigger] paths@[a])
                != crate::skills::path_view(#[trigger] paths@[b]) by {
                assert(found@[a]@ != found@[b]@);
                assert(location_set(found@).contains(found@[a]@) && location_set(found@).contains(found@[b]@));
                assert(local_files_under(self.dirs(), sv).contains(found@[a]@));
                assert(local_files_under(self.dirs(), sv).contains(found@[b]@));
                assert(found@[a]@.host is None && found@[b]@.host is None);
            }
            let want = Set::new(
                |p: (bool, Seq<Seq<char>>)|
                    exists|d: LocationView, f: LocationView|
                        self.dirs().contains_key(d) && location_starts_with(d, local(crate::skills::path_view(*scope_dir)))
                            && self.dirs()[d].contains(f) && f.host is None && path_of(f) == p,
            );
            assert forall|x: (bool, Seq<Seq<char>>)| path_set(paths@).contains(x) <==> want.contains(x) by {
                if path_set(paths@).contains(x) {
                    let q = choose|q: int| 0 <= q < paths@.len() && crate::skills::path_view(paths@[q]) == x;
                    assert(location_set(found@).contains(found@[q]@));
                    let f = found@[q]@;
                    assert(target.contains(f));
                    let d = choose|d: LocationView|
                        self.dirs().contains_key(d) && location_starts_with(d, sv) && self.dirs()[d].contains(f) && f.host
                            is None;
                    assert(path_of(f) == x);
                }
                if want.contains(x) {
                    let (d, f) = choose|d: LocationView, f: LocationView|
                        self.dirs().contains_key(d) && location_starts_with(d, local(crate::skills::path_view(*scope_dir)))
                            && self.dirs()[d].contains(f) && f.host is None && path_of(f) == x;
                    let q = choose|q: int| 0 <= q < pairs.len() && pairs[q].0 == d;
                    assert(location_set(found@).contains(f));
                    let m = choose|m: int| 0 <= m < found@.len() && found@[m]@ == f;
                    assert(crate::skills::path_view(paths@[m]) == x);
                }
            }
            assert(path_set(paths@) =~= want);
        }
        sort_paths(&mut paths);
        paths
    }
}

/// What the connection to remote hosts reports that concerns their bundled skills.
pub enum RemoteSkillsEvent<C> {
    /// A host's daemon pushed its bundled-skill catalog.
    BundledSkillsSnapshot { host_id: String, catalog: C },
    /// A host went away.
    HostDisconnected { host_id: String },
    /// Anything else.
    Other,
}

/// The bundled-skill catalogs of the connected remote hosts, one per host.
pub struct RemoteBundledSkills<C> {
    catalogs: Vec<(String, C)>,
}

pub open spec fn host_pairs<C>(s: Seq<(String, C)>) -> Seq<(Seq<char>, C)> {
    s.map_values(|e: (String, C)| (e.0@, e.1))
}

impl<C> RemoteBundledSkills<C> {
    /// Each host once.
    pub closed spec fn wf(&self) -> bool {
        keys_unique(host_pairs(self.catalogs@))
    }

    /// The catalog of each host.
    pub closed spec fn catalogs(&self) -> Map<Seq<char>, C> {
        assoc(host_pairs(self.catalogs@))
    }

    /// No catalogs.
    pub fn new() -> (r: RemoteBundledSkills<C>)
        ensures
            r.wf(),
            r.catalogs() == Map::<Seq<char>, C>::empty(),
    {
        let r = RemoteBundledSkills { catalogs: Vec::new() };
        assert(host_pairs(r.catalogs@) =~= Seq::<(Seq<char>, C)>::empty());
        r
    }

    fn find(&self, host_id: &str) -> (r: Option<usize>)
        ensures
            match r {
                Some(i) => i < self.catalogs@.len() && self.catalogs@[i as int].0@ == host_id@,
                None => forall|q: int| 0 <= q < self.catalogs@.len() ==> self.catalogs@[q].0@ != host_id@,
            },
    {
        let mut i: usize = 0;
        while i < self.catalogs.len()
            invariant
                i <= self.catalogs@.len(),
                forall|q: int| 0 <= q < i ==> self.catalogs@[q].0@ != host_id@,
            decreases self.catalogs@.len() - i,
        {
            if str_eq(self.catalogs[i].0.as_str(), host_id) {
                return Some(i);
            }
            i = i + 1;
        }
        None
    }

    /// The catalog of `host_id`, if it sent one.
    pub fn remote(&self, host_id: &str) -> (r: Option<&C>)
        requires
            self.wf(),
        ensures
            match r {
                Some(c) => self.catalogs().contains_key(host_id@) && *c == self.catalogs()[host_id@],
                None => !self.catalogs().contains_key(host_id@),
            },
    {
        proof {
            lemma_assoc(host_pairs(self.catalogs@));
        }
        match self.find(host_id) {
            Some(i) => {
                assert(host_pairs(self.catalogs@)[i as int].0 == host_id@);
                Some(&self.catalogs[i].1)
            },
            None => {
                proof {
                    if self.catalogs().contains_key(host_id@) {
                        let q = choose|q: int|
                            0 <= q < host_pairs(self.catalogs@).len() && host_pairs(self.catalogs@)[q].0 == host_id@;
                        assert(self.catalogs@[q].0@ == host_id@);
                    }
                }
                None
            },
        }
    }

    /// The bundled catalog that serves a working directory: on a remote host, that
    /// host's catalog, if it sent one (none until its snapshot arrives); on this
    /// machine, or with no working directory, the local catalog `local`.
    pub fn catalog_for_working_directory<'a>(
        &'a self,
        local: &'a C,
        working_directory: Option<&SkillLocation>,
    ) -> (r: Option<&'a C>)
        requires
            self.wf(),
        ensures
            match working_directory {
                Some(wd) => match wd.host {
                    Some(h) => match r {
                        Some(c) => self.catalogs().contains_key(h@) && *c == self.catalogs()[h@],
                        None => !self.catalogs().contains_key(h@),
                    },
                    None => r == Some(local),
                },
                None => r == Some(local),
            },
    {
        match working_directory {
            Some(wd) => match &wd.host {
                Some(h) => self.remote(h.as_str()),
                None => Some(local),
            },
            None => Some(local),
        }
    }

    /// Sets the catalog of `host_id`, replacing any earlier one.
    pub fn insert_remote(&mut self, host_id: String, catalog: C)
        requires
            old(self).wf(),
        ensures
            final(self).wf(),
            final(self).catalogs() == old(self).catalogs().insert(host_id@, catalog),
    {
        proof {
            lemma_assoc(host_pairs(self.catalogs@));
        }
        let ghost before = self.catalogs@;
        let ghost hv = host_id@;
        match self.find(host_id.as_str()) {
            Some(i) => {
                self.catalogs.set(i, (host_id, catalog));
                proof {
                    assert(host_pairs(self.catalogs@) =~= host_pairs(before).update(
                        i as int,
                        (host_pairs(before)[i as int].0, catalog),
                    ));
                    lemma_assoc_update(host_pairs(before), i as int, catalog);
                }
            },
            None => {
                proof {
                    assert(!assoc(host_pairs(before)).contains_key(hv)) by {
                        if assoc(host_pairs(before)).contains_key(hv) {
                            let q = choose|q: int| 0 <= q < host_pairs(before).len() && host_pairs(before)[q].0 == hv;
                            assert(before[q].0@ == hv);
                        }
                    }
                    lemma_assoc_push(host_pairs(before), hv, catalog);
                }
                self.catalogs.push((host_id, catalog));
                proof {
                    assert(host_pairs(self.catalogs@) =~= host_pairs(before).push((hv, catalog)));
                }
            },
        }
    }

    /// Forgets the catalog of `host_id`.
    pub fn remove_remote(&mut self, host_id: &str)
        requires
            old(self).wf(),
        ensures
            final(self).wf(),
            final(self).catalogs() == old(self).catalogs().remove(host_id@),
    {
        proof {
            lemma_assoc(host_pairs(self.catalogs@));
        }
        let ghost before = self.catalogs@;
        match self.find(host_id) {
            Some(i) => {
                self.catalogs.remove(i);
                proof {
                    assert(host_pairs(self.catalogs@) =~= host_pairs(before).remove(i as int));
                    lemma_assoc_remove(host_pairs(before), i as int);
                }
            },
            None => {
                proof {
                    assert(!assoc(host_pairs(before)).contains_key(host_id@)) by {
                        if assoc(host_pairs(before)).contains_key(host_id@) {
                            let q = choose|q: int| 0 <= q < host_pairs(before).len() && host_pairs(before)[q].0 == host_id@;
                            assert(before[q].0@ == host_id@);
                        }
                    }
                    assert(assoc(host_pairs(before)).remove(host_id@) =~= assoc(host_pairs(before)));
                }
            },
        }
    }

    /// Takes in an event of the remote hosts: with bundled skills on, a snapshot
    /// replaces the host's catalog; a disconnected host's catalog is forgotten; other
    /// events change nothing.
    pub fn handle_event(&mut self, event: RemoteSkillsEvent<C>, bundled_skills_enabled: bool)
        requires
            old(self).wf(),
        ensures
            final(self).wf(),
            final(self).catalogs() == match event {
                RemoteSkillsEvent::BundledSkillsSnapshot { host_id, catalog } => if bundled_skills_enabled {
                    old(self).catalogs().insert(host_id@, catalog)
                } else {
                    old(self).catalogs()
                },
                RemoteSkillsEvent::HostDisconnected { host_id } => old(self).catalogs().remove(host_id@),
                RemoteSkillsEvent::Other => old(self).catalogs(),
            },
    {
        match event {
            RemoteSkillsEvent::BundledSkillsSnapshot { host_id, catalog } => {
                if bundled_skills_enabled {
                    self.insert_remote(host_id, catalog);
                }
            },
            RemoteSkillsEvent::HostDisconnected { host_id } => {
                self.remove_remote(host_id.as_str());
            },
            RemoteSkillsEvent::Other => {},
        }
    }
}

} // verus!
