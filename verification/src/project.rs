//! Projects: create, list, delete. Deleting a project removes its
//! environments, their items and every API key bound to it.
use crate::error::{ConfigError, ErrorView};
use crate::models::{
    distinct_keys, find_project, has_key, lemma_first_at, lemma_position, lift, position, str_of,
    ApiKey, ApiKeyView, EnvView, Environment, Keyed, Project, ProjectView, StateView,
};
use crate::storage::Storage;
use crate::tree::{push_lifted, remove_lifted};
use crate::undo::{key_views, reinsert, undone, Undo, UndoView};
use vstd::prelude::*;

verus! {

/// The project that is created for a name and a description: it has one
/// environment, `default`, without items.
pub open spec fn new_project(name: Seq<char>, description: Option<Seq<char>>) -> ProjectView {
    ProjectView {
        name: name,
        description: description,
        environments: seq![EnvView { name: "default"@, items: Seq::empty() }],
    }
}

/// The API keys that are not bound to a project, in their order.
pub open spec fn keys_kept(keys: Seq<ApiKeyView>, project: Seq<char>) -> Seq<ApiKeyView>
    decreases keys.len(),
{
    if keys.len() == 0 {
        keys
    } else if keys.last().project == project {
        keys_kept(keys.drop_last(), project)
    } else {
        keys_kept(keys.drop_last(), project).push(keys.last())
    }
}

/// The API keys that are bound to a project, each with its index.
pub open spec fn keys_dropped(keys: Seq<ApiKeyView>, project: Seq<char>) -> Seq<(int, ApiKeyView)>
    decreases keys.len(),
{
    if keys.len() == 0 {
        Seq::empty()
    } else if keys.last().project == project {
        keys_dropped(keys.drop_last(), project).push((keys.len() - 1, keys.last()))
    } else {
        keys_dropped(keys.drop_last(), project)
    }
}

impl StateView {
    /// The tree with a project appended.
    pub open spec fn add_project(self, project: ProjectView) -> StateView {
        StateView { projects: self.projects.push(project), ..self }
    }

    /// The tree without the project of this name and without the API keys
    /// bound to that name.
    pub open spec fn remove_project(self, name: Seq<char>) -> StateView {
        StateView {
            projects: self.projects.remove(position(self.projects, name)),
            api_keys: keys_kept(self.api_keys, name),
            ..self
        }
    }
}

/// A key is found in a list with one more element where it was found
/// before, or where the new element has it.
pub proof fn lemma_has_key_push<T: Keyed>(s: Seq<T>, x: T, k: Seq<char>)
    ensures
        has_key(s.push(x), k) <==> has_key(s, k) || x.key() == k,
{
    if has_key(s, k) {
        let i = choose|i: int| 0 <= i < s.len() && (#[trigger] s[i]).key() == k;
        assert(s.push(x)[i].key() == k);
    }
    if x.key() == k {
        assert(s.push(x)[s.len() as int].key() == k);
    }
    if has_key(s.push(x), k) {
        let i = choose|i: int| 0 <= i < s.push(x).len() && (#[trigger] s.push(x)[i]).key() == k;
        if i < s.len() {
            assert(s[i].key() == k);
        }
    }
}

/// Appending an element with a new key keeps the keys distinct.
pub proof fn lemma_distinct_push<T: Keyed>(s: Seq<T>, x: T)
    requires
        distinct_keys(s),
        !has_key(s, x.key()),
    ensures
        distinct_keys(s.push(x)),
{
    let t = s.push(x);
    assert forall|i: int, j: int| 0 <= i < j < t.len() implies (#[trigger] t[i]).key() != (
    #[trigger] t[j]).key() by {
        if j == s.len() {
            assert(s[i].key() != x.key());
        } else {
            assert(s[i].key() != s[j].key());
        }
    }
}

/// Removing an element keeps the keys distinct, and the removed key is
/// gone.
pub proof fn lemma_distinct_remove<T: Keyed>(s: Seq<T>, i: int)
    requires
        distinct_keys(s),
        0 <= i < s.len(),
    ensures
        distinct_keys(s.remove(i)),
        !has_key(s.remove(i), s[i].key()),
{
    let t = s.remove(i);
    assert forall|a: int, b: int| 0 <= a < b < t.len() implies (#[trigger] t[a]).key() != (
    #[trigger] t[b]).key() by {
        let a0 = if a < i { a } else { a + 1 };
        let b0 = if b < i { b } else { b + 1 };
        assert(s[a0].key() != s[b0].key());
    }
    if has_key(t, s[i].key()) {
        let a = choose|a: int| 0 <= a < t.len() && (#[trigger] t[a]).key() == s[i].key();
        let a0 = if a < i { a } else { a + 1 };
        if a0 < i {
            assert(s[a0].key() != s[i].key());
        } else {
            assert(s[i].key() != s[a0].key());
        }
    }
}

/// Removing the first element with one key leaves the elements with other
/// keys in place: they are found as before.
pub proof fn lemma_remove_other<T: Keyed>(s: Seq<T>, k: Seq<char>, other: Seq<char>)
    requires
        has_key(s, k),
        other != k,
    ensures
        has_key(s.remove(position(s, k)), other) == has_key(s, other),
        has_key(s, other) ==> s.remove(position(s, k))[position(s.remove(position(s, k)), other)]
            == s[position(s, other)],
{
    lemma_position(s, k);
    let p = position(s, k);
    let t = s.remove(p);
    if has_key(s, other) {
        lemma_position(s, other);
        let q = position(s, other);
        let q1 = if q < p { q } else { q - 1 };
        assert(t[q1] == s[q]);
        assert forall|j: int| 0 <= j < q1 implies (#[trigger] t[j]).key() != other by {
            let j0 = if j < p { j } else { j + 1 };
            assert(s[j0].key() != other);
        }
        lemma_first_at(t, other, q1);
    }
    if has_key(t, other) {
        let j = choose|j: int| 0 <= j < t.len() && (#[trigger] t[j]).key() == other;
        let j0 = if j < p { j } else { j + 1 };
        assert(s[j0].key() == other);
    }
}

/// Putting removed elements back commutes with appending, as long as every
/// index is in range when its element returns.
pub open spec fn fits<T>(s: Seq<T>, removed: Seq<(int, T)>) -> bool
    decreases removed.len(),
{
    removed.len() == 0 || (fits(s, removed.drop_last()) && 0 <= removed.last().0 <= reinsert(
        s,
        removed.drop_last(),
    ).len())
}

proof fn lemma_reinsert_push<T>(s: Seq<T>, removed: Seq<(int, T)>, x: T)
    requires
        fits(s, removed),
    ensures
        fits(s.push(x), removed),
        reinsert(s.push(x), removed) == reinsert(s, removed).push(x),
    decreases removed.len(),
{
    if removed.len() > 0 {
        lemma_reinsert_push(s, removed.drop_last(), x);
        let rest = reinsert(s, removed.drop_last());
        let at = removed.last();
        assert(rest.push(x).insert(at.0, at.1) =~= rest.insert(at.0, at.1).push(x));
    }
}

/// The keys that were kept and the keys that were dropped make up the
/// list again: every dropped key returns to its index.
pub proof fn lemma_keys_restored(keys: Seq<ApiKeyView>, project: Seq<char>)
    ensures
        fits(keys_kept(keys, project), keys_dropped(keys, project)),
        reinsert(keys_kept(keys, project), keys_dropped(keys, project)) == keys,
    decreases keys.len(),
{
    if keys.len() > 0 {
        let front = keys.drop_last();
        lemma_keys_restored(front, project);
        let kept = keys_kept(front, project);
        let dropped = keys_dropped(front, project);
        if keys.last().project == project {
            let all = dropped.push((keys.len() - 1, keys.last()));
            assert(all.drop_last() =~= dropped);
            assert(front.insert(keys.len() - 1, keys.last()) =~= keys);
        } else {
            lemma_reinsert_push(kept, dropped, keys.last());
            assert(front.push(keys.last()) =~= keys);
        }
    } else {
        assert(keys_kept(keys, project) =~= keys);
    }
}

/// What is kept holds no key of the project, and exactly the other keys.
pub proof fn lemma_keys_kept(keys: Seq<ApiKeyView>, project: Seq<char>)
    ensures
        forall|i: int|
            0 <= i < keys_kept(keys, project).len() ==> (#[trigger] keys_kept(
                keys,
                project,
            )[i]).project != project && keys.contains(keys_kept(keys, project)[i]),
        forall|i: int|
            0 <= i < keys.len() && (#[trigger] keys[i]).project != project ==> keys_kept(
                keys,
                project,
            ).contains(keys[i]),
    decreases keys.len(),
{
    if keys.len() > 0 {
        let front = keys.drop_last();
        lemma_keys_kept(front, project);
        let kept = keys_kept(keys, project);
        let before = keys_kept(front, project);
        assert forall|i: int| 0 <= i < kept.len() implies (#[trigger] kept[i]).project != project
            && keys.contains(kept[i]) by {
            if i < before.len() {
                assert(kept[i] == before[i]);
                let j = choose|j: int| 0 <= j < front.len() && front[j] == before[i];
                assert(keys[j] == kept[i]);
            } else {
                assert(kept[i] == keys[keys.len() - 1]);
            }
        }
        assert forall|i: int| 0 <= i < keys.len() && (#[trigger] keys[i]).project
            != project implies kept.contains(keys[i]) by {
            if i < front.len() {
                assert(front[i] == keys[i]);
                let j = choose|j: int| 0 <= j < before.len() && before[j] == front[i];
                assert(kept[j] == keys[i]);
            } else {
                assert(kept[kept.len() - 1] == keys[i]);
            }
        }
    }
}

/// Creating a project keeps the tree's invariants.
pub proof fn lemma_add_project_wf(s: StateView, name: Seq<char>, description: Option<Seq<char>>)
    requires
        s.wf(),
        !s.has_project(name),
    ensures
        s.add_project(new_project(name, description)).wf(),
{
    let p = new_project(name, description);
    let t = s.add_project(p);
    lemma_distinct_push(s.projects, p);
    assert(p.wf());
    assert forall|i: int| 0 <= i < t.api_keys.len() implies t.has_project(
        (#[trigger] t.api_keys[i]).project,
    ) by {
        assert(s.has_project(s.api_keys[i].project));
        lemma_has_key_push(s.projects, p, t.api_keys[i].project);
    }
}

/// Deleting a project keeps the tree's invariants.
pub proof fn lemma_remove_project_wf(s: StateView, name: Seq<char>)
    requires
        s.wf(),
        s.has_project(name),
    ensures
        s.remove_project(name).wf(),
{
    let t = s.remove_project(name);
    lemma_position(s.projects, name);
    let p = position(s.projects, name);
    lemma_distinct_remove(s.projects, p);
    assert forall|i: int| 0 <= i < t.projects.len() implies (#[trigger] t.projects[i]).wf() by {
        let i0 = if i < p { i } else { i + 1 };
        assert(s.projects[i0].wf());
    }
    lemma_keys_kept(s.api_keys, name);
    assert forall|i: int| 0 <= i < t.api_keys.len() implies t.has_project(
        (#[trigger] t.api_keys[i]).project,
    ) by {
        let k = t.api_keys[i];
        assert(s.api_keys.contains(k));
        let j = choose|j: int| 0 <= j < s.api_keys.len() && s.api_keys[j] == k;
        assert(s.has_project(s.api_keys[j].project));
        lemma_remove_other(s.projects, name, k.project);
    }
}

/// Deleting a project removes it with its environments and their items,
/// removes every API key bound to it and no other, and leaves the other
/// projects and the shared group as they were.
pub proof fn law_delete_project_cascades(s: StateView, name: Seq<char>)
    requires
        s.has_project(name),
    ensures
        distinct_keys(s.projects) ==> !s.remove_project(name).has_project(name),
        s.remove_project(name).projects.len() == s.projects.len() - 1,
        forall|i: int|
            0 <= i < s.remove_project(name).api_keys.len() ==> (#[trigger] s.remove_project(
                name,
            ).api_keys[i]).project != name,
        forall|i: int|
            0 <= i < s.api_keys.len() && (#[trigger] s.api_keys[i]).project != name
                ==> s.remove_project(name).api_keys.contains(s.api_keys[i]),
        forall|other: Seq<char>|
            other != name ==> s.remove_project(name).has_project(other) == s.has_project(other),
        forall|other: Seq<char>|
            other != name && s.has_project(other) ==> s.remove_project(name).project(other)
                == s.project(other),
        s.remove_project(name).shared == s.shared,
{
    lemma_position(s.projects, name);
    lemma_keys_kept(s.api_keys, name);
    if distinct_keys(s.projects) {
        lemma_distinct_remove(s.projects, position(s.projects, name));
    }
    assert forall|other: Seq<char>| other != name implies s.remove_project(name).has_project(
        other,
    ) == s.has_project(other) by {
        lemma_remove_other(s.projects, name, other);
    }
    assert forall|other: Seq<char>| other != name && s.has_project(other) implies s.remove_project(
        name,
    ).project(other) == s.project(other) by {
        lemma_remove_other(s.projects, name, other);
    }
}

/// A failed write of a created project is undone exactly: dropping the
/// last project restores the tree.
pub proof fn law_create_project_undone(s: StateView, project: ProjectView)
    ensures
        undone(s.add_project(project), UndoView::DropLastProject) == s,
{
    assert(s.projects.push(project).drop_last() =~= s.projects);
}

/// A failed write of a deleted project is undone exactly: the project
/// returns to its place, and every API key that went with it returns to
/// the index it had.
pub proof fn law_delete_project_undone(s: StateView, name: Seq<char>)
    requires
        s.has_project(name),
    ensures
        undone(
            s.remove_project(name),
            UndoView::RestoreProject {
                position: position(s.projects, name),
                project: s.project(name),
                keys: keys_dropped(s.api_keys, name),
            },
        ) == s,
{
    lemma_position(s.projects, name);
    lemma_keys_restored(s.api_keys, name);
    let at = position(s.projects, name);
    assert(s.projects.remove(at).insert(at, s.projects[at]) =~= s.projects);
}

/// Creates a project with one empty environment, `default`.
///
/// Fails with `ProjectAlreadyExists`, and changes nothing, where a project
/// of that name exists.
pub fn create_project(storage: &mut Storage, name: &str, description: Option<&str>) -> (r: Result<
    Project,
    ConfigError,
>)
    ensures
        r is Ok <==> !old(storage)@.has_project(name@),
        r matches Ok(p) ==> {
            &&& p@ == new_project(name@, str_of(description))
            &&& final(storage)@ == old(storage)@.add_project(p@)
            &&& final(storage).rolled_back() == old(storage)@
        },
        r matches Err(e) ==> {
            &&& e@ == ErrorView::ProjectAlreadyExists(name@)
            &&& *final(storage) == *old(storage)
        },
        old(storage)@.wf() ==> final(storage)@.wf(),
{
    if find_project(&storage.state().projects, name).is_some() {
        return Err(ConfigError::ProjectAlreadyExists(name.to_owned()));
    }
    let described = match description {
        Some(d) => Some(d.to_owned()),
        None => None,
    };
    let project = Project {
        name: name.to_owned(),
        description: described,
        environments: vec![Environment { name: "default".to_owned(), config_items: Vec::new() }],
    };
    proof {
        assert(project@.environments =~= seq![EnvView { name: "default"@, items: Seq::empty() }])
            by {
            assert(project.environments@[0]@.items =~= Seq::empty());
        }
        if old(storage)@.wf() {
            lemma_add_project_wf(old(storage)@, name@, str_of(description));
        }
        law_create_project_undone(old(storage)@, project@);
    }
    let copy = project.clone();
    let state = storage.state_mut();
    push_lifted(&mut state.projects, copy);
    storage.record(Undo::DropLastProject);
    Ok(project)
}

/// All projects, in the order of their creation.
pub fn list_projects(storage: &Storage) -> (r: Vec<&Project>)
    ensures
        r@.len() == storage@.projects.len(),
        forall|i: int| 0 <= i < r@.len() ==> (#[trigger] r@[i])@ == storage@.projects[i],
{
    let projects = &storage.state().projects;
    let mut out: Vec<&Project> = Vec::new();
    let mut i: usize = 0;
    while i < projects.len()
        invariant
            i <= projects.len(),
            out@.len() == i,
            forall|j: int| 0 <= j < i ==> *(#[trigger] out@[j]) == projects@[j],
        decreases projects.len() - i,
    {
        out.push(&projects[i]);
        i += 1;
    }
    out
}

/// Splits the API keys into those bound to a project, each with its index,
/// and the others.
fn split_keys(keys: Vec<ApiKey>, project: &str) -> (r: (Vec<ApiKey>, Vec<(usize, ApiKey)>))
    ensures
        lift(r.0@) == keys_kept(lift(keys@), project@),
        key_views(r.1@) == keys_dropped(lift(keys@), project@),
{
    let needle = project.to_owned();
    let ghost all = lift(keys@);
    let mut kept: Vec<ApiKey> = Vec::new();
    let mut dropped: Vec<(usize, ApiKey)> = Vec::new();
    let mut i: usize = 0;
    assert(all.take(0) =~= Seq::empty());
    assert(lift(kept@) =~= Seq::empty());
    assert(key_views(dropped@) =~= Seq::empty());
    while i < keys.len()
        invariant
            i <= keys.len(),
            needle@ == project@,
            all == lift(keys@),
            lift(kept@) == keys_kept(all.take(i as int), project@),
            key_views(dropped@) == keys_dropped(all.take(i as int), project@),
        decreases keys.len() - i,
    {
        proof {
            assert(all.take(i as int + 1).drop_last() =~= all.take(i as int));
            assert(all.take(i as int + 1).last() == keys@[i as int]@);
        }
        let key = keys[i].clone();
        if key.project == needle {
            let ghost before = key_views(dropped@);
            dropped.push((i, key));
            assert(key_views(dropped@) =~= before.push((i as int, key@)));
        } else {
            push_lifted(&mut kept, key);
        }
        i += 1;
    }
    assert(all.take(keys.len() as int) =~= all);
    (kept, dropped)
}

/// Deletes a project with its environments and their items, and every API
/// key bound to it.
///
/// Fails with `ProjectNotFound`, and changes nothing, where no project has
/// that name.
pub fn delete_project(storage: &mut Storage, name: &str) -> (r: Result<(), ConfigError>)
    ensures
        r is Ok <==> old(storage)@.has_project(name@),
        r is Ok ==> {
            &&& final(storage)@ == old(storage)@.remove_project(name@)
            &&& final(storage).rolled_back() == old(storage)@
        },
        r matches Err(e) ==> {
            &&& e@ == ErrorView::ProjectNotFound(name@)
            &&& *final(storage) == *old(storage)
        },
        old(storage)@.wf() ==> final(storage)@.wf(),
{
    let position = match find_project(&storage.state().projects, name) {
        Some(i) => i,
        None => {
            return Err(ConfigError::ProjectNotFound(name.to_owned()));
        },
    };
    proof {
        if old(storage)@.wf() {
            lemma_remove_project_wf(old(storage)@, name@);
        }
        law_delete_project_undone(old(storage)@, name@);
    }
    let state = storage.state_mut();
    let project = remove_lifted(&mut state.projects, position);
    let mut all_keys: Vec<ApiKey> = Vec::new();
    core::mem::swap(&mut state.api_keys, &mut all_keys);
    let (kept, dropped) = split_keys(all_keys, name);
    state.api_keys = kept;
    storage.record(Undo::RestoreProject { position: position, project: project, keys: dropped });
    Ok(())
}

} // verus!
