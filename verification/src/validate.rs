//! Checking the invariants of a tree that came from outside: from a
//! snapshot file, an import, or a change made in place.
use crate::models::{
    distinct_keys, envs_wf, find_project, has_key, lift, ApiKey, ConfigItem, ConfigState,
    Environment, Keyed, Project,
};
use vstd::prelude::*;

verus! {

/// Whether no text occurs twice in a list.
pub open spec fn distinct_texts(names: Seq<Seq<char>>) -> bool {
    forall|i: int, j: int| 0 <= i < j < names.len() ==> names[i] != names[j]
}

/// The texts that a list of string references points at.
pub open spec fn name_views(names: Seq<&String>) -> Seq<Seq<char>> {
    Seq::new(names.len(), |i: int| names[i]@)
}

/// Whether no name occurs twice in a list.
pub fn all_distinct(names: &Vec<&String>) -> (r: bool)
    ensures
        r == distinct_texts(name_views(names@)),
{
    let ghost all = name_views(names@);
    let mut j: usize = 0;
    while j < names.len()
        invariant
            j <= names.len(),
            all == name_views(names@),
            forall|a: int, b: int| 0 <= a < b < j ==> all[a] != all[b],
        decreases names.len() - j,
    {
        let mut i: usize = 0;
        while i < j
            invariant
                i <= j < names.len(),
                all == name_views(names@),
                forall|a: int| 0 <= a < i ==> all[a] != all[j as int],
            decreases j - i,
        {
            if *names[i] == *names[j] {
                assert(all[i as int] == all[j as int]);
                return false;
            }
            i += 1;
        }
        j += 1;
    }
    true
}

/// Whether no key occurs twice among the items of an environment.
pub fn items_distinct(items: &Vec<ConfigItem>) -> (r: bool)
    ensures
        r == distinct_keys(lift(items@)),
{
    let mut names: Vec<&String> = Vec::new();
    let mut i: usize = 0;
    while i < items.len()
        invariant
            i <= items.len(),
            names@.len() == i,
            forall|k: int| 0 <= k < i ==> (#[trigger] names@[k])@ == items@[k].key@,
        decreases items.len() - i,
    {
        names.push(&items[i].key);
        i += 1;
    }
    let r = all_distinct(&names);
    proof {
        let keys = name_views(names@);
        let views = lift(items@);
        assert forall|k: int| 0 <= k < views.len() implies (#[trigger] views[k]).key()
            == keys[k] by {}
        if r {
            assert forall|a: int, b: int| 0 <= a < b < views.len() implies (
            #[trigger] views[a]).key() != (#[trigger] views[b]).key() by {
                assert(keys[a] != keys[b]);
            }
        } else {
            let (a, b) = choose|a: int, b: int| 0 <= a < b < keys.len() && keys[a] == keys[b];
            assert(views[a].key() == views[b].key());
        }
    }
    r
}

/// Whether a list of environments is well formed: no name twice, and no
/// key twice within an environment.
pub fn environments_well_formed(envs: &Vec<Environment>) -> (r: bool)
    ensures
        r == envs_wf(lift(envs@)),
{
    let mut names: Vec<&String> = Vec::new();
    let mut i: usize = 0;
    while i < envs.len()
        invariant
            i <= envs.len(),
            names@.len() == i,
            forall|k: int| 0 <= k < i ==> (#[trigger] names@[k])@ == envs@[k].name@,
            forall|k: int| 0 <= k < i ==> (#[trigger] lift(envs@)[k]).wf(),
        decreases envs.len() - i,
    {
        if !items_distinct(&envs[i].config_items) {
            assert(!lift(envs@)[i as int].wf());
            return false;
        }
        names.push(&envs[i].name);
        i += 1;
    }
    let r = all_distinct(&names);
    proof {
        let keys = name_views(names@);
        let views = lift(envs@);
        assert forall|k: int| 0 <= k < views.len() implies (#[trigger] views[k]).key()
            == keys[k] by {}
        if r {
            assert forall|a: int, b: int| 0 <= a < b < views.len() implies (
            #[trigger] views[a]).key() != (#[trigger] views[b]).key() by {
                assert(keys[a] != keys[b]);
            }
        } else {
            let (a, b) = choose|a: int, b: int| 0 <= a < b < keys.len() && keys[a] == keys[b];
            assert(views[a].key() == views[b].key());
        }
    }
    r
}

/// Whether the names of a list of projects are distinct.
fn projects_distinct(projects: &Vec<Project>) -> (r: bool)
    ensures
        r == distinct_keys(lift(projects@)),
{
    let mut names: Vec<&String> = Vec::new();
    let mut i: usize = 0;
    while i < projects.len()
        invariant
            i <= projects.len(),
            names@.len() == i,
            forall|k: int| 0 <= k < i ==> (#[trigger] names@[k])@ == projects@[k].name@,
        decreases projects.len() - i,
    {
        names.push(&projects[i].name);
        i += 1;
    }
    let r = all_distinct(&names);
    proof {
        let keys = name_views(names@);
        let views = lift(projects@);
        assert forall|k: int| 0 <= k < views.len() implies (#[trigger] views[k]).key()
            == keys[k] by {}
        if r {
            assert forall|a: int, b: int| 0 <= a < b < views.len() implies (
            #[trigger] views[a]).key() != (#[trigger] views[b]).key() by {
                assert(keys[a] != keys[b]);
            }
        } else {
            let (a, b) = choose|a: int, b: int| 0 <= a < b < keys.len() && keys[a] == keys[b];
            assert(views[a].key() == views[b].key());
        }
    }
    r
}

/// Whether every API key of a list is bound to a project of a list.
fn keys_bound(keys: &Vec<ApiKey>, projects: &Vec<Project>) -> (r: bool)
    ensures
        r == (forall|i: int|
            0 <= i < keys@.len() ==> has_key(lift(projects@), (#[trigger] lift(keys@)[i]).project)),
{
    let mut i: usize = 0;
    while i < keys.len()
        invariant
            i <= keys.len(),
            forall|k: int|
                0 <= k < i ==> has_key(lift(projects@), (#[trigger] lift(keys@)[k]).project),
        decreases keys.len() - i,
    {
        if find_project(projects, keys[i].project.as_str()).is_none() {
            assert(!has_key(lift(projects@), lift(keys@)[i as int].project));
            return false;
        }
        i += 1;
    }
    true
}

impl ConfigState {
    /// Whether the tree keeps its invariants: project names are unique;
    /// environment names are unique within each project and within the
    /// shared group; item keys are unique within each environment; every
    /// API key is bound to a project of the tree.
    pub fn is_well_formed(&self) -> (r: bool)
        ensures
            r == self@.wf(),
    {
        if !projects_distinct(&self.projects) {
            return false;
        }
        let mut i: usize = 0;
        while i < self.projects.len()
            invariant
                i <= self.projects.len(),
                forall|k: int| 0 <= k < i ==> (#[trigger] self@.projects[k]).wf(),
            decreases self.projects.len() - i,
        {
            if !environments_well_formed(&self.projects[i].environments) {
                assert(!self@.projects[i as int].wf());
                return false;
            }
            i += 1;
        }
        if !environments_well_formed(&self.shared_group.environments) {
            return false;
        }
        let r = keys_bound(&self.api_keys, &self.projects);
        proof {
            let s = self@;
            if r {
                assert forall|k: int| 0 <= k < s.api_keys.len() implies s.has_project(
                    (#[trigger] s.api_keys[k]).project,
                ) by {
                    assert(has_key(lift(self.projects@), lift(self.api_keys@)[k].project));
                }
            } else {
                let k = choose|k: int|
                    0 <= k < self.api_keys@.len() && !has_key(
                        lift(self.projects@),
                        (#[trigger] lift(self.api_keys@)[k]).project,
                    );
                assert(!s.has_project(s.api_keys[k].project));
            }
        }
        r
    }
}

} // verus!
