//! The merge resolver: the effective configuration of a project's
//! environment is the shared tier's environment of the same name, overlaid
//! with the project's own items.
use crate::config::scope_of;
use crate::error::{ConfigError, ErrorView};
use crate::items::locate;
use crate::models::{
    distinct_keys, find_item, has_key, lemma_first_at, lemma_position, lift,
    lookup, position, ConfigItem, ConfigState, ItemView, Keyed, StateView,
};
use crate::project::{lemma_distinct_push, lemma_has_key_push};
use crate::storage::Storage;
use crate::tree::{items_of, push_lifted, Scope};
use crate::value::ConfigValue;
use vstd::prelude::*;

verus! {

/// One element laid over a list: it replaces the element with its key, in
/// that element's place, or is appended where no element has its key.
pub open spec fn upsert<T: Keyed>(acc: Seq<T>, item: T) -> Seq<T> {
    if has_key(acc, item.key()) {
        acc.update(position(acc, item.key()), item)
    } else {
        acc.push(item)
    }
}

/// A list of items laid over another, the first item first.
pub open spec fn overlay(acc: Seq<ItemView>, items: Seq<ItemView>) -> Seq<ItemView>
    decreases items.len(),
{
    if items.len() == 0 {
        acc
    } else {
        upsert(overlay(acc, items.drop_last()), items.last())
    }
}

/// The merge of two tiers: the shared items first, then the project's own
/// items laid over them.
pub open spec fn merged(shared: Seq<ItemView>, own: Seq<ItemView>) -> Seq<ItemView> {
    overlay(overlay(Seq::empty(), shared), own)
}

impl StateView {
    /// The items of the shared environment with this name; none where the
    /// shared group has no such environment.
    pub open spec fn shared_items(self, env: Seq<char>) -> Seq<ItemView> {
        if self.has_shared(env) {
            self.shared_env(env).items
        } else {
            Seq::empty()
        }
    }

    /// The effective configuration of a project's environment.
    pub open spec fn resolve(self, project: Seq<char>, env: Seq<char>) -> Seq<ItemView> {
        merged(self.shared_items(env), self.project(project).environment(env).items)
    }

    /// Why one key of a project's environment cannot be resolved: the
    /// project is missing, else the environment is missing, else neither
    /// tier has the key.
    pub open spec fn resolve_item_error(
        self,
        project: Seq<char>,
        env: Seq<char>,
        key: Seq<char>,
    ) -> Option<ErrorView> {
        if self.environment_error(project, env) is Some {
            self.environment_error(project, env)
        } else if !has_key(self.resolve(project, env), key) {
            Some(ErrorView::ConfigItemNotFound(key))
        } else {
            None
        }
    }
}

/// What laying one element over a list with distinct keys does to each
/// key.
pub proof fn lemma_upsert<T: Keyed>(acc: Seq<T>, item: T, key: Seq<char>)
    requires
        distinct_keys(acc),
    ensures
        distinct_keys(upsert(acc, item)),
        has_key(upsert(acc, item), key) <==> has_key(acc, key) || key == item.key(),
        key == item.key() ==> lookup(upsert(acc, item), key) == item,
        key != item.key() && has_key(acc, key) ==> lookup(upsert(acc, item), key) == lookup(
            acc,
            key,
        ),
{
    let r = upsert(acc, item);
    if has_key(acc, item.key()) {
        lemma_position(acc, item.key());
        let p = position(acc, item.key());
        assert forall|i: int| 0 <= i < acc.len() implies (#[trigger] r[i]).key() == acc[i].key() by {}
        assert forall|a: int, b: int| 0 <= a < b < r.len() implies (#[trigger] r[a]).key() != (
        #[trigger] r[b]).key() by {
            assert(acc[a].key() != acc[b].key());
        }
        if has_key(acc, key) {
            lemma_position(acc, key);
            let q = position(acc, key);
            assert(r[q].key() == key);
            assert forall|j: int| 0 <= j < q implies (#[trigger] r[j]).key() != key by {
                assert(acc[j].key() != key);
            }
            lemma_first_at(r, key, q);
            if key != item.key() {
                assert(q != p);
            }
        }
        if has_key(r, key) {
            let j = choose|j: int| 0 <= j < r.len() && (#[trigger] r[j]).key() == key;
            assert(acc[j].key() == key);
        }
    } else {
        lemma_distinct_push(acc, item);
        lemma_has_key_push(acc, item, key);
        if key == item.key() {
            assert forall|j: int| 0 <= j < acc.len() implies (#[trigger] r[j]).key() != key by {
                assert(acc[j].key() != key);
            }
            lemma_first_at(r, key, acc.len() as int);
        } else if has_key(acc, key) {
            lemma_position(acc, key);
            let q = position(acc, key);
            assert(r[q] == acc[q]);
            assert forall|j: int| 0 <= j < q implies (#[trigger] r[j]).key() != key by {
                assert(acc[j].key() != key);
            }
            lemma_first_at(r, key, q);
        }
    }
}

/// What laying a list over another does to each key, where neither list
/// holds a key twice: the result holds no key twice; it has exactly the
/// keys of the two lists; a key of the upper list has the upper list's
/// value, and any other key keeps the value of the lower list.
pub proof fn lemma_overlay(acc: Seq<ItemView>, items: Seq<ItemView>, key: Seq<char>)
    requires
        distinct_keys(acc),
        distinct_keys(items),
    ensures
        distinct_keys(overlay(acc, items)),
        has_key(overlay(acc, items), key) <==> has_key(acc, key) || has_key(items, key),
        has_key(items, key) ==> lookup(overlay(acc, items), key) == lookup(items, key),
        !has_key(items, key) && has_key(acc, key) ==> lookup(overlay(acc, items), key) == lookup(
            acc,
            key,
        ),
    decreases items.len(),
{
    if items.len() > 0 {
        let front = items.drop_last();
        let x = items.last();
        assert(items =~= front.push(x));
        assert forall|a: int, b: int| 0 <= a < b < front.len() implies (#[trigger] front[a]).key()
            != (#[trigger] front[b]).key() by {
            assert(items[a].key() != items[b].key());
        }
        lemma_overlay(acc, front, key);
        lemma_upsert(overlay(acc, front), x, key);
        lemma_has_key_push(front, x, key);
        if key == x.key {
            assert forall|j: int| 0 <= j < front.len() implies (#[trigger] items[j]).key()
                != key by {
                assert(items[j].key() != items[items.len() - 1].key());
            }
            lemma_first_at(items, key, items.len() - 1);
        } else if has_key(front, key) {
            lemma_position(front, key);
            let q = position(front, key);
            assert(items[q] == front[q]);
            assert forall|j: int| 0 <= j < q implies (#[trigger] items[j]).key() != key by {
                assert(front[j].key() != key);
            }
            lemma_first_at(items, key, q);
        }
    }
}

/// Override wins: in the merge of two tiers without repeated keys, a key
/// of the project tier has the project's value, a key of the shared tier
/// alone has the shared value, and no other key is present.
pub proof fn law_project_overrides_shared(
    shared: Seq<ItemView>,
    own: Seq<ItemView>,
    key: Seq<char>,
)
    requires
        distinct_keys(shared),
        distinct_keys(own),
    ensures
        distinct_keys(merged(shared, own)),
        has_key(merged(shared, own), key) <==> has_key(own, key) || has_key(shared, key),
        has_key(own, key) ==> lookup(merged(shared, own), key) == lookup(own, key),
        !has_key(own, key) && has_key(shared, key) ==> lookup(merged(shared, own), key) == lookup(
            shared,
            key,
        ),
{
    let none = Seq::<ItemView>::empty();
    assert(distinct_keys(none));
    lemma_overlay(none, shared, key);
    lemma_overlay(overlay(none, shared), own, key);
    assert(!has_key(none, key));
}

/// Override wins, for every project and environment of a well-formed
/// tree: a resolved key that the project's environment holds has the
/// project's value; one that only the shared environment of that name holds
/// has the shared value; no other key is resolved.
pub proof fn law_resolve(s: StateView, project: Seq<char>, env: Seq<char>, key: Seq<char>)
    requires
        s.wf(),
        s.environment_error(project, env) is None,
    ensures
        ({
            let own = s.project(project).environment(env).items;
            let shared = s.shared_items(env);
            let all = s.resolve(project, env);
            &&& has_key(all, key) <==> has_key(own, key) || has_key(shared, key)
            &&& has_key(own, key) ==> lookup(all, key) == lookup(own, key)
            &&& !has_key(own, key) && has_key(shared, key) ==> lookup(all, key) == lookup(
                shared,
                key,
            )
        }),
{
    lemma_position(s.projects, project);
    let p = s.project(project);
    assert(p.wf());
    lemma_position(p.environments, env);
    assert(p.environment(env).wf());
    if s.has_shared(env) {
        lemma_position(s.shared, env);
        assert(s.shared_env(env).wf());
    } else {
        assert(distinct_keys(Seq::<ItemView>::empty()));
    }
    law_project_overrides_shared(s.shared_items(env), p.environment(env).items, key);
}

/// A resolved configuration: items with distinct keys, in the order in
/// which the merge met their keys.
#[derive(Debug, PartialEq)]
pub struct MergedConfig {
    pub entries: Vec<ConfigItem>,
}

impl View for MergedConfig {
    type V = Seq<ItemView>;

    open spec fn view(&self) -> Seq<ItemView> {
        lift(self.entries@)
    }
}

impl MergedConfig {
    /// The number of keys.
    pub fn len(&self) -> (r: usize)
        ensures
            r == self@.len(),
    {
        self.entries.len()
    }

    /// Whether there is no key.
    pub fn is_empty(&self) -> (r: bool)
        ensures
            r == (self@.len() == 0),
    {
        self.entries.len() == 0
    }

    /// Whether there is a value for a key.
    pub fn contains_key(&self, key: &str) -> (r: bool)
        ensures
            r == has_key(self@, key@),
    {
        find_item(&self.entries, key).is_some()
    }

    /// The value for a key.
    pub fn get(&self, key: &str) -> (r: Option<&ConfigValue>)
        ensures
            r is Some <==> has_key(self@, key@),
            r matches Some(v) ==> v@ == lookup(self@, key@).value,
    {
        match find_item(&self.entries, key) {
            Some(i) => Some(&self.entries[i].value),
            None => None,
        }
    }
}

/// Lays a list of items over another, in place.
pub fn overlay_into(acc: &mut Vec<ConfigItem>, items: &Vec<ConfigItem>)
    ensures
        lift(final(acc)@) == overlay(lift(old(acc)@), lift(items@)),
{
    let ghost start = lift(acc@);
    let ghost all = lift(items@);
    let mut i: usize = 0;
    assert(all.take(0) =~= Seq::empty());
    while i < items.len()
        invariant
            i <= items.len(),
            all == lift(items@),
            lift(acc@) == overlay(start, all.take(i as int)),
        decreases items.len() - i,
    {
        proof {
            assert(all.take(i as int + 1).drop_last() =~= all.take(i as int));
            assert(all.take(i as int + 1).last() == items@[i as int]@);
        }
        let item = items[i].clone();
        match find_item(acc, item.key.as_str()) {
            Some(at) => {
                let ghost before = acc@;
                acc[at] = item;
                assert(lift(acc@) =~= lift(before).update(at as int, item@));
            },
            None => {
                push_lifted(acc, item);
            },
        }
        i += 1;
    }
    assert(all.take(items.len() as int) =~= all);
}

/// The effective configuration of a project's environment in a tree: the
/// items of the shared environment of the same name, if there is one,
/// overlaid with the project's own.
///
/// Fails with `ProjectNotFound` where the project is missing, else with
/// `EnvironmentNotFound` where the project has no environment of that name;
/// the shared group is never asked whether the environment exists.
pub fn merge_config(state: &ConfigState, project: &str, env: &str) -> (r: Result<
    MergedConfig,
    ConfigError,
>)
    ensures
        r is Ok <==> state@.environment_error(project@, env@) is None,
        r matches Ok(m) ==> m@ == state@.resolve(project@, env@),
        r matches Err(e) ==> Some(e@) == state@.environment_error(project@, env@),
{
    let scope = match scope_of(state, project) {
        Some(scope) => scope,
        None => {
            return Err(ConfigError::ProjectNotFound(project.to_owned()));
        },
    };
    let own = match locate(state, scope, env) {
        Some(e) => e,
        None => {
            return Err(ConfigError::EnvironmentNotFound(env.to_owned()));
        },
    };
    let mut entries: Vec<ConfigItem> = Vec::new();
    assert(lift(entries@) =~= Seq::empty());
    match locate(state, Scope::Shared, env) {
        Some(e) => {
            overlay_into(&mut entries, items_of(state, Scope::Shared, e));
        },
        None => {},
    }
    overlay_into(&mut entries, items_of(state, scope, own));
    Ok(MergedConfig { entries: entries })
}

/// The effective configuration of a project's environment: the items of
/// the shared environment of the same name, if there is one, overlaid with
/// the project's own.
///
/// Fails with `ProjectNotFound` where the project is missing, else with
/// `EnvironmentNotFound` where the project has no environment of that name;
/// the shared group is never asked whether the environment exists.
pub fn get_merged_config(storage: &Storage, project: &str, env: &str) -> (r: Result<
    MergedConfig,
    ConfigError,
>)
    ensures
        r is Ok <==> storage@.environment_error(project@, env@) is None,
        r matches Ok(m) ==> m@ == storage@.resolve(project@, env@),
        r matches Err(e) ==> Some(e@) == storage@.environment_error(project@, env@),
{
    merge_config(storage.state(), project, env)
}

/// One key of the effective configuration of a project's environment.
///
/// Fails with `ProjectNotFound` where the project is missing, else with
/// `EnvironmentNotFound` where the project has no environment of that name,
/// else with `ConfigItemNotFound` where neither tier has the key.
pub fn get_merged_config_item(storage: &Storage, project: &str, env: &str, key: &str) -> (r: Result<
    ConfigValue,
    ConfigError,
>)
    ensures
        r is Ok <==> storage@.resolve_item_error(project@, env@, key@) is None,
        r matches Ok(v) ==> v@ == lookup(storage@.resolve(project@, env@), key@).value,
        r matches Err(e) ==> Some(e@) == storage@.resolve_item_error(project@, env@, key@),
{
    let all = match get_merged_config(storage, project, env) {
        Ok(m) => m,
        Err(e) => {
            return Err(e);
        },
    };
    match all.get(key) {
        Some(v) => Ok(v.clone()),
        None => Err(ConfigError::ConfigItemNotFound(key.to_owned())),
    }
}

} // verus!
