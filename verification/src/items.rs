//! Configuration items inside one list of environments: the part that the
//! project tier and the shared tier have in common.
use crate::error::{ConfigError, ErrorView};
use crate::models::{
    distinct_keys, envs_wf, find_environment, find_item, has_key, lemma_first_at, lemma_position,
    lift, lookup, position, ConfigItem, ConfigState, EnvView, ItemView, Keyed, StateView,
};
use crate::project::{lemma_distinct_push, lemma_distinct_remove};
use crate::storage::Storage;
use crate::tree::{
    envs_of, items_mut, items_of, lemma_with_items_same, lemma_with_items_twice, push_lifted,
    remove_lifted, Scope,
};
use crate::undo::{undone, Undo, UndoView};
use crate::value::ConfigValue;
use vstd::prelude::*;

verus! {

impl StateView {
    /// The index, within a scope, of the environment with this name.
    pub open spec fn env_index(self, scope: Scope, env: Seq<char>) -> int {
        position(self.envs(scope), env)
    }

    /// The items of the environment with this name.
    pub open spec fn items_in(self, scope: Scope, env: Seq<char>) -> Seq<ItemView> {
        self.items(scope, self.env_index(scope, env))
    }

    /// Why an item cannot be created: the environment is missing, or the
    /// key is taken.
    pub open spec fn create_item_error(
        self,
        scope: Scope,
        env: Seq<char>,
        key: Seq<char>,
    ) -> Option<ErrorView> {
        if !has_key(self.envs(scope), env) {
            Some(ErrorView::EnvironmentNotFound(env))
        } else if has_key(self.items_in(scope, env), key) {
            Some(ErrorView::ConfigItemAlreadyExists(key))
        } else {
            None
        }
    }

    /// Why an item cannot be read, updated or deleted: the environment is
    /// missing, or no item has the key.
    pub open spec fn item_error(self, scope: Scope, env: Seq<char>, key: Seq<char>) -> Option<
        ErrorView,
    > {
        if !has_key(self.envs(scope), env) {
            Some(ErrorView::EnvironmentNotFound(env))
        } else if !has_key(self.items_in(scope, env), key) {
            Some(ErrorView::ConfigItemNotFound(key))
        } else {
            None
        }
    }

    /// The tree with an item appended to the environment with this name.
    pub open spec fn add_item(self, scope: Scope, env: Seq<char>, item: ItemView) -> StateView {
        self.with_items(scope, self.env_index(scope, env), self.items_in(scope, env).push(item))
    }

    /// The tree with the value of an item replaced; the item keeps its
    /// place.
    pub open spec fn set_value(
        self,
        scope: Scope,
        env: Seq<char>,
        key: Seq<char>,
        value: crate::value::JsonView,
    ) -> StateView {
        self.with_items(
            scope,
            self.env_index(scope, env),
            self.items_in(scope, env).update(
                position(self.items_in(scope, env), key),
                ItemView { key: key, value: value },
            ),
        )
    }

    /// The tree without the item with this key.
    pub open spec fn remove_item(self, scope: Scope, env: Seq<char>, key: Seq<char>) -> StateView {
        self.with_items(
            scope,
            self.env_index(scope, env),
            self.items_in(scope, env).remove(position(self.items_in(scope, env), key)),
        )
    }
}

/// Replacing the value of an element keeps the keys distinct.
pub proof fn lemma_distinct_update<T: Keyed>(s: Seq<T>, i: int, x: T)
    requires
        distinct_keys(s),
        0 <= i < s.len(),
        x.key() == s[i].key(),
    ensures
        distinct_keys(s.update(i, x)),
{
    let t = s.update(i, x);
    assert forall|a: int, b: int| 0 <= a < b < t.len() implies (#[trigger] t[a]).key() != (
    #[trigger] t[b]).key() by {
        assert(s[a].key() != s[b].key());
    }
}

/// Replacing an element by one with the same key leaves every key where
/// it was.
pub proof fn lemma_update_keeps_keys<T: Keyed>(s: Seq<T>, i: int, x: T, k: Seq<char>)
    requires
        0 <= i < s.len(),
        x.key() == s[i].key(),
    ensures
        has_key(s.update(i, x), k) == has_key(s, k),
        has_key(s, k) ==> position(s.update(i, x), k) == position(s, k),
{
    let t = s.update(i, x);
    if has_key(s, k) {
        lemma_position(s, k);
        let p = position(s, k);
        assert forall|j: int| 0 <= j < p implies (#[trigger] t[j]).key() != k by {
            assert(s[j].key() != k);
        }
        assert(t[p].key() == k);
        lemma_first_at(t, k, p);
    } else if has_key(t, k) {
        let j = choose|j: int| 0 <= j < t.len() && (#[trigger] t[j]).key() == k;
        assert(s[j].key() == k);
    }
}

/// Replacing the environments of a scope by a well-formed list keeps the
/// tree's invariants.
pub proof fn lemma_with_envs_wf(s: StateView, scope: Scope, envs: Seq<EnvView>)
    requires
        s.wf(),
        s.in_scope(scope),
        envs_wf(envs),
    ensures
        s.with_envs(scope, envs).wf(),
{
    let t = s.with_envs(scope, envs);
    match scope {
        Scope::Shared => {},
        Scope::Project(p) => {
            assert forall|i: int, j: int| 0 <= i < j < t.projects.len() implies (
            #[trigger] t.projects[i]).key() != (#[trigger] t.projects[j]).key() by {
                assert(s.projects[i].key() != s.projects[j].key());
            }
            assert forall|i: int| 0 <= i < t.projects.len() implies (
            #[trigger] t.projects[i]).wf() by {
                if i != p {
                    assert(s.projects[i].wf());
                }
            }
            assert forall|n: Seq<char>| s.has_project(n) implies t.has_project(n) by {
                let i = choose|i: int| 0 <= i < s.projects.len() && (#[trigger] s.projects[i]).key() == n;
                assert(t.projects[i].key() == n);
            }
        },
    }
    assert forall|i: int| 0 <= i < t.api_keys.len() implies t.has_project(
        (#[trigger] t.api_keys[i]).project,
    ) by {
        assert(s.has_project(s.api_keys[i].project));
    }
}

/// The environments of a scope of a well-formed tree are well formed.
pub proof fn lemma_envs_wf(s: StateView, scope: Scope)
    requires
        s.wf(),
        s.in_scope(scope),
    ensures
        envs_wf(s.envs(scope)),
{
    match scope {
        Scope::Shared => {},
        Scope::Project(p) => {
            assert(s.projects[p as int].wf());
        },
    }
}

/// Replacing the items of an environment by a list with distinct keys keeps
/// the tree's invariants.
pub proof fn lemma_with_items_wf(s: StateView, scope: Scope, e: int, items: Seq<ItemView>)
    requires
        s.wf(),
        s.in_env(scope, e),
        distinct_keys(items),
    ensures
        s.with_items(scope, e, items).wf(),
{
    lemma_envs_wf(s, scope);
    let envs = s.envs(scope);
    let after = envs.update(e, EnvView { items: items, ..envs[e] });
    assert forall|i: int, j: int| 0 <= i < j < after.len() implies (#[trigger] after[i]).key() != (
    #[trigger] after[j]).key() by {
        assert(envs[i].key() != envs[j].key());
    }
    assert forall|i: int| 0 <= i < after.len() implies (#[trigger] after[i]).wf() by {
        if i != e {
            assert(envs[i].wf());
        }
    }
    lemma_with_envs_wf(s, scope, after);
}

/// Changing the items of an environment and then putting the old items
/// back restores the tree.
pub proof fn lemma_items_restored(s: StateView, scope: Scope, e: int, changed: Seq<ItemView>)
    requires
        s.in_env(scope, e),
    ensures
        s.with_items(scope, e, changed).in_env(scope, e),
        s.with_items(scope, e, changed).items(scope, e) == changed,
        s.with_items(scope, e, changed).with_items(scope, e, s.items(scope, e)) == s,
{
    lemma_with_items_twice(s, scope, e, changed, s.items(scope, e));
    lemma_with_items_same(s, scope, e);
}

/// A failed write of a created item is undone exactly: dropping the last
/// item of its environment restores the tree.
pub proof fn law_create_item_undone(s: StateView, scope: Scope, env: Seq<char>, item: ItemView)
    requires
        s.in_scope(scope),
        has_key(s.envs(scope), env),
    ensures
        undone(
            s.add_item(scope, env, item),
            UndoView::DropLastItem { scope: scope, environment: s.env_index(scope, env) },
        ) == s,
{
    lemma_position(s.envs(scope), env);
    let e = s.env_index(scope, env);
    let items = s.items(scope, e);
    lemma_items_restored(s, scope, e, items.push(item));
    assert(items.push(item).drop_last() =~= items);
}

/// A failed write of an updated item is undone exactly: putting the old
/// value back restores the tree.
pub proof fn law_update_item_undone(
    s: StateView,
    scope: Scope,
    env: Seq<char>,
    key: Seq<char>,
    value: crate::value::JsonView,
)
    requires
        s.in_scope(scope),
        s.item_error(scope, env, key) is None,
    ensures
        undone(
            s.set_value(scope, env, key, value),
            UndoView::RestoreValue {
                scope: scope,
                environment: s.env_index(scope, env),
                index: position(s.items_in(scope, env), key),
                value: lookup(s.items_in(scope, env), key).value,
            },
        ) == s,
{
    lemma_position(s.envs(scope), env);
    let e = s.env_index(scope, env);
    let items = s.items(scope, e);
    lemma_position(items, key);
    let i = position(items, key);
    let changed = items.update(i, ItemView { key: key, value: value });
    lemma_items_restored(s, scope, e, changed);
    assert(changed.update(i, ItemView { key: changed[i].key, value: items[i].value }) =~= items);
}

/// A failed write of a deleted item is undone exactly: the item returns
/// to its place.
pub proof fn law_delete_item_undone(s: StateView, scope: Scope, env: Seq<char>, key: Seq<char>)
    requires
        s.in_scope(scope),
        s.item_error(scope, env, key) is None,
    ensures
        undone(
            s.remove_item(scope, env, key),
            UndoView::RestoreItem {
                scope: scope,
                environment: s.env_index(scope, env),
                position: position(s.items_in(scope, env), key),
                item: lookup(s.items_in(scope, env), key),
            },
        ) == s,
{
    lemma_position(s.envs(scope), env);
    let e = s.env_index(scope, env);
    let items = s.items(scope, e);
    lemma_position(items, key);
    let i = position(items, key);
    lemma_items_restored(s, scope, e, items.remove(i));
    assert(items.remove(i).insert(i, items[i]) =~= items);
}

/// The index of the environment with this name in a scope.
pub(crate) fn locate(state: &ConfigState, scope: Scope, env: &str) -> (r: Option<usize>)
    requires
        state@.in_scope(scope),
    ensures
        r is Some <==> has_key(state@.envs(scope), env@),
        r matches Some(e) ==> state@.in_env(scope, e as int) && e == state@.env_index(scope, env@),
{
    find_environment(envs_of(state, scope), env)
}

/// Creates an item in an environment of a scope.
pub(crate) fn create_item_in(
    storage: &mut Storage,
    scope: Scope,
    env: &str,
    key: &str,
    value: ConfigValue,
) -> (r: Result<ConfigItem, ConfigError>)
    requires
        old(storage)@.in_scope(scope),
    ensures
        r is Ok <==> old(storage)@.create_item_error(scope, env@, key@) is None,
        r matches Ok(item) ==> {
            &&& item@ == (ItemView { key: key@, value: value@ })
            &&& final(storage)@ == old(storage)@.add_item(scope, env@, item@)
            &&& final(storage).rolled_back() == old(storage)@
        },
        r matches Err(e) ==> {
            &&& Some(e@) == old(storage)@.create_item_error(scope, env@, key@)
            &&& *final(storage) == *old(storage)
        },
        old(storage)@.wf() ==> final(storage)@.wf(),
{
    let e = match locate(storage.state(), scope, env) {
        Some(e) => e,
        None => {
            return Err(ConfigError::EnvironmentNotFound(env.to_owned()));
        },
    };
    if find_item(items_of(storage.state(), scope, e), key).is_some() {
        return Err(ConfigError::ConfigItemAlreadyExists(key.to_owned()));
    }
    let item = ConfigItem { key: key.to_owned(), value: value };
    let copy = item.clone();
    proof {
        let s = old(storage)@;
        let items = s.items(scope, e as int);
        law_create_item_undone(s, scope, env@, item@);
        if s.wf() {
            lemma_envs_wf(s, scope);
            assert(s.envs(scope)[e as int].wf());
            lemma_distinct_push(items, item@);
            lemma_with_items_wf(s, scope, e as int, items.push(item@));
        }
    }
    let items = items_mut(storage.state_mut(), scope, e);
    push_lifted(items, copy);
    storage.record(Undo::DropLastItem { scope: scope, environment: e });
    Ok(item)
}

/// Replaces the value of an item in an environment of a scope.
pub(crate) fn update_item_in(
    storage: &mut Storage,
    scope: Scope,
    env: &str,
    key: &str,
    value: ConfigValue,
) -> (r: Result<ConfigItem, ConfigError>)
    requires
        old(storage)@.in_scope(scope),
    ensures
        r is Ok <==> old(storage)@.item_error(scope, env@, key@) is None,
        r matches Ok(item) ==> {
            &&& item@ == (ItemView { key: key@, value: value@ })
            &&& final(storage)@ == old(storage)@.set_value(scope, env@, key@, value@)
            &&& final(storage).rolled_back() == old(storage)@
        },
        r matches Err(e) ==> {
            &&& Some(e@) == old(storage)@.item_error(scope, env@, key@)
            &&& *final(storage) == *old(storage)
        },
        old(storage)@.wf() ==> final(storage)@.wf(),
{
    let e = match locate(storage.state(), scope, env) {
        Some(e) => e,
        None => {
            return Err(ConfigError::EnvironmentNotFound(env.to_owned()));
        },
    };
    let i = match find_item(items_of(storage.state(), scope, e), key) {
        Some(i) => i,
        None => {
            return Err(ConfigError::ConfigItemNotFound(key.to_owned()));
        },
    };
    let item = ConfigItem { key: key.to_owned(), value: value };
    let copy = item.value.clone();
    proof {
        let s = old(storage)@;
        let items = s.items(scope, e as int);
        let changed = items.update(i as int, item@);
        law_update_item_undone(s, scope, env@, key@, item@.value);
        if s.wf() {
            lemma_envs_wf(s, scope);
            assert(s.envs(scope)[e as int].wf());
            lemma_distinct_update(items, i as int, item@);
            lemma_with_items_wf(s, scope, e as int, changed);
        }
    }
    let items = items_mut(storage.state_mut(), scope, e);
    let ghost before = items@;
    let mut previous = copy;
    core::mem::swap(&mut items[i].value, &mut previous);
    proof {
        assert(lift(items@) =~= lift(before).update(i as int, item@));
    }
    storage.record(
        Undo::RestoreValue { scope: scope, environment: e, index: i, value: previous },
    );
    Ok(item)
}

/// Deletes an item from an environment of a scope.
pub(crate) fn delete_item_in(storage: &mut Storage, scope: Scope, env: &str, key: &str) -> (r: Result<
    (),
    ConfigError,
>)
    requires
        old(storage)@.in_scope(scope),
    ensures
        r is Ok <==> old(storage)@.item_error(scope, env@, key@) is None,
        r is Ok ==> {
            &&& final(storage)@ == old(storage)@.remove_item(scope, env@, key@)
            &&& final(storage).rolled_back() == old(storage)@
        },
        r matches Err(e) ==> {
            &&& Some(e@) == old(storage)@.item_error(scope, env@, key@)
            &&& *final(storage) == *old(storage)
        },
        old(storage)@.wf() ==> final(storage)@.wf(),
{
    let e = match locate(storage.state(), scope, env) {
        Some(e) => e,
        None => {
            return Err(ConfigError::EnvironmentNotFound(env.to_owned()));
        },
    };
    let i = match find_item(items_of(storage.state(), scope, e), key) {
        Some(i) => i,
        None => {
            return Err(ConfigError::ConfigItemNotFound(key.to_owned()));
        },
    };
    proof {
        let s = old(storage)@;
        let items = s.items(scope, e as int);
        law_delete_item_undone(s, scope, env@, key@);
        if s.wf() {
            lemma_envs_wf(s, scope);
            assert(s.envs(scope)[e as int].wf());
            lemma_distinct_remove(items, i as int);
            lemma_with_items_wf(s, scope, e as int, items.remove(i as int));
        }
    }
    let items = items_mut(storage.state_mut(), scope, e);
    let removed = remove_lifted(items, i);
    storage.record(
        Undo::RestoreItem { scope: scope, environment: e, position: i, item: removed },
    );
    Ok(())
}

/// The items of an environment of a scope, in their order.
pub(crate) fn list_items_in<'a>(storage: &'a Storage, scope: Scope, env: &str) -> (r: Result<
    Vec<&'a ConfigItem>,
    ConfigError,
>)
    requires
        storage@.in_scope(scope),
    ensures
        r is Ok <==> has_key(storage@.envs(scope), env@),
        r matches Ok(items) ==> {
            &&& items@.len() == storage@.items_in(scope, env@).len()
            &&& forall|i: int|
                0 <= i < items@.len() ==> (#[trigger] items@[i])@ == storage@.items_in(
                    scope,
                    env@,
                )[i]
        },
        r matches Err(e) ==> e@ == ErrorView::EnvironmentNotFound(env@),
{
    let e = match locate(storage.state(), scope, env) {
        Some(e) => e,
        None => {
            return Err(ConfigError::EnvironmentNotFound(env.to_owned()));
        },
    };
    let items = items_of(storage.state(), scope, e);
    let mut out: Vec<&ConfigItem> = Vec::new();
    let mut i: usize = 0;
    while i < items.len()
        invariant
            i <= items.len(),
            out@.len() == i,
            forall|j: int| 0 <= j < i ==> *(#[trigger] out@[j]) == items@[j],
        decreases items.len() - i,
    {
        out.push(&items[i]);
        i += 1;
    }
    Ok(out)
}

} // verus!
