//! Compensating actions: what takes a change of the tree back, captured as
//! a value before the change is made.
use crate::models::{
    lift, ApiKey, ApiKeyView, ConfigItem, ConfigState, EnvView, Environment, ItemView, Project,
    ProjectView, StateView,
};
use crate::tree::{envs_mut, insert_lifted, items_mut, pop_lifted, Scope};
use crate::value::{ConfigValue, JsonView};
use vstd::prelude::*;

verus! {

/// How to take one change of the tree back.
#[derive(Debug)]
pub enum Undo {
    /// Takes back the appending of a project.
    DropLastProject,
    /// Takes back the removal of a project and of the API keys bound to it:
    /// each key returns to the index it had.
    RestoreProject { position: usize, project: Project, keys: Vec<(usize, ApiKey)> },
    /// Takes back the appending of an environment.
    DropLastEnvironment { scope: Scope },
    /// Takes back the removal of an environment.
    RestoreEnvironment { scope: Scope, position: usize, env: Environment },
    /// Takes back the appending of an item.
    DropLastItem { scope: Scope, environment: usize },
    /// Takes back the replacement of an item's value.
    RestoreValue { scope: Scope, environment: usize, index: usize, value: ConfigValue },
    /// Takes back the removal of an item.
    RestoreItem { scope: Scope, environment: usize, position: usize, item: ConfigItem },
    /// Takes back the appending of an API key.
    DropLastApiKey,
    /// Takes back the removal of an API key.
    RestoreApiKey { position: usize, key: ApiKey },
    /// Takes back the replacement of the whole tree.
    RestoreState(ConfigState),
}

/// Model of an [`Undo`].
pub enum UndoView {
    DropLastProject,
    RestoreProject { position: int, project: ProjectView, keys: Seq<(int, ApiKeyView)> },
    DropLastEnvironment { scope: Scope },
    RestoreEnvironment { scope: Scope, position: int, env: EnvView },
    DropLastItem { scope: Scope, environment: int },
    RestoreValue { scope: Scope, environment: int, index: int, value: JsonView },
    RestoreItem { scope: Scope, environment: int, position: int, item: ItemView },
    DropLastApiKey,
    RestoreApiKey { position: int, key: ApiKeyView },
    RestoreState(StateView),
}

/// The models of removed API keys with their indices.
pub open spec fn key_views(keys: Seq<(usize, ApiKey)>) -> Seq<(int, ApiKeyView)> {
    Seq::new(keys.len(), |i: int| (keys[i].0 as int, keys[i].1@))
}

impl View for Undo {
    type V = UndoView;

    open spec fn view(&self) -> UndoView {
        match self {
            Undo::DropLastProject => UndoView::DropLastProject,
            Undo::RestoreProject { position, project, keys } => UndoView::RestoreProject {
                position: *position as int,
                project: project@,
                keys: key_views(keys@),
            },
            Undo::DropLastEnvironment { scope } => UndoView::DropLastEnvironment { scope: *scope },
            Undo::RestoreEnvironment { scope, position, env } => UndoView::RestoreEnvironment {
                scope: *scope,
                position: *position as int,
                env: env@,
            },
            Undo::DropLastItem { scope, environment } => UndoView::DropLastItem {
                scope: *scope,
                environment: *environment as int,
            },
            Undo::RestoreValue { scope, environment, index, value } => UndoView::RestoreValue {
                scope: *scope,
                environment: *environment as int,
                index: *index as int,
                value: value@,
            },
            Undo::RestoreItem { scope, environment, position, item } => UndoView::RestoreItem {
                scope: *scope,
                environment: *environment as int,
                position: *position as int,
                item: item@,
            },
            Undo::DropLastApiKey => UndoView::DropLastApiKey,
            Undo::RestoreApiKey { position, key } => UndoView::RestoreApiKey {
                position: *position as int,
                key: key@,
            },
            Undo::RestoreState(state) => UndoView::RestoreState(state@),
        }
    }
}

/// One removed element put back at its index, where that index exists.
pub open spec fn put_back<T>(s: Seq<T>, at: (int, T)) -> Seq<T> {
    if 0 <= at.0 <= s.len() {
        s.insert(at.0, at.1)
    } else {
        s
    }
}

/// Removed elements put back at their indices, the first of them first.
pub open spec fn reinsert<T>(s: Seq<T>, removed: Seq<(int, T)>) -> Seq<T>
    decreases removed.len(),
{
    if removed.len() == 0 {
        s
    } else {
        put_back(reinsert(s, removed.drop_last()), removed.last())
    }
}

/// The tree after a change has been taken back. An undo that does not fit
/// the tree leaves it as it is.
pub open spec fn undone(s: StateView, u: UndoView) -> StateView {
    match u {
        UndoView::DropLastProject => if s.projects.len() > 0 {
            StateView { projects: s.projects.drop_last(), ..s }
        } else {
            s
        },
        UndoView::RestoreProject { position, project, keys } => if 0 <= position
            <= s.projects.len() {
            StateView {
                projects: s.projects.insert(position, project),
                api_keys: reinsert(s.api_keys, keys),
                ..s
            }
        } else {
            s
        },
        UndoView::DropLastEnvironment { scope } => if s.in_scope(scope) && s.envs(scope).len()
            > 0 {
            s.with_envs(scope, s.envs(scope).drop_last())
        } else {
            s
        },
        UndoView::RestoreEnvironment { scope, position, env } => if s.in_scope(scope) && 0
            <= position <= s.envs(scope).len() {
            s.with_envs(scope, s.envs(scope).insert(position, env))
        } else {
            s
        },
        UndoView::DropLastItem { scope, environment } => if s.in_env(scope, environment)
            && s.items(scope, environment).len() > 0 {
            s.with_items(scope, environment, s.items(scope, environment).drop_last())
        } else {
            s
        },
        UndoView::RestoreValue { scope, environment, index, value } => if s.in_env(
            scope,
            environment,
        ) && 0 <= index < s.items(scope, environment).len() {
            s.with_items(
                scope,
                environment,
                s.items(scope, environment).update(
                    index,
                    ItemView { key: s.items(scope, environment)[index].key, value: value },
                ),
            )
        } else {
            s
        },
        UndoView::RestoreItem { scope, environment, position, item } => if s.in_env(
            scope,
            environment,
        ) && 0 <= position <= s.items(scope, environment).len() {
            s.with_items(scope, environment, s.items(scope, environment).insert(position, item))
        } else {
            s
        },
        UndoView::DropLastApiKey => if s.api_keys.len() > 0 {
            StateView { api_keys: s.api_keys.drop_last(), ..s }
        } else {
            s
        },
        UndoView::RestoreApiKey { position, key } => if 0 <= position <= s.api_keys.len() {
            StateView { api_keys: s.api_keys.insert(position, key), ..s }
        } else {
            s
        },
        UndoView::RestoreState(state) => state,
    }
}

/// Whether a scope names a list of environments of the tree.
fn scope_exists(state: &ConfigState, scope: Scope) -> (r: bool)
    ensures
        r == state@.in_scope(scope),
{
    match scope {
        Scope::Shared => true,
        Scope::Project(p) => p < state.projects.len(),
    }
}

/// Whether a scope names a list of environments of the tree, and `e` one of
/// them.
fn env_exists(state: &ConfigState, scope: Scope, e: usize) -> (r: bool)
    ensures
        r == state@.in_env(scope, e as int),
{
    match scope {
        Scope::Shared => e < state.shared_group.environments.len(),
        Scope::Project(p) => p < state.projects.len() && e
            < state.projects[p].environments.len(),
    }
}

/// Puts removed API keys back at their indices.
fn restore_keys(api_keys: &mut Vec<ApiKey>, removed: &Vec<(usize, ApiKey)>)
    ensures
        lift(final(api_keys)@) == reinsert(lift(old(api_keys)@), key_views(removed@)),
{
    let ghost start = lift(api_keys@);
    let ghost all = key_views(removed@);
    let mut j: usize = 0;
    assert(all.take(0) =~= Seq::empty());
    while j < removed.len()
        invariant
            j <= removed.len(),
            all == key_views(removed@),
            lift(api_keys@) == reinsert(start, all.take(j as int)),
        decreases removed.len() - j,
    {
        let at = removed[j].0;
        proof {
            assert(all.take(j as int + 1).drop_last() =~= all.take(j as int));
            assert(all.take(j as int + 1).last() == (at as int, removed[j as int].1@));
        }
        if at <= api_keys.len() {
            insert_lifted(api_keys, at, removed[j].1.clone());
        }
        j += 1;
    }
    assert(all.take(removed.len() as int) =~= all);
}

/// Takes a change of the tree back.
pub fn apply_undo(state: &mut ConfigState, undo: Undo)
    ensures
        final(state)@ == undone(old(state)@, undo@),
{
    match undo {
        Undo::DropLastProject => {
            if state.projects.len() > 0 {
                pop_lifted(&mut state.projects);
            }
        },
        Undo::RestoreProject { position, project, keys } => {
            if position <= state.projects.len() {
                insert_lifted(&mut state.projects, position, project);
                restore_keys(&mut state.api_keys, &keys);
            }
        },
        Undo::DropLastEnvironment { scope } => {
            if scope_exists(state, scope) {
                let envs = envs_mut(state, scope);
                if envs.len() > 0 {
                    pop_lifted(envs);
                } else {
                    proof {
                        crate::tree::lemma_with_envs_same(old(state)@, scope);
                    }
                }
            }
        },
        Undo::RestoreEnvironment { scope, position, env } => {
            if scope_exists(state, scope) {
                let envs = envs_mut(state, scope);
                if position <= envs.len() {
                    insert_lifted(envs, position, env);
                } else {
                    proof {
                        crate::tree::lemma_with_envs_same(old(state)@, scope);
                    }
                }
            }
        },
        Undo::DropLastItem { scope, environment } => {
            if env_exists(state, scope, environment) {
                let items = items_mut(state, scope, environment);
                if items.len() > 0 {
                    pop_lifted(items);
                } else {
                    proof {
                        crate::tree::lemma_with_items_same(old(state)@, scope, environment as int);
                    }
                }
            }
        },
        Undo::RestoreValue { scope, environment, index, value } => {
            if env_exists(state, scope, environment) {
                let items = items_mut(state, scope, environment);
                if index < items.len() {
                    let ghost before = items@;
                    items[index].value = value;
                    assert(lift(items@) =~= lift(before).update(
                        index as int,
                        ItemView { key: lift(before)[index as int].key, value: value@ },
                    ));
                } else {
                    proof {
                        crate::tree::lemma_with_items_same(old(state)@, scope, environment as int);
                    }
                }
            }
        },
        Undo::RestoreItem { scope, environment, position, item } => {
            if env_exists(state, scope, environment) {
                let items = items_mut(state, scope, environment);
                if position <= items.len() {
                    insert_lifted(items, position, item);
                } else {
                    proof {
                        crate::tree::lemma_with_items_same(old(state)@, scope, environment as int);
                    }
                }
            }
        },
        Undo::DropLastApiKey => {
            if state.api_keys.len() > 0 {
                pop_lifted(&mut state.api_keys);
            }
        },
        Undo::RestoreApiKey { position, key } => {
            if position <= state.api_keys.len() {
                insert_lifted(&mut state.api_keys, position, key);
            }
        },
        Undo::RestoreState(previous) => {
            *state = previous;
        },
    }
}

} // verus!
