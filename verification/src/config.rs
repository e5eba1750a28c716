//! Configuration items of a project's environment: create, update, delete,
//! list.
use crate::error::{ConfigError, ErrorView};
use crate::env::law_environments_read_back;
use crate::items::{
    create_item_in, delete_item_in, lemma_update_keeps_keys, list_items_in, update_item_in,
};
use crate::models::{
    find_project, lemma_position, position, ConfigItem, ConfigState, EnvView, ItemView, StateView,
};
use crate::storage::Storage;
use crate::tree::Scope;
use crate::value::ConfigValue;
use vstd::prelude::*;

verus! {

impl StateView {
    /// The scope of the environments of the project with this name.
    pub open spec fn project_scope(self, project: Seq<char>) -> Scope {
        Scope::Project(position(self.projects, project) as usize)
    }

    /// The scope of a project names that project: it lies in the tree, at
    /// the first project with this name, and its environments are the
    /// project's.
    pub open spec fn scoped(self, project: Seq<char>) -> bool {
        &&& self.in_scope(self.project_scope(project))
        &&& self.project_scope(project) matches Scope::Project(p)
        &&& p == position(self.projects, project)
        &&& self.envs(self.project_scope(project)) == self.project(project).environments
    }

    /// Why an item cannot be created in a project's environment: the
    /// project is missing, else the environment is missing, else the key is
    /// taken.
    pub open spec fn create_config_error(
        self,
        project: Seq<char>,
        env: Seq<char>,
        key: Seq<char>,
    ) -> Option<ErrorView> {
        if !self.has_project(project) {
            Some(ErrorView::ProjectNotFound(project))
        } else {
            self.create_item_error(self.project_scope(project), env, key)
        }
    }

    /// Why an item of a project's environment cannot be updated or deleted:
    /// the project is missing, else the environment is missing, else no
    /// item has the key.
    pub open spec fn config_error(self, project: Seq<char>, env: Seq<char>, key: Seq<char>) -> Option<
        ErrorView,
    > {
        if !self.has_project(project) {
            Some(ErrorView::ProjectNotFound(project))
        } else {
            self.item_error(self.project_scope(project), env, key)
        }
    }

    /// Why the items of a project's environment cannot be listed: the
    /// project is missing, else the environment is missing.
    pub open spec fn environment_error(self, project: Seq<char>, env: Seq<char>) -> Option<
        ErrorView,
    > {
        if !self.has_project(project) {
            Some(ErrorView::ProjectNotFound(project))
        } else if !self.project(project).has_environment(env) {
            Some(ErrorView::EnvironmentNotFound(env))
        } else {
            None
        }
    }
}

/// In a tree that a store holds, the scope of each of its projects names
/// that project. The functions that are stated over the scope of a project
/// therefore change, and read, the environments of that project.
pub proof fn lemma_project_scope(storage: &Storage, project: Seq<char>)
    requires
        storage@.has_project(project),
    ensures
        storage@.scoped(project),
{
    lemma_position(storage@.projects, project);
    assert(storage@.projects.len() == storage.inner().projects.len());
}

/// A change of the items of an environment of a project, read back by
/// names: the environment has the new items, every other environment of
/// the project is as it was, and so is the rest of the tree. This is what
/// creating, updating and deleting an item of a project do to the tree.
pub proof fn law_items_read_back(
    s: StateView,
    project: Seq<char>,
    env: Seq<char>,
    items: Seq<ItemView>,
)
    requires
        s.has_project(project),
        s.scoped(project),
        s.project(project).has_environment(env),
    ensures
        ({
            let scope = s.project_scope(project);
            let t = s.with_items(scope, s.env_index(scope, env), items);
            &&& t.has_project(project)
            &&& t.scoped(project)
            &&& t.project(project).name == s.project(project).name
            &&& t.project(project).description == s.project(project).description
            &&& t.project(project).environment(env) == (EnvView { name: env, items: items })
            &&& forall|other: Seq<char>| #[trigger]
                t.project(project).has_environment(other) == s.project(project).has_environment(
                    other,
                )
            &&& forall|other: Seq<char>|
                other != env && s.project(project).has_environment(other)
                    ==> #[trigger] t.project(project).environment(other) == s.project(
                    project,
                ).environment(other)
            &&& forall|other: Seq<char>| #[trigger]
                t.has_project(other) == s.has_project(other)
            &&& forall|other: Seq<char>|
                other != project && s.has_project(other) ==> #[trigger] t.project(other)
                    == s.project(other)
            &&& t.shared == s.shared
            &&& t.api_keys == s.api_keys
        }),
{
    let scope = s.project_scope(project);
    let before = s.project(project).environments;
    let at = position(before, env);
    let changed = EnvView { items: items, ..before[at] };
    let after = before.update(at, changed);
    let t = s.with_items(scope, s.env_index(scope, env), items);
    lemma_position(before, env);
    law_environments_read_back(s, project, after);
    assert(t.project(project).environments == after);
    lemma_update_keeps_keys(before, at, changed, env);
    assert forall|other: Seq<char>| #[trigger]
        t.project(project).has_environment(other) == s.project(project).has_environment(
            other,
        ) by {
        lemma_update_keeps_keys(before, at, changed, other);
    }
    assert forall|other: Seq<char>|
        other != env && s.project(project).has_environment(other) implies #[trigger] t.project(
        project,
    ).environment(other) == s.project(project).environment(other) by {
        lemma_update_keeps_keys(before, at, changed, other);
        lemma_position(before, other);
    }
}

/// The scope of the project with this name.
pub fn scope_of(state: &ConfigState, project: &str) -> (r: Option<Scope>)
    ensures
        r is Some <==> state@.has_project(project@),
        r matches Some(scope) ==> scope == state@.project_scope(project@) && state@.scoped(
            project@,
        ),
{
    match find_project(&state.projects, project) {
        Some(p) => Some(Scope::Project(p)),
        None => None,
    }
}

/// Creates an item in an environment of a project.
///
/// Fails, and changes nothing, with `ProjectNotFound` where the project is
/// missing, else with `EnvironmentNotFound` where the environment is
/// missing, else with `ConfigItemAlreadyExists` where the key is taken.
pub fn create_config_item(
    storage: &mut Storage,
    project: &str,
    env: &str,
    key: &str,
    value: ConfigValue,
) -> (r: Result<ConfigItem, ConfigError>)
    ensures
        r is Ok <==> old(storage)@.create_config_error(project@, env@, key@) is None,
        r matches Ok(item) ==> {
            &&& item@ == (ItemView { key: key@, value: value@ })
            &&& final(storage)@ == old(storage)@.add_item(
                old(storage)@.project_scope(project@),
                env@,
                item@,
            )
            &&& final(storage).rolled_back() == old(storage)@
        },
        r matches Err(e) ==> {
            &&& Some(e@) == old(storage)@.create_config_error(project@, env@, key@)
            &&& *final(storage) == *old(storage)
        },
        old(storage)@.has_project(project@) ==> old(storage)@.scoped(project@),
        old(storage)@.wf() ==> final(storage)@.wf(),
{
    match scope_of(storage.state(), project) {
        Some(scope) => create_item_in(storage, scope, env, key, value),
        None => Err(ConfigError::ProjectNotFound(project.to_owned())),
    }
}

/// Replaces the value of an item in an environment of a project; the item
/// keeps its place.
///
/// Fails, and changes nothing, with `ProjectNotFound` where the project is
/// missing, else with `EnvironmentNotFound` where the environment is
/// missing, else with `ConfigItemNotFound` where no item has the key.
pub fn update_config_item(
    storage: &mut Storage,
    project: &str,
    env: &str,
    key: &str,
    value: ConfigValue,
) -> (r: Result<ConfigItem, ConfigError>)
    ensures
        r is Ok <==> old(storage)@.config_error(project@, env@, key@) is None,
        r matches Ok(item) ==> {
            &&& item@ == (ItemView { key: key@, value: value@ })
            &&& final(storage)@ == old(storage)@.set_value(
                old(storage)@.project_scope(project@),
                env@,
                key@,
                value@,
            )
            &&& final(storage).rolled_back() == old(storage)@
        },
        r matches Err(e) ==> {
            &&& Some(e@) == old(storage)@.config_error(project@, env@, key@)
            &&& *final(storage) == *old(storage)
        },
        old(storage)@.has_project(project@) ==> old(storage)@.scoped(project@),
        old(storage)@.wf() ==> final(storage)@.wf(),
{
    match scope_of(storage.state(), project) {
        Some(scope) => update_item_in(storage, scope, env, key, value),
        None => Err(ConfigError::ProjectNotFound(project.to_owned())),
    }
}

/// Deletes an item from an environment of a project.
///
/// Fails, and changes nothing, with `ProjectNotFound` where the project is
/// missing, else with `EnvironmentNotFound` where the environment is
/// missing, else with `ConfigItemNotFound` where no item has the key.
pub fn delete_config_item(storage: &mut Storage, project: &str, env: &str, key: &str) -> (r: Result<
    (),
    ConfigError,
>)
    ensures
        r is Ok <==> old(storage)@.config_error(project@, env@, key@) is None,
        r is Ok ==> {
            &&& final(storage)@ == old(storage)@.remove_item(
                old(storage)@.project_scope(project@),
                env@,
                key@,
            )
            &&& final(storage).rolled_back() == old(storage)@
        },
        r matches Err(e) ==> {
            &&& Some(e@) == old(storage)@.config_error(project@, env@, key@)
            &&& *final(storage) == *old(storage)
        },
        old(storage)@.has_project(project@) ==> old(storage)@.scoped(project@),
        old(storage)@.wf() ==> final(storage)@.wf(),
{
    match scope_of(storage.state(), project) {
        Some(scope) => delete_item_in(storage, scope, env, key),
        None => Err(ConfigError::ProjectNotFound(project.to_owned())),
    }
}

/// The items of an environment of a project, in their order.
///
/// Fails with `ProjectNotFound` where the project is missing, else with
/// `EnvironmentNotFound` where the environment is missing.
pub fn list_config_items<'a>(storage: &'a Storage, project: &str, env: &str) -> (r: Result<
    Vec<&'a ConfigItem>,
    ConfigError,
>)
    ensures
        r is Ok <==> storage@.environment_error(project@, env@) is None,
        r matches Ok(items) ==> {
            &&& items@.len() == storage@.project(project@).environment(env@).items.len()
            &&& forall|i: int|
                0 <= i < items@.len() ==> (#[trigger] items@[i])@ == storage@.project(
                    project@,
                ).environment(env@).items[i]
        },
        r matches Err(e) ==> Some(e@) == storage@.environment_error(project@, env@),
{
    match scope_of(storage.state(), project) {
        Some(scope) => list_items_in(storage, scope, env),
        None => Err(ConfigError::ProjectNotFound(project.to_owned())),
    }
}

} // verus!
