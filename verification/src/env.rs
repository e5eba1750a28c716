//! Environments of a project: create, list, delete. Deleting an
//! environment removes its items.
use crate::config::scope_of;
use crate::error::{ConfigError, ErrorView};
use crate::items::{lemma_envs_wf, lemma_update_keeps_keys, lemma_with_envs_wf};
use crate::models::{
    find_environment, has_key, lemma_position, lookup, position, EnvView, Environment,
    ProjectView, StateView,
};
use crate::project::{lemma_distinct_push, lemma_distinct_remove};
use crate::storage::Storage;
use crate::tree::{
    envs_mut, envs_of, lemma_with_envs_same, lemma_with_envs_twice, push_lifted, remove_lifted,
    Scope,
};
use crate::undo::{undone, Undo, UndoView};
use vstd::prelude::*;

verus! {

/// The environment that is created for a name: it has no items.
pub open spec fn new_environment(name: Seq<char>) -> EnvView {
    EnvView { name: name, items: Seq::empty() }
}

impl StateView {
    /// Why an environment cannot be created: the project is missing, else
    /// the name is taken.
    pub open spec fn create_environment_error(self, project: Seq<char>, env: Seq<char>) -> Option<
        ErrorView,
    > {
        if !self.has_project(project) {
            Some(ErrorView::ProjectNotFound(project))
        } else if self.project(project).has_environment(env) {
            Some(ErrorView::EnvironmentAlreadyExists(env))
        } else {
            None
        }
    }

    /// The tree with an environment appended in a scope.
    pub open spec fn add_environment(self, scope: Scope, env: EnvView) -> StateView {
        self.with_envs(scope, self.envs(scope).push(env))
    }

    /// The tree without the environment of this name in a scope.
    pub open spec fn remove_environment(self, scope: Scope, name: Seq<char>) -> StateView {
        self.with_envs(scope, self.envs(scope).remove(position(self.envs(scope), name)))
    }
}

/// Changing the environments of a scope and then putting the old ones back
/// restores the tree.
pub proof fn lemma_envs_restored(s: StateView, scope: Scope, changed: Seq<EnvView>)
    requires
        s.in_scope(scope),
    ensures
        s.with_envs(scope, changed).in_scope(scope),
        s.with_envs(scope, changed).envs(scope) == changed,
        s.with_envs(scope, changed).with_envs(scope, s.envs(scope)) == s,
{
    lemma_with_envs_twice(s, scope, changed, s.envs(scope));
    lemma_with_envs_same(s, scope);
}

/// A failed write of a created environment is undone exactly: dropping
/// the last environment of its scope restores the tree.
pub proof fn law_create_environment_undone(s: StateView, scope: Scope, env: EnvView)
    requires
        s.in_scope(scope),
    ensures
        undone(s.add_environment(scope, env), UndoView::DropLastEnvironment { scope: scope }) == s,
{
    lemma_envs_restored(s, scope, s.envs(scope).push(env));
    assert(s.envs(scope).push(env).drop_last() =~= s.envs(scope));
}

/// A failed write of a deleted environment is undone exactly: the
/// environment returns to its place, with its items.
pub proof fn law_delete_environment_undone(s: StateView, scope: Scope, name: Seq<char>)
    requires
        s.in_scope(scope),
        has_key(s.envs(scope), name),
    ensures
        undone(
            s.remove_environment(scope, name),
            UndoView::RestoreEnvironment {
                scope: scope,
                position: position(s.envs(scope), name),
                env: lookup(s.envs(scope), name),
            },
        ) == s,
{
    lemma_position(s.envs(scope), name);
    let envs = s.envs(scope);
    let at = position(envs, name);
    lemma_envs_restored(s, scope, envs.remove(at));
    assert(envs.remove(at).insert(at, envs[at]) =~= envs);
}

/// A change in the scope of a project, read back by names: the project
/// has the new environments, and its name and description; every other
/// project, the shared group and the API keys are as they were. This is
/// what creating and deleting an environment of a project do to the tree.
pub proof fn law_environments_read_back(s: StateView, project: Seq<char>, envs: Seq<EnvView>)
    requires
        s.has_project(project),
        s.scoped(project),
    ensures
        ({
            let t = s.with_envs(s.project_scope(project), envs);
            &&& t.has_project(project)
            &&& t.scoped(project)
            &&& t.project_scope(project) == s.project_scope(project)
            &&& t.project(project) == (ProjectView { environments: envs, ..s.project(project) })
            &&& forall|other: Seq<char>| #[trigger]
                t.has_project(other) == s.has_project(other)
            &&& forall|other: Seq<char>|
                other != project && s.has_project(other) ==> #[trigger] t.project(other)
                    == s.project(other)
            &&& t.shared == s.shared
            &&& t.api_keys == s.api_keys
        }),
{
    let at = position(s.projects, project);
    let changed = ProjectView { environments: envs, ..s.projects[at] };
    let t = s.with_envs(s.project_scope(project), envs);
    lemma_position(s.projects, project);
    assert(t.projects == s.projects.update(at, changed));
    lemma_update_keeps_keys(s.projects, at, changed, project);
    assert forall|other: Seq<char>| #[trigger] t.has_project(other) == s.has_project(other) by {
        lemma_update_keeps_keys(s.projects, at, changed, other);
    }
    assert forall|other: Seq<char>|
        other != project && s.has_project(other) implies #[trigger] t.project(other) == s.project(
        other,
    ) by {
        lemma_update_keeps_keys(s.projects, at, changed, other);
        lemma_position(s.projects, other);
    }
}

/// Creates an environment without items in a project.
///
/// Fails, and changes nothing, with `ProjectNotFound` where the project is
/// missing, else with `EnvironmentAlreadyExists` where the project has an
/// environment of that name.
pub fn create_environment(storage: &mut Storage, project: &str, env_name: &str) -> (r: Result<
    Environment,
    ConfigError,
>)
    ensures
        r is Ok <==> old(storage)@.create_environment_error(project@, env_name@) is None,
        r matches Ok(env) ==> {
            &&& env@ == new_environment(env_name@)
            &&& final(storage)@ == old(storage)@.add_environment(
                old(storage)@.project_scope(project@),
                env@,
            )
            &&& final(storage).rolled_back() == old(storage)@
        },
        r matches Err(e) ==> {
            &&& Some(e@) == old(storage)@.create_environment_error(project@, env_name@)
            &&& *final(storage) == *old(storage)
        },
        old(storage)@.has_project(project@) ==> old(storage)@.scoped(project@),
        old(storage)@.wf() ==> final(storage)@.wf(),
{
    let scope = match scope_of(storage.state(), project) {
        Some(scope) => scope,
        None => {
            return Err(ConfigError::ProjectNotFound(project.to_owned()));
        },
    };
    if find_environment(envs_of(storage.state(), scope), env_name).is_some() {
        return Err(ConfigError::EnvironmentAlreadyExists(env_name.to_owned()));
    }
    let env = Environment { name: env_name.to_owned(), config_items: Vec::new() };
    let copy = env.clone();
    proof {
        let s = old(storage)@;
        let envs = s.envs(scope);
        assert(env@.items =~= Seq::empty());
        law_create_environment_undone(s, scope, env@);
        if s.wf() {
            lemma_envs_wf(s, scope);
            lemma_distinct_push(envs, env@);
            assert forall|i: int| 0 <= i < envs.push(env@).len() implies (#[trigger] envs.push(
                env@,
            )[i]).wf() by {
                if i < envs.len() {
                    assert(envs[i].wf());
                }
            }
            lemma_with_envs_wf(s, scope, envs.push(env@));
        }
    }
    let envs = envs_mut(storage.state_mut(), scope);
    push_lifted(envs, copy);
    storage.record(Undo::DropLastEnvironment { scope: scope });
    Ok(env)
}

/// The environments of a project, in the order of their creation.
///
/// Fails with `ProjectNotFound` where the project is missing.
pub fn list_environments<'a>(storage: &'a Storage, project: &str) -> (r: Result<
    Vec<&'a Environment>,
    ConfigError,
>)
    ensures
        r is Ok <==> storage@.has_project(project@),
        r matches Ok(envs) ==> {
            &&& envs@.len() == storage@.project(project@).environments.len()
            &&& forall|i: int|
                0 <= i < envs@.len() ==> (#[trigger] envs@[i])@ == storage@.project(
                    project@,
                ).environments[i]
        },
        r matches Err(e) ==> e@ == ErrorView::ProjectNotFound(project@),
{
    let scope = match scope_of(storage.state(), project) {
        Some(scope) => scope,
        None => {
            return Err(ConfigError::ProjectNotFound(project.to_owned()));
        },
    };
    let envs = envs_of(storage.state(), scope);
    let mut out: Vec<&Environment> = Vec::new();
    let mut i: usize = 0;
    while i < envs.len()
        invariant
            i <= envs.len(),
            out@.len() == i,
            forall|j: int| 0 <= j < i ==> *(#[trigger] out@[j]) == envs@[j],
        decreases envs.len() - i,
    {
        out.push(&envs[i]);
        i += 1;
    }
    Ok(out)
}

/// Deletes an environment of a project, with its items.
///
/// Fails, and changes nothing, with `ProjectNotFound` where the project is
/// missing, else with `EnvironmentNotFound` where the project has no
/// environment of that name.
pub fn delete_environment(storage: &mut Storage, project: &str, env_name: &str) -> (r: Result<
    (),
    ConfigError,
>)
    ensures
        r is Ok <==> old(storage)@.environment_error(project@, env_name@) is None,
        r is Ok ==> {
            &&& final(storage)@ == old(storage)@.remove_environment(
                old(storage)@.project_scope(project@),
                env_name@,
            )
            &&& final(storage).rolled_back() == old(storage)@
        },
        r matches Err(e) ==> {
            &&& Some(e@) == old(storage)@.environment_error(project@, env_name@)
            &&& *final(storage) == *old(storage)
        },
        old(storage)@.has_project(project@) ==> old(storage)@.scoped(project@),
        old(storage)@.wf() ==> final(storage)@.wf(),
{
    let scope = match scope_of(storage.state(), project) {
        Some(scope) => scope,
        None => {
            return Err(ConfigError::ProjectNotFound(project.to_owned()));
        },
    };
    let at = match find_environment(envs_of(storage.state(), scope), env_name) {
        Some(i) => i,
        None => {
            return Err(ConfigError::EnvironmentNotFound(env_name.to_owned()));
        },
    };
    proof {
        let s = old(storage)@;
        let envs = s.envs(scope);
        law_delete_environment_undone(s, scope, env_name@);
        if s.wf() {
            lemma_envs_wf(s, scope);
            lemma_distinct_remove(envs, at as int);
            assert forall|i: int| 0 <= i < envs.remove(at as int).len() implies (
            #[trigger] envs.remove(at as int)[i]).wf() by {
                let i0 = if i < at { i } else { i + 1 };
                assert(envs[i0].wf());
            }
            lemma_with_envs_wf(s, scope, envs.remove(at as int));
        }
    }
    let envs = envs_mut(storage.state_mut(), scope);
    let removed = remove_lifted(envs, at);
    storage.record(Undo::RestoreEnvironment { scope: scope, position: at, env: removed });
    Ok(())
}

} // verus!
