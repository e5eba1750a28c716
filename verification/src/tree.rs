//! Positions inside the configuration tree, and the elementary changes that
//! the mutation engine is built from.
use crate::models::{
    lift, ConfigItem, ConfigState, EnvView, Environment, ItemView, Project, ProjectView, StateView,
};
use vstd::prelude::*;

verus! {

/// Where a list of environments lives: in the shared group, or in the
/// project at an index of the project list.
#[derive(Debug, Clone, Copy, PartialEq, Eq)]
pub enum Scope {
    Shared,
    Project(usize),
}

impl StateView {
    /// The scope names a list of environments of this tree.
    pub open spec fn in_scope(self, scope: Scope) -> bool {
        match scope {
            Scope::Shared => true,
            Scope::Project(p) => p < self.projects.len(),
        }
    }

    /// The environments in a scope.
    pub open spec fn envs(self, scope: Scope) -> Seq<EnvView> {
        match scope {
            Scope::Shared => self.shared,
            Scope::Project(p) => self.projects[p as int].environments,
        }
    }

    /// The tree with the environments of a scope replaced.
    pub open spec fn with_envs(self, scope: Scope, envs: Seq<EnvView>) -> StateView {
        match scope {
            Scope::Shared => StateView { shared: envs, ..self },
            Scope::Project(p) => StateView {
                projects: self.projects.update(
                    p as int,
                    ProjectView { environments: envs, ..self.projects[p as int] },
                ),
                ..self
            },
        }
    }

    /// The scope names a list of environments, and `e` one of them.
    pub open spec fn in_env(self, scope: Scope, e: int) -> bool {
        self.in_scope(scope) && 0 <= e < self.envs(scope).len()
    }

    /// The items of the environment at index `e` of a scope.
    pub open spec fn items(self, scope: Scope, e: int) -> Seq<ItemView> {
        self.envs(scope)[e].items
    }

    /// The tree with the items of one environment replaced.
    pub open spec fn with_items(self, scope: Scope, e: int, items: Seq<ItemView>) -> StateView {
        self.with_envs(
            scope,
            self.envs(scope).update(e, EnvView { items: items, ..self.envs(scope)[e] }),
        )
    }
}

/// Replacing the environments of a scope by themselves changes nothing.
pub proof fn lemma_with_envs_same(s: StateView, scope: Scope)
    requires
        s.in_scope(scope),
    ensures
        s.with_envs(scope, s.envs(scope)) == s,
{
    match scope {
        Scope::Shared => {},
        Scope::Project(p) => {
            assert(s.with_envs(scope, s.envs(scope)).projects =~= s.projects);
        },
    }
}

/// Replacing the environments of a scope twice keeps the second list.
pub proof fn lemma_with_envs_twice(s: StateView, scope: Scope, a: Seq<EnvView>, b: Seq<EnvView>)
    requires
        s.in_scope(scope),
    ensures
        s.with_envs(scope, a).in_scope(scope),
        s.with_envs(scope, a).envs(scope) == a,
        s.with_envs(scope, a).with_envs(scope, b) == s.with_envs(scope, b),
{
    match scope {
        Scope::Shared => {},
        Scope::Project(p) => {
            assert(s.with_envs(scope, a).with_envs(scope, b).projects =~= s.with_envs(
                scope,
                b,
            ).projects);
        },
    }
}

/// Replacing the items of an environment by themselves changes nothing.
pub proof fn lemma_with_items_same(s: StateView, scope: Scope, e: int)
    requires
        s.in_env(scope, e),
    ensures
        s.with_items(scope, e, s.items(scope, e)) == s,
{
    assert(s.envs(scope).update(e, EnvView { items: s.items(scope, e), ..s.envs(scope)[e] })
        =~= s.envs(scope));
    lemma_with_envs_same(s, scope);
}

/// Replacing the items of an environment twice keeps the second list.
pub proof fn lemma_with_items_twice(
    s: StateView,
    scope: Scope,
    e: int,
    a: Seq<ItemView>,
    b: Seq<ItemView>,
)
    requires
        s.in_env(scope, e),
    ensures
        s.with_items(scope, e, a).in_env(scope, e),
        s.with_items(scope, e, a).items(scope, e) == a,
        s.with_items(scope, e, a).with_items(scope, e, b) == s.with_items(scope, e, b),
{
    let envs = s.envs(scope);
    let ea = envs.update(e, EnvView { items: a, ..envs[e] });
    let eb = envs.update(e, EnvView { items: b, ..envs[e] });
    lemma_with_envs_twice(s, scope, ea, eb);
    assert(ea.update(e, EnvView { items: b, ..ea[e] }) =~= eb);
}

/// Appends to a list, stated over the models.
pub(crate) fn push_lifted<T: View>(v: &mut Vec<T>, x: T)
    ensures
        lift(final(v)@) == lift(old(v)@).push(x@),
        final(v)@ == old(v)@.push(x),
{
    v.push(x);
    assert(lift(v@) =~= lift(old(v)@).push(x@));
}

/// Inserts into a list, stated over the models.
pub(crate) fn insert_lifted<T: View>(v: &mut Vec<T>, i: usize, x: T)
    requires
        i <= old(v).len(),
    ensures
        lift(final(v)@) == lift(old(v)@).insert(i as int, x@),
        final(v)@ == old(v)@.insert(i as int, x),
{
    v.insert(i, x);
    assert(lift(v@) =~= lift(old(v)@).insert(i as int, x@));
}

/// Removes from a list, stated over the models.
pub(crate) fn remove_lifted<T: View>(v: &mut Vec<T>, i: usize) -> (x: T)
    requires
        i < old(v).len(),
    ensures
        x == old(v)@[i as int],
        lift(final(v)@) == lift(old(v)@).remove(i as int),
        final(v)@ == old(v)@.remove(i as int),
{
    let x = v.remove(i);
    assert(lift(v@) =~= lift(old(v)@).remove(i as int));
    x
}

/// Drops the last element of a list, stated over the models.
pub(crate) fn pop_lifted<T: View>(v: &mut Vec<T>)
    requires
        old(v).len() > 0,
    ensures
        lift(final(v)@) == lift(old(v)@).drop_last(),
        final(v)@ == old(v)@.drop_last(),
{
    let _ = v.pop();
    assert(v@ =~= old(v)@.drop_last());
    assert(lift(v@) =~= lift(old(v)@).drop_last());
}

/// The environments of a scope.
pub(crate) fn envs_of(state: &ConfigState, scope: Scope) -> (r: &Vec<Environment>)
    requires
        state@.in_scope(scope),
    ensures
        lift(r@) == state@.envs(scope),
{
    match scope {
        Scope::Shared => &state.shared_group.environments,
        Scope::Project(p) => &state.projects[p].environments,
    }
}

/// Replacing the environments of one project, seen through the models.
proof fn lemma_lift_project_envs(
    before: Seq<Project>,
    after: Seq<Project>,
    p: int,
)
    requires
        0 <= p < before.len(),
        after.len() == before.len(),
        forall|j: int| 0 <= j < before.len() && j != p ==> after[j] == before[j],
        after[p].name == before[p].name,
        after[p].description == before[p].description,
    ensures
        lift(after) == lift(before).update(
            p,
            ProjectView {
                name: before[p]@.name,
                description: before[p]@.description,
                environments: lift(after[p].environments@),
            },
        ),
{
    assert(lift(after) =~= lift(before).update(
        p,
        ProjectView {
            name: before[p]@.name,
            description: before[p]@.description,
            environments: lift(after[p].environments@),
        },
    ));
}

/// The environments of a scope, to be changed in place.
pub(crate) fn envs_mut(state: &mut ConfigState, scope: Scope) -> (r: &mut Vec<Environment>)
    requires
        old(state)@.in_scope(scope),
    ensures
        lift(r@) == old(state)@.envs(scope),
        final(state)@ == old(state)@.with_envs(scope, lift(final(r)@)),
{
    match scope {
        Scope::Shared => &mut state.shared_group.environments,
        Scope::Project(p) => {
            let r = &mut state.projects[p].environments;
            proof {
                lemma_lift_project_envs(
                    old(state).projects@,
                    old(state).projects@.update(
                        p as int,
                        Project {
                            name: old(state).projects@[p as int].name,
                            description: old(state).projects@[p as int].description,
                            environments: *final(r),
                        },
                    ),
                    p as int,
                );
            }
            r
        },
    }
}

/// The items of the environment at index `e` of a scope.
pub(crate) fn items_of(state: &ConfigState, scope: Scope, e: usize) -> (r: &Vec<ConfigItem>)
    requires
        state@.in_env(scope, e as int),
    ensures
        lift(r@) == state@.items(scope, e as int),
{
    &envs_of(state, scope)[e].config_items
}

/// Replacing the items of one environment, seen through the models.
proof fn lemma_lift_env_items(before: Seq<Environment>, after: Seq<Environment>, e: int)
    requires
        0 <= e < before.len(),
        after.len() == before.len(),
        forall|j: int| 0 <= j < before.len() && j != e ==> after[j] == before[j],
        after[e].name == before[e].name,
    ensures
        lift(after) == lift(before).update(
            e,
            EnvView { name: before[e]@.name, items: lift(after[e].config_items@) },
        ),
{
    assert(lift(after) =~= lift(before).update(
        e,
        EnvView { name: before[e]@.name, items: lift(after[e].config_items@) },
    ));
}

/// The items of the environment at index `e` of a scope, to be changed in
/// place.
pub(crate) fn items_mut(state: &mut ConfigState, scope: Scope, e: usize) -> (r: &mut Vec<ConfigItem>)
    requires
        old(state)@.in_env(scope, e as int),
    ensures
        lift(r@) == old(state)@.items(scope, e as int),
        final(state)@ == old(state)@.with_items(scope, e as int, lift(final(r)@)),
{
    let envs = envs_mut(state, scope);
    let ghost before = envs@;
    let r = &mut envs[e].config_items;
    proof {
        lemma_lift_env_items(
            before,
            before.update(
                e as int,
                Environment { name: before[e as int].name, config_items: *final(r) },
            ),
            e as int,
        );
    }
    r
}

} // verus!
